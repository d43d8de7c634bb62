//! Text primitives shared by the rest of the crate.
//!
//! Strings are reasoned about through their view, a `Seq<char>`. Scanning
//! code works on a `Vec<char>` copy of the text, so every index is a
//! character position.

use vstd::prelude::*;
use vstd::string::*;

verus! {

/// Whether `c` is whitespace in the sense of Unicode, as
/// `char::is_whitespace` reports it.
pub uninterp spec fn char_is_whitespace(c: char) -> bool;

/// The lowercase form of a text, as `str::to_lowercase` computes it.
pub uninterp spec fn lowercase_of(s: Seq<char>) -> Seq<char>;

/// The uppercase form of a text, as `str::to_uppercase` computes it.
pub uninterp spec fn uppercase_of(s: Seq<char>) -> Seq<char>;

/// Calls `char::is_whitespace`. Nothing is claimed about which characters
/// count as whitespace, only that the answer is a function of the character.
#[verifier::external_body]
pub(crate) fn is_whitespace(c: char) -> (b: bool)
    ensures
        b == char_is_whitespace(c),
{
    c.is_whitespace()
}

/// Calls `str::to_lowercase`; the result is named, not described.
#[verifier::external_body]
pub(crate) fn to_lowercase(s: &str) -> (r: String)
    ensures
        r@ == lowercase_of(s@),
{
    s.to_lowercase()
}

/// Calls `str::to_uppercase`; the result is named, not described.
#[verifier::external_body]
pub(crate) fn to_uppercase(s: &str) -> (r: String)
    ensures
        r@ == uppercase_of(s@),
{
    s.to_uppercase()
}

/// Calls `==` on two string slices: true exactly when both hold the same
/// characters in the same order.
#[verifier::external_body]
pub(crate) fn str_eq(a: &str, b: &str) -> (r: bool)
    ensures
        r == (a@ == b@),
{
    a == b
}

/// Calls `String::push`: the character is appended at the end.
#[verifier::external_body]
pub(crate) fn push_char(s: &mut String, c: char)
    ensures
        final(s)@ == old(s)@.push(c),
{
    s.push(c)
}

/// The characters of `s`, in order.
pub fn chars_of(s: &str) -> (r: Vec<char>)
    ensures
        r@ == s@,
{
    let mut v: Vec<char> = Vec::new();
    for c in it: s.chars()
        invariant
            v@ == it.seq().take(it.index() as int),
            it.seq() == s@,
    {
        v.push(c);
    }
    v
}

/// The text made of `v[from..to]`.
pub fn string_of(v: &Vec<char>, from: usize, to: usize) -> (r: String)
    requires
        from <= to <= v.len(),
    ensures
        r@ == v@.subrange(from as int, to as int),
{
    let mut s = String::new();
    let mut i: usize = from;
    while i < to
        invariant
            from <= i <= to <= v.len(),
            s@ == v@.subrange(from as int, i as int),
        decreases to - i,
    {
        push_char(&mut s, v[i]);
        i += 1;
    }
    s
}

/// `a` followed by `b`.
pub fn join2(a: &str, b: &str) -> (r: String)
    ensures
        r@ == a@ + b@,
{
    let mut s = a.to_owned();
    s.append(b);
    s
}

/// `a`, `b` and `c` one after the other.
pub fn join3(a: &str, b: &str, c: &str) -> (r: String)
    ensures
        r@ == a@ + b@ + c@,
{
    let mut s = a.to_owned();
    s.append(b);
    s.append(c);
    s
}

/// What is left of `s` once its leading whitespace is removed.
pub open spec fn skip_ws(s: Seq<char>) -> Seq<char>
    decreases s.len(),
{
    if s.len() > 0 && char_is_whitespace(s[0]) {
        skip_ws(s.drop_first())
    } else {
        s
    }
}

/// What is left of `s` once its trailing whitespace is removed.
pub open spec fn drop_ws(s: Seq<char>) -> Seq<char>
    decreases s.len(),
{
    if s.len() > 0 && char_is_whitespace(s.last()) {
        drop_ws(s.drop_last())
    } else {
        s
    }
}

/// `s` without leading and trailing whitespace.
pub open spec fn trimmed(s: Seq<char>) -> Seq<char> {
    drop_ws(skip_ws(s))
}

/// A text is blank when trimming leaves nothing.
pub open spec fn is_blank(s: Seq<char>) -> bool {
    trimmed(s).len() == 0
}

/// The first position at or after `from`, and before `to`, that holds no
/// whitespace; `to` when there is none.
pub fn skip_ws_from(v: &Vec<char>, from: usize, to: usize) -> (i: usize)
    requires
        from <= to <= v.len(),
    ensures
        from <= i <= to,
        skip_ws(v@.subrange(from as int, to as int)) == v@.subrange(i as int, to as int),
{
    let mut i: usize = from;
    while i < to && is_whitespace(v[i])
        invariant
            from <= i <= to <= v.len(),
            skip_ws(v@.subrange(from as int, to as int)) == skip_ws(
                v@.subrange(i as int, to as int),
            ),
        decreases to - i,
    {
        proof {
            assert(v@.subrange(i as int, to as int).drop_first() == v@.subrange(
                i as int + 1,
                to as int,
            ));
        }
        i += 1;
    }
    i
}

/// The end of the text `v[from..to]` once its trailing whitespace is removed.
pub fn drop_ws_to(v: &Vec<char>, from: usize, to: usize) -> (j: usize)
    requires
        from <= to <= v.len(),
    ensures
        from <= j <= to,
        drop_ws(v@.subrange(from as int, to as int)) == v@.subrange(from as int, j as int),
{
    let mut j: usize = to;
    while j > from && is_whitespace(v[j - 1])
        invariant
            from <= j <= to <= v.len(),
            drop_ws(v@.subrange(from as int, to as int)) == drop_ws(
                v@.subrange(from as int, j as int),
            ),
        decreases j - from,
    {
        proof {
            assert(v@.subrange(from as int, j as int).drop_last() == v@.subrange(
                from as int,
                j as int - 1,
            ));
        }
        j -= 1;
    }
    j
}

/// The bounds of `v[from..to]` without its leading and trailing whitespace.
pub fn trim_bounds(v: &Vec<char>, from: usize, to: usize) -> (r: (usize, usize))
    requires
        from <= to <= v.len(),
    ensures
        from <= r.0 <= r.1 <= to,
        trimmed(v@.subrange(from as int, to as int)) == v@.subrange(r.0 as int, r.1 as int),
{
    let a = skip_ws_from(v, from, to);
    let b = drop_ws_to(v, a, to);
    (a, b)
}

/// `s` without leading and trailing whitespace.
pub fn trim(s: &str) -> (r: String)
    ensures
        r@ == trimmed(s@),
{
    let v = chars_of(s);
    let (a, b) = trim_bounds(&v, 0, v.len());
    proof {
        assert(v@.subrange(0, v.len() as int) == v@);
    }
    string_of(&v, a, b)
}

/// `s` without trailing whitespace.
pub fn trim_end(s: &str) -> (r: String)
    ensures
        r@ == drop_ws(s@),
{
    let v = chars_of(s);
    let b = drop_ws_to(&v, 0, v.len());
    proof {
        assert(v@.subrange(0, v.len() as int) == v@);
    }
    string_of(&v, 0, b)
}

/// After leading whitespace is skipped, the text is empty or starts with a
/// character that is no whitespace.
pub proof fn lemma_skip_ws_head(s: Seq<char>)
    ensures
        skip_ws(s).len() == 0 || !char_is_whitespace(skip_ws(s)[0]),
    decreases s.len(),
{
    if s.len() > 0 && char_is_whitespace(s[0]) {
        lemma_skip_ws_head(s.drop_first());
    }
}

/// Removing trailing whitespace from a text that does not start with
/// whitespace leaves it empty only if it was empty.
pub proof fn lemma_drop_ws_empty_iff(s: Seq<char>)
    requires
        s.len() == 0 || !char_is_whitespace(s[0]),
    ensures
        drop_ws(s).len() == 0 <==> s.len() == 0,
    decreases s.len(),
{
    if s.len() > 0 && char_is_whitespace(s.last()) {
        assert(s.len() > 1);
        assert(s.drop_last()[0] == s[0]);
        lemma_drop_ws_empty_iff(s.drop_last());
    }
}

/// A text is blank exactly when skipping its leading whitespace leaves nothing.
pub proof fn lemma_blank_iff_all_skipped(s: Seq<char>)
    ensures
        is_blank(s) <==> skip_ws(s).len() == 0,
{
    lemma_skip_ws_head(s);
    lemma_drop_ws_empty_iff(skip_ws(s));
}

/// The character that stands for the digit `d`.
pub open spec fn digit_char(d: int) -> char {
    if d == 0 {
        '0'
    } else if d == 1 {
        '1'
    } else if d == 2 {
        '2'
    } else if d == 3 {
        '3'
    } else if d == 4 {
        '4'
    } else if d == 5 {
        '5'
    } else if d == 6 {
        '6'
    } else if d == 7 {
        '7'
    } else if d == 8 {
        '8'
    } else {
        '9'
    }
}

/// The decimal digits of `n`, most significant first, without padding.
pub open spec fn decimal_nat(n: nat) -> Seq<char>
    decreases n,
{
    if n < 10 {
        seq![digit_char(n as int)]
    } else {
        decimal_nat(n / 10).push(digit_char((n % 10) as int))
    }
}

/// The decimal form of `n`, with a leading minus sign when it is negative.
pub open spec fn decimal_int(n: int) -> Seq<char> {
    if n < 0 {
        seq!['-'] + decimal_nat((-n) as nat)
    } else {
        decimal_nat(n as nat)
    }
}

fn digit(d: u64) -> (c: char)
    requires
        d < 10,
    ensures
        c == digit_char(d as int),
{
    if d == 0 {
        '0'
    } else if d == 1 {
        '1'
    } else if d == 2 {
        '2'
    } else if d == 3 {
        '3'
    } else if d == 4 {
        '4'
    } else if d == 5 {
        '5'
    } else if d == 6 {
        '6'
    } else if d == 7 {
        '7'
    } else if d == 8 {
        '8'
    } else {
        '9'
    }
}

/// Appends the decimal digits of `n` to `out`.
pub fn push_decimal(out: &mut String, n: u64)
    ensures
        final(out)@ == old(out)@ + decimal_nat(n as nat),
    decreases n,
{
    if n >= 10 {
        push_decimal(out, n / 10);
    }
    push_char(out, digit(n % 10));
    assert(final(out)@ =~= old(out)@ + decimal_nat(n as nat));
}

/// The decimal form of an unsigned number.
pub fn u64_to_string(n: u64) -> (r: String)
    ensures
        r@ == decimal_nat(n as nat),
{
    let mut s = String::new();
    push_decimal(&mut s, n);
    assert(s@ =~= decimal_nat(n as nat));
    s
}

/// The decimal form of a signed number.
pub fn i64_to_string(n: i64) -> (r: String)
    ensures
        r@ == decimal_int(n as int),
{
    let mut s = String::new();
    if n < 0 {
        push_char(&mut s, '-');
        let m: u64 = if n == i64::MIN {
            9223372036854775808u64
        } else {
            (-n) as u64
        };
        push_decimal(&mut s, m);
        assert(s@ =~= decimal_int(n as int));
    } else {
        push_decimal(&mut s, n as u64);
        assert(s@ =~= decimal_int(n as int));
    }
    s
}

/// Whether `s` begins with `pat`.
pub open spec fn starts_with(s: Seq<char>, pat: Seq<char>) -> bool {
    pat.len() <= s.len() && s.subrange(0, pat.len() as int) == pat
}

/// The position of the first occurrence of `pat` in `s`, if there is one.
pub open spec fn find_sub(s: Seq<char>, pat: Seq<char>) -> Option<int>
    decreases s.len(),
{
    if starts_with(s, pat) {
        Some(0)
    } else if s.len() == 0 {
        None
    } else {
        match find_sub(s.drop_first(), pat) {
            Some(i) => Some(i + 1),
            None => None,
        }
    }
}

/// Whether `pat` occurs somewhere in `s`.
pub open spec fn contains_sub(s: Seq<char>, pat: Seq<char>) -> bool {
    find_sub(s, pat) is Some
}

/// The position of the first `c` in `s`, or the length of `s` when it holds none.
pub open spec fn index_of_char(s: Seq<char>, c: char) -> int
    decreases s.len(),
{
    if s.len() == 0 || s[0] == c {
        0
    } else {
        1 + index_of_char(s.drop_first(), c)
    }
}

/// `s` without the run of `c` it starts with.
pub open spec fn strip_leading(s: Seq<char>, c: char) -> Seq<char>
    decreases s.len(),
{
    if s.len() > 0 && s[0] == c {
        strip_leading(s.drop_first(), c)
    } else {
        s
    }
}

/// The number of characters at the start of `s` that are no whitespace.
pub open spec fn word_len(s: Seq<char>) -> int
    decreases s.len(),
{
    if s.len() == 0 || char_is_whitespace(s[0]) {
        0
    } else {
        1 + word_len(s.drop_first())
    }
}

/// The words of `s` joined by single spaces: runs of whitespace collapse to
/// one space, and whitespace at either end disappears.
pub open spec fn collapse_ws(s: Seq<char>) -> Seq<char>
    decreases s.len(),
    via collapse_ws_decreases
{
    let t = skip_ws(s);
    if t.len() == 0 {
        Seq::empty()
    } else {
        let n = word_len(t);
        let rest = collapse_ws(t.skip(n));
        if rest.len() == 0 {
            t.take(n)
        } else {
            t.take(n) + seq![' '] + rest
        }
    }
}

#[via_fn]
proof fn collapse_ws_decreases(s: Seq<char>) {
    let t = skip_ws(s);
    if t.len() != 0 {
        lemma_skip_ws_len(s);
        lemma_skip_ws_head(s);
        lemma_word_len_bounds(t);
    }
}

/// Skipping whitespace never makes a text longer.
pub proof fn lemma_skip_ws_len(s: Seq<char>)
    ensures
        skip_ws(s).len() <= s.len(),
    decreases s.len(),
{
    if s.len() > 0 && char_is_whitespace(s[0]) {
        lemma_skip_ws_len(s.drop_first());
    }
}

/// A word is no longer than the text it starts, and is not empty when the
/// text starts with a character that is no whitespace.
pub proof fn lemma_word_len_bounds(s: Seq<char>)
    ensures
        0 <= word_len(s) <= s.len(),
        s.len() > 0 && !char_is_whitespace(s[0]) ==> word_len(s) > 0,
    decreases s.len(),
{
    if !(s.len() == 0 || char_is_whitespace(s[0])) {
        lemma_word_len_bounds(s.drop_first());
    }
}

/// `n` spaces.
pub open spec fn spaces(n: int) -> Seq<char> {
    Seq::new(
        if n > 0 {
            n as nat
        } else {
            0
        },
        |i: int| ' ',
    )
}

/// `s` followed by as many spaces as it takes to reach `width` characters.
pub open spec fn pad_right(s: Seq<char>, width: int) -> Seq<char> {
    s + spaces(width - s.len())
}

/// `s` preceded by as many spaces as it takes to reach `width` characters.
pub open spec fn pad_left(s: Seq<char>, width: int) -> Seq<char> {
    spaces(width - s.len()) + s
}

/// Whether `v[at..]` begins with `pat`, looking no further than `to`.
pub fn starts_with_at(v: &Vec<char>, at: usize, to: usize, pat: &Vec<char>) -> (r: bool)
    requires
        at <= to <= v.len(),
    ensures
        r == starts_with(v@.subrange(at as int, to as int), pat@),
{
    if pat.len() > to - at {
        return false;
    }
    let mut k: usize = 0;
    while k < pat.len()
        invariant
            at <= to <= v.len(),
            pat.len() <= to - at,
            k <= pat.len(),
            forall|j: int| 0 <= j < k ==> v@[at + j] == pat@[j],
        decreases pat.len() - k,
    {
        if v[at + k] != pat[k] {
            proof {
                let sub = v@.subrange(at as int, to as int);
                assert(sub.subrange(0, pat.len() as int)[k as int] == v@[at + k]);
            }
            return false;
        }
        k += 1;
    }
    proof {
        let sub = v@.subrange(at as int, to as int);
        assert(sub.subrange(0, pat.len() as int) =~= pat@);
    }
    true
}

/// The position of the first occurrence of `pat` in `v[from..to]`, counted
/// from the start of `v`.
pub fn find_sub_in(v: &Vec<char>, from: usize, to: usize, pat: &Vec<char>) -> (r: Option<usize>)
    requires
        from <= to <= v.len(),
    ensures
        match r {
            Some(i) => from <= i <= to && find_sub(v@.subrange(from as int, to as int), pat@)
                == Some(i - from) && i + pat.len() <= to,
            None => find_sub(v@.subrange(from as int, to as int), pat@) is None,
        },
{
    let mut i: usize = from;
    loop
        invariant
            from <= i <= to <= v.len(),
            find_sub(v@.subrange(from as int, to as int), pat@) == (match find_sub(
                v@.subrange(i as int, to as int),
                pat@,
            ) {
                Some(k) => Some(k + (i - from)),
                None => None,
            }),
        decreases to - i,
    {
        if starts_with_at(v, i, to, pat) {
            return Some(i);
        }
        if i == to {
            return None;
        }
        proof {
            assert(v@.subrange(i as int, to as int).drop_first() == v@.subrange(
                i as int + 1,
                to as int,
            ));
        }
        i += 1;
    }
}

/// The position of the first `c` in `v[from..to]`, counted from the start of
/// `v`; `to` when there is none.
pub fn find_char_in(v: &Vec<char>, from: usize, to: usize, c: char) -> (r: usize)
    requires
        from <= to <= v.len(),
    ensures
        from <= r <= to,
        r - from == index_of_char(v@.subrange(from as int, to as int), c),
{
    let mut i: usize = from;
    while i < to && v[i] != c
        invariant
            from <= i <= to <= v.len(),
            index_of_char(v@.subrange(from as int, to as int), c) == (i - from) + index_of_char(
                v@.subrange(i as int, to as int),
                c,
            ),
        decreases to - i,
    {
        proof {
            assert(v@.subrange(i as int, to as int).drop_first() == v@.subrange(
                i as int + 1,
                to as int,
            ));
        }
        i += 1;
    }
    i
}

/// The first position at or after `from` that does not hold `c`.
pub fn strip_leading_from(v: &Vec<char>, from: usize, to: usize, c: char) -> (r: usize)
    requires
        from <= to <= v.len(),
    ensures
        from <= r <= to,
        strip_leading(v@.subrange(from as int, to as int), c) == v@.subrange(r as int, to as int),
{
    let mut i: usize = from;
    while i < to && v[i] == c
        invariant
            from <= i <= to <= v.len(),
            strip_leading(v@.subrange(from as int, to as int), c) == strip_leading(
                v@.subrange(i as int, to as int),
                c,
            ),
        decreases to - i,
    {
        proof {
            assert(v@.subrange(i as int, to as int).drop_first() == v@.subrange(
                i as int + 1,
                to as int,
            ));
        }
        i += 1;
    }
    i
}

/// The end of the word that starts at `from`.
pub fn word_end(v: &Vec<char>, from: usize, to: usize) -> (r: usize)
    requires
        from <= to <= v.len(),
    ensures
        from <= r <= to,
        r - from == word_len(v@.subrange(from as int, to as int)),
{
    let mut i: usize = from;
    while i < to && !is_whitespace(v[i])
        invariant
            from <= i <= to <= v.len(),
            word_len(v@.subrange(from as int, to as int)) == (i - from) + word_len(
                v@.subrange(i as int, to as int),
            ),
        decreases to - i,
    {
        proof {
            assert(v@.subrange(i as int, to as int).drop_first() == v@.subrange(
                i as int + 1,
                to as int,
            ));
        }
        i += 1;
    }
    i
}

/// Appends `v[from..to]` to `out`.
pub fn push_range(out: &mut String, v: &Vec<char>, from: usize, to: usize)
    requires
        from <= to <= v.len(),
    ensures
        final(out)@ == old(out)@ + v@.subrange(from as int, to as int),
{
    let mut i: usize = from;
    while i < to
        invariant
            from <= i <= to <= v.len(),
            out@ == old(out)@ + v@.subrange(from as int, i as int),
        decreases to - i,
    {
        push_char(out, v[i]);
        assert(out@ =~= old(out)@ + v@.subrange(from as int, i as int + 1));
        i += 1;
    }
}

/// The words of `s` joined by single spaces.
#[verifier::rlimit(50)]
pub fn collapse_whitespace(s: &str) -> (r: String)
    ensures
        r@ == collapse_ws(s@),
{
    let v = chars_of(s);
    let n = v.len();
    let mut out = String::new();
    let mut i: usize = 0;
    let mut first = true;
    proof {
        assert(v@.subrange(0, n as int) == v@);
    }
    loop
        invariant
            i <= n == v.len(),
            v@ == s@,
            first <==> out@.len() == 0,
            collapse_ws(s@) == (if collapse_ws(v@.subrange(i as int, n as int)).len() == 0 {
                out@
            } else if first {
                collapse_ws(v@.subrange(i as int, n as int))
            } else {
                out@ + seq![' '] + collapse_ws(v@.subrange(i as int, n as int))
            }),
        decreases n - i,
    {
        let ghost cur = v@.subrange(i as int, n as int);
        let ghost before = out@;
        let a = skip_ws_from(&v, i, n);
        if a == n {
            assert(collapse_ws(cur).len() == 0);
            return out;
        }
        let b = word_end(&v, a, n);
        proof {
            let t = skip_ws(cur);
            assert(t == v@.subrange(a as int, n as int));
            lemma_skip_ws_head(cur);
            lemma_word_len_bounds(t);
            assert(t.take(b - a) =~= v@.subrange(a as int, b as int));
            assert(t.skip(b - a) =~= v@.subrange(b as int, n as int));
        }
        if !first {
            push_char(&mut out, ' ');
        }
        push_range(&mut out, &v, a, b);
        proof {
            let t = skip_ws(cur);
            let rest = collapse_ws(v@.subrange(b as int, n as int));
            assert(collapse_ws(cur) == if rest.len() == 0 {
                t.take(b - a)
            } else {
                t.take(b - a) + seq![' '] + rest
            });
            if first {
                assert(out@ =~= t.take(b - a));
            } else {
                assert(out@ =~= before + seq![' '] + t.take(b - a));
            }
        }
        first = false;
        i = b;
    }
}

/// Appends spaces to `out` until `have` characters have grown to `width`.
pub fn push_spaces(out: &mut String, have: usize, width: usize)
    ensures
        final(out)@ == old(out)@ + spaces(width - have),
{
    let mut k: usize = have;
    assert(out@ =~= old(out)@ + spaces(0));
    while k < width
        invariant
            have <= k <= width || width < have && k == have,
            out@ == old(out)@ + spaces(k - have),
        decreases width - k,
    {
        push_char(out, ' ');
        assert(out@ =~= old(out)@ + spaces(k + 1 - have));
        k += 1;
    }
    assert(out@ =~= old(out)@ + spaces(width - have));
}

/// Appends `s` to `out`, followed by spaces up to `width` characters.
pub fn push_padded_right(out: &mut String, s: &str, width: usize)
    ensures
        final(out)@ == old(out)@ + pad_right(s@, width as int),
{
    let n = s.unicode_len();
    out.append(s);
    push_spaces(out, n, width);
    assert(final(out)@ =~= old(out)@ + pad_right(s@, width as int));
}

/// Appends `s` to `out`, preceded by spaces up to `width` characters.
pub fn push_padded_left(out: &mut String, s: &str, width: usize)
    ensures
        final(out)@ == old(out)@ + pad_left(s@, width as int),
{
    let n = s.unicode_len();
    push_spaces(out, n, width);
    out.append(s);
    assert(final(out)@ =~= old(out)@ + pad_left(s@, width as int));
}

/// The pieces of `s` between the occurrences of `c`, in order; one piece
/// more than there are occurrences.
pub open spec fn split_on(s: Seq<char>, c: char) -> Seq<Seq<char>>
    decreases s.len(),
    via split_on_decreases
{
    let i = index_of_char(s, c);
    if i >= s.len() {
        seq![s]
    } else {
        seq![s.take(i)] + split_on(s.skip(i + 1), c)
    }
}

#[via_fn]
proof fn split_on_decreases(s: Seq<char>, c: char) {
    lemma_index_of_char_bounds(s, c);
}

/// The first occurrence of a character lies within the text, or at its end
/// when there is none.
pub proof fn lemma_index_of_char_bounds(s: Seq<char>, c: char)
    ensures
        0 <= index_of_char(s, c) <= s.len(),
        index_of_char(s, c) < s.len() ==> s[index_of_char(s, c)] == c,
    decreases s.len(),
{
    if !(s.len() == 0 || s[0] == c) {
        lemma_index_of_char_bounds(s.drop_first(), c);
    }
}

/// The bounds, within `v`, of the pieces of `v[from..to]` between the
/// occurrences of `c`.
#[verifier::rlimit(50)]
pub fn split_ranges(v: &Vec<char>, from: usize, to: usize, c: char) -> (r: Vec<(usize, usize)>)
    requires
        from <= to <= v.len(),
    ensures
        r@.len() == split_on(v@.subrange(from as int, to as int), c).len(),
        forall|k: int|
            0 <= k < r@.len() ==> from <= (#[trigger] r@[k]).0 <= r@[k].1 <= to && v@.subrange(
                r@[k].0 as int,
                r@[k].1 as int,
            ) == split_on(v@.subrange(from as int, to as int), c)[k],
{
    let ghost whole = split_on(v@.subrange(from as int, to as int), c);
    let mut out: Vec<(usize, usize)> = Vec::new();
    let mut start: usize = from;
    loop
        invariant
            from <= start <= to <= v.len(),
            whole == split_on(v@.subrange(from as int, to as int), c),
            whole.len() == out@.len() + split_on(v@.subrange(start as int, to as int), c).len(),
            forall|k: int|
                0 <= k < out@.len() ==> from <= (#[trigger] out@[k]).0 <= out@[k].1 <= to
                    && v@.subrange(out@[k].0 as int, out@[k].1 as int) == whole[k],
            forall|k: int|
                0 <= k < split_on(v@.subrange(start as int, to as int), c).len() ==> whole[out@.len()
                    + k] == #[trigger] split_on(v@.subrange(start as int, to as int), c)[k],
        decreases to - start,
    {
        let ghost rest = v@.subrange(start as int, to as int);
        let ghost pieces = split_on(rest, c);
        let end = find_char_in(v, start, to, c);
        proof {
            lemma_index_of_char_bounds(rest, c);
            assert(rest.take(end - start) =~= v@.subrange(start as int, end as int));
        }
        out.push((start, end));
        if end == to {
            proof {
                assert(pieces =~= seq![rest]);
                assert(rest =~= v@.subrange(start as int, end as int));
                assert(whole[out@.len() - 1] == pieces[0]);
            }
            return out;
        }
        proof {
            let tail = split_on(v@.subrange(end as int + 1, to as int), c);
            assert(rest.skip(end - start + 1) =~= v@.subrange(end as int + 1, to as int));
            assert(pieces =~= seq![rest.take(end - start)] + tail);
            assert(whole[out@.len() - 1] == pieces[0]);
            assert forall|k: int| 0 <= k < tail.len() implies whole[out@.len() + k]
                == #[trigger] tail[k] by {
                assert(pieces[k + 1] == tail[k]);
                assert(whole[out@.len() - 1 + (k + 1)] == pieces[k + 1]);
            }
        }
        start = end + 1;
    }
}

/// An ASCII letter or digit.
pub open spec fn is_ascii_alnum(c: char) -> bool {
    let n = c as u32;
    (48 <= n <= 57) || (65 <= n <= 90) || (97 <= n <= 122)
}

/// Whether `c` is an ASCII letter or digit.
pub fn ascii_alnum(c: char) -> (r: bool)
    ensures
        r == is_ascii_alnum(c),
{
    let n = c as u32;
    (48 <= n && n <= 57) || (65 <= n && n <= 90) || (97 <= n && n <= 122)
}

/// Whether `c` is one of the digits `0` to `9`.
pub open spec fn is_digit(c: char) -> bool {
    48 <= c as u32 <= 57
}

/// The number the digits of `s` spell in base ten; 0 for no digits.
pub open spec fn digits_value(s: Seq<char>) -> int
    decreases s.len(),
{
    if s.len() == 0 {
        0
    } else {
        digits_value(s.drop_last()) * 10 + (s.last() as u32 - 48)
    }
}

/// Whether `s` consists of digits only.
pub open spec fn all_digits(s: Seq<char>) -> bool {
    forall|i: int| 0 <= i < s.len() ==> is_digit(#[trigger] s[i])
}

/// The number `s` spells, if it spells one that is at most `max`: an
/// optional `+`, then one or more digits, and nothing else.
pub open spec fn parsed_unsigned(s: Seq<char>, max: int) -> Option<int> {
    let body = if s.len() > 0 && s[0] == '+' {
        s.drop_first()
    } else {
        s
    };
    if body.len() > 0 && all_digits(body) && digits_value(body) <= max {
        Some(digits_value(body))
    } else {
        None
    }
}

/// A longer run of digits does not spell a smaller number.
pub proof fn lemma_digits_value_grows(s: Seq<char>, k: int)
    requires
        all_digits(s),
        0 <= k <= s.len(),
    ensures
        0 <= digits_value(s.take(k)) <= digits_value(s),
    decreases s.len() - k,
{
    lemma_digits_value_nonneg(s.take(k));
    if k < s.len() {
        lemma_digits_value_grows(s, k + 1);
        assert(s.take(k + 1).drop_last() =~= s.take(k));
        assert(is_digit(s[k]));
        assert(s.take(k + 1).last() == s[k]);
    } else {
        assert(s.take(k) =~= s);
    }
}

proof fn lemma_digits_value_nonneg(s: Seq<char>)
    requires
        all_digits(s),
    ensures
        0 <= digits_value(s),
    decreases s.len(),
{
    if s.len() > 0 {
        assert(is_digit(s[s.len() - 1]));
        assert forall|i: int| 0 <= i < s.drop_last().len() implies is_digit(
            #[trigger] s.drop_last()[i],
        ) by {
            assert(s.drop_last()[i] == s[i]);
        }
        lemma_digits_value_nonneg(s.drop_last());
    }
}

/// Reads an unsigned decimal number of at most `max` from `s`.
#[verifier::rlimit(50)]
pub fn parse_unsigned(s: &str, max: u64) -> (r: Option<u64>)
    ensures
        match r {
            Some(n) => parsed_unsigned(s@, max as int) == Some(n as int),
            None => parsed_unsigned(s@, max as int) is None,
        },
{
    let v = chars_of(s);
    let start: usize = if v.len() > 0 && v[0] == '+' {
        1
    } else {
        0
    };
    let ghost body = v@.subrange(start as int, v.len() as int);
    proof {
        assert(body =~= if s@.len() > 0 && s@[0] == '+' {
            s@.drop_first()
        } else {
            s@
        });
    }
    if start == v.len() {
        return None;
    }
    let mut acc: u64 = 0;
    let mut i: usize = start;
    assert(body.take(0) =~= Seq::<char>::empty());
    while i < v.len()
        invariant
            start <= i <= v.len(),
            body == v@.subrange(start as int, v.len() as int),
            body == (if s@.len() > 0 && s@[0] == '+' {
                s@.drop_first()
            } else {
                s@
            }),
            body.len() > 0,
            all_digits(body.take(i - start)),
            acc as int == digits_value(body.take(i - start)),
            acc <= max,
        decreases v.len() - i,
    {
        let c = v[i];
        let n = c as u32;
        proof {
            assert(body[i - start] == c);
            assert(body.take(i - start + 1).drop_last() =~= body.take(i - start));
            assert(body.take(i - start + 1).last() == c);
        }
        if n < 48 || n > 57 {
            proof {
                assert(!is_digit(body[i - start]));
            }
            return None;
        }
        let d = (n - 48) as u64;
        let next: u128 = acc as u128 * 10 + d as u128;
        proof {
            assert forall|j: int| 0 <= j < body.take(i - start + 1).len() implies is_digit(
                #[trigger] body.take(i - start + 1)[j],
            ) by {
                if j < i - start {
                    assert(body.take(i - start + 1)[j] == body.take(i - start)[j]);
                }
            }
        }
        if next > max as u128 {
            proof {
                if all_digits(body) {
                    lemma_digits_value_grows(body, i - start + 1);
                }
            }
            return None;
        }
        acc = next as u64;
        i += 1;
    }
    proof {
        assert(body.take(v.len() - start) =~= body);
    }
    Some(acc)
}

/// Appends `line` to `out`.
pub fn push_line(out: &mut Vec<String>, line: String)
    ensures
        final(out).deep_view() == old(out).deep_view().push(line@),
{
    out.push(line);
    assert(final(out).deep_view() =~= old(out).deep_view().push(line@));
}

/// The texts of `lines` with `sep` between each two neighbours.
pub open spec fn join_with(lines: Seq<Seq<char>>, sep: Seq<char>) -> Seq<char>
    decreases lines.len(),
{
    if lines.len() == 0 {
        Seq::empty()
    } else if lines.len() == 1 {
        lines[0]
    } else {
        join_with(lines.drop_last(), sep) + sep + lines.last()
    }
}

/// Joins `lines`, putting `sep` between each two neighbours.
pub fn join_lines(lines: &Vec<String>, sep: &str) -> (r: String)
    ensures
        r@ == join_with(lines.deep_view(), sep@),
{
    let ghost all = lines.deep_view();
    let mut out = String::new();
    let mut i: usize = 0;
    assert(all.take(0) =~= Seq::<Seq<char>>::empty());
    while i < lines.len()
        invariant
            i <= lines.len(),
            all == lines.deep_view(),
            out@ == join_with(all.take(i as int), sep@),
        decreases lines.len() - i,
    {
        proof {
            assert(all.take(i as int + 1).drop_last() =~= all.take(i as int));
            assert(all.take(i as int + 1).last() == lines[i as int]@);
        }
        if i > 0 {
            out.append(sep);
        }
        out.append(lines[i].as_str());
        proof {
            if i == 0 {
                assert(out@ =~= lines[i as int]@);
            }
        }
        i += 1;
    }
    assert(all.take(lines.len() as int) =~= all);
    out
}

} // verus!
