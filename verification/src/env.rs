//! Profile-specific settings and `${NAME}` expansion over a set of variables.
//!
//! The variables are handed in as a list of name and value pairs; nothing
//! here reads the process environment.

use crate::config::{TaskSpec, TaskSpecView};
use crate::text::{
    ascii_alnum, chars_of, contains_sub, find_char_in, find_sub, find_sub_in, index_of_char,
    is_ascii_alnum, join3, lemma_index_of_char_bounds, push_char, split_on, split_ranges, str_eq,
    string_of, to_uppercase, trim, trim_bounds, trimmed, uppercase_of,
};
use vstd::prelude::*;
use vstd::string::*;

verus! {

/// A set of variables: names with their values, in a fixed order.
pub type Vars = Vec<(String, String)>;

/// The mathematical content of [`Vars`].
pub type VarsView = Seq<(Seq<char>, Seq<char>)>;

/// The value of the first variable called `name`.
pub open spec fn lookup(vars: VarsView, name: Seq<char>) -> Option<Seq<char>>
    decreases vars.len(),
{
    if vars.len() == 0 {
        None
    } else if vars[0].0 == name {
        Some(vars[0].1)
    } else {
        lookup(vars.drop_first(), name)
    }
}

/// The value of the first variable called `name`.
pub fn get_var(vars: &Vars, name: &str) -> (r: Option<String>)
    ensures
        r.deep_view() == lookup(vars.deep_view(), name@),
{
    let ghost all = vars.deep_view();
    let mut i: usize = 0;
    proof {
        assert(all.skip(0) =~= all);
    }
    while i < vars.len()
        invariant
            i <= vars.len(),
            all == vars.deep_view(),
            lookup(all, name@) == lookup(all.skip(i as int), name@),
        decreases vars.len() - i,
    {
        proof {
            assert(all.skip(i as int)[0] == vars[i as int].deep_view());
            assert(all.skip(i as int).drop_first() =~= all.skip(i as int + 1));
        }
        if str_eq(vars[i].0.as_str(), name) {
            return Some(vars[i].1.clone());
        }
        i += 1;
    }
    None
}

/// The suffix a profile adds to a key: the profile trimmed, in upper case,
/// with every character that is no ASCII letter or digit replaced by `_`.
pub open spec fn profile_suffix(profile: Seq<char>) -> Seq<char> {
    uppercase_of(trimmed(profile)).map_values(
        |c: char|
            if is_ascii_alnum(c) {
                c
            } else {
                '_'
            },
    )
}

/// The key under which a profile keeps its own value of `base_key`:
/// `base_key` itself for a blank profile, `base_key_SUFFIX` otherwise.
pub open spec fn profile_key(base_key: Seq<char>, profile: Seq<char>) -> Seq<char> {
    let p = profile_suffix(profile);
    if p.len() == 0 {
        base_key
    } else {
        base_key + "_"@ + p
    }
}

/// The key under which `profile` keeps its own value of `base_key`.
pub fn key_for_profile(base_key: &str, profile: &str) -> (r: String)
    ensures
        r@ == profile_key(base_key@, profile@),
{
    let upper = to_uppercase(trim(profile).as_str());
    let chars = chars_of(upper.as_str());
    let mut p = String::new();
    let mut i: usize = 0;
    let ghost f = |c: char|
        if is_ascii_alnum(c) {
            c
        } else {
            '_'
        };
    assert(p@ =~= chars@.take(0).map_values(f));
    while i < chars.len()
        invariant
            i <= chars.len(),
            f == |c: char|
                if is_ascii_alnum(c) {
                    c
                } else {
                    '_'
                },
            p@ == chars@.take(i as int).map_values(f),
        decreases chars.len() - i,
    {
        let c = chars[i];
        if ascii_alnum(c) {
            push_char(&mut p, c);
        } else {
            push_char(&mut p, '_');
        }
        assert(p@ =~= chars@.take(i as int + 1).map_values(f));
        i += 1;
    }
    assert(chars@.take(chars.len() as int) =~= chars@);
    if p.as_str().unicode_len() == 0 {
        base_key.to_owned()
    } else {
        join3(base_key, "_", p.as_str())
    }
}

/// The value a profile has for `base_key`: that of its own key if set, else
/// that of `base_key`, else nothing.
pub open spec fn profile_value(base_key: Seq<char>, profile: Seq<char>, vars: VarsView) -> Seq<
    char,
> {
    match lookup(vars, profile_key(base_key, profile)) {
        Some(v) => v,
        None => match lookup(vars, base_key) {
            Some(v) => v,
            None => Seq::empty(),
        },
    }
}

/// The value `profile` has for `base_key` among `vars`.
pub fn get_profile_value(base_key: &str, profile: &str, vars: &Vars) -> (r: String)
    ensures
        r@ == profile_value(base_key@, profile@, vars.deep_view()),
{
    let k = key_for_profile(base_key, profile);
    match get_var(vars, k.as_str()) {
        Some(v) => v,
        None => match get_var(vars, base_key) {
            Some(v) => v,
            None => String::new(),
        },
    }
}

/// The task a line of a task list stands for, if any. A blank line and a
/// line that starts with `#` stand for none. `name::command` gives that task,
/// called `task` when the name is blank, and none when the command is blank;
/// a line without `::` is the command of a task called `task`.
pub open spec fn task_of_line(line: Seq<char>) -> Option<TaskSpecView> {
    let t = trimmed(line);
    if t.len() == 0 || t[0] == '#' {
        None
    } else {
        match find_sub(t, "::"@) {
            Some(i) => {
                let name = trimmed(t.subrange(0, i));
                let cmd = trimmed(t.subrange(i + 2, t.len() as int));
                if cmd.len() == 0 {
                    None
                } else {
                    Some(
                        TaskSpecView {
                            name: if name.len() == 0 {
                                "task"@
                            } else {
                                name
                            },
                            cmd,
                        },
                    )
                }
            },
            None => Some(TaskSpecView { name: "task"@, cmd: t }),
        }
    }
}

/// The tasks the lines stand for, in order.
pub open spec fn tasks_of_lines(lines: Seq<Seq<char>>) -> Seq<TaskSpecView>
    decreases lines.len(),
{
    if lines.len() == 0 {
        Seq::empty()
    } else {
        match task_of_line(lines.last()) {
            Some(t) => tasks_of_lines(lines.drop_last()).push(t),
            None => tasks_of_lines(lines.drop_last()),
        }
    }
}

/// The tasks a task list stands for: one per line, as `task_of_line` reads it.
pub open spec fn parsed_tasks(raw: Seq<char>) -> Seq<TaskSpecView> {
    tasks_of_lines(split_on(trimmed(raw), '\n'))
}

#[verifier::rlimit(50)]
fn parse_task_line(v: &Vec<char>, from: usize, to: usize, colons: &Vec<char>) -> (r: Option<
    TaskSpec,
>)
    requires
        from <= to <= v.len(),
        colons@ == "::"@,
    ensures
        r.deep_view() == task_of_line(v@.subrange(from as int, to as int)),
{
    let (a, b) = trim_bounds(v, from, to);
    let ghost t = v@.subrange(a as int, b as int);
    if a == b {
        return None;
    }
    assert(t[0] == v@[a as int]);
    if v[a] == '#' {
        return None;
    }
    proof {
        reveal_strlit("::");
    }
    match find_sub_in(v, a, b, colons) {
        Some(i) => {
            proof {
                assert(t.subrange(0, i - a) =~= v@.subrange(a as int, i as int));
                assert(t.subrange(i - a + 2, t.len() as int) =~= v@.subrange(
                    i as int + 2,
                    b as int,
                ));
            }
            let (na, nb) = trim_bounds(v, a, i);
            let (ca, cb) = trim_bounds(v, i + 2, b);
            if ca == cb {
                None
            } else {
                let name = if na == nb {
                    "task".to_owned()
                } else {
                    string_of(v, na, nb)
                };
                Some(TaskSpec { name, cmd: string_of(v, ca, cb) })
            }
        },
        None => Some(TaskSpec { name: "task".to_owned(), cmd: string_of(v, a, b) }),
    }
}

/// Reads a task list: one task per line, either `name::command` or just a
/// command; blank lines and lines that start with `#` are skipped.
#[verifier::rlimit(50)]
pub fn parse_post_up_tasks(raw: &str) -> (r: Vec<TaskSpec>)
    ensures
        r.deep_view() == parsed_tasks(raw@),
{
    let text = trim(raw);
    let v = chars_of(text.as_str());
    let colons = chars_of("::");
    proof {
        assert(v@.subrange(0, v.len() as int) =~= v@);
    }
    let ranges = split_ranges(&v, 0, v.len(), '\n');
    let ghost lines = split_on(v@, '\n');
    let mut tasks: Vec<TaskSpec> = Vec::new();
    let mut k: usize = 0;
    assert(lines.take(0) =~= Seq::<Seq<char>>::empty());
    assert(tasks.deep_view() =~= tasks_of_lines(lines.take(0)));
    while k < ranges.len()
        invariant
            k <= ranges.len(),
            colons@ == "::"@,
            lines == split_on(v@, '\n'),
            ranges@.len() == lines.len(),
            forall|j: int|
                0 <= j < ranges@.len() ==> 0 <= (#[trigger] ranges@[j]).0 <= ranges@[j].1 <= v.len()
                    && v@.subrange(ranges@[j].0 as int, ranges@[j].1 as int) == lines[j],
            tasks.deep_view() == tasks_of_lines(lines.take(k as int)),
        decreases ranges.len() - k,
    {
        proof {
            assert(lines.take(k as int + 1).drop_last() =~= lines.take(k as int));
            assert(lines.take(k as int + 1).last() == lines[k as int]);
        }
        let (a, b) = ranges[k];
        let ghost before = tasks.deep_view();
        match parse_task_line(&v, a, b, &colons) {
            Some(t) => {
                let ghost shown = t.deep_view();
                tasks.push(t);
                assert(tasks.deep_view() =~= before.push(shown));
            },
            None => {},
        }
        k += 1;
    }
    assert(lines.take(ranges.len() as int) =~= lines);
    tasks
}

/// What a reference `${inner}` inside the value of `key` stands for. `inner`
/// is a name, or `name:-default`. The name stands for its value when it is
/// another variable with a non-empty value; otherwise the default is used,
/// or nothing when there is none.
pub open spec fn reference_value(key: Seq<char>, inner: Seq<char>, vars: VarsView) -> Seq<char> {
    let (name, fallback) = match find_sub(inner, ":-"@) {
        Some(p) => (inner.subrange(0, p), inner.subrange(p + 2, inner.len() as int)),
        None => (inner, Seq::empty()),
    };
    if name != key {
        match lookup(vars, name) {
            Some(v) => if v.len() > 0 {
                v
            } else {
                fallback
            },
            None => fallback,
        }
    } else {
        fallback
    }
}

/// `s`, the value of `key`, with every `${...}` reference replaced by what it
/// stands for. A `${` that is never closed is kept as it is.
pub open spec fn expanded(key: Seq<char>, s: Seq<char>, vars: VarsView) -> Seq<char>
    decreases s.len(),
    via expanded_decreases
{
    if s.len() == 0 {
        Seq::empty()
    } else if s.len() >= 2 && s[0] == '$' && s[1] == '{' {
        let close = index_of_char(s.skip(2), '}');
        if close >= s.len() - 2 {
            seq!['$'] + expanded(key, s.skip(1), vars)
        } else {
            reference_value(key, s.subrange(2, 2 + close), vars) + expanded(
                key,
                s.skip(close + 3),
                vars,
            )
        }
    } else {
        seq![s[0]] + expanded(key, s.skip(1), vars)
    }
}

#[via_fn]
proof fn expanded_decreases(key: Seq<char>, s: Seq<char>, vars: VarsView) {
    if s.len() >= 2 {
        lemma_index_of_char_bounds(s.skip(2), '}');
    }
}

fn resolve_reference(
    current_key: &str,
    v: &Vec<char>,
    from: usize,
    to: usize,
    vars: &Vars,
    dash: &Vec<char>,
) -> (r: String)
    requires
        from <= to <= v.len(),
        dash@ == ":-"@,
    ensures
        r@ == reference_value(current_key@, v@.subrange(from as int, to as int), vars.deep_view()),
{
    let ghost inner = v@.subrange(from as int, to as int);
    proof {
        reveal_strlit(":-");
    }
    let (name, fallback) = match find_sub_in(v, from, to, dash) {
        Some(p) => {
            proof {
                assert(inner.subrange(0, p - from) =~= v@.subrange(from as int, p as int));
                assert(inner.subrange(p - from + 2, inner.len() as int) =~= v@.subrange(
                    p as int + 2,
                    to as int,
                ));
            }
            (string_of(v, from, p), string_of(v, p + 2, to))
        },
        None => (string_of(v, from, to), String::new()),
    };
    if !str_eq(name.as_str(), current_key) {
        match get_var(vars, name.as_str()) {
            Some(value) => if value.as_str().unicode_len() > 0 {
                value
            } else {
                fallback
            },
            None => fallback,
        }
    } else {
        fallback
    }
}

/// Expands the `${NAME}` and `${NAME:-default}` references in `input`, the
/// value of `current_key`, against `vars`.
#[verifier::rlimit(50)]
pub fn expand_value(current_key: &str, input: &str, vars: &Vars) -> (r: String)
    ensures
        r@ == expanded(current_key@, input@, vars.deep_view()),
{
    let v = chars_of(input);
    let n = v.len();
    let dash = chars_of(":-");
    let mut out = String::new();
    let mut i: usize = 0;
    let ghost env = vars.deep_view();
    proof {
        assert(v@.skip(0) =~= v@);
        assert(out@ + expanded(current_key@, v@.skip(0), env) =~= expanded(current_key@, v@, env));
    }
    while i < n
        invariant
            i <= n == v.len(),
            v@ == input@,
            dash@ == ":-"@,
            env == vars.deep_view(),
            expanded(current_key@, input@, env) == out@ + expanded(
                current_key@,
                v@.skip(i as int),
                env,
            ),
        decreases n - i,
    {
        let ghost rest = v@.skip(i as int);
        let ghost before = out@;
        proof {
            assert(rest[0] == v@[i as int]);
            assert(rest.skip(1) =~= v@.skip(i as int + 1));
        }
        if v[i] == '$' && i + 1 < n && v[i + 1] == '{' {
            proof {
                assert(rest[1] == v@[i as int + 1]);
                assert(rest.skip(2) =~= v@.subrange(i as int + 2, n as int));
            }
            let j = find_char_in(&v, i + 2, n, '}');
            if j >= n {
                push_char(&mut out, '$');
                assert(out@ + expanded(current_key@, v@.skip(i as int + 1), env) =~= before
                    + expanded(current_key@, rest, env));
                i += 1;
            } else {
                proof {
                    assert(rest.subrange(2, 2 + (j - (i + 2))) =~= v@.subrange(
                        i as int + 2,
                        j as int,
                    ));
                    assert(rest.skip((j - (i + 2)) + 3) =~= v@.skip(j as int + 1));
                }
                let value = resolve_reference(current_key, &v, i + 2, j, vars, &dash);
                out.append(value.as_str());
                assert(out@ + expanded(current_key@, v@.skip(j as int + 1), env) =~= before
                    + expanded(current_key@, rest, env));
                i = j + 1;
            }
        } else {
            push_char(&mut out, v[i]);
            assert(out@ + expanded(current_key@, v@.skip(i as int + 1), env) =~= before + expanded(
                current_key@,
                rest,
                env,
            ));
            i += 1;
        }
    }
    proof {
        assert(v@.skip(n as int) =~= Seq::<char>::empty());
        assert(out@ + Seq::<char>::empty() =~= out@);
    }
    out
}

/// The variables after the references in the value of variable `k` were
/// expanded. A value without `${` is left alone.
pub open spec fn expand_entry(vars: VarsView, k: int) -> VarsView {
    if contains_sub(vars[k].1, "${"@) {
        vars.update(k, (vars[k].0, expanded(vars[k].0, vars[k].1, vars)))
    } else {
        vars
    }
}

/// The variables after the first `n` of them were expanded in order, each
/// against the values the earlier expansions left.
pub open spec fn pass_prefix(vars: VarsView, n: int) -> VarsView
    decreases n,
{
    if n <= 0 {
        vars
    } else {
        expand_entry(pass_prefix(vars, n - 1), n - 1)
    }
}

/// The variables after one pass over all of them.
pub open spec fn one_pass(vars: VarsView) -> VarsView {
    pass_prefix(vars, vars.len() as int)
}

/// The variables after at most `passes` passes; the passes end early once
/// one of them changes nothing.
pub open spec fn expand_passes(vars: VarsView, passes: nat) -> VarsView
    decreases passes,
{
    if passes == 0 {
        vars
    } else {
        let next = one_pass(vars);
        if next == vars {
            vars
        } else {
            expand_passes(next, (passes - 1) as nat)
        }
    }
}

/// The number of passes the expansion makes at most.
pub open spec fn max_passes() -> nat {
    5
}

/// A prefix of a pass keeps the number of variables and leaves the variables
/// behind it untouched.
pub proof fn lemma_pass_prefix_shape(vars: VarsView, n: int)
    requires
        n <= vars.len(),
    ensures
        pass_prefix(vars, n).len() == vars.len(),
        forall|j: int| n <= j < vars.len() && 0 <= j ==> pass_prefix(vars, n)[j] == vars[j],
    decreases n,
{
    if n > 0 {
        lemma_pass_prefix_shape(vars, n - 1);
    }
}

#[verifier::rlimit(50)]
fn expand_pass(vars: &mut Vars) -> (changed: bool)
    ensures
        final(vars).deep_view() == one_pass(old(vars).deep_view()),
        changed == (final(vars).deep_view() != old(vars).deep_view()),
{
    let ghost orig = vars.deep_view();
    let pat = chars_of("${");
    let mut changed = false;
    let mut i: usize = 0;
    let n = vars.len();
    while i < n
        invariant
            i <= n == vars.len(),
            orig.len() == n,
            pat@ == "${"@,
            vars.deep_view() == pass_prefix(orig, i as int),
            forall|j: int| i <= j < n ==> vars.deep_view()[j] == orig[j],
            changed == (vars.deep_view() != orig),
        decreases n - i,
    {
        let ghost cur = vars.deep_view();
        proof {
            lemma_pass_prefix_shape(orig, i as int);
            assert(cur[i as int] == vars[i as int].deep_view());
        }
        let key = vars[i].0.clone();
        let val = vars[i].1.clone();
        let chars = chars_of(val.as_str());
        proof {
            assert(chars@.subrange(0, chars.len() as int) =~= chars@);
        }
        if find_sub_in(&chars, 0, chars.len(), &pat).is_some() {
            let new_val = expand_value(key.as_str(), val.as_str(), vars);
            if !str_eq(new_val.as_str(), val.as_str()) {
                changed = true;
            }
            let ghost shown = (key@, new_val@);
            vars[i] = (key, new_val);
            proof {
                assert(vars.deep_view() =~= cur.update(i as int, shown));
                if shown.1 != cur[i as int].1 {
                    assert(vars.deep_view()[i as int] != orig[i as int]);
                } else {
                    assert(vars.deep_view() =~= cur);
                }
            }
        }
        i += 1;
    }
    changed
}

/// Expands the references among `vars` in place: up to five passes, each
/// over all variables in order, ending early once a pass changes nothing.
pub fn expand_vars(vars: &mut Vars)
    ensures
        final(vars).deep_view() == expand_passes(old(vars).deep_view(), max_passes()),
{
    let mut pass: usize = 0;
    while pass < 5
        invariant
            pass <= 5,
            expand_passes(old(vars).deep_view(), max_passes()) == expand_passes(
                vars.deep_view(),
                (5 - pass) as nat,
            ),
        decreases 5 - pass,
    {
        let changed = expand_pass(vars);
        if !changed {
            return ;
        }
        pass += 1;
    }
}

/// The name of the file that holds the settings of a profile: `.env.` and
/// the trimmed profile; none for a blank profile.
pub open spec fn profile_file_name(profile: Seq<char>) -> Option<Seq<char>> {
    if trimmed(profile).len() == 0 {
        None
    } else {
        Some(".env."@ + trimmed(profile))
    }
}

/// The name of the file that holds the settings of `profile`.
pub fn profile_env_file(profile: &str) -> (r: Option<String>)
    ensures
        r.deep_view() == profile_file_name(profile@),
{
    let prof = trim(profile);
    if prof.as_str().unicode_len() == 0 {
        None
    } else {
        Some(crate::text::join2(".env.", prof.as_str()))
    }
}

/// The settings files that were loaded: `.env` if it is there, then the
/// profile's file if a profile is given and its file is there.
pub open spec fn loaded_files(
    base_exists: bool,
    profile: Option<Seq<char>>,
    profile_exists: bool,
) -> Seq<Seq<char>> {
    (if base_exists {
        seq![".env"@]
    } else {
        Seq::empty()
    }) + (match profile {
        Some(p) => match profile_file_name(p) {
            Some(name) => if profile_exists {
                seq![name]
            } else {
                Seq::empty()
            },
            None => Seq::empty(),
        },
        None => Seq::empty(),
    })
}

/// Names the settings files that were loaded, given which of them exist.
pub fn load_env(base_exists: bool, profile: Option<&str>, profile_exists: bool) -> (r: Vec<String>)
    ensures
        r.deep_view() == loaded_files(
            base_exists,
            match profile {
                Some(p) => Some(p@),
                None => None,
            },
            profile_exists,
        ),
{
    let mut loaded: Vec<String> = Vec::new();
    assert(loaded.deep_view() =~= Seq::<Seq<char>>::empty());
    if base_exists {
        crate::text::push_line(&mut loaded, ".env".to_owned());
    }
    let ghost first = loaded.deep_view();
    match profile {
        Some(p) => {
            match profile_env_file(p) {
                Some(name) => {
                    if profile_exists {
                        crate::text::push_line(&mut loaded, name);
                    }
                },
                None => {},
            }
        },
        None => {},
    }
    assert(loaded.deep_view() =~= loaded_files(
        base_exists,
        match profile {
            Some(p) => Some(p@),
            None => None,
        },
        profile_exists,
    ));
    loaded
}

} // verus!
