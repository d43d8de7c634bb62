//! A bounded, ordered buffer of log lines with oldest-first eviction.

use std::collections::VecDeque;
use vstd::prelude::*;

verus! {

/// The last `cap` entries of `s`, or all of `s` when it is not longer than that.
pub open spec fn keep_last(s: Seq<Seq<char>>, cap: nat) -> Seq<Seq<char>> {
    if s.len() <= cap {
        s
    } else {
        s.subrange(s.len() - cap, s.len() as int)
    }
}

/// Log lines in arrival order, never more than `capacity()` of them.
pub struct LogBuffer {
    lines: VecDeque<String>,
    cap: usize,
}

impl View for LogBuffer {
    type V = Seq<Seq<char>>;

    closed spec fn view(&self) -> Seq<Seq<char>> {
        self.lines.deep_view()
    }
}

impl DeepView for LogBuffer {
    type V = Seq<Seq<char>>;

    open spec fn deep_view(&self) -> Seq<Seq<char>> {
        self@
    }
}

impl LogBuffer {
    /// The largest number of lines the buffer keeps.
    pub closed spec fn capacity(&self) -> nat {
        self.cap as nat
    }

    /// The buffer holds no more lines than its capacity.
    pub open spec fn wf(&self) -> bool {
        self@.len() <= self.capacity()
    }

    /// An empty buffer that keeps at most `cap` lines.
    pub fn new(cap: usize) -> (r: Self)
        ensures
            r@ == Seq::<Seq<char>>::empty(),
            r.capacity() == cap,
            r.wf(),
    {
        let r = LogBuffer { lines: VecDeque::new(), cap };
        assert(r.lines.deep_view() =~= Seq::<Seq<char>>::empty());
        r
    }

    /// The capacity the buffer was made with.
    pub fn max_lines(&self) -> (r: usize)
        ensures
            r == self.capacity(),
    {
        self.cap
    }

    /// The number of lines held.
    pub fn len(&self) -> (r: usize)
        ensures
            r == self@.len(),
    {
        self.lines.len()
    }

    /// The line at position `i`, counted from the oldest.
    pub fn line(&self, i: usize) -> (r: &String)
        requires
            i < self@.len(),
        ensures
            r@ == self@[i as int],
    {
        &self.lines[i]
    }

    /// Drops lines from the front until the capacity is respected.
    fn evict(&mut self)
        ensures
            final(self)@ == keep_last(old(self)@, old(self).capacity()),
            final(self).capacity() == old(self).capacity(),
    {
        while self.lines.len() > self.cap
            invariant
                self.cap == old(self).cap,
                keep_last(self@, self.cap as nat) == keep_last(old(self)@, self.cap as nat),
            decreases self.lines.len(),
        {
            let ghost before = self@;
            let _ = self.lines.pop_front();
            assert(self@ =~= before.subrange(1, before.len() as int));
            assert(keep_last(self@, self.cap as nat) =~= keep_last(before, self.cap as nat));
        }
    }

    /// Appends `line`; when the buffer is over capacity afterwards the oldest
    /// lines are dropped.
    pub fn push(&mut self, line: String)
        ensures
            final(self)@ == keep_last(old(self)@.push(line@), old(self).capacity()),
            final(self).capacity() == old(self).capacity(),
            final(self).wf(),
    {
        let ghost before = self@;
        self.lines.push_back(line);
        assert(self@ =~= before.push(line@));
        self.evict();
    }

    /// Removes every line.
    pub fn clear(&mut self)
        ensures
            final(self)@ == Seq::<Seq<char>>::empty(),
            final(self).capacity() == old(self).capacity(),
            final(self).wf(),
    {
        self.lines.clear();
        assert(self@ =~= Seq::<Seq<char>>::empty());
    }

    /// Replaces the whole content with `all`, keeping only its newest lines if
    /// it is longer than the capacity.
    pub fn replace(&mut self, all: Vec<String>)
        ensures
            final(self)@ == keep_last(all.deep_view(), old(self).capacity()),
            final(self).capacity() == old(self).capacity(),
            final(self).wf(),
    {
        self.lines.clear();
        assert(self@ =~= Seq::<Seq<char>>::empty());
        let ghost target = all.deep_view();
        for line in it: all
            invariant
                self.cap == old(self).cap,
                it.seq().len() == target.len(),
                forall|k: int| 0 <= k < target.len() ==> (#[trigger] it.seq()[k])@ == target[k],
                self@ == target.take(it.index() as int),
        {
            let ghost before = self@;
            self.lines.push_back(line);
            assert(self@ =~= before.push(line@));
            assert(self@ =~= target.take(it.index() + 1));
        }
        assert(self@ =~= target);
        self.evict();
    }

    /// A copy of the lines held, oldest first.
    pub fn snapshot(&self) -> (r: Vec<String>)
        ensures
            r.deep_view() == self@,
    {
        let mut out: Vec<String> = Vec::new();
        let mut i: usize = 0;
        while i < self.lines.len()
            invariant
                i <= self.lines.len(),
                out.deep_view() == self@.subrange(0, i as int),
            decreases self.lines.len() - i,
        {
            let ghost o0 = out.deep_view();
            let s = self.lines[i].clone();
            out.push(s);
            assert(out.deep_view() =~= o0.push(s@));
            assert(out.deep_view() =~= self@.subrange(0, i as int + 1));
            i += 1;
        }
        assert(out.deep_view() =~= self@);
        out
    }
}

/// A buffer never grows past its capacity, whatever is pushed.
pub proof fn lemma_keep_last_bounded(s: Seq<Seq<char>>, cap: nat)
    ensures
        keep_last(s, cap).len() <= cap,
        keep_last(s, cap).len() <= s.len(),
{
}

/// Eviction is oldest-first: what is kept is the newest end of what was
/// offered, in the same order.
pub proof fn lemma_keep_last_is_suffix(s: Seq<Seq<char>>, cap: nat)
    ensures
        keep_last(s, cap).is_suffix_of(s),
        forall|i: int|
            0 <= i < keep_last(s, cap).len() ==> keep_last(s, cap)[i] == s[s.len() - keep_last(
                s,
                cap,
            ).len() + i],
{
    let k = keep_last(s, cap);
    assert(k =~= s.skip(s.len() - k.len()));
}

/// Trimming after every push gives the same buffer as trimming once at the end.
pub proof fn lemma_keep_last_push(s: Seq<Seq<char>>, line: Seq<char>, cap: nat)
    ensures
        keep_last(keep_last(s, cap).push(line), cap) == keep_last(s.push(line), cap),
{
    assert(keep_last(keep_last(s, cap).push(line), cap) =~= keep_last(s.push(line), cap));
}

} // verus!
