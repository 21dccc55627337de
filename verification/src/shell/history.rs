//! The shell's command history: the newest command first, at most
//! `HISTORY_SIZE` of them.
use vstd::prelude::*;

verus! {

/// The most commands the history keeps.
pub const HISTORY_SIZE: usize = 2048;

/// The history after `line` is pushed onto `h`: `line` first, then the older
/// entries, of which the oldest drops out once the history is full.
pub open spec fn history_pushed(h: Seq<Seq<char>>, line: Seq<char>) -> Seq<Seq<char>> {
    let kept = if h.len() + 1 > HISTORY_SIZE { h.drop_last() } else { h };
    seq![line] + kept
}

/// The history after pushing each of `lines`, in order, onto `h`.
pub open spec fn history_loaded(h: Seq<Seq<char>>, lines: Seq<Seq<char>>) -> Seq<Seq<char>>
    decreases lines.len(),
{
    if lines.len() == 0 {
        h
    } else {
        history_loaded(history_pushed(h, lines[0]), lines.skip(1))
    }
}

/// Command history of the shell, the newest entry first.
pub struct ShellHistory {
    history: Vec<String>,
}

impl View for ShellHistory {
    type V = Seq<Seq<char>>;

    closed spec fn view(&self) -> Seq<Seq<char>> {
        self.history@.map_values(|s: String| s@)
    }
}

impl ShellHistory {
    /// The history never holds more than `HISTORY_SIZE` entries.
    #[verifier::type_invariant]
    spec fn wf(&self) -> bool {
        self.history.len() <= HISTORY_SIZE
    }

    /// Instantiate a new ShellHistory
    pub fn new() -> (h: ShellHistory)
        ensures
            h@ == Seq::<Seq<char>>::empty(),
    {
        let h = ShellHistory { history: Vec::new() };
        assert(h@ =~= Seq::<Seq<char>>::empty());
        h
    }

    /// Get the command at a certain index of the history
    /// None is returned in case index is out of range
    pub fn at(&self, index: usize) -> (r: Option<String>)
        ensures
            match r {
                Some(s) => index < self@.len() && s@ == self@[index as int],
                None => index >= self@.len(),
            },
    {
        if index < self.history.len() {
            Some(self.history[index].clone())
        } else {
            None
        }
    }

    /// Clear history
    pub fn clear(&mut self)
        ensures
            final(self)@ == Seq::<Seq<char>>::empty(),
    {
        self.history = Vec::new();
        assert(self@ =~= Seq::<Seq<char>>::empty());
    }

    /// Dump history, the newest entry first
    pub fn dump(&mut self) -> (lines: Vec<String>)
        ensures
            *final(self) == *old(self),
            lines@.map_values(|s: String| s@) == old(self)@,
    {
        let mut lines: Vec<String> = Vec::with_capacity(self.history.len());
        let mut i: usize = 0;
        while i < self.history.len()
            invariant
                i <= self.history.len(),
                lines@.map_values(|s: String| s@) == self@.take(i as int),
            decreases self.history.len() - i,
        {
            lines.push(self.history[i].clone());
            assert(self@.take(i + 1) =~= self@.take(i as int).push(self@[i as int]));
            assert(lines@.map_values(|s: String| s@) =~= self@.take(i as int).push(self@[i as int]));
            i += 1;
        }
        assert(self@.take(i as int) =~= self@);
        lines
    }

    /// Returns history len
    pub fn len(&self) -> (n: usize)
        ensures
            n == self@.len(),
            n <= HISTORY_SIZE,
    {
        proof {
            use_type_invariant(self);
        }
        self.history.len()
    }

    /// Load history: the history is cleared, then each line is pushed in order.
    /// NOTE: the maximum history size is still `HISTORY_SIZE`
    pub fn load(&mut self, lines: Vec<String>)
        ensures
            final(self)@ == history_loaded(Seq::empty(), lines@.map_values(|s: String| s@)),
    {
        let ghost all = lines@.map_values(|s: String| s@);
        self.clear();
        let mut i: usize = 0;
        assert(all.skip(0) =~= all);
        while i < lines.len()
            invariant
                i <= lines.len(),
                all == lines@.map_values(|s: String| s@),
                history_loaded(self@, all.skip(i as int)) == history_loaded(Seq::empty(), all),
            decreases lines.len() - i,
        {
            self.push(lines[i].clone());
            assert(all.skip(i as int).skip(1) =~= all.skip(i + 1));
            assert(all.skip(i as int)[0] == lines@[i as int]@);
            i += 1;
        }
    }

    /// Push a new entry to the history.
    /// The entry is stored at the front of the history. The first the newest
    pub fn push(&mut self, line: String)
        ensures
            final(self)@ == history_pushed(old(self)@, line@),
    {
        proof {
            use_type_invariant(&*self);
        }
        let ghost h = self@;
        let mut entries: Vec<String> = Vec::new();
        std::mem::swap(&mut entries, &mut self.history);
        if entries.len() + 1 > HISTORY_SIZE {
            entries.pop();
        }
        entries.insert(0, line);
        self.history = entries;
        assert(self@ =~= history_pushed(h, line@));
    }
}

} // verus!

verus! {

/// The last `HISTORY_SIZE` elements of `s` (all of them, if there are fewer).
pub open spec fn newest(s: Seq<Seq<char>>) -> Seq<Seq<char>> {
    if s.len() > HISTORY_SIZE {
        s.skip(s.len() - HISTORY_SIZE)
    } else {
        s
    }
}

proof fn lemma_loaded_from(h: Seq<Seq<char>>, lines: Seq<Seq<char>>)
    requires
        h.len() <= HISTORY_SIZE,
    ensures
        history_loaded(h, lines) == newest(h.reverse() + lines).reverse(),
    decreases lines.len(),
{
    if lines.len() == 0 {
        assert(h.reverse() + lines =~= h.reverse());
        assert(h.reverse().reverse() =~= h);
    } else {
        let l = lines[0];
        let next = history_pushed(h, l);
        lemma_loaded_from(next, lines.skip(1));
        let rest = lines.skip(1);
        if h.len() + 1 > HISTORY_SIZE {
            assert(next.reverse() =~= h.reverse().skip(1).push(l));
            assert(newest(next.reverse() + rest) =~= newest(h.reverse() + lines));
        } else {
            assert(next.reverse() =~= h.reverse().push(l));
            assert(next.reverse() + rest =~= h.reverse() + lines);
        }
    }
}

/// Loading a list of commands into the history keeps the newest
/// `HISTORY_SIZE` of them (the last of the list), newest first.
pub proof fn law_load_keeps_newest_lines(lines: Seq<Seq<char>>)
    ensures
        history_loaded(Seq::empty(), lines) == newest(lines).reverse(),
{
    lemma_loaded_from(Seq::empty(), lines);
    assert(Seq::<Seq<char>>::empty().reverse() + lines =~= lines);
}

/// After a push, the pushed line is the newest entry, the older entries
/// follow in the same order, and the history grows by one until it is full.
pub proof fn law_push_puts_line_first(h: Seq<Seq<char>>, line: Seq<char>)
    requires
        h.len() <= HISTORY_SIZE,
    ensures
        history_pushed(h, line)[0] == line,
        history_pushed(h, line).len() == if h.len() < HISTORY_SIZE { h.len() + 1 } else { HISTORY_SIZE as nat },
        forall|i: int| 0 <= i < history_pushed(h, line).len() - 1 ==> #[trigger] history_pushed(h, line)[i + 1] == h[i],
{
}

} // verus!
