//! The sliding context window: a fixed number of slots around the candidate
//! line, fed one line at a time from the stream.
use std::collections::VecDeque;
use vstd::prelude::*;

verus! {

/// Line `n` (counted from 1) of `lines`, or `None` outside the stream.
pub open spec fn line_at(lines: Seq<Seq<char>>, n: int) -> Option<Seq<char>> {
    if 1 <= n <= lines.len() {
        Some(lines[n - 1])
    } else {
        None
    }
}

/// The text of an optional line.
pub open spec fn line_view(o: Option<String>) -> Option<Seq<char>> {
    match o {
        Some(s) => Some(s@),
        None => None,
    }
}

/// The slots of a window whose candidate is line `k`, with `before` slots
/// ahead of it, over the lines read so far.
pub open spec fn expected_slots(lines: Seq<Seq<char>>, k: int, before: nat, cap: nat) -> Seq<Option<Seq<char>>> {
    Seq::new(cap, |j: int| line_at(lines, k - before + j))
}

/// A window of `before + after + 1` slots whose middle slot, at position
/// `before`, holds the candidate line.
///
/// The window is fed the stream's lines in order with `advance`; `None` tells
/// it that the stream has ended. Slot `j` holds the line numbered
/// `candidate - before + j`, or `None` where that number falls before the
/// first line or beyond the last line read.
pub struct ContextWindow {
    slots: VecDeque<Option<String>>,
    before: usize,
    after: usize,
    advanced: usize,
    exhausted: bool,
    lines: Ghost<Seq<Seq<char>>>,
}

impl ContextWindow {
    /// Number of slots before the candidate.
    pub closed spec fn before(&self) -> nat {
        self.before as nat
    }

    /// Number of slots after the candidate.
    pub closed spec fn after(&self) -> nat {
        self.after as nat
    }

    /// Number of lines handed to `advance` so far, the end of the stream
    /// included.
    pub closed spec fn advanced(&self) -> nat {
        self.advanced as nat
    }

    /// Whether the stream has ended.
    pub closed spec fn exhausted(&self) -> bool {
        self.exhausted
    }

    /// The lines of the stream read so far, in order.
    pub closed spec fn lines(&self) -> Seq<Seq<char>> {
        self.lines@
    }

    /// The number of the candidate line (from 1; not positive while the
    /// window is still filling).
    pub open spec fn candidate_number(&self) -> int {
        self.advanced() - self.after()
    }

    /// The number of slots.
    pub open spec fn capacity(&self) -> nat {
        self.before() + self.after() + 1
    }

    /// The slots, oldest first.
    pub closed spec fn view(&self) -> Seq<Option<Seq<char>>> {
        self.slots@.map_values(|o: Option<String>| line_view(o))
    }

    pub closed spec fn wf(&self) -> bool {
        &&& self.before + self.after < usize::MAX
        &&& self.slots@.len() == self.before + self.after + 1
        &&& self.view() == expected_slots(self.lines@, self.candidate_number(), self.before(), self.capacity())
        &&& !self.exhausted ==> self.lines@.len() == self.advanced
        &&& self.exhausted ==> self.lines@.len() < self.advanced
    }

    /// An empty window with `before` slots ahead of the candidate and `after`
    /// behind it.
    pub fn new(before: usize, after: usize) -> (r: ContextWindow)
        requires
            before + after < usize::MAX,
        ensures
            r.wf(),
            r.before() == before,
            r.after() == after,
            r.advanced() == 0,
            !r.exhausted(),
            r.lines() == Seq::<Seq<char>>::empty(),
            r@ == Seq::new((before + after + 1) as nat, |j: int| None::<Seq<char>>),
    {
        let cap: usize = before + after + 1;
        let mut slots: VecDeque<Option<String>> = VecDeque::with_capacity(cap);
        let mut i: usize = 0;
        while i < cap
            invariant
                i <= cap,
                slots@.len() == i,
                forall|j: int| 0 <= j < i ==> (#[trigger] slots@[j]) is None,
            decreases cap - i,
        {
            slots.push_back(None);
            i = i + 1;
        }
        let r = ContextWindow {
            slots,
            before,
            after,
            advanced: 0,
            exhausted: false,
            lines: Ghost(Seq::empty()),
        };
        assert(r@ =~= expected_slots(r.lines@, r.candidate_number(), r.before(), r.capacity()));
        assert(r@ =~= Seq::new((before + after + 1) as nat, |j: int| None::<Seq<char>>));
        r
    }

    /// Number of slots before the candidate.
    pub fn before_count(&self) -> (r: usize)
        ensures
            r == self.before(),
    {
        self.before
    }

    /// Number of slots after the candidate.
    pub fn after_count(&self) -> (r: usize)
        ensures
            r == self.after(),
    {
        self.after
    }

    /// Whether the window still takes lines from the stream; once it has been
    /// told that the stream ended it asks for no more.
    pub fn wants_line(&self) -> (r: bool)
        ensures
            r == !self.exhausted(),
    {
        !self.exhausted
    }

    /// Whether another `advance` is possible without the line counter
    /// overflowing.
    pub fn can_advance(&self) -> (r: bool)
        ensures
            r == (self.advanced() < usize::MAX),
    {
        self.advanced < usize::MAX
    }

    /// Drops the oldest slot and appends the next line of the stream, or
    /// `None` at its end.
    pub fn advance(&mut self, line: Option<String>)
        requires
            old(self).wf(),
            old(self).advanced() < usize::MAX,
            old(self).exhausted() ==> line is None,
        ensures
            final(self).wf(),
            final(self).before() == old(self).before(),
            final(self).after() == old(self).after(),
            final(self).advanced() == old(self).advanced() + 1,
            final(self).exhausted() == (old(self).exhausted() || line is None),
            final(self).lines() == (match line {
                Some(l) => old(self).lines().push(l@),
                None => old(self).lines(),
            }),
            final(self)@ == old(self)@.drop_first().push(line_view(line)),
    {
        let ghost old_view = self@;
        let ghost old_lines = self.lines@;
        let ghost k0 = self.candidate_number();
        let _ = self.slots.pop_front();
        let ghost new_line: Option<Seq<char>> = line_view(line);
        match &line {
            Some(l) => {
                self.lines = Ghost(self.lines@.push(l@));
            },
            None => {
                self.exhausted = true;
            },
        }
        self.slots.push_back(line);
        self.advanced = self.advanced + 1;
        proof {
            let cap = self.capacity();
            let lines = self.lines@;
            assert(self@ =~= old_view.drop_first().push(new_line));
            assert forall|j: int| 0 <= j < cap implies #[trigger] self@[j] == line_at(lines, k0 + 1 - self.before() + j) by {
                if j < cap - 1 {
                    assert(old_view[j + 1] == line_at(old_lines, k0 - self.before() + j + 1));
                }
            }
            assert(self@ =~= expected_slots(lines, self.candidate_number(), self.before(), cap));
        }
    }

    /// The number of the candidate line.
    pub fn candidate_number_exec(&self) -> (r: Option<usize>)
        requires
            self.wf(),
        ensures
            r matches Some(n) ==> n == self.candidate_number() && n >= 1,
            r is None <==> self.candidate_number() < 1,
    {
        if self.advanced > self.after {
            Some(self.advanced - self.after)
        } else {
            None
        }
    }

    /// The candidate line, or `None` while the window is filling and once the
    /// stream has run past its last line.
    pub fn candidate(&self) -> (r: Option<&String>)
        requires
            self.wf(),
        ensures
            r matches Some(l) ==> Some(l@) == self@[self.before() as int],
            r is None <==> self@[self.before() as int] is None,
    {
        let slot = &self.slots[self.before];
        match slot {
            Some(l) => Some(l),
            None => None,
        }
    }

    /// The slots, oldest first.
    pub fn slots(&self) -> (r: &VecDeque<Option<String>>)
        requires
            self.wf(),
        ensures
            r@.len() == self.capacity(),
            r@.map_values(|o: Option<String>| line_view(o)) == self@,
    {
        &self.slots
    }

    /// The window's contents follow from the lines read so far: slot `j` holds
    /// line `candidate - before + j` if that line has been read, and nothing
    /// otherwise. Until the stream ends, every line up to `candidate + after`
    /// has been read.
    pub proof fn lemma_slots(&self)
        requires
            self.wf(),
        ensures
            self@.len() == self.capacity(),
            forall|j: int| 0 <= j < self.capacity() ==>
                #[trigger] self@[j] == line_at(self.lines(), self.candidate_number() - self.before() + j),
            !self.exhausted() ==> self.lines().len() == self.candidate_number() + self.after(),
            self.exhausted() ==> self.lines().len() < self.candidate_number() + self.after(),
    {
    }
}

} // verus!
