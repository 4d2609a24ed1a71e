//! The match engine: for each candidate line that the window brings up, it
//! decides whether the line is reported and renders the block.
use vstd::prelude::*;
use crate::pattern::{match_ranges, Pattern};
use crate::render::{block, heading, line_bytes, name_view, render_block};
use crate::window::{expected_slots, line_at, ContextWindow};

verus! {

/// The search options.
pub struct Options {
    pub invert: bool,
    pub recursive: bool,
    pub before_num: usize,
    pub after_num: usize,
}

/// Whether a candidate line is reported: it holds a match and the search is
/// not inverted, or it holds none and the search is inverted.
pub open spec fn selects(source: Seq<char>, line: Seq<char>, invert: bool) -> bool {
    (match_ranges(source, line).len() > 0) != invert
}

/// What one step of a scan produced.
pub enum Step {
    /// Nothing to write for this line.
    Continue,
    /// A block to write on the normal output channel.
    Report(Vec<u8>),
    /// The stream has been scanned to its end.
    End,
}

/// The scan of one input stream.
pub struct LineScan {
    window: ContextWindow,
    invert: bool,
    name: Option<Vec<u8>>,
}

impl LineScan {
    pub closed spec fn window(&self) -> ContextWindow {
        self.window
    }

    pub closed spec fn invert(&self) -> bool {
        self.invert
    }

    /// The name written in the heading of each block; `None` for standard
    /// input.
    pub closed spec fn name(&self) -> Option<Seq<u8>> {
        name_view(&self.name)
    }

    pub open spec fn wf(&self) -> bool {
        self.window().wf()
    }

    /// The block that the current candidate line gives under the pattern
    /// `source`, or `None` where it gives nothing (the window is filling, the
    /// stream has ended, or the line is not selected).
    pub open spec fn report(&self, source: Seq<char>) -> Option<Seq<u8>> {
        let w = self.window();
        let k = w.candidate_number();
        if k >= 1 {
            match w@[w.before() as int] {
                Some(c) => if selects(source, c, self.invert()) {
                    Some(block(self.name(), k as nat, w@))
                } else {
                    None
                },
                None => None,
            }
        } else {
            None
        }
    }

    /// A scan that has read nothing yet, for the input called `name` (`None`
    /// for standard input).
    pub fn new(opt: &Options, name: Option<Vec<u8>>) -> (r: LineScan)
        requires
            opt.before_num + opt.after_num < usize::MAX,
        ensures
            r.wf(),
            r.window().before() == opt.before_num,
            r.window().after() == opt.after_num,
            r.window().advanced() == 0,
            !r.window().exhausted(),
            r.window().lines() == Seq::<Seq<char>>::empty(),
            r.invert() == opt.invert,
            r.name() == name_view(&name),
    {
        LineScan { window: ContextWindow::new(opt.before_num, opt.after_num), invert: opt.invert, name }
    }

    /// Whether the scan takes another line from the stream; once it has been
    /// told that the stream ended it asks for no more.
    pub fn wants_line(&self) -> (r: bool)
        ensures
            r == !self.window().exhausted(),
    {
        self.window.wants_line()
    }

    /// Whether another `step` is possible without the line counter
    /// overflowing.
    pub fn can_step(&self) -> (r: bool)
        ensures
            r == (self.window().advanced() < usize::MAX),
    {
        self.window.can_advance()
    }

    /// Feeds the next line of the stream (`None` at its end) and examines the
    /// new candidate line.
    ///
    /// While the window fills, and for a candidate that is not selected, the
    /// step produces nothing. A selected candidate gives its block, headed
    /// with its line number. Once the candidate runs past the last line the
    /// scan has ended.
    pub fn step(&mut self, pattern: &Pattern, line: Option<String>) -> (r: Step)
        requires
            old(self).wf(),
            old(self).window().advanced() < usize::MAX,
            old(self).window().exhausted() ==> line is None,
        ensures
            final(self).wf(),
            final(self).invert() == old(self).invert(),
            final(self).name() == old(self).name(),
            final(self).window().before() == old(self).window().before(),
            final(self).window().after() == old(self).window().after(),
            final(self).window().advanced() == old(self).window().advanced() + 1,
            final(self).window().exhausted() == (old(self).window().exhausted() || line is None),
            final(self).window().lines() == (match line {
                Some(l) => old(self).window().lines().push(l@),
                None => old(self).window().lines(),
            }),
            ({
                let w = final(self).window();
                let k = w.candidate_number();
                &&& r is End <==> (k >= 1 && w@[w.before() as int] is None)
                &&& match final(self).report(pattern.source_view()) {
                    Some(bytes) => (r matches Step::Report(b) && b@ == bytes),
                    None => !(r is Report),
                }
            }),
    {
        self.window.advance(line);
        proof { self.window.lemma_slots(); }
        let number = match self.window.candidate_number_exec() {
            None => return Step::Continue,
            Some(n) => n,
        };
        let cand = match self.window.candidate() {
            None => return Step::End,
            Some(c) => c,
        };
        let ranges = pattern.find_ranges(cand.as_str());
        let matched = ranges.len() > 0;
        if matched == self.invert {
            return Step::Continue;
        }
        let slots = self.window.slots();
        let b = render_block(&self.name, number, slots, self.window.before_count(), &ranges);
        Step::Report(b)
    }
}

/// The blocks that a whole scan of `lines` reports, for the candidates
/// numbered 1 to `upto`, in order: one for each selected line, holding the
/// lines from `before` ahead of it to `after` behind it that exist.
pub open spec fn stream_blocks(
    source: Seq<char>,
    invert: bool,
    name: Option<Seq<u8>>,
    before: nat,
    after: nat,
    lines: Seq<Seq<char>>,
    upto: nat,
) -> Seq<Seq<u8>>
    decreases upto,
{
    if upto == 0 {
        Seq::empty()
    } else {
        let prev = stream_blocks(source, invert, name, before, after, lines, (upto - 1) as nat);
        if selects(source, lines[upto - 1], invert) {
            prev.push(block(name, upto, expected_slots(lines, upto as int, before, before + after + 1)))
        } else {
            prev
        }
    }
}

/// The bytes of each block in `v`.
pub open spec fn blocks_view(v: Seq<Vec<u8>>) -> Seq<Seq<u8>> {
    v.map_values(|b: Vec<u8>| b@)
}

/// The text of each line in `v`.
pub open spec fn lines_view(v: Seq<String>) -> Seq<Seq<char>> {
    v.map_values(|s: String| s@)
}

/// A window that has read `lines.take(read)`, where the read covers every
/// line up to `k + after` or the whole stream, holds the same slots as one
/// over the whole stream.
proof fn lemma_window_over_stream(lines: Seq<Seq<char>>, read: int, k: int, before: nat, after: nat)
    requires
        0 <= read <= lines.len(),
        read >= k + after || read == lines.len(),
    ensures
        expected_slots(lines.take(read), k, before, before + after + 1)
            == expected_slots(lines, k, before, before + after + 1),
{
    let cap = before + after + 1;
    assert forall|j: int| 0 <= j < cap implies #[trigger] expected_slots(lines.take(read), k, before, cap)[j]
        == expected_slots(lines, k, before, cap)[j] by {
        let p = k - before + j;
        if 1 <= p <= read {
            assert(lines.take(read)[p - 1] == lines[p - 1]);
        }
    }
    assert(expected_slots(lines.take(read), k, before, cap) =~= expected_slots(lines, k, before, cap));
}

/// A copy of an input name.
fn copy_name(name: &Option<Vec<u8>>) -> (r: Option<Vec<u8>>)
    ensures
        name_view(&r) == name_view(name),
{
    match name {
        None => None,
        Some(v) => {
            let mut c: Vec<u8> = Vec::new();
            let mut i: usize = 0;
            while i < v.len()
                invariant
                    i <= v@.len(),
                    c@ == v@.take(i as int),
                decreases v@.len() - i,
            {
                c.push(v[i]);
                i = i + 1;
                assert(c@ =~= v@.take(i as int));
            }
            assert(v@.take(i as int) =~= v@);
            Some(c)
        },
    }
}

/// Scans a whole stream held in memory and returns the blocks it reports, in
/// order.
pub fn scan_lines(pattern: &Pattern, opt: &Options, name: &Option<Vec<u8>>, lines: &Vec<String>) -> (r: Vec<Vec<u8>>)
    requires
        opt.before_num + opt.after_num < usize::MAX,
        lines@.len() + opt.after_num < usize::MAX,
    ensures
        blocks_view(r@) == stream_blocks(
            pattern.source_view(),
            opt.invert,
            name_view(name),
            opt.before_num as nat,
            opt.after_num as nat,
            lines_view(lines@),
            lines@.len(),
        ),
{
    let ghost lv = lines_view(lines@);
    let ghost nm = name_view(name);
    let ghost src = pattern.source_view();
    let n = lines.len();
    let mut scan = LineScan::new(opt, copy_name(name));
    let mut out: Vec<Vec<u8>> = Vec::new();
    let mut i: usize = 0;
    loop
        invariant
            scan.wf(),
            n == lines@.len(),
            lv == lines_view(lines@),
            src == pattern.source_view(),
            nm == name_view(name),
            lv.len() == n,
            n + opt.after_num < usize::MAX,
            scan.invert() == opt.invert,
            scan.name() == nm,
            scan.window().before() == opt.before_num,
            scan.window().after() == opt.after_num,
            i <= n,
            scan.window().lines() == lv.take(i as int),
            scan.window().exhausted() ==> i == n,
            scan.window().candidate_number() <= n,
            blocks_view(out@) == stream_blocks(
                src,
                opt.invert,
                nm,
                opt.before_num as nat,
                opt.after_num as nat,
                lv,
                if scan.window().candidate_number() >= 1 { scan.window().candidate_number() as nat } else { 0 },
            ),
        decreases n + opt.after_num - scan.window().advanced(),
    {
        proof { scan.window().lemma_slots(); }
        let ghost k0 = scan.window().candidate_number();
        let ghost out0 = blocks_view(out@);
        let line = if scan.wants_line() && i < n {
            let l = lines[i].clone();
            i = i + 1;
            assert(lv.take(i as int) =~= lv.take(i - 1).push(l@));
            Some(l)
        } else {
            None
        };
        let step = scan.step(pattern, line);
        let ghost a = opt.after_num as nat;
        let ghost b = opt.before_num as nat;
        proof {
            let w = scan.window();
            w.lemma_slots();
            let k = w.candidate_number();
            assert(k == k0 + 1);
            if k >= 1 && k <= n {
                lemma_window_over_stream(lv, i as int, k, b, a);
                assert(w@ =~= expected_slots(lv.take(i as int), k, b, b + a + 1));
                assert(w@[w.before() as int] == line_at(lv.take(i as int), k));
                assert(lv.take(i as int)[k - 1] == lv[k - 1]);
                assert(w@[w.before() as int] == Some(lv[k - 1]));
                assert(out0 == stream_blocks(src, opt.invert, nm, b, a, lv, (k - 1) as nat));
                assert(stream_blocks(src, opt.invert, nm, b, a, lv, k as nat) == if selects(src, lv[k - 1], opt.invert) {
                    out0.push(block(nm, k as nat, expected_slots(lv, k, b, b + a + 1)))
                } else {
                    out0
                });
                if selects(src, lv[k - 1], opt.invert) {
                    assert(scan.report(src) == Some(block(nm, k as nat, expected_slots(lv, k, b, b + a + 1))));
                } else {
                    assert(scan.report(src) is None);
                }
                assert(!(step is End));
            } else if k > n {
                assert(w.exhausted());
                assert(lv.take(i as int) =~= lv);
                assert(w@[w.before() as int] is None);
                assert(step is End);
                assert(k0 == n);
                assert(out0 == stream_blocks(src, opt.invert, nm, b, a, lv, n as nat));
            } else {
                assert(scan.report(src) is None);
                assert(!(step is End));
            }
        }
        match step {
            Step::Continue => {
                assert(blocks_view(out@) == out0);
            },
            Step::Report(bytes) => {
                out.push(bytes);
                assert(blocks_view(out@) =~= out0.push(bytes@));
            },
            Step::End => {
                assert(blocks_view(out@) == out0);
                assert(out0 == stream_blocks(src, opt.invert, nm, b, a, lv, n as nat));
                return out;
            },
        }
    }
}

/// The numbers of the lines that a whole scan of `lines` reports, among the
/// candidates numbered 1 to `upto`, in order.
pub open spec fn reported_numbers(source: Seq<char>, invert: bool, lines: Seq<Seq<char>>, upto: nat) -> Seq<int>
    decreases upto,
{
    if upto == 0 {
        Seq::empty()
    } else {
        let prev = reported_numbers(source, invert, lines, (upto - 1) as nat);
        if selects(source, lines[upto - 1], invert) {
            prev.push(upto as int)
        } else {
            prev
        }
    }
}

/// The number of the first line shown around candidate `i`: `max(1, i - before)`.
pub open spec fn context_first(i: int, before: nat) -> int {
    if i - before >= 1 { i - before } else { 1 }
}

/// The number of the last line shown around candidate `i` in a stream of
/// `last` lines: `min(last, i + after)`.
pub open spec fn context_last(i: int, after: nat, last: nat) -> int {
    if last <= i + after { last as int } else { i + after }
}

/// The `j`-th block of a whole scan belongs to the `j`-th reported line `i`:
/// it is the block of the window around `i`, which holds exactly the lines
/// numbered from `context_first` to `context_last`, each once and in order. Every block is whole, even where it overlaps the one before.
pub proof fn lemma_stream_blocks(
    source: Seq<char>,
    invert: bool,
    name: Option<Seq<u8>>,
    before: nat,
    after: nat,
    lines: Seq<Seq<char>>,
    upto: nat,
)
    requires
        upto <= lines.len(),
    ensures
        ({
            let blocks = stream_blocks(source, invert, name, before, after, lines, upto);
            let nums = reported_numbers(source, invert, lines, upto);
            &&& blocks.len() == nums.len()
            &&& forall|j: int| 0 <= j < nums.len() ==> 1 <= #[trigger] nums[j] <= upto
            &&& forall|j: int| 0 <= j < nums.len() ==>
                #[trigger] blocks[j] == block(name, nums[j] as nat, expected_slots(lines, nums[j], before, before + after + 1))
            &&& forall|j: int, m: int| 0 <= j < nums.len() && 0 <= m < before + after + 1 ==>
                (#[trigger] expected_slots(lines, nums[j], before, before + after + 1)[m] is Some
                    <==> context_first(nums[j], before) <= nums[j] - before + m <= context_last(nums[j], after, lines.len()))
            &&& forall|j: int, m: int| 0 <= j < nums.len() && 0 <= m < before + after + 1
                && (#[trigger] expected_slots(lines, nums[j], before, before + after + 1)[m]) is Some ==>
                expected_slots(lines, nums[j], before, before + after + 1)[m] == Some(lines[nums[j] - before + m - 1])
        }),
    decreases upto,
{
    if upto > 0 {
        lemma_stream_blocks(source, invert, name, before, after, lines, (upto - 1) as nat);
    }
}

/// With no context lines, a whole scan writes, for each selected line, its
/// heading and the line itself and nothing else: the output of a plain
/// line-by-line match scan.
pub proof fn lemma_stream_no_context(
    source: Seq<char>,
    invert: bool,
    name: Option<Seq<u8>>,
    lines: Seq<Seq<char>>,
    upto: nat,
)
    requires
        upto <= lines.len(),
    ensures
        ({
            let blocks = stream_blocks(source, invert, name, 0, 0, lines, upto);
            let nums = reported_numbers(source, invert, lines, upto);
            &&& blocks.len() == nums.len()
            &&& forall|j: int| 0 <= j < nums.len() ==>
                #[trigger] blocks[j] == heading(name, nums[j] as nat) + line_bytes(lines[nums[j] - 1])
        }),
    decreases upto,
{
    lemma_stream_blocks(source, invert, name, 0, 0, lines, upto);
    let nums = reported_numbers(source, invert, lines, upto);
    assert forall|j: int| 0 <= j < nums.len() implies #[trigger] stream_blocks(source, invert, name, 0, 0, lines, upto)[j]
        == heading(name, nums[j] as nat) + line_bytes(lines[nums[j] - 1]) by {
        let sl = expected_slots(lines, nums[j], 0, 1);
        assert(sl[0] == Some(lines[nums[j] - 1]));
    }
}

/// The inverted scan reports exactly the lines of the stream that the plain
/// scan does not: each line number from 1 to `upto` is reported by one of
/// the two and never by both.
pub proof fn lemma_stream_invert_complement(source: Seq<char>, lines: Seq<Seq<char>>, upto: nat)
    requires
        upto <= lines.len(),
    ensures
        forall|i: int| 1 <= i <= upto ==>
            (#[trigger] reported_numbers(source, true, lines, upto).contains(i)
                <==> !reported_numbers(source, false, lines, upto).contains(i)),
        forall|i: int| reported_numbers(source, true, lines, upto).contains(i) ==> 1 <= i <= upto,
        forall|i: int| reported_numbers(source, false, lines, upto).contains(i) ==> 1 <= i <= upto,
    decreases upto,
{
    if upto > 0 {
        let u = (upto - 1) as nat;
        lemma_stream_invert_complement(source, lines, u);
        let t0 = reported_numbers(source, true, lines, u);
        let f0 = reported_numbers(source, false, lines, u);
        let t = reported_numbers(source, true, lines, upto);
        let f = reported_numbers(source, false, lines, upto);
        assert forall|i: int| t.contains(i) <==> (t0.contains(i) || (i == upto && selects(source, lines[upto - 1], true))) by {
            if selects(source, lines[upto - 1], true) {
                assert(t == t0.push(upto as int));
                if t.contains(i) {
                    let x = choose|x: int| 0 <= x < t.len() && t[x] == i;
                    if x < t0.len() { assert(t0[x] == i); }
                }
                if t0.contains(i) {
                    let x = choose|x: int| 0 <= x < t0.len() && t0[x] == i;
                    assert(t[x] == i);
                }
                if i == upto { assert(t[t.len() - 1] == i); }
            }
        }
        assert forall|i: int| f.contains(i) <==> (f0.contains(i) || (i == upto && selects(source, lines[upto - 1], false))) by {
            if selects(source, lines[upto - 1], false) {
                assert(f == f0.push(upto as int));
                if f.contains(i) {
                    let x = choose|x: int| 0 <= x < f.len() && f[x] == i;
                    if x < f0.len() { assert(f0[x] == i); }
                }
                if f0.contains(i) {
                    let x = choose|x: int| 0 <= x < f0.len() && f0[x] == i;
                    assert(f[x] == i);
                }
                if i == upto { assert(f[f.len() - 1] == i); }
            }
        }
    }
}

/// An empty stream gives no block, whatever the pattern and options.
pub proof fn lemma_empty_stream(source: Seq<char>, invert: bool, name: Option<Seq<u8>>, before: nat, after: nat)
    ensures
        stream_blocks(source, invert, name, before, after, Seq::empty(), 0) == Seq::<Seq<u8>>::empty(),
{
}

/// The blocks of a whole scan depend on the pattern, the options, the name
/// and the lines alone: scanning an unchanged input twice with unchanged
/// options writes the same bytes.
pub proof fn lemma_stream_same_input_same_output(
    source: Seq<char>,
    invert: bool,
    name: Option<Seq<u8>>,
    before: nat,
    after: nat,
    lines1: Seq<Seq<char>>,
    lines2: Seq<Seq<char>>,
    out1: Seq<Seq<u8>>,
    out2: Seq<Seq<u8>>,
)
    requires
        lines1 == lines2,
        out1 == stream_blocks(source, invert, name, before, after, lines1, lines1.len()),
        out2 == stream_blocks(source, invert, name, before, after, lines2, lines2.len()),
    ensures
        out1 == out2,
{
}

/// Inverting the search reports exactly the candidate lines that the plain
/// search leaves out.
pub proof fn lemma_invert_complement(source: Seq<char>, line: Seq<char>)
    ensures
        selects(source, line, true) == !selects(source, line, false),
{
}

/// With no context lines the window has one slot, and a reported block is the
/// heading followed by the candidate line itself, as a plain line-by-line
/// scan writes it.
pub proof fn lemma_no_context_single_line(scan: &LineScan)
    requires
        scan.wf(),
        scan.window().before() == 0,
        scan.window().after() == 0,
        scan.window().candidate_number() >= 1,
        scan.window()@[0] is Some,
    ensures
        scan.window()@.len() == 1,
        block(scan.name(), scan.window().candidate_number() as nat, scan.window()@) == heading(
            scan.name(),
            scan.window().candidate_number() as nat,
        ) + line_bytes(scan.window().lines()[scan.window().candidate_number() - 1]),
{
    scan.window().lemma_slots();
}

/// The block for candidate line `k` holds the lines numbered from
/// `max(1, k - before)` to `min(last, k + after)` and no others, each in its
/// own slot, in order, where `last` is the number of lines read; until the
/// stream ends, `last` is `k + after`.
pub proof fn lemma_context_lines(scan: &LineScan)
    requires
        scan.wf(),
        scan.window().candidate_number() >= 1,
    ensures
        ({
            let w = scan.window();
            let k = w.candidate_number();
            let lo = if k - w.before() >= 1 { k - w.before() } else { 1 };
            let last = w.lines().len();
            let hi = if last <= k + w.after() { last as int } else { k + w.after() };
            &&& w@.len() == w.capacity()
            &&& !w.exhausted() ==> last == k + w.after()
            &&& forall|j: int| 0 <= j < w.capacity() ==>
                (#[trigger] w@[j] is Some <==> lo <= k - w.before() + j <= hi)
            &&& forall|j: int| 0 <= j < w.capacity() && w@[j] is Some ==>
                #[trigger] w@[j] == Some(w.lines()[k - w.before() + j - 1])
        }),
{
    scan.window().lemma_slots();
}

/// Two scans of the same input under the same options, fed the same lines,
/// hold the same window and report the same bytes for every pattern: scanning
/// an unchanged input twice gives identical output.
pub proof fn lemma_same_input_same_output(a: &LineScan, b: &LineScan, source: Seq<char>)
    requires
        a.wf(),
        b.wf(),
        a.invert() == b.invert(),
        a.name() == b.name(),
        a.window().before() == b.window().before(),
        a.window().after() == b.window().after(),
        a.window().advanced() == b.window().advanced(),
        a.window().lines() == b.window().lines(),
    ensures
        a.window()@ == b.window()@,
        a.report(source) == b.report(source),
{
    a.window().lemma_slots();
    b.window().lemma_slots();
    assert(a.window()@ =~= b.window()@);
}

} // verus!
