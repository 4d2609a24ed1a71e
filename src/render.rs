//! Rendering of reported lines and blocks as the bytes written to the normal
//! output channel.
use std::collections::VecDeque;
use vstd::prelude::*;
use vstd::string::StringSliceAdditionalSpecFns;
use vstd::utf8::encode_utf8;
use crate::decimal::{decimal, push_decimal};
use crate::pattern::ranges_ordered;
use crate::window::line_view;

verus! {

/// A line as written out: its UTF-8 bytes and a newline.
pub open spec fn line_bytes(l: Seq<char>) -> Seq<u8> {
    encode_utf8(l).push(10u8)
}

/// What a slot contributes to a block: its line, or nothing for an empty slot.
pub open spec fn slot_bytes(o: Option<Seq<char>>) -> Seq<u8> {
    match o {
        Some(l) => line_bytes(l),
        None => Seq::empty(),
    }
}

/// The slots of a window written one after another, empty slots skipped.
pub open spec fn slots_bytes(slots: Seq<Option<Seq<char>>>) -> Seq<u8>
    decreases slots.len(),
{
    if slots.len() == 0 {
        Seq::empty()
    } else {
        slots_bytes(slots.drop_last()) + slot_bytes(slots.last())
    }
}

/// The heading of a reported line: `name:number:` for a named input, and
/// `number:` for standard input, which has no name.
pub open spec fn heading(name: Option<Seq<u8>>, number: nat) -> Seq<u8> {
    match name {
        Some(n) => n.push(58u8) + decimal(number).push(58u8),
        None => decimal(number).push(58u8),
    }
}

/// The block reported for a candidate line numbered `number` in a window with
/// the given slots. A one-slot window gives the heading and the line; a wider
/// one gives the heading, a newline, every filled slot in order, and a blank
/// separator line.
pub open spec fn block(name: Option<Seq<u8>>, number: nat, slots: Seq<Option<Seq<char>>>) -> Seq<u8> {
    if slots.len() == 1 {
        heading(name, number) + slot_bytes(slots[0])
    } else {
        heading(name, number).push(10u8) + slots_bytes(slots).push(10u8)
    }
}

/// Appends `bytes[from..to]` to `out`.
fn push_range(out: &mut Vec<u8>, bytes: &[u8], from: usize, to: usize)
    requires
        from <= to <= bytes@.len(),
    ensures
        final(out)@ == old(out)@ + bytes@.subrange(from as int, to as int),
{
    let mut i: usize = from;
    while i < to
        invariant
            from <= i <= to <= bytes@.len(),
            out@ == old(out)@ + bytes@.subrange(from as int, i as int),
        decreases to - i,
    {
        out.push(bytes[i]);
        i = i + 1;
        assert(out@ =~= old(out)@ + bytes@.subrange(from as int, i as int));
    }
}

/// Appends `line` and a newline to `out`, piece by piece along the given
/// match ranges: the text before each match, the match, and what follows the
/// last one. The pieces make up the line exactly.
pub fn render_line(out: &mut Vec<u8>, line: &str, ranges: &Vec<(usize, usize)>)
    requires
        ranges_ordered(ranges@, line.spec_bytes().len() as int),
    ensures
        final(out)@ == old(out)@ + line_bytes(line@),
{
    let bytes = line.as_bytes();
    let ghost b = bytes@;
    let mut last: usize = 0;
    let mut i: usize = 0;
    while i < ranges.len()
        invariant
            b == bytes@,
            b == line.spec_bytes(),
            ranges_ordered(ranges@, b.len() as int),
            i <= ranges@.len(),
            last <= b.len(),
            i < ranges@.len() ==> last <= ranges@[i as int].0,
            out@ == old(out)@ + b.subrange(0, last as int),
        decreases ranges@.len() - i,
    {
        let (start, end) = ranges[i];
        assert(ranges@[i as int].0 <= ranges@[i as int].1);
        if start > last {
            push_range(out, bytes, last, start);
        }
        push_range(out, bytes, start, end);
        assert(b.subrange(0, last as int) + b.subrange(last as int, start as int) =~= b.subrange(0, start as int));
        assert(b.subrange(0, start as int) + b.subrange(start as int, end as int) =~= b.subrange(0, end as int));
        last = end;
        i = i + 1;
        if i < ranges.len() {
            assert(ranges@[i - 1].1 <= ranges@[i as int].0);
        }
    }
    push_range(out, bytes, last, bytes.len());
    assert(b.subrange(0, last as int) + b.subrange(last as int, b.len() as int) =~= b);
    out.push(10u8);
    assert(out@ =~= old(out)@ + line_bytes(line@));
}

/// Appends the heading of a reported line to `out`.
fn push_heading(out: &mut Vec<u8>, name: &Option<Vec<u8>>, number: usize)
    ensures
        final(out)@ == old(out)@ + heading(name_view(name), number as nat),
{
    match name {
        Some(n) => {
            let mut i: usize = 0;
            while i < n.len()
                invariant
                    i <= n@.len(),
                    out@ == old(out)@ + n@.take(i as int),
                decreases n@.len() - i,
            {
                out.push(n[i]);
                i = i + 1;
                assert(out@ =~= old(out)@ + n@.take(i as int));
            }
            assert(n@.take(n@.len() as int) =~= n@);
            out.push(58u8);
            push_decimal(number, out);
            out.push(58u8);
            assert(out@ =~= old(out)@ + heading(name_view(name), number as nat));
        },
        None => {
            push_decimal(number, out);
            out.push(58u8);
            assert(out@ =~= old(out)@ + heading(name_view(name), number as nat));
        },
    }
}

/// The bytes of an optional input name.
pub open spec fn name_view(name: &Option<Vec<u8>>) -> Option<Seq<u8>> {
    match name {
        Some(n) => Some(n@),
        None => None,
    }
}

/// The block for the candidate line numbered `number` of a window with the
/// given slots; the candidate sits at position `candidate` and is cut along
/// `ranges`, the other slots are written whole.
pub fn render_block(
    name: &Option<Vec<u8>>,
    number: usize,
    slots: &VecDeque<Option<String>>,
    candidate: usize,
    ranges: &Vec<(usize, usize)>,
) -> (r: Vec<u8>)
    requires
        candidate < slots@.len(),
        slots@[candidate as int] matches Some(c) ==> ranges_ordered(ranges@, encode_utf8(c@).len() as int),
    ensures
        r@ == block(name_view(name), number as nat, slots@.map_values(|o: Option<String>| line_view(o))),
{
    let ghost view = slots@.map_values(|o: Option<String>| line_view(o));
    let empty: Vec<(usize, usize)> = Vec::new();
    let mut out: Vec<u8> = Vec::new();
    push_heading(&mut out, name, number);
    let ghost head = out@;
    if slots.len() == 1 {
        match &slots[0] {
            Some(l) => render_line(&mut out, l.as_str(), ranges),
            None => {},
        }
        assert(out@ =~= block(name_view(name), number as nat, view));
        return out;
    }
    out.push(10u8);
    let ghost head_nl = out@;
    let mut i: usize = 0;
    while i < slots.len()
        invariant
            candidate < slots@.len(),
            slots@[candidate as int] matches Some(c) ==> ranges_ordered(ranges@, encode_utf8(c@).len() as int),
            empty@.len() == 0,
            view == slots@.map_values(|o: Option<String>| line_view(o)),
            i <= slots@.len(),
            out@ == head_nl + slots_bytes(view.take(i as int)),
        decreases slots@.len() - i,
    {
        assert(view.take(i + 1).drop_last() =~= view.take(i as int));
        match &slots[i] {
            Some(l) => {
                if i == candidate {
                    render_line(&mut out, l.as_str(), ranges);
                } else {
                    render_line(&mut out, l.as_str(), &empty);
                }
            },
            None => {},
        }
        i = i + 1;
        assert(out@ =~= head_nl + slots_bytes(view.take(i as int)));
    }
    assert(view.take(i as int) =~= view);
    out.push(10u8);
    assert(out@ =~= block(name_view(name), number as nat, view));
    out
}

} // verus!
