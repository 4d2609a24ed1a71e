//! Decimal text: reading a count given on the command line, and writing a
//! line number.
use vstd::prelude::*;
use vstd::string::StrSliceExecFns;

verus! {

pub open spec fn is_digit(c: char) -> bool {
    '0' <= c && c <= '9'
}

pub open spec fn digit_value(c: char) -> nat {
    (c as u32 - '0' as u32) as nat
}

/// The number that a string of decimal digits denotes.
pub open spec fn digits_value(s: Seq<char>) -> nat
    decreases s.len(),
{
    if s.len() == 0 {
        0
    } else {
        digits_value(s.drop_last()) * 10 + digit_value(s.last())
    }
}

/// The digits of a count: the text without one leading `+`.
pub open spec fn count_digits(s: Seq<char>) -> Seq<char> {
    if s.len() > 0 && s[0] == '+' {
        s.drop_first()
    } else {
        s
    }
}

/// Whether `s` is a count that fits in a `usize`: an optional `+`, then one or
/// more decimal digits.
pub open spec fn is_count(s: Seq<char>) -> bool {
    let d = count_digits(s);
    &&& d.len() > 0
    &&& forall|i: int| 0 <= i < d.len() ==> is_digit(#[trigger] d[i])
    &&& digits_value(d) <= usize::MAX
}

/// The ASCII decimal digits of `n`, most significant first, with no leading
/// zero.
pub open spec fn decimal(n: nat) -> Seq<u8>
    decreases n,
{
    if n < 10 {
        seq![(48 + n) as u8]
    } else {
        decimal(n / 10).push((48 + n % 10) as u8)
    }
}

proof fn lemma_digits_value_grows(s: Seq<char>, i: int)
    requires
        0 <= i <= s.len(),
        forall|j: int| 0 <= j < s.len() ==> is_digit(#[trigger] s[j]),
    ensures
        digits_value(s.take(i)) <= digits_value(s),
    decreases s.len() - i,
{
    if i < s.len() {
        lemma_digits_value_grows(s, i + 1);
        assert(s.take(i + 1).drop_last() =~= s.take(i));
    } else {
        assert(s.take(i) =~= s);
    }
}

/// Reads a count: an optional `+` followed by decimal digits, whose value fits
/// in a `usize`. Any other text gives `None`.
pub fn parse(s: &str) -> (r: Option<usize>)
    ensures
        r is Some <==> is_count(s@),
        r matches Some(v) ==> v == digits_value(count_digits(s@)),
{
    let len = s.unicode_len();
    let ghost d = count_digits(s@);
    let start: usize = if len > 0 && s.get_char(0) == '+' { 1 } else { 0 };
    assert(d =~= s@.subrange(start as int, len as int));
    if start == len {
        return None;
    }
    let mut acc: usize = 0;
    let mut i: usize = start;
    while i < len
        invariant
            start <= i <= len,
            len == s@.len(),
            d =~= s@.subrange(start as int, len as int),
            d == count_digits(s@),
            forall|j: int| 0 <= j < i - start ==> is_digit(#[trigger] d[j]),
            acc == digits_value(d.take(i - start)),
        decreases len - i,
    {
        let c = s.get_char(i);
        assert(d[i - start] == s@[i as int]);
        if c < '0' || c > '9' {
            assert(!is_digit(d[i - start]));
            return None;
        }
        let ghost t = d.take(i - start + 1);
        assert(t.drop_last() =~= d.take(i - start));
        let dv = (c as u32 - '0' as u32) as usize;
        assert(is_digit(d[i - start]));
        assert(digits_value(t) == acc * 10 + dv);
        match acc.checked_mul(10) {
            Some(m) => match m.checked_add(dv) {
                Some(v) => {
                    acc = v;
                },
                None => {
                    proof { exceeds(s@, d, start as int, len as int, i as int); }
                    return None;
                },
            },
            None => {
                proof { exceeds(s@, d, start as int, len as int, i as int); }
                return None;
            },
        }
        i = i + 1;
    }
    assert(d.take(len - start) =~= d);
    Some(acc)
}

/// A prefix of a digit string whose value exceeds `usize::MAX` leaves the
/// count out of range, unless a later character is not a digit.
proof fn exceeds(s: Seq<char>, d: Seq<char>, start: int, len: int, i: int)
    requires
        0 <= start <= i < len == s.len(),
        d == s.subrange(start, len),
        d =~= count_digits(s),
        forall|j: int| 0 <= j <= i - start ==> is_digit(#[trigger] d[j]),
        digits_value(d.take(i - start + 1)) > usize::MAX,
    ensures
        !is_count(s),
{
    if forall|j: int| 0 <= j < d.len() ==> is_digit(#[trigger] d[j]) {
        lemma_digits_value_grows(d, i - start + 1);
    }
}

/// Appends the decimal digits of `n` to `out`.
pub fn push_decimal(n: usize, out: &mut Vec<u8>)
    ensures
        final(out)@ == old(out)@ + decimal(n as nat),
    decreases n,
{
    if n < 10 {
        out.push((48 + n) as u8);
    } else {
        push_decimal(n / 10, out);
        out.push((48 + n % 10) as u8);
        assert(final(out)@ =~= old(out)@ + decimal(n as nat));
    }
}

} // verus!
