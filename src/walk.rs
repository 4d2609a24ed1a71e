//! The name filter of the directory walk.
use vstd::prelude::*;
use vstd::string::StrSliceExecFns;
use crate::pattern::{pattern_matches, regex_accepts, Pattern, PatternError};

verus! {

/// `s` with a `^` put in front unless it starts with one.
pub open spec fn anchor_start(s: Seq<char>) -> Seq<char> {
    if s.len() > 0 && s[0] == '^' {
        s
    } else {
        seq!['^'] + s
    }
}

/// `s` bound to match a whole name: a `^` in front unless it starts with one,
/// then a `$` at the end unless it ends with one.
pub open spec fn anchored(s: Seq<char>) -> Seq<char> {
    let t = anchor_start(s);
    if t.last() == '$' {
        t
    } else {
        t.push('$')
    }
}

/// Relies on `String::push`: appends one character.
#[verifier::external_body]
fn push_char(s: &mut String, c: char)
    ensures
        final(s)@ == old(s)@.push(c),
{
    s.push(c)
}

/// The text of `s`, bound to match a whole name.
pub fn anchor(s: &str) -> (r: String)
    ensures
        r@ == anchored(s@),
{
    let len = s.unicode_len();
    let mut t = String::new();
    let starts = len > 0 && s.get_char(0) == '^';
    if !starts {
        push_char(&mut t, '^');
    }
    let ghost head = t@;
    let mut i: usize = 0;
    while i < len
        invariant
            len == s@.len(),
            i <= len,
            t@ == head + s@.take(i as int),
        decreases len - i,
    {
        let c = s.get_char(i);
        push_char(&mut t, c);
        i = i + 1;
        assert(t@ =~= head + s@.take(i as int));
    }
    assert(s@.take(len as int) =~= s@);
    assert(t@ =~= anchor_start(s@));
    let tl = t.unicode_len();
    let ends = t.as_str().get_char(tl - 1) == '$';
    if !ends {
        push_char(&mut t, '$');
    }
    t
}

/// Text that already starts with `^` and ends with `$` is left as it is.
pub proof fn lemma_anchored_unchanged(s: Seq<char>)
    requires
        s.len() > 0,
        s[0] == '^',
        s.last() == '$',
    ensures
        anchored(s) == s,
{
}

/// Compiles the name filter given as `s`, bound to match whole names.
pub fn name_pattern(s: &str) -> (r: Result<Pattern, PatternError>)
    ensures
        r is Ok <==> regex_accepts(anchored(s@)),
        r matches Ok(p) ==> p.source_view() == anchored(s@),
{
    let a = anchor(s);
    Pattern::new(a.as_str())
}

/// Whether an entry with the given base name is listed: always without a
/// filter; with one, only when the name exists and the filter matches it.
pub open spec fn selects_name(pattern: Option<Seq<char>>, name: Option<Seq<char>>) -> bool {
    match pattern {
        None => true,
        Some(p) => match name {
            Some(n) => pattern_matches(p, n),
            None => false,
        },
    }
}

/// What the walk does at one entry.
pub struct Visit {
    /// Write the entry's path.
    pub print: bool,
    /// List the entry's children.
    pub descend: bool,
}

/// The walk writes an entry whose base name the filter selects, and lists the
/// children of every entry that is not a file, whether its name was selected
/// or not.
pub fn visit(pattern: &Option<Pattern>, name: Option<&str>, is_file: bool) -> (r: Visit)
    ensures
        r.print == selects_name(
            match pattern {
                Some(p) => Some(p.source_view()),
                None => None,
            },
            match name {
                Some(n) => Some(n@),
                None => None,
            },
        ),
        r.descend == !is_file,
{
    let print = match pattern {
        None => true,
        Some(p) => match name {
            Some(n) => p.is_match(n),
            None => false,
        },
    };
    Visit { print, descend: !is_file }
}

} // verus!
