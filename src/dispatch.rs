//! What to do with each input, and the outcome of a whole run.
use vstd::prelude::*;

verus! {

/// What an input turned out to be.
#[derive(PartialEq, Eq, Structural, Clone, Copy, Debug)]
pub enum Input {
    /// No path was given: standard input.
    Stdin,
    /// A path that is not a directory.
    File,
    /// A directory.
    Directory,
}

/// What is done with an input.
#[derive(PartialEq, Eq, Structural, Clone, Copy, Debug)]
pub enum Action {
    /// Scan standard input.
    ScanStdin,
    /// Open the file and scan it.
    ScanFile,
    /// List the directory and dispatch each entry in turn.
    ListDirectory,
    /// Write the informational "is a directory." line and go on.
    NoticeDirectory,
}

/// Standard input and files are scanned; a directory is listed when the
/// search is recursive and only noted otherwise.
pub fn dispatch(input: Input, recursive: bool) -> (r: Action)
    ensures
        input == Input::Stdin ==> r == Action::ScanStdin,
        input == Input::File ==> r == Action::ScanFile,
        input == Input::Directory && recursive ==> r == Action::ListDirectory,
        input == Input::Directory && !recursive ==> r == Action::NoticeDirectory,
{
    match input {
        Input::Stdin => Action::ScanStdin,
        Input::File => Action::ScanFile,
        Input::Directory => if recursive {
            Action::ListDirectory
        } else {
            Action::NoticeDirectory
        },
    }
}

/// The text that follows a directory's path in the informational line:
/// ` is a directory.` and a newline.
pub open spec fn directory_suffix() -> Seq<u8> {
    seq![32u8, 105u8, 115u8, 32u8, 97u8, 32u8, 100u8, 105u8, 114u8, 101u8, 99u8, 116u8, 111u8, 114u8, 121u8, 46u8, 10u8]
}

/// The informational line written for a directory met without recursion:
/// its path followed by ` is a directory.`. It counts as neither a report nor
/// an error.
pub fn directory_notice(path: &Vec<u8>) -> (r: Vec<u8>)
    ensures
        r@ == path@ + directory_suffix(),
{
    let suffix: Vec<u8> = vec![32u8, 105u8, 115u8, 32u8, 97u8, 32u8, 100u8, 105u8, 114u8, 101u8, 99u8, 116u8, 111u8, 114u8, 121u8, 46u8, 10u8];
    let mut out: Vec<u8> = Vec::new();
    let mut i: usize = 0;
    while i < path.len()
        invariant
            i <= path@.len(),
            out@ == path@.take(i as int),
        decreases path@.len() - i,
    {
        out.push(path[i]);
        i = i + 1;
        assert(out@ =~= path@.take(i as int));
    }
    assert(path@.take(i as int) =~= path@);
    let mut j: usize = 0;
    while j < suffix.len()
        invariant
            suffix@ == directory_suffix(),
            j <= suffix@.len(),
            out@ == path@ + suffix@.take(j as int),
        decreases suffix@.len() - j,
    {
        out.push(suffix[j]);
        j = j + 1;
        assert(out@ =~= path@ + suffix@.take(j as int));
    }
    assert(suffix@.take(j as int) =~= suffix@);
    out
}

/// What a run has met so far: any error, and whether anything was reported.
pub struct ExecContext {
    pub met_error: bool,
    pub collected: bool,
}

impl ExecContext {
    /// A run that has met nothing yet.
    pub fn new() -> (r: ExecContext)
        ensures
            !r.met_error,
            !r.collected,
    {
        ExecContext { met_error: false, collected: false }
    }

    /// Notes an error; the run goes on with the next input.
    pub fn record_error(&mut self)
        ensures
            final(self).met_error,
            final(self).collected == old(self).collected,
    {
        self.met_error = true;
    }

    /// Notes that a block was reported.
    pub fn record_output(&mut self)
        ensures
            final(self).collected,
            final(self).met_error == old(self).met_error,
    {
        self.collected = true;
    }

    /// A search run fails when it met an error or reported nothing.
    pub fn search_failed(&self) -> (r: bool)
        ensures
            r == (self.met_error || !self.collected),
    {
        self.met_error || !self.collected
    }

    /// A walk run fails when it met an error.
    pub fn walk_failed(&self) -> (r: bool)
        ensures
            r == self.met_error,
    {
        self.met_error
    }
}

} // verus!
