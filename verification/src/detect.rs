//! Discovery of the prefix that the compiler puts before the path of each
//! header it opens.

use crate::codepage::from_local_codepage;
use crate::text::{
    char_views, chars_of, ends_with, lines, slice_of, split_lines, string_of, views,
};
use vstd::prelude::*;
use vstd::string::StrSliceExecFns;
use vstd::utf8::encode_utf8;

verus! {

/// A way to cut a line in two: what may be the prefix, and what may be
/// the path of a header.
pub struct Candidate {
    pub prefix: Seq<char>,
    pub path: Seq<char>,
}

/// The name of the header that the probe source pulls in.
pub open spec fn header_name() -> Seq<char> {
    "stdio.h"@
}

/// The cut of `line` just after the space at position `space`.
pub open spec fn candidate_at(line: Seq<char>, space: int) -> Candidate {
    Candidate { prefix: line.take(space + 1), path: line.skip(space + 1) }
}

/// The cuts of `line` at the spaces among its first `n` characters, the
/// rightmost first.
pub open spec fn cuts(line: Seq<char>, n: int) -> Seq<Candidate>
    decreases n,
{
    if n <= 0 {
        Seq::empty()
    } else if n <= line.len() && line[n - 1] == ' ' {
        seq![candidate_at(line, n - 1)] + cuts(line, n - 1)
    } else {
        cuts(line, n - 1)
    }
}

/// The cuts to try for one line of output: none unless the line ends with
/// the name of the header.
pub open spec fn line_candidates(line: Seq<char>) -> Seq<Candidate> {
    if header_name().is_suffix_of(line) {
        cuts(line, line.len() as int)
    } else {
        Seq::empty()
    }
}

/// The cuts to try for the whole output, in the order in which they are
/// tried: line by line, and within a line from the right.
pub open spec fn candidates(lines: Seq<Seq<char>>) -> Seq<Candidate>
    decreases lines.len(),
{
    if lines.len() == 0 {
        Seq::empty()
    } else {
        candidates(lines.drop_last()) + line_candidates(lines.last())
    }
}

/// The prefix of the first cut whose path exists.
pub open spec fn detected(
    candidates: Seq<Candidate>,
    present: spec_fn(Seq<char>) -> bool,
) -> Option<Seq<char>>
    decreases candidates.len(),
{
    if candidates.len() == 0 {
        None
    } else if present(candidates[0].path) {
        Some(candidates[0].prefix)
    } else {
        detected(candidates.skip(1), present)
    }
}

/// A cut of a line of compiler output.
#[derive(Debug, Clone, PartialEq, Eq)]
pub struct PrefixCandidate {
    /// The line up to and including a space.
    pub prefix: String,
    /// The rest of the line.
    pub path: String,
}

impl View for PrefixCandidate {
    type V = Candidate;

    open spec fn view(&self) -> Candidate {
        Candidate { prefix: self.prefix@, path: self.path@ }
    }
}

/// The text of each cut.
pub open spec fn candidate_views(list: Seq<PrefixCandidate>) -> Seq<Candidate> {
    list.map_values(|c: PrefixCandidate| c@)
}

/// Appends the cuts of one line to `found`.
fn push_line_candidates(line: &Vec<char>, found: &mut Vec<PrefixCandidate>)
    ensures
        candidate_views(final(found)@) == candidate_views(old(found)@) + line_candidates(line@),
{
    assert(candidate_views(found@) + Seq::<Candidate>::empty() =~= candidate_views(found@));
    if !ends_with(line, "stdio.h") {
        return ;
    }
    let n = line.len();
    let mut i = n;
    assert(candidate_views(found@) + cuts(line@, n as int) =~= candidate_views(old(found)@)
        + line_candidates(line@));
    while i > 0
        invariant
            i <= n,
            n == line.len(),
            candidate_views(found@) + cuts(line@, i as int) == candidate_views(old(found)@)
                + line_candidates(line@),
        decreases i,
    {
        i -= 1;
        if line[i] == ' ' {
            let prefix = slice_of(line, 0, i + 1);
            let path = slice_of(line, i + 1, n);
            let cut = PrefixCandidate { prefix: string_of(&prefix), path: string_of(&path) };
            proof {
                assert(cut@ == candidate_at(line@, i as int));
                assert(candidate_views(found@.push(cut)) =~= candidate_views(found@).push(cut@));
                assert(candidate_views(found@).push(cut@) + cuts(line@, i as int)
                    =~= candidate_views(found@) + cuts(line@, i + 1));
            }
            found.push(cut);
        }
    }
}

/// A search for the prefix that is under way: the cuts not tried yet.
#[derive(Debug, Clone, PartialEq, Eq)]
pub struct PrefixSearch {
    candidates: Vec<PrefixCandidate>,
    next: usize,
}

impl View for PrefixSearch {
    type V = Seq<Candidate>;

    closed spec fn view(&self) -> Seq<Candidate> {
        if self.next <= self.candidates@.len() {
            candidate_views(self.candidates@).skip(self.next as int)
        } else {
            Seq::empty()
        }
    }
}

/// The outcome of one answer to a search.
#[derive(Debug, Clone, PartialEq, Eq)]
pub enum SearchStep {
    /// The path exists: this is the prefix.
    Found(String),
    /// The path does not exist: the search goes on.
    Continue(PrefixSearch),
    /// No cut was left to try.
    NotFound,
}

/// The text of a [`SearchStep`].
pub enum Step {
    Found(Seq<char>),
    Continue(Seq<Candidate>),
    NotFound,
}

impl View for SearchStep {
    type V = Step;

    open spec fn view(&self) -> Step {
        match self {
            SearchStep::Found(prefix) => Step::Found(prefix@),
            SearchStep::Continue(search) => Step::Continue(search@),
            SearchStep::NotFound => Step::NotFound,
        }
    }
}

/// What follows when the path of the first of `remaining` exists or not.
pub open spec fn answered(remaining: Seq<Candidate>, present: bool) -> Step {
    if remaining.len() == 0 {
        Step::NotFound
    } else if present {
        Step::Found(remaining[0].prefix)
    } else {
        Step::Continue(remaining.skip(1))
    }
}

impl PrefixSearch {
    /// Starts a search on the decoded standard output of the probe
    /// compilation.
    pub fn over(stdout: &str) -> (r: PrefixSearch)
        ensures
            r@ == candidates(lines(stdout@)),
    {
        let text = chars_of(stdout);
        let all = split_lines(&text);
        let mut found: Vec<PrefixCandidate> = Vec::new();
        let mut i: usize = 0;
        assert(char_views(all@).take(0) =~= Seq::<Seq<char>>::empty());
        assert(candidate_views(found@) =~= Seq::<Candidate>::empty());
        while i < all.len()
            invariant
                i <= all.len(),
                candidate_views(found@) == candidates(char_views(all@).take(i as int)),
            decreases all.len() - i,
        {
            push_line_candidates(&all[i], &mut found);
            i += 1;
            proof {
                let now = char_views(all@).take(i as int);
                assert(now.drop_last() =~= char_views(all@).take(i - 1));
                assert(now.last() == all@[i - 1]@);
            }
        }
        assert(char_views(all@).take(i as int) =~= char_views(all@));
        PrefixSearch { candidates: found, next: 0 }
    }

    /// The path whose existence decides the next step, if a cut is left.
    pub fn pending(&self) -> (r: Option<&String>)
        ensures
            match r {
                Some(path) => self@.len() > 0 && path@ == self@[0].path,
                None => self@.len() == 0,
            },
    {
        if self.next < self.candidates.len() {
            Some(&self.candidates[self.next].path)
        } else {
            None
        }
    }

    /// Takes the answer to the pending question: whether that path
    /// exists.
    pub fn answer(self, present: bool) -> (r: SearchStep)
        ensures
            r@ == answered(self@, present),
    {
        if self.next >= self.candidates.len() {
            SearchStep::NotFound
        } else if present {
            SearchStep::Found(self.candidates[self.next].prefix.clone())
        } else {
            let ghost before = self@;
            let rest = PrefixSearch { candidates: self.candidates, next: self.next + 1 };
            assert(rest@ =~= before.skip(1));
            SearchStep::Continue(rest)
        }
    }
}

/// Why the prefix could not be found.
#[derive(Debug, Clone, Copy, PartialEq, Eq, Structural)]
pub enum DetectError {
    /// The probe compilation failed, or no line of its output ends with
    /// the name of the header after a space that is followed by the path
    /// of an existing file.
    NotDetected,
    /// The output of the probe compilation is not text in the host's code
    /// page.
    InvalidText,
}

/// Starts the search for the prefix on the outcome of the probe
/// compilation: whether it succeeded, and what it wrote to standard
/// output.
pub fn detect_showincludes_prefix(success: bool, stdout: &Vec<u8>) -> (r: Result<
    PrefixSearch,
    DetectError,
>)
    ensures
        !success ==> r == Err::<PrefixSearch, DetectError>(DetectError::NotDetected),
        success ==> r is Ok || r == Err::<PrefixSearch, DetectError>(DetectError::InvalidText),
        success && stdout@.len() == 0 ==> r is Ok && r->Ok_0@.len() == 0,
        r matches Ok(search) ==> exists|text: Seq<char>|
            (text.len() == 0 <==> stdout@.len() == 0) && search@ == #[trigger] candidates(
                lines(text),
            ),
{
    if !success {
        return Err(DetectError::NotDetected);
    }
    match from_local_codepage(stdout) {
        Ok(text) => {
            let search = PrefixSearch::over(text.as_str());
            proof {
                if stdout@.len() == 0 {
                    assert(lines(text@) =~= Seq::<Seq<char>>::empty());
                }
            }
            Ok(search)
        },
        Err(_) => Err(DetectError::InvalidText),
    }
}

/// The name under which the probe source is written.
pub fn probe_source_name() -> (r: &'static str)
    ensures
        r@ == "test.c"@,
{
    "test.c"
}

/// The probe source: one line that pulls in the header.
pub fn probe_source() -> (r: Vec<u8>)
    ensures
        r@ == encode_utf8("#include <stdio.h>\n"@),
{
    "#include <stdio.h>\n".as_bytes_vec()
}

/// The arguments of the probe compilation of `source`: compile only,
/// note each header opened, and discard the object file.
pub fn detection_arguments(source: &str) -> (r: Vec<String>)
    ensures
        views(r@) == seq!["-nologo"@, "-showIncludes"@, "-c"@, "-Fonul"@, source@],
{
    let mut arguments: Vec<String> = Vec::new();
    arguments.push("-nologo".to_owned());
    arguments.push("-showIncludes".to_owned());
    arguments.push("-c".to_owned());
    arguments.push("-Fonul".to_owned());
    arguments.push(source.to_owned());
    assert(views(arguments@) =~= seq![
        "-nologo"@,
        "-showIncludes"@,
        "-c"@,
        "-Fonul"@,
        source@,
    ]);
    arguments
}

} // verus!
