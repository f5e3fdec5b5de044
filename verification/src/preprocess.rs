//! The preprocessing step: its command line, and what becomes of the
//! compiler's notes on the headers it opened.

use crate::arguments::{OutputKind, ParsedArguments, ParsedView};
use crate::codepage::from_local_codepage;
use crate::text::{
    char_views, chars_of, lemma_views_push, lines, push_chars, split_lines, starts_with,
    string_of, trim, trimmed_tail, views,
};
use vstd::prelude::*;
use vstd::string::{StrSliceExecFns, StringExecFns};
use vstd::utf8::encode_utf8;

verus! {

/// The arguments of the preprocessing run: preprocess only, the source,
/// no banner, the flags handed on, and a note for each header opened when
/// a dependency file is wanted.
pub open spec fn preprocess_command(parsed: ParsedView) -> Seq<Seq<char>> {
    seq!["-E"@, parsed.input, "-nologo"@] + parsed.common_args + (if parsed.depfile is Some {
        seq!["-showIncludes"@]
    } else {
        Seq::empty()
    })
}

/// Builds the arguments of the preprocessing run.
pub fn preprocess_arguments(parsed_args: &ParsedArguments) -> (r: Vec<String>)
    ensures
        views(r@) == preprocess_command(parsed_args@),
{
    let mut arguments: Vec<String> = Vec::new();
    arguments.push("-E".to_owned());
    arguments.push(parsed_args.input.clone());
    arguments.push("-nologo".to_owned());
    let ghost head = seq!["-E"@, parsed_args.input@, "-nologo"@];
    let common = &parsed_args.common_args;
    assert(views(arguments@) =~= head + views(common@).take(0));
    let mut i: usize = 0;
    while i < common.len()
        invariant
            i <= common.len(),
            views(arguments@) == head + views(common@).take(i as int),
        decreases common.len() - i,
    {
        proof {
            lemma_views_push(arguments@, common@[i as int]);
            assert(head + views(common@).take(i + 1) =~= (head + views(common@).take(
                i as int,
            )).push(common@[i as int]@));
        }
        arguments.push(common[i].clone());
        i += 1;
    }
    assert(views(common@).take(i as int) =~= views(common@));
    if parsed_args.depfile.is_some() {
        let flag = "-showIncludes".to_owned();
        proof {
            lemma_views_push(arguments@, flag);
            assert((head + views(common@)).push(flag@) =~= preprocess_command(parsed_args@));
        }
        arguments.push(flag);
    } else {
        assert(head + views(common@) =~= preprocess_command(parsed_args@));
    }
    arguments
}

/// The paths that the notes among `lines` name: of each line that begins
/// with `prefix`, the rest without the white space around it.
pub open spec fn noted_paths(lines: Seq<Seq<char>>, prefix: Seq<char>) -> Seq<Seq<char>>
    decreases lines.len(),
{
    if lines.len() == 0 {
        Seq::empty()
    } else {
        let before = noted_paths(lines.drop_last(), prefix);
        if prefix.is_prefix_of(lines.last()) {
            before.push(trim(lines.last().skip(prefix.len() as int)))
        } else {
            before
        }
    }
}

/// The lines among `lines` that are no notes, each ended by a line feed.
pub open spec fn other_output(lines: Seq<Seq<char>>, prefix: Seq<char>) -> Seq<char>
    decreases lines.len(),
{
    if lines.len() == 0 {
        Seq::empty()
    } else {
        let before = other_output(lines.drop_last(), prefix);
        if prefix.is_prefix_of(lines.last()) {
            before
        } else {
            before + lines.last() + seq!['\n']
        }
    }
}

/// The compiler's error output, taken apart.
#[derive(Debug, Clone, PartialEq, Eq)]
pub struct NotedIncludes {
    /// The path of each note, in the order of the notes.
    pub paths: Vec<String>,
    /// The output that is left without the notes.
    pub stderr: Vec<u8>,
}

/// Takes the notes on opened headers out of the decoded error output.
pub fn split_includes(stderr: &str, includes_prefix: &str) -> (r: NotedIncludes)
    ensures
        views(r.paths@) == noted_paths(lines(stderr@), includes_prefix@),
        r.stderr@ == encode_utf8(other_output(lines(stderr@), includes_prefix@)),
{
    let text = chars_of(stderr);
    let all = split_lines(&text);
    let width = includes_prefix.unicode_len();
    let mut paths: Vec<String> = Vec::new();
    let mut other = String::new();
    let mut i: usize = 0;
    assert(char_views(all@).take(0) =~= Seq::<Seq<char>>::empty());
    assert(views(paths@) =~= Seq::<Seq<char>>::empty());
    while i < all.len()
        invariant
            i <= all.len(),
            width == includes_prefix@.len(),
            views(paths@) == noted_paths(char_views(all@).take(i as int), includes_prefix@),
            other@ == other_output(char_views(all@).take(i as int), includes_prefix@),
        decreases all.len() - i,
    {
        let line = &all[i];
        proof {
            let now = char_views(all@).take(i + 1);
            assert(now.drop_last() =~= char_views(all@).take(i as int));
            assert(now.last() == line@);
        }
        if starts_with(line, includes_prefix) {
            let path = string_of(&trimmed_tail(line, width));
            proof {
                lemma_views_push(paths@, path);
            }
            paths.push(path);
        } else {
            let ghost before = other@;
            push_chars(&mut other, line);
            other.push('\n');
            assert(other@ =~= before + line@ + seq!['\n']);
        }
        i += 1;
    }
    assert(char_views(all@).take(i as int) =~= char_views(all@));
    NotedIncludes { paths, stderr: other.as_str().as_bytes_vec() }
}

/// What the file system says of a path.
#[derive(Debug, Clone, PartialEq, Eq)]
pub enum Canonical {
    /// The platform has no canonical form of a path.
    Unsupported,
    /// The canonical form could not be had: the file cannot be opened, or
    /// the system's answer holds no name that is text.
    Unavailable,
    /// The canonical form.
    Resolved(String),
}

/// The name in the system's answer to the question for the final name of
/// a file, in the units in which the system gives it: the answer without
/// the four units that mark it and without the unit that ends it.
pub open spec fn name_units(units: Seq<u16>) -> Option<Seq<u16>> {
    if units.len() >= 5 {
        Some(units.subrange(4, units.len() - 1))
    } else {
        None
    }
}

/// Cuts the name out of the system's answer. An answer too short to hold
/// the mark and the end has no name.
pub fn final_name_units(units: &Vec<u16>) -> (r: Option<Vec<u16>>)
    ensures
        units@.len() >= 5 ==> r is Some && r->0@ == units@.subrange(4, units@.len() - 1),
        units@.len() < 5 ==> r is None,
        match r {
            Some(name) => name_units(units@) == Some(name@),
            None => name_units(units@) is None,
        },
{
    let n = units.len();
    if n < 5 {
        return None;
    }
    let mut name: Vec<u16> = Vec::new();
    let mut i: usize = 4;
    assert(name@ =~= units@.subrange(4, 4));
    while i < n - 1
        invariant
            n == units.len(),
            4 <= i <= n - 1,
            name@ == units@.subrange(4, i as int),
        decreases n - i,
    {
        name.push(units[i]);
        i += 1;
        assert(name@ =~= units@.subrange(4, i as int));
    }
    Some(name)
}

/// `path` with each backslash turned into a slash.
pub open spec fn with_slashes(path: Seq<char>) -> Seq<char> {
    path.map_values(
        |c: char|
            if c == '\\' {
                '/'
            } else {
                c
            },
    )
}

/// `path` as it is written to the dependency file.
pub open spec fn normalized(path: Seq<char>, canonical: Canonical) -> Seq<char> {
    match canonical {
        Canonical::Unsupported => path,
        Canonical::Unavailable => with_slashes(path),
        Canonical::Resolved(found) => with_slashes(found@),
    }
}

fn slashed(path: &str) -> (r: String)
    ensures
        r@ == with_slashes(path@),
{
    let text = chars_of(path);
    let mut out = String::new();
    let mut i: usize = 0;
    while i < text.len()
        invariant
            i <= text.len(),
            out@ == with_slashes(text@.take(i as int)),
        decreases text.len() - i,
    {
        let c = text[i];
        out.push(if c == '\\' {
            '/'
        } else {
            c
        });
        i += 1;
        assert(out@ =~= with_slashes(text@.take(i as int)));
    }
    assert(text@.take(i as int) =~= text@);
    out
}

/// Brings the path of a header into the form in which it is written:
/// the canonical form with slashes where there is one, the path with
/// slashes where the platform has canonical forms and this one could not
/// be had, and the path as it is elsewhere.
pub fn normpath(path: &str, canonical: &Canonical) -> (r: String)
    ensures
        r@ == normalized(path@, *canonical),
{
    match canonical {
        Canonical::Unsupported => path.to_owned(),
        Canonical::Unavailable => slashed(path),
        Canonical::Resolved(found) => slashed(found.as_str()),
    }
}

/// Why the outcome of the preprocessing run cannot be used.
#[derive(Debug, Clone, Copy, PartialEq, Eq, Structural)]
pub enum PreprocessError {
    /// A dependency file is wanted and the compiler failed.
    CompilerFailed,
    /// The error output is not text in the host's code page.
    InvalidText,
}

/// What is left to do once the preprocessing run has ended.
#[derive(Debug, Clone, PartialEq, Eq)]
pub enum Preprocessed {
    /// Nothing: the compiler's output stands as it is.
    Unchanged,
    /// Write the dependency file, and replace the compiler's error output.
    Dependencies {
        /// Where the dependency file goes, relative to the working
        /// directory.
        depfile: String,
        /// The object file that the rule is for.
        object: String,
        /// The path of each header, as the compiler named it.
        paths: Vec<String>,
        /// The error output without the notes.
        stderr: Vec<u8>,
    },
}

/// Whether a dependency file is to be written: one was asked for, and the
/// object file is known.
pub open spec fn wants_dependencies(parsed: ParsedView) -> bool {
    parsed.depfile is Some && parsed.outputs.dom().contains(OutputKind::Object)
}

/// What the decoded error output `text` leaves to do.
pub open spec fn dependencies_from(
    parsed: ParsedView,
    prefix: Seq<char>,
    text: Seq<char>,
    r: Preprocessed,
) -> bool {
    r matches Preprocessed::Dependencies { depfile, object, paths, stderr } && {
        &&& depfile@ == parsed.depfile->0
        &&& object@ == parsed.outputs[OutputKind::Object]
        &&& views(paths@) == noted_paths(lines(text), prefix)
        &&& stderr@ == encode_utf8(other_output(lines(text), prefix))
    }
}

/// Decides what to do with the outcome of the preprocessing run, given
/// whether it succeeded and what it wrote to standard error.
pub fn preprocess(
    parsed_args: &ParsedArguments,
    includes_prefix: &str,
    success: bool,
    stderr: &Vec<u8>,
) -> (r: Result<Preprocessed, PreprocessError>)
    ensures
        !wants_dependencies(parsed_args@) ==> r == Ok::<Preprocessed, PreprocessError>(
            Preprocessed::Unchanged,
        ),
        wants_dependencies(parsed_args@) && !success ==> r == Err::<Preprocessed, PreprocessError>(
            PreprocessError::CompilerFailed,
        ),
        wants_dependencies(parsed_args@) && success ==> r == Err::<Preprocessed, PreprocessError>(
            PreprocessError::InvalidText,
        ) || (r is Ok && exists|text: Seq<char>|
            (text.len() == 0 <==> stderr@.len() == 0) && #[trigger] dependencies_from(
                parsed_args@,
                includes_prefix@,
                text,
                r->Ok_0,
            )),
        wants_dependencies(parsed_args@) && success && stderr@.len() == 0 ==> r is Ok
            && dependencies_from(parsed_args@, includes_prefix@, Seq::empty(), r->Ok_0),
{
    let object = match parsed_args.outputs.get(OutputKind::Object) {
        Some(object) => object,
        None => {
            return Ok(Preprocessed::Unchanged);
        },
    };
    let depfile = match &parsed_args.depfile {
        Some(depfile) => depfile,
        None => {
            return Ok(Preprocessed::Unchanged);
        },
    };
    if !success {
        return Err(PreprocessError::CompilerFailed);
    }
    match from_local_codepage(stderr) {
        Ok(text) => {
            let NotedIncludes { paths, stderr } = split_includes(text.as_str(), includes_prefix);
            let r = Preprocessed::Dependencies {
                depfile: depfile.clone(),
                object: object.clone(),
                paths,
                stderr,
            };
            assert(dependencies_from(parsed_args@, includes_prefix@, text@, r));
            let out: Result<Preprocessed, PreprocessError> = Ok(r);
            assert(dependencies_from(parsed_args@, includes_prefix@, text@, out->Ok_0));
            out
        },
        Err(_) => Err(PreprocessError::InvalidText),
    }
}

} // verus!
