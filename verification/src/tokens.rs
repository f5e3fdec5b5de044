//! How a single token of the command line is read.

use crate::text::{equals, starts_with};
use vstd::prelude::*;

verus! {

/// The rule that a token falls under. The rules are tried in the order of
/// [`token_kind`]; the first that fits decides.
#[derive(Debug, Clone, Copy, PartialEq, Eq, Structural)]
pub enum TokenKind {
    /// `-c`: compile, do not link.
    CompileOnly,
    /// `-Fo<path>`: where the object file goes.
    Output,
    /// `-FI`: a forced include, whose file name is the next token.
    TakesValue,
    /// `-deps<path>`: where the dependency file goes.
    DepFile,
    /// A flag that rules caching out: include notes, a response file, or
    /// an output that is not tracked.
    Unsupported,
    /// `-Zi`: produce debug information.
    DebugInfo,
    /// `-Fd<path>`: where the debug-symbols database goes.
    DebugSymbols,
    /// Any other flag.
    PassThrough,
    /// Anything else: the source file.
    Input,
}

/// The flags that make the compiler write a file the cache does not track.
pub open spec fn extra_output_flag(arg: Seq<char>) -> bool {
    ||| arg == "-FA"@
    ||| arg == "-Fa"@
    ||| arg == "-Fe"@
    ||| arg == "-Fm"@
    ||| arg == "-Fp"@
    ||| arg == "-FR"@
    ||| arg == "-Fx"@
}

/// The rule that `arg` falls under.
pub open spec fn token_kind(arg: Seq<char>) -> TokenKind {
    if arg == "-c"@ {
        TokenKind::CompileOnly
    } else if "-Fo"@.is_prefix_of(arg) {
        TokenKind::Output
    } else if arg == "-FI"@ {
        TokenKind::TakesValue
    } else if "-deps"@.is_prefix_of(arg) {
        TokenKind::DepFile
    } else if arg == "-showIncludes"@ {
        TokenKind::Unsupported
    } else if arg.len() > 0 && arg[0] == '@' {
        TokenKind::Unsupported
    } else if extra_output_flag(arg) {
        TokenKind::Unsupported
    } else if arg == "-Zi"@ {
        TokenKind::DebugInfo
    } else if "-Fd"@.is_prefix_of(arg) {
        TokenKind::DebugSymbols
    } else if arg.len() > 1 && arg[0] == '-' {
        TokenKind::PassThrough
    } else {
        TokenKind::Input
    }
}

/// How many leading characters of a token of this kind are the flag
/// itself, the rest being the path it carries.
pub open spec fn flag_len(kind: TokenKind) -> int {
    match kind {
        TokenKind::Output => 3,
        TokenKind::DebugSymbols => 3,
        TokenKind::DepFile => 5,
        _ => 0,
    }
}

/// A token of a kind that carries a path is at least as long as its flag.
pub proof fn lemma_flag_len(arg: Seq<char>)
    ensures
        flag_len(token_kind(arg)) <= arg.len(),
{
    reveal_strlit("-Fo");
    reveal_strlit("-Fd");
    reveal_strlit("-deps");
}

fn is_extra_output_flag(arg: &Vec<char>) -> (r: bool)
    ensures
        r == extra_output_flag(arg@),
{
    equals(arg, "-FA") || equals(arg, "-Fa") || equals(arg, "-Fe") || equals(arg, "-Fm") || equals(
        arg,
        "-Fp",
    ) || equals(arg, "-FR") || equals(arg, "-Fx")
}

/// Reads one token.
pub(crate) fn classify_token(arg: &Vec<char>) -> (r: TokenKind)
    ensures
        r == token_kind(arg@),
{
    if equals(arg, "-c") {
        TokenKind::CompileOnly
    } else if starts_with(arg, "-Fo") {
        TokenKind::Output
    } else if equals(arg, "-FI") {
        TokenKind::TakesValue
    } else if starts_with(arg, "-deps") {
        TokenKind::DepFile
    } else if equals(arg, "-showIncludes") {
        TokenKind::Unsupported
    } else if arg.len() > 0 && arg[0] == '@' {
        TokenKind::Unsupported
    } else if is_extra_output_flag(arg) {
        TokenKind::Unsupported
    } else if equals(arg, "-Zi") {
        TokenKind::DebugInfo
    } else if starts_with(arg, "-Fd") {
        TokenKind::DebugSymbols
    } else if arg.len() > 1 && arg[0] == '-' {
        TokenKind::PassThrough
    } else {
        TokenKind::Input
    }
}

/// Whether position `i` holds the value of the forced-include flag just
/// before it, and so is not read as a flag or an input itself.
pub open spec fn is_flag_value(args: Seq<Seq<char>>, i: int) -> bool
    decreases i,
{
    if i <= 0 || i > args.len() {
        false
    } else {
        token_kind(args[i - 1]) == TokenKind::TakesValue && !is_flag_value(args, i - 1)
    }
}

/// Whether the token at position `i` is read, and falls under `kind`.
pub open spec fn flag_at(args: Seq<Seq<char>>, i: int, kind: TokenKind) -> bool {
    0 <= i < args.len() && !is_flag_value(args, i) && token_kind(args[i]) == kind
}

} // verus!
