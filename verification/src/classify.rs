//! Classification of a command line: is it a compilation, can its result
//! be cached, and which parts do the later stages need.

use crate::arguments::{outputs_map, CompilerArguments, Outputs, ParsedArguments, ParsedView, Verdict};
use crate::path::{extension_agrees, extension_of, path_extension};
use crate::text::{chars_of, lemma_views_push, option_view, views};
use crate::tokens::{classify_token, flag_at, flag_len, is_flag_value, lemma_flag_len, token_kind, TokenKind};
use vstd::prelude::*;
use vstd::string::StrSliceExecFns;

verus! {

/// The position of the last token among the first `n` that is read and
/// falls under `kind`.
pub open spec fn last_flag(args: Seq<Seq<char>>, kind: TokenKind, n: int) -> Option<int>
    decreases n,
{
    if n <= 0 {
        None
    } else if flag_at(args, n - 1, kind) {
        Some(n - 1)
    } else {
        last_flag(args, kind, n - 1)
    }
}

/// The path carried by the last token of `kind` among the first `n`.
pub open spec fn payload(args: Seq<Seq<char>>, kind: TokenKind, n: int) -> Option<Seq<char>> {
    match last_flag(args, kind, n) {
        Some(i) => Some(args[i].skip(flag_len(kind))),
        None => None,
    }
}

/// Whether one of the first `n` tokens rules caching out: an unsupported
/// flag, or a second source file.
pub open spec fn rejects(args: Seq<Seq<char>>, n: int) -> bool
    decreases n,
{
    if n <= 0 {
        false
    } else {
        ||| rejects(args, n - 1)
        ||| flag_at(args, n - 1, TokenKind::Unsupported)
        ||| (flag_at(args, n - 1, TokenKind::Input) && last_flag(args, TokenKind::Input, n - 1)
            is Some)
    }
}

/// Whether the token at position `i` is handed on to the compiler.
pub open spec fn passes_through(args: Seq<Seq<char>>, i: int) -> bool {
    0 <= i < args.len() && (is_flag_value(args, i) || match token_kind(args[i]) {
        TokenKind::TakesValue => true,
        TokenKind::DebugInfo => true,
        TokenKind::DebugSymbols => true,
        TokenKind::PassThrough => true,
        _ => false,
    })
}

/// Those of the first `n` tokens that are handed on, in their order.
pub open spec fn pass_through(args: Seq<Seq<char>>, n: int) -> Seq<Seq<char>>
    decreases n,
{
    if n <= 0 {
        Seq::empty()
    } else if passes_through(args, n - 1) {
        pass_through(args, n - 1).push(args[n - 1])
    } else {
        pass_through(args, n - 1)
    }
}

/// The source file of the command line, if it names one.
pub open spec fn input_of(args: Seq<Seq<char>>) -> Option<Seq<char>> {
    payload(args, TokenKind::Input, args.len() as int)
}

/// The verdict on `args`, given the extension of its source file.
pub open spec fn classification(args: Seq<Seq<char>>, extension: Option<Seq<char>>) -> Verdict {
    let n = args.len() as int;
    let debug_info = last_flag(args, TokenKind::DebugInfo, n) is Some;
    if rejects(args, n) {
        Verdict::CannotCache
    } else if last_flag(args, TokenKind::CompileOnly, n) is None {
        Verdict::NotCompilation
    } else if input_of(args) is None || extension is None {
        Verdict::CannotCache
    } else if payload(args, TokenKind::Output, n) is None {
        Verdict::CannotCache
    } else if debug_info && payload(args, TokenKind::DebugSymbols, n) is None {
        Verdict::CannotCache
    } else {
        Verdict::Parsed(
            ParsedView {
                input: input_of(args)->0,
                extension: extension->0,
                depfile: payload(args, TokenKind::DepFile, n),
                outputs: outputs_map(
                    payload(args, TokenKind::Output, n),
                    if debug_info {
                        payload(args, TokenKind::DebugSymbols, n)
                    } else {
                        None
                    },
                ),
                preprocessor_args: Seq::empty(),
                common_args: pass_through(args, n),
            },
        )
    }
}

/// Once a token rules caching out, no later token changes that.
pub proof fn lemma_rejects_stays(args: Seq<Seq<char>>, i: int, n: int)
    requires
        i <= n,
        rejects(args, i),
    ensures
        rejects(args, n),
    decreases n - i,
{
    if i < n {
        lemma_rejects_stays(args, i, n - 1);
    }
}

/// A forced-include flag and its value add nothing but two entries to the
/// arguments handed on.
proof fn lemma_value_consumed(args: Seq<Seq<char>>, i: int)
    requires
        flag_at(args, i, TokenKind::TakesValue),
        i + 1 < args.len(),
    ensures
        !is_flag_value(args, i + 2),
        rejects(args, i + 2) == rejects(args, i),
        pass_through(args, i + 2) == pass_through(args, i).push(args[i]).push(args[i + 1]),
        forall|kind: TokenKind|
            kind != TokenKind::TakesValue ==> #[trigger] last_flag(args, kind, i + 2) == last_flag(
                args,
                kind,
                i,
            ),
{
    assert(is_flag_value(args, i + 1));
    assert(rejects(args, i + 1) == rejects(args, i));
    assert(pass_through(args, i + 1) == pass_through(args, i).push(args[i]));
    assert forall|kind: TokenKind| kind != TokenKind::TakesValue implies #[trigger] last_flag(
        args,
        kind,
        i + 2,
    ) == last_flag(args, kind, i) by {
        assert(!flag_at(args, i + 1, kind));
        assert(!flag_at(args, i, kind));
        assert(last_flag(args, kind, i + 1) == last_flag(args, kind, i));
    }
}

/// What a scan of the whole command line has gathered.
struct Scanned {
    rejected: bool,
    compilation: bool,
    debug_info: bool,
    input: Option<String>,
    output: Option<String>,
    debug_symbols: Option<String>,
    depfile: Option<String>,
    common_args: Vec<String>,
}

impl Scanned {
    spec fn gathered(&self, args: Seq<Seq<char>>, n: int) -> bool {
        &&& self.compilation == (last_flag(args, TokenKind::CompileOnly, n) is Some)
        &&& self.debug_info == (last_flag(args, TokenKind::DebugInfo, n) is Some)
        &&& option_view(self.input) == payload(args, TokenKind::Input, n)
        &&& option_view(self.output) == payload(args, TokenKind::Output, n)
        &&& option_view(self.debug_symbols) == payload(args, TokenKind::DebugSymbols, n)
        &&& option_view(self.depfile) == payload(args, TokenKind::DepFile, n)
        &&& views(self.common_args@) == pass_through(args, n)
    }

    spec fn describes(&self, args: Seq<Seq<char>>) -> bool {
        &&& self.rejected == rejects(args, args.len() as int)
        &&& !self.rejected ==> self.gathered(args, args.len() as int)
    }

    fn rejected() -> (r: Scanned)
        ensures
            r.rejected,
    {
        Scanned {
            rejected: true,
            compilation: false,
            debug_info: false,
            input: None,
            output: None,
            debug_symbols: None,
            depfile: None,
            common_args: Vec::new(),
        }
    }
}

/// The part of `arg` after its first `from` characters.
fn tail_of(arg: &String, from: usize) -> (r: String)
    requires
        from <= arg@.len(),
    ensures
        r@ == arg@.skip(from as int),
{
    let n = arg.as_str().unicode_len();
    arg.as_str().substring_char(from, n).to_owned()
}

/// Reads the command line from left to right.
fn scan(arguments: &[String]) -> (s: Scanned)
    ensures
        s.describes(views(arguments@)),
{
    let ghost args = views(arguments@);
    let n = arguments.len();
    let mut s = Scanned {
        rejected: false,
        compilation: false,
        debug_info: false,
        input: None,
        output: None,
        debug_symbols: None,
        depfile: None,
        common_args: Vec::new(),
    };
    let mut i: usize = 0;
    assert(views(s.common_args@) =~= pass_through(args, 0));
    while i < n
        invariant
            n == arguments.len(),
            args == views(arguments@),
            i <= n,
            i < n ==> !is_flag_value(args, i as int),
            !rejects(args, i as int),
            !s.rejected,
            s.gathered(args, i as int),
        decreases n - i,
    {
        let arg = &arguments[i];
        let chars = chars_of(arg.as_str());
        let kind = classify_token(&chars);
        proof {
            lemma_flag_len(chars@);
            assert(args[i as int] == arg@);
            assert(flag_at(args, i as int, kind));
            assert(forall|k: TokenKind| k != kind ==> !flag_at(args, i as int, k));
        }
        match kind {
            TokenKind::CompileOnly => {
                s.compilation = true;
                i += 1;
            },
            TokenKind::Output => {
                s.output = Some(tail_of(arg, 3));
                i += 1;
            },
            TokenKind::TakesValue => {
                proof {
                    lemma_views_push(s.common_args@, *arg);
                }
                s.common_args.push(arg.clone());
                if i + 1 < n {
                    let value = &arguments[i + 1];
                    proof {
                        lemma_views_push(s.common_args@, *value);
                        lemma_value_consumed(args, i as int);
                    }
                    s.common_args.push(value.clone());
                    i += 2;
                } else {
                    i += 1;
                }
            },
            TokenKind::DepFile => {
                s.depfile = Some(tail_of(arg, 5));
                i += 1;
            },
            TokenKind::Unsupported => {
                proof {
                    lemma_rejects_stays(args, i + 1, n as int);
                }
                return Scanned::rejected();
            },
            TokenKind::DebugInfo => {
                proof {
                    lemma_views_push(s.common_args@, *arg);
                }
                s.debug_info = true;
                s.common_args.push(arg.clone());
                i += 1;
            },
            TokenKind::DebugSymbols => {
                proof {
                    lemma_views_push(s.common_args@, *arg);
                }
                s.debug_symbols = Some(tail_of(arg, 3));
                s.common_args.push(arg.clone());
                i += 1;
            },
            TokenKind::PassThrough => {
                proof {
                    lemma_views_push(s.common_args@, *arg);
                }
                s.common_args.push(arg.clone());
                i += 1;
            },
            TokenKind::Input => {
                if s.input.is_some() {
                    proof {
                        lemma_rejects_stays(args, i + 1, n as int);
                    }
                    return Scanned::rejected();
                }
                assert(arg@.skip(0) =~= arg@);
                s.input = Some(arg.clone());
                i += 1;
            },
        }
    }
    s
}

/// Draws the verdict from what the scan gathered.
fn conclude(s: Scanned, extension: Option<String>, Ghost(args): Ghost<Seq<Seq<char>>>) -> (r:
    CompilerArguments)
    requires
        s.describes(args),
    ensures
        r@ == classification(args, option_view(extension)),
{
    if s.rejected {
        return CompilerArguments::CannotCache;
    }
    if !s.compilation {
        return CompilerArguments::NotCompilation;
    }
    let input = match s.input {
        Some(input) => input,
        None => {
            return CompilerArguments::CannotCache;
        },
    };
    let extension = match extension {
        Some(extension) => extension,
        None => {
            return CompilerArguments::CannotCache;
        },
    };
    let object = match s.output {
        Some(object) => object,
        None => {
            return CompilerArguments::CannotCache;
        },
    };
    let debug_symbols = if s.debug_info {
        match s.debug_symbols {
            Some(path) => Some(path),
            None => {
                return CompilerArguments::CannotCache;
            },
        }
    } else {
        None
    };
    let parsed = ParsedArguments {
        input,
        extension,
        depfile: s.depfile,
        outputs: Outputs { object: Some(object), debug_symbols },
        preprocessor_args: Vec::new(),
        common_args: s.common_args,
    };
    assert(parsed@.preprocessor_args =~= Seq::<Seq<char>>::empty());
    CompilerArguments::Parsed(parsed)
}

/// Classifies a command line whose source file has the given extension.
pub fn classify(arguments: &[String], extension: Option<String>) -> (r: CompilerArguments)
    ensures
        r@ == classification(views(arguments@), option_view(extension)),
{
    let s = scan(arguments);
    conclude(s, extension, Ghost(views(arguments@)))
}

/// The extension of the source file that `args` names.
pub open spec fn input_extension(args: Seq<Seq<char>>) -> Option<Seq<char>> {
    match input_of(args) {
        Some(input) => extension_of(input),
        None => None,
    }
}

/// Whether the verdict on `args` turns on the extension of the source
/// file: no token rules caching out, it is a compilation, and it names a
/// source file.
pub open spec fn extension_decides(args: Seq<Seq<char>>) -> bool {
    &&& !rejects(args, args.len() as int)
    &&& last_flag(args, TokenKind::CompileOnly, args.len() as int) is Some
    &&& input_of(args) is Some
}

/// Classifies a command line. The extension of the source file is taken
/// as the platform's path syntax defines it; for a bare file name it is
/// the part after the final dot.
pub fn parse_arguments(arguments: &[String]) -> (r: CompilerArguments)
    ensures
        r@ == classification(views(arguments@), input_extension(views(arguments@))),
        extension_decides(views(arguments@)) ==> extension_agrees(
            input_of(views(arguments@))->0,
            input_extension(views(arguments@)),
        ),
        r@ matches Verdict::Parsed(parsed) ==> parsed.well_formed(),
{
    let s = scan(arguments);
    let extension = if s.rejected || !s.compilation {
        None
    } else {
        match &s.input {
            Some(input) => path_extension(input.as_str()),
            None => None,
        }
    };
    conclude(s, extension, Ghost(views(arguments@)))
}

} // verus!
