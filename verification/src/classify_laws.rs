//! What holds of every classification.

use crate::arguments::{CompilerArguments, OutputKind, Verdict};
use crate::classify::{
    classification, input_extension, input_of, last_flag, lemma_rejects_stays, pass_through,
    passes_through, payload, rejects,
};
use crate::path::{extension_agrees, is_plain_name, last_dot};
use crate::text::views;
use crate::tokens::{flag_at, is_flag_value, token_kind, TokenKind};
use vstd::prelude::*;

verus! {

/// `last_flag` is the position of the last token of a kind that is read,
/// and there is none exactly when no token of that kind is read.
pub proof fn lemma_last_flag(args: Seq<Seq<char>>, kind: TokenKind, n: int)
    ensures
        match last_flag(args, kind, n) {
            Some(i) => 0 <= i < n && flag_at(args, i, kind) && forall|k: int|
                i < k < n ==> !flag_at(args, k, kind),
            None => forall|k: int| 0 <= k < n ==> !flag_at(args, k, kind),
        },
    decreases n,
{
    if n > 0 {
        lemma_last_flag(args, kind, n - 1);
    }
}

/// An unsupported flag that is read rules caching out.
pub proof fn lemma_unsupported_rejects(args: Seq<Seq<char>>, i: int, n: int)
    requires
        flag_at(args, i, TokenKind::Unsupported),
        i < n,
    ensures
        rejects(args, n),
{
    assert(rejects(args, i + 1));
    lemma_rejects_stays(args, i + 1, n);
}

/// Two source files rule caching out.
pub proof fn lemma_second_input_rejects(args: Seq<Seq<char>>, i: int, j: int, n: int)
    requires
        flag_at(args, i, TokenKind::Input),
        flag_at(args, j, TokenKind::Input),
        i < j < n,
    ensures
        rejects(args, n),
{
    lemma_last_flag(args, TokenKind::Input, j);
    assert(rejects(args, j + 1));
    lemma_rejects_stays(args, j + 1, n);
}

/// Caching is ruled out by the first `n` tokens exactly when one of them
/// is read as an unsupported flag, or two of them are read as source
/// files.
pub proof fn law_rejects(args: Seq<Seq<char>>, n: int)
    ensures
        rejects(args, n) <==> (exists|i: int|
            0 <= i < n && flag_at(args, i, TokenKind::Unsupported)) || (exists|i: int, j: int|
            0 <= i < j < n && flag_at(args, i, TokenKind::Input) && flag_at(
                args,
                j,
                TokenKind::Input,
            )),
    decreases n,
{
    if n > 0 {
        law_rejects(args, n - 1);
        if rejects(args, n) {
            if rejects(args, n - 1) {
            } else if flag_at(args, n - 1, TokenKind::Unsupported) {
            } else {
                lemma_last_flag(args, TokenKind::Input, n - 1);
                let i = last_flag(args, TokenKind::Input, n - 1)->0;
                assert(flag_at(args, i, TokenKind::Input) && flag_at(
                    args,
                    n - 1,
                    TokenKind::Input,
                ));
            }
        }
    }
    if exists|i: int| 0 <= i < n && flag_at(args, i, TokenKind::Unsupported) {
        let i = choose|i: int| 0 <= i < n && flag_at(args, i, TokenKind::Unsupported);
        lemma_unsupported_rejects(args, i, n);
    }
    if exists|i: int, j: int|
        0 <= i < j < n && flag_at(args, i, TokenKind::Input) && flag_at(
            args,
            j,
            TokenKind::Input,
        ) {
        let (i, j) = choose|i: int, j: int|
            0 <= i < j < n && flag_at(args, i, TokenKind::Input) && flag_at(
                args,
                j,
                TokenKind::Input,
            );
        lemma_second_input_rejects(args, i, j, n);
    }
}

/// A command line on which no token is read as the compile-only flag is
/// not a compilation, whatever else it holds, unless a token rules caching
/// out before the end is reached.
pub proof fn law_not_compilation(args: Seq<Seq<char>>, extension: Option<Seq<char>>)
    requires
        forall|i: int| !flag_at(args, i, TokenKind::CompileOnly),
        !rejects(args, args.len() as int),
    ensures
        classification(args, extension) == Verdict::NotCompilation,
{
    lemma_last_flag(args, TokenKind::CompileOnly, args.len() as int);
}

/// A command line with the compile-only flag, exactly one source file and
/// exactly one output flag is accepted with that source file, the given
/// extension and the object file recorded, provided that no unsupported
/// flag is read, the source file has an extension, and debug information
/// is not asked for without a place for the symbols. Where the source is
/// a bare file name, its extension is what follows its last dot.
pub proof fn law_single_input(
    args: Seq<Seq<char>>,
    extension: Option<Seq<char>>,
    input: int,
    output: int,
    compile_only: int,
)
    requires
        flag_at(args, compile_only, TokenKind::CompileOnly),
        flag_at(args, input, TokenKind::Input),
        forall|k: int| flag_at(args, k, TokenKind::Input) ==> k == input,
        flag_at(args, output, TokenKind::Output),
        forall|k: int| flag_at(args, k, TokenKind::Output) ==> k == output,
        forall|k: int| !flag_at(args, k, TokenKind::Unsupported),
        extension is Some,
        (exists|k: int| flag_at(args, k, TokenKind::DebugInfo)) ==> (exists|k: int|
            flag_at(args, k, TokenKind::DebugSymbols)),
    ensures
        classification(args, extension) matches Verdict::Parsed(parsed) && {
            &&& parsed.input == args[input]
            &&& parsed.extension == extension->0
            &&& parsed.outputs.dom().contains(OutputKind::Object)
            &&& parsed.outputs[OutputKind::Object] == args[output].skip(3)
            &&& parsed.well_formed()
            &&& is_plain_name(args[input]) && extension_agrees(args[input], extension)
                ==> parsed.extension == args[input].skip(last_dot(args[input]) + 1)
        },
{
    let n = args.len() as int;
    law_rejects(args, n);
    lemma_last_flag(args, TokenKind::CompileOnly, n);
    lemma_last_flag(args, TokenKind::Input, n);
    lemma_last_flag(args, TokenKind::Output, n);
    lemma_last_flag(args, TokenKind::DebugInfo, n);
    lemma_last_flag(args, TokenKind::DebugSymbols, n);
    assert(args[input].skip(0) =~= args[input]);
}

/// A command line with two source files cannot be cached.
pub proof fn law_two_inputs(
    args: Seq<Seq<char>>,
    extension: Option<Seq<char>>,
    first: int,
    second: int,
)
    requires
        flag_at(args, first, TokenKind::Input),
        flag_at(args, second, TokenKind::Input),
        first != second,
    ensures
        classification(args, extension) == Verdict::CannotCache,
{
    let n = args.len() as int;
    if first < second {
        lemma_second_input_rejects(args, first, second, n);
    } else {
        lemma_second_input_rejects(args, second, first, n);
    }
}

/// A compilation that asks for debug information and names no place for
/// the symbols cannot be cached. (Without the compile-only flag, and with
/// no token that rules caching out, it is not a compilation at all.)
pub proof fn law_debug_info_without_symbols(
    args: Seq<Seq<char>>,
    extension: Option<Seq<char>>,
    debug_info: int,
)
    requires
        flag_at(args, debug_info, TokenKind::DebugInfo),
        forall|k: int| !flag_at(args, k, TokenKind::DebugSymbols),
        rejects(args, args.len() as int) || exists|k: int|
            flag_at(args, k, TokenKind::CompileOnly),
    ensures
        classification(args, extension) == Verdict::CannotCache,
{
    let n = args.len() as int;
    lemma_last_flag(args, TokenKind::CompileOnly, n);
    lemma_last_flag(args, TokenKind::DebugInfo, n);
    lemma_last_flag(args, TokenKind::DebugSymbols, n);
}

/// The tokens handed on among the first `m` come first among those handed
/// on among the first `n`.
pub proof fn lemma_pass_through_grows(args: Seq<Seq<char>>, m: int, n: int)
    requires
        0 <= m <= n,
    ensures
        pass_through(args, m).is_prefix_of(pass_through(args, n)),
        forall|k: int|
            0 <= k < pass_through(args, m).len() ==> pass_through(args, n)[k] == pass_through(
                args,
                m,
            )[k],
    decreases n - m,
{
    if m < n {
        lemma_pass_through_grows(args, m, n - 1);
    }
    let shorter = pass_through(args, m);
    let longer = pass_through(args, n);
    assert forall|k: int| 0 <= k < shorter.len() implies longer[k] == shorter[k] by {
        assert(longer.subrange(0, shorter.len() as int)[k] == longer[k]);
    }
}

/// The tokens handed on keep their order: of two positions that are
/// handed on, the earlier stands earlier in the list, each at the place
/// that the number of tokens handed on before it gives.
pub proof fn law_pass_through_order(args: Seq<Seq<char>>, i: int, j: int)
    requires
        passes_through(args, i),
        passes_through(args, j),
        i < j,
    ensures
        ({
            let all = pass_through(args, args.len() as int);
            let a = pass_through(args, i).len() as int;
            let b = pass_through(args, j).len() as int;
            a < b < all.len() && all[a] == args[i] && all[b] == args[j]
        }),
{
    let n = args.len() as int;
    lemma_pass_through_grows(args, i + 1, j);
    lemma_pass_through_grows(args, i + 1, n);
    lemma_pass_through_grows(args, j + 1, n);
    assert(pass_through(args, i + 1) == pass_through(args, i).push(args[i]));
    assert(pass_through(args, j + 1) == pass_through(args, j).push(args[j]));
}

/// Nothing is handed on but the tokens at the positions that are handed
/// on: each entry of the list is the token at such a position, namely the
/// one before which as many tokens were handed on as the entry has
/// entries before it.
pub proof fn law_pass_through_exact(args: Seq<Seq<char>>, n: int, k: int)
    requires
        0 <= k < pass_through(args, n).len(),
    ensures
        exists|i: int|
            0 <= i < n && #[trigger] passes_through(args, i) && pass_through(args, i).len() == k
                && pass_through(args, n)[k] == args[i],
    decreases n,
{
    if n > 0 {
        if passes_through(args, n - 1) && k == pass_through(args, n - 1).len() {
            assert(passes_through(args, n - 1) && pass_through(args, n)[k] == args[n - 1]);
        } else {
            law_pass_through_exact(args, n - 1, k);
            let i = choose|i: int|
                0 <= i < n - 1 && #[trigger] passes_through(args, i) && pass_through(args, i).len()
                    == k && pass_through(args, n - 1)[k] == args[i];
            assert(passes_through(args, i) && pass_through(args, n)[k] == args[i]);
        }
    }
}

/// A compilation that is accepted with debug information on carries both
/// the object file and the symbols file, the latter from the last flag
/// that names it, and hands both debug flags on in the order in which
/// they came.
pub proof fn law_debug_info_with_symbols(
    args: Seq<Seq<char>>,
    extension: Option<Seq<char>>,
    debug_info: int,
    symbols: int,
)
    requires
        classification(args, extension) is Parsed,
        flag_at(args, debug_info, TokenKind::DebugInfo),
        flag_at(args, symbols, TokenKind::DebugSymbols),
        forall|k: int| flag_at(args, k, TokenKind::DebugSymbols) ==> k <= symbols,
    ensures
        ({
            let parsed = classification(args, extension)->Parsed_0;
            let a = pass_through(args, debug_info).len() as int;
            let b = pass_through(args, symbols).len() as int;
            &&& parsed.outputs.dom() == set![OutputKind::Object, OutputKind::DebugSymbols]
            &&& parsed.outputs[OutputKind::DebugSymbols] == args[symbols].skip(3)
            &&& a < parsed.common_args.len() && parsed.common_args[a] == args[debug_info]
            &&& b < parsed.common_args.len() && parsed.common_args[b] == args[symbols]
            &&& debug_info < symbols <==> a < b
        }),
{
    let n = args.len() as int;
    lemma_last_flag(args, TokenKind::DebugInfo, n);
    lemma_last_flag(args, TokenKind::DebugSymbols, n);
    lemma_last_flag(args, TokenKind::Output, n);
    let parsed = classification(args, extension)->Parsed_0;
    assert(parsed.outputs.dom() =~= set![OutputKind::Object, OutputKind::DebugSymbols]);
    if debug_info < symbols {
        law_pass_through_order(args, debug_info, symbols);
    } else {
        law_pass_through_order(args, symbols, debug_info);
    }
}

/// A forced-include flag that is followed by a token contributes that
/// flag and that token, next to each other and nothing else; as the last
/// token it contributes itself alone.
pub proof fn law_forced_include(args: Seq<Seq<char>>, i: int)
    requires
        flag_at(args, i, TokenKind::TakesValue),
    ensures
        ({
            let all = pass_through(args, args.len() as int);
            let before = pass_through(args, i);
            if i + 1 < args.len() {
                &&& pass_through(args, i + 2) == before.push(args[i]).push(args[i + 1])
                &&& pass_through(args, i + 2).is_prefix_of(all)
                &&& !is_flag_value(args, i + 2)
            } else {
                all == before.push(args[i])
            }
        }),
{
    let n = args.len() as int;
    assert(pass_through(args, i + 1) == pass_through(args, i).push(args[i]));
    if i + 1 < n {
        assert(is_flag_value(args, i + 1));
        assert(pass_through(args, i + 2) == pass_through(args, i + 1).push(args[i + 1]));
        lemma_pass_through_grows(args, i + 2, n);
    }
}

/// Two verdicts on one command line are the same: classification keeps
/// no state between calls.
pub proof fn law_same_verdict(
    arguments: Seq<String>,
    first: CompilerArguments,
    second: CompilerArguments,
)
    requires
        first@ == classification(views(arguments), input_extension(views(arguments))),
        second@ == classification(views(arguments), input_extension(views(arguments))),
    ensures
        first@ == second@,
{
}

} // verus!
