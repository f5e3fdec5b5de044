//! What holds of every search for the prefix.

use crate::detect::{
    answered, candidate_at, candidates, cuts, detected, header_name, line_candidates, Candidate,
    Step,
};
use vstd::prelude::*;

verus! {

/// Cuts whose paths do not exist are passed over.
pub proof fn lemma_detected_skips(
    tried: Seq<Candidate>,
    rest: Seq<Candidate>,
    present: spec_fn(Seq<char>) -> bool,
)
    requires
        forall|k: int| 0 <= k < tried.len() ==> !present(#[trigger] tried[k].path),
    ensures
        detected(tried + rest, present) == detected(rest, present),
    decreases tried.len(),
{
    if tried.len() == 0 {
        assert(tried + rest =~= rest);
    } else {
        assert((tried + rest)[0] == tried[0]);
        assert((tried + rest).skip(1) =~= tried.skip(1) + rest);
        assert forall|k: int| 0 <= k < tried.skip(1).len() implies !present(
            #[trigger] tried.skip(1)[k].path,
        ) by {
            assert(tried.skip(1)[k] == tried[k + 1]);
        }
        lemma_detected_skips(tried.skip(1), rest, present);
    }
}

/// The first cut of a line is the one at its rightmost space.
pub proof fn lemma_cuts_first(line: Seq<char>, space: int, n: int)
    requires
        0 <= space < n <= line.len(),
        line[space] == ' ',
        forall|k: int| space < k < n ==> line[k] != ' ',
    ensures
        cuts(line, n).len() > 0,
        cuts(line, n)[0] == candidate_at(line, space),
    decreases n,
{
    if n - 1 > space {
        lemma_cuts_first(line, space, n - 1);
    }
}

/// The cuts of two runs of lines are those of the first run, then those
/// of the second.
pub proof fn lemma_candidates_concat(first: Seq<Seq<char>>, second: Seq<Seq<char>>)
    ensures
        candidates(first + second) == candidates(first) + candidates(second),
    decreases second.len(),
{
    if second.len() == 0 {
        assert(first + second =~= first);
        assert(candidates(first) + candidates(second) =~= candidates(first));
    } else {
        assert((first + second).drop_last() =~= first + second.drop_last());
        assert((first + second).last() == second.last());
        lemma_candidates_concat(first, second.drop_last());
        assert(candidates(first + second) =~= candidates(first) + candidates(second));
    }
}

/// A line that is made of a prefix ending in a space and of the path of
/// an existing file, the path free of spaces and ending with the name of
/// the header, yields exactly that prefix, provided that no cut of an
/// earlier line gives the path of an existing file.
pub proof fn law_prefix_detected(
    lines: Seq<Seq<char>>,
    i: int,
    prefix: Seq<char>,
    path: Seq<char>,
    present: spec_fn(Seq<char>) -> bool,
)
    requires
        0 <= i < lines.len(),
        lines[i] == prefix + path,
        prefix.len() > 0,
        prefix.last() == ' ',
        !path.contains(' '),
        header_name().is_suffix_of(path),
        present(path),
        forall|k: int|
            0 <= k < candidates(lines.take(i)).len() ==> !present(
                #[trigger] candidates(lines.take(i))[k].path,
            ),
    ensures
        detected(candidates(lines), present) == Some(prefix),
{
    let line = lines[i];
    let space = prefix.len() - 1;
    let name = header_name();
    assert(name.is_suffix_of(line)) by {
        assert(line.subrange(line.len() - name.len(), line.len() as int) =~= path.subrange(
            path.len() - name.len(),
            path.len() as int,
        ));
    }
    assert forall|k: int| space < k < line.len() implies line[k] != ' ' by {
        assert(line[k] == path[k - prefix.len()]);
    }
    lemma_cuts_first(line, space, line.len() as int);
    assert(line.take(space + 1) =~= prefix);
    assert(line.skip(space + 1) =~= path);
    let here = line_candidates(line);
    assert(here[0] == Candidate { prefix, path });

    let before = lines.take(i);
    let after = lines.skip(i + 1);
    assert(lines =~= before + (seq![line] + after));
    lemma_candidates_concat(before, seq![line] + after);
    lemma_candidates_concat(seq![line], after);
    assert(candidates(seq![line]) =~= here) by {
        assert(seq![line].drop_last() =~= Seq::<Seq<char>>::empty());
        assert(candidates(seq![line].drop_last()) =~= Seq::<Candidate>::empty());
    }
    let rest = here + candidates(after);
    assert(rest[0] == here[0]);
    lemma_detected_skips(candidates(before), rest, present);
}

/// A search that is told of each pending path whether it exists ends
/// with the prefix of the first cut whose path exists, and fails when
/// there is none.
pub proof fn law_search_finds_first(
    remaining: Seq<Candidate>,
    present: spec_fn(Seq<char>) -> bool,
)
    ensures
        detected(remaining, present) == (if remaining.len() == 0 {
            None
        } else {
            match answered(remaining, present(remaining[0].path)) {
                Step::Found(prefix) => Some(prefix),
                Step::Continue(rest) => detected(rest, present),
                Step::NotFound => None,
            }
        }),
{
}

} // verus!
