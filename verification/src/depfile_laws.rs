//! What holds of every dependency file.

use crate::depfile::listed;
use crate::order::{lemma_lex_total, lex_order, sorted};
use vstd::prelude::*;
use vstd::relations::sorted_by;

verus! {

/// The rule lists a path exactly when it was seen and holds no space, and
/// lists no path twice.
pub proof fn law_listed(paths: Seq<Seq<char>>)
    ensures
        forall|path: Seq<char>| #[trigger]
            listed(paths).contains(path) <==> paths.contains(path) && !path.contains(' '),
        listed(paths).no_duplicates(),
    decreases paths.len(),
{
    if paths.len() == 0 {
    } else {
        let before = paths.drop_last();
        let last = paths.last();
        law_listed(before);
        assert(paths =~= before.push(last));
        assert forall|path: Seq<char>| #[trigger]
            listed(paths).contains(path) <==> paths.contains(path) && !path.contains(' ') by {
            if listed(paths).contains(path) {
                let i = choose|i: int| 0 <= i < listed(paths).len() && listed(paths)[i] == path;
                if i < listed(before).len() {
                    assert(listed(before)[i] == path);
                    assert(listed(before).contains(path));
                    let k = choose|k: int| 0 <= k < before.len() && before[k] == path;
                    assert(paths[k] == path);
                } else {
                    assert(path == last);
                    assert(paths[paths.len() - 1] == path);
                }
            }
            if paths.contains(path) && !path.contains(' ') {
                let k = choose|k: int| 0 <= k < paths.len() && paths[k] == path;
                if k < before.len() {
                    assert(before[k] == path);
                    assert(listed(before).contains(path));
                    let i = choose|i: int| 0 <= i < listed(before).len() && listed(before)[i] == path;
                    assert(listed(paths)[i] == path);
                } else if before.contains(path) {
                    assert(listed(before).contains(path));
                    let i = choose|i: int| 0 <= i < listed(before).len() && listed(before)[i] == path;
                    assert(listed(paths)[i] == path);
                } else {
                    assert(listed(paths)[listed(paths).len() - 1] == path);
                }
            }
        }
        if !(before.contains(last) || last.contains(' ')) {
            assert(!listed(before).contains(last));
        }
    }
}

/// The empty rules come in order, one for each path that the rule lists.
pub proof fn law_rules_sorted(paths: Seq<Seq<char>>)
    ensures
        sorted_by(sorted(listed(paths)), lex_order()),
        sorted(listed(paths)).to_multiset() == listed(paths).to_multiset(),
        sorted(listed(paths)).len() == listed(paths).len(),
{
    lemma_lex_total();
    listed(paths).lemma_sort_by_ensures(lex_order());
    vstd::seq_lib::to_multiset_len(sorted(listed(paths)));
    vstd::seq_lib::to_multiset_len(listed(paths));
}

} // verus!
