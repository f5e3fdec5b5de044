//! The dependency file: a rule that names the object file, the source and
//! each header once, and an empty rule for the source and for each header,
//! so that a header that is removed later does not break the build.

use crate::order::{sort, sorted};
use crate::text::{
    char_views, chars_of, contains_char, lemma_char_views_push, push_chars, slice_of, views,
};
use vstd::prelude::*;
use vstd::string::StringExecFns;

verus! {

/// The paths that the rule lists: each path once, where it is seen first,
/// and none that holds a space, which the format cannot express.
pub open spec fn listed(paths: Seq<Seq<char>>) -> Seq<Seq<char>>
    decreases paths.len(),
{
    if paths.len() == 0 {
        Seq::empty()
    } else {
        let before = listed(paths.drop_last());
        let path = paths.last();
        if paths.drop_last().contains(path) || path.contains(' ') {
            before
        } else {
            before.push(path)
        }
    }
}

/// Each path followed by a space.
pub open spec fn entries(paths: Seq<Seq<char>>) -> Seq<char>
    decreases paths.len(),
{
    if paths.len() == 0 {
        Seq::empty()
    } else {
        entries(paths.drop_last()) + paths.last() + " "@
    }
}

/// An empty rule for each path, one to a line.
pub open spec fn empty_rules(paths: Seq<Seq<char>>) -> Seq<char>
    decreases paths.len(),
{
    if paths.len() == 0 {
        Seq::empty()
    } else {
        empty_rules(paths.drop_last()) + paths.last() + ":\n"@
    }
}

/// The content of the dependency file for an object file, its source and
/// the headers seen, in the order in which they were seen.
pub open spec fn dependency_text(
    object: Seq<char>,
    input: Seq<char>,
    paths: Seq<Seq<char>>,
) -> Seq<char> {
    object + ": "@ + input + " "@ + entries(listed(paths)) + "\n"@ + input + ":\n"@ + empty_rules(
        sorted(listed(paths)),
    )
}

fn same(a: &Vec<char>, b: &Vec<char>) -> (r: bool)
    ensures
        r == (a@ == b@),
{
    if a.len() != b.len() {
        return false;
    }
    let mut i: usize = 0;
    while i < a.len()
        invariant
            i <= a.len(),
            a.len() == b.len(),
            forall|k: int| 0 <= k < i ==> a@[k] == b@[k],
        decreases a.len() - i,
    {
        if a[i] != b[i] {
            return false;
        }
        i += 1;
    }
    assert(a@ =~= b@);
    true
}

/// Whether `path` is among the first `n` of `all`.
fn seen_before(all: &Vec<Vec<char>>, n: usize, path: &Vec<char>) -> (r: bool)
    requires
        n <= all.len(),
    ensures
        r == char_views(all@).take(n as int).contains(path@),
{
    let mut i: usize = 0;
    while i < n
        invariant
            i <= n <= all.len(),
            forall|k: int| 0 <= k < i ==> char_views(all@)[k] != path@,
        decreases n - i,
    {
        if same(&all[i], path) {
            assert(char_views(all@).take(n as int)[i as int] == path@);
            return true;
        }
        i += 1;
    }
    false
}

fn push_entries(text: &mut String, paths: &Vec<Vec<char>>)
    ensures
        final(text)@ == old(text)@ + entries(char_views(paths@)),
{
    let mut i: usize = 0;
    assert(char_views(paths@).take(0) =~= Seq::<Seq<char>>::empty());
    assert(old(text)@ + Seq::<char>::empty() =~= old(text)@);
    while i < paths.len()
        invariant
            i <= paths.len(),
            text@ == old(text)@ + entries(char_views(paths@).take(i as int)),
        decreases paths.len() - i,
    {
        let ghost before = text@;
        push_chars(text, &paths[i]);
        text.append(" ");
        i += 1;
        proof {
            let now = char_views(paths@).take(i as int);
            assert(now.drop_last() =~= char_views(paths@).take(i - 1));
            assert(text@ =~= old(text)@ + entries(now));
        }
    }
    assert(char_views(paths@).take(i as int) =~= char_views(paths@));
}

fn push_empty_rules(text: &mut String, paths: &Vec<Vec<char>>)
    ensures
        final(text)@ == old(text)@ + empty_rules(char_views(paths@)),
{
    let mut i: usize = 0;
    assert(char_views(paths@).take(0) =~= Seq::<Seq<char>>::empty());
    assert(old(text)@ + Seq::<char>::empty() =~= old(text)@);
    while i < paths.len()
        invariant
            i <= paths.len(),
            text@ == old(text)@ + empty_rules(char_views(paths@).take(i as int)),
        decreases paths.len() - i,
    {
        push_chars(text, &paths[i]);
        text.append(":\n");
        i += 1;
        proof {
            let now = char_views(paths@).take(i as int);
            assert(now.drop_last() =~= char_views(paths@).take(i - 1));
            assert(text@ =~= old(text)@ + empty_rules(now));
        }
    }
    assert(char_views(paths@).take(i as int) =~= char_views(paths@));
}

/// The paths that the rule lists, as characters.
fn listed_paths(paths: &Vec<String>) -> (r: Vec<Vec<char>>)
    ensures
        char_views(r@) == listed(views(paths@)),
{
    let mut all: Vec<Vec<char>> = Vec::new();
    let mut i: usize = 0;
    assert(char_views(all@) =~= views(paths@).take(0));
    while i < paths.len()
        invariant
            i <= paths.len(),
            char_views(all@) == views(paths@).take(i as int),
        decreases paths.len() - i,
    {
        let path = chars_of(paths[i].as_str());
        proof {
            lemma_char_views_push(all@, path);
            assert(views(paths@).take(i + 1) =~= views(paths@).take(i as int).push(path@));
        }
        all.push(path);
        i += 1;
    }
    assert(views(paths@).take(i as int) =~= views(paths@));
    let mut kept: Vec<Vec<char>> = Vec::new();
    let mut j: usize = 0;
    assert(char_views(all@).take(0) =~= Seq::<Seq<char>>::empty());
    assert(char_views(kept@) =~= Seq::<Seq<char>>::empty());
    while j < all.len()
        invariant
            j <= all.len(),
            char_views(kept@) == listed(char_views(all@).take(j as int)),
        decreases all.len() - j,
    {
        let path = &all[j];
        let repeated = seen_before(&all, j, path);
        let spaced = contains_char(path, ' ');
        proof {
            let now = char_views(all@).take(j + 1);
            assert(now.drop_last() =~= char_views(all@).take(j as int));
            assert(now.last() == path@);
        }
        if !repeated && !spaced {
            let copy = slice_of(path, 0, path.len());
            proof {
                assert(copy@ =~= path@);
                lemma_char_views_push(kept@, copy);
            }
            kept.push(copy);
        }
        j += 1;
    }
    assert(char_views(all@).take(j as int) =~= char_views(all@));
    kept
}

/// Writes the dependency file for an object file, its source and the
/// headers seen while preprocessing, in the order in which they were seen.
pub fn dependency_file(object: &str, input: &str, paths: &Vec<String>) -> (r: String)
    ensures
        r@ == dependency_text(object@, input@, views(paths@)),
{
    let kept = listed_paths(paths);
    let mut text = String::new();
    text.append(object);
    text.append(": ");
    text.append(input);
    text.append(" ");
    push_entries(&mut text, &kept);
    text.append("\n");
    text.append(input);
    text.append(":\n");
    let ghost rule = text@;
    let ordered = sort(kept);
    push_empty_rules(&mut text, &ordered);
    proof {
        let shown = listed(views(paths@));
        assert(rule =~= object@ + ": "@ + input@ + " "@ + entries(shown) + "\n"@ + input@ + ":\n"@);
    }
    text
}

} // verus!
