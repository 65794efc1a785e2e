//! Where the dataset lives relative to the tooling that checks it, and the
//! order its files are taken in.

use vstd::prelude::*;
use std::path::Path;
use vstd::multiset::Multiset;
use crate::building::Building;

verus! {

/// The directory that holds the path `p`: `p` without its final component,
/// when it has one (as `std::path::Path::parent` decides).
pub uninterp spec fn path_parent(p: Seq<char>) -> Option<Seq<char>>;

/// Calls `std::path::Path::parent` on the path `p`.
///
/// Claimed of it: the result is `path_parent(p)`, and a parent is the path
/// without its final component, so it begins the path (a parent of a `&str`
/// path is itself valid text, so the lossy conversion changes nothing). What
/// counts as a component (separators, `.`, roots) is left unsaid.
#[verifier::external_body]
fn parent_of(p: &str) -> (r: Option<String>)
    ensures
        r matches Some(q) ==> path_parent(p@) == Some(q@) && q@.is_prefix_of(p@),
        r is None ==> path_parent(p@) is None,
{
    match Path::new(p).parent() {
        Some(q) => Some(q.to_string_lossy().into_owned()),
        None => None,
    }
}

/// The repository root, given the directory of the tooling crate, which lives
/// one level below it: that directory's parent. The directory must have one.
pub fn repo_root(tool_dir: &str) -> (r: String)
    requires
        path_parent(tool_dir@) is Some,
    ensures
        path_parent(tool_dir@) == Some(r@),
        r@.is_prefix_of(tool_dir@),
{
    match parent_of(tool_dir) {
        Some(q) => q,
        None => {
            proof {
                assert(false);
            }
            String::new()
        },
    }
}

/// The repository root, as [`repo_root`] gives it, or `None` when the
/// tooling directory has no parent (it is empty or a root).
pub fn find_repo_root(tool_dir: &str) -> (r: Option<String>)
    ensures
        r matches Some(q) ==> path_parent(tool_dir@) == Some(q@) && q@.is_prefix_of(tool_dir@),
        r is None <==> path_parent(tool_dir@) is None,
{
    match parent_of(tool_dir) {
        Some(_) => Some(repo_root(tool_dir)),
        None => None,
    }
}

// ---------------------------------------------------------------------------
// The order of building files
// ---------------------------------------------------------------------------

/// Whether text `a` comes no later than text `b`: compared character by
/// character by code point, a proper prefix first. This is the order of
/// `str` (which compares UTF-8 bytes, and UTF-8 keeps code point order).
pub open spec fn text_le(a: Seq<char>, b: Seq<char>) -> bool
    decreases a.len(),
{
    if a.len() == 0 {
        true
    } else if b.len() == 0 {
        false
    } else if a[0] != b[0] {
        (a[0] as int) < (b[0] as int)
    } else {
        text_le(a.drop_first(), b.drop_first())
    }
}

/// Any two texts are ordered one way or the other.
pub proof fn lemma_text_le_total(a: Seq<char>, b: Seq<char>)
    ensures
        text_le(a, b) || text_le(b, a),
    decreases a.len(),
{
    if a.len() > 0 && b.len() > 0 && a[0] == b[0] {
        lemma_text_le_total(a.drop_first(), b.drop_first());
    }
}

/// The order of texts is transitive.
pub proof fn lemma_text_le_transitive(a: Seq<char>, b: Seq<char>, c: Seq<char>)
    requires
        text_le(a, b),
        text_le(b, c),
    ensures
        text_le(a, c),
    decreases a.len(),
{
    if a.len() > 0 && a[0] == b[0] && b[0] == c[0] {
        lemma_text_le_transitive(a.drop_first(), b.drop_first(), c.drop_first());
    }
}

/// Whether `a` comes no later than `b` in the order of texts.
fn stem_le(a: &str, b: &str) -> (r: bool)
    ensures
        r == text_le(a@, b@),
{
    let na = a.unicode_len();
    let nb = b.unicode_len();
    let mut i: usize = 0;
    proof {
        assert(a@.skip(0) =~= a@);
        assert(b@.skip(0) =~= b@);
    }
    while i < na && i < nb
        invariant
            na == a@.len(),
            nb == b@.len(),
            i <= na,
            i <= nb,
            text_le(a@, b@) == text_le(a@.skip(i as int), b@.skip(i as int)),
        decreases na - i,
    {
        let x = a.get_char(i);
        let y = b.get_char(i);
        if x != y {
            return (x as u32) < (y as u32);
        }
        proof {
            assert(a@.skip(i as int).drop_first() =~= a@.skip(i + 1));
            assert(b@.skip(i as int).drop_first() =~= b@.skip(i + 1));
        }
        i = i + 1;
    }
    i == na
}

/// The order of texts is reflexive.
pub proof fn lemma_text_le_reflexive(a: Seq<char>)
    ensures
        text_le(a, a),
    decreases a.len(),
{
    if a.len() > 0 {
        lemma_text_le_reflexive(a.drop_first());
    }
}

/// Whether the entries of `s` come in the order of their file stems.
pub open spec fn sorted_by_stem(s: Seq<(String, Building)>) -> bool {
    forall|i: int, k: int| 0 <= i < k < s.len() ==> text_le(#[trigger] s[i].0@, #[trigger] s[k].0@)
}

/// The entries of `s` whose file stem is `stem`, in the order they come in.
pub open spec fn entries_with_stem(s: Seq<(String, Building)>, stem: Seq<char>) -> Seq<
    (String, Building),
>
    decreases s.len(),
{
    if s.len() == 0 {
        s
    } else if s[0].0@ == stem {
        seq![s[0]] + entries_with_stem(s.drop_first(), stem)
    } else {
        entries_with_stem(s.drop_first(), stem)
    }
}

/// Picking the entries of one stem out of two sequences one after the other
/// picks them out of each in turn.
proof fn lemma_entries_with_stem_add(
    a: Seq<(String, Building)>,
    b: Seq<(String, Building)>,
    stem: Seq<char>,
)
    ensures
        entries_with_stem(a + b, stem) == entries_with_stem(a, stem) + entries_with_stem(b, stem),
    decreases a.len(),
{
    if a.len() == 0 {
        assert(a + b =~= b);
        assert(entries_with_stem(a, stem) + entries_with_stem(b, stem) =~= entries_with_stem(b, stem));
    } else {
        assert((a + b).drop_first() =~= a.drop_first() + b);
        lemma_entries_with_stem_add(a.drop_first(), b, stem);
        if a[0].0@ == stem {
            assert(seq![a[0]] + (entries_with_stem(a.drop_first(), stem) + entries_with_stem(b, stem))
                =~= (seq![a[0]] + entries_with_stem(a.drop_first(), stem)) + entries_with_stem(b, stem));
        }
    }
}

/// A sequence without an entry of stem `stem` has none to pick.
proof fn lemma_entries_with_stem_none(s: Seq<(String, Building)>, stem: Seq<char>)
    requires
        forall|i: int| 0 <= i < s.len() ==> (#[trigger] s[i]).0@ != stem,
    ensures
        entries_with_stem(s, stem) == Seq::<(String, Building)>::empty(),
    decreases s.len(),
{
    if s.len() > 0 {
        assert forall|i: int| 0 <= i < s.drop_first().len() implies (#[trigger] s.drop_first()[i]).0@
            != stem by {
            assert(s.drop_first()[i] == s[i + 1]);
        }
        lemma_entries_with_stem_none(s.drop_first(), stem);
    }
}

/// The buildings of a directory, each with its file stem, put in the order
/// of their stems, so that the listing does not depend on the file system.
/// The result holds the same entries, and entries of one stem keep the order
/// they came in (the sort is stable).
pub fn sort_by_stem(v: Vec<(String, Building)>) -> (r: Vec<(String, Building)>)
    ensures
        sorted_by_stem(r@),
        r@.to_multiset() == v@.to_multiset(),
        forall|stem: Seq<char>| #[trigger] entries_with_stem(r@, stem) == entries_with_stem(v@, stem),
{
    broadcast use vstd::seq_lib::group_to_multiset_ensures;
    broadcast use vstd::multiset::group_multiset_axioms;

    let ghost whole = v@;
    let mut rest = v;
    let mut out: Vec<(String, Building)> = Vec::new();
    let ghost mut done: Seq<(String, Building)> = Seq::empty();
    proof {
        assert(whole =~= rest@ + done);
    }
    while rest.len() > 0
        invariant
            sorted_by_stem(out@),
            out@.to_multiset().add(rest@.to_multiset()) == whole.to_multiset(),
            whole == rest@ + done,
            forall|stem: Seq<char>| #[trigger] entries_with_stem(out@, stem) == entries_with_stem(done, stem),
        decreases rest.len(),
    {
        let ghost before = rest@;
        let item = rest.pop().unwrap();
        proof {
            assert(before =~= rest@.push(item));
        }
        let mut j: usize = 0;
        while j < out.len() && !stem_le(item.0.as_str(), out[j].0.as_str())
            invariant
                j <= out.len(),
                forall|i: int| 0 <= i < j ==> !text_le(item.0@, #[trigger] out@[i].0@),
            decreases out.len() - j,
        {
            j = j + 1;
        }
        let ghost old_out = out@;
        let ghost old_done = done;
        out.insert(j, item);
        proof {
            done = seq![item] + old_done;
            assert(whole =~= rest@ + done);
            assert forall|i: int, k: int| 0 <= i < k < out@.len() implies text_le(
                #[trigger] out@[i].0@,
                #[trigger] out@[k].0@,
            ) by {
                if k == j as int {
                    assert(out@[i] == old_out[i]);
                    lemma_text_le_total(item.0@, old_out[i].0@);
                } else if i == j as int {
                    if k - 1 > i {
                        lemma_text_le_transitive(item.0@, old_out[i].0@, old_out[k - 1].0@);
                    }
                } else if i > j as int {
                    assert(out@[i] == old_out[i - 1] && out@[k] == old_out[k - 1]);
                } else if k > j as int {
                    assert(out@[i] == old_out[i] && out@[k] == old_out[k - 1]);
                }
            }
            assert forall|stem: Seq<char>| #[trigger] entries_with_stem(out@, stem)
                == entries_with_stem(done, stem) by {
                let front = old_out.take(j as int);
                let back = old_out.skip(j as int);
                assert(old_out =~= front + back);
                assert(out@ =~= front + (seq![item] + back));
                lemma_entries_with_stem_add(front, back, stem);
                lemma_entries_with_stem_add(front, seq![item] + back, stem);
                assert((seq![item] + back).drop_first() =~= back);
                assert(done.drop_first() =~= old_done);
                if item.0@ == stem {
                    assert forall|i: int| 0 <= i < front.len() implies (#[trigger] front[i]).0@
                        != stem by {
                        lemma_text_le_reflexive(item.0@);
                        assert(front[i] == old_out[i]);
                    }
                    lemma_entries_with_stem_none(front, stem);
                    assert(entries_with_stem(front, stem) + entries_with_stem(seq![item] + back, stem)
                        =~= entries_with_stem(seq![item] + back, stem));
                    assert(entries_with_stem(front, stem) + entries_with_stem(back, stem)
                        =~= entries_with_stem(back, stem));
                }
            }
            vstd::seq_lib::to_multiset_build(rest@, item);
            vstd::seq_lib::to_multiset_insert(old_out, j as int, item);
            assert(before.to_multiset() == rest@.to_multiset().insert(item));
            assert(out@.to_multiset() == old_out.to_multiset().insert(item));
            assert(out@.to_multiset().add(rest@.to_multiset()) =~= old_out.to_multiset().add(
                before.to_multiset(),
            ));
        }
    }
    proof {
        assert(rest@.to_multiset() =~= Multiset::empty());
        assert(out@.to_multiset().add(rest@.to_multiset()) =~= out@.to_multiset());
        assert(done =~= whole);
    }
    out
}

} // verus!
