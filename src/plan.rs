use vstd::prelude::*;

use crate::error::RenameError;

verus! {

/// A path as the plan sees it: its characters, compared exactly.
pub type PathText = Seq<char>;

/// A planned rename: (source, destination).
pub type PairText = (PathText, PathText);

/// The characters of each path in a list.
pub open spec fn paths_view(s: Seq<String>) -> Seq<PathText> {
    s.map_values(|p: String| p@)
}

/// The characters of each (source, destination) pair in a list.
pub open spec fn pairs_view(s: Seq<(String, String)>) -> Seq<PairText> {
    s.map_values(|p: (String, String)| (p.0@, p.1@))
}

/// The positions below `n`, in ascending order, at which `origin` and
/// `renamed` hold different paths.
pub open spec fn changed_indices(origin: Seq<PathText>, renamed: Seq<PathText>, n: nat) -> Seq<int>
    decreases n,
{
    if n == 0 {
        Seq::empty()
    } else {
        let before = changed_indices(origin, renamed, (n - 1) as nat);
        if origin[n - 1] != renamed[n - 1] {
            before.push(n - 1)
        } else {
            before
        }
    }
}

/// The pairs at the changed positions below `n`, in ascending order.
pub open spec fn plan_upto(origin: Seq<PathText>, renamed: Seq<PathText>, n: nat) -> Seq<PairText> {
    changed_indices(origin, renamed, n).map_values(|i: int| (origin[i], renamed[i]))
}

/// The rename plan of two lists of equal length: one (source, destination)
/// pair for each position whose entries differ, in the lists' order.
pub open spec fn plan_of(origin: Seq<PathText>, renamed: Seq<PathText>) -> Seq<PairText> {
    plan_upto(origin, renamed, origin.len())
}

/// The changed positions below `n` lie below `n`, ascend strictly, and are
/// exactly the positions below `n` whose entries differ.
proof fn lemma_changed_indices(origin: Seq<PathText>, renamed: Seq<PathText>, n: nat)
    ensures
        changed_indices(origin, renamed, n).len() <= n,
        forall|k: int|
            0 <= k < changed_indices(origin, renamed, n).len() ==> 0 <= #[trigger] changed_indices(
                origin,
                renamed,
                n,
            )[k] < n,
        forall|j: int, k: int|
            0 <= j < k < changed_indices(origin, renamed, n).len() ==> changed_indices(
                origin,
                renamed,
                n,
            )[j] < changed_indices(origin, renamed, n)[k],
        forall|i: int|
            0 <= i < n ==> (#[trigger] changed_indices(origin, renamed, n).contains(i) <==> origin[i]
                != renamed[i]),
    decreases n,
{
    if n > 0 {
        lemma_changed_indices(origin, renamed, (n - 1) as nat);
        let before = changed_indices(origin, renamed, (n - 1) as nat);
        let now = changed_indices(origin, renamed, n);
        assert forall|i: int| 0 <= i < n implies (now.contains(i) <==> origin[i] != renamed[i]) by {
            if i < n - 1 {
                if before.contains(i) {
                    let k = choose|k: int| 0 <= k < before.len() && before[k] == i;
                    assert(now[k] == i);
                }
                if now.contains(i) {
                    let k = choose|k: int| 0 <= k < now.len() && now[k] == i;
                    assert(k < before.len());
                    assert(before[k] == i);
                }
            } else {
                if origin[i] != renamed[i] {
                    assert(now[now.len() - 1] == i);
                }
            }
        }
    }
}

/// For lists of equal length, the plan holds exactly one pair for each
/// position whose entries differ, that pair being the two entries there, in
/// ascending order of position; so it is never longer than the lists.
pub proof fn lemma_plan_is_exact(origin: Seq<PathText>, renamed: Seq<PathText>)
    requires
        origin.len() == renamed.len(),
    ensures
        ({
            let idx = changed_indices(origin, renamed, origin.len());
            let plan = plan_of(origin, renamed);
            &&& plan.len() == idx.len()
            &&& plan.len() <= origin.len()
            &&& forall|k: int|
                0 <= k < plan.len() ==> 0 <= #[trigger] idx[k] < origin.len() && plan[k] == (
                    origin[idx[k]],
                    renamed[idx[k]],
                )
            &&& forall|j: int, k: int| 0 <= j < k < idx.len() ==> idx[j] < idx[k]
            &&& forall|i: int|
                0 <= i < origin.len() ==> (#[trigger] idx.contains(i) <==> origin[i] != renamed[i])
        }),
{
    lemma_changed_indices(origin, renamed, origin.len());
}

/// A list paired with itself needs no rename.
pub proof fn lemma_plan_of_unchanged_is_empty(paths: Seq<PathText>)
    ensures
        plan_of(paths, paths).len() == 0,
{
    lemma_changed_indices(paths, paths, paths.len());
    let idx = changed_indices(paths, paths, paths.len());
    if idx.len() > 0 {
        let i = idx[0];
        assert(0 <= i < paths.len());
        assert(idx.contains(i));
        assert(paths[i] != paths[i]);
    }
    assert(plan_of(paths, paths).len() == idx.len());
}

/// Pairs the original paths with the edited ones, position by position, and
/// returns the pairs whose two paths differ, in order. Fails when the two
/// lists differ in length, since entries must not be added or removed.
pub fn list_changed(origin: &[String], renamed: &[String]) -> (r: Result<Vec<(String, String)>, RenameError>)
    ensures
        origin@.len() != renamed@.len() <==> r is Err,
        r is Err ==> (r matches Err(RenameError::MismatchEntries(o, n)) && o == origin@.len()
            && n == renamed@.len()),
        r matches Ok(plan) ==> pairs_view(plan@) == plan_of(paths_view(origin@), paths_view(renamed@)),
{
    if origin.len() != renamed.len() {
        return Err(RenameError::MismatchEntries(origin.len(), renamed.len()));
    }
    let ghost o = paths_view(origin@);
    let ghost n = paths_view(renamed@);
    let mut changed: Vec<(String, String)> = Vec::new();
    let mut i: usize = 0;
    while i < origin.len()
        invariant
            origin@.len() == renamed@.len(),
            o == paths_view(origin@),
            n == paths_view(renamed@),
            i <= origin@.len(),
            pairs_view(changed@) == plan_upto(o, n, i as nat),
        decreases origin@.len() - i,
    {
        let src = &origin[i];
        let dest = &renamed[i];
        assert(o[i as int] == src@ && n[i as int] == dest@);
        let same: bool = *src == *dest;
        if !same {
            let ghost before = changed@;
            changed.push((src.clone(), dest.clone()));
            assert(pairs_view(changed@) =~= pairs_view(before).push((o[i as int], n[i as int])));
            let ghost ci = changed_indices(o, n, i as nat);
            assert(ci.push(i as int).map_values(|k: int| (o[k], n[k])) =~= ci.map_values(
                |k: int| (o[k], n[k]),
            ).push((o[i as int], n[i as int])));
            assert(pairs_view(changed@) =~= plan_upto(o, n, (i + 1) as nat));
        } else {
            assert(changed_indices(o, n, (i + 1) as nat) == changed_indices(o, n, i as nat));
        }
        i = i + 1;
    }
    Ok(changed)
}

} // verus!
