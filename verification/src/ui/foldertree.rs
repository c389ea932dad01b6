//! Flattens the store's folder list into a visible tree for the folder pane.
//! Each `FolderRow` carries its `parent_id` and its persisted `is_expanded`;
//! `build_visible` groups children under parents and emits only the rows
//! reachable through expanded ancestors, in depth-first render order.

use crate::model::FolderRow;
use vstd::prelude::*;

verus! {

/// One row in the rendered folder tree: the folder plus its display metadata.
#[derive(Debug, PartialEq, Eq)]
pub struct VisibleFolder {
    pub row: FolderRow,
    pub depth: usize,
    pub has_children: bool,
    pub expanded: bool,
}

/// Whether some folder has this id.
pub open spec fn has_id(f: Seq<FolderRow>, id: Seq<char>) -> bool {
    exists|i: int| 0 <= i < f.len() && (#[trigger] f[i]).id@ == id
}

/// A folder with no parent, or whose parent is not one of the folders.
pub open spec fn is_root(f: Seq<FolderRow>, i: int) -> bool {
    match f[i].parent_id {
        None => true,
        Some(p) => !has_id(f, p@),
    }
}

pub open spec fn is_child_of(row: FolderRow, id: Seq<char>) -> bool {
    row.parent_id matches Some(p) && p@ == id
}

/// Where, among the first `n` folders, those with parent `id` stand.
pub open spec fn children(f: Seq<FolderRow>, id: Seq<char>, n: int) -> Seq<int>
    decreases n,
{
    if n <= 0 {
        Seq::empty()
    } else if is_child_of(f[n - 1], id) {
        children(f, id, n - 1).push(n - 1)
    } else {
        children(f, id, n - 1)
    }
}

pub open spec fn visible_row(f: Seq<FolderRow>, i: int, depth: nat) -> VisibleFolder {
    VisibleFolder {
        row: f[i],
        depth: depth as usize,
        has_children: children(f, f[i].id@, f.len() as int).len() > 0,
        expanded: f[i].is_expanded,
    }
}

/// Folder `i` and, where it is expanded, what stands below it, at most `fuel`
/// levels deep.
pub open spec fn subtree(f: Seq<FolderRow>, i: int, depth: nat, fuel: nat) -> Seq<VisibleFolder>
    decreases fuel, 0nat,
{
    seq![visible_row(f, i, depth)] + if f[i].is_expanded && fuel > 0 {
        forest(f, children(f, f[i].id@, f.len() as int), depth + 1, (fuel - 1) as nat)
    } else {
        Seq::empty()
    }
}

/// The subtrees of several folders, one after another.
pub open spec fn forest(f: Seq<FolderRow>, kids: Seq<int>, depth: nat, fuel: nat) -> Seq<
    VisibleFolder,
>
    decreases fuel, kids.len() + 1,
{
    if kids.len() == 0 {
        Seq::empty()
    } else {
        forest(f, kids.drop_last(), depth, fuel) + subtree(f, kids.last(), depth, fuel)
    }
}

/// The first `n` folders that are roots.
pub open spec fn roots(f: Seq<FolderRow>, n: int) -> Seq<int>
    decreases n,
{
    if n <= 0 {
        Seq::empty()
    } else if is_root(f, n - 1) {
        roots(f, n - 1).push(n - 1)
    } else {
        roots(f, n - 1)
    }
}

/// The rows that are visible. No folder lies deeper than there are folders, so
/// that many levels hold every one.
pub open spec fn visible(f: Seq<FolderRow>) -> Seq<VisibleFolder> {
    forest(f, roots(f, f.len() as int), 0, f.len())
}

fn find_id(folders: &Vec<FolderRow>, id: &String) -> (r: bool)
    ensures
        r == has_id(folders@, id@),
{
    let mut i: usize = 0;
    while i < folders.len()
        invariant
            i <= folders@.len(),
            forall|j: int| 0 <= j < i ==> (#[trigger] folders@[j]).id@ != id@,
        decreases folders@.len() - i,
    {
        if folders[i].id == *id {
            return true;
        }
        i += 1;
    }
    false
}

proof fn lemma_children_range(f: Seq<FolderRow>, id: Seq<char>, n: int)
    requires
        n <= f.len(),
    ensures
        forall|k: int|
            0 <= k < children(f, id, n).len() ==> 0 <= #[trigger] children(f, id, n)[k] < n
                && is_child_of(f[children(f, id, n)[k]], id),
    decreases n,
{
    if n > 0 {
        lemma_children_range(f, id, n - 1);
        let prev = children(f, id, n - 1);
        let c = children(f, id, n);
        assert forall|k: int| 0 <= k < c.len() implies 0 <= #[trigger] c[k] < n && is_child_of(
            f[c[k]],
            id,
        ) by {
            if k < prev.len() {
                assert(c[k] == prev[k]);
            }
        }
    }
}

proof fn lemma_roots_range(f: Seq<FolderRow>, n: int)
    requires
        n <= f.len(),
    ensures
        forall|k: int|
            0 <= k < roots(f, n).len() ==> 0 <= #[trigger] roots(f, n)[k] < n && is_root(
                f,
                roots(f, n)[k],
            ),
    decreases n,
{
    if n > 0 {
        lemma_roots_range(f, n - 1);
        let prev = roots(f, n - 1);
        let c = roots(f, n);
        assert forall|k: int| 0 <= k < c.len() implies 0 <= #[trigger] c[k] < n && is_root(
            f,
            c[k],
        ) by {
            if k < prev.len() {
                assert(c[k] == prev[k]);
            }
        }
    }
}

spec fn as_ints(v: Seq<usize>) -> Seq<int> {
    v.map_values(|x: usize| x as int)
}

fn children_of(folders: &Vec<FolderRow>, id: &String) -> (r: Vec<usize>)
    ensures
        as_ints(r@) == children(folders@, id@, folders@.len() as int),
        forall|k: int| 0 <= k < r@.len() ==> #[trigger] r@[k] < folders@.len(),
{
    let mut out: Vec<usize> = Vec::new();
    let mut i: usize = 0;
    while i < folders.len()
        invariant
            i <= folders@.len(),
            as_ints(out@) == children(folders@, id@, i as int),
            forall|k: int| 0 <= k < out@.len() ==> #[trigger] out@[k] < folders@.len(),
        decreases folders@.len() - i,
    {
        let is_child = match &folders[i].parent_id {
            Some(p) => *p == *id,
            None => false,
        };
        if is_child {
            let ghost before = out@;
            out.push(i);
            assert(as_ints(out@) =~= as_ints(before).push(i as int));
        }
        i += 1;
    }
    out
}

fn push_subtree(
    folders: &Vec<FolderRow>,
    i: usize,
    depth: usize,
    fuel: usize,
    out: &mut Vec<VisibleFolder>,
)
    requires
        i < folders@.len(),
        depth + fuel == folders@.len(),
    ensures
        final(out)@ == old(out)@ + subtree(folders@, i as int, depth as nat, fuel as nat),
    decreases fuel, 0nat,
{
    let f = &folders[i];
    let kids = children_of(folders, &f.id);
    let has_children = kids.len() > 0;
    let total: usize = folders.len();
    assert(as_ints(kids@).len() == kids@.len());
    let row = f.clone();
    let expanded = f.is_expanded;
    out.push(VisibleFolder { row, depth, has_children, expanded });
    if expanded && fuel > 0 {
        push_forest(folders, &kids, depth + 1, fuel - 1, out);
        assert(out@ =~= old(out)@ + subtree(folders@, i as int, depth as nat, fuel as nat));
    } else {
        assert(out@ =~= old(out)@ + subtree(folders@, i as int, depth as nat, fuel as nat));
    }
}

fn push_forest(
    folders: &Vec<FolderRow>,
    kids: &Vec<usize>,
    depth: usize,
    fuel: usize,
    out: &mut Vec<VisibleFolder>,
)
    requires
        forall|k: int| 0 <= k < kids@.len() ==> #[trigger] kids@[k] < folders@.len(),
        depth + fuel == folders@.len(),
    ensures
        final(out)@ == old(out)@ + forest(folders@, as_ints(kids@), depth as nat, fuel as nat),
    decreases fuel, 1nat,
{
    let ghost start = out@;
    let ghost all = as_ints(kids@);
    let mut k: usize = 0;
    assert(out@ =~= start + forest(folders@, all.take(0), depth as nat, fuel as nat));
    while k < kids.len()
        invariant
            k <= kids@.len(),
            all == as_ints(kids@),
            forall|j: int| 0 <= j < kids@.len() ==> #[trigger] kids@[j] < folders@.len(),
            depth + fuel == folders@.len(),
            out@ == start + forest(folders@, all.take(k as int), depth as nat, fuel as nat),
        decreases kids@.len() - k,
    {
        push_subtree(folders, kids[k], depth, fuel, out);
        proof {
            let t = all.take(k + 1);
            assert(t.drop_last() =~= all.take(k as int));
            assert(t.last() == kids@[k as int] as int);
        }
        k += 1;
        assert(out@ =~= start + forest(folders@, all.take(k as int), depth as nat, fuel as nat));
    }
    assert(all.take(k as int) =~= all);
}

/// Depth-first flatten of `folders` (already globally ordered: well-known rank,
/// then display name) into the rows currently visible. A folder is a root
/// when its `parent_id` is `None` or points outside the set. Children of a
/// collapsed folder are omitted. Sibling order follows the input order.
pub fn build_visible(folders: &Vec<FolderRow>) -> (r: Vec<VisibleFolder>)
    ensures
        r@ == visible(folders@),
{
    let mut starts: Vec<usize> = Vec::new();
    let mut i: usize = 0;
    while i < folders.len()
        invariant
            i <= folders@.len(),
            as_ints(starts@) == roots(folders@, i as int),
            forall|k: int| 0 <= k < starts@.len() ==> #[trigger] starts@[k] < folders@.len(),
        decreases folders@.len() - i,
    {
        let root = match &folders[i].parent_id {
            None => true,
            Some(p) => !find_id(folders, p),
        };
        if root {
            let ghost before = starts@;
            starts.push(i);
            assert(as_ints(starts@) =~= as_ints(before).push(i as int));
        }
        i += 1;
    }
    let mut out: Vec<VisibleFolder> = Vec::new();
    push_forest(folders, &starts, 0, folders.len(), &mut out);
    assert(out@ =~= visible(folders@));
    out
}

// ---------------------------------------------------------------------------
// Laws
// ---------------------------------------------------------------------------

/// Row `k` hangs below an expanded row that stands before it.
pub open spec fn has_expanded_parent(v: Seq<VisibleFolder>, k: int) -> bool {
    exists|j: int|
        0 <= j < k && (#[trigger] v[j]).expanded && v[j].depth + 1 == v[k].depth && is_child_of(
            v[k].row,
            v[j].row.id@,
        )
}

proof fn lemma_subtree_parents(f: Seq<FolderRow>, i: int, depth: nat, fuel: nat)
    requires
        0 <= i < f.len(),
        depth + fuel <= usize::MAX,
    ensures
        ({
            let v = subtree(f, i, depth, fuel);
            &&& v.len() > 0
            &&& v[0] == visible_row(f, i, depth)
            &&& forall|k: int| 1 <= k < v.len() ==> #[trigger] has_expanded_parent(v, k)
            &&& forall|k: int| 1 <= k < v.len() ==> (#[trigger] v[k]).depth > depth
        }),
    decreases fuel, 0nat,
{
    let v = subtree(f, i, depth, fuel);
    if f[i].is_expanded && fuel > 0 {
        let kids = children(f, f[i].id@, f.len() as int);
        let below = forest(f, kids, depth + 1, (fuel - 1) as nat);
        lemma_children_range(f, f[i].id@, f.len() as int);
        lemma_forest_parents(f, kids, depth + 1, (fuel - 1) as nat);
        assert forall|k: int| 1 <= k < v.len() implies #[trigger] has_expanded_parent(v, k)
            && v[k].depth > depth by {
            let b = k - 1;
            assert(v[k] == below[b]);
            assert(below[b].depth == depth + 1 || has_expanded_parent(below, b));
            if below[b].depth == depth + 1 {
                let m = choose|m: int|
                    0 <= m < kids.len() && below[b].row == #[trigger] f[kids[m]];
                assert(is_child_of(f[kids[m]], f[i].id@));
                assert(v[0].expanded);
            } else {
                let j = choose|j: int|
                    0 <= j < b && (#[trigger] below[j]).expanded && below[j].depth + 1
                        == below[b].depth && is_child_of(below[b].row, below[j].row.id@);
                assert(v[j + 1] == below[j]);
            }
        }
        assert forall|k: int| 1 <= k < v.len() implies (#[trigger] v[k]).depth > depth by {
            assert(has_expanded_parent(v, k));
        }
    }
}

proof fn lemma_forest_parents(f: Seq<FolderRow>, kids: Seq<int>, depth: nat, fuel: nat)
    requires
        forall|k: int| 0 <= k < kids.len() ==> 0 <= #[trigger] kids[k] < f.len(),
        depth + fuel <= usize::MAX,
    ensures
        ({
            let v = forest(f, kids, depth, fuel);
            forall|k: int|
                #![trigger v[k]]
                0 <= k < v.len() ==> v[k].depth >= depth && (v[k].depth == depth ==> exists|m: int|
                    0 <= m < kids.len() && v[k].row == #[trigger] f[kids[m]]) && (v[k].depth != depth
                    ==> has_expanded_parent(v, k))
        }),
    decreases fuel, kids.len() + 1,
{
    if kids.len() > 0 {
        let a = forest(f, kids.drop_last(), depth, fuel);
        let b = subtree(f, kids.last(), depth, fuel);
        let v = forest(f, kids, depth, fuel);
        lemma_forest_parents(f, kids.drop_last(), depth, fuel);
        lemma_subtree_parents(f, kids.last(), depth, fuel);
        assert forall|k: int| 0 <= k < v.len() implies #[trigger] v[k].depth >= depth && (v[k].depth
            == depth ==> exists|m: int| 0 <= m < kids.len() && v[k].row == #[trigger] f[kids[m]])
            && (v[k].depth != depth ==> has_expanded_parent(v, k)) by {
            if k < a.len() {
                assert(v[k] == a[k]);
                if a[k].depth == depth {
                    let m = choose|m: int|
                        0 <= m < kids.drop_last().len() && a[k].row
                            == #[trigger] f[kids.drop_last()[m]];
                    assert(kids[m] == kids.drop_last()[m]);
                } else {
                    let j = choose|j: int|
                        0 <= j < k && (#[trigger] a[j]).expanded && a[j].depth + 1 == a[k].depth
                            && is_child_of(a[k].row, a[j].row.id@);
                    assert(v[j] == a[j]);
                }
            } else {
                let c = k - a.len();
                assert(v[k] == b[c]);
                if c == 0 {
                    assert(v[k].row == f[kids[kids.len() - 1]]);
                } else {
                    assert(has_expanded_parent(b, c));
                    let j = choose|j: int|
                        0 <= j < c && (#[trigger] b[j]).expanded && b[j].depth + 1 == b[c].depth
                            && is_child_of(b[c].row, b[j].row.id@);
                    assert(v[j + a.len()] == b[j]);
                }
            }
        }
    }
}

/// A row is visible only through expanded ancestors: a row below the top
/// level hangs under an expanded row that is visible too, and a row at the
/// top level is a root.
pub proof fn visible_only_through_expanded_ancestors(f: Seq<FolderRow>, k: int)
    requires
        0 <= k < visible(f).len(),
        f.len() <= usize::MAX,
    ensures
        visible(f)[k].depth > 0 ==> has_expanded_parent(visible(f), k),
        visible(f)[k].depth == 0 ==> exists|i: int|
            0 <= i < f.len() && is_root(f, i) && visible(f)[k].row == #[trigger] f[i],
{
    lemma_roots_range(f, f.len() as int);
    lemma_forest_parents(f, roots(f, f.len() as int), 0, f.len());
    if visible(f)[k].depth == 0 {
        let r = roots(f, f.len() as int);
        let m = choose|m: int| 0 <= m < r.len() && visible(f)[k].row == #[trigger] f[r[m]];
        assert(is_root(f, r[m]));
    }
}


/// No two folders share an id.
pub open spec fn unique_ids(f: Seq<FolderRow>) -> bool {
    forall|i: int, j: int|
        0 <= i < f.len() && 0 <= j < f.len() && (#[trigger] f[i]).id@ == (#[trigger] f[j]).id@ ==> i
            == j
}

/// Every child of the folder in row `k` has a row one level deeper.
pub open spec fn shows_children(f: Seq<FolderRow>, v: Seq<VisibleFolder>, k: int) -> bool {
    forall|j: int|
        0 <= j < f.len() && is_child_of(#[trigger] f[j], v[k].row.id@) ==> exists|m: int|
            0 <= m < v.len() && (#[trigger] v[m]).row == f[j] && v[m].depth == v[k].depth + 1
}

/// A way down from a root, each folder the child of the one before.
spec fn is_path(f: Seq<FolderRow>, path: Seq<int>) -> bool {
    &&& path.len() > 0
    &&& forall|k: int| 0 <= k < path.len() ==> 0 <= #[trigger] path[k] < f.len()
    &&& is_root(f, path[0])
    &&& forall|k: int|
        1 <= k < path.len() ==> is_child_of(f[#[trigger] path[k]], f[path[k - 1]].id@)
}

proof fn lemma_path_distinct(f: Seq<FolderRow>, path: Seq<int>)
    requires
        unique_ids(f),
        is_path(f, path),
    ensures
        path.no_duplicates(),
    decreases path.len(),
{
    let n = path.len() as int;
    if n > 1 {
        let p = path.drop_last();
        assert forall|k: int| 0 <= k < p.len() implies 0 <= #[trigger] p[k] < f.len() by {
            assert(p[k] == path[k]);
        }
        assert forall|k: int| 1 <= k < p.len() implies is_child_of(
            f[#[trigger] p[k]],
            f[p[k - 1]].id@,
        ) by {
            assert(p[k] == path[k] && p[k - 1] == path[k - 1]);
        }
        lemma_path_distinct(f, p);
        let last = path[n - 1];
        assert forall|k: int| 0 <= k < n - 1 implies #[trigger] path[k] != last by {
            if path[k] == path[n - 1] {
                assert(is_child_of(f[path[n - 1]], f[path[n - 2]].id@));
                if k == 0 {
                    assert(has_id(f, f[path[n - 2]].id@));
                } else {
                    assert(is_child_of(f[path[k]], f[path[k - 1]].id@));
                    assert(path[k - 1] == path[n - 2]);
                    assert(p[k - 1] == p[n - 2]);
                }
            }
        }
        assert forall|a: int, b: int| 0 <= a < n && 0 <= b < n && a != b implies path[a]
            != path[b] by {
            if a < n - 1 && b < n - 1 {
                assert(p[a] != p[b]);
            }
        }
    }
}

proof fn lemma_path_len(f: Seq<FolderRow>, path: Seq<int>)
    requires
        unique_ids(f),
        is_path(f, path),
    ensures
        path.len() <= f.len(),
{
    lemma_path_distinct(f, path);
    path.unique_seq_to_set();
    let all = vstd::set_lib::set_int_range(0, f.len() as int);
    vstd::set_lib::lemma_int_range(0, f.len() as int);
    assert(path.to_set().subset_of(all)) by {
        assert forall|x: int| path.to_set().contains(x) implies all.contains(x) by {
            let k = choose|k: int| 0 <= k < path.len() && path[k] == x;
            assert(0 <= path[k] < f.len());
        }
    }
    vstd::set_lib::lemma_len_subset(path.to_set(), all);
}

proof fn lemma_children_complete(f: Seq<FolderRow>, id: Seq<char>, n: int, j: int)
    requires
        0 <= j < n <= f.len(),
        is_child_of(f[j], id),
    ensures
        exists|m: int| 0 <= m < children(f, id, n).len() && #[trigger] children(f, id, n)[m] == j,
    decreases n,
{
    let c = children(f, id, n);
    if j == n - 1 {
        assert(c[c.len() - 1] == j);
    } else {
        lemma_children_complete(f, id, n - 1, j);
        let prev = children(f, id, n - 1);
        let m = choose|m: int| 0 <= m < prev.len() && #[trigger] prev[m] == j;
        assert(c[m] == j);
    }
}

proof fn lemma_forest_heads(f: Seq<FolderRow>, kids: Seq<int>, depth: nat, fuel: nat, m: int)
    requires
        0 <= m < kids.len(),
    ensures
        exists|k: int|
            0 <= k < forest(f, kids, depth, fuel).len() && #[trigger] forest(
                f,
                kids,
                depth,
                fuel,
            )[k] == visible_row(f, kids[m], depth),
    decreases kids.len(),
{
    let v = forest(f, kids, depth, fuel);
    let a = forest(f, kids.drop_last(), depth, fuel);
    let b = subtree(f, kids.last(), depth, fuel);
    if m == kids.len() - 1 {
        assert(v[a.len() as int] == b[0]);
    } else {
        lemma_forest_heads(f, kids.drop_last(), depth, fuel, m);
        let k = choose|k: int|
            0 <= k < a.len() && #[trigger] a[k] == visible_row(f, kids.drop_last()[m], depth);
        assert(v[k] == a[k]);
    }
}

proof fn lemma_shows_children_extend(
    f: Seq<FolderRow>,
    inner: Seq<VisibleFolder>,
    v: Seq<VisibleFolder>,
    k: int,
    offset: int,
)
    requires
        0 <= k < inner.len(),
        0 <= offset,
        offset + inner.len() <= v.len(),
        forall|m: int| 0 <= m < inner.len() ==> #[trigger] inner[m] == v[m + offset],
        shows_children(f, inner, k),
    ensures
        shows_children(f, v, k + offset),
{
    assert(inner[k] == v[k + offset]);
    assert forall|j: int|
        0 <= j < f.len() && is_child_of(
            #[trigger] f[j],
            v[k + offset].row.id@,
        ) implies exists|m: int|
        0 <= m < v.len() && (#[trigger] v[m]).row == f[j] && v[m].depth == v[k + offset].depth
            + 1 by {
        let m = choose|m: int|
            0 <= m < inner.len() && (#[trigger] inner[m]).row == f[j] && inner[m].depth
                == inner[k].depth + 1;
        assert(v[m + offset] == inner[m]);
    }
}

proof fn lemma_subtree_complete(f: Seq<FolderRow>, path: Seq<int>, fuel: nat)
    requires
        unique_ids(f),
        f.len() <= usize::MAX,
        is_path(f, path),
        path.len() - 1 + fuel == f.len(),
    ensures
        ({
            let v = subtree(f, path.last(), (path.len() - 1) as nat, fuel);
            forall|k: int|
                0 <= k < v.len() && v[k].expanded ==> #[trigger] shows_children(f, v, k)
        }),
    decreases fuel, 0nat,
{
    let i = path.last();
    let depth = (path.len() - 1) as nat;
    let v = subtree(f, i, depth, fuel);
    lemma_path_len(f, path);
    assert(0 <= i < f.len());
    let id = f[i].id@;
    let kids = children(f, id, f.len() as int);
    lemma_children_range(f, id, f.len() as int);
    if f[i].is_expanded {
        let below = forest(f, kids, depth + 1, (fuel - 1) as nat);
        assert forall|m: int| 0 <= m < kids.len() implies is_path(
            f,
            path.push(#[trigger] kids[m]),
        ) by {
            let q = path.push(kids[m]);
            assert(is_child_of(f[kids[m]], id));
            assert forall|k: int| 1 <= k < q.len() implies is_child_of(
                f[#[trigger] q[k]],
                f[q[k - 1]].id@,
            ) by {
                if k < path.len() {
                    assert(q[k] == path[k] && q[k - 1] == path[k - 1]);
                }
            }
        }
        lemma_forest_complete(f, path, kids, (fuel - 1) as nat);
        assert forall|k: int| 0 <= k < v.len() && v[k].expanded implies #[trigger] shows_children(
            f,
            v,
            k,
        ) by {
            if k == 0 {
                assert forall|j: int|
                    0 <= j < f.len() && is_child_of(#[trigger] f[j], id) implies exists|m: int|
                    0 <= m < v.len() && (#[trigger] v[m]).row == f[j] && v[m].depth == v[0].depth
                        + 1 by {
                    lemma_children_complete(f, id, f.len() as int, j);
                    let m = choose|m: int| 0 <= m < kids.len() && #[trigger] kids[m] == j;
                    lemma_forest_heads(f, kids, depth + 1, (fuel - 1) as nat, m);
                    let b = choose|b: int|
                        0 <= b < below.len() && #[trigger] below[b] == visible_row(
                            f,
                            kids[m],
                            depth + 1,
                        );
                    assert(v[b + 1] == below[b]);
                }
            } else {
                assert(v[k] == below[k - 1]);
                assert(shows_children(f, below, k - 1));
                lemma_shows_children_extend(f, below, v, k - 1, 1);
            }
        }
    }
}

proof fn lemma_forest_complete(f: Seq<FolderRow>, path: Seq<int>, kids: Seq<int>, fuel: nat)
    requires
        unique_ids(f),
        f.len() <= usize::MAX,
        forall|m: int| 0 <= m < kids.len() ==> is_path(f, path.push(#[trigger] kids[m])),
        path.len() + fuel == f.len(),
    ensures
        ({
            let v = forest(f, kids, path.len(), fuel);
            forall|k: int|
                0 <= k < v.len() && v[k].expanded ==> #[trigger] shows_children(f, v, k)
        }),
    decreases fuel, kids.len() + 1,
{
    if kids.len() > 0 {
        let v = forest(f, kids, path.len(), fuel);
        let a = forest(f, kids.drop_last(), path.len(), fuel);
        let b = subtree(f, kids.last(), path.len(), fuel);
        assert forall|m: int| 0 <= m < kids.drop_last().len() implies is_path(
            f,
            path.push(#[trigger] kids.drop_last()[m]),
        ) by {
            assert(kids[m] == kids.drop_last()[m]);
        }
        lemma_forest_complete(f, path, kids.drop_last(), fuel);
        let q = path.push(kids[kids.len() - 1]);
        assert(is_path(f, q));
        lemma_subtree_complete(f, q, fuel);
        assert forall|k: int| 0 <= k < v.len() && v[k].expanded implies #[trigger] shows_children(
            f,
            v,
            k,
        ) by {
            if k < a.len() {
                assert(v[k] == a[k]);
                assert(shows_children(f, a, k));
                lemma_shows_children_extend(f, a, v, k, 0);
            } else {
                let c = k - a.len();
                assert(v[k] == b[c]);
                assert(shows_children(f, b, c));
                lemma_shows_children_extend(f, b, v, c, a.len() as int);
            }
        }
    }
}

/// Nothing below an expanded row is left out: every child of a folder whose
/// row is visible and expanded is visible, one level deeper.
pub proof fn expanded_rows_show_their_children(f: Seq<FolderRow>, k: int)
    requires
        unique_ids(f),
        f.len() <= usize::MAX,
        0 <= k < visible(f).len(),
        visible(f)[k].expanded,
    ensures
        shows_children(f, visible(f), k),
{
    let r = roots(f, f.len() as int);
    lemma_roots_range(f, f.len() as int);
    let none = Seq::<int>::empty();
    assert forall|m: int| 0 <= m < r.len() implies is_path(f, none.push(#[trigger] r[m])) by {
        assert(is_root(f, r[m]));
    }
    lemma_forest_complete(f, none, r, f.len());
}

/// Every root is visible, at the top level.
pub proof fn every_root_is_visible(f: Seq<FolderRow>, i: int)
    requires
        0 <= i < f.len(),
        is_root(f, i),
    ensures
        exists|k: int|
            0 <= k < visible(f).len() && #[trigger] visible(f)[k] == visible_row(f, i, 0),
{
    lemma_roots_complete(f, f.len() as int, i);
    let r = roots(f, f.len() as int);
    let m = choose|m: int| 0 <= m < r.len() && #[trigger] r[m] == i;
    lemma_forest_heads(f, r, 0, f.len(), m);
    let v = forest(f, r, 0, f.len());
    let k = choose|k: int| 0 <= k < v.len() && #[trigger] v[k] == visible_row(f, r[m], 0);
    assert(visible(f)[k] == visible_row(f, i, 0));
}

proof fn lemma_roots_complete(f: Seq<FolderRow>, n: int, i: int)
    requires
        0 <= i < n <= f.len(),
        is_root(f, i),
    ensures
        exists|m: int| 0 <= m < roots(f, n).len() && #[trigger] roots(f, n)[m] == i,
    decreases n,
{
    let c = roots(f, n);
    if i == n - 1 {
        assert(c[c.len() - 1] == i);
    } else {
        lemma_roots_complete(f, n - 1, i);
        let prev = roots(f, n - 1);
        let m = choose|m: int| 0 <= m < prev.len() && #[trigger] prev[m] == i;
        assert(c[m] == i);
    }
}

}
