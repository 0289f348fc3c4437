//! The tree-structured intermediate form that template merging works on.
//!
//! A specification value is encoded as a tree before merging, so the merge
//! engine is generic over the representation and needs no per-field code.
//! Object members are keyed by small integer field tags; string-keyed
//! configuration maps and plain string lists get variants of their own, which
//! keeps their merge behaviour (key-overwrite, wholesale replacement) easy to
//! state.
//!
//! The merge itself follows the JSON merge-patch rules: an object patch is
//! merged member by member, a `Null` member deletes, any other kind of patch
//! replaces the base wholesale.

use vstd::prelude::*;

use crate::conf::ConfMap;

verus! {

/// The mathematical shape of a tree.
pub ghost enum TreeView {
    Null,
    Bool(bool),
    Int(int),
    Str(Seq<char>),
    StrList(Seq<Seq<char>>),
    StrMap(Map<Seq<char>, Seq<char>>),
    Arr(Seq<TreeView>),
    Obj(Seq<(nat, TreeView)>),
}

/// A tree value, built and consumed by executable code.
pub enum Tree {
    Null,
    Bool(bool),
    Int(i64),
    Str(String),
    StrList(Vec<String>),
    StrMap(ConfMap),
    Arr(Vec<Tree>),
    Obj(Vec<(u64, Tree)>),
}

pub open spec fn view_of_strings(s: Seq<String>) -> Seq<Seq<char>> {
    Seq::new(s.len(), |i: int| s[i]@)
}

pub open spec fn view_of_values(s: Seq<Tree>) -> Seq<TreeView>
    decreases s,
    via view_of_values_decreases
{
    if s.len() == 0 {
        Seq::empty()
    } else {
        view_of_values(s.drop_last()).push(tree_view(&s.last()))
    }
}

#[via_fn]
proof fn view_of_values_decreases(s: Seq<Tree>) {
    broadcast use vstd::seq::group_seq_axioms;

    if s.len() > 0 {
        vstd::seq::axiom_seq_subrange_decreases(s, 0, s.len() - 1);
        vstd::seq::axiom_seq_index_decreases(s, s.len() - 1);
    }
}

pub open spec fn view_of_members(s: Seq<(u64, Tree)>) -> Seq<(nat, TreeView)>
    decreases s,
    via view_of_members_decreases
{
    if s.len() == 0 {
        Seq::empty()
    } else {
        view_of_members(s.drop_last()).push((s.last().0 as nat, tree_view(&s.last().1)))
    }
}

#[via_fn]
proof fn view_of_members_decreases(s: Seq<(u64, Tree)>) {
    broadcast use vstd::seq::group_seq_axioms;

    if s.len() > 0 {
        vstd::seq::axiom_seq_subrange_decreases(s, 0, s.len() - 1);
        vstd::seq::axiom_seq_index_decreases(s, s.len() - 1);
    }
}

pub open spec fn tree_view(t: &Tree) -> TreeView
    decreases t,
    via tree_view_decreases
{
    match t {
        Tree::Null => TreeView::Null,
        Tree::Bool(b) => TreeView::Bool(*b),
        Tree::Int(i) => TreeView::Int(*i as int),
        Tree::Str(s) => TreeView::Str(s@),
        Tree::StrList(l) => TreeView::StrList(view_of_strings(l@)),
        Tree::StrMap(m) => TreeView::StrMap(m@),
        Tree::Arr(elems) => TreeView::Arr(view_of_values(elems@)),
        Tree::Obj(members) => TreeView::Obj(view_of_members(members@)),
    }
}

#[via_fn]
proof fn tree_view_decreases(t: &Tree) {
    broadcast use vstd::std_specs::vec::group_vec_axioms;
    broadcast use vstd::seq::group_seq_axioms;

}

impl View for Tree {
    type V = TreeView;

    open spec fn view(&self) -> TreeView {
        tree_view(self)
    }
}

/// Element-wise description of `view_of_values`.
pub proof fn lemma_view_of_values_index(s: Seq<Tree>)
    ensures
        view_of_values(s).len() == s.len(),
        forall|i: int| 0 <= i < s.len() ==> #[trigger] view_of_values(s)[i] == s[i]@,
    decreases s.len(),
{
    if s.len() > 0 {
        lemma_view_of_values_index(s.drop_last());
        assert(s.last() == s[s.len() - 1]);
        assert forall|i: int| 0 <= i < s.len() implies #[trigger] view_of_values(s)[i]
            == s[i]@ by {
            if i < s.len() - 1 {
                assert(s.drop_last()[i] == s[i]);
                assert(view_of_values(s)[i] == view_of_values(s.drop_last())[i]);
            }
        }
    }
}

/// Element-wise description of `view_of_members`.
pub proof fn lemma_view_of_members_index(s: Seq<(u64, Tree)>)
    ensures
        view_of_members(s).len() == s.len(),
        forall|i: int| 0 <= i < s.len() ==> #[trigger] view_of_members(s)[i] == (
            s[i].0 as nat,
            s[i].1@,
        ),
    decreases s.len(),
{
    if s.len() > 0 {
        lemma_view_of_members_index(s.drop_last());
        assert(s.last() == s[s.len() - 1]);
        assert forall|i: int| 0 <= i < s.len() implies #[trigger] view_of_members(s)[i] == (
            s[i].0 as nat,
            s[i].1@,
        ) by {
            if i < s.len() - 1 {
                assert(s.drop_last()[i] == s[i]);
                assert(view_of_members(s)[i] == view_of_members(s.drop_last())[i]);
            }
        }
    }
}

/// A size measure used for termination of the merge functions.
pub open spec fn size_of(v: TreeView) -> nat
    decreases v,
    via size_of_decreases
{
    match v {
        TreeView::Arr(elems) => size_of_values(elems) + 1,
        TreeView::Obj(members) => size_of_members(members) + 1,
        _ => 1,
    }
}

pub open spec fn size_of_values(s: Seq<TreeView>) -> nat
    decreases s, 0nat,
    via size_of_values_decreases
{
    if s.len() == 0 {
        0
    } else {
        size_of_values(s.drop_last()) + size_of(s.last()) + 1
    }
}

pub open spec fn size_of_members(s: Seq<(nat, TreeView)>) -> nat
    decreases s, 0nat,
    via size_of_members_decreases
{
    if s.len() == 0 {
        0
    } else {
        size_of_members(s.drop_last()) + size_of(s.last().1) + 1
    }
}

#[via_fn]
proof fn size_of_decreases(v: TreeView) {
    broadcast use vstd::seq::group_seq_axioms;

}

#[via_fn]
proof fn size_of_values_decreases(s: Seq<TreeView>) {
    broadcast use vstd::seq::group_seq_axioms;

    if s.len() > 0 {
        vstd::seq::axiom_seq_subrange_decreases(s, 0, s.len() - 1);
        vstd::seq::axiom_seq_index_decreases(s, s.len() - 1);
    }
}

#[via_fn]
proof fn size_of_members_decreases(s: Seq<(nat, TreeView)>) {
    broadcast use vstd::seq::group_seq_axioms;

    if s.len() > 0 {
        vstd::seq::axiom_seq_subrange_decreases(s, 0, s.len() - 1);
        vstd::seq::axiom_seq_index_decreases(s, s.len() - 1);
    }
}

/// Each member's value is strictly smaller than the member list.
pub proof fn lemma_member_size(s: Seq<(nat, TreeView)>, i: int)
    requires
        0 <= i < s.len(),
    ensures
        size_of(s[i].1) < size_of_members(s),
    decreases s.len(),
{
    if i == s.len() - 1 {
        assert(s.last() == s[i]);
    } else {
        assert(s.drop_last()[i] == s[i]);
        lemma_member_size(s.drop_last(), i);
    }
}

/// Dropping the first member strictly shrinks the size.
pub proof fn lemma_members_tail_size(s: Seq<(nat, TreeView)>)
    requires
        s.len() > 0,
    ensures
        size_of_members(s.subrange(1, s.len() as int)) < size_of_members(s),
    decreases s.len(),
{
    if s.len() == 1 {
        assert(s.subrange(1, 1) =~= Seq::<(nat, TreeView)>::empty());
    } else {
        let t = s.subrange(1, s.len() as int);
        assert(s.drop_last().subrange(1, s.drop_last().len() as int) =~= t.drop_last());
        assert(t.last() == s.last());
        lemma_members_tail_size(s.drop_last());
    }
}

/// First-match lookup of a field tag in a member list.
pub open spec fn tree_get(ms: Seq<(nat, TreeView)>, k: nat) -> Option<TreeView>
    decreases ms.len(),
{
    if ms.len() == 0 {
        None
    } else if ms[0].0 == k {
        Some(ms[0].1)
    } else {
        tree_get(ms.subrange(1, ms.len() as int), k)
    }
}

/// A found value is one of the member values, so it is smaller than the list.
pub proof fn lemma_tree_get_size(ms: Seq<(nat, TreeView)>, k: nat)
    requires
        tree_get(ms, k) is Some,
    ensures
        size_of(tree_get(ms, k)->Some_0) < size_of_members(ms),
    decreases ms.len(),
{
    if ms.len() > 0 {
        if ms[0].0 == k {
            lemma_member_size(ms, 0);
        } else {
            lemma_tree_get_size(ms.subrange(1, ms.len() as int), k);
            lemma_members_tail_size(ms);
        }
    }
}

/// Recursively remove `Null`-valued object members; the merge applies this to
/// object values that are added fresh.
pub open spec fn strip_nulls(v: TreeView) -> TreeView
    decreases v,
    via strip_nulls_decreases
{
    match v {
        TreeView::Obj(ms) => TreeView::Obj(strip_members(ms)),
        _ => v,
    }
}

pub open spec fn strip_members(ms: Seq<(nat, TreeView)>) -> Seq<(nat, TreeView)>
    decreases ms, 0nat,
    via strip_members_decreases
{
    if ms.len() == 0 {
        Seq::empty()
    } else {
        let rest = strip_members(ms.subrange(1, ms.len() as int));
        if ms[0].1 is Null {
            rest
        } else {
            seq![(ms[0].0, strip_nulls(ms[0].1))] + rest
        }
    }
}

#[via_fn]
proof fn strip_nulls_decreases(v: TreeView) {
    broadcast use vstd::seq::group_seq_axioms;

}

#[via_fn]
proof fn strip_members_decreases(ms: Seq<(nat, TreeView)>) {
    broadcast use vstd::seq::group_seq_axioms;

    if ms.len() > 0 {
        vstd::seq::axiom_seq_subrange_decreases(ms, 1, ms.len() as int);
        vstd::seq::axiom_seq_index_decreases(ms, 0);
    }
}

/// Merge a patch tree into a base tree.
///
/// An object patch updates the base object member by member: a `Null` patch
/// member deletes the base member, a missing patch member keeps it, anything
/// else merges recursively; patch members whose tag is absent from the base
/// are appended (with their own `Null` members stripped).  A string-map patch
/// overwrites the base map key by key.  Every other patch kind, arrays and
/// string lists included, replaces the base wholesale.
pub open spec fn merge_view(d: TreeView, p: TreeView) -> TreeView
    decreases size_of(d) + size_of(p),
    via merge_view_decreases
{
    match p {
        TreeView::Obj(pms) => match d {
            TreeView::Obj(dms) => TreeView::Obj(
                merge_updates(dms, pms) + merge_additions(pms, dms),
            ),
            _ => TreeView::Obj(strip_members(pms)),
        },
        TreeView::StrMap(pm) => match d {
            TreeView::StrMap(dm) => TreeView::StrMap(dm.union_prefer_right(pm)),
            _ => p,
        },
        _ => p,
    }
}

/// The members of the base object after the patch is applied to them, in base
/// order: deleted members are gone, patched members merged, others kept.
pub open spec fn merge_updates(dms: Seq<(nat, TreeView)>, pms: Seq<(nat, TreeView)>) -> Seq<
    (nat, TreeView),
>
    decreases size_of_members(dms) + size_of_members(pms), 1nat,
    via merge_updates_decreases
{
    if dms.len() == 0 {
        Seq::empty()
    } else {
        let rest = merge_updates(dms.subrange(1, dms.len() as int), pms);
        match tree_get(pms, dms[0].0) {
            None => seq![dms[0]] + rest,
            Some(pv) => if pv is Null {
                rest
            } else {
                seq![(dms[0].0, merge_view(dms[0].1, pv))] + rest
            },
        }
    }
}

#[via_fn]
proof fn merge_view_decreases(d: TreeView, p: TreeView) {
    broadcast use vstd::seq::group_seq_axioms;

}

#[via_fn]
proof fn merge_updates_decreases(dms: Seq<(nat, TreeView)>, pms: Seq<(nat, TreeView)>) {
    broadcast use vstd::seq::group_seq_axioms;

    if dms.len() > 0 {
        lemma_members_tail_size(dms);
        lemma_member_size(dms, 0);
        if tree_get(pms, dms[0].0) is Some {
            lemma_tree_get_size(pms, dms[0].0);
        }
    }
}

/// The patch members whose tag the base object does not carry, in patch
/// order, with `Null` members dropped and added objects stripped of `Null`s.
pub open spec fn merge_additions(pms: Seq<(nat, TreeView)>, dms: Seq<(nat, TreeView)>) -> Seq<
    (nat, TreeView),
>
    decreases pms.len(),
{
    if pms.len() == 0 {
        Seq::empty()
    } else {
        let rest = merge_additions(pms.subrange(1, pms.len() as int), dms);
        if tree_get(dms, pms[0].0) is None && !(pms[0].1 is Null) {
            seq![(pms[0].0, strip_nulls(pms[0].1))] + rest
        } else {
            rest
        }
    }
}

/// Tags are pairwise distinct within one member list.
pub open spec fn unique_keys(ms: Seq<(nat, TreeView)>) -> bool {
    forall|i: int, j: int| 0 <= i < j < ms.len() ==> (#[trigger] ms[i]).0 != (#[trigger] ms[j]).0
}

/// A canonical tree: object member lists have pairwise distinct tags and no
/// `Null` values, recursively.  Every tree that encodes a specification value
/// is of this shape.
pub open spec fn wf_view(v: TreeView) -> bool
    decreases v,
{
    match v {
        TreeView::Obj(ms) => unique_keys(ms) && forall|i: int|
            0 <= i < ms.len() ==> !((#[trigger] ms[i]).1 is Null) && wf_view(ms[i].1),
        _ => true,
    }
}

/// With distinct tags, looking a member's own tag up finds that member.
pub proof fn lemma_tree_get_found(ms: Seq<(nat, TreeView)>, i: int)
    requires
        unique_keys(ms),
        0 <= i < ms.len(),
    ensures
        tree_get(ms, ms[i].0) == Some(ms[i].1),
    decreases ms.len(),
{
    if i > 0 {
        let t = ms.subrange(1, ms.len() as int);
        assert forall|a: int, b: int| 0 <= a < b < t.len() implies (#[trigger] t[a]).0 != (
        #[trigger] t[b]).0 by {
            assert(t[a] == ms[a + 1]);
            assert(t[b] == ms[b + 1]);
        }
        assert(t[i - 1] == ms[i]);
        lemma_tree_get_found(t, i - 1);
    }
}

proof fn lemma_updates_self(ms: Seq<(nat, TreeView)>, j: int)
    requires
        0 <= j <= ms.len(),
        unique_keys(ms),
        forall|i: int| 0 <= i < ms.len() ==> !((#[trigger] ms[i]).1 is Null) && wf_view(ms[i].1),
    ensures
        merge_updates(ms.subrange(j, ms.len() as int), ms) == ms.subrange(j, ms.len() as int),
    decreases size_of_members(ms.subrange(j, ms.len() as int)), 1nat,
{
    let sub = ms.subrange(j, ms.len() as int);
    if j < ms.len() {
        assert(sub[0] == ms[j]);
        lemma_tree_get_found(ms, j);
        assert(tree_get(ms, sub[0].0) == Some(ms[j].1));
        assert(sub.subrange(1, sub.len() as int) =~= ms.subrange(j + 1, ms.len() as int));
        lemma_members_tail_size(sub);
        lemma_member_size(sub, 0);
        lemma_merge_view_self(ms[j].1);
        lemma_updates_self(ms, j + 1);
        assert(merge_updates(sub, ms) =~= sub);
    } else {
        assert(sub =~= Seq::<(nat, TreeView)>::empty());
    }
}

proof fn lemma_additions_self(ms: Seq<(nat, TreeView)>, j: int)
    requires
        0 <= j <= ms.len(),
        unique_keys(ms),
    ensures
        merge_additions(ms.subrange(j, ms.len() as int), ms) == Seq::<(nat, TreeView)>::empty(),
    decreases ms.len() - j,
{
    let sub = ms.subrange(j, ms.len() as int);
    if j < ms.len() {
        assert(sub[0] == ms[j]);
        lemma_tree_get_found(ms, j);
        assert(sub.subrange(1, sub.len() as int) =~= ms.subrange(j + 1, ms.len() as int));
        lemma_additions_self(ms, j + 1);
    } else {
        assert(sub =~= Seq::<(nat, TreeView)>::empty());
    }
}

/// Merge idempotence: merging a canonical tree with itself, as both base and
/// patch, leaves it unchanged.
pub proof fn lemma_merge_view_self(v: TreeView)
    requires
        wf_view(v),
    ensures
        merge_view(v, v) == v,
    decreases size_of(v), 0nat,
{
    match v {
        TreeView::Obj(ms) => {
            assert(ms.subrange(0, ms.len() as int) =~= ms);
            assert(size_of_members(ms.subrange(0, ms.len() as int)) < size_of(v));
            lemma_updates_self(ms, 0);
            lemma_additions_self(ms, 0);
            assert(merge_updates(ms, ms) + merge_additions(ms, ms) =~= ms);
        }
        TreeView::StrMap(m) => {
            assert(m.union_prefer_right(m) =~= m);
        }
        _ => {}
    }
}

impl Tree {
    /// Whether this value is the explicit `Null` marker.
    pub fn is_null(&self) -> (r: bool)
        ensures
            r == (self@ is Null),
    {
        match self {
            Tree::Null => true,
            _ => false,
        }
    }
}

/// Look a tag up in an object member list; the first match wins.
pub fn obj_get<'a>(members: &'a Vec<(u64, Tree)>, tag: u64) -> (r: Option<&'a Tree>)
    ensures
        match r {
            Some(v) => tree_get(view_of_members(members@), tag as nat) == Some(v@),
            None => tree_get(view_of_members(members@), tag as nat) is None,
        },
{
    let ghost vms = view_of_members(members@);
    proof {
        lemma_view_of_members_index(members@);
    }
    proof {
        assert(vms.subrange(0, vms.len() as int) =~= vms);
    }
    let mut i: usize = 0;
    while i < members.len()
        invariant
            i <= members.len(),
            vms == view_of_members(members@),
            vms.len() == members@.len(),
            forall|k: int| 0 <= k < members@.len() ==> #[trigger] vms[k] == (
                members@[k].0 as nat,
                members@[k].1@,
            ),
            tree_get(vms, tag as nat) == tree_get(
                vms.subrange(i as int, vms.len() as int),
                tag as nat,
            ),
        decreases members.len() - i,
    {
        let ghost sub = vms.subrange(i as int, vms.len() as int);
        proof {
            assert(sub[0] == vms[i as int]);
            assert(sub.subrange(1, sub.len() as int) =~= vms.subrange(
                i + 1 as int,
                vms.len() as int,
            ));
        }
        if members[i].0 == tag {
            return Some(&members[i].1);
        }
        i = i + 1;
    }
    proof {
        assert(vms.subrange(vms.len() as int, vms.len() as int) =~= Seq::<(nat, TreeView)>::empty());
    }
    None
}

/// Deep copy; the view is kept exactly.
pub fn clone_tree(t: &Tree) -> (r: Tree)
    ensures
        r@ == t@,
    decreases size_of(t@),
{
    match t {
        Tree::Null => Tree::Null,
        Tree::Bool(b) => Tree::Bool(*b),
        Tree::Int(i) => Tree::Int(*i),
        Tree::Str(s) => Tree::Str(s.clone()),
        Tree::StrList(l) => Tree::StrList(clone_strings(l)),
        Tree::StrMap(m) => Tree::StrMap(m.clone()),
        Tree::Arr(elems) => {
            let ghost velems = view_of_values(elems@);
            proof {
                lemma_view_of_values_index(elems@);
            }
            let mut out: Vec<Tree> = Vec::new();
            let mut i: usize = 0;
            while i < elems.len()
                invariant
                    i <= elems.len(),
                    velems == view_of_values(elems@),
                    velems.len() == elems@.len(),
                    forall|k: int| 0 <= k < elems@.len() ==> #[trigger] velems[k] == elems@[k]@,
                    view_of_values(out@) == velems.subrange(0, i as int),
                    size_of(t@) == size_of(TreeView::Arr(velems)),
                decreases elems.len() - i,
            {
                let ghost out_before = out@;
                proof {
                    vstd::seq::axiom_seq_index_decreases(velems, i as int);
                    lemma_value_size(velems, i as int);
                }
                out.push(clone_tree(&elems[i]));
                proof {
                    assert(out@.drop_last() =~= out_before);
                    assert(view_of_values(out@) =~= velems.subrange(0, i + 1 as int));
                }
                i = i + 1;
            }
            proof {
                assert(velems.subrange(0, velems.len() as int) =~= velems);
            }
            Tree::Arr(out)
        }
        Tree::Obj(members) => {
            let ghost vms = view_of_members(members@);
            proof {
                lemma_view_of_members_index(members@);
            }
            let mut out: Vec<(u64, Tree)> = Vec::new();
            let mut i: usize = 0;
            while i < members.len()
                invariant
                    i <= members.len(),
                    vms == view_of_members(members@),
                    vms.len() == members@.len(),
                    forall|k: int| 0 <= k < members@.len() ==> #[trigger] vms[k] == (
                        members@[k].0 as nat,
                        members@[k].1@,
                    ),
                    view_of_members(out@) == vms.subrange(0, i as int),
                    size_of(t@) == size_of(TreeView::Obj(vms)),
                decreases members.len() - i,
            {
                let ghost out_before = out@;
                proof {
                    lemma_member_size(vms, i as int);
                }
                out.push((members[i].0, clone_tree(&members[i].1)));
                proof {
                    assert(out@.drop_last() =~= out_before);
                    assert(view_of_members(out@) =~= vms.subrange(0, i + 1 as int));
                }
                i = i + 1;
            }
            proof {
                assert(vms.subrange(0, vms.len() as int) =~= vms);
            }
            Tree::Obj(out)
        }
    }
}

/// Each array element is strictly smaller than the element list.
pub proof fn lemma_value_size(s: Seq<TreeView>, i: int)
    requires
        0 <= i < s.len(),
    ensures
        size_of(s[i]) < size_of_values(s),
    decreases s.len(),
{
    if i == s.len() - 1 {
        assert(s.last() == s[i]);
    } else {
        assert(s.drop_last()[i] == s[i]);
        lemma_value_size(s.drop_last(), i);
    }
}

/// Copy a string list, keeping its view.
pub fn clone_strings(l: &Vec<String>) -> (r: Vec<String>)
    ensures
        view_of_strings(r@) == view_of_strings(l@),
        r@.len() == l@.len(),
{
    let mut out: Vec<String> = Vec::new();
    let mut i: usize = 0;
    while i < l.len()
        invariant
            i <= l.len(),
            out@.len() == i,
            forall|k: int| 0 <= k < i ==> (#[trigger] out@[k])@ == l@[k]@,
        decreases l.len() - i,
    {
        out.push(l[i].clone());
        i = i + 1;
    }
    proof {
        assert(view_of_strings(out@) =~= view_of_strings(l@));
    }
    out
}

/// Strip `Null` members from objects, recursively.
pub fn strip_tree(t: &Tree) -> (r: Tree)
    ensures
        r@ == strip_nulls(t@),
    decreases size_of(t@),
{
    match t {
        Tree::Obj(members) => {
            let ghost vms = view_of_members(members@);
            proof {
                lemma_view_of_members_index(members@);
            }
            let mut out: Vec<(u64, Tree)> = Vec::new();
            proof {
                assert(vms.subrange(0, vms.len() as int) =~= vms);
                assert(view_of_members(out@) + strip_members(vms) =~= strip_members(vms));
            }
            let mut i: usize = 0;
            while i < members.len()
                invariant
                    i <= members.len(),
                    vms == view_of_members(members@),
                    vms.len() == members@.len(),
                    forall|k: int| 0 <= k < members@.len() ==> #[trigger] vms[k] == (
                        members@[k].0 as nat,
                        members@[k].1@,
                    ),
                    strip_members(vms) == view_of_members(out@) + strip_members(
                        vms.subrange(i as int, vms.len() as int),
                    ),
                    size_of(t@) == size_of(TreeView::Obj(vms)),
                decreases members.len() - i,
            {
                let ghost sub = vms.subrange(i as int, vms.len() as int);
                let ghost out_before = out@;
                proof {
                    assert(sub[0] == vms[i as int]);
                    assert(sub.subrange(1, sub.len() as int) =~= vms.subrange(
                        i + 1 as int,
                        vms.len() as int,
                    ));
                }
                if !members[i].1.is_null() {
                    proof {
                        lemma_member_size(vms, i as int);
                    }
                    out.push((members[i].0, strip_tree(&members[i].1)));
                    proof {
                        assert(out@.drop_last() =~= out_before);
                        assert(view_of_members(out@) =~= view_of_members(out_before).push(
                            (vms[i as int].0, strip_nulls(vms[i as int].1)),
                        ));
                        assert(view_of_members(out@) + strip_members(
                            vms.subrange(i + 1 as int, vms.len() as int),
                        ) =~= view_of_members(out_before) + strip_members(sub));
                    }
                } else {
                    proof {
                        assert(view_of_members(out@) + strip_members(
                            vms.subrange(i + 1 as int, vms.len() as int),
                        ) =~= view_of_members(out_before) + strip_members(sub));
                    }
                }
                i = i + 1;
            }
            proof {
                assert(vms.subrange(vms.len() as int, vms.len() as int) =~= Seq::<
                    (nat, TreeView),
                >::empty());
                assert(view_of_members(out@) =~= view_of_members(out@) + strip_members(
                    vms.subrange(vms.len() as int, vms.len() as int),
                ));
            }
            Tree::Obj(out)
        }
        _ => clone_tree(t),
    }
}

/// Merge a patch tree into a base tree; see [`merge_view`] for the rules.
pub fn merge_trees(d: &Tree, p: &Tree) -> (r: Tree)
    ensures
        r@ == merge_view(d@, p@),
    decreases size_of(d@) + size_of(p@),
{
    match p {
        Tree::Obj(pms) => {
            match d {
                Tree::Obj(dms) => {
                    let ghost vdms = view_of_members(dms@);
                    let ghost vpms = view_of_members(pms@);
                    proof {
                        lemma_view_of_members_index(dms@);
                        lemma_view_of_members_index(pms@);
                    }
                    let mut out: Vec<(u64, Tree)> = Vec::new();
                    proof {
                        assert(vdms.subrange(0, vdms.len() as int) =~= vdms);
                        assert(view_of_members(out@) + merge_updates(vdms, vpms) =~= merge_updates(
                            vdms,
                            vpms,
                        ));
                    }
                    let mut i: usize = 0;
                    while i < dms.len()
                        invariant
                            i <= dms.len(),
                            vdms == view_of_members(dms@),
                            vpms == view_of_members(pms@),
                            vdms.len() == dms@.len(),
                            vpms.len() == pms@.len(),
                            forall|k: int| 0 <= k < dms@.len() ==> #[trigger] vdms[k] == (
                                dms@[k].0 as nat,
                                dms@[k].1@,
                            ),
                            merge_updates(vdms, vpms) == view_of_members(out@) + merge_updates(
                                vdms.subrange(i as int, vdms.len() as int),
                                vpms,
                            ),
                            size_of(d@) == size_of(TreeView::Obj(vdms)),
                            size_of(p@) == size_of(TreeView::Obj(vpms)),
                        decreases dms.len() - i,
                    {
                        let ghost sub = vdms.subrange(i as int, vdms.len() as int);
                        let ghost out_before = out@;
                        proof {
                            assert(sub[0] == vdms[i as int]);
                            assert(sub.subrange(1, sub.len() as int) =~= vdms.subrange(
                                i + 1 as int,
                                vdms.len() as int,
                            ));
                        }
                        match obj_get(pms, dms[i].0) {
                            None => {
                                out.push((dms[i].0, clone_tree(&dms[i].1)));
                                proof {
                                    assert(out@.drop_last() =~= out_before);
                                    assert(view_of_members(out@) =~= view_of_members(
                                        out_before,
                                    ).push(sub[0]));
                                    assert(view_of_members(out@) + merge_updates(
                                        vdms.subrange(i + 1 as int, vdms.len() as int),
                                        vpms,
                                    ) =~= view_of_members(out_before) + merge_updates(sub, vpms));
                                }
                            }
                            Some(pv) => {
                                if pv.is_null() {
                                    proof {
                                        assert(view_of_members(out@) + merge_updates(
                                            vdms.subrange(i + 1 as int, vdms.len() as int),
                                            vpms,
                                        ) =~= view_of_members(out_before) + merge_updates(
                                            sub,
                                            vpms,
                                        ));
                                    }
                                } else {
                                    proof {
                                        lemma_member_size(vdms, i as int);
                                        lemma_tree_get_size(vpms, vdms[i as int].0);
                                    }
                                    let merged = merge_trees(&dms[i].1, pv);
                                    out.push((dms[i].0, merged));
                                    proof {
                                        assert(out@.drop_last() =~= out_before);
                                        assert(view_of_members(out@) =~= view_of_members(
                                            out_before,
                                        ).push(
                                            (sub[0].0, merge_view(sub[0].1, pv@)),
                                        ));
                                        assert(view_of_members(out@) + merge_updates(
                                            vdms.subrange(i + 1 as int, vdms.len() as int),
                                            vpms,
                                        ) =~= view_of_members(out_before) + merge_updates(
                                            sub,
                                            vpms,
                                        ));
                                    }
                                }
                            }
                        }
                        i = i + 1;
                    }
                    proof {
                        assert(vdms.subrange(vdms.len() as int, vdms.len() as int) =~= Seq::<
                            (nat, TreeView),
                        >::empty());
                        assert(view_of_members(out@) =~= merge_updates(vdms, vpms));
                    }
                    let ghost updates = view_of_members(out@);
                    proof {
                        assert(vpms.subrange(0, vpms.len() as int) =~= vpms);
                        assert(updates + merge_additions(vpms, vdms) =~= view_of_members(out@)
                            + merge_additions(vpms, vdms));
                    }
                    let mut j: usize = 0;
                    while j < pms.len()
                        invariant
                            j <= pms.len(),
                            vdms == view_of_members(dms@),
                            vpms == view_of_members(pms@),
                            vpms.len() == pms@.len(),
                            forall|k: int| 0 <= k < pms@.len() ==> #[trigger] vpms[k] == (
                                pms@[k].0 as nat,
                                pms@[k].1@,
                            ),
                            updates == merge_updates(vdms, vpms),
                            updates + merge_additions(vpms, vdms) == view_of_members(out@)
                                + merge_additions(vpms.subrange(j as int, vpms.len() as int), vdms),
                            size_of(p@) == size_of(TreeView::Obj(vpms)),
                        decreases pms.len() - j,
                    {
                        let ghost sub = vpms.subrange(j as int, vpms.len() as int);
                        let ghost out_before = out@;
                        proof {
                            assert(sub[0] == vpms[j as int]);
                            assert(sub.subrange(1, sub.len() as int) =~= vpms.subrange(
                                j + 1 as int,
                                vpms.len() as int,
                            ));
                        }
                        let absent = match obj_get(dms, pms[j].0) {
                            None => true,
                            Some(_) => false,
                        };
                        if absent && !pms[j].1.is_null() {
                            proof {
                                lemma_member_size(vpms, j as int);
                            }
                            out.push((pms[j].0, strip_tree(&pms[j].1)));
                            proof {
                                assert(out@.drop_last() =~= out_before);
                                assert(view_of_members(out@) =~= view_of_members(out_before).push(
                                    (sub[0].0, strip_nulls(sub[0].1)),
                                ));
                                assert(view_of_members(out@) + merge_additions(
                                    vpms.subrange(j + 1 as int, vpms.len() as int),
                                    vdms,
                                ) =~= view_of_members(out_before) + merge_additions(sub, vdms));
                            }
                        } else {
                            proof {
                                assert(view_of_members(out@) + merge_additions(
                                    vpms.subrange(j + 1 as int, vpms.len() as int),
                                    vdms,
                                ) =~= view_of_members(out_before) + merge_additions(sub, vdms));
                            }
                        }
                        j = j + 1;
                    }
                    proof {
                        assert(vpms.subrange(vpms.len() as int, vpms.len() as int) =~= Seq::<
                            (nat, TreeView),
                        >::empty());
                        assert(view_of_members(out@) =~= merge_updates(vdms, vpms)
                            + merge_additions(vpms, vdms));
                    }
                    Tree::Obj(out)
                }
                _ => strip_tree(p),
            }
        }
        Tree::StrMap(pm) => {
            match d {
                Tree::StrMap(dm) => {
                    let mut m = dm.clone();
                    m.extend(pm);
                    Tree::StrMap(m)
                }
                _ => Tree::StrMap(pm.clone()),
            }
        }
        _ => clone_tree(p),
    }
}

} // verus!
