//! Encoding of specification values onto the tree-structured intermediate
//! form, decoding back, and the template merge itself.
//!
//! Every specification struct is encoded as a tree object whose members are
//! keyed by small integer field tags, assigned in ascending order; absent
//! optional fields are omitted.  Decoding accepts members in any order,
//! ignores unknown tags, and rejects wrongly shaped values, which is exactly
//! the failure mode of a merged tree whose two sides disagree about a
//! field's shape.

use vstd::prelude::*;

use crate::conf::ConfMap;
use crate::spark_application::catalog_def_same;
use crate::spark_application::conn_def_same;
use crate::spark_application::env_set_def_same;
use crate::spark_application::olist;
use crate::spark_application::omap;
use crate::spark_application::ostr;
use crate::tree::Tree;
use crate::tree::merge_view;
use crate::tree::TreeView;
use crate::tree::tree_get;
use crate::tree::unique_keys;
use crate::tree::view_of_members;
use crate::tree::view_of_strings;
use crate::tree::wf_view;

verus! {

/// A single member.
pub open spec fn m_val(tag: u64, v: TreeView) -> Seq<(nat, TreeView)> {
    seq![(tag as nat, v)]
}

/// A member that is omitted when the field is absent.
pub open spec fn m_opt_val(tag: u64, v: Option<TreeView>) -> Seq<(nat, TreeView)> {
    match v {
        Some(x) => seq![(tag as nat, x)],
        None => Seq::empty(),
    }
}

/// The slot a string encodes to.
pub open spec fn slot_of_str(s: Seq<char>) -> Option<TreeView> {
    Some(TreeView::Str(s))
}

/// The slot an optional string encodes to.
pub open spec fn slot_of_opt_str(s: Option<Seq<char>>) -> Option<TreeView> {
    match s {
        Some(x) => Some(TreeView::Str(x)),
        None => None,
    }
}

/// The slot an optional integer encodes to.
pub open spec fn slot_of_opt_int(v: Option<int>) -> Option<TreeView> {
    match v {
        Some(x) => Some(TreeView::Int(x)),
        None => None,
    }
}

/// The slot an optional boolean encodes to.
pub open spec fn slot_of_opt_bool(v: Option<bool>) -> Option<TreeView> {
    match v {
        Some(x) => Some(TreeView::Bool(x)),
        None => None,
    }
}

/// The slot an optional string list encodes to.
pub open spec fn slot_of_opt_list(v: Option<Seq<Seq<char>>>) -> Option<TreeView> {
    match v {
        Some(x) => Some(TreeView::StrList(x)),
        None => None,
    }
}

/// The slot an optional string map encodes to.
pub open spec fn slot_of_opt_map(v: Option<Map<Seq<char>, Seq<char>>>) -> Option<TreeView> {
    match v {
        Some(x) => Some(TreeView::StrMap(x)),
        None => None,
    }
}

/// A required string member.
pub open spec fn m_str(tag: u64, s: Seq<char>) -> Seq<(nat, TreeView)> {
    m_opt_val(tag, slot_of_str(s))
}

/// An optional string member.
pub open spec fn m_opt_str(tag: u64, s: Option<Seq<char>>) -> Seq<(nat, TreeView)> {
    m_opt_val(tag, slot_of_opt_str(s))
}

/// An optional integer member.
pub open spec fn m_opt_int(tag: u64, v: Option<int>) -> Seq<(nat, TreeView)> {
    m_opt_val(tag, slot_of_opt_int(v))
}

/// An optional boolean member.
pub open spec fn m_opt_bool(tag: u64, v: Option<bool>) -> Seq<(nat, TreeView)> {
    m_opt_val(tag, slot_of_opt_bool(v))
}

/// An optional string-list member.
pub open spec fn m_opt_list(tag: u64, v: Option<Seq<Seq<char>>>) -> Seq<(nat, TreeView)> {
    m_opt_val(tag, slot_of_opt_list(v))
}

/// An optional string-map member.
pub open spec fn m_opt_map(tag: u64, v: Option<Map<Seq<char>, Seq<char>>>) -> Seq<
    (nat, TreeView),
> {
    m_opt_val(tag, slot_of_opt_map(v))
}

/// Looking a tag up in a one-member part finds the member exactly when the
/// tags agree.
pub proof fn lemma_tree_get_opt_val(tag: u64, ov: Option<TreeView>)
    ensures
        forall|k: nat| #[trigger]
            tree_get(m_opt_val(tag, ov), k) == if k == tag as nat {
                ov
            } else {
                None::<TreeView>
            },
{
    assert forall|k: nat| #[trigger]
        tree_get(m_opt_val(tag, ov), k) == if k == tag as nat {
            ov
        } else {
            None::<TreeView>
        } by {
        reveal_with_fuel(tree_get, 3);
        match ov {
            Some(v) => {
                let ms = m_opt_val(tag, ov);
                assert(ms.len() == 1);
                assert(ms[0] == (tag as nat, v));
                if k == tag as nat {
                    assert(tree_get(ms, k) == Some(v));
                } else {
                    assert(ms.subrange(1, 1) =~= Seq::<(nat, TreeView)>::empty());
                    assert(tree_get(ms, k) == tree_get(ms.subrange(1, 1), k));
                    assert(tree_get(ms, k) is None);
                }
            }
            None => {
                assert(m_opt_val(tag, ov).len() == 0);
                assert(m_opt_val(tag, ov) =~= Seq::<(nat, TreeView)>::empty());
                assert(tree_get(m_opt_val(tag, ov), k) is None);
            }
        }
    }
}

/// Append one member to an object under construction.
pub fn push_member(out: &mut Vec<(u64, Tree)>, tag: u64, t: Tree)
    ensures
        view_of_members(final(out)@) == view_of_members(old(out)@) + seq![(tag as nat, t@)],
{
    let ghost before = out@;
    out.push((tag, t));
    proof {
        assert(out@.drop_last() =~= before);
        assert(view_of_members(out@) =~= view_of_members(before) + seq![(tag as nat, t@)]);
    }
}

/// Concatenating the empty member list changes nothing.
pub proof fn lemma_add_empty(s: Seq<(nat, TreeView)>)
    ensures
        s + Seq::<(nat, TreeView)>::empty() == s,
{
    assert(s + Seq::<(nat, TreeView)>::empty() =~= s);
}

/// All tags in the list lie below the bound.
pub open spec fn keys_lt(ms: Seq<(nat, TreeView)>, bound: nat) -> bool {
    forall|i: int| 0 <= i < ms.len() ==> (#[trigger] ms[i]).0 < bound
}

/// All values in the list are non-null and well formed.
pub open spec fn vals_wf(ms: Seq<(nat, TreeView)>) -> bool {
    forall|i: int| 0 <= i < ms.len() ==> !((#[trigger] ms[i]).1 is Null) && wf_view(ms[i].1)
}

/// Appending a part whose tags lie at or above the previous bound keeps the
/// member list canonical: tags stay unique and below the new bound, values
/// stay well formed.
pub proof fn lemma_canon_extend(
    a: Seq<(nat, TreeView)>,
    part: Seq<(nat, TreeView)>,
    bound: nat,
    newbound: nat,
)
    requires
        bound <= newbound,
        unique_keys(a),
        keys_lt(a, bound),
        vals_wf(a),
        unique_keys(part),
        vals_wf(part),
        forall|i: int| 0 <= i < part.len() ==> bound <= (#[trigger] part[i]).0 < newbound,
    ensures
        unique_keys(a + part),
        keys_lt(a + part, newbound),
        vals_wf(a + part),
{
    let c = a + part;
    assert forall|i: int, j: int| 0 <= i < j < c.len() implies (#[trigger] c[i]).0 != (
    #[trigger] c[j]).0 by {
        if i < a.len() {
            assert(c[i] == a[i]);
        } else {
            assert(c[i] == part[i - a.len()]);
        }
        if j < a.len() {
            assert(c[j] == a[j]);
        } else {
            assert(c[j] == part[j - a.len()]);
        }
    }
    assert forall|i: int| 0 <= i < c.len() implies (#[trigger] c[i]).0 < newbound && !(c[i].1
        is Null) && wf_view(c[i].1) by {
        if i < a.len() {
            assert(c[i] == a[i]);
        } else {
            assert(c[i] == part[i - a.len()]);
        }
    }
}

/// Lookup distributes over concatenation: the left part wins when it has
/// the tag.
pub proof fn lemma_tree_get_concat(a: Seq<(nat, TreeView)>, b: Seq<(nat, TreeView)>)
    ensures
        forall|k: nat| #[trigger]
            tree_get(a + b, k) == if tree_get(a, k) is Some {
                tree_get(a, k)
            } else {
                tree_get(b, k)
            },
    decreases a.len(),
{
    if a.len() == 0 {
        assert forall|k: nat| #[trigger] tree_get(a + b, k) == tree_get(b, k) by {
            assert(a + b =~= b);
        }
    } else {
        lemma_tree_get_concat(a.subrange(1, a.len() as int), b);
        assert forall|k: nat| #[trigger]
            tree_get(a + b, k) == if tree_get(a, k) is Some {
                tree_get(a, k)
            } else {
                tree_get(b, k)
            } by {
            let c = a + b;
            assert(c[0] == a[0]);
            assert(c.subrange(1, c.len() as int) =~= a.subrange(1, a.len() as int) + b);
            if c[0].0 != k {
                assert(tree_get(c, k) == tree_get(a.subrange(1, a.len() as int) + b, k));
            }
        }
    }
}

/// A member list whose tags all lie below a bound has no member at or
/// above it.
pub proof fn lemma_tree_get_none_high(ms: Seq<(nat, TreeView)>, bound: nat)
    requires
        keys_lt(ms, bound),
    ensures
        forall|k: nat| k >= bound ==> #[trigger] tree_get(ms, k) is None,
    decreases ms.len(),
{
    if ms.len() > 0 {
        let t = ms.subrange(1, ms.len() as int);
        assert forall|i: int| 0 <= i < t.len() implies (#[trigger] t[i]).0 < bound by {
            assert(t[i] == ms[i + 1]);
        }
        lemma_tree_get_none_high(t, bound);
        assert forall|k: nat| k >= bound implies #[trigger] tree_get(ms, k) is None by {
            assert(ms[0].0 < bound);
            assert(tree_get(t, k) is None);
            assert(tree_get(ms, k) == tree_get(ms.subrange(1, ms.len() as int), k));
        }
    }
}

/// The view of an optional borrowed tree.
pub open spec fn oview(o: Option<&Tree>) -> Option<TreeView> {
    match o {
        Some(t) => Some(t@),
        None => None,
    }
}

/// Whether a slot can decode as an optional string.
pub open spec fn slot_opt_str_ok(s: Option<TreeView>) -> bool {
    match s {
        None => true,
        Some(TreeView::Str(_)) => true,
        _ => false,
    }
}

/// The optional string a slot decodes to.
pub open spec fn slot_opt_str(s: Option<TreeView>) -> Option<Seq<char>> {
    match s {
        Some(TreeView::Str(x)) => Some(x),
        _ => None,
    }
}

/// Whether a slot can decode as a string with an empty default.
pub open spec fn slot_str_default_ok(s: Option<TreeView>) -> bool {
    slot_opt_str_ok(s)
}

/// The string a slot decodes to, defaulting to empty.
pub open spec fn slot_str_default(s: Option<TreeView>) -> Seq<char> {
    match s {
        Some(TreeView::Str(x)) => x,
        _ => Seq::empty(),
    }
}

/// Whether a slot can decode as an optional 32-bit integer.
pub open spec fn slot_opt_i32_ok(s: Option<TreeView>) -> bool {
    match s {
        None => true,
        Some(TreeView::Int(v)) => i32::MIN <= v <= i32::MAX,
        _ => false,
    }
}

/// The optional 32-bit integer a slot decodes to.
pub open spec fn slot_opt_i32(s: Option<TreeView>) -> Option<int> {
    match s {
        Some(TreeView::Int(v)) => Some(v),
        _ => None,
    }
}

/// Whether a slot can decode as an optional 64-bit integer.
pub open spec fn slot_opt_i64_ok(s: Option<TreeView>) -> bool {
    match s {
        None => true,
        Some(TreeView::Int(_)) => true,
        _ => false,
    }
}

/// The optional 64-bit integer a slot decodes to.
pub open spec fn slot_opt_i64(s: Option<TreeView>) -> Option<int> {
    match s {
        Some(TreeView::Int(v)) => Some(v),
        _ => None,
    }
}

/// Whether a slot can decode as an optional 16-bit port number.
pub open spec fn slot_opt_u16_ok(s: Option<TreeView>) -> bool {
    match s {
        None => true,
        Some(TreeView::Int(v)) => 0 <= v <= u16::MAX,
        _ => false,
    }
}

/// Whether a slot can decode as an optional boolean.
pub open spec fn slot_opt_bool_ok(s: Option<TreeView>) -> bool {
    match s {
        None => true,
        Some(TreeView::Bool(_)) => true,
        _ => false,
    }
}

/// The optional boolean a slot decodes to.
pub open spec fn slot_opt_bool(s: Option<TreeView>) -> Option<bool> {
    match s {
        Some(TreeView::Bool(v)) => Some(v),
        _ => None,
    }
}

/// Whether a slot can decode as an optional string list.
pub open spec fn slot_opt_list_ok(s: Option<TreeView>) -> bool {
    match s {
        None => true,
        Some(TreeView::StrList(_)) => true,
        _ => false,
    }
}

/// The optional string list a slot decodes to.
pub open spec fn slot_opt_list(s: Option<TreeView>) -> Option<Seq<Seq<char>>> {
    match s {
        Some(TreeView::StrList(x)) => Some(x),
        _ => None,
    }
}

/// Whether a slot can decode as an optional string map.
pub open spec fn slot_opt_map_ok(s: Option<TreeView>) -> bool {
    match s {
        None => true,
        Some(TreeView::StrMap(_)) => true,
        _ => false,
    }
}

/// The optional string map a slot decodes to.
pub open spec fn slot_opt_map(s: Option<TreeView>) -> Option<Map<Seq<char>, Seq<char>>> {
    match s {
        Some(TreeView::StrMap(x)) => Some(x),
        _ => None,
    }
}

/// Decode an optional string slot.
pub fn dec_opt_str(o: Option<&Tree>) -> (r: Result<Option<String>, ()>)
    ensures
        r is Ok <==> slot_opt_str_ok(oview(o)),
        r matches Ok(v) ==> crate::spark_application::ostr(&v) == slot_opt_str(oview(o)),
{
    match o {
        None => Ok(None),
        Some(Tree::Str(s)) => Ok(Some(s.clone())),
        Some(_) => Err(()),
    }
}

/// Decode a string slot with an empty default.
pub fn dec_str_default(o: Option<&Tree>) -> (r: Result<String, ()>)
    ensures
        r is Ok <==> slot_str_default_ok(oview(o)),
        r matches Ok(v) ==> v@ == slot_str_default(oview(o)),
{
    match o {
        None => Ok(String::new()),
        Some(Tree::Str(s)) => Ok(s.clone()),
        Some(_) => Err(()),
    }
}

/// Decode an optional 32-bit integer slot, rejecting out-of-range values.
pub fn dec_opt_i32(o: Option<&Tree>) -> (r: Result<Option<i32>, ()>)
    ensures
        r is Ok <==> slot_opt_i32_ok(oview(o)),
        r matches Ok(v) ==> match v {
            Some(x) => slot_opt_i32(oview(o)) == Some(x as int),
            None => slot_opt_i32(oview(o)) is None,
        },
{
    match o {
        None => Ok(None),
        Some(Tree::Int(v)) => {
            if *v >= i32::MIN as i64 && *v <= i32::MAX as i64 {
                Ok(Some(*v as i32))
            } else {
                Err(())
            }
        }
        Some(_) => Err(()),
    }
}

/// Decode an optional 64-bit integer slot.
pub fn dec_opt_i64(o: Option<&Tree>) -> (r: Result<Option<i64>, ()>)
    ensures
        r is Ok <==> slot_opt_i64_ok(oview(o)),
        r matches Ok(v) ==> match v {
            Some(x) => slot_opt_i64(oview(o)) == Some(x as int),
            None => slot_opt_i64(oview(o)) is None,
        },
{
    match o {
        None => Ok(None),
        Some(Tree::Int(v)) => Ok(Some(*v)),
        Some(_) => Err(()),
    }
}

/// Decode an optional port-number slot, rejecting out-of-range values.
pub fn dec_opt_u16(o: Option<&Tree>) -> (r: Result<Option<u16>, ()>)
    ensures
        r is Ok <==> slot_opt_u16_ok(oview(o)),
        r matches Ok(v) ==> match v {
            Some(x) => slot_opt_i64(oview(o)) == Some(x as int),
            None => slot_opt_i64(oview(o)) is None,
        },
{
    match o {
        None => Ok(None),
        Some(Tree::Int(v)) => {
            if *v >= 0 && *v <= u16::MAX as i64 {
                Ok(Some(*v as u16))
            } else {
                Err(())
            }
        }
        Some(_) => Err(()),
    }
}

/// Decode an optional boolean slot.
pub fn dec_opt_bool(o: Option<&Tree>) -> (r: Result<Option<bool>, ()>)
    ensures
        r is Ok <==> slot_opt_bool_ok(oview(o)),
        r matches Ok(v) ==> v == slot_opt_bool(oview(o)),
{
    match o {
        None => Ok(None),
        Some(Tree::Bool(b)) => Ok(Some(*b)),
        Some(_) => Err(()),
    }
}

/// Decode an optional string-list slot.
pub fn dec_opt_list(o: Option<&Tree>) -> (r: Result<Option<Vec<String>>, ()>)
    ensures
        r is Ok <==> slot_opt_list_ok(oview(o)),
        r matches Ok(v) ==> crate::spark_application::olist(&v) == slot_opt_list(oview(o)),
{
    match o {
        None => Ok(None),
        Some(Tree::StrList(l)) => Ok(Some(crate::tree::clone_strings(l))),
        Some(_) => Err(()),
    }
}

/// Decode an optional string-map slot.
pub fn dec_opt_map(o: Option<&Tree>) -> (r: Result<Option<ConfMap>, ()>)
    ensures
        r is Ok <==> slot_opt_map_ok(oview(o)),
        r matches Ok(v) ==> crate::spark_application::omap(&v) == slot_opt_map(oview(o)),
{
    match o {
        None => Ok(None),
        Some(Tree::StrMap(m)) => Ok(Some(m.clone())),
        Some(_) => Err(()),
    }
}

/// The view of an optional 32-bit integer.
pub open spec fn oi32(o: Option<i32>) -> Option<int> {
    match o {
        Some(v) => Some(v as int),
        None => None,
    }
}

/// The view of an optional 64-bit integer.
pub open spec fn oi64(o: Option<i64>) -> Option<int> {
    match o {
        Some(v) => Some(v as int),
        None => None,
    }
}


/// The view of an optional port number.
pub open spec fn ou16(o: Option<u16>) -> Option<int> {
    match o {
        Some(v) => Some(v as int),
        None => None,
    }
}

/// The wire name of an optional pull policy.
pub open spec fn opull(o: Option<crate::spark_application::ImagePullPolicy>) -> Option<Seq<char>> {
    match o {
        Some(p) => Some(crate::spark_application::pull_policy_name(p)),
        None => None,
    }
}

/// The wire name of an optional access style.
pub open spec fn oaccess(o: Option<crate::s3::S3AccessStyle>) -> Option<Seq<char>> {
    match o {
        Some(p) => Some(crate::s3::access_style_name(p)),
        None => None,
    }
}

/// Whether a slot can decode as a required string.
pub open spec fn slot_str_req_ok(s: Option<TreeView>) -> bool {
    s matches Some(TreeView::Str(_))
}

/// The string a required slot decodes to.
pub open spec fn slot_str_req(s: Option<TreeView>) -> Seq<char> {
    match s {
        Some(TreeView::Str(x)) => x,
        _ => Seq::empty(),
    }
}

/// Whether a slot can decode as a required 32-bit integer.
pub open spec fn slot_i32_req_ok(s: Option<TreeView>) -> bool {
    match s {
        Some(TreeView::Int(v)) => i32::MIN <= v <= i32::MAX,
        _ => false,
    }
}

/// The integer a required slot decodes to.
pub open spec fn slot_int_req(s: Option<TreeView>) -> int {
    match s {
        Some(TreeView::Int(v)) => v,
        _ => 0,
    }
}

/// Whether a slot can decode as a required boolean.
pub open spec fn slot_bool_req_ok(s: Option<TreeView>) -> bool {
    s matches Some(TreeView::Bool(_))
}

/// The boolean a required slot decodes to.
pub open spec fn slot_bool_req(s: Option<TreeView>) -> bool {
    match s {
        Some(TreeView::Bool(b)) => b,
        _ => false,
    }
}

/// Whether a slot can decode as an optional pull policy.
pub open spec fn slot_opt_pull_ok(s: Option<TreeView>) -> bool {
    match s {
        None => true,
        Some(TreeView::Str(x)) => crate::spark_application::pull_policy_of(x) is Some,
        _ => false,
    }
}

/// The optional pull policy a slot decodes to.
pub open spec fn slot_opt_pull(s: Option<TreeView>) -> Option<
    crate::spark_application::ImagePullPolicy,
> {
    match s {
        Some(TreeView::Str(x)) => crate::spark_application::pull_policy_of(x),
        _ => None,
    }
}

/// Whether a slot can decode as an optional access style.
pub open spec fn slot_opt_access_ok(s: Option<TreeView>) -> bool {
    match s {
        None => true,
        Some(TreeView::Str(x)) => crate::s3::access_style_of(x) is Some,
        _ => false,
    }
}

/// The optional access style a slot decodes to.
pub open spec fn slot_opt_access(s: Option<TreeView>) -> Option<crate::s3::S3AccessStyle> {
    match s {
        Some(TreeView::Str(x)) => crate::s3::access_style_of(x),
        _ => None,
    }
}

/// Decode a required string slot.
pub fn dec_str_req(o: Option<&Tree>) -> (r: Result<String, ()>)
    ensures
        r is Ok <==> slot_str_req_ok(oview(o)),
        r matches Ok(v) ==> v@ == slot_str_req(oview(o)),
{
    match o {
        Some(Tree::Str(s)) => Ok(s.clone()),
        _ => Err(()),
    }
}

/// Decode a required 32-bit integer slot.
pub fn dec_i32_req(o: Option<&Tree>) -> (r: Result<i32, ()>)
    ensures
        r is Ok <==> slot_i32_req_ok(oview(o)),
        r matches Ok(v) ==> v as int == slot_int_req(oview(o)),
{
    match o {
        Some(Tree::Int(v)) => {
            if *v >= i32::MIN as i64 && *v <= i32::MAX as i64 {
                Ok(*v as i32)
            } else {
                Err(())
            }
        }
        _ => Err(()),
    }
}

/// Decode a required boolean slot.
pub fn dec_bool_req(o: Option<&Tree>) -> (r: Result<bool, ()>)
    ensures
        r is Ok <==> slot_bool_req_ok(oview(o)),
        r matches Ok(v) ==> v == slot_bool_req(oview(o)),
{
    match o {
        Some(Tree::Bool(b)) => Ok(*b),
        _ => Err(()),
    }
}

/// Decode an optional pull-policy slot.
pub fn dec_opt_pull(o: Option<&Tree>) -> (r: Result<
    Option<crate::spark_application::ImagePullPolicy>,
    (),
>)
    ensures
        r is Ok <==> slot_opt_pull_ok(oview(o)),
        r matches Ok(v) ==> v == slot_opt_pull(oview(o)),
{
    match o {
        None => Ok(None),
        Some(Tree::Str(s)) => {
            match crate::spark_application::ImagePullPolicy::parse(s) {
                Some(p) => Ok(Some(p)),
                None => Err(()),
            }
        }
        Some(_) => Err(()),
    }
}

/// Decode an optional access-style slot.
pub fn dec_opt_access(o: Option<&Tree>) -> (r: Result<Option<crate::s3::S3AccessStyle>, ()>)
    ensures
        r is Ok <==> slot_opt_access_ok(oview(o)),
        r matches Ok(v) ==> v == slot_opt_access(oview(o)),
{
    match o {
        None => Ok(None),
        Some(Tree::Str(s)) => {
            match crate::s3::S3AccessStyle::parse(s) {
                Some(p) => Ok(Some(p)),
                None => Err(()),
            }
        }
        Some(_) => Err(()),
    }
}

/// Parsing a pull policy's own wire name gives the policy back.
pub proof fn lemma_pull_policy_roundtrip(p: crate::spark_application::ImagePullPolicy)
    ensures
        crate::spark_application::pull_policy_of(crate::spark_application::pull_policy_name(p))
            == Some(p),
{
    reveal_strlit("Always");
    reveal_strlit("IfNotPresent");
    reveal_strlit("Never");
    assert("Always"@.len() == 6);
    assert("IfNotPresent"@.len() == 12);
    assert("Never"@.len() == 5);
}

/// Parsing an access style's own wire name gives the style back.
pub proof fn lemma_access_style_roundtrip(p: crate::s3::S3AccessStyle)
    ensures
        crate::s3::access_style_of(crate::s3::access_style_name(p)) == Some(p),
{
    reveal_strlit("Path");
    reveal_strlit("VirtualHosted");
    assert("Path"@.len() == 4);
    assert("VirtualHosted"@.len() == 13);
}

pub const PORT_TAG_NAME: u64 = 1;

pub const PORT_TAG_PROTOCOL: u64 = 2;

pub const PORT_TAG_CONTAINER_PORT: u64 = 3;

/// The encoded members of a port definition.
pub open spec fn port_members(s: &crate::spark_application::Port) -> Seq<(nat, TreeView)> {
    m_str(PORT_TAG_NAME, s.name@) + m_str(PORT_TAG_PROTOCOL, s.protocol@) + m_opt_val(PORT_TAG_CONTAINER_PORT, Some(TreeView::Int(s.container_port as int)))
}

/// The encoded tree of a port definition.
pub open spec fn port_view(s: &crate::spark_application::Port) -> TreeView {
    TreeView::Obj(port_members(s))
}

/// The encoded trees of a list of these values.
pub open spec fn port_views(s: Seq<crate::spark_application::Port>) -> Seq<TreeView> {
    Seq::new(s.len(), |i: int| port_view(&s[i]))
}

/// Encode a port definition.
pub fn port_to_tree(s: &crate::spark_application::Port) -> (r: Tree)
    ensures
        r@ == port_view(s),
{
    let mut out: Vec<(u64, Tree)> = Vec::new();
    let ghost acc = Seq::<(nat, TreeView)>::empty();
    proof {
        assert(view_of_members(out@) =~= acc);
    }
    push_member(&mut out, PORT_TAG_NAME, Tree::Str(s.name.clone()));
    proof {
        lemma_add_empty(acc);
        acc = acc + m_str(PORT_TAG_NAME, s.name@);
        assert(view_of_members(out@) == acc);
    }
    push_member(&mut out, PORT_TAG_PROTOCOL, Tree::Str(s.protocol.clone()));
    proof {
        lemma_add_empty(acc);
        acc = acc + m_str(PORT_TAG_PROTOCOL, s.protocol@);
        assert(view_of_members(out@) == acc);
    }
    push_member(&mut out, PORT_TAG_CONTAINER_PORT, Tree::Int(s.container_port as i64));
    proof {
        lemma_add_empty(acc);
        acc = acc + m_opt_val(PORT_TAG_CONTAINER_PORT, Some(TreeView::Int(s.container_port as int)));
        assert(view_of_members(out@) == acc);
    }
    proof {
        assert(acc == port_members(s));
    }
    Tree::Obj(out)
}

/// Whether a tree decodes as a port definition.
pub open spec fn port_shaped(t: TreeView) -> bool {
    match t {
        TreeView::Obj(ms) => {
            &&& slot_str_req_ok(tree_get(ms, PORT_TAG_NAME as nat))
            &&& slot_str_req_ok(tree_get(ms, PORT_TAG_PROTOCOL as nat))
            &&& slot_i32_req_ok(tree_get(ms, PORT_TAG_CONTAINER_PORT as nat))
        }
        _ => false,
    }
}

/// How a decoded value relates to the tree it came from.
pub open spec fn port_decodes(x: &crate::spark_application::Port, t: TreeView) -> bool {
    match t {
        TreeView::Obj(ms) => {
            &&& x.name@ == slot_str_req(tree_get(ms, PORT_TAG_NAME as nat))
            &&& x.protocol@ == slot_str_req(tree_get(ms, PORT_TAG_PROTOCOL as nat))
            &&& x.container_port as int == slot_int_req(tree_get(ms, PORT_TAG_CONTAINER_PORT as nat))
        }
        _ => false,
    }
}

/// Decode a port definition.
pub fn port_from_tree(t: &Tree) -> (r: Result<crate::spark_application::Port, ()>)
    ensures
        r is Ok <==> port_shaped(t@),
        r matches Ok(x) ==> port_decodes(&x, t@),
{
    match t {
        Tree::Obj(ms) => {
            proof {
                crate::tree::lemma_view_of_members_index(ms@);
            }
            let name = match dec_str_req(crate::tree::obj_get(ms, PORT_TAG_NAME)) {
                Ok(v) => v,
                Err(_) => {
                    return Err(());
                }
            };
            let protocol = match dec_str_req(crate::tree::obj_get(ms, PORT_TAG_PROTOCOL)) {
                Ok(v) => v,
                Err(_) => {
                    return Err(());
                }
            };
            let container_port = match dec_i32_req(crate::tree::obj_get(ms, PORT_TAG_CONTAINER_PORT)) {
                Ok(v) => v,
                Err(_) => {
                    return Err(());
                }
            };
            Ok(crate::spark_application::Port { name, protocol, container_port })
        }
        _ => Err(()),
    }
}

/// Encode a list of these values.
pub fn port_list_to_trees(v: &Vec<crate::spark_application::Port>) -> (r: Vec<Tree>)
    ensures
        crate::tree::view_of_values(r@) == port_views(v@),
{
    let mut elems: Vec<Tree> = Vec::new();
    let mut i: usize = 0;
    proof {
        assert(crate::tree::view_of_values(elems@) =~= port_views(v@.subrange(0, 0)));
    }
    while i < v.len()
        invariant
            i <= v.len(),
            crate::tree::view_of_values(elems@) == port_views(v@.subrange(0, i as int)),
        decreases v.len() - i,
    {
        let ghost before = elems@;
        elems.push(port_to_tree(&v[i]));
        proof {
            assert(elems@.drop_last() =~= before);
            assert(crate::tree::view_of_values(elems@) =~= port_views(
                v@.subrange(0, i + 1 as int),
            ));
        }
        i = i + 1;
    }
    proof {
        assert(v@.subrange(0, v@.len() as int) =~= v@);
        assert(port_views(v@.subrange(0, v@.len() as int)) =~= port_views(v@));
    }
    elems
}

/// Decode a list of these values; every element must be rightly shaped.
pub fn port_list_from_trees(es: &Vec<Tree>) -> (r: Result<Vec<crate::spark_application::Port>, ()>)
    ensures
        r is Ok <==> ports_all_shaped(crate::tree::view_of_values(es@)),
        r matches Ok(v) ==> ports_all_decode(v@, crate::tree::view_of_values(es@)),
{
    proof {
        crate::tree::lemma_view_of_values_index(es@);
    }
    let mut v: Vec<crate::spark_application::Port> = Vec::new();
    let mut i: usize = 0;
    while i < es.len()
        invariant
            i <= es.len(),
            v@.len() == i,
            crate::tree::view_of_values(es@).len() == es@.len(),
            forall|k: int| 0 <= k < es@.len() ==> #[trigger] crate::tree::view_of_values(es@)[k]
                == es@[k]@,
            forall|k: int| 0 <= k < i ==> port_decodes(
                &v@[k],
                #[trigger] crate::tree::view_of_values(es@)[k],
            ),
            forall|k: int| 0 <= k < i ==> port_shaped(
                #[trigger] crate::tree::view_of_values(es@)[k],
            ),
        decreases es.len() - i,
    {
        match port_from_tree(&es[i]) {
            Ok(d) => {
                v.push(d);
            }
            Err(_) => {
                proof {
                    assert(!(port_shaped(crate::tree::view_of_values(es@)[i as int])));
                    assert(!ports_all_shaped(crate::tree::view_of_values(es@)));
                }
                return Err(());
            }
        }
        i = i + 1;
    }
    proof {
        assert(ports_all_shaped(crate::tree::view_of_values(es@)));
        assert(ports_all_decode(v@, crate::tree::view_of_values(es@)));
    }
    Ok(v)
}

/// The encoding of a port definition is canonical, correctly shaped, decodes to the
/// value itself, and each tag looks up to the encoded field.
pub proof fn lemma_port_canon(s: &crate::spark_application::Port)
    ensures
        unique_keys(port_members(s)),
        vals_wf(port_members(s)),
        keys_lt(port_members(s), 4),
        wf_view(port_view(s)),
        port_shaped(port_view(s)),
        port_decodes(s, port_view(s)),
        tree_get(port_members(s), PORT_TAG_NAME as nat) == slot_of_str(s.name@),
        tree_get(port_members(s), PORT_TAG_PROTOCOL as nat) == slot_of_str(s.protocol@),
        tree_get(port_members(s), PORT_TAG_CONTAINER_PORT as nat) == Some(TreeView::Int(s.container_port as int)),
{
    let m1 = m_str(PORT_TAG_NAME, s.name@);
    let m2 = m_str(PORT_TAG_PROTOCOL, s.protocol@);
    let m3 = m_opt_val(PORT_TAG_CONTAINER_PORT, Some(TreeView::Int(s.container_port as int)));
    let l1 = m1;
    let l2 = l1 + m2;
    let l3 = l2 + m3;
    assert(Seq::<(nat, TreeView)>::empty() + m1 =~= m1);
    lemma_canon_extend(Seq::empty(), m1, 1, 2);
    lemma_canon_extend(l1, m2, 2, 3);
    lemma_canon_extend(l2, m3, 3, 4);
    lemma_tree_get_opt_val(PORT_TAG_NAME, slot_of_str(s.name@));
    lemma_tree_get_opt_val(PORT_TAG_PROTOCOL, slot_of_str(s.protocol@));
    lemma_tree_get_opt_val(PORT_TAG_CONTAINER_PORT, Some(TreeView::Int(s.container_port as int)));
    lemma_tree_get_concat(l1, m2);
    lemma_tree_get_concat(l2, m3);
    assert(port_members(s) == l3);
}

/// Decoding the encoding of a port definition gives the value back.
pub proof fn lemma_port_roundtrip(x: &crate::spark_application::Port, s: &crate::spark_application::Port)
    requires
        port_decodes(x, port_view(s)),
    ensures
        x.same_as(s),
{
    lemma_port_canon(s);
}

/// Equal values encode to equal member lists.
pub proof fn lemma_port_congruent(a: &crate::spark_application::Port, b: &crate::spark_application::Port)
    requires
        a.same_as(b),
    ensures
        port_members(a) == port_members(b),
{
}

pub const NAME_PATH_TAG_NAME: u64 = 1;

pub const NAME_PATH_TAG_PATH: u64 = 2;

/// The encoded members of a name/path pair.
pub open spec fn name_path_members(s: &crate::spark_application::NamePath) -> Seq<(nat, TreeView)> {
    m_str(NAME_PATH_TAG_NAME, s.name@) + m_str(NAME_PATH_TAG_PATH, s.path@)
}

/// The encoded tree of a name/path pair.
pub open spec fn name_path_view(s: &crate::spark_application::NamePath) -> TreeView {
    TreeView::Obj(name_path_members(s))
}

/// The encoded trees of a list of these values.
pub open spec fn name_path_views(s: Seq<crate::spark_application::NamePath>) -> Seq<TreeView> {
    Seq::new(s.len(), |i: int| name_path_view(&s[i]))
}

/// Encode a name/path pair.
pub fn name_path_to_tree(s: &crate::spark_application::NamePath) -> (r: Tree)
    ensures
        r@ == name_path_view(s),
{
    let mut out: Vec<(u64, Tree)> = Vec::new();
    let ghost acc = Seq::<(nat, TreeView)>::empty();
    proof {
        assert(view_of_members(out@) =~= acc);
    }
    push_member(&mut out, NAME_PATH_TAG_NAME, Tree::Str(s.name.clone()));
    proof {
        lemma_add_empty(acc);
        acc = acc + m_str(NAME_PATH_TAG_NAME, s.name@);
        assert(view_of_members(out@) == acc);
    }
    push_member(&mut out, NAME_PATH_TAG_PATH, Tree::Str(s.path.clone()));
    proof {
        lemma_add_empty(acc);
        acc = acc + m_str(NAME_PATH_TAG_PATH, s.path@);
        assert(view_of_members(out@) == acc);
    }
    proof {
        assert(acc == name_path_members(s));
    }
    Tree::Obj(out)
}

/// Whether a tree decodes as a name/path pair.
pub open spec fn name_path_shaped(t: TreeView) -> bool {
    match t {
        TreeView::Obj(ms) => {
            &&& slot_str_req_ok(tree_get(ms, NAME_PATH_TAG_NAME as nat))
            &&& slot_str_req_ok(tree_get(ms, NAME_PATH_TAG_PATH as nat))
        }
        _ => false,
    }
}

/// How a decoded value relates to the tree it came from.
pub open spec fn name_path_decodes(x: &crate::spark_application::NamePath, t: TreeView) -> bool {
    match t {
        TreeView::Obj(ms) => {
            &&& x.name@ == slot_str_req(tree_get(ms, NAME_PATH_TAG_NAME as nat))
            &&& x.path@ == slot_str_req(tree_get(ms, NAME_PATH_TAG_PATH as nat))
        }
        _ => false,
    }
}

/// Decode a name/path pair.
pub fn name_path_from_tree(t: &Tree) -> (r: Result<crate::spark_application::NamePath, ()>)
    ensures
        r is Ok <==> name_path_shaped(t@),
        r matches Ok(x) ==> name_path_decodes(&x, t@),
{
    match t {
        Tree::Obj(ms) => {
            proof {
                crate::tree::lemma_view_of_members_index(ms@);
            }
            let name = match dec_str_req(crate::tree::obj_get(ms, NAME_PATH_TAG_NAME)) {
                Ok(v) => v,
                Err(_) => {
                    return Err(());
                }
            };
            let path = match dec_str_req(crate::tree::obj_get(ms, NAME_PATH_TAG_PATH)) {
                Ok(v) => v,
                Err(_) => {
                    return Err(());
                }
            };
            Ok(crate::spark_application::NamePath { name, path })
        }
        _ => Err(()),
    }
}

/// Encode a list of these values.
pub fn name_path_list_to_trees(v: &Vec<crate::spark_application::NamePath>) -> (r: Vec<Tree>)
    ensures
        crate::tree::view_of_values(r@) == name_path_views(v@),
{
    let mut elems: Vec<Tree> = Vec::new();
    let mut i: usize = 0;
    proof {
        assert(crate::tree::view_of_values(elems@) =~= name_path_views(v@.subrange(0, 0)));
    }
    while i < v.len()
        invariant
            i <= v.len(),
            crate::tree::view_of_values(elems@) == name_path_views(v@.subrange(0, i as int)),
        decreases v.len() - i,
    {
        let ghost before = elems@;
        elems.push(name_path_to_tree(&v[i]));
        proof {
            assert(elems@.drop_last() =~= before);
            assert(crate::tree::view_of_values(elems@) =~= name_path_views(
                v@.subrange(0, i + 1 as int),
            ));
        }
        i = i + 1;
    }
    proof {
        assert(v@.subrange(0, v@.len() as int) =~= v@);
        assert(name_path_views(v@.subrange(0, v@.len() as int)) =~= name_path_views(v@));
    }
    elems
}

/// Decode a list of these values; every element must be rightly shaped.
pub fn name_path_list_from_trees(es: &Vec<Tree>) -> (r: Result<Vec<crate::spark_application::NamePath>, ()>)
    ensures
        r is Ok <==> name_paths_all_shaped(crate::tree::view_of_values(es@)),
        r matches Ok(v) ==> name_paths_all_decode(v@, crate::tree::view_of_values(es@)),
{
    proof {
        crate::tree::lemma_view_of_values_index(es@);
    }
    let mut v: Vec<crate::spark_application::NamePath> = Vec::new();
    let mut i: usize = 0;
    while i < es.len()
        invariant
            i <= es.len(),
            v@.len() == i,
            crate::tree::view_of_values(es@).len() == es@.len(),
            forall|k: int| 0 <= k < es@.len() ==> #[trigger] crate::tree::view_of_values(es@)[k]
                == es@[k]@,
            forall|k: int| 0 <= k < i ==> name_path_decodes(
                &v@[k],
                #[trigger] crate::tree::view_of_values(es@)[k],
            ),
            forall|k: int| 0 <= k < i ==> name_path_shaped(
                #[trigger] crate::tree::view_of_values(es@)[k],
            ),
        decreases es.len() - i,
    {
        match name_path_from_tree(&es[i]) {
            Ok(d) => {
                v.push(d);
            }
            Err(_) => {
                proof {
                    assert(!(name_path_shaped(crate::tree::view_of_values(es@)[i as int])));
                    assert(!name_paths_all_shaped(crate::tree::view_of_values(es@)));
                }
                return Err(());
            }
        }
        i = i + 1;
    }
    proof {
        assert(name_paths_all_shaped(crate::tree::view_of_values(es@)));
        assert(name_paths_all_decode(v@, crate::tree::view_of_values(es@)));
    }
    Ok(v)
}

/// The encoding of a name/path pair is canonical, correctly shaped, decodes to the
/// value itself, and each tag looks up to the encoded field.
pub proof fn lemma_name_path_canon(s: &crate::spark_application::NamePath)
    ensures
        unique_keys(name_path_members(s)),
        vals_wf(name_path_members(s)),
        keys_lt(name_path_members(s), 3),
        wf_view(name_path_view(s)),
        name_path_shaped(name_path_view(s)),
        name_path_decodes(s, name_path_view(s)),
        tree_get(name_path_members(s), NAME_PATH_TAG_NAME as nat) == slot_of_str(s.name@),
        tree_get(name_path_members(s), NAME_PATH_TAG_PATH as nat) == slot_of_str(s.path@),
{
    let m1 = m_str(NAME_PATH_TAG_NAME, s.name@);
    let m2 = m_str(NAME_PATH_TAG_PATH, s.path@);
    let l1 = m1;
    let l2 = l1 + m2;
    assert(Seq::<(nat, TreeView)>::empty() + m1 =~= m1);
    lemma_canon_extend(Seq::empty(), m1, 1, 2);
    lemma_canon_extend(l1, m2, 2, 3);
    lemma_tree_get_opt_val(NAME_PATH_TAG_NAME, slot_of_str(s.name@));
    lemma_tree_get_opt_val(NAME_PATH_TAG_PATH, slot_of_str(s.path@));
    lemma_tree_get_concat(l1, m2);
    assert(name_path_members(s) == l2);
}

/// Decoding the encoding of a name/path pair gives the value back.
pub proof fn lemma_name_path_roundtrip(x: &crate::spark_application::NamePath, s: &crate::spark_application::NamePath)
    requires
        name_path_decodes(x, name_path_view(s)),
    ensures
        x.same_as(s),
{
    lemma_name_path_canon(s);
}

/// Equal values encode to equal member lists.
pub proof fn lemma_name_path_congruent(a: &crate::spark_application::NamePath, b: &crate::spark_application::NamePath)
    requires
        a.same_as(b),
    ensures
        name_path_members(a) == name_path_members(b),
{
}

pub const SECRET_INFO_TAG_NAME: u64 = 1;

pub const SECRET_INFO_TAG_PATH: u64 = 2;

pub const SECRET_INFO_TAG_TYP: u64 = 3;

/// The encoded members of a secret mount.
pub open spec fn secret_info_members(s: &crate::spark_application::SecretInfo) -> Seq<(nat, TreeView)> {
    m_str(SECRET_INFO_TAG_NAME, s.name@) + m_str(SECRET_INFO_TAG_PATH, s.path@) + m_str(SECRET_INFO_TAG_TYP, s.typ@)
}

/// The encoded tree of a secret mount.
pub open spec fn secret_info_view(s: &crate::spark_application::SecretInfo) -> TreeView {
    TreeView::Obj(secret_info_members(s))
}

/// The encoded trees of a list of these values.
pub open spec fn secret_info_views(s: Seq<crate::spark_application::SecretInfo>) -> Seq<TreeView> {
    Seq::new(s.len(), |i: int| secret_info_view(&s[i]))
}

/// Encode a secret mount.
pub fn secret_info_to_tree(s: &crate::spark_application::SecretInfo) -> (r: Tree)
    ensures
        r@ == secret_info_view(s),
{
    let mut out: Vec<(u64, Tree)> = Vec::new();
    let ghost acc = Seq::<(nat, TreeView)>::empty();
    proof {
        assert(view_of_members(out@) =~= acc);
    }
    push_member(&mut out, SECRET_INFO_TAG_NAME, Tree::Str(s.name.clone()));
    proof {
        lemma_add_empty(acc);
        acc = acc + m_str(SECRET_INFO_TAG_NAME, s.name@);
        assert(view_of_members(out@) == acc);
    }
    push_member(&mut out, SECRET_INFO_TAG_PATH, Tree::Str(s.path.clone()));
    proof {
        lemma_add_empty(acc);
        acc = acc + m_str(SECRET_INFO_TAG_PATH, s.path@);
        assert(view_of_members(out@) == acc);
    }
    push_member(&mut out, SECRET_INFO_TAG_TYP, Tree::Str(s.typ.clone()));
    proof {
        lemma_add_empty(acc);
        acc = acc + m_str(SECRET_INFO_TAG_TYP, s.typ@);
        assert(view_of_members(out@) == acc);
    }
    proof {
        assert(acc == secret_info_members(s));
    }
    Tree::Obj(out)
}

/// Whether a tree decodes as a secret mount.
pub open spec fn secret_info_shaped(t: TreeView) -> bool {
    match t {
        TreeView::Obj(ms) => {
            &&& slot_str_req_ok(tree_get(ms, SECRET_INFO_TAG_NAME as nat))
            &&& slot_str_req_ok(tree_get(ms, SECRET_INFO_TAG_PATH as nat))
            &&& slot_str_req_ok(tree_get(ms, SECRET_INFO_TAG_TYP as nat))
        }
        _ => false,
    }
}

/// How a decoded value relates to the tree it came from.
pub open spec fn secret_info_decodes(x: &crate::spark_application::SecretInfo, t: TreeView) -> bool {
    match t {
        TreeView::Obj(ms) => {
            &&& x.name@ == slot_str_req(tree_get(ms, SECRET_INFO_TAG_NAME as nat))
            &&& x.path@ == slot_str_req(tree_get(ms, SECRET_INFO_TAG_PATH as nat))
            &&& x.typ@ == slot_str_req(tree_get(ms, SECRET_INFO_TAG_TYP as nat))
        }
        _ => false,
    }
}

/// Decode a secret mount.
pub fn secret_info_from_tree(t: &Tree) -> (r: Result<crate::spark_application::SecretInfo, ()>)
    ensures
        r is Ok <==> secret_info_shaped(t@),
        r matches Ok(x) ==> secret_info_decodes(&x, t@),
{
    match t {
        Tree::Obj(ms) => {
            proof {
                crate::tree::lemma_view_of_members_index(ms@);
            }
            let name = match dec_str_req(crate::tree::obj_get(ms, SECRET_INFO_TAG_NAME)) {
                Ok(v) => v,
                Err(_) => {
                    return Err(());
                }
            };
            let path = match dec_str_req(crate::tree::obj_get(ms, SECRET_INFO_TAG_PATH)) {
                Ok(v) => v,
                Err(_) => {
                    return Err(());
                }
            };
            let typ = match dec_str_req(crate::tree::obj_get(ms, SECRET_INFO_TAG_TYP)) {
                Ok(v) => v,
                Err(_) => {
                    return Err(());
                }
            };
            Ok(crate::spark_application::SecretInfo { name, path, typ })
        }
        _ => Err(()),
    }
}

/// Encode a list of these values.
pub fn secret_info_list_to_trees(v: &Vec<crate::spark_application::SecretInfo>) -> (r: Vec<Tree>)
    ensures
        crate::tree::view_of_values(r@) == secret_info_views(v@),
{
    let mut elems: Vec<Tree> = Vec::new();
    let mut i: usize = 0;
    proof {
        assert(crate::tree::view_of_values(elems@) =~= secret_info_views(v@.subrange(0, 0)));
    }
    while i < v.len()
        invariant
            i <= v.len(),
            crate::tree::view_of_values(elems@) == secret_info_views(v@.subrange(0, i as int)),
        decreases v.len() - i,
    {
        let ghost before = elems@;
        elems.push(secret_info_to_tree(&v[i]));
        proof {
            assert(elems@.drop_last() =~= before);
            assert(crate::tree::view_of_values(elems@) =~= secret_info_views(
                v@.subrange(0, i + 1 as int),
            ));
        }
        i = i + 1;
    }
    proof {
        assert(v@.subrange(0, v@.len() as int) =~= v@);
        assert(secret_info_views(v@.subrange(0, v@.len() as int)) =~= secret_info_views(v@));
    }
    elems
}

/// Decode a list of these values; every element must be rightly shaped.
pub fn secret_info_list_from_trees(es: &Vec<Tree>) -> (r: Result<Vec<crate::spark_application::SecretInfo>, ()>)
    ensures
        r is Ok <==> secret_infos_all_shaped(crate::tree::view_of_values(es@)),
        r matches Ok(v) ==> secret_infos_all_decode(v@, crate::tree::view_of_values(es@)),
{
    proof {
        crate::tree::lemma_view_of_values_index(es@);
    }
    let mut v: Vec<crate::spark_application::SecretInfo> = Vec::new();
    let mut i: usize = 0;
    while i < es.len()
        invariant
            i <= es.len(),
            v@.len() == i,
            crate::tree::view_of_values(es@).len() == es@.len(),
            forall|k: int| 0 <= k < es@.len() ==> #[trigger] crate::tree::view_of_values(es@)[k]
                == es@[k]@,
            forall|k: int| 0 <= k < i ==> secret_info_decodes(
                &v@[k],
                #[trigger] crate::tree::view_of_values(es@)[k],
            ),
            forall|k: int| 0 <= k < i ==> secret_info_shaped(
                #[trigger] crate::tree::view_of_values(es@)[k],
            ),
        decreases es.len() - i,
    {
        match secret_info_from_tree(&es[i]) {
            Ok(d) => {
                v.push(d);
            }
            Err(_) => {
                proof {
                    assert(!(secret_info_shaped(crate::tree::view_of_values(es@)[i as int])));
                    assert(!secret_infos_all_shaped(crate::tree::view_of_values(es@)));
                }
                return Err(());
            }
        }
        i = i + 1;
    }
    proof {
        assert(secret_infos_all_shaped(crate::tree::view_of_values(es@)));
        assert(secret_infos_all_decode(v@, crate::tree::view_of_values(es@)));
    }
    Ok(v)
}

/// The encoding of a secret mount is canonical, correctly shaped, decodes to the
/// value itself, and each tag looks up to the encoded field.
pub proof fn lemma_secret_info_canon(s: &crate::spark_application::SecretInfo)
    ensures
        unique_keys(secret_info_members(s)),
        vals_wf(secret_info_members(s)),
        keys_lt(secret_info_members(s), 4),
        wf_view(secret_info_view(s)),
        secret_info_shaped(secret_info_view(s)),
        secret_info_decodes(s, secret_info_view(s)),
        tree_get(secret_info_members(s), SECRET_INFO_TAG_NAME as nat) == slot_of_str(s.name@),
        tree_get(secret_info_members(s), SECRET_INFO_TAG_PATH as nat) == slot_of_str(s.path@),
        tree_get(secret_info_members(s), SECRET_INFO_TAG_TYP as nat) == slot_of_str(s.typ@),
{
    let m1 = m_str(SECRET_INFO_TAG_NAME, s.name@);
    let m2 = m_str(SECRET_INFO_TAG_PATH, s.path@);
    let m3 = m_str(SECRET_INFO_TAG_TYP, s.typ@);
    let l1 = m1;
    let l2 = l1 + m2;
    let l3 = l2 + m3;
    assert(Seq::<(nat, TreeView)>::empty() + m1 =~= m1);
    lemma_canon_extend(Seq::empty(), m1, 1, 2);
    lemma_canon_extend(l1, m2, 2, 3);
    lemma_canon_extend(l2, m3, 3, 4);
    lemma_tree_get_opt_val(SECRET_INFO_TAG_NAME, slot_of_str(s.name@));
    lemma_tree_get_opt_val(SECRET_INFO_TAG_PATH, slot_of_str(s.path@));
    lemma_tree_get_opt_val(SECRET_INFO_TAG_TYP, slot_of_str(s.typ@));
    lemma_tree_get_concat(l1, m2);
    lemma_tree_get_concat(l2, m3);
    assert(secret_info_members(s) == l3);
}

/// Decoding the encoding of a secret mount gives the value back.
pub proof fn lemma_secret_info_roundtrip(x: &crate::spark_application::SecretInfo, s: &crate::spark_application::SecretInfo)
    requires
        secret_info_decodes(x, secret_info_view(s)),
    ensures
        x.same_as(s),
{
    lemma_secret_info_canon(s);
}

/// Equal values encode to equal member lists.
pub proof fn lemma_secret_info_congruent(a: &crate::spark_application::SecretInfo, b: &crate::spark_application::SecretInfo)
    requires
        a.same_as(b),
    ensures
        secret_info_members(a) == secret_info_members(b),
{
}

pub const SECRET_KEY_SELECTOR_TAG_KEY: u64 = 1;

pub const SECRET_KEY_SELECTOR_TAG_NAME: u64 = 2;

pub const SECRET_KEY_SELECTOR_TAG_OPTIONAL: u64 = 3;

/// The encoded members of a secret key selector.
pub open spec fn secret_key_selector_members(s: &crate::k8s::SecretKeySelector) -> Seq<(nat, TreeView)> {
    m_str(SECRET_KEY_SELECTOR_TAG_KEY, s.key@) + m_opt_str(SECRET_KEY_SELECTOR_TAG_NAME, ostr(&s.name)) + m_opt_bool(SECRET_KEY_SELECTOR_TAG_OPTIONAL, s.optional)
}

/// The encoded tree of a secret key selector.
pub open spec fn secret_key_selector_view(s: &crate::k8s::SecretKeySelector) -> TreeView {
    TreeView::Obj(secret_key_selector_members(s))
}

/// Encode a secret key selector.
pub fn secret_key_selector_to_tree(s: &crate::k8s::SecretKeySelector) -> (r: Tree)
    ensures
        r@ == secret_key_selector_view(s),
{
    let mut out: Vec<(u64, Tree)> = Vec::new();
    let ghost acc = Seq::<(nat, TreeView)>::empty();
    proof {
        assert(view_of_members(out@) =~= acc);
    }
    push_member(&mut out, SECRET_KEY_SELECTOR_TAG_KEY, Tree::Str(s.key.clone()));
    proof {
        lemma_add_empty(acc);
        acc = acc + m_str(SECRET_KEY_SELECTOR_TAG_KEY, s.key@);
        assert(view_of_members(out@) == acc);
    }
    match &s.name {
        Some(v) => {
            push_member(&mut out, SECRET_KEY_SELECTOR_TAG_NAME, Tree::Str(v.clone()));
        }
        None => {}
    }
    proof {
        lemma_add_empty(acc);
        acc = acc + m_opt_str(SECRET_KEY_SELECTOR_TAG_NAME, ostr(&s.name));
        assert(view_of_members(out@) == acc);
    }
    match s.optional {
        Some(v) => {
            push_member(&mut out, SECRET_KEY_SELECTOR_TAG_OPTIONAL, Tree::Bool(v));
        }
        None => {}
    }
    proof {
        lemma_add_empty(acc);
        acc = acc + m_opt_bool(SECRET_KEY_SELECTOR_TAG_OPTIONAL, s.optional);
        assert(view_of_members(out@) == acc);
    }
    proof {
        assert(acc == secret_key_selector_members(s));
    }
    Tree::Obj(out)
}

/// Whether a tree decodes as a secret key selector.
pub open spec fn secret_key_selector_shaped(t: TreeView) -> bool {
    match t {
        TreeView::Obj(ms) => {
            &&& slot_str_req_ok(tree_get(ms, SECRET_KEY_SELECTOR_TAG_KEY as nat))
            &&& slot_opt_str_ok(tree_get(ms, SECRET_KEY_SELECTOR_TAG_NAME as nat))
            &&& slot_opt_bool_ok(tree_get(ms, SECRET_KEY_SELECTOR_TAG_OPTIONAL as nat))
        }
        _ => false,
    }
}

/// How a decoded value relates to the tree it came from.
pub open spec fn secret_key_selector_decodes(x: &crate::k8s::SecretKeySelector, t: TreeView) -> bool {
    match t {
        TreeView::Obj(ms) => {
            &&& x.key@ == slot_str_req(tree_get(ms, SECRET_KEY_SELECTOR_TAG_KEY as nat))
            &&& ostr(&x.name) == slot_opt_str(tree_get(ms, SECRET_KEY_SELECTOR_TAG_NAME as nat))
            &&& x.optional == slot_opt_bool(tree_get(ms, SECRET_KEY_SELECTOR_TAG_OPTIONAL as nat))
        }
        _ => false,
    }
}

/// Decode a secret key selector.
pub fn secret_key_selector_from_tree(t: &Tree) -> (r: Result<crate::k8s::SecretKeySelector, ()>)
    ensures
        r is Ok <==> secret_key_selector_shaped(t@),
        r matches Ok(x) ==> secret_key_selector_decodes(&x, t@),
{
    match t {
        Tree::Obj(ms) => {
            proof {
                crate::tree::lemma_view_of_members_index(ms@);
            }
            let key = match dec_str_req(crate::tree::obj_get(ms, SECRET_KEY_SELECTOR_TAG_KEY)) {
                Ok(v) => v,
                Err(_) => {
                    return Err(());
                }
            };
            let name = match dec_opt_str(crate::tree::obj_get(ms, SECRET_KEY_SELECTOR_TAG_NAME)) {
                Ok(v) => v,
                Err(_) => {
                    return Err(());
                }
            };
            let optional = match dec_opt_bool(crate::tree::obj_get(ms, SECRET_KEY_SELECTOR_TAG_OPTIONAL)) {
                Ok(v) => v,
                Err(_) => {
                    return Err(());
                }
            };
            Ok(crate::k8s::SecretKeySelector { key, name, optional })
        }
        _ => Err(()),
    }
}

/// The encoding of a secret key selector is canonical, correctly shaped, decodes to the
/// value itself, and each tag looks up to the encoded field.
pub proof fn lemma_secret_key_selector_canon(s: &crate::k8s::SecretKeySelector)
    ensures
        unique_keys(secret_key_selector_members(s)),
        vals_wf(secret_key_selector_members(s)),
        keys_lt(secret_key_selector_members(s), 4),
        wf_view(secret_key_selector_view(s)),
        secret_key_selector_shaped(secret_key_selector_view(s)),
        secret_key_selector_decodes(s, secret_key_selector_view(s)),
        tree_get(secret_key_selector_members(s), SECRET_KEY_SELECTOR_TAG_KEY as nat) == slot_of_str(s.key@),
        tree_get(secret_key_selector_members(s), SECRET_KEY_SELECTOR_TAG_NAME as nat) == slot_of_opt_str(ostr(&s.name)),
        tree_get(secret_key_selector_members(s), SECRET_KEY_SELECTOR_TAG_OPTIONAL as nat) == slot_of_opt_bool(s.optional),
{
    let m1 = m_str(SECRET_KEY_SELECTOR_TAG_KEY, s.key@);
    let m2 = m_opt_str(SECRET_KEY_SELECTOR_TAG_NAME, ostr(&s.name));
    let m3 = m_opt_bool(SECRET_KEY_SELECTOR_TAG_OPTIONAL, s.optional);
    let l1 = m1;
    let l2 = l1 + m2;
    let l3 = l2 + m3;
    assert(Seq::<(nat, TreeView)>::empty() + m1 =~= m1);
    lemma_canon_extend(Seq::empty(), m1, 1, 2);
    lemma_canon_extend(l1, m2, 2, 3);
    lemma_canon_extend(l2, m3, 3, 4);
    lemma_tree_get_opt_val(SECRET_KEY_SELECTOR_TAG_KEY, slot_of_str(s.key@));
    lemma_tree_get_opt_val(SECRET_KEY_SELECTOR_TAG_NAME, slot_of_opt_str(ostr(&s.name)));
    lemma_tree_get_opt_val(SECRET_KEY_SELECTOR_TAG_OPTIONAL, slot_of_opt_bool(s.optional));
    lemma_tree_get_concat(l1, m2);
    lemma_tree_get_concat(l2, m3);
    assert(secret_key_selector_members(s) == l3);
}

/// Decoding the encoding of a secret key selector gives the value back.
pub proof fn lemma_secret_key_selector_roundtrip(x: &crate::k8s::SecretKeySelector, s: &crate::k8s::SecretKeySelector)
    requires
        secret_key_selector_decodes(x, secret_key_selector_view(s)),
    ensures
        x.same_as(s),
{
    lemma_secret_key_selector_canon(s);
}

/// Equal values encode to equal member lists.
pub proof fn lemma_secret_key_selector_congruent(a: &crate::k8s::SecretKeySelector, b: &crate::k8s::SecretKeySelector)
    requires
        a.same_as(b),
    ensures
        secret_key_selector_members(a) == secret_key_selector_members(b),
{
}

pub const ENV_VAR_SOURCE_TAG_SECRET_KEY_REF: u64 = 1;

/// The encoded members of an environment variable source.
pub open spec fn env_var_source_members(s: &crate::k8s::EnvVarSource) -> Seq<(nat, TreeView)> {
    m_opt_val(ENV_VAR_SOURCE_TAG_SECRET_KEY_REF, (match &s.secret_key_ref { Some(v) => Some(secret_key_selector_view(v)), None => None }))
}

/// The encoded tree of an environment variable source.
pub open spec fn env_var_source_view(s: &crate::k8s::EnvVarSource) -> TreeView {
    TreeView::Obj(env_var_source_members(s))
}

/// Encode an environment variable source.
pub fn env_var_source_to_tree(s: &crate::k8s::EnvVarSource) -> (r: Tree)
    ensures
        r@ == env_var_source_view(s),
{
    let mut out: Vec<(u64, Tree)> = Vec::new();
    let ghost acc = Seq::<(nat, TreeView)>::empty();
    proof {
        assert(view_of_members(out@) =~= acc);
    }
    match &s.secret_key_ref {
        Some(v) => {
            push_member(&mut out, ENV_VAR_SOURCE_TAG_SECRET_KEY_REF, secret_key_selector_to_tree(v));
        }
        None => {}
    }
    proof {
        lemma_add_empty(acc);
        acc = acc + m_opt_val(ENV_VAR_SOURCE_TAG_SECRET_KEY_REF, (match &s.secret_key_ref { Some(v) => Some(secret_key_selector_view(v)), None => None }));
        assert(view_of_members(out@) == acc);
    }
    proof {
        assert(acc == env_var_source_members(s));
    }
    Tree::Obj(out)
}

/// Whether a tree decodes as an environment variable source.
pub open spec fn env_var_source_shaped(t: TreeView) -> bool {
    match t {
        TreeView::Obj(ms) => {
            &&& (match tree_get(ms, ENV_VAR_SOURCE_TAG_SECRET_KEY_REF as nat) { Some(t) => secret_key_selector_shaped(t), None => true })
        }
        _ => false,
    }
}

/// How a decoded value relates to the tree it came from.
pub open spec fn env_var_source_decodes(x: &crate::k8s::EnvVarSource, t: TreeView) -> bool {
    match t {
        TreeView::Obj(ms) => {
            &&& (match (&x.secret_key_ref, tree_get(ms, ENV_VAR_SOURCE_TAG_SECRET_KEY_REF as nat)) { (Some(v), Some(t)) => secret_key_selector_decodes(v, t), (None, None) => true, _ => false })
        }
        _ => false,
    }
}

/// Decode an environment variable source.
pub fn env_var_source_from_tree(t: &Tree) -> (r: Result<crate::k8s::EnvVarSource, ()>)
    ensures
        r is Ok <==> env_var_source_shaped(t@),
        r matches Ok(x) ==> env_var_source_decodes(&x, t@),
{
    match t {
        Tree::Obj(ms) => {
            proof {
                crate::tree::lemma_view_of_members_index(ms@);
            }
            let secret_key_ref = match crate::tree::obj_get(ms, ENV_VAR_SOURCE_TAG_SECRET_KEY_REF) {
                Some(t) => match secret_key_selector_from_tree(t) {
                    Ok(v) => Some(v),
                    Err(_) => {
                        return Err(());
                    }
                },
                None => None,
            };
            Ok(crate::k8s::EnvVarSource { secret_key_ref })
        }
        _ => Err(()),
    }
}

/// The encoding of an environment variable source is canonical, correctly shaped, decodes to the
/// value itself, and each tag looks up to the encoded field.
pub proof fn lemma_env_var_source_canon(s: &crate::k8s::EnvVarSource)
    ensures
        unique_keys(env_var_source_members(s)),
        vals_wf(env_var_source_members(s)),
        keys_lt(env_var_source_members(s), 2),
        wf_view(env_var_source_view(s)),
        env_var_source_shaped(env_var_source_view(s)),
        env_var_source_decodes(s, env_var_source_view(s)),
        tree_get(env_var_source_members(s), ENV_VAR_SOURCE_TAG_SECRET_KEY_REF as nat) == (match &s.secret_key_ref { Some(v) => Some(secret_key_selector_view(v)), None => None }),
{
    match &s.secret_key_ref {
        Some(v) => {
            lemma_secret_key_selector_canon(v);
        }
        None => {}
    }
    let m1 = m_opt_val(ENV_VAR_SOURCE_TAG_SECRET_KEY_REF, (match &s.secret_key_ref { Some(v) => Some(secret_key_selector_view(v)), None => None }));
    let l1 = m1;
    assert(Seq::<(nat, TreeView)>::empty() + m1 =~= m1);
    lemma_canon_extend(Seq::empty(), m1, 1, 2);
    lemma_tree_get_opt_val(ENV_VAR_SOURCE_TAG_SECRET_KEY_REF, (match &s.secret_key_ref { Some(v) => Some(secret_key_selector_view(v)), None => None }));
    assert(env_var_source_members(s) == l1);
}

/// Decoding the encoding of an environment variable source gives the value back.
pub proof fn lemma_env_var_source_roundtrip(x: &crate::k8s::EnvVarSource, s: &crate::k8s::EnvVarSource)
    requires
        env_var_source_decodes(x, env_var_source_view(s)),
    ensures
        x.same_as(s),
{
    lemma_env_var_source_canon(s);
    match (&x.secret_key_ref, &s.secret_key_ref) {
        (Some(a), Some(b)) => {
            lemma_secret_key_selector_roundtrip(a, b);
        }
        _ => {}
    }
}

/// Equal values encode to equal member lists.
pub proof fn lemma_env_var_source_congruent(a: &crate::k8s::EnvVarSource, b: &crate::k8s::EnvVarSource)
    requires
        a.same_as(b),
    ensures
        env_var_source_members(a) == env_var_source_members(b),
{
    match (&a.secret_key_ref, &b.secret_key_ref) {
        (Some(x), Some(y)) => {
            lemma_secret_key_selector_congruent(x, y);
        }
        _ => {}
    }
}

pub const ENV_VAR_TAG_NAME: u64 = 1;

pub const ENV_VAR_TAG_VALUE: u64 = 2;

pub const ENV_VAR_TAG_VALUE_FROM: u64 = 3;

/// The encoded members of an environment variable.
pub open spec fn env_var_members(s: &crate::k8s::EnvVar) -> Seq<(nat, TreeView)> {
    m_str(ENV_VAR_TAG_NAME, s.name@) + m_opt_str(ENV_VAR_TAG_VALUE, ostr(&s.value)) + m_opt_val(ENV_VAR_TAG_VALUE_FROM, (match &s.value_from { Some(v) => Some(env_var_source_view(v)), None => None }))
}

/// The encoded tree of an environment variable.
pub open spec fn env_var_view(s: &crate::k8s::EnvVar) -> TreeView {
    TreeView::Obj(env_var_members(s))
}

/// The encoded trees of a list of these values.
pub open spec fn env_var_views(s: Seq<crate::k8s::EnvVar>) -> Seq<TreeView> {
    Seq::new(s.len(), |i: int| env_var_view(&s[i]))
}

/// Encode an environment variable.
pub fn env_var_to_tree(s: &crate::k8s::EnvVar) -> (r: Tree)
    ensures
        r@ == env_var_view(s),
{
    let mut out: Vec<(u64, Tree)> = Vec::new();
    let ghost acc = Seq::<(nat, TreeView)>::empty();
    proof {
        assert(view_of_members(out@) =~= acc);
    }
    push_member(&mut out, ENV_VAR_TAG_NAME, Tree::Str(s.name.clone()));
    proof {
        lemma_add_empty(acc);
        acc = acc + m_str(ENV_VAR_TAG_NAME, s.name@);
        assert(view_of_members(out@) == acc);
    }
    match &s.value {
        Some(v) => {
            push_member(&mut out, ENV_VAR_TAG_VALUE, Tree::Str(v.clone()));
        }
        None => {}
    }
    proof {
        lemma_add_empty(acc);
        acc = acc + m_opt_str(ENV_VAR_TAG_VALUE, ostr(&s.value));
        assert(view_of_members(out@) == acc);
    }
    match &s.value_from {
        Some(v) => {
            push_member(&mut out, ENV_VAR_TAG_VALUE_FROM, env_var_source_to_tree(v));
        }
        None => {}
    }
    proof {
        lemma_add_empty(acc);
        acc = acc + m_opt_val(ENV_VAR_TAG_VALUE_FROM, (match &s.value_from { Some(v) => Some(env_var_source_view(v)), None => None }));
        assert(view_of_members(out@) == acc);
    }
    proof {
        assert(acc == env_var_members(s));
    }
    Tree::Obj(out)
}

/// Whether a tree decodes as an environment variable.
pub open spec fn env_var_shaped(t: TreeView) -> bool {
    match t {
        TreeView::Obj(ms) => {
            &&& slot_str_req_ok(tree_get(ms, ENV_VAR_TAG_NAME as nat))
            &&& slot_opt_str_ok(tree_get(ms, ENV_VAR_TAG_VALUE as nat))
            &&& (match tree_get(ms, ENV_VAR_TAG_VALUE_FROM as nat) { Some(t) => env_var_source_shaped(t), None => true })
        }
        _ => false,
    }
}

/// How a decoded value relates to the tree it came from.
pub open spec fn env_var_decodes(x: &crate::k8s::EnvVar, t: TreeView) -> bool {
    match t {
        TreeView::Obj(ms) => {
            &&& x.name@ == slot_str_req(tree_get(ms, ENV_VAR_TAG_NAME as nat))
            &&& ostr(&x.value) == slot_opt_str(tree_get(ms, ENV_VAR_TAG_VALUE as nat))
            &&& (match (&x.value_from, tree_get(ms, ENV_VAR_TAG_VALUE_FROM as nat)) { (Some(v), Some(t)) => env_var_source_decodes(v, t), (None, None) => true, _ => false })
        }
        _ => false,
    }
}

/// Decode an environment variable.
pub fn env_var_from_tree(t: &Tree) -> (r: Result<crate::k8s::EnvVar, ()>)
    ensures
        r is Ok <==> env_var_shaped(t@),
        r matches Ok(x) ==> env_var_decodes(&x, t@),
{
    match t {
        Tree::Obj(ms) => {
            proof {
                crate::tree::lemma_view_of_members_index(ms@);
            }
            let name = match dec_str_req(crate::tree::obj_get(ms, ENV_VAR_TAG_NAME)) {
                Ok(v) => v,
                Err(_) => {
                    return Err(());
                }
            };
            let value = match dec_opt_str(crate::tree::obj_get(ms, ENV_VAR_TAG_VALUE)) {
                Ok(v) => v,
                Err(_) => {
                    return Err(());
                }
            };
            let value_from = match crate::tree::obj_get(ms, ENV_VAR_TAG_VALUE_FROM) {
                Some(t) => match env_var_source_from_tree(t) {
                    Ok(v) => Some(v),
                    Err(_) => {
                        return Err(());
                    }
                },
                None => None,
            };
            Ok(crate::k8s::EnvVar { name, value, value_from })
        }
        _ => Err(()),
    }
}

/// Encode a list of these values.
pub fn env_var_list_to_trees(v: &Vec<crate::k8s::EnvVar>) -> (r: Vec<Tree>)
    ensures
        crate::tree::view_of_values(r@) == env_var_views(v@),
{
    let mut elems: Vec<Tree> = Vec::new();
    let mut i: usize = 0;
    proof {
        assert(crate::tree::view_of_values(elems@) =~= env_var_views(v@.subrange(0, 0)));
    }
    while i < v.len()
        invariant
            i <= v.len(),
            crate::tree::view_of_values(elems@) == env_var_views(v@.subrange(0, i as int)),
        decreases v.len() - i,
    {
        let ghost before = elems@;
        elems.push(env_var_to_tree(&v[i]));
        proof {
            assert(elems@.drop_last() =~= before);
            assert(crate::tree::view_of_values(elems@) =~= env_var_views(
                v@.subrange(0, i + 1 as int),
            ));
        }
        i = i + 1;
    }
    proof {
        assert(v@.subrange(0, v@.len() as int) =~= v@);
        assert(env_var_views(v@.subrange(0, v@.len() as int)) =~= env_var_views(v@));
    }
    elems
}

/// Decode a list of these values; every element must be rightly shaped.
pub fn env_var_list_from_trees(es: &Vec<Tree>) -> (r: Result<Vec<crate::k8s::EnvVar>, ()>)
    ensures
        r is Ok <==> env_vars_all_shaped(crate::tree::view_of_values(es@)),
        r matches Ok(v) ==> env_vars_all_decode(v@, crate::tree::view_of_values(es@)),
{
    proof {
        crate::tree::lemma_view_of_values_index(es@);
    }
    let mut v: Vec<crate::k8s::EnvVar> = Vec::new();
    let mut i: usize = 0;
    while i < es.len()
        invariant
            i <= es.len(),
            v@.len() == i,
            crate::tree::view_of_values(es@).len() == es@.len(),
            forall|k: int| 0 <= k < es@.len() ==> #[trigger] crate::tree::view_of_values(es@)[k]
                == es@[k]@,
            forall|k: int| 0 <= k < i ==> env_var_decodes(
                &v@[k],
                #[trigger] crate::tree::view_of_values(es@)[k],
            ),
            forall|k: int| 0 <= k < i ==> env_var_shaped(
                #[trigger] crate::tree::view_of_values(es@)[k],
            ),
        decreases es.len() - i,
    {
        match env_var_from_tree(&es[i]) {
            Ok(d) => {
                v.push(d);
            }
            Err(_) => {
                proof {
                    assert(!(env_var_shaped(crate::tree::view_of_values(es@)[i as int])));
                    assert(!env_vars_all_shaped(crate::tree::view_of_values(es@)));
                }
                return Err(());
            }
        }
        i = i + 1;
    }
    proof {
        assert(env_vars_all_shaped(crate::tree::view_of_values(es@)));
        assert(env_vars_all_decode(v@, crate::tree::view_of_values(es@)));
    }
    Ok(v)
}

/// The encoding of an environment variable is canonical, correctly shaped, decodes to the
/// value itself, and each tag looks up to the encoded field.
pub proof fn lemma_env_var_canon(s: &crate::k8s::EnvVar)
    ensures
        unique_keys(env_var_members(s)),
        vals_wf(env_var_members(s)),
        keys_lt(env_var_members(s), 4),
        wf_view(env_var_view(s)),
        env_var_shaped(env_var_view(s)),
        env_var_decodes(s, env_var_view(s)),
        tree_get(env_var_members(s), ENV_VAR_TAG_NAME as nat) == slot_of_str(s.name@),
        tree_get(env_var_members(s), ENV_VAR_TAG_VALUE as nat) == slot_of_opt_str(ostr(&s.value)),
        tree_get(env_var_members(s), ENV_VAR_TAG_VALUE_FROM as nat) == (match &s.value_from { Some(v) => Some(env_var_source_view(v)), None => None }),
{
    match &s.value_from {
        Some(v) => {
            lemma_env_var_source_canon(v);
        }
        None => {}
    }
    let m1 = m_str(ENV_VAR_TAG_NAME, s.name@);
    let m2 = m_opt_str(ENV_VAR_TAG_VALUE, ostr(&s.value));
    let m3 = m_opt_val(ENV_VAR_TAG_VALUE_FROM, (match &s.value_from { Some(v) => Some(env_var_source_view(v)), None => None }));
    let l1 = m1;
    let l2 = l1 + m2;
    let l3 = l2 + m3;
    assert(Seq::<(nat, TreeView)>::empty() + m1 =~= m1);
    lemma_canon_extend(Seq::empty(), m1, 1, 2);
    lemma_canon_extend(l1, m2, 2, 3);
    lemma_canon_extend(l2, m3, 3, 4);
    lemma_tree_get_opt_val(ENV_VAR_TAG_NAME, slot_of_str(s.name@));
    lemma_tree_get_opt_val(ENV_VAR_TAG_VALUE, slot_of_opt_str(ostr(&s.value)));
    lemma_tree_get_opt_val(ENV_VAR_TAG_VALUE_FROM, (match &s.value_from { Some(v) => Some(env_var_source_view(v)), None => None }));
    lemma_tree_get_concat(l1, m2);
    lemma_tree_get_concat(l2, m3);
    assert(env_var_members(s) == l3);
}

/// Decoding the encoding of an environment variable gives the value back.
pub proof fn lemma_env_var_roundtrip(x: &crate::k8s::EnvVar, s: &crate::k8s::EnvVar)
    requires
        env_var_decodes(x, env_var_view(s)),
    ensures
        x.same_as(s),
{
    lemma_env_var_canon(s);
    match (&x.value_from, &s.value_from) {
        (Some(a), Some(b)) => {
            lemma_env_var_source_roundtrip(a, b);
        }
        _ => {}
    }
}

/// Equal values encode to equal member lists.
pub proof fn lemma_env_var_congruent(a: &crate::k8s::EnvVar, b: &crate::k8s::EnvVar)
    requires
        a.same_as(b),
    ensures
        env_var_members(a) == env_var_members(b),
{
    match (&a.value_from, &b.value_from) {
        (Some(x), Some(y)) => {
            lemma_env_var_source_congruent(x, y);
        }
        _ => {}
    }
}

pub const RESTART_POLICY_TAG_TYP: u64 = 1;

pub const RESTART_POLICY_TAG_ON_SUBMISSION_FAILURE_RETRIES: u64 = 2;

pub const RESTART_POLICY_TAG_ON_FAILURE_RETRIES: u64 = 3;

pub const RESTART_POLICY_TAG_ON_SUBMISSION_FAILURE_RETRY_INTERVAL: u64 = 4;

pub const RESTART_POLICY_TAG_ON_FAILURE_RETRY_INTERVAL: u64 = 5;

/// The encoded members of a restart policy.
pub open spec fn restart_policy_members(s: &crate::spark_application::RestartPolicy) -> Seq<(nat, TreeView)> {
    m_opt_str(RESTART_POLICY_TAG_TYP, ostr(&s.typ)) + m_opt_int(RESTART_POLICY_TAG_ON_SUBMISSION_FAILURE_RETRIES, oi32(s.on_submission_failure_retries)) + m_opt_int(RESTART_POLICY_TAG_ON_FAILURE_RETRIES, oi32(s.on_failure_retries)) + m_opt_int(RESTART_POLICY_TAG_ON_SUBMISSION_FAILURE_RETRY_INTERVAL, oi64(s.on_submission_failure_retry_interval)) + m_opt_int(RESTART_POLICY_TAG_ON_FAILURE_RETRY_INTERVAL, oi64(s.on_failure_retry_interval))
}

/// The encoded tree of a restart policy.
pub open spec fn restart_policy_view(s: &crate::spark_application::RestartPolicy) -> TreeView {
    TreeView::Obj(restart_policy_members(s))
}

/// Encode a restart policy.
pub fn restart_policy_to_tree(s: &crate::spark_application::RestartPolicy) -> (r: Tree)
    ensures
        r@ == restart_policy_view(s),
{
    let mut out: Vec<(u64, Tree)> = Vec::new();
    let ghost acc = Seq::<(nat, TreeView)>::empty();
    proof {
        assert(view_of_members(out@) =~= acc);
    }
    match &s.typ {
        Some(v) => {
            push_member(&mut out, RESTART_POLICY_TAG_TYP, Tree::Str(v.clone()));
        }
        None => {}
    }
    proof {
        lemma_add_empty(acc);
        acc = acc + m_opt_str(RESTART_POLICY_TAG_TYP, ostr(&s.typ));
        assert(view_of_members(out@) == acc);
    }
    match s.on_submission_failure_retries {
        Some(v) => {
            push_member(&mut out, RESTART_POLICY_TAG_ON_SUBMISSION_FAILURE_RETRIES, Tree::Int(v as i64));
        }
        None => {}
    }
    proof {
        lemma_add_empty(acc);
        acc = acc + m_opt_int(RESTART_POLICY_TAG_ON_SUBMISSION_FAILURE_RETRIES, oi32(s.on_submission_failure_retries));
        assert(view_of_members(out@) == acc);
    }
    match s.on_failure_retries {
        Some(v) => {
            push_member(&mut out, RESTART_POLICY_TAG_ON_FAILURE_RETRIES, Tree::Int(v as i64));
        }
        None => {}
    }
    proof {
        lemma_add_empty(acc);
        acc = acc + m_opt_int(RESTART_POLICY_TAG_ON_FAILURE_RETRIES, oi32(s.on_failure_retries));
        assert(view_of_members(out@) == acc);
    }
    match s.on_submission_failure_retry_interval {
        Some(v) => {
            push_member(&mut out, RESTART_POLICY_TAG_ON_SUBMISSION_FAILURE_RETRY_INTERVAL, Tree::Int(v));
        }
        None => {}
    }
    proof {
        lemma_add_empty(acc);
        acc = acc + m_opt_int(RESTART_POLICY_TAG_ON_SUBMISSION_FAILURE_RETRY_INTERVAL, oi64(s.on_submission_failure_retry_interval));
        assert(view_of_members(out@) == acc);
    }
    match s.on_failure_retry_interval {
        Some(v) => {
            push_member(&mut out, RESTART_POLICY_TAG_ON_FAILURE_RETRY_INTERVAL, Tree::Int(v));
        }
        None => {}
    }
    proof {
        lemma_add_empty(acc);
        acc = acc + m_opt_int(RESTART_POLICY_TAG_ON_FAILURE_RETRY_INTERVAL, oi64(s.on_failure_retry_interval));
        assert(view_of_members(out@) == acc);
    }
    proof {
        assert(acc == restart_policy_members(s));
    }
    Tree::Obj(out)
}

/// Whether a tree decodes as a restart policy.
pub open spec fn restart_policy_shaped(t: TreeView) -> bool {
    match t {
        TreeView::Obj(ms) => {
            &&& slot_opt_str_ok(tree_get(ms, RESTART_POLICY_TAG_TYP as nat))
            &&& slot_opt_i32_ok(tree_get(ms, RESTART_POLICY_TAG_ON_SUBMISSION_FAILURE_RETRIES as nat))
            &&& slot_opt_i32_ok(tree_get(ms, RESTART_POLICY_TAG_ON_FAILURE_RETRIES as nat))
            &&& slot_opt_i64_ok(tree_get(ms, RESTART_POLICY_TAG_ON_SUBMISSION_FAILURE_RETRY_INTERVAL as nat))
            &&& slot_opt_i64_ok(tree_get(ms, RESTART_POLICY_TAG_ON_FAILURE_RETRY_INTERVAL as nat))
        }
        _ => false,
    }
}

/// How a decoded value relates to the tree it came from.
pub open spec fn restart_policy_decodes(x: &crate::spark_application::RestartPolicy, t: TreeView) -> bool {
    match t {
        TreeView::Obj(ms) => {
            &&& ostr(&x.typ) == slot_opt_str(tree_get(ms, RESTART_POLICY_TAG_TYP as nat))
            &&& oi32(x.on_submission_failure_retries) == slot_opt_i32(tree_get(ms, RESTART_POLICY_TAG_ON_SUBMISSION_FAILURE_RETRIES as nat))
            &&& oi32(x.on_failure_retries) == slot_opt_i32(tree_get(ms, RESTART_POLICY_TAG_ON_FAILURE_RETRIES as nat))
            &&& oi64(x.on_submission_failure_retry_interval) == slot_opt_i64(tree_get(ms, RESTART_POLICY_TAG_ON_SUBMISSION_FAILURE_RETRY_INTERVAL as nat))
            &&& oi64(x.on_failure_retry_interval) == slot_opt_i64(tree_get(ms, RESTART_POLICY_TAG_ON_FAILURE_RETRY_INTERVAL as nat))
        }
        _ => false,
    }
}

/// Decode a restart policy.
pub fn restart_policy_from_tree(t: &Tree) -> (r: Result<crate::spark_application::RestartPolicy, ()>)
    ensures
        r is Ok <==> restart_policy_shaped(t@),
        r matches Ok(x) ==> restart_policy_decodes(&x, t@),
{
    match t {
        Tree::Obj(ms) => {
            proof {
                crate::tree::lemma_view_of_members_index(ms@);
            }
            let typ = match dec_opt_str(crate::tree::obj_get(ms, RESTART_POLICY_TAG_TYP)) {
                Ok(v) => v,
                Err(_) => {
                    return Err(());
                }
            };
            let on_submission_failure_retries = match dec_opt_i32(crate::tree::obj_get(ms, RESTART_POLICY_TAG_ON_SUBMISSION_FAILURE_RETRIES)) {
                Ok(v) => v,
                Err(_) => {
                    return Err(());
                }
            };
            let on_failure_retries = match dec_opt_i32(crate::tree::obj_get(ms, RESTART_POLICY_TAG_ON_FAILURE_RETRIES)) {
                Ok(v) => v,
                Err(_) => {
                    return Err(());
                }
            };
            let on_submission_failure_retry_interval = match dec_opt_i64(crate::tree::obj_get(ms, RESTART_POLICY_TAG_ON_SUBMISSION_FAILURE_RETRY_INTERVAL)) {
                Ok(v) => v,
                Err(_) => {
                    return Err(());
                }
            };
            let on_failure_retry_interval = match dec_opt_i64(crate::tree::obj_get(ms, RESTART_POLICY_TAG_ON_FAILURE_RETRY_INTERVAL)) {
                Ok(v) => v,
                Err(_) => {
                    return Err(());
                }
            };
            Ok(crate::spark_application::RestartPolicy { typ, on_submission_failure_retries, on_failure_retries, on_submission_failure_retry_interval, on_failure_retry_interval })
        }
        _ => Err(()),
    }
}

/// The encoding of a restart policy is canonical, correctly shaped, decodes to the
/// value itself, and each tag looks up to the encoded field.
pub proof fn lemma_restart_policy_canon(s: &crate::spark_application::RestartPolicy)
    ensures
        unique_keys(restart_policy_members(s)),
        vals_wf(restart_policy_members(s)),
        keys_lt(restart_policy_members(s), 6),
        wf_view(restart_policy_view(s)),
        restart_policy_shaped(restart_policy_view(s)),
        restart_policy_decodes(s, restart_policy_view(s)),
        tree_get(restart_policy_members(s), RESTART_POLICY_TAG_TYP as nat) == slot_of_opt_str(ostr(&s.typ)),
        tree_get(restart_policy_members(s), RESTART_POLICY_TAG_ON_SUBMISSION_FAILURE_RETRIES as nat) == slot_of_opt_int(oi32(s.on_submission_failure_retries)),
        tree_get(restart_policy_members(s), RESTART_POLICY_TAG_ON_FAILURE_RETRIES as nat) == slot_of_opt_int(oi32(s.on_failure_retries)),
        tree_get(restart_policy_members(s), RESTART_POLICY_TAG_ON_SUBMISSION_FAILURE_RETRY_INTERVAL as nat) == slot_of_opt_int(oi64(s.on_submission_failure_retry_interval)),
        tree_get(restart_policy_members(s), RESTART_POLICY_TAG_ON_FAILURE_RETRY_INTERVAL as nat) == slot_of_opt_int(oi64(s.on_failure_retry_interval)),
{
    let m1 = m_opt_str(RESTART_POLICY_TAG_TYP, ostr(&s.typ));
    let m2 = m_opt_int(RESTART_POLICY_TAG_ON_SUBMISSION_FAILURE_RETRIES, oi32(s.on_submission_failure_retries));
    let m3 = m_opt_int(RESTART_POLICY_TAG_ON_FAILURE_RETRIES, oi32(s.on_failure_retries));
    let m4 = m_opt_int(RESTART_POLICY_TAG_ON_SUBMISSION_FAILURE_RETRY_INTERVAL, oi64(s.on_submission_failure_retry_interval));
    let m5 = m_opt_int(RESTART_POLICY_TAG_ON_FAILURE_RETRY_INTERVAL, oi64(s.on_failure_retry_interval));
    let l1 = m1;
    let l2 = l1 + m2;
    let l3 = l2 + m3;
    let l4 = l3 + m4;
    let l5 = l4 + m5;
    assert(Seq::<(nat, TreeView)>::empty() + m1 =~= m1);
    lemma_canon_extend(Seq::empty(), m1, 1, 2);
    lemma_canon_extend(l1, m2, 2, 3);
    lemma_canon_extend(l2, m3, 3, 4);
    lemma_canon_extend(l3, m4, 4, 5);
    lemma_canon_extend(l4, m5, 5, 6);
    lemma_tree_get_opt_val(RESTART_POLICY_TAG_TYP, slot_of_opt_str(ostr(&s.typ)));
    lemma_tree_get_opt_val(RESTART_POLICY_TAG_ON_SUBMISSION_FAILURE_RETRIES, slot_of_opt_int(oi32(s.on_submission_failure_retries)));
    lemma_tree_get_opt_val(RESTART_POLICY_TAG_ON_FAILURE_RETRIES, slot_of_opt_int(oi32(s.on_failure_retries)));
    lemma_tree_get_opt_val(RESTART_POLICY_TAG_ON_SUBMISSION_FAILURE_RETRY_INTERVAL, slot_of_opt_int(oi64(s.on_submission_failure_retry_interval)));
    lemma_tree_get_opt_val(RESTART_POLICY_TAG_ON_FAILURE_RETRY_INTERVAL, slot_of_opt_int(oi64(s.on_failure_retry_interval)));
    lemma_tree_get_concat(l1, m2);
    lemma_tree_get_concat(l2, m3);
    lemma_tree_get_concat(l3, m4);
    lemma_tree_get_concat(l4, m5);
    assert(restart_policy_members(s) == l5);
}

/// Decoding the encoding of a restart policy gives the value back.
pub proof fn lemma_restart_policy_roundtrip(x: &crate::spark_application::RestartPolicy, s: &crate::spark_application::RestartPolicy)
    requires
        restart_policy_decodes(x, restart_policy_view(s)),
    ensures
        x.same_as(s),
{
    lemma_restart_policy_canon(s);
}

/// Equal values encode to equal member lists.
pub proof fn lemma_restart_policy_congruent(a: &crate::spark_application::RestartPolicy, b: &crate::spark_application::RestartPolicy)
    requires
        a.same_as(b),
    ensures
        restart_policy_members(a) == restart_policy_members(b),
{
}

pub const PROMETHEUS_TAG_JMX_EXPORTER_JAR: u64 = 1;

pub const PROMETHEUS_TAG_PORT: u64 = 2;

pub const PROMETHEUS_TAG_PORT_NAME: u64 = 3;

pub const PROMETHEUS_TAG_CONFIG_FILE: u64 = 4;

pub const PROMETHEUS_TAG_CONFIGURATION: u64 = 5;

/// The encoded members of a Prometheus exporter configuration.
pub open spec fn prometheus_members(s: &crate::spark_application::PrometheusSpec) -> Seq<(nat, TreeView)> {
    m_str(PROMETHEUS_TAG_JMX_EXPORTER_JAR, s.jmx_exporter_jar@) + m_opt_int(PROMETHEUS_TAG_PORT, oi32(s.port)) + m_opt_str(PROMETHEUS_TAG_PORT_NAME, ostr(&s.port_name)) + m_opt_str(PROMETHEUS_TAG_CONFIG_FILE, ostr(&s.config_file)) + m_opt_str(PROMETHEUS_TAG_CONFIGURATION, ostr(&s.configuration))
}

/// The encoded tree of a Prometheus exporter configuration.
pub open spec fn prometheus_view(s: &crate::spark_application::PrometheusSpec) -> TreeView {
    TreeView::Obj(prometheus_members(s))
}

/// Encode a Prometheus exporter configuration.
pub fn prometheus_to_tree(s: &crate::spark_application::PrometheusSpec) -> (r: Tree)
    ensures
        r@ == prometheus_view(s),
{
    let mut out: Vec<(u64, Tree)> = Vec::new();
    let ghost acc = Seq::<(nat, TreeView)>::empty();
    proof {
        assert(view_of_members(out@) =~= acc);
    }
    push_member(&mut out, PROMETHEUS_TAG_JMX_EXPORTER_JAR, Tree::Str(s.jmx_exporter_jar.clone()));
    proof {
        lemma_add_empty(acc);
        acc = acc + m_str(PROMETHEUS_TAG_JMX_EXPORTER_JAR, s.jmx_exporter_jar@);
        assert(view_of_members(out@) == acc);
    }
    match s.port {
        Some(v) => {
            push_member(&mut out, PROMETHEUS_TAG_PORT, Tree::Int(v as i64));
        }
        None => {}
    }
    proof {
        lemma_add_empty(acc);
        acc = acc + m_opt_int(PROMETHEUS_TAG_PORT, oi32(s.port));
        assert(view_of_members(out@) == acc);
    }
    match &s.port_name {
        Some(v) => {
            push_member(&mut out, PROMETHEUS_TAG_PORT_NAME, Tree::Str(v.clone()));
        }
        None => {}
    }
    proof {
        lemma_add_empty(acc);
        acc = acc + m_opt_str(PROMETHEUS_TAG_PORT_NAME, ostr(&s.port_name));
        assert(view_of_members(out@) == acc);
    }
    match &s.config_file {
        Some(v) => {
            push_member(&mut out, PROMETHEUS_TAG_CONFIG_FILE, Tree::Str(v.clone()));
        }
        None => {}
    }
    proof {
        lemma_add_empty(acc);
        acc = acc + m_opt_str(PROMETHEUS_TAG_CONFIG_FILE, ostr(&s.config_file));
        assert(view_of_members(out@) == acc);
    }
    match &s.configuration {
        Some(v) => {
            push_member(&mut out, PROMETHEUS_TAG_CONFIGURATION, Tree::Str(v.clone()));
        }
        None => {}
    }
    proof {
        lemma_add_empty(acc);
        acc = acc + m_opt_str(PROMETHEUS_TAG_CONFIGURATION, ostr(&s.configuration));
        assert(view_of_members(out@) == acc);
    }
    proof {
        assert(acc == prometheus_members(s));
    }
    Tree::Obj(out)
}

/// Whether a tree decodes as a Prometheus exporter configuration.
pub open spec fn prometheus_shaped(t: TreeView) -> bool {
    match t {
        TreeView::Obj(ms) => {
            &&& slot_str_req_ok(tree_get(ms, PROMETHEUS_TAG_JMX_EXPORTER_JAR as nat))
            &&& slot_opt_i32_ok(tree_get(ms, PROMETHEUS_TAG_PORT as nat))
            &&& slot_opt_str_ok(tree_get(ms, PROMETHEUS_TAG_PORT_NAME as nat))
            &&& slot_opt_str_ok(tree_get(ms, PROMETHEUS_TAG_CONFIG_FILE as nat))
            &&& slot_opt_str_ok(tree_get(ms, PROMETHEUS_TAG_CONFIGURATION as nat))
        }
        _ => false,
    }
}

/// How a decoded value relates to the tree it came from.
pub open spec fn prometheus_decodes(x: &crate::spark_application::PrometheusSpec, t: TreeView) -> bool {
    match t {
        TreeView::Obj(ms) => {
            &&& x.jmx_exporter_jar@ == slot_str_req(tree_get(ms, PROMETHEUS_TAG_JMX_EXPORTER_JAR as nat))
            &&& oi32(x.port) == slot_opt_i32(tree_get(ms, PROMETHEUS_TAG_PORT as nat))
            &&& ostr(&x.port_name) == slot_opt_str(tree_get(ms, PROMETHEUS_TAG_PORT_NAME as nat))
            &&& ostr(&x.config_file) == slot_opt_str(tree_get(ms, PROMETHEUS_TAG_CONFIG_FILE as nat))
            &&& ostr(&x.configuration) == slot_opt_str(tree_get(ms, PROMETHEUS_TAG_CONFIGURATION as nat))
        }
        _ => false,
    }
}

/// Decode a Prometheus exporter configuration.
pub fn prometheus_from_tree(t: &Tree) -> (r: Result<crate::spark_application::PrometheusSpec, ()>)
    ensures
        r is Ok <==> prometheus_shaped(t@),
        r matches Ok(x) ==> prometheus_decodes(&x, t@),
{
    match t {
        Tree::Obj(ms) => {
            proof {
                crate::tree::lemma_view_of_members_index(ms@);
            }
            let jmx_exporter_jar = match dec_str_req(crate::tree::obj_get(ms, PROMETHEUS_TAG_JMX_EXPORTER_JAR)) {
                Ok(v) => v,
                Err(_) => {
                    return Err(());
                }
            };
            let port = match dec_opt_i32(crate::tree::obj_get(ms, PROMETHEUS_TAG_PORT)) {
                Ok(v) => v,
                Err(_) => {
                    return Err(());
                }
            };
            let port_name = match dec_opt_str(crate::tree::obj_get(ms, PROMETHEUS_TAG_PORT_NAME)) {
                Ok(v) => v,
                Err(_) => {
                    return Err(());
                }
            };
            let config_file = match dec_opt_str(crate::tree::obj_get(ms, PROMETHEUS_TAG_CONFIG_FILE)) {
                Ok(v) => v,
                Err(_) => {
                    return Err(());
                }
            };
            let configuration = match dec_opt_str(crate::tree::obj_get(ms, PROMETHEUS_TAG_CONFIGURATION)) {
                Ok(v) => v,
                Err(_) => {
                    return Err(());
                }
            };
            Ok(crate::spark_application::PrometheusSpec { jmx_exporter_jar, port, port_name, config_file, configuration })
        }
        _ => Err(()),
    }
}

/// The encoding of a Prometheus exporter configuration is canonical, correctly shaped, decodes to the
/// value itself, and each tag looks up to the encoded field.
pub proof fn lemma_prometheus_canon(s: &crate::spark_application::PrometheusSpec)
    ensures
        unique_keys(prometheus_members(s)),
        vals_wf(prometheus_members(s)),
        keys_lt(prometheus_members(s), 6),
        wf_view(prometheus_view(s)),
        prometheus_shaped(prometheus_view(s)),
        prometheus_decodes(s, prometheus_view(s)),
        tree_get(prometheus_members(s), PROMETHEUS_TAG_JMX_EXPORTER_JAR as nat) == slot_of_str(s.jmx_exporter_jar@),
        tree_get(prometheus_members(s), PROMETHEUS_TAG_PORT as nat) == slot_of_opt_int(oi32(s.port)),
        tree_get(prometheus_members(s), PROMETHEUS_TAG_PORT_NAME as nat) == slot_of_opt_str(ostr(&s.port_name)),
        tree_get(prometheus_members(s), PROMETHEUS_TAG_CONFIG_FILE as nat) == slot_of_opt_str(ostr(&s.config_file)),
        tree_get(prometheus_members(s), PROMETHEUS_TAG_CONFIGURATION as nat) == slot_of_opt_str(ostr(&s.configuration)),
{
    let m1 = m_str(PROMETHEUS_TAG_JMX_EXPORTER_JAR, s.jmx_exporter_jar@);
    let m2 = m_opt_int(PROMETHEUS_TAG_PORT, oi32(s.port));
    let m3 = m_opt_str(PROMETHEUS_TAG_PORT_NAME, ostr(&s.port_name));
    let m4 = m_opt_str(PROMETHEUS_TAG_CONFIG_FILE, ostr(&s.config_file));
    let m5 = m_opt_str(PROMETHEUS_TAG_CONFIGURATION, ostr(&s.configuration));
    let l1 = m1;
    let l2 = l1 + m2;
    let l3 = l2 + m3;
    let l4 = l3 + m4;
    let l5 = l4 + m5;
    assert(Seq::<(nat, TreeView)>::empty() + m1 =~= m1);
    lemma_canon_extend(Seq::empty(), m1, 1, 2);
    lemma_canon_extend(l1, m2, 2, 3);
    lemma_canon_extend(l2, m3, 3, 4);
    lemma_canon_extend(l3, m4, 4, 5);
    lemma_canon_extend(l4, m5, 5, 6);
    lemma_tree_get_opt_val(PROMETHEUS_TAG_JMX_EXPORTER_JAR, slot_of_str(s.jmx_exporter_jar@));
    lemma_tree_get_opt_val(PROMETHEUS_TAG_PORT, slot_of_opt_int(oi32(s.port)));
    lemma_tree_get_opt_val(PROMETHEUS_TAG_PORT_NAME, slot_of_opt_str(ostr(&s.port_name)));
    lemma_tree_get_opt_val(PROMETHEUS_TAG_CONFIG_FILE, slot_of_opt_str(ostr(&s.config_file)));
    lemma_tree_get_opt_val(PROMETHEUS_TAG_CONFIGURATION, slot_of_opt_str(ostr(&s.configuration)));
    lemma_tree_get_concat(l1, m2);
    lemma_tree_get_concat(l2, m3);
    lemma_tree_get_concat(l3, m4);
    lemma_tree_get_concat(l4, m5);
    assert(prometheus_members(s) == l5);
}

/// Decoding the encoding of a Prometheus exporter configuration gives the value back.
pub proof fn lemma_prometheus_roundtrip(x: &crate::spark_application::PrometheusSpec, s: &crate::spark_application::PrometheusSpec)
    requires
        prometheus_decodes(x, prometheus_view(s)),
    ensures
        x.same_as(s),
{
    lemma_prometheus_canon(s);
}

/// Equal values encode to equal member lists.
pub proof fn lemma_prometheus_congruent(a: &crate::spark_application::PrometheusSpec, b: &crate::spark_application::PrometheusSpec)
    requires
        a.same_as(b),
    ensures
        prometheus_members(a) == prometheus_members(b),
{
}

pub const MONITORING_TAG_EXPOSE_DRIVER_METRICS: u64 = 1;

pub const MONITORING_TAG_EXPOSE_EXECUTOR_METRICS: u64 = 2;

pub const MONITORING_TAG_METRICS_PROPERTIES: u64 = 3;

pub const MONITORING_TAG_METRICS_PROPERTIES_FILE: u64 = 4;

pub const MONITORING_TAG_PROMETHEUS: u64 = 5;

/// The encoded members of a monitoring specification.
pub open spec fn monitoring_members(s: &crate::spark_application::MonitoringSpec) -> Seq<(nat, TreeView)> {
    m_opt_val(MONITORING_TAG_EXPOSE_DRIVER_METRICS, Some(TreeView::Bool(s.expose_driver_metrics))) + m_opt_val(MONITORING_TAG_EXPOSE_EXECUTOR_METRICS, Some(TreeView::Bool(s.expose_executor_metrics))) + m_opt_str(MONITORING_TAG_METRICS_PROPERTIES, ostr(&s.metrics_properties)) + m_opt_str(MONITORING_TAG_METRICS_PROPERTIES_FILE, ostr(&s.metrics_properties_file)) + m_opt_val(MONITORING_TAG_PROMETHEUS, (match &s.prometheus { Some(v) => Some(prometheus_view(v)), None => None }))
}

/// The encoded tree of a monitoring specification.
pub open spec fn monitoring_view(s: &crate::spark_application::MonitoringSpec) -> TreeView {
    TreeView::Obj(monitoring_members(s))
}

/// Encode a monitoring specification.
pub fn monitoring_to_tree(s: &crate::spark_application::MonitoringSpec) -> (r: Tree)
    ensures
        r@ == monitoring_view(s),
{
    let mut out: Vec<(u64, Tree)> = Vec::new();
    let ghost acc = Seq::<(nat, TreeView)>::empty();
    proof {
        assert(view_of_members(out@) =~= acc);
    }
    push_member(&mut out, MONITORING_TAG_EXPOSE_DRIVER_METRICS, Tree::Bool(s.expose_driver_metrics));
    proof {
        lemma_add_empty(acc);
        acc = acc + m_opt_val(MONITORING_TAG_EXPOSE_DRIVER_METRICS, Some(TreeView::Bool(s.expose_driver_metrics)));
        assert(view_of_members(out@) == acc);
    }
    push_member(&mut out, MONITORING_TAG_EXPOSE_EXECUTOR_METRICS, Tree::Bool(s.expose_executor_metrics));
    proof {
        lemma_add_empty(acc);
        acc = acc + m_opt_val(MONITORING_TAG_EXPOSE_EXECUTOR_METRICS, Some(TreeView::Bool(s.expose_executor_metrics)));
        assert(view_of_members(out@) == acc);
    }
    match &s.metrics_properties {
        Some(v) => {
            push_member(&mut out, MONITORING_TAG_METRICS_PROPERTIES, Tree::Str(v.clone()));
        }
        None => {}
    }
    proof {
        lemma_add_empty(acc);
        acc = acc + m_opt_str(MONITORING_TAG_METRICS_PROPERTIES, ostr(&s.metrics_properties));
        assert(view_of_members(out@) == acc);
    }
    match &s.metrics_properties_file {
        Some(v) => {
            push_member(&mut out, MONITORING_TAG_METRICS_PROPERTIES_FILE, Tree::Str(v.clone()));
        }
        None => {}
    }
    proof {
        lemma_add_empty(acc);
        acc = acc + m_opt_str(MONITORING_TAG_METRICS_PROPERTIES_FILE, ostr(&s.metrics_properties_file));
        assert(view_of_members(out@) == acc);
    }
    match &s.prometheus {
        Some(v) => {
            push_member(&mut out, MONITORING_TAG_PROMETHEUS, prometheus_to_tree(v));
        }
        None => {}
    }
    proof {
        lemma_add_empty(acc);
        acc = acc + m_opt_val(MONITORING_TAG_PROMETHEUS, (match &s.prometheus { Some(v) => Some(prometheus_view(v)), None => None }));
        assert(view_of_members(out@) == acc);
    }
    proof {
        assert(acc == monitoring_members(s));
    }
    Tree::Obj(out)
}

/// Whether a tree decodes as a monitoring specification.
pub open spec fn monitoring_shaped(t: TreeView) -> bool {
    match t {
        TreeView::Obj(ms) => {
            &&& slot_bool_req_ok(tree_get(ms, MONITORING_TAG_EXPOSE_DRIVER_METRICS as nat))
            &&& slot_bool_req_ok(tree_get(ms, MONITORING_TAG_EXPOSE_EXECUTOR_METRICS as nat))
            &&& slot_opt_str_ok(tree_get(ms, MONITORING_TAG_METRICS_PROPERTIES as nat))
            &&& slot_opt_str_ok(tree_get(ms, MONITORING_TAG_METRICS_PROPERTIES_FILE as nat))
            &&& (match tree_get(ms, MONITORING_TAG_PROMETHEUS as nat) { Some(t) => prometheus_shaped(t), None => true })
        }
        _ => false,
    }
}

/// How a decoded value relates to the tree it came from.
pub open spec fn monitoring_decodes(x: &crate::spark_application::MonitoringSpec, t: TreeView) -> bool {
    match t {
        TreeView::Obj(ms) => {
            &&& x.expose_driver_metrics == slot_bool_req(tree_get(ms, MONITORING_TAG_EXPOSE_DRIVER_METRICS as nat))
            &&& x.expose_executor_metrics == slot_bool_req(tree_get(ms, MONITORING_TAG_EXPOSE_EXECUTOR_METRICS as nat))
            &&& ostr(&x.metrics_properties) == slot_opt_str(tree_get(ms, MONITORING_TAG_METRICS_PROPERTIES as nat))
            &&& ostr(&x.metrics_properties_file) == slot_opt_str(tree_get(ms, MONITORING_TAG_METRICS_PROPERTIES_FILE as nat))
            &&& (match (&x.prometheus, tree_get(ms, MONITORING_TAG_PROMETHEUS as nat)) { (Some(v), Some(t)) => prometheus_decodes(v, t), (None, None) => true, _ => false })
        }
        _ => false,
    }
}

/// Decode a monitoring specification.
pub fn monitoring_from_tree(t: &Tree) -> (r: Result<crate::spark_application::MonitoringSpec, ()>)
    ensures
        r is Ok <==> monitoring_shaped(t@),
        r matches Ok(x) ==> monitoring_decodes(&x, t@),
{
    match t {
        Tree::Obj(ms) => {
            proof {
                crate::tree::lemma_view_of_members_index(ms@);
            }
            let expose_driver_metrics = match dec_bool_req(crate::tree::obj_get(ms, MONITORING_TAG_EXPOSE_DRIVER_METRICS)) {
                Ok(v) => v,
                Err(_) => {
                    return Err(());
                }
            };
            let expose_executor_metrics = match dec_bool_req(crate::tree::obj_get(ms, MONITORING_TAG_EXPOSE_EXECUTOR_METRICS)) {
                Ok(v) => v,
                Err(_) => {
                    return Err(());
                }
            };
            let metrics_properties = match dec_opt_str(crate::tree::obj_get(ms, MONITORING_TAG_METRICS_PROPERTIES)) {
                Ok(v) => v,
                Err(_) => {
                    return Err(());
                }
            };
            let metrics_properties_file = match dec_opt_str(crate::tree::obj_get(ms, MONITORING_TAG_METRICS_PROPERTIES_FILE)) {
                Ok(v) => v,
                Err(_) => {
                    return Err(());
                }
            };
            let prometheus = match crate::tree::obj_get(ms, MONITORING_TAG_PROMETHEUS) {
                Some(t) => match prometheus_from_tree(t) {
                    Ok(v) => Some(v),
                    Err(_) => {
                        return Err(());
                    }
                },
                None => None,
            };
            Ok(crate::spark_application::MonitoringSpec { expose_driver_metrics, expose_executor_metrics, metrics_properties, metrics_properties_file, prometheus })
        }
        _ => Err(()),
    }
}

/// The encoding of a monitoring specification is canonical, correctly shaped, decodes to the
/// value itself, and each tag looks up to the encoded field.
pub proof fn lemma_monitoring_canon(s: &crate::spark_application::MonitoringSpec)
    ensures
        unique_keys(monitoring_members(s)),
        vals_wf(monitoring_members(s)),
        keys_lt(monitoring_members(s), 6),
        wf_view(monitoring_view(s)),
        monitoring_shaped(monitoring_view(s)),
        monitoring_decodes(s, monitoring_view(s)),
        tree_get(monitoring_members(s), MONITORING_TAG_EXPOSE_DRIVER_METRICS as nat) == Some(TreeView::Bool(s.expose_driver_metrics)),
        tree_get(monitoring_members(s), MONITORING_TAG_EXPOSE_EXECUTOR_METRICS as nat) == Some(TreeView::Bool(s.expose_executor_metrics)),
        tree_get(monitoring_members(s), MONITORING_TAG_METRICS_PROPERTIES as nat) == slot_of_opt_str(ostr(&s.metrics_properties)),
        tree_get(monitoring_members(s), MONITORING_TAG_METRICS_PROPERTIES_FILE as nat) == slot_of_opt_str(ostr(&s.metrics_properties_file)),
        tree_get(monitoring_members(s), MONITORING_TAG_PROMETHEUS as nat) == (match &s.prometheus { Some(v) => Some(prometheus_view(v)), None => None }),
{
    match &s.prometheus {
        Some(v) => {
            lemma_prometheus_canon(v);
        }
        None => {}
    }
    let m1 = m_opt_val(MONITORING_TAG_EXPOSE_DRIVER_METRICS, Some(TreeView::Bool(s.expose_driver_metrics)));
    let m2 = m_opt_val(MONITORING_TAG_EXPOSE_EXECUTOR_METRICS, Some(TreeView::Bool(s.expose_executor_metrics)));
    let m3 = m_opt_str(MONITORING_TAG_METRICS_PROPERTIES, ostr(&s.metrics_properties));
    let m4 = m_opt_str(MONITORING_TAG_METRICS_PROPERTIES_FILE, ostr(&s.metrics_properties_file));
    let m5 = m_opt_val(MONITORING_TAG_PROMETHEUS, (match &s.prometheus { Some(v) => Some(prometheus_view(v)), None => None }));
    let l1 = m1;
    let l2 = l1 + m2;
    let l3 = l2 + m3;
    let l4 = l3 + m4;
    let l5 = l4 + m5;
    assert(Seq::<(nat, TreeView)>::empty() + m1 =~= m1);
    lemma_canon_extend(Seq::empty(), m1, 1, 2);
    lemma_canon_extend(l1, m2, 2, 3);
    lemma_canon_extend(l2, m3, 3, 4);
    lemma_canon_extend(l3, m4, 4, 5);
    lemma_canon_extend(l4, m5, 5, 6);
    lemma_tree_get_opt_val(MONITORING_TAG_EXPOSE_DRIVER_METRICS, Some(TreeView::Bool(s.expose_driver_metrics)));
    lemma_tree_get_opt_val(MONITORING_TAG_EXPOSE_EXECUTOR_METRICS, Some(TreeView::Bool(s.expose_executor_metrics)));
    lemma_tree_get_opt_val(MONITORING_TAG_METRICS_PROPERTIES, slot_of_opt_str(ostr(&s.metrics_properties)));
    lemma_tree_get_opt_val(MONITORING_TAG_METRICS_PROPERTIES_FILE, slot_of_opt_str(ostr(&s.metrics_properties_file)));
    lemma_tree_get_opt_val(MONITORING_TAG_PROMETHEUS, (match &s.prometheus { Some(v) => Some(prometheus_view(v)), None => None }));
    lemma_tree_get_concat(l1, m2);
    lemma_tree_get_concat(l2, m3);
    lemma_tree_get_concat(l3, m4);
    lemma_tree_get_concat(l4, m5);
    assert(monitoring_members(s) == l5);
}

/// Decoding the encoding of a monitoring specification gives the value back.
pub proof fn lemma_monitoring_roundtrip(x: &crate::spark_application::MonitoringSpec, s: &crate::spark_application::MonitoringSpec)
    requires
        monitoring_decodes(x, monitoring_view(s)),
    ensures
        x.same_as(s),
{
    lemma_monitoring_canon(s);
    match (&x.prometheus, &s.prometheus) {
        (Some(a), Some(b)) => {
            lemma_prometheus_roundtrip(a, b);
        }
        _ => {}
    }
}

/// Equal values encode to equal member lists.
pub proof fn lemma_monitoring_congruent(a: &crate::spark_application::MonitoringSpec, b: &crate::spark_application::MonitoringSpec)
    requires
        a.same_as(b),
    ensures
        monitoring_members(a) == monitoring_members(b),
{
    match (&a.prometheus, &b.prometheus) {
        (Some(x), Some(y)) => {
            lemma_prometheus_congruent(x, y);
        }
        _ => {}
    }
}

pub const BATCH_CONF_TAG_QUEUE: u64 = 1;

pub const BATCH_CONF_TAG_PRIORITY_CLASS_NAME: u64 = 2;

pub const BATCH_CONF_TAG_RESOURCES: u64 = 3;

/// The encoded members of batch scheduler options.
pub open spec fn batch_conf_members(s: &crate::spark_application::BatchSchedulerConfiguration) -> Seq<(nat, TreeView)> {
    m_opt_str(BATCH_CONF_TAG_QUEUE, ostr(&s.queue)) + m_opt_str(BATCH_CONF_TAG_PRIORITY_CLASS_NAME, ostr(&s.priority_class_name)) + m_opt_str(BATCH_CONF_TAG_RESOURCES, ostr(&s.resources))
}

/// The encoded tree of batch scheduler options.
pub open spec fn batch_conf_view(s: &crate::spark_application::BatchSchedulerConfiguration) -> TreeView {
    TreeView::Obj(batch_conf_members(s))
}

/// Encode batch scheduler options.
pub fn batch_conf_to_tree(s: &crate::spark_application::BatchSchedulerConfiguration) -> (r: Tree)
    ensures
        r@ == batch_conf_view(s),
{
    let mut out: Vec<(u64, Tree)> = Vec::new();
    let ghost acc = Seq::<(nat, TreeView)>::empty();
    proof {
        assert(view_of_members(out@) =~= acc);
    }
    match &s.queue {
        Some(v) => {
            push_member(&mut out, BATCH_CONF_TAG_QUEUE, Tree::Str(v.clone()));
        }
        None => {}
    }
    proof {
        lemma_add_empty(acc);
        acc = acc + m_opt_str(BATCH_CONF_TAG_QUEUE, ostr(&s.queue));
        assert(view_of_members(out@) == acc);
    }
    match &s.priority_class_name {
        Some(v) => {
            push_member(&mut out, BATCH_CONF_TAG_PRIORITY_CLASS_NAME, Tree::Str(v.clone()));
        }
        None => {}
    }
    proof {
        lemma_add_empty(acc);
        acc = acc + m_opt_str(BATCH_CONF_TAG_PRIORITY_CLASS_NAME, ostr(&s.priority_class_name));
        assert(view_of_members(out@) == acc);
    }
    match &s.resources {
        Some(v) => {
            push_member(&mut out, BATCH_CONF_TAG_RESOURCES, Tree::Str(v.clone()));
        }
        None => {}
    }
    proof {
        lemma_add_empty(acc);
        acc = acc + m_opt_str(BATCH_CONF_TAG_RESOURCES, ostr(&s.resources));
        assert(view_of_members(out@) == acc);
    }
    proof {
        assert(acc == batch_conf_members(s));
    }
    Tree::Obj(out)
}

/// Whether a tree decodes as batch scheduler options.
pub open spec fn batch_conf_shaped(t: TreeView) -> bool {
    match t {
        TreeView::Obj(ms) => {
            &&& slot_opt_str_ok(tree_get(ms, BATCH_CONF_TAG_QUEUE as nat))
            &&& slot_opt_str_ok(tree_get(ms, BATCH_CONF_TAG_PRIORITY_CLASS_NAME as nat))
            &&& slot_opt_str_ok(tree_get(ms, BATCH_CONF_TAG_RESOURCES as nat))
        }
        _ => false,
    }
}

/// How a decoded value relates to the tree it came from.
pub open spec fn batch_conf_decodes(x: &crate::spark_application::BatchSchedulerConfiguration, t: TreeView) -> bool {
    match t {
        TreeView::Obj(ms) => {
            &&& ostr(&x.queue) == slot_opt_str(tree_get(ms, BATCH_CONF_TAG_QUEUE as nat))
            &&& ostr(&x.priority_class_name) == slot_opt_str(tree_get(ms, BATCH_CONF_TAG_PRIORITY_CLASS_NAME as nat))
            &&& ostr(&x.resources) == slot_opt_str(tree_get(ms, BATCH_CONF_TAG_RESOURCES as nat))
        }
        _ => false,
    }
}

/// Decode batch scheduler options.
pub fn batch_conf_from_tree(t: &Tree) -> (r: Result<crate::spark_application::BatchSchedulerConfiguration, ()>)
    ensures
        r is Ok <==> batch_conf_shaped(t@),
        r matches Ok(x) ==> batch_conf_decodes(&x, t@),
{
    match t {
        Tree::Obj(ms) => {
            proof {
                crate::tree::lemma_view_of_members_index(ms@);
            }
            let queue = match dec_opt_str(crate::tree::obj_get(ms, BATCH_CONF_TAG_QUEUE)) {
                Ok(v) => v,
                Err(_) => {
                    return Err(());
                }
            };
            let priority_class_name = match dec_opt_str(crate::tree::obj_get(ms, BATCH_CONF_TAG_PRIORITY_CLASS_NAME)) {
                Ok(v) => v,
                Err(_) => {
                    return Err(());
                }
            };
            let resources = match dec_opt_str(crate::tree::obj_get(ms, BATCH_CONF_TAG_RESOURCES)) {
                Ok(v) => v,
                Err(_) => {
                    return Err(());
                }
            };
            Ok(crate::spark_application::BatchSchedulerConfiguration { queue, priority_class_name, resources })
        }
        _ => Err(()),
    }
}

/// The encoding of batch scheduler options is canonical, correctly shaped, decodes to the
/// value itself, and each tag looks up to the encoded field.
pub proof fn lemma_batch_conf_canon(s: &crate::spark_application::BatchSchedulerConfiguration)
    ensures
        unique_keys(batch_conf_members(s)),
        vals_wf(batch_conf_members(s)),
        keys_lt(batch_conf_members(s), 4),
        wf_view(batch_conf_view(s)),
        batch_conf_shaped(batch_conf_view(s)),
        batch_conf_decodes(s, batch_conf_view(s)),
        tree_get(batch_conf_members(s), BATCH_CONF_TAG_QUEUE as nat) == slot_of_opt_str(ostr(&s.queue)),
        tree_get(batch_conf_members(s), BATCH_CONF_TAG_PRIORITY_CLASS_NAME as nat) == slot_of_opt_str(ostr(&s.priority_class_name)),
        tree_get(batch_conf_members(s), BATCH_CONF_TAG_RESOURCES as nat) == slot_of_opt_str(ostr(&s.resources)),
{
    let m1 = m_opt_str(BATCH_CONF_TAG_QUEUE, ostr(&s.queue));
    let m2 = m_opt_str(BATCH_CONF_TAG_PRIORITY_CLASS_NAME, ostr(&s.priority_class_name));
    let m3 = m_opt_str(BATCH_CONF_TAG_RESOURCES, ostr(&s.resources));
    let l1 = m1;
    let l2 = l1 + m2;
    let l3 = l2 + m3;
    assert(Seq::<(nat, TreeView)>::empty() + m1 =~= m1);
    lemma_canon_extend(Seq::empty(), m1, 1, 2);
    lemma_canon_extend(l1, m2, 2, 3);
    lemma_canon_extend(l2, m3, 3, 4);
    lemma_tree_get_opt_val(BATCH_CONF_TAG_QUEUE, slot_of_opt_str(ostr(&s.queue)));
    lemma_tree_get_opt_val(BATCH_CONF_TAG_PRIORITY_CLASS_NAME, slot_of_opt_str(ostr(&s.priority_class_name)));
    lemma_tree_get_opt_val(BATCH_CONF_TAG_RESOURCES, slot_of_opt_str(ostr(&s.resources)));
    lemma_tree_get_concat(l1, m2);
    lemma_tree_get_concat(l2, m3);
    assert(batch_conf_members(s) == l3);
}

/// Decoding the encoding of batch scheduler options gives the value back.
pub proof fn lemma_batch_conf_roundtrip(x: &crate::spark_application::BatchSchedulerConfiguration, s: &crate::spark_application::BatchSchedulerConfiguration)
    requires
        batch_conf_decodes(x, batch_conf_view(s)),
    ensures
        x.same_as(s),
{
    lemma_batch_conf_canon(s);
}

/// Equal values encode to equal member lists.
pub proof fn lemma_batch_conf_congruent(a: &crate::spark_application::BatchSchedulerConfiguration, b: &crate::spark_application::BatchSchedulerConfiguration)
    requires
        a.same_as(b),
    ensures
        batch_conf_members(a) == batch_conf_members(b),
{
}

pub const UI_CONF_TAG_SERVICE_PORT: u64 = 1;

pub const UI_CONF_TAG_SERVICE_PORT_NAME: u64 = 2;

pub const UI_CONF_TAG_SERVICE_TYPE: u64 = 3;

pub const UI_CONF_TAG_SERVICE_ANNOTATIONS: u64 = 4;

/// The encoded members of web UI service options.
pub open spec fn ui_conf_members(s: &crate::spark_application::SparkUIConfiguration) -> Seq<(nat, TreeView)> {
    m_opt_val(UI_CONF_TAG_SERVICE_PORT, Some(TreeView::Int(s.service_port as int))) + m_str(UI_CONF_TAG_SERVICE_PORT_NAME, s.service_port_name@) + m_str(UI_CONF_TAG_SERVICE_TYPE, s.service_type@) + m_opt_map(UI_CONF_TAG_SERVICE_ANNOTATIONS, omap(&s.service_annotations))
}

/// The encoded tree of web UI service options.
pub open spec fn ui_conf_view(s: &crate::spark_application::SparkUIConfiguration) -> TreeView {
    TreeView::Obj(ui_conf_members(s))
}

/// Encode web UI service options.
pub fn ui_conf_to_tree(s: &crate::spark_application::SparkUIConfiguration) -> (r: Tree)
    ensures
        r@ == ui_conf_view(s),
{
    let mut out: Vec<(u64, Tree)> = Vec::new();
    let ghost acc = Seq::<(nat, TreeView)>::empty();
    proof {
        assert(view_of_members(out@) =~= acc);
    }
    push_member(&mut out, UI_CONF_TAG_SERVICE_PORT, Tree::Int(s.service_port as i64));
    proof {
        lemma_add_empty(acc);
        acc = acc + m_opt_val(UI_CONF_TAG_SERVICE_PORT, Some(TreeView::Int(s.service_port as int)));
        assert(view_of_members(out@) == acc);
    }
    push_member(&mut out, UI_CONF_TAG_SERVICE_PORT_NAME, Tree::Str(s.service_port_name.clone()));
    proof {
        lemma_add_empty(acc);
        acc = acc + m_str(UI_CONF_TAG_SERVICE_PORT_NAME, s.service_port_name@);
        assert(view_of_members(out@) == acc);
    }
    push_member(&mut out, UI_CONF_TAG_SERVICE_TYPE, Tree::Str(s.service_type.clone()));
    proof {
        lemma_add_empty(acc);
        acc = acc + m_str(UI_CONF_TAG_SERVICE_TYPE, s.service_type@);
        assert(view_of_members(out@) == acc);
    }
    match &s.service_annotations {
        Some(m) => {
            push_member(&mut out, UI_CONF_TAG_SERVICE_ANNOTATIONS, Tree::StrMap(m.clone()));
        }
        None => {}
    }
    proof {
        lemma_add_empty(acc);
        acc = acc + m_opt_map(UI_CONF_TAG_SERVICE_ANNOTATIONS, omap(&s.service_annotations));
        assert(view_of_members(out@) == acc);
    }
    proof {
        assert(acc == ui_conf_members(s));
    }
    Tree::Obj(out)
}

/// Whether a tree decodes as web UI service options.
pub open spec fn ui_conf_shaped(t: TreeView) -> bool {
    match t {
        TreeView::Obj(ms) => {
            &&& slot_i32_req_ok(tree_get(ms, UI_CONF_TAG_SERVICE_PORT as nat))
            &&& slot_str_req_ok(tree_get(ms, UI_CONF_TAG_SERVICE_PORT_NAME as nat))
            &&& slot_str_req_ok(tree_get(ms, UI_CONF_TAG_SERVICE_TYPE as nat))
            &&& slot_opt_map_ok(tree_get(ms, UI_CONF_TAG_SERVICE_ANNOTATIONS as nat))
        }
        _ => false,
    }
}

/// How a decoded value relates to the tree it came from.
pub open spec fn ui_conf_decodes(x: &crate::spark_application::SparkUIConfiguration, t: TreeView) -> bool {
    match t {
        TreeView::Obj(ms) => {
            &&& x.service_port as int == slot_int_req(tree_get(ms, UI_CONF_TAG_SERVICE_PORT as nat))
            &&& x.service_port_name@ == slot_str_req(tree_get(ms, UI_CONF_TAG_SERVICE_PORT_NAME as nat))
            &&& x.service_type@ == slot_str_req(tree_get(ms, UI_CONF_TAG_SERVICE_TYPE as nat))
            &&& omap(&x.service_annotations) == slot_opt_map(tree_get(ms, UI_CONF_TAG_SERVICE_ANNOTATIONS as nat))
        }
        _ => false,
    }
}

/// Decode web UI service options.
pub fn ui_conf_from_tree(t: &Tree) -> (r: Result<crate::spark_application::SparkUIConfiguration, ()>)
    ensures
        r is Ok <==> ui_conf_shaped(t@),
        r matches Ok(x) ==> ui_conf_decodes(&x, t@),
{
    match t {
        Tree::Obj(ms) => {
            proof {
                crate::tree::lemma_view_of_members_index(ms@);
            }
            let service_port = match dec_i32_req(crate::tree::obj_get(ms, UI_CONF_TAG_SERVICE_PORT)) {
                Ok(v) => v,
                Err(_) => {
                    return Err(());
                }
            };
            let service_port_name = match dec_str_req(crate::tree::obj_get(ms, UI_CONF_TAG_SERVICE_PORT_NAME)) {
                Ok(v) => v,
                Err(_) => {
                    return Err(());
                }
            };
            let service_type = match dec_str_req(crate::tree::obj_get(ms, UI_CONF_TAG_SERVICE_TYPE)) {
                Ok(v) => v,
                Err(_) => {
                    return Err(());
                }
            };
            let service_annotations = match dec_opt_map(crate::tree::obj_get(ms, UI_CONF_TAG_SERVICE_ANNOTATIONS)) {
                Ok(v) => v,
                Err(_) => {
                    return Err(());
                }
            };
            Ok(crate::spark_application::SparkUIConfiguration { service_port, service_port_name, service_type, service_annotations })
        }
        _ => Err(()),
    }
}

/// The encoding of web UI service options is canonical, correctly shaped, decodes to the
/// value itself, and each tag looks up to the encoded field.
pub proof fn lemma_ui_conf_canon(s: &crate::spark_application::SparkUIConfiguration)
    ensures
        unique_keys(ui_conf_members(s)),
        vals_wf(ui_conf_members(s)),
        keys_lt(ui_conf_members(s), 5),
        wf_view(ui_conf_view(s)),
        ui_conf_shaped(ui_conf_view(s)),
        ui_conf_decodes(s, ui_conf_view(s)),
        tree_get(ui_conf_members(s), UI_CONF_TAG_SERVICE_PORT as nat) == Some(TreeView::Int(s.service_port as int)),
        tree_get(ui_conf_members(s), UI_CONF_TAG_SERVICE_PORT_NAME as nat) == slot_of_str(s.service_port_name@),
        tree_get(ui_conf_members(s), UI_CONF_TAG_SERVICE_TYPE as nat) == slot_of_str(s.service_type@),
        tree_get(ui_conf_members(s), UI_CONF_TAG_SERVICE_ANNOTATIONS as nat) == slot_of_opt_map(omap(&s.service_annotations)),
{
    let m1 = m_opt_val(UI_CONF_TAG_SERVICE_PORT, Some(TreeView::Int(s.service_port as int)));
    let m2 = m_str(UI_CONF_TAG_SERVICE_PORT_NAME, s.service_port_name@);
    let m3 = m_str(UI_CONF_TAG_SERVICE_TYPE, s.service_type@);
    let m4 = m_opt_map(UI_CONF_TAG_SERVICE_ANNOTATIONS, omap(&s.service_annotations));
    let l1 = m1;
    let l2 = l1 + m2;
    let l3 = l2 + m3;
    let l4 = l3 + m4;
    assert(Seq::<(nat, TreeView)>::empty() + m1 =~= m1);
    lemma_canon_extend(Seq::empty(), m1, 1, 2);
    lemma_canon_extend(l1, m2, 2, 3);
    lemma_canon_extend(l2, m3, 3, 4);
    lemma_canon_extend(l3, m4, 4, 5);
    lemma_tree_get_opt_val(UI_CONF_TAG_SERVICE_PORT, Some(TreeView::Int(s.service_port as int)));
    lemma_tree_get_opt_val(UI_CONF_TAG_SERVICE_PORT_NAME, slot_of_str(s.service_port_name@));
    lemma_tree_get_opt_val(UI_CONF_TAG_SERVICE_TYPE, slot_of_str(s.service_type@));
    lemma_tree_get_opt_val(UI_CONF_TAG_SERVICE_ANNOTATIONS, slot_of_opt_map(omap(&s.service_annotations)));
    lemma_tree_get_concat(l1, m2);
    lemma_tree_get_concat(l2, m3);
    lemma_tree_get_concat(l3, m4);
    assert(ui_conf_members(s) == l4);
}

/// Decoding the encoding of web UI service options gives the value back.
pub proof fn lemma_ui_conf_roundtrip(x: &crate::spark_application::SparkUIConfiguration, s: &crate::spark_application::SparkUIConfiguration)
    requires
        ui_conf_decodes(x, ui_conf_view(s)),
    ensures
        x.same_as(s),
{
    lemma_ui_conf_canon(s);
}

/// Equal values encode to equal member lists.
pub proof fn lemma_ui_conf_congruent(a: &crate::spark_application::SparkUIConfiguration, b: &crate::spark_application::SparkUIConfiguration)
    requires
        a.same_as(b),
    ensures
        ui_conf_members(a) == ui_conf_members(b),
{
}

pub const DYNAMIC_ALLOCATION_TAG_ENABLED: u64 = 1;

pub const DYNAMIC_ALLOCATION_TAG_INITIAL_EXECUTORS: u64 = 2;

pub const DYNAMIC_ALLOCATION_TAG_MIN_EXECUTORS: u64 = 3;

pub const DYNAMIC_ALLOCATION_TAG_MAX_EXECUTORS: u64 = 4;

pub const DYNAMIC_ALLOCATION_TAG_SHUFFLE_TRACKING_TIMEOUT: u64 = 5;

/// The encoded members of a dynamic-allocation configuration.
pub open spec fn dynamic_allocation_members(s: &crate::spark_application::DynamicAllocation) -> Seq<(nat, TreeView)> {
    m_opt_bool(DYNAMIC_ALLOCATION_TAG_ENABLED, s.enabled) + m_opt_int(DYNAMIC_ALLOCATION_TAG_INITIAL_EXECUTORS, oi32(s.initial_executors)) + m_opt_int(DYNAMIC_ALLOCATION_TAG_MIN_EXECUTORS, oi32(s.min_executors)) + m_opt_int(DYNAMIC_ALLOCATION_TAG_MAX_EXECUTORS, oi32(s.max_executors)) + m_opt_int(DYNAMIC_ALLOCATION_TAG_SHUFFLE_TRACKING_TIMEOUT, oi32(s.shuffle_tracking_timeout))
}

/// The encoded tree of a dynamic-allocation configuration.
pub open spec fn dynamic_allocation_view(s: &crate::spark_application::DynamicAllocation) -> TreeView {
    TreeView::Obj(dynamic_allocation_members(s))
}

/// Encode a dynamic-allocation configuration.
pub fn dynamic_allocation_to_tree(s: &crate::spark_application::DynamicAllocation) -> (r: Tree)
    ensures
        r@ == dynamic_allocation_view(s),
{
    let mut out: Vec<(u64, Tree)> = Vec::new();
    let ghost acc = Seq::<(nat, TreeView)>::empty();
    proof {
        assert(view_of_members(out@) =~= acc);
    }
    match s.enabled {
        Some(v) => {
            push_member(&mut out, DYNAMIC_ALLOCATION_TAG_ENABLED, Tree::Bool(v));
        }
        None => {}
    }
    proof {
        lemma_add_empty(acc);
        acc = acc + m_opt_bool(DYNAMIC_ALLOCATION_TAG_ENABLED, s.enabled);
        assert(view_of_members(out@) == acc);
    }
    match s.initial_executors {
        Some(v) => {
            push_member(&mut out, DYNAMIC_ALLOCATION_TAG_INITIAL_EXECUTORS, Tree::Int(v as i64));
        }
        None => {}
    }
    proof {
        lemma_add_empty(acc);
        acc = acc + m_opt_int(DYNAMIC_ALLOCATION_TAG_INITIAL_EXECUTORS, oi32(s.initial_executors));
        assert(view_of_members(out@) == acc);
    }
    match s.min_executors {
        Some(v) => {
            push_member(&mut out, DYNAMIC_ALLOCATION_TAG_MIN_EXECUTORS, Tree::Int(v as i64));
        }
        None => {}
    }
    proof {
        lemma_add_empty(acc);
        acc = acc + m_opt_int(DYNAMIC_ALLOCATION_TAG_MIN_EXECUTORS, oi32(s.min_executors));
        assert(view_of_members(out@) == acc);
    }
    match s.max_executors {
        Some(v) => {
            push_member(&mut out, DYNAMIC_ALLOCATION_TAG_MAX_EXECUTORS, Tree::Int(v as i64));
        }
        None => {}
    }
    proof {
        lemma_add_empty(acc);
        acc = acc + m_opt_int(DYNAMIC_ALLOCATION_TAG_MAX_EXECUTORS, oi32(s.max_executors));
        assert(view_of_members(out@) == acc);
    }
    match s.shuffle_tracking_timeout {
        Some(v) => {
            push_member(&mut out, DYNAMIC_ALLOCATION_TAG_SHUFFLE_TRACKING_TIMEOUT, Tree::Int(v as i64));
        }
        None => {}
    }
    proof {
        lemma_add_empty(acc);
        acc = acc + m_opt_int(DYNAMIC_ALLOCATION_TAG_SHUFFLE_TRACKING_TIMEOUT, oi32(s.shuffle_tracking_timeout));
        assert(view_of_members(out@) == acc);
    }
    proof {
        assert(acc == dynamic_allocation_members(s));
    }
    Tree::Obj(out)
}

/// Whether a tree decodes as a dynamic-allocation configuration.
pub open spec fn dynamic_allocation_shaped(t: TreeView) -> bool {
    match t {
        TreeView::Obj(ms) => {
            &&& slot_opt_bool_ok(tree_get(ms, DYNAMIC_ALLOCATION_TAG_ENABLED as nat))
            &&& slot_opt_i32_ok(tree_get(ms, DYNAMIC_ALLOCATION_TAG_INITIAL_EXECUTORS as nat))
            &&& slot_opt_i32_ok(tree_get(ms, DYNAMIC_ALLOCATION_TAG_MIN_EXECUTORS as nat))
            &&& slot_opt_i32_ok(tree_get(ms, DYNAMIC_ALLOCATION_TAG_MAX_EXECUTORS as nat))
            &&& slot_opt_i32_ok(tree_get(ms, DYNAMIC_ALLOCATION_TAG_SHUFFLE_TRACKING_TIMEOUT as nat))
        }
        _ => false,
    }
}

/// How a decoded value relates to the tree it came from.
pub open spec fn dynamic_allocation_decodes(x: &crate::spark_application::DynamicAllocation, t: TreeView) -> bool {
    match t {
        TreeView::Obj(ms) => {
            &&& x.enabled == slot_opt_bool(tree_get(ms, DYNAMIC_ALLOCATION_TAG_ENABLED as nat))
            &&& oi32(x.initial_executors) == slot_opt_i32(tree_get(ms, DYNAMIC_ALLOCATION_TAG_INITIAL_EXECUTORS as nat))
            &&& oi32(x.min_executors) == slot_opt_i32(tree_get(ms, DYNAMIC_ALLOCATION_TAG_MIN_EXECUTORS as nat))
            &&& oi32(x.max_executors) == slot_opt_i32(tree_get(ms, DYNAMIC_ALLOCATION_TAG_MAX_EXECUTORS as nat))
            &&& oi32(x.shuffle_tracking_timeout) == slot_opt_i32(tree_get(ms, DYNAMIC_ALLOCATION_TAG_SHUFFLE_TRACKING_TIMEOUT as nat))
        }
        _ => false,
    }
}

/// Decode a dynamic-allocation configuration.
pub fn dynamic_allocation_from_tree(t: &Tree) -> (r: Result<crate::spark_application::DynamicAllocation, ()>)
    ensures
        r is Ok <==> dynamic_allocation_shaped(t@),
        r matches Ok(x) ==> dynamic_allocation_decodes(&x, t@),
{
    match t {
        Tree::Obj(ms) => {
            proof {
                crate::tree::lemma_view_of_members_index(ms@);
            }
            let enabled = match dec_opt_bool(crate::tree::obj_get(ms, DYNAMIC_ALLOCATION_TAG_ENABLED)) {
                Ok(v) => v,
                Err(_) => {
                    return Err(());
                }
            };
            let initial_executors = match dec_opt_i32(crate::tree::obj_get(ms, DYNAMIC_ALLOCATION_TAG_INITIAL_EXECUTORS)) {
                Ok(v) => v,
                Err(_) => {
                    return Err(());
                }
            };
            let min_executors = match dec_opt_i32(crate::tree::obj_get(ms, DYNAMIC_ALLOCATION_TAG_MIN_EXECUTORS)) {
                Ok(v) => v,
                Err(_) => {
                    return Err(());
                }
            };
            let max_executors = match dec_opt_i32(crate::tree::obj_get(ms, DYNAMIC_ALLOCATION_TAG_MAX_EXECUTORS)) {
                Ok(v) => v,
                Err(_) => {
                    return Err(());
                }
            };
            let shuffle_tracking_timeout = match dec_opt_i32(crate::tree::obj_get(ms, DYNAMIC_ALLOCATION_TAG_SHUFFLE_TRACKING_TIMEOUT)) {
                Ok(v) => v,
                Err(_) => {
                    return Err(());
                }
            };
            Ok(crate::spark_application::DynamicAllocation { enabled, initial_executors, min_executors, max_executors, shuffle_tracking_timeout })
        }
        _ => Err(()),
    }
}

/// The encoding of a dynamic-allocation configuration is canonical, correctly shaped, decodes to the
/// value itself, and each tag looks up to the encoded field.
pub proof fn lemma_dynamic_allocation_canon(s: &crate::spark_application::DynamicAllocation)
    ensures
        unique_keys(dynamic_allocation_members(s)),
        vals_wf(dynamic_allocation_members(s)),
        keys_lt(dynamic_allocation_members(s), 6),
        wf_view(dynamic_allocation_view(s)),
        dynamic_allocation_shaped(dynamic_allocation_view(s)),
        dynamic_allocation_decodes(s, dynamic_allocation_view(s)),
        tree_get(dynamic_allocation_members(s), DYNAMIC_ALLOCATION_TAG_ENABLED as nat) == slot_of_opt_bool(s.enabled),
        tree_get(dynamic_allocation_members(s), DYNAMIC_ALLOCATION_TAG_INITIAL_EXECUTORS as nat) == slot_of_opt_int(oi32(s.initial_executors)),
        tree_get(dynamic_allocation_members(s), DYNAMIC_ALLOCATION_TAG_MIN_EXECUTORS as nat) == slot_of_opt_int(oi32(s.min_executors)),
        tree_get(dynamic_allocation_members(s), DYNAMIC_ALLOCATION_TAG_MAX_EXECUTORS as nat) == slot_of_opt_int(oi32(s.max_executors)),
        tree_get(dynamic_allocation_members(s), DYNAMIC_ALLOCATION_TAG_SHUFFLE_TRACKING_TIMEOUT as nat) == slot_of_opt_int(oi32(s.shuffle_tracking_timeout)),
{
    let m1 = m_opt_bool(DYNAMIC_ALLOCATION_TAG_ENABLED, s.enabled);
    let m2 = m_opt_int(DYNAMIC_ALLOCATION_TAG_INITIAL_EXECUTORS, oi32(s.initial_executors));
    let m3 = m_opt_int(DYNAMIC_ALLOCATION_TAG_MIN_EXECUTORS, oi32(s.min_executors));
    let m4 = m_opt_int(DYNAMIC_ALLOCATION_TAG_MAX_EXECUTORS, oi32(s.max_executors));
    let m5 = m_opt_int(DYNAMIC_ALLOCATION_TAG_SHUFFLE_TRACKING_TIMEOUT, oi32(s.shuffle_tracking_timeout));
    let l1 = m1;
    let l2 = l1 + m2;
    let l3 = l2 + m3;
    let l4 = l3 + m4;
    let l5 = l4 + m5;
    assert(Seq::<(nat, TreeView)>::empty() + m1 =~= m1);
    lemma_canon_extend(Seq::empty(), m1, 1, 2);
    lemma_canon_extend(l1, m2, 2, 3);
    lemma_canon_extend(l2, m3, 3, 4);
    lemma_canon_extend(l3, m4, 4, 5);
    lemma_canon_extend(l4, m5, 5, 6);
    lemma_tree_get_opt_val(DYNAMIC_ALLOCATION_TAG_ENABLED, slot_of_opt_bool(s.enabled));
    lemma_tree_get_opt_val(DYNAMIC_ALLOCATION_TAG_INITIAL_EXECUTORS, slot_of_opt_int(oi32(s.initial_executors)));
    lemma_tree_get_opt_val(DYNAMIC_ALLOCATION_TAG_MIN_EXECUTORS, slot_of_opt_int(oi32(s.min_executors)));
    lemma_tree_get_opt_val(DYNAMIC_ALLOCATION_TAG_MAX_EXECUTORS, slot_of_opt_int(oi32(s.max_executors)));
    lemma_tree_get_opt_val(DYNAMIC_ALLOCATION_TAG_SHUFFLE_TRACKING_TIMEOUT, slot_of_opt_int(oi32(s.shuffle_tracking_timeout)));
    lemma_tree_get_concat(l1, m2);
    lemma_tree_get_concat(l2, m3);
    lemma_tree_get_concat(l3, m4);
    lemma_tree_get_concat(l4, m5);
    assert(dynamic_allocation_members(s) == l5);
}

/// Decoding the encoding of a dynamic-allocation configuration gives the value back.
pub proof fn lemma_dynamic_allocation_roundtrip(x: &crate::spark_application::DynamicAllocation, s: &crate::spark_application::DynamicAllocation)
    requires
        dynamic_allocation_decodes(x, dynamic_allocation_view(s)),
    ensures
        x.same_as(s),
{
    lemma_dynamic_allocation_canon(s);
}

/// Equal values encode to equal member lists.
pub proof fn lemma_dynamic_allocation_congruent(a: &crate::spark_application::DynamicAllocation, b: &crate::spark_application::DynamicAllocation)
    requires
        a.same_as(b),
    ensures
        dynamic_allocation_members(a) == dynamic_allocation_members(b),
{
}

pub const INLINE_CREDS_TAG_ACCESS_KEY: u64 = 1;

pub const INLINE_CREDS_TAG_SECRET_KEY: u64 = 2;

/// The encoded members of inlined S3 credentials.
pub open spec fn inline_creds_members(s: &crate::s3::InlineS3Credentials) -> Seq<(nat, TreeView)> {
    m_str(INLINE_CREDS_TAG_ACCESS_KEY, s.access_key@) + m_str(INLINE_CREDS_TAG_SECRET_KEY, s.secret_key@)
}

/// The encoded tree of inlined S3 credentials.
pub open spec fn inline_creds_view(s: &crate::s3::InlineS3Credentials) -> TreeView {
    TreeView::Obj(inline_creds_members(s))
}

/// Encode inlined S3 credentials.
pub fn inline_creds_to_tree(s: &crate::s3::InlineS3Credentials) -> (r: Tree)
    ensures
        r@ == inline_creds_view(s),
{
    let mut out: Vec<(u64, Tree)> = Vec::new();
    let ghost acc = Seq::<(nat, TreeView)>::empty();
    proof {
        assert(view_of_members(out@) =~= acc);
    }
    push_member(&mut out, INLINE_CREDS_TAG_ACCESS_KEY, Tree::Str(s.access_key.clone()));
    proof {
        lemma_add_empty(acc);
        acc = acc + m_str(INLINE_CREDS_TAG_ACCESS_KEY, s.access_key@);
        assert(view_of_members(out@) == acc);
    }
    push_member(&mut out, INLINE_CREDS_TAG_SECRET_KEY, Tree::Str(s.secret_key.clone()));
    proof {
        lemma_add_empty(acc);
        acc = acc + m_str(INLINE_CREDS_TAG_SECRET_KEY, s.secret_key@);
        assert(view_of_members(out@) == acc);
    }
    proof {
        assert(acc == inline_creds_members(s));
    }
    Tree::Obj(out)
}

/// Whether a tree decodes as inlined S3 credentials.
pub open spec fn inline_creds_shaped(t: TreeView) -> bool {
    match t {
        TreeView::Obj(ms) => {
            &&& slot_str_req_ok(tree_get(ms, INLINE_CREDS_TAG_ACCESS_KEY as nat))
            &&& slot_str_req_ok(tree_get(ms, INLINE_CREDS_TAG_SECRET_KEY as nat))
        }
        _ => false,
    }
}

/// How a decoded value relates to the tree it came from.
pub open spec fn inline_creds_decodes(x: &crate::s3::InlineS3Credentials, t: TreeView) -> bool {
    match t {
        TreeView::Obj(ms) => {
            &&& x.access_key@ == slot_str_req(tree_get(ms, INLINE_CREDS_TAG_ACCESS_KEY as nat))
            &&& x.secret_key@ == slot_str_req(tree_get(ms, INLINE_CREDS_TAG_SECRET_KEY as nat))
        }
        _ => false,
    }
}

/// Decode inlined S3 credentials.
pub fn inline_creds_from_tree(t: &Tree) -> (r: Result<crate::s3::InlineS3Credentials, ()>)
    ensures
        r is Ok <==> inline_creds_shaped(t@),
        r matches Ok(x) ==> inline_creds_decodes(&x, t@),
{
    match t {
        Tree::Obj(ms) => {
            proof {
                crate::tree::lemma_view_of_members_index(ms@);
            }
            let access_key = match dec_str_req(crate::tree::obj_get(ms, INLINE_CREDS_TAG_ACCESS_KEY)) {
                Ok(v) => v,
                Err(_) => {
                    return Err(());
                }
            };
            let secret_key = match dec_str_req(crate::tree::obj_get(ms, INLINE_CREDS_TAG_SECRET_KEY)) {
                Ok(v) => v,
                Err(_) => {
                    return Err(());
                }
            };
            Ok(crate::s3::InlineS3Credentials { access_key, secret_key })
        }
        _ => Err(()),
    }
}

/// The encoding of inlined S3 credentials is canonical, correctly shaped, decodes to the
/// value itself, and each tag looks up to the encoded field.
pub proof fn lemma_inline_creds_canon(s: &crate::s3::InlineS3Credentials)
    ensures
        unique_keys(inline_creds_members(s)),
        vals_wf(inline_creds_members(s)),
        keys_lt(inline_creds_members(s), 3),
        wf_view(inline_creds_view(s)),
        inline_creds_shaped(inline_creds_view(s)),
        inline_creds_decodes(s, inline_creds_view(s)),
        tree_get(inline_creds_members(s), INLINE_CREDS_TAG_ACCESS_KEY as nat) == slot_of_str(s.access_key@),
        tree_get(inline_creds_members(s), INLINE_CREDS_TAG_SECRET_KEY as nat) == slot_of_str(s.secret_key@),
{
    let m1 = m_str(INLINE_CREDS_TAG_ACCESS_KEY, s.access_key@);
    let m2 = m_str(INLINE_CREDS_TAG_SECRET_KEY, s.secret_key@);
    let l1 = m1;
    let l2 = l1 + m2;
    assert(Seq::<(nat, TreeView)>::empty() + m1 =~= m1);
    lemma_canon_extend(Seq::empty(), m1, 1, 2);
    lemma_canon_extend(l1, m2, 2, 3);
    lemma_tree_get_opt_val(INLINE_CREDS_TAG_ACCESS_KEY, slot_of_str(s.access_key@));
    lemma_tree_get_opt_val(INLINE_CREDS_TAG_SECRET_KEY, slot_of_str(s.secret_key@));
    lemma_tree_get_concat(l1, m2);
    assert(inline_creds_members(s) == l2);
}

/// Decoding the encoding of inlined S3 credentials gives the value back.
pub proof fn lemma_inline_creds_roundtrip(x: &crate::s3::InlineS3Credentials, s: &crate::s3::InlineS3Credentials)
    requires
        inline_creds_decodes(x, inline_creds_view(s)),
    ensures
        x.same_as(s),
{
    lemma_inline_creds_canon(s);
}

/// Equal values encode to equal member lists.
pub proof fn lemma_inline_creds_congruent(a: &crate::s3::InlineS3Credentials, b: &crate::s3::InlineS3Credentials)
    requires
        a.same_as(b),
    ensures
        inline_creds_members(a) == inline_creds_members(b),
{
}

pub const DEPS_TAG_JARS: u64 = 1;

pub const DEPS_TAG_FILES: u64 = 2;

pub const DEPS_TAG_PY_FILES: u64 = 3;

pub const DEPS_TAG_PACKAGES: u64 = 4;

pub const DEPS_TAG_EXCLUDE_PACKAGES: u64 = 5;

pub const DEPS_TAG_REPOSITORIES: u64 = 6;

/// The encoded members of dependency lists.
pub open spec fn deps_members(s: &crate::spark_application::Dependencies) -> Seq<(nat, TreeView)> {
    m_opt_list(DEPS_TAG_JARS, olist(&s.jars)) + m_opt_list(DEPS_TAG_FILES, olist(&s.files)) + m_opt_list(DEPS_TAG_PY_FILES, olist(&s.py_files)) + m_opt_list(DEPS_TAG_PACKAGES, olist(&s.packages)) + m_opt_list(DEPS_TAG_EXCLUDE_PACKAGES, olist(&s.exclude_packages)) + m_opt_list(DEPS_TAG_REPOSITORIES, olist(&s.repositories))
}

/// The encoded tree of dependency lists.
pub open spec fn deps_view(s: &crate::spark_application::Dependencies) -> TreeView {
    TreeView::Obj(deps_members(s))
}

/// Encode dependency lists.
pub fn deps_to_tree(s: &crate::spark_application::Dependencies) -> (r: Tree)
    ensures
        r@ == deps_view(s),
{
    let mut out: Vec<(u64, Tree)> = Vec::new();
    let ghost acc = Seq::<(nat, TreeView)>::empty();
    proof {
        assert(view_of_members(out@) =~= acc);
    }
    match &s.jars {
        Some(v) => {
            push_member(&mut out, DEPS_TAG_JARS, Tree::StrList(crate::tree::clone_strings(v)));
        }
        None => {}
    }
    proof {
        lemma_add_empty(acc);
        acc = acc + m_opt_list(DEPS_TAG_JARS, olist(&s.jars));
        assert(view_of_members(out@) == acc);
    }
    match &s.files {
        Some(v) => {
            push_member(&mut out, DEPS_TAG_FILES, Tree::StrList(crate::tree::clone_strings(v)));
        }
        None => {}
    }
    proof {
        lemma_add_empty(acc);
        acc = acc + m_opt_list(DEPS_TAG_FILES, olist(&s.files));
        assert(view_of_members(out@) == acc);
    }
    match &s.py_files {
        Some(v) => {
            push_member(&mut out, DEPS_TAG_PY_FILES, Tree::StrList(crate::tree::clone_strings(v)));
        }
        None => {}
    }
    proof {
        lemma_add_empty(acc);
        acc = acc + m_opt_list(DEPS_TAG_PY_FILES, olist(&s.py_files));
        assert(view_of_members(out@) == acc);
    }
    match &s.packages {
        Some(v) => {
            push_member(&mut out, DEPS_TAG_PACKAGES, Tree::StrList(crate::tree::clone_strings(v)));
        }
        None => {}
    }
    proof {
        lemma_add_empty(acc);
        acc = acc + m_opt_list(DEPS_TAG_PACKAGES, olist(&s.packages));
        assert(view_of_members(out@) == acc);
    }
    match &s.exclude_packages {
        Some(v) => {
            push_member(&mut out, DEPS_TAG_EXCLUDE_PACKAGES, Tree::StrList(crate::tree::clone_strings(v)));
        }
        None => {}
    }
    proof {
        lemma_add_empty(acc);
        acc = acc + m_opt_list(DEPS_TAG_EXCLUDE_PACKAGES, olist(&s.exclude_packages));
        assert(view_of_members(out@) == acc);
    }
    match &s.repositories {
        Some(v) => {
            push_member(&mut out, DEPS_TAG_REPOSITORIES, Tree::StrList(crate::tree::clone_strings(v)));
        }
        None => {}
    }
    proof {
        lemma_add_empty(acc);
        acc = acc + m_opt_list(DEPS_TAG_REPOSITORIES, olist(&s.repositories));
        assert(view_of_members(out@) == acc);
    }
    proof {
        assert(acc == deps_members(s));
    }
    Tree::Obj(out)
}

/// Whether a tree decodes as dependency lists.
pub open spec fn deps_shaped(t: TreeView) -> bool {
    match t {
        TreeView::Obj(ms) => {
            &&& slot_opt_list_ok(tree_get(ms, DEPS_TAG_JARS as nat))
            &&& slot_opt_list_ok(tree_get(ms, DEPS_TAG_FILES as nat))
            &&& slot_opt_list_ok(tree_get(ms, DEPS_TAG_PY_FILES as nat))
            &&& slot_opt_list_ok(tree_get(ms, DEPS_TAG_PACKAGES as nat))
            &&& slot_opt_list_ok(tree_get(ms, DEPS_TAG_EXCLUDE_PACKAGES as nat))
            &&& slot_opt_list_ok(tree_get(ms, DEPS_TAG_REPOSITORIES as nat))
        }
        _ => false,
    }
}

/// How a decoded value relates to the tree it came from.
pub open spec fn deps_decodes(x: &crate::spark_application::Dependencies, t: TreeView) -> bool {
    match t {
        TreeView::Obj(ms) => {
            &&& olist(&x.jars) == slot_opt_list(tree_get(ms, DEPS_TAG_JARS as nat))
            &&& olist(&x.files) == slot_opt_list(tree_get(ms, DEPS_TAG_FILES as nat))
            &&& olist(&x.py_files) == slot_opt_list(tree_get(ms, DEPS_TAG_PY_FILES as nat))
            &&& olist(&x.packages) == slot_opt_list(tree_get(ms, DEPS_TAG_PACKAGES as nat))
            &&& olist(&x.exclude_packages) == slot_opt_list(tree_get(ms, DEPS_TAG_EXCLUDE_PACKAGES as nat))
            &&& olist(&x.repositories) == slot_opt_list(tree_get(ms, DEPS_TAG_REPOSITORIES as nat))
        }
        _ => false,
    }
}

/// Decode dependency lists.
pub fn deps_from_tree(t: &Tree) -> (r: Result<crate::spark_application::Dependencies, ()>)
    ensures
        r is Ok <==> deps_shaped(t@),
        r matches Ok(x) ==> deps_decodes(&x, t@),
{
    match t {
        Tree::Obj(ms) => {
            proof {
                crate::tree::lemma_view_of_members_index(ms@);
            }
            let jars = match dec_opt_list(crate::tree::obj_get(ms, DEPS_TAG_JARS)) {
                Ok(v) => v,
                Err(_) => {
                    return Err(());
                }
            };
            let files = match dec_opt_list(crate::tree::obj_get(ms, DEPS_TAG_FILES)) {
                Ok(v) => v,
                Err(_) => {
                    return Err(());
                }
            };
            let py_files = match dec_opt_list(crate::tree::obj_get(ms, DEPS_TAG_PY_FILES)) {
                Ok(v) => v,
                Err(_) => {
                    return Err(());
                }
            };
            let packages = match dec_opt_list(crate::tree::obj_get(ms, DEPS_TAG_PACKAGES)) {
                Ok(v) => v,
                Err(_) => {
                    return Err(());
                }
            };
            let exclude_packages = match dec_opt_list(crate::tree::obj_get(ms, DEPS_TAG_EXCLUDE_PACKAGES)) {
                Ok(v) => v,
                Err(_) => {
                    return Err(());
                }
            };
            let repositories = match dec_opt_list(crate::tree::obj_get(ms, DEPS_TAG_REPOSITORIES)) {
                Ok(v) => v,
                Err(_) => {
                    return Err(());
                }
            };
            Ok(crate::spark_application::Dependencies { jars, files, py_files, packages, exclude_packages, repositories })
        }
        _ => Err(()),
    }
}

/// The encoding of dependency lists is canonical, correctly shaped, decodes to the
/// value itself, and each tag looks up to the encoded field.
pub proof fn lemma_deps_canon(s: &crate::spark_application::Dependencies)
    ensures
        unique_keys(deps_members(s)),
        vals_wf(deps_members(s)),
        keys_lt(deps_members(s), 7),
        wf_view(deps_view(s)),
        deps_shaped(deps_view(s)),
        deps_decodes(s, deps_view(s)),
        tree_get(deps_members(s), DEPS_TAG_JARS as nat) == slot_of_opt_list(olist(&s.jars)),
        tree_get(deps_members(s), DEPS_TAG_FILES as nat) == slot_of_opt_list(olist(&s.files)),
        tree_get(deps_members(s), DEPS_TAG_PY_FILES as nat) == slot_of_opt_list(olist(&s.py_files)),
        tree_get(deps_members(s), DEPS_TAG_PACKAGES as nat) == slot_of_opt_list(olist(&s.packages)),
        tree_get(deps_members(s), DEPS_TAG_EXCLUDE_PACKAGES as nat) == slot_of_opt_list(olist(&s.exclude_packages)),
        tree_get(deps_members(s), DEPS_TAG_REPOSITORIES as nat) == slot_of_opt_list(olist(&s.repositories)),
{
    let m1 = m_opt_list(DEPS_TAG_JARS, olist(&s.jars));
    let m2 = m_opt_list(DEPS_TAG_FILES, olist(&s.files));
    let m3 = m_opt_list(DEPS_TAG_PY_FILES, olist(&s.py_files));
    let m4 = m_opt_list(DEPS_TAG_PACKAGES, olist(&s.packages));
    let m5 = m_opt_list(DEPS_TAG_EXCLUDE_PACKAGES, olist(&s.exclude_packages));
    let m6 = m_opt_list(DEPS_TAG_REPOSITORIES, olist(&s.repositories));
    let l1 = m1;
    let l2 = l1 + m2;
    let l3 = l2 + m3;
    let l4 = l3 + m4;
    let l5 = l4 + m5;
    let l6 = l5 + m6;
    assert(Seq::<(nat, TreeView)>::empty() + m1 =~= m1);
    lemma_canon_extend(Seq::empty(), m1, 1, 2);
    lemma_canon_extend(l1, m2, 2, 3);
    lemma_canon_extend(l2, m3, 3, 4);
    lemma_canon_extend(l3, m4, 4, 5);
    lemma_canon_extend(l4, m5, 5, 6);
    lemma_canon_extend(l5, m6, 6, 7);
    lemma_tree_get_opt_val(DEPS_TAG_JARS, slot_of_opt_list(olist(&s.jars)));
    lemma_tree_get_opt_val(DEPS_TAG_FILES, slot_of_opt_list(olist(&s.files)));
    lemma_tree_get_opt_val(DEPS_TAG_PY_FILES, slot_of_opt_list(olist(&s.py_files)));
    lemma_tree_get_opt_val(DEPS_TAG_PACKAGES, slot_of_opt_list(olist(&s.packages)));
    lemma_tree_get_opt_val(DEPS_TAG_EXCLUDE_PACKAGES, slot_of_opt_list(olist(&s.exclude_packages)));
    lemma_tree_get_opt_val(DEPS_TAG_REPOSITORIES, slot_of_opt_list(olist(&s.repositories)));
    lemma_tree_get_concat(l1, m2);
    lemma_tree_get_concat(l2, m3);
    lemma_tree_get_concat(l3, m4);
    lemma_tree_get_concat(l4, m5);
    lemma_tree_get_concat(l5, m6);
    assert(deps_members(s) == l6);
}

/// Decoding the encoding of dependency lists gives the value back.
pub proof fn lemma_deps_roundtrip(x: &crate::spark_application::Dependencies, s: &crate::spark_application::Dependencies)
    requires
        deps_decodes(x, deps_view(s)),
    ensures
        x.same_as(s),
{
    lemma_deps_canon(s);
}

/// Equal values encode to equal member lists.
pub proof fn lemma_deps_congruent(a: &crate::spark_application::Dependencies, b: &crate::spark_application::Dependencies)
    requires
        a.same_as(b),
    ensures
        deps_members(a) == deps_members(b),
{
}

pub const CREDS_TAG_SECRET: u64 = 1;

pub const CREDS_TAG_INLINE: u64 = 2;

pub const CREDS_TAG_ANONYMOUS: u64 = 3;

/// The encoded members of S3 credentials: a single member keyed by the variant.
pub open spec fn creds_members(s: &crate::s3::S3Credentials) -> Seq<(nat, TreeView)> {
    match s {
        crate::s3::S3Credentials::Secret(v) => m_str(CREDS_TAG_SECRET, v@),
        crate::s3::S3Credentials::Inline(v) => m_opt_val(CREDS_TAG_INLINE, Some(inline_creds_view(v))),
        crate::s3::S3Credentials::Anonymous(v) => m_str(CREDS_TAG_ANONYMOUS, v@),
    }
}

/// The encoded tree of S3 credentials.
pub open spec fn creds_view(s: &crate::s3::S3Credentials) -> TreeView {
    TreeView::Obj(creds_members(s))
}

/// Encode S3 credentials.
pub fn creds_to_tree(s: &crate::s3::S3Credentials) -> (r: Tree)
    ensures
        r@ == creds_view(s),
{
    let mut out: Vec<(u64, Tree)> = Vec::new();
    proof {
        assert(view_of_members(out@) =~= Seq::<(nat, TreeView)>::empty());
    }
    match s {
        crate::s3::S3Credentials::Secret(v) => {
            push_member(&mut out, CREDS_TAG_SECRET, Tree::Str(v.clone()));
        }
        crate::s3::S3Credentials::Inline(v) => {
            push_member(&mut out, CREDS_TAG_INLINE, inline_creds_to_tree(v));
        }
        crate::s3::S3Credentials::Anonymous(v) => {
            push_member(&mut out, CREDS_TAG_ANONYMOUS, Tree::Str(v.clone()));
        }
    }
    proof {
        assert(Seq::<(nat, TreeView)>::empty() + creds_members(s) =~= creds_members(s));
        assert(view_of_members(out@) =~= creds_members(s));
    }
    Tree::Obj(out)
}

/// Whether a tree decodes as S3 credentials: exactly one member, keyed by a known
/// variant tag, with a rightly shaped payload.  A merge of two different
/// variants leaves two members behind and is rejected here.
pub open spec fn creds_shaped(t: TreeView) -> bool {
    match t {
        TreeView::Obj(ms) => ms.len() == 1 && ((ms[0].0 == CREDS_TAG_SECRET as nat && ms[0].1 is Str) || (ms[0].0 == CREDS_TAG_INLINE as nat && inline_creds_shaped(ms[0].1)) || (ms[0].0 == CREDS_TAG_ANONYMOUS as nat && ms[0].1 is Str)),
        _ => false,
    }
}

/// How a decoded value relates to the tree it came from.
pub open spec fn creds_decodes(x: &crate::s3::S3Credentials, t: TreeView) -> bool {
    match t {
        TreeView::Obj(ms) => ms.len() == 1 && match x {
            crate::s3::S3Credentials::Secret(v) => ms[0].0 == CREDS_TAG_SECRET as nat && ms[0].1 == TreeView::Str(v@),
            crate::s3::S3Credentials::Inline(v) => ms[0].0 == CREDS_TAG_INLINE as nat && inline_creds_decodes(v, ms[0].1),
            crate::s3::S3Credentials::Anonymous(v) => ms[0].0 == CREDS_TAG_ANONYMOUS as nat && ms[0].1 == TreeView::Str(v@),
        },
        _ => false,
    }
}

/// Decode S3 credentials.
pub fn creds_from_tree(t: &Tree) -> (r: Result<crate::s3::S3Credentials, ()>)
    ensures
        r is Ok <==> creds_shaped(t@),
        r matches Ok(x) ==> creds_decodes(&x, t@),
{
    match t {
        Tree::Obj(ms) => {
            proof {
                crate::tree::lemma_view_of_members_index(ms@);
            }
            if ms.len() != 1 {
                return Err(());
            }
            let tag = ms[0].0;
            if tag == CREDS_TAG_SECRET {
                return match &ms[0].1 {
                    Tree::Str(v) => Ok(crate::s3::S3Credentials::Secret(v.clone())),
                    _ => Err(()),
                };
            }
            if tag == CREDS_TAG_INLINE {
                return match inline_creds_from_tree(&ms[0].1) {
                    Ok(v) => Ok(crate::s3::S3Credentials::Inline(v)),
                    Err(_) => Err(()),
                };
            }
            if tag == CREDS_TAG_ANONYMOUS {
                return match &ms[0].1 {
                    Tree::Str(v) => Ok(crate::s3::S3Credentials::Anonymous(v.clone())),
                    _ => Err(()),
                };
            }
            Err(())
        }
        _ => Err(()),
    }
}

/// The encoding of S3 credentials is canonical, correctly shaped and decodes to
/// the value itself.
pub proof fn lemma_creds_canon(s: &crate::s3::S3Credentials)
    ensures
        unique_keys(creds_members(s)),
        vals_wf(creds_members(s)),
        wf_view(creds_view(s)),
        creds_shaped(creds_view(s)),
        creds_decodes(s, creds_view(s)),
{
    match s {
        crate::s3::S3Credentials::Secret(_) => {}
        crate::s3::S3Credentials::Inline(v) => {
            lemma_inline_creds_canon(v);
        }
        crate::s3::S3Credentials::Anonymous(_) => {}
    }
    assert(creds_members(s).len() == 1);
    assert(vals_wf(creds_members(s)));
    assert(unique_keys(creds_members(s)));
    assert(wf_view(creds_view(s)));
}

/// Decoding the encoding of S3 credentials gives the value back.
pub proof fn lemma_creds_roundtrip(x: &crate::s3::S3Credentials, s: &crate::s3::S3Credentials)
    requires
        creds_decodes(x, creds_view(s)),
    ensures
        crate::s3::S3Credentials::same_as(x, s),
{
    lemma_creds_canon(s);
    match (x, s) {
        (crate::s3::S3Credentials::Inline(a), crate::s3::S3Credentials::Inline(b)) => {
            lemma_inline_creds_roundtrip(a, b);
        }
        _ => {}
    }
}

/// Equal values encode to equal member lists.
pub proof fn lemma_creds_congruent(a: &crate::s3::S3Credentials, b: &crate::s3::S3Credentials)
    requires
        crate::s3::S3Credentials::same_as(a, b),
    ensures
        creds_members(a) == creds_members(b),
{
    match (a, b) {
        (crate::s3::S3Credentials::Inline(a), crate::s3::S3Credentials::Inline(b)) => {
            lemma_inline_creds_congruent(a, b);
        }
        _ => {}
    }
}

pub const S3_CONN_TAG_HOST: u64 = 1;

pub const S3_CONN_TAG_PORT: u64 = 2;

pub const S3_CONN_TAG_ACCESS_STYLE: u64 = 3;

pub const S3_CONN_TAG_CREDENTIALS_INLINE: u64 = 4;

pub const S3_CONN_TAG_CREDENTIALS: u64 = 5;

pub const S3_CONN_TAG_TLS: u64 = 6;

/// The encoded members of an S3 connection.
pub open spec fn s3_conn_members(s: &crate::s3::S3ConnectionSpec) -> Seq<(nat, TreeView)> {
    m_opt_str(S3_CONN_TAG_HOST, ostr(&s.host)) + m_opt_int(S3_CONN_TAG_PORT, ou16(s.port)) + m_opt_str(S3_CONN_TAG_ACCESS_STYLE, oaccess(s.access_style)) + m_opt_val(S3_CONN_TAG_CREDENTIALS_INLINE, (match &s.credentials_inline { Some(v) => Some(inline_creds_view(v)), None => None })) + m_opt_val(S3_CONN_TAG_CREDENTIALS, (match &s.credentials { Some(v) => Some(creds_view(v)), None => None })) + m_opt_str(S3_CONN_TAG_TLS, ostr(&s.tls))
}

/// The encoded tree of an S3 connection.
pub open spec fn s3_conn_view(s: &crate::s3::S3ConnectionSpec) -> TreeView {
    TreeView::Obj(s3_conn_members(s))
}

/// Encode an S3 connection.
pub fn s3_conn_to_tree(s: &crate::s3::S3ConnectionSpec) -> (r: Tree)
    ensures
        r@ == s3_conn_view(s),
{
    let mut out: Vec<(u64, Tree)> = Vec::new();
    let ghost acc = Seq::<(nat, TreeView)>::empty();
    proof {
        assert(view_of_members(out@) =~= acc);
    }
    match &s.host {
        Some(v) => {
            push_member(&mut out, S3_CONN_TAG_HOST, Tree::Str(v.clone()));
        }
        None => {}
    }
    proof {
        lemma_add_empty(acc);
        acc = acc + m_opt_str(S3_CONN_TAG_HOST, ostr(&s.host));
        assert(view_of_members(out@) == acc);
    }
    match s.port {
        Some(v) => {
            push_member(&mut out, S3_CONN_TAG_PORT, Tree::Int(v as i64));
        }
        None => {}
    }
    proof {
        lemma_add_empty(acc);
        acc = acc + m_opt_int(S3_CONN_TAG_PORT, ou16(s.port));
        assert(view_of_members(out@) == acc);
    }
    match s.access_style {
        Some(v) => {
            push_member(&mut out, S3_CONN_TAG_ACCESS_STYLE, Tree::Str(v.as_str().to_owned()));
        }
        None => {}
    }
    proof {
        lemma_add_empty(acc);
        acc = acc + m_opt_str(S3_CONN_TAG_ACCESS_STYLE, oaccess(s.access_style));
        assert(view_of_members(out@) == acc);
    }
    match &s.credentials_inline {
        Some(v) => {
            push_member(&mut out, S3_CONN_TAG_CREDENTIALS_INLINE, inline_creds_to_tree(v));
        }
        None => {}
    }
    proof {
        lemma_add_empty(acc);
        acc = acc + m_opt_val(S3_CONN_TAG_CREDENTIALS_INLINE, (match &s.credentials_inline { Some(v) => Some(inline_creds_view(v)), None => None }));
        assert(view_of_members(out@) == acc);
    }
    match &s.credentials {
        Some(v) => {
            push_member(&mut out, S3_CONN_TAG_CREDENTIALS, creds_to_tree(v));
        }
        None => {}
    }
    proof {
        lemma_add_empty(acc);
        acc = acc + m_opt_val(S3_CONN_TAG_CREDENTIALS, (match &s.credentials { Some(v) => Some(creds_view(v)), None => None }));
        assert(view_of_members(out@) == acc);
    }
    match &s.tls {
        Some(v) => {
            push_member(&mut out, S3_CONN_TAG_TLS, Tree::Str(v.clone()));
        }
        None => {}
    }
    proof {
        lemma_add_empty(acc);
        acc = acc + m_opt_str(S3_CONN_TAG_TLS, ostr(&s.tls));
        assert(view_of_members(out@) == acc);
    }
    proof {
        assert(acc == s3_conn_members(s));
    }
    Tree::Obj(out)
}

/// Whether a tree decodes as an S3 connection.
pub open spec fn s3_conn_shaped(t: TreeView) -> bool {
    match t {
        TreeView::Obj(ms) => {
            &&& slot_opt_str_ok(tree_get(ms, S3_CONN_TAG_HOST as nat))
            &&& slot_opt_u16_ok(tree_get(ms, S3_CONN_TAG_PORT as nat))
            &&& slot_opt_access_ok(tree_get(ms, S3_CONN_TAG_ACCESS_STYLE as nat))
            &&& (match tree_get(ms, S3_CONN_TAG_CREDENTIALS_INLINE as nat) { Some(t) => inline_creds_shaped(t), None => true })
            &&& (match tree_get(ms, S3_CONN_TAG_CREDENTIALS as nat) { Some(t) => creds_shaped(t), None => true })
            &&& slot_opt_str_ok(tree_get(ms, S3_CONN_TAG_TLS as nat))
        }
        _ => false,
    }
}

/// How a decoded value relates to the tree it came from.
pub open spec fn s3_conn_decodes(x: &crate::s3::S3ConnectionSpec, t: TreeView) -> bool {
    match t {
        TreeView::Obj(ms) => {
            &&& ostr(&x.host) == slot_opt_str(tree_get(ms, S3_CONN_TAG_HOST as nat))
            &&& ou16(x.port) == slot_opt_i64(tree_get(ms, S3_CONN_TAG_PORT as nat))
            &&& x.access_style == slot_opt_access(tree_get(ms, S3_CONN_TAG_ACCESS_STYLE as nat))
            &&& (match (&x.credentials_inline, tree_get(ms, S3_CONN_TAG_CREDENTIALS_INLINE as nat)) { (Some(v), Some(t)) => inline_creds_decodes(v, t), (None, None) => true, _ => false })
            &&& (match (&x.credentials, tree_get(ms, S3_CONN_TAG_CREDENTIALS as nat)) { (Some(v), Some(t)) => creds_decodes(v, t), (None, None) => true, _ => false })
            &&& ostr(&x.tls) == slot_opt_str(tree_get(ms, S3_CONN_TAG_TLS as nat))
        }
        _ => false,
    }
}

/// Decode an S3 connection.
pub fn s3_conn_from_tree(t: &Tree) -> (r: Result<crate::s3::S3ConnectionSpec, ()>)
    ensures
        r is Ok <==> s3_conn_shaped(t@),
        r matches Ok(x) ==> s3_conn_decodes(&x, t@),
{
    match t {
        Tree::Obj(ms) => {
            proof {
                crate::tree::lemma_view_of_members_index(ms@);
            }
            let host = match dec_opt_str(crate::tree::obj_get(ms, S3_CONN_TAG_HOST)) {
                Ok(v) => v,
                Err(_) => {
                    return Err(());
                }
            };
            let port = match dec_opt_u16(crate::tree::obj_get(ms, S3_CONN_TAG_PORT)) {
                Ok(v) => v,
                Err(_) => {
                    return Err(());
                }
            };
            let access_style = match dec_opt_access(crate::tree::obj_get(ms, S3_CONN_TAG_ACCESS_STYLE)) {
                Ok(v) => v,
                Err(_) => {
                    return Err(());
                }
            };
            let credentials_inline = match crate::tree::obj_get(ms, S3_CONN_TAG_CREDENTIALS_INLINE) {
                Some(t) => match inline_creds_from_tree(t) {
                    Ok(v) => Some(v),
                    Err(_) => {
                        return Err(());
                    }
                },
                None => None,
            };
            let credentials = match crate::tree::obj_get(ms, S3_CONN_TAG_CREDENTIALS) {
                Some(t) => match creds_from_tree(t) {
                    Ok(v) => Some(v),
                    Err(_) => {
                        return Err(());
                    }
                },
                None => None,
            };
            let tls = match dec_opt_str(crate::tree::obj_get(ms, S3_CONN_TAG_TLS)) {
                Ok(v) => v,
                Err(_) => {
                    return Err(());
                }
            };
            Ok(crate::s3::S3ConnectionSpec { host, port, access_style, credentials_inline, credentials, tls })
        }
        _ => Err(()),
    }
}

/// The encoding of an S3 connection is canonical, correctly shaped, decodes to the
/// value itself, and each tag looks up to the encoded field.
pub proof fn lemma_s3_conn_canon(s: &crate::s3::S3ConnectionSpec)
    ensures
        unique_keys(s3_conn_members(s)),
        vals_wf(s3_conn_members(s)),
        keys_lt(s3_conn_members(s), 7),
        wf_view(s3_conn_view(s)),
        s3_conn_shaped(s3_conn_view(s)),
        s3_conn_decodes(s, s3_conn_view(s)),
        tree_get(s3_conn_members(s), S3_CONN_TAG_HOST as nat) == slot_of_opt_str(ostr(&s.host)),
        tree_get(s3_conn_members(s), S3_CONN_TAG_PORT as nat) == slot_of_opt_int(ou16(s.port)),
        tree_get(s3_conn_members(s), S3_CONN_TAG_ACCESS_STYLE as nat) == slot_of_opt_str(oaccess(s.access_style)),
        tree_get(s3_conn_members(s), S3_CONN_TAG_CREDENTIALS_INLINE as nat) == (match &s.credentials_inline { Some(v) => Some(inline_creds_view(v)), None => None }),
        tree_get(s3_conn_members(s), S3_CONN_TAG_CREDENTIALS as nat) == (match &s.credentials { Some(v) => Some(creds_view(v)), None => None }),
        tree_get(s3_conn_members(s), S3_CONN_TAG_TLS as nat) == slot_of_opt_str(ostr(&s.tls)),
{
    match s.access_style {
        Some(v) => {
            lemma_access_style_roundtrip(v);
        }
        None => {}
    }
    match &s.credentials_inline {
        Some(v) => {
            lemma_inline_creds_canon(v);
        }
        None => {}
    }
    match &s.credentials {
        Some(v) => {
            lemma_creds_canon(v);
        }
        None => {}
    }
    let m1 = m_opt_str(S3_CONN_TAG_HOST, ostr(&s.host));
    let m2 = m_opt_int(S3_CONN_TAG_PORT, ou16(s.port));
    let m3 = m_opt_str(S3_CONN_TAG_ACCESS_STYLE, oaccess(s.access_style));
    let m4 = m_opt_val(S3_CONN_TAG_CREDENTIALS_INLINE, (match &s.credentials_inline { Some(v) => Some(inline_creds_view(v)), None => None }));
    let m5 = m_opt_val(S3_CONN_TAG_CREDENTIALS, (match &s.credentials { Some(v) => Some(creds_view(v)), None => None }));
    let m6 = m_opt_str(S3_CONN_TAG_TLS, ostr(&s.tls));
    let l1 = m1;
    let l2 = l1 + m2;
    let l3 = l2 + m3;
    let l4 = l3 + m4;
    let l5 = l4 + m5;
    let l6 = l5 + m6;
    assert(Seq::<(nat, TreeView)>::empty() + m1 =~= m1);
    lemma_canon_extend(Seq::empty(), m1, 1, 2);
    lemma_canon_extend(l1, m2, 2, 3);
    lemma_canon_extend(l2, m3, 3, 4);
    lemma_canon_extend(l3, m4, 4, 5);
    lemma_canon_extend(l4, m5, 5, 6);
    lemma_canon_extend(l5, m6, 6, 7);
    lemma_tree_get_opt_val(S3_CONN_TAG_HOST, slot_of_opt_str(ostr(&s.host)));
    lemma_tree_get_opt_val(S3_CONN_TAG_PORT, slot_of_opt_int(ou16(s.port)));
    lemma_tree_get_opt_val(S3_CONN_TAG_ACCESS_STYLE, slot_of_opt_str(oaccess(s.access_style)));
    lemma_tree_get_opt_val(S3_CONN_TAG_CREDENTIALS_INLINE, (match &s.credentials_inline { Some(v) => Some(inline_creds_view(v)), None => None }));
    lemma_tree_get_opt_val(S3_CONN_TAG_CREDENTIALS, (match &s.credentials { Some(v) => Some(creds_view(v)), None => None }));
    lemma_tree_get_opt_val(S3_CONN_TAG_TLS, slot_of_opt_str(ostr(&s.tls)));
    lemma_tree_get_concat(l1, m2);
    lemma_tree_get_concat(l2, m3);
    lemma_tree_get_concat(l3, m4);
    lemma_tree_get_concat(l4, m5);
    lemma_tree_get_concat(l5, m6);
    assert(s3_conn_members(s) == l6);
}

/// Decoding the encoding of an S3 connection gives the value back.
pub proof fn lemma_s3_conn_roundtrip(x: &crate::s3::S3ConnectionSpec, s: &crate::s3::S3ConnectionSpec)
    requires
        s3_conn_decodes(x, s3_conn_view(s)),
    ensures
        x.same_as(s),
{
    lemma_s3_conn_canon(s);
    match s.access_style {
        Some(v) => {
            lemma_access_style_roundtrip(v);
        }
        None => {}
    }
    match (&x.credentials_inline, &s.credentials_inline) {
        (Some(a), Some(b)) => {
            lemma_inline_creds_roundtrip(a, b);
        }
        _ => {}
    }
    match (&x.credentials, &s.credentials) {
        (Some(a), Some(b)) => {
            lemma_creds_roundtrip(a, b);
        }
        _ => {}
    }
}

/// Equal values encode to equal member lists.
pub proof fn lemma_s3_conn_congruent(a: &crate::s3::S3ConnectionSpec, b: &crate::s3::S3ConnectionSpec)
    requires
        a.same_as(b),
    ensures
        s3_conn_members(a) == s3_conn_members(b),
{
    match (&a.credentials_inline, &b.credentials_inline) {
        (Some(x), Some(y)) => {
            lemma_inline_creds_congruent(x, y);
        }
        _ => {}
    }
    match (&a.credentials, &b.credentials) {
        (Some(x), Some(y)) => {
            lemma_creds_congruent(x, y);
        }
        _ => {}
    }
}

pub const CONN_DEF_TAG_INLINE: u64 = 1;

pub const CONN_DEF_TAG_REFERENCE: u64 = 2;

/// The encoded members of an attached S3 connection: a single member keyed by the variant.
pub open spec fn conn_def_members(s: &crate::s3::S3ConnectionDef) -> Seq<(nat, TreeView)> {
    match s {
        crate::s3::S3ConnectionDef::Inline(v) => m_opt_val(CONN_DEF_TAG_INLINE, Some(s3_conn_view(v))),
        crate::s3::S3ConnectionDef::Reference(v) => m_str(CONN_DEF_TAG_REFERENCE, v@),
    }
}

/// The encoded tree of an attached S3 connection.
pub open spec fn conn_def_view(s: &crate::s3::S3ConnectionDef) -> TreeView {
    TreeView::Obj(conn_def_members(s))
}

/// Encode an attached S3 connection.
pub fn conn_def_to_tree(s: &crate::s3::S3ConnectionDef) -> (r: Tree)
    ensures
        r@ == conn_def_view(s),
{
    let mut out: Vec<(u64, Tree)> = Vec::new();
    proof {
        assert(view_of_members(out@) =~= Seq::<(nat, TreeView)>::empty());
    }
    match s {
        crate::s3::S3ConnectionDef::Inline(v) => {
            push_member(&mut out, CONN_DEF_TAG_INLINE, s3_conn_to_tree(v));
        }
        crate::s3::S3ConnectionDef::Reference(v) => {
            push_member(&mut out, CONN_DEF_TAG_REFERENCE, Tree::Str(v.clone()));
        }
    }
    proof {
        assert(Seq::<(nat, TreeView)>::empty() + conn_def_members(s) =~= conn_def_members(s));
        assert(view_of_members(out@) =~= conn_def_members(s));
    }
    Tree::Obj(out)
}

/// Whether a tree decodes as an attached S3 connection: exactly one member, keyed by a known
/// variant tag, with a rightly shaped payload.  A merge of two different
/// variants leaves two members behind and is rejected here.
pub open spec fn conn_def_shaped(t: TreeView) -> bool {
    match t {
        TreeView::Obj(ms) => ms.len() == 1 && ((ms[0].0 == CONN_DEF_TAG_INLINE as nat && s3_conn_shaped(ms[0].1)) || (ms[0].0 == CONN_DEF_TAG_REFERENCE as nat && ms[0].1 is Str)),
        _ => false,
    }
}

/// How a decoded value relates to the tree it came from.
pub open spec fn conn_def_decodes(x: &crate::s3::S3ConnectionDef, t: TreeView) -> bool {
    match t {
        TreeView::Obj(ms) => ms.len() == 1 && match x {
            crate::s3::S3ConnectionDef::Inline(v) => ms[0].0 == CONN_DEF_TAG_INLINE as nat && s3_conn_decodes(v, ms[0].1),
            crate::s3::S3ConnectionDef::Reference(v) => ms[0].0 == CONN_DEF_TAG_REFERENCE as nat && ms[0].1 == TreeView::Str(v@),
        },
        _ => false,
    }
}

/// Decode an attached S3 connection.
pub fn conn_def_from_tree(t: &Tree) -> (r: Result<crate::s3::S3ConnectionDef, ()>)
    ensures
        r is Ok <==> conn_def_shaped(t@),
        r matches Ok(x) ==> conn_def_decodes(&x, t@),
{
    match t {
        Tree::Obj(ms) => {
            proof {
                crate::tree::lemma_view_of_members_index(ms@);
            }
            if ms.len() != 1 {
                return Err(());
            }
            let tag = ms[0].0;
            if tag == CONN_DEF_TAG_INLINE {
                return match s3_conn_from_tree(&ms[0].1) {
                    Ok(v) => Ok(crate::s3::S3ConnectionDef::Inline(v)),
                    Err(_) => Err(()),
                };
            }
            if tag == CONN_DEF_TAG_REFERENCE {
                return match &ms[0].1 {
                    Tree::Str(v) => Ok(crate::s3::S3ConnectionDef::Reference(v.clone())),
                    _ => Err(()),
                };
            }
            Err(())
        }
        _ => Err(()),
    }
}

/// The encoding of an attached S3 connection is canonical, correctly shaped and decodes to
/// the value itself.
pub proof fn lemma_conn_def_canon(s: &crate::s3::S3ConnectionDef)
    ensures
        unique_keys(conn_def_members(s)),
        vals_wf(conn_def_members(s)),
        wf_view(conn_def_view(s)),
        conn_def_shaped(conn_def_view(s)),
        conn_def_decodes(s, conn_def_view(s)),
{
    match s {
        crate::s3::S3ConnectionDef::Inline(v) => {
            lemma_s3_conn_canon(v);
        }
        crate::s3::S3ConnectionDef::Reference(_) => {}
    }
    assert(conn_def_members(s).len() == 1);
    assert(vals_wf(conn_def_members(s)));
    assert(unique_keys(conn_def_members(s)));
    assert(wf_view(conn_def_view(s)));
}

/// Decoding the encoding of an attached S3 connection gives the value back.
pub proof fn lemma_conn_def_roundtrip(x: &crate::s3::S3ConnectionDef, s: &crate::s3::S3ConnectionDef)
    requires
        conn_def_decodes(x, conn_def_view(s)),
    ensures
        conn_def_same(x, s),
{
    lemma_conn_def_canon(s);
    match (x, s) {
        (crate::s3::S3ConnectionDef::Inline(a), crate::s3::S3ConnectionDef::Inline(b)) => {
            lemma_s3_conn_roundtrip(a, b);
        }
        _ => {}
    }
}

/// Equal values encode to equal member lists.
pub proof fn lemma_conn_def_congruent(a: &crate::s3::S3ConnectionDef, b: &crate::s3::S3ConnectionDef)
    requires
        conn_def_same(a, b),
    ensures
        conn_def_members(a) == conn_def_members(b),
{
    match (a, b) {
        (crate::s3::S3ConnectionDef::Inline(a), crate::s3::S3ConnectionDef::Inline(b)) => {
            lemma_s3_conn_congruent(a, b);
        }
        _ => {}
    }
}

pub const CATALOG_TAG_NAME: u64 = 1;

pub const CATALOG_TAG_IMPL_CLASS: u64 = 2;

pub const CATALOG_TAG_JARS: u64 = 3;

pub const CATALOG_TAG_CATALOG_CONFIGS: u64 = 4;

pub const CATALOG_TAG_SPARK_CONFIGS: u64 = 5;

/// The encoded members of a catalog definition.
pub open spec fn catalog_members(s: &crate::crd::SparkCatalogSpec) -> Seq<(nat, TreeView)> {
    m_str(CATALOG_TAG_NAME, s.name@) + m_opt_str(CATALOG_TAG_IMPL_CLASS, ostr(&s.impl_class)) + m_opt_list(CATALOG_TAG_JARS, olist(&s.jars)) + m_opt_map(CATALOG_TAG_CATALOG_CONFIGS, omap(&s.catalog_configs)) + m_opt_map(CATALOG_TAG_SPARK_CONFIGS, omap(&s.spark_configs))
}

/// The encoded tree of a catalog definition.
pub open spec fn catalog_view(s: &crate::crd::SparkCatalogSpec) -> TreeView {
    TreeView::Obj(catalog_members(s))
}

/// Encode a catalog definition.
pub fn catalog_to_tree(s: &crate::crd::SparkCatalogSpec) -> (r: Tree)
    ensures
        r@ == catalog_view(s),
{
    let mut out: Vec<(u64, Tree)> = Vec::new();
    let ghost acc = Seq::<(nat, TreeView)>::empty();
    proof {
        assert(view_of_members(out@) =~= acc);
    }
    push_member(&mut out, CATALOG_TAG_NAME, Tree::Str(s.name.clone()));
    proof {
        lemma_add_empty(acc);
        acc = acc + m_str(CATALOG_TAG_NAME, s.name@);
        assert(view_of_members(out@) == acc);
    }
    match &s.impl_class {
        Some(v) => {
            push_member(&mut out, CATALOG_TAG_IMPL_CLASS, Tree::Str(v.clone()));
        }
        None => {}
    }
    proof {
        lemma_add_empty(acc);
        acc = acc + m_opt_str(CATALOG_TAG_IMPL_CLASS, ostr(&s.impl_class));
        assert(view_of_members(out@) == acc);
    }
    match &s.jars {
        Some(v) => {
            push_member(&mut out, CATALOG_TAG_JARS, Tree::StrList(crate::tree::clone_strings(v)));
        }
        None => {}
    }
    proof {
        lemma_add_empty(acc);
        acc = acc + m_opt_list(CATALOG_TAG_JARS, olist(&s.jars));
        assert(view_of_members(out@) == acc);
    }
    match &s.catalog_configs {
        Some(m) => {
            push_member(&mut out, CATALOG_TAG_CATALOG_CONFIGS, Tree::StrMap(m.clone()));
        }
        None => {}
    }
    proof {
        lemma_add_empty(acc);
        acc = acc + m_opt_map(CATALOG_TAG_CATALOG_CONFIGS, omap(&s.catalog_configs));
        assert(view_of_members(out@) == acc);
    }
    match &s.spark_configs {
        Some(m) => {
            push_member(&mut out, CATALOG_TAG_SPARK_CONFIGS, Tree::StrMap(m.clone()));
        }
        None => {}
    }
    proof {
        lemma_add_empty(acc);
        acc = acc + m_opt_map(CATALOG_TAG_SPARK_CONFIGS, omap(&s.spark_configs));
        assert(view_of_members(out@) == acc);
    }
    proof {
        assert(acc == catalog_members(s));
    }
    Tree::Obj(out)
}

/// Whether a tree decodes as a catalog definition.
pub open spec fn catalog_shaped(t: TreeView) -> bool {
    match t {
        TreeView::Obj(ms) => {
            &&& slot_str_req_ok(tree_get(ms, CATALOG_TAG_NAME as nat))
            &&& slot_opt_str_ok(tree_get(ms, CATALOG_TAG_IMPL_CLASS as nat))
            &&& slot_opt_list_ok(tree_get(ms, CATALOG_TAG_JARS as nat))
            &&& slot_opt_map_ok(tree_get(ms, CATALOG_TAG_CATALOG_CONFIGS as nat))
            &&& slot_opt_map_ok(tree_get(ms, CATALOG_TAG_SPARK_CONFIGS as nat))
        }
        _ => false,
    }
}

/// How a decoded value relates to the tree it came from.
pub open spec fn catalog_decodes(x: &crate::crd::SparkCatalogSpec, t: TreeView) -> bool {
    match t {
        TreeView::Obj(ms) => {
            &&& x.name@ == slot_str_req(tree_get(ms, CATALOG_TAG_NAME as nat))
            &&& ostr(&x.impl_class) == slot_opt_str(tree_get(ms, CATALOG_TAG_IMPL_CLASS as nat))
            &&& olist(&x.jars) == slot_opt_list(tree_get(ms, CATALOG_TAG_JARS as nat))
            &&& omap(&x.catalog_configs) == slot_opt_map(tree_get(ms, CATALOG_TAG_CATALOG_CONFIGS as nat))
            &&& omap(&x.spark_configs) == slot_opt_map(tree_get(ms, CATALOG_TAG_SPARK_CONFIGS as nat))
        }
        _ => false,
    }
}

/// Decode a catalog definition.
pub fn catalog_from_tree(t: &Tree) -> (r: Result<crate::crd::SparkCatalogSpec, ()>)
    ensures
        r is Ok <==> catalog_shaped(t@),
        r matches Ok(x) ==> catalog_decodes(&x, t@),
{
    match t {
        Tree::Obj(ms) => {
            proof {
                crate::tree::lemma_view_of_members_index(ms@);
            }
            let name = match dec_str_req(crate::tree::obj_get(ms, CATALOG_TAG_NAME)) {
                Ok(v) => v,
                Err(_) => {
                    return Err(());
                }
            };
            let impl_class = match dec_opt_str(crate::tree::obj_get(ms, CATALOG_TAG_IMPL_CLASS)) {
                Ok(v) => v,
                Err(_) => {
                    return Err(());
                }
            };
            let jars = match dec_opt_list(crate::tree::obj_get(ms, CATALOG_TAG_JARS)) {
                Ok(v) => v,
                Err(_) => {
                    return Err(());
                }
            };
            let catalog_configs = match dec_opt_map(crate::tree::obj_get(ms, CATALOG_TAG_CATALOG_CONFIGS)) {
                Ok(v) => v,
                Err(_) => {
                    return Err(());
                }
            };
            let spark_configs = match dec_opt_map(crate::tree::obj_get(ms, CATALOG_TAG_SPARK_CONFIGS)) {
                Ok(v) => v,
                Err(_) => {
                    return Err(());
                }
            };
            Ok(crate::crd::SparkCatalogSpec { name, impl_class, jars, catalog_configs, spark_configs })
        }
        _ => Err(()),
    }
}

/// The encoding of a catalog definition is canonical, correctly shaped, decodes to the
/// value itself, and each tag looks up to the encoded field.
pub proof fn lemma_catalog_canon(s: &crate::crd::SparkCatalogSpec)
    ensures
        unique_keys(catalog_members(s)),
        vals_wf(catalog_members(s)),
        keys_lt(catalog_members(s), 6),
        wf_view(catalog_view(s)),
        catalog_shaped(catalog_view(s)),
        catalog_decodes(s, catalog_view(s)),
        tree_get(catalog_members(s), CATALOG_TAG_NAME as nat) == slot_of_str(s.name@),
        tree_get(catalog_members(s), CATALOG_TAG_IMPL_CLASS as nat) == slot_of_opt_str(ostr(&s.impl_class)),
        tree_get(catalog_members(s), CATALOG_TAG_JARS as nat) == slot_of_opt_list(olist(&s.jars)),
        tree_get(catalog_members(s), CATALOG_TAG_CATALOG_CONFIGS as nat) == slot_of_opt_map(omap(&s.catalog_configs)),
        tree_get(catalog_members(s), CATALOG_TAG_SPARK_CONFIGS as nat) == slot_of_opt_map(omap(&s.spark_configs)),
{
    let m1 = m_str(CATALOG_TAG_NAME, s.name@);
    let m2 = m_opt_str(CATALOG_TAG_IMPL_CLASS, ostr(&s.impl_class));
    let m3 = m_opt_list(CATALOG_TAG_JARS, olist(&s.jars));
    let m4 = m_opt_map(CATALOG_TAG_CATALOG_CONFIGS, omap(&s.catalog_configs));
    let m5 = m_opt_map(CATALOG_TAG_SPARK_CONFIGS, omap(&s.spark_configs));
    let l1 = m1;
    let l2 = l1 + m2;
    let l3 = l2 + m3;
    let l4 = l3 + m4;
    let l5 = l4 + m5;
    assert(Seq::<(nat, TreeView)>::empty() + m1 =~= m1);
    lemma_canon_extend(Seq::empty(), m1, 1, 2);
    lemma_canon_extend(l1, m2, 2, 3);
    lemma_canon_extend(l2, m3, 3, 4);
    lemma_canon_extend(l3, m4, 4, 5);
    lemma_canon_extend(l4, m5, 5, 6);
    lemma_tree_get_opt_val(CATALOG_TAG_NAME, slot_of_str(s.name@));
    lemma_tree_get_opt_val(CATALOG_TAG_IMPL_CLASS, slot_of_opt_str(ostr(&s.impl_class)));
    lemma_tree_get_opt_val(CATALOG_TAG_JARS, slot_of_opt_list(olist(&s.jars)));
    lemma_tree_get_opt_val(CATALOG_TAG_CATALOG_CONFIGS, slot_of_opt_map(omap(&s.catalog_configs)));
    lemma_tree_get_opt_val(CATALOG_TAG_SPARK_CONFIGS, slot_of_opt_map(omap(&s.spark_configs)));
    lemma_tree_get_concat(l1, m2);
    lemma_tree_get_concat(l2, m3);
    lemma_tree_get_concat(l3, m4);
    lemma_tree_get_concat(l4, m5);
    assert(catalog_members(s) == l5);
}

/// Decoding the encoding of a catalog definition gives the value back.
pub proof fn lemma_catalog_roundtrip(x: &crate::crd::SparkCatalogSpec, s: &crate::crd::SparkCatalogSpec)
    requires
        catalog_decodes(x, catalog_view(s)),
    ensures
        x.same_as(s),
{
    lemma_catalog_canon(s);
}

/// Equal values encode to equal member lists.
pub proof fn lemma_catalog_congruent(a: &crate::crd::SparkCatalogSpec, b: &crate::crd::SparkCatalogSpec)
    requires
        a.same_as(b),
    ensures
        catalog_members(a) == catalog_members(b),
{
}

pub const ENV_SET_TAG_CONFIGS: u64 = 1;

pub const ENV_SET_TAG_DEPS: u64 = 2;

/// The encoded members of an environment set.
pub open spec fn env_set_members(s: &crate::crd::SparkEnvSetSpec) -> Seq<(nat, TreeView)> {
    m_opt_map(ENV_SET_TAG_CONFIGS, omap(&s.configs)) + m_opt_val(ENV_SET_TAG_DEPS, (match &s.deps { Some(v) => Some(deps_view(v)), None => None }))
}

/// The encoded tree of an environment set.
pub open spec fn env_set_view(s: &crate::crd::SparkEnvSetSpec) -> TreeView {
    TreeView::Obj(env_set_members(s))
}

/// Encode an environment set.
pub fn env_set_to_tree(s: &crate::crd::SparkEnvSetSpec) -> (r: Tree)
    ensures
        r@ == env_set_view(s),
{
    let mut out: Vec<(u64, Tree)> = Vec::new();
    let ghost acc = Seq::<(nat, TreeView)>::empty();
    proof {
        assert(view_of_members(out@) =~= acc);
    }
    match &s.configs {
        Some(m) => {
            push_member(&mut out, ENV_SET_TAG_CONFIGS, Tree::StrMap(m.clone()));
        }
        None => {}
    }
    proof {
        lemma_add_empty(acc);
        acc = acc + m_opt_map(ENV_SET_TAG_CONFIGS, omap(&s.configs));
        assert(view_of_members(out@) == acc);
    }
    match &s.deps {
        Some(v) => {
            push_member(&mut out, ENV_SET_TAG_DEPS, deps_to_tree(v));
        }
        None => {}
    }
    proof {
        lemma_add_empty(acc);
        acc = acc + m_opt_val(ENV_SET_TAG_DEPS, (match &s.deps { Some(v) => Some(deps_view(v)), None => None }));
        assert(view_of_members(out@) == acc);
    }
    proof {
        assert(acc == env_set_members(s));
    }
    Tree::Obj(out)
}

/// Whether a tree decodes as an environment set.
pub open spec fn env_set_shaped(t: TreeView) -> bool {
    match t {
        TreeView::Obj(ms) => {
            &&& slot_opt_map_ok(tree_get(ms, ENV_SET_TAG_CONFIGS as nat))
            &&& (match tree_get(ms, ENV_SET_TAG_DEPS as nat) { Some(t) => deps_shaped(t), None => true })
        }
        _ => false,
    }
}

/// How a decoded value relates to the tree it came from.
pub open spec fn env_set_decodes(x: &crate::crd::SparkEnvSetSpec, t: TreeView) -> bool {
    match t {
        TreeView::Obj(ms) => {
            &&& omap(&x.configs) == slot_opt_map(tree_get(ms, ENV_SET_TAG_CONFIGS as nat))
            &&& (match (&x.deps, tree_get(ms, ENV_SET_TAG_DEPS as nat)) { (Some(v), Some(t)) => deps_decodes(v, t), (None, None) => true, _ => false })
        }
        _ => false,
    }
}

/// Decode an environment set.
pub fn env_set_from_tree(t: &Tree) -> (r: Result<crate::crd::SparkEnvSetSpec, ()>)
    ensures
        r is Ok <==> env_set_shaped(t@),
        r matches Ok(x) ==> env_set_decodes(&x, t@),
{
    match t {
        Tree::Obj(ms) => {
            proof {
                crate::tree::lemma_view_of_members_index(ms@);
            }
            let configs = match dec_opt_map(crate::tree::obj_get(ms, ENV_SET_TAG_CONFIGS)) {
                Ok(v) => v,
                Err(_) => {
                    return Err(());
                }
            };
            let deps = match crate::tree::obj_get(ms, ENV_SET_TAG_DEPS) {
                Some(t) => match deps_from_tree(t) {
                    Ok(v) => Some(v),
                    Err(_) => {
                        return Err(());
                    }
                },
                None => None,
            };
            Ok(crate::crd::SparkEnvSetSpec { configs, deps })
        }
        _ => Err(()),
    }
}

/// The encoding of an environment set is canonical, correctly shaped, decodes to the
/// value itself, and each tag looks up to the encoded field.
pub proof fn lemma_env_set_canon(s: &crate::crd::SparkEnvSetSpec)
    ensures
        unique_keys(env_set_members(s)),
        vals_wf(env_set_members(s)),
        keys_lt(env_set_members(s), 3),
        wf_view(env_set_view(s)),
        env_set_shaped(env_set_view(s)),
        env_set_decodes(s, env_set_view(s)),
        tree_get(env_set_members(s), ENV_SET_TAG_CONFIGS as nat) == slot_of_opt_map(omap(&s.configs)),
        tree_get(env_set_members(s), ENV_SET_TAG_DEPS as nat) == (match &s.deps { Some(v) => Some(deps_view(v)), None => None }),
{
    match &s.deps {
        Some(v) => {
            lemma_deps_canon(v);
        }
        None => {}
    }
    let m1 = m_opt_map(ENV_SET_TAG_CONFIGS, omap(&s.configs));
    let m2 = m_opt_val(ENV_SET_TAG_DEPS, (match &s.deps { Some(v) => Some(deps_view(v)), None => None }));
    let l1 = m1;
    let l2 = l1 + m2;
    assert(Seq::<(nat, TreeView)>::empty() + m1 =~= m1);
    lemma_canon_extend(Seq::empty(), m1, 1, 2);
    lemma_canon_extend(l1, m2, 2, 3);
    lemma_tree_get_opt_val(ENV_SET_TAG_CONFIGS, slot_of_opt_map(omap(&s.configs)));
    lemma_tree_get_opt_val(ENV_SET_TAG_DEPS, (match &s.deps { Some(v) => Some(deps_view(v)), None => None }));
    lemma_tree_get_concat(l1, m2);
    assert(env_set_members(s) == l2);
}

/// Decoding the encoding of an environment set gives the value back.
pub proof fn lemma_env_set_roundtrip(x: &crate::crd::SparkEnvSetSpec, s: &crate::crd::SparkEnvSetSpec)
    requires
        env_set_decodes(x, env_set_view(s)),
    ensures
        x.same_as(s),
{
    lemma_env_set_canon(s);
    match (&x.deps, &s.deps) {
        (Some(a), Some(b)) => {
            lemma_deps_roundtrip(a, b);
        }
        _ => {}
    }
}

/// Equal values encode to equal member lists.
pub proof fn lemma_env_set_congruent(a: &crate::crd::SparkEnvSetSpec, b: &crate::crd::SparkEnvSetSpec)
    requires
        a.same_as(b),
    ensures
        env_set_members(a) == env_set_members(b),
{
    match (&a.deps, &b.deps) {
        (Some(x), Some(y)) => {
            lemma_deps_congruent(x, y);
        }
        _ => {}
    }
}

pub const CATALOG_DEF_TAG_INLINE: u64 = 1;

pub const CATALOG_DEF_TAG_REFERENCE: u64 = 2;

/// The encoded members of an attached catalog: a single member keyed by the variant.
pub open spec fn catalog_def_members(s: &crate::crd::SparkCatalogDef) -> Seq<(nat, TreeView)> {
    match s {
        crate::crd::SparkCatalogDef::Inline(v) => m_opt_val(CATALOG_DEF_TAG_INLINE, Some(catalog_view(v))),
        crate::crd::SparkCatalogDef::Reference(v) => m_str(CATALOG_DEF_TAG_REFERENCE, v@),
    }
}

/// The encoded tree of an attached catalog.
pub open spec fn catalog_def_view(s: &crate::crd::SparkCatalogDef) -> TreeView {
    TreeView::Obj(catalog_def_members(s))
}

/// The encoded trees of a list of these values.
pub open spec fn catalog_def_views(s: Seq<crate::crd::SparkCatalogDef>) -> Seq<TreeView> {
    Seq::new(s.len(), |i: int| catalog_def_view(&s[i]))
}

/// Encode an attached catalog.
pub fn catalog_def_to_tree(s: &crate::crd::SparkCatalogDef) -> (r: Tree)
    ensures
        r@ == catalog_def_view(s),
{
    let mut out: Vec<(u64, Tree)> = Vec::new();
    proof {
        assert(view_of_members(out@) =~= Seq::<(nat, TreeView)>::empty());
    }
    match s {
        crate::crd::SparkCatalogDef::Inline(v) => {
            push_member(&mut out, CATALOG_DEF_TAG_INLINE, catalog_to_tree(v));
        }
        crate::crd::SparkCatalogDef::Reference(v) => {
            push_member(&mut out, CATALOG_DEF_TAG_REFERENCE, Tree::Str(v.clone()));
        }
    }
    proof {
        assert(Seq::<(nat, TreeView)>::empty() + catalog_def_members(s) =~= catalog_def_members(s));
        assert(view_of_members(out@) =~= catalog_def_members(s));
    }
    Tree::Obj(out)
}

/// Whether a tree decodes as an attached catalog: exactly one member, keyed by a known
/// variant tag, with a rightly shaped payload.  A merge of two different
/// variants leaves two members behind and is rejected here.
pub open spec fn catalog_def_shaped(t: TreeView) -> bool {
    match t {
        TreeView::Obj(ms) => ms.len() == 1 && ((ms[0].0 == CATALOG_DEF_TAG_INLINE as nat && catalog_shaped(ms[0].1)) || (ms[0].0 == CATALOG_DEF_TAG_REFERENCE as nat && ms[0].1 is Str)),
        _ => false,
    }
}

/// How a decoded value relates to the tree it came from.
pub open spec fn catalog_def_decodes(x: &crate::crd::SparkCatalogDef, t: TreeView) -> bool {
    match t {
        TreeView::Obj(ms) => ms.len() == 1 && match x {
            crate::crd::SparkCatalogDef::Inline(v) => ms[0].0 == CATALOG_DEF_TAG_INLINE as nat && catalog_decodes(v, ms[0].1),
            crate::crd::SparkCatalogDef::Reference(v) => ms[0].0 == CATALOG_DEF_TAG_REFERENCE as nat && ms[0].1 == TreeView::Str(v@),
        },
        _ => false,
    }
}

/// Decode an attached catalog.
pub fn catalog_def_from_tree(t: &Tree) -> (r: Result<crate::crd::SparkCatalogDef, ()>)
    ensures
        r is Ok <==> catalog_def_shaped(t@),
        r matches Ok(x) ==> catalog_def_decodes(&x, t@),
{
    match t {
        Tree::Obj(ms) => {
            proof {
                crate::tree::lemma_view_of_members_index(ms@);
            }
            if ms.len() != 1 {
                return Err(());
            }
            let tag = ms[0].0;
            if tag == CATALOG_DEF_TAG_INLINE {
                return match catalog_from_tree(&ms[0].1) {
                    Ok(v) => Ok(crate::crd::SparkCatalogDef::Inline(v)),
                    Err(_) => Err(()),
                };
            }
            if tag == CATALOG_DEF_TAG_REFERENCE {
                return match &ms[0].1 {
                    Tree::Str(v) => Ok(crate::crd::SparkCatalogDef::Reference(v.clone())),
                    _ => Err(()),
                };
            }
            Err(())
        }
        _ => Err(()),
    }
}

/// Encode a list of these values.
pub fn catalog_def_list_to_trees(v: &Vec<crate::crd::SparkCatalogDef>) -> (r: Vec<Tree>)
    ensures
        crate::tree::view_of_values(r@) == catalog_def_views(v@),
{
    let mut elems: Vec<Tree> = Vec::new();
    let mut i: usize = 0;
    proof {
        assert(crate::tree::view_of_values(elems@) =~= catalog_def_views(v@.subrange(0, 0)));
    }
    while i < v.len()
        invariant
            i <= v.len(),
            crate::tree::view_of_values(elems@) == catalog_def_views(v@.subrange(0, i as int)),
        decreases v.len() - i,
    {
        let ghost before = elems@;
        elems.push(catalog_def_to_tree(&v[i]));
        proof {
            assert(elems@.drop_last() =~= before);
            assert(crate::tree::view_of_values(elems@) =~= catalog_def_views(
                v@.subrange(0, i + 1 as int),
            ));
        }
        i = i + 1;
    }
    proof {
        assert(v@.subrange(0, v@.len() as int) =~= v@);
        assert(catalog_def_views(v@.subrange(0, v@.len() as int)) =~= catalog_def_views(v@));
    }
    elems
}

/// Decode a list of these values; every element must be rightly shaped.
pub fn catalog_def_list_from_trees(es: &Vec<Tree>) -> (r: Result<Vec<crate::crd::SparkCatalogDef>, ()>)
    ensures
        r is Ok <==> catalog_defs_all_shaped(crate::tree::view_of_values(es@)),
        r matches Ok(v) ==> catalog_defs_all_decode(v@, crate::tree::view_of_values(es@)),
{
    proof {
        crate::tree::lemma_view_of_values_index(es@);
    }
    let mut v: Vec<crate::crd::SparkCatalogDef> = Vec::new();
    let mut i: usize = 0;
    while i < es.len()
        invariant
            i <= es.len(),
            v@.len() == i,
            crate::tree::view_of_values(es@).len() == es@.len(),
            forall|k: int| 0 <= k < es@.len() ==> #[trigger] crate::tree::view_of_values(es@)[k]
                == es@[k]@,
            forall|k: int| 0 <= k < i ==> catalog_def_decodes(
                &v@[k],
                #[trigger] crate::tree::view_of_values(es@)[k],
            ),
            forall|k: int| 0 <= k < i ==> catalog_def_shaped(
                #[trigger] crate::tree::view_of_values(es@)[k],
            ),
        decreases es.len() - i,
    {
        match catalog_def_from_tree(&es[i]) {
            Ok(d) => {
                v.push(d);
            }
            Err(_) => {
                proof {
                    assert(!(catalog_def_shaped(crate::tree::view_of_values(es@)[i as int])));
                    assert(!catalog_defs_all_shaped(crate::tree::view_of_values(es@)));
                }
                return Err(());
            }
        }
        i = i + 1;
    }
    proof {
        assert(catalog_defs_all_shaped(crate::tree::view_of_values(es@)));
        assert(catalog_defs_all_decode(v@, crate::tree::view_of_values(es@)));
    }
    Ok(v)
}

/// The encoding of an attached catalog is canonical, correctly shaped and decodes to
/// the value itself.
pub proof fn lemma_catalog_def_canon(s: &crate::crd::SparkCatalogDef)
    ensures
        unique_keys(catalog_def_members(s)),
        vals_wf(catalog_def_members(s)),
        wf_view(catalog_def_view(s)),
        catalog_def_shaped(catalog_def_view(s)),
        catalog_def_decodes(s, catalog_def_view(s)),
{
    match s {
        crate::crd::SparkCatalogDef::Inline(v) => {
            lemma_catalog_canon(v);
        }
        crate::crd::SparkCatalogDef::Reference(_) => {}
    }
    assert(catalog_def_members(s).len() == 1);
    assert(vals_wf(catalog_def_members(s)));
    assert(unique_keys(catalog_def_members(s)));
    assert(wf_view(catalog_def_view(s)));
}

/// Decoding the encoding of an attached catalog gives the value back.
pub proof fn lemma_catalog_def_roundtrip(x: &crate::crd::SparkCatalogDef, s: &crate::crd::SparkCatalogDef)
    requires
        catalog_def_decodes(x, catalog_def_view(s)),
    ensures
        catalog_def_same(x, s),
{
    lemma_catalog_def_canon(s);
    match (x, s) {
        (crate::crd::SparkCatalogDef::Inline(a), crate::crd::SparkCatalogDef::Inline(b)) => {
            lemma_catalog_roundtrip(a, b);
        }
        _ => {}
    }
}

/// Equal values encode to equal member lists.
pub proof fn lemma_catalog_def_congruent(a: &crate::crd::SparkCatalogDef, b: &crate::crd::SparkCatalogDef)
    requires
        catalog_def_same(a, b),
    ensures
        catalog_def_members(a) == catalog_def_members(b),
{
    match (a, b) {
        (crate::crd::SparkCatalogDef::Inline(a), crate::crd::SparkCatalogDef::Inline(b)) => {
            lemma_catalog_congruent(a, b);
        }
        _ => {}
    }
}

pub const ENV_SET_DEF_TAG_INLINE: u64 = 1;

pub const ENV_SET_DEF_TAG_REFERENCE: u64 = 2;

/// The encoded members of an attached environment set: a single member keyed by the variant.
pub open spec fn env_set_def_members(s: &crate::crd::SparkEnvSetDef) -> Seq<(nat, TreeView)> {
    match s {
        crate::crd::SparkEnvSetDef::Inline(v) => m_opt_val(ENV_SET_DEF_TAG_INLINE, Some(env_set_view(v))),
        crate::crd::SparkEnvSetDef::Reference(v) => m_str(ENV_SET_DEF_TAG_REFERENCE, v@),
    }
}

/// The encoded tree of an attached environment set.
pub open spec fn env_set_def_view(s: &crate::crd::SparkEnvSetDef) -> TreeView {
    TreeView::Obj(env_set_def_members(s))
}

/// The encoded trees of a list of these values.
pub open spec fn env_set_def_views(s: Seq<crate::crd::SparkEnvSetDef>) -> Seq<TreeView> {
    Seq::new(s.len(), |i: int| env_set_def_view(&s[i]))
}

/// Encode an attached environment set.
pub fn env_set_def_to_tree(s: &crate::crd::SparkEnvSetDef) -> (r: Tree)
    ensures
        r@ == env_set_def_view(s),
{
    let mut out: Vec<(u64, Tree)> = Vec::new();
    proof {
        assert(view_of_members(out@) =~= Seq::<(nat, TreeView)>::empty());
    }
    match s {
        crate::crd::SparkEnvSetDef::Inline(v) => {
            push_member(&mut out, ENV_SET_DEF_TAG_INLINE, env_set_to_tree(v));
        }
        crate::crd::SparkEnvSetDef::Reference(v) => {
            push_member(&mut out, ENV_SET_DEF_TAG_REFERENCE, Tree::Str(v.clone()));
        }
    }
    proof {
        assert(Seq::<(nat, TreeView)>::empty() + env_set_def_members(s) =~= env_set_def_members(s));
        assert(view_of_members(out@) =~= env_set_def_members(s));
    }
    Tree::Obj(out)
}

/// Whether a tree decodes as an attached environment set: exactly one member, keyed by a known
/// variant tag, with a rightly shaped payload.  A merge of two different
/// variants leaves two members behind and is rejected here.
pub open spec fn env_set_def_shaped(t: TreeView) -> bool {
    match t {
        TreeView::Obj(ms) => ms.len() == 1 && ((ms[0].0 == ENV_SET_DEF_TAG_INLINE as nat && env_set_shaped(ms[0].1)) || (ms[0].0 == ENV_SET_DEF_TAG_REFERENCE as nat && ms[0].1 is Str)),
        _ => false,
    }
}

/// How a decoded value relates to the tree it came from.
pub open spec fn env_set_def_decodes(x: &crate::crd::SparkEnvSetDef, t: TreeView) -> bool {
    match t {
        TreeView::Obj(ms) => ms.len() == 1 && match x {
            crate::crd::SparkEnvSetDef::Inline(v) => ms[0].0 == ENV_SET_DEF_TAG_INLINE as nat && env_set_decodes(v, ms[0].1),
            crate::crd::SparkEnvSetDef::Reference(v) => ms[0].0 == ENV_SET_DEF_TAG_REFERENCE as nat && ms[0].1 == TreeView::Str(v@),
        },
        _ => false,
    }
}

/// Decode an attached environment set.
pub fn env_set_def_from_tree(t: &Tree) -> (r: Result<crate::crd::SparkEnvSetDef, ()>)
    ensures
        r is Ok <==> env_set_def_shaped(t@),
        r matches Ok(x) ==> env_set_def_decodes(&x, t@),
{
    match t {
        Tree::Obj(ms) => {
            proof {
                crate::tree::lemma_view_of_members_index(ms@);
            }
            if ms.len() != 1 {
                return Err(());
            }
            let tag = ms[0].0;
            if tag == ENV_SET_DEF_TAG_INLINE {
                return match env_set_from_tree(&ms[0].1) {
                    Ok(v) => Ok(crate::crd::SparkEnvSetDef::Inline(v)),
                    Err(_) => Err(()),
                };
            }
            if tag == ENV_SET_DEF_TAG_REFERENCE {
                return match &ms[0].1 {
                    Tree::Str(v) => Ok(crate::crd::SparkEnvSetDef::Reference(v.clone())),
                    _ => Err(()),
                };
            }
            Err(())
        }
        _ => Err(()),
    }
}

/// Encode a list of these values.
pub fn env_set_def_list_to_trees(v: &Vec<crate::crd::SparkEnvSetDef>) -> (r: Vec<Tree>)
    ensures
        crate::tree::view_of_values(r@) == env_set_def_views(v@),
{
    let mut elems: Vec<Tree> = Vec::new();
    let mut i: usize = 0;
    proof {
        assert(crate::tree::view_of_values(elems@) =~= env_set_def_views(v@.subrange(0, 0)));
    }
    while i < v.len()
        invariant
            i <= v.len(),
            crate::tree::view_of_values(elems@) == env_set_def_views(v@.subrange(0, i as int)),
        decreases v.len() - i,
    {
        let ghost before = elems@;
        elems.push(env_set_def_to_tree(&v[i]));
        proof {
            assert(elems@.drop_last() =~= before);
            assert(crate::tree::view_of_values(elems@) =~= env_set_def_views(
                v@.subrange(0, i + 1 as int),
            ));
        }
        i = i + 1;
    }
    proof {
        assert(v@.subrange(0, v@.len() as int) =~= v@);
        assert(env_set_def_views(v@.subrange(0, v@.len() as int)) =~= env_set_def_views(v@));
    }
    elems
}

/// Decode a list of these values; every element must be rightly shaped.
pub fn env_set_def_list_from_trees(es: &Vec<Tree>) -> (r: Result<Vec<crate::crd::SparkEnvSetDef>, ()>)
    ensures
        r is Ok <==> env_set_defs_all_shaped(crate::tree::view_of_values(es@)),
        r matches Ok(v) ==> env_set_defs_all_decode(v@, crate::tree::view_of_values(es@)),
{
    proof {
        crate::tree::lemma_view_of_values_index(es@);
    }
    let mut v: Vec<crate::crd::SparkEnvSetDef> = Vec::new();
    let mut i: usize = 0;
    while i < es.len()
        invariant
            i <= es.len(),
            v@.len() == i,
            crate::tree::view_of_values(es@).len() == es@.len(),
            forall|k: int| 0 <= k < es@.len() ==> #[trigger] crate::tree::view_of_values(es@)[k]
                == es@[k]@,
            forall|k: int| 0 <= k < i ==> env_set_def_decodes(
                &v@[k],
                #[trigger] crate::tree::view_of_values(es@)[k],
            ),
            forall|k: int| 0 <= k < i ==> env_set_def_shaped(
                #[trigger] crate::tree::view_of_values(es@)[k],
            ),
        decreases es.len() - i,
    {
        match env_set_def_from_tree(&es[i]) {
            Ok(d) => {
                v.push(d);
            }
            Err(_) => {
                proof {
                    assert(!(env_set_def_shaped(crate::tree::view_of_values(es@)[i as int])));
                    assert(!env_set_defs_all_shaped(crate::tree::view_of_values(es@)));
                }
                return Err(());
            }
        }
        i = i + 1;
    }
    proof {
        assert(env_set_defs_all_shaped(crate::tree::view_of_values(es@)));
        assert(env_set_defs_all_decode(v@, crate::tree::view_of_values(es@)));
    }
    Ok(v)
}

/// The encoding of an attached environment set is canonical, correctly shaped and decodes to
/// the value itself.
pub proof fn lemma_env_set_def_canon(s: &crate::crd::SparkEnvSetDef)
    ensures
        unique_keys(env_set_def_members(s)),
        vals_wf(env_set_def_members(s)),
        wf_view(env_set_def_view(s)),
        env_set_def_shaped(env_set_def_view(s)),
        env_set_def_decodes(s, env_set_def_view(s)),
{
    match s {
        crate::crd::SparkEnvSetDef::Inline(v) => {
            lemma_env_set_canon(v);
        }
        crate::crd::SparkEnvSetDef::Reference(_) => {}
    }
    assert(env_set_def_members(s).len() == 1);
    assert(vals_wf(env_set_def_members(s)));
    assert(unique_keys(env_set_def_members(s)));
    assert(wf_view(env_set_def_view(s)));
}

/// Decoding the encoding of an attached environment set gives the value back.
pub proof fn lemma_env_set_def_roundtrip(x: &crate::crd::SparkEnvSetDef, s: &crate::crd::SparkEnvSetDef)
    requires
        env_set_def_decodes(x, env_set_def_view(s)),
    ensures
        env_set_def_same(x, s),
{
    lemma_env_set_def_canon(s);
    match (x, s) {
        (crate::crd::SparkEnvSetDef::Inline(a), crate::crd::SparkEnvSetDef::Inline(b)) => {
            lemma_env_set_roundtrip(a, b);
        }
        _ => {}
    }
}

/// Equal values encode to equal member lists.
pub proof fn lemma_env_set_def_congruent(a: &crate::crd::SparkEnvSetDef, b: &crate::crd::SparkEnvSetDef)
    requires
        env_set_def_same(a, b),
    ensures
        env_set_def_members(a) == env_set_def_members(b),
{
    match (a, b) {
        (crate::crd::SparkEnvSetDef::Inline(a), crate::crd::SparkEnvSetDef::Inline(b)) => {
            lemma_env_set_congruent(a, b);
        }
        _ => {}
    }
}

pub const DRIVER_TAG_CORE_REQUEST: u64 = 1;

pub const DRIVER_TAG_JAVA_OPTIONS: u64 = 2;

pub const DRIVER_TAG_SERVICE_ACCOUNT: u64 = 3;

pub const DRIVER_TAG_CORES: u64 = 4;

pub const DRIVER_TAG_CORE_LIMIT: u64 = 5;

pub const DRIVER_TAG_MEMORY: u64 = 6;

pub const DRIVER_TAG_MEMORY_OVERHEAD: u64 = 7;

pub const DRIVER_TAG_PORTS: u64 = 8;

pub const DRIVER_TAG_CONFIG_MAPS: u64 = 9;

pub const DRIVER_TAG_SECRETS: u64 = 10;

pub const DRIVER_TAG_ENV: u64 = 11;

pub const DRIVER_TAG_NODE_SELECTOR: u64 = 12;

/// The encoded members of the driver settings.
pub open spec fn driver_members(s: &crate::spark_application::DriverSpec) -> Seq<(nat, TreeView)> {
    m_opt_str(DRIVER_TAG_CORE_REQUEST, ostr(&s.core_request)) + m_opt_str(DRIVER_TAG_JAVA_OPTIONS, ostr(&s.java_options)) + m_opt_str(DRIVER_TAG_SERVICE_ACCOUNT, ostr(&s.service_account)) + m_opt_int(DRIVER_TAG_CORES, oi32(s.cores)) + m_opt_str(DRIVER_TAG_CORE_LIMIT, ostr(&s.core_limit)) + m_opt_str(DRIVER_TAG_MEMORY, ostr(&s.memory)) + m_opt_str(DRIVER_TAG_MEMORY_OVERHEAD, ostr(&s.memory_overhead)) + m_opt_val(DRIVER_TAG_PORTS, (match &s.ports { Some(v) => Some(TreeView::Arr(port_views(v@))), None => None })) + m_opt_val(DRIVER_TAG_CONFIG_MAPS, (match &s.config_maps { Some(v) => Some(TreeView::Arr(name_path_views(v@))), None => None })) + m_opt_val(DRIVER_TAG_SECRETS, (match &s.secrets { Some(v) => Some(TreeView::Arr(secret_info_views(v@))), None => None })) + m_opt_val(DRIVER_TAG_ENV, (match &s.env { Some(v) => Some(TreeView::Arr(env_var_views(v@))), None => None })) + m_opt_map(DRIVER_TAG_NODE_SELECTOR, omap(&s.node_selector))
}

/// The encoded tree of the driver settings.
pub open spec fn driver_view(s: &crate::spark_application::DriverSpec) -> TreeView {
    TreeView::Obj(driver_members(s))
}

/// Encode the driver settings.
#[verifier::rlimit(100)]
#[verifier::spinoff_prover]
pub fn driver_to_tree(s: &crate::spark_application::DriverSpec) -> (r: Tree)
    ensures
        r@ == driver_view(s),
{
    let mut out: Vec<(u64, Tree)> = Vec::new();
    let ghost acc = Seq::<(nat, TreeView)>::empty();
    proof {
        assert(view_of_members(out@) =~= acc);
    }
    match &s.core_request {
        Some(v) => {
            push_member(&mut out, DRIVER_TAG_CORE_REQUEST, Tree::Str(v.clone()));
        }
        None => {}
    }
    proof {
        lemma_add_empty(acc);
        acc = acc + m_opt_str(DRIVER_TAG_CORE_REQUEST, ostr(&s.core_request));
        assert(view_of_members(out@) == acc);
    }
    match &s.java_options {
        Some(v) => {
            push_member(&mut out, DRIVER_TAG_JAVA_OPTIONS, Tree::Str(v.clone()));
        }
        None => {}
    }
    proof {
        lemma_add_empty(acc);
        acc = acc + m_opt_str(DRIVER_TAG_JAVA_OPTIONS, ostr(&s.java_options));
        assert(view_of_members(out@) == acc);
    }
    match &s.service_account {
        Some(v) => {
            push_member(&mut out, DRIVER_TAG_SERVICE_ACCOUNT, Tree::Str(v.clone()));
        }
        None => {}
    }
    proof {
        lemma_add_empty(acc);
        acc = acc + m_opt_str(DRIVER_TAG_SERVICE_ACCOUNT, ostr(&s.service_account));
        assert(view_of_members(out@) == acc);
    }
    match s.cores {
        Some(v) => {
            push_member(&mut out, DRIVER_TAG_CORES, Tree::Int(v as i64));
        }
        None => {}
    }
    proof {
        lemma_add_empty(acc);
        acc = acc + m_opt_int(DRIVER_TAG_CORES, oi32(s.cores));
        assert(view_of_members(out@) == acc);
    }
    match &s.core_limit {
        Some(v) => {
            push_member(&mut out, DRIVER_TAG_CORE_LIMIT, Tree::Str(v.clone()));
        }
        None => {}
    }
    proof {
        lemma_add_empty(acc);
        acc = acc + m_opt_str(DRIVER_TAG_CORE_LIMIT, ostr(&s.core_limit));
        assert(view_of_members(out@) == acc);
    }
    match &s.memory {
        Some(v) => {
            push_member(&mut out, DRIVER_TAG_MEMORY, Tree::Str(v.clone()));
        }
        None => {}
    }
    proof {
        lemma_add_empty(acc);
        acc = acc + m_opt_str(DRIVER_TAG_MEMORY, ostr(&s.memory));
        assert(view_of_members(out@) == acc);
    }
    match &s.memory_overhead {
        Some(v) => {
            push_member(&mut out, DRIVER_TAG_MEMORY_OVERHEAD, Tree::Str(v.clone()));
        }
        None => {}
    }
    proof {
        lemma_add_empty(acc);
        acc = acc + m_opt_str(DRIVER_TAG_MEMORY_OVERHEAD, ostr(&s.memory_overhead));
        assert(view_of_members(out@) == acc);
    }
    match &s.ports {
        Some(v) => {
            push_member(&mut out, DRIVER_TAG_PORTS, Tree::Arr(port_list_to_trees(v)));
        }
        None => {}
    }
    proof {
        lemma_add_empty(acc);
        acc = acc + m_opt_val(DRIVER_TAG_PORTS, (match &s.ports { Some(v) => Some(TreeView::Arr(port_views(v@))), None => None }));
        assert(view_of_members(out@) == acc);
    }
    match &s.config_maps {
        Some(v) => {
            push_member(&mut out, DRIVER_TAG_CONFIG_MAPS, Tree::Arr(name_path_list_to_trees(v)));
        }
        None => {}
    }
    proof {
        lemma_add_empty(acc);
        acc = acc + m_opt_val(DRIVER_TAG_CONFIG_MAPS, (match &s.config_maps { Some(v) => Some(TreeView::Arr(name_path_views(v@))), None => None }));
        assert(view_of_members(out@) == acc);
    }
    match &s.secrets {
        Some(v) => {
            push_member(&mut out, DRIVER_TAG_SECRETS, Tree::Arr(secret_info_list_to_trees(v)));
        }
        None => {}
    }
    proof {
        lemma_add_empty(acc);
        acc = acc + m_opt_val(DRIVER_TAG_SECRETS, (match &s.secrets { Some(v) => Some(TreeView::Arr(secret_info_views(v@))), None => None }));
        assert(view_of_members(out@) == acc);
    }
    match &s.env {
        Some(v) => {
            push_member(&mut out, DRIVER_TAG_ENV, Tree::Arr(env_var_list_to_trees(v)));
        }
        None => {}
    }
    proof {
        lemma_add_empty(acc);
        acc = acc + m_opt_val(DRIVER_TAG_ENV, (match &s.env { Some(v) => Some(TreeView::Arr(env_var_views(v@))), None => None }));
        assert(view_of_members(out@) == acc);
    }
    match &s.node_selector {
        Some(m) => {
            push_member(&mut out, DRIVER_TAG_NODE_SELECTOR, Tree::StrMap(m.clone()));
        }
        None => {}
    }
    proof {
        lemma_add_empty(acc);
        acc = acc + m_opt_map(DRIVER_TAG_NODE_SELECTOR, omap(&s.node_selector));
        assert(view_of_members(out@) == acc);
    }
    proof {
        assert(acc == driver_members(s));
    }
    Tree::Obj(out)
}

/// Whether a tree decodes as the driver settings.
pub open spec fn driver_shaped(t: TreeView) -> bool {
    match t {
        TreeView::Obj(ms) => {
            &&& slot_opt_str_ok(tree_get(ms, DRIVER_TAG_CORE_REQUEST as nat))
            &&& slot_opt_str_ok(tree_get(ms, DRIVER_TAG_JAVA_OPTIONS as nat))
            &&& slot_opt_str_ok(tree_get(ms, DRIVER_TAG_SERVICE_ACCOUNT as nat))
            &&& slot_opt_i32_ok(tree_get(ms, DRIVER_TAG_CORES as nat))
            &&& slot_opt_str_ok(tree_get(ms, DRIVER_TAG_CORE_LIMIT as nat))
            &&& slot_opt_str_ok(tree_get(ms, DRIVER_TAG_MEMORY as nat))
            &&& slot_opt_str_ok(tree_get(ms, DRIVER_TAG_MEMORY_OVERHEAD as nat))
            &&& slot_vec_port_ok(tree_get(ms, DRIVER_TAG_PORTS as nat))
            &&& slot_vec_name_path_ok(tree_get(ms, DRIVER_TAG_CONFIG_MAPS as nat))
            &&& slot_vec_secret_info_ok(tree_get(ms, DRIVER_TAG_SECRETS as nat))
            &&& slot_vec_env_var_ok(tree_get(ms, DRIVER_TAG_ENV as nat))
            &&& slot_opt_map_ok(tree_get(ms, DRIVER_TAG_NODE_SELECTOR as nat))
        }
        _ => false,
    }
}

/// How a decoded value relates to the tree it came from.
pub open spec fn driver_decodes(x: &crate::spark_application::DriverSpec, t: TreeView) -> bool {
    match t {
        TreeView::Obj(ms) => {
            &&& ostr(&x.core_request) == slot_opt_str(tree_get(ms, DRIVER_TAG_CORE_REQUEST as nat))
            &&& ostr(&x.java_options) == slot_opt_str(tree_get(ms, DRIVER_TAG_JAVA_OPTIONS as nat))
            &&& ostr(&x.service_account) == slot_opt_str(tree_get(ms, DRIVER_TAG_SERVICE_ACCOUNT as nat))
            &&& oi32(x.cores) == slot_opt_i32(tree_get(ms, DRIVER_TAG_CORES as nat))
            &&& ostr(&x.core_limit) == slot_opt_str(tree_get(ms, DRIVER_TAG_CORE_LIMIT as nat))
            &&& ostr(&x.memory) == slot_opt_str(tree_get(ms, DRIVER_TAG_MEMORY as nat))
            &&& ostr(&x.memory_overhead) == slot_opt_str(tree_get(ms, DRIVER_TAG_MEMORY_OVERHEAD as nat))
            &&& slot_vec_port_rel(&x.ports, tree_get(ms, DRIVER_TAG_PORTS as nat))
            &&& slot_vec_name_path_rel(&x.config_maps, tree_get(ms, DRIVER_TAG_CONFIG_MAPS as nat))
            &&& slot_vec_secret_info_rel(&x.secrets, tree_get(ms, DRIVER_TAG_SECRETS as nat))
            &&& slot_vec_env_var_rel(&x.env, tree_get(ms, DRIVER_TAG_ENV as nat))
            &&& omap(&x.node_selector) == slot_opt_map(tree_get(ms, DRIVER_TAG_NODE_SELECTOR as nat))
        }
        _ => false,
    }
}
/// Decode the driver settings.
#[verifier::rlimit(100)]
#[verifier::spinoff_prover]
pub fn driver_from_tree(t: &Tree) -> (r: Result<crate::spark_application::DriverSpec, ()>)
    ensures
        r is Ok <==> driver_shaped(t@),
        r matches Ok(x) ==> driver_decodes(&x, t@),
{
    match t {
        Tree::Obj(ms) => {
            proof {
                crate::tree::lemma_view_of_members_index(ms@);
            }
            let core_request = match dec_opt_str(crate::tree::obj_get(ms, DRIVER_TAG_CORE_REQUEST)) {
                Ok(v) => v,
                Err(_) => {
                    return Err(());
                }
            };
            let java_options = match dec_opt_str(crate::tree::obj_get(ms, DRIVER_TAG_JAVA_OPTIONS)) {
                Ok(v) => v,
                Err(_) => {
                    return Err(());
                }
            };
            let service_account = match dec_opt_str(crate::tree::obj_get(ms, DRIVER_TAG_SERVICE_ACCOUNT)) {
                Ok(v) => v,
                Err(_) => {
                    return Err(());
                }
            };
            let cores = match dec_opt_i32(crate::tree::obj_get(ms, DRIVER_TAG_CORES)) {
                Ok(v) => v,
                Err(_) => {
                    return Err(());
                }
            };
            let core_limit = match dec_opt_str(crate::tree::obj_get(ms, DRIVER_TAG_CORE_LIMIT)) {
                Ok(v) => v,
                Err(_) => {
                    return Err(());
                }
            };
            let memory = match dec_opt_str(crate::tree::obj_get(ms, DRIVER_TAG_MEMORY)) {
                Ok(v) => v,
                Err(_) => {
                    return Err(());
                }
            };
            let memory_overhead = match dec_opt_str(crate::tree::obj_get(ms, DRIVER_TAG_MEMORY_OVERHEAD)) {
                Ok(v) => v,
                Err(_) => {
                    return Err(());
                }
            };
            let ports = match dec_vec_port(crate::tree::obj_get(ms, DRIVER_TAG_PORTS)) {
                Ok(v) => v,
                Err(_) => {
                    return Err(());
                }
            };
            let config_maps = match dec_vec_name_path(crate::tree::obj_get(ms, DRIVER_TAG_CONFIG_MAPS)) {
                Ok(v) => v,
                Err(_) => {
                    return Err(());
                }
            };
            let secrets = match dec_vec_secret_info(crate::tree::obj_get(ms, DRIVER_TAG_SECRETS)) {
                Ok(v) => v,
                Err(_) => {
                    return Err(());
                }
            };
            let env = match dec_vec_env_var(crate::tree::obj_get(ms, DRIVER_TAG_ENV)) {
                Ok(v) => v,
                Err(_) => {
                    return Err(());
                }
            };
            let node_selector = match dec_opt_map(crate::tree::obj_get(ms, DRIVER_TAG_NODE_SELECTOR)) {
                Ok(v) => v,
                Err(_) => {
                    return Err(());
                }
            };
            Ok(crate::spark_application::DriverSpec { core_request, java_options, service_account, cores, core_limit, memory, memory_overhead, ports, config_maps, secrets, env, node_selector })
        }
        _ => {
            proof {
                assert(!(t@ is Obj));
            }
            Err(())
        }
    }
}

/// The encoding of the driver settings is canonical: tags are unique and ascending,
/// member values well formed.
#[verifier::rlimit(100)]
#[verifier::spinoff_prover]
pub proof fn lemma_driver_wf(s: &crate::spark_application::DriverSpec)
    ensures
        unique_keys(driver_members(s)),
        vals_wf(driver_members(s)),
        keys_lt(driver_members(s), 13),
        wf_view(driver_view(s)),
{
    match &s.ports {
        Some(v) => {
            assert forall|i: int| 0 <= i < v@.len() implies port_shaped(#[trigger] port_views(v@)[i])
                && port_decodes(&v@[i], port_views(v@)[i]) by {
                lemma_port_canon(&v@[i]);
            }
            assert(ports_all_shaped(port_views(v@)));
            assert(ports_all_decode(v@, port_views(v@)));
        }
        None => {}
    }
    match &s.config_maps {
        Some(v) => {
            assert forall|i: int| 0 <= i < v@.len() implies name_path_shaped(#[trigger] name_path_views(v@)[i])
                && name_path_decodes(&v@[i], name_path_views(v@)[i]) by {
                lemma_name_path_canon(&v@[i]);
            }
            assert(name_paths_all_shaped(name_path_views(v@)));
            assert(name_paths_all_decode(v@, name_path_views(v@)));
        }
        None => {}
    }
    match &s.secrets {
        Some(v) => {
            assert forall|i: int| 0 <= i < v@.len() implies secret_info_shaped(#[trigger] secret_info_views(v@)[i])
                && secret_info_decodes(&v@[i], secret_info_views(v@)[i]) by {
                lemma_secret_info_canon(&v@[i]);
            }
            assert(secret_infos_all_shaped(secret_info_views(v@)));
            assert(secret_infos_all_decode(v@, secret_info_views(v@)));
        }
        None => {}
    }
    match &s.env {
        Some(v) => {
            assert forall|i: int| 0 <= i < v@.len() implies env_var_shaped(#[trigger] env_var_views(v@)[i])
                && env_var_decodes(&v@[i], env_var_views(v@)[i]) by {
                lemma_env_var_canon(&v@[i]);
            }
            assert(env_vars_all_shaped(env_var_views(v@)));
            assert(env_vars_all_decode(v@, env_var_views(v@)));
        }
        None => {}
    }
    let m1 = m_opt_str(DRIVER_TAG_CORE_REQUEST, ostr(&s.core_request));
    let m2 = m_opt_str(DRIVER_TAG_JAVA_OPTIONS, ostr(&s.java_options));
    let m3 = m_opt_str(DRIVER_TAG_SERVICE_ACCOUNT, ostr(&s.service_account));
    let m4 = m_opt_int(DRIVER_TAG_CORES, oi32(s.cores));
    let m5 = m_opt_str(DRIVER_TAG_CORE_LIMIT, ostr(&s.core_limit));
    let m6 = m_opt_str(DRIVER_TAG_MEMORY, ostr(&s.memory));
    let m7 = m_opt_str(DRIVER_TAG_MEMORY_OVERHEAD, ostr(&s.memory_overhead));
    let m8 = m_opt_val(DRIVER_TAG_PORTS, (match &s.ports { Some(v) => Some(TreeView::Arr(port_views(v@))), None => None }));
    let m9 = m_opt_val(DRIVER_TAG_CONFIG_MAPS, (match &s.config_maps { Some(v) => Some(TreeView::Arr(name_path_views(v@))), None => None }));
    let m10 = m_opt_val(DRIVER_TAG_SECRETS, (match &s.secrets { Some(v) => Some(TreeView::Arr(secret_info_views(v@))), None => None }));
    let m11 = m_opt_val(DRIVER_TAG_ENV, (match &s.env { Some(v) => Some(TreeView::Arr(env_var_views(v@))), None => None }));
    let m12 = m_opt_map(DRIVER_TAG_NODE_SELECTOR, omap(&s.node_selector));
    let l1 = m1;
    let l2 = l1 + m2;
    let l3 = l2 + m3;
    let l4 = l3 + m4;
    let l5 = l4 + m5;
    let l6 = l5 + m6;
    let l7 = l6 + m7;
    let l8 = l7 + m8;
    let l9 = l8 + m9;
    let l10 = l9 + m10;
    let l11 = l10 + m11;
    let l12 = l11 + m12;
    assert(Seq::<(nat, TreeView)>::empty() + m1 =~= m1);
    lemma_canon_extend(Seq::empty(), m1, 1, 2);
    lemma_canon_extend(l1, m2, 2, 3);
    lemma_canon_extend(l2, m3, 3, 4);
    lemma_canon_extend(l3, m4, 4, 5);
    lemma_canon_extend(l4, m5, 5, 6);
    lemma_canon_extend(l5, m6, 6, 7);
    lemma_canon_extend(l6, m7, 7, 8);
    lemma_canon_extend(l7, m8, 8, 9);
    lemma_canon_extend(l8, m9, 9, 10);
    lemma_canon_extend(l9, m10, 10, 11);
    lemma_canon_extend(l10, m11, 11, 12);
    lemma_canon_extend(l11, m12, 12, 13);
    assert(driver_members(s) == l12);
    assert(wf_view(driver_view(s)));
}

/// Each tag of the encoding looks up to the encoded field.
#[verifier::rlimit(100)]
#[verifier::spinoff_prover]
pub proof fn lemma_driver_gets(s: &crate::spark_application::DriverSpec)
    ensures
        tree_get(driver_members(s), DRIVER_TAG_CORE_REQUEST as nat) == slot_of_opt_str(ostr(&s.core_request)),
        tree_get(driver_members(s), DRIVER_TAG_JAVA_OPTIONS as nat) == slot_of_opt_str(ostr(&s.java_options)),
        tree_get(driver_members(s), DRIVER_TAG_SERVICE_ACCOUNT as nat) == slot_of_opt_str(ostr(&s.service_account)),
        tree_get(driver_members(s), DRIVER_TAG_CORES as nat) == slot_of_opt_int(oi32(s.cores)),
        tree_get(driver_members(s), DRIVER_TAG_CORE_LIMIT as nat) == slot_of_opt_str(ostr(&s.core_limit)),
        tree_get(driver_members(s), DRIVER_TAG_MEMORY as nat) == slot_of_opt_str(ostr(&s.memory)),
        tree_get(driver_members(s), DRIVER_TAG_MEMORY_OVERHEAD as nat) == slot_of_opt_str(ostr(&s.memory_overhead)),
        tree_get(driver_members(s), DRIVER_TAG_PORTS as nat) == (match &s.ports { Some(v) => Some(TreeView::Arr(port_views(v@))), None => None }),
        tree_get(driver_members(s), DRIVER_TAG_CONFIG_MAPS as nat) == (match &s.config_maps { Some(v) => Some(TreeView::Arr(name_path_views(v@))), None => None }),
        tree_get(driver_members(s), DRIVER_TAG_SECRETS as nat) == (match &s.secrets { Some(v) => Some(TreeView::Arr(secret_info_views(v@))), None => None }),
        tree_get(driver_members(s), DRIVER_TAG_ENV as nat) == (match &s.env { Some(v) => Some(TreeView::Arr(env_var_views(v@))), None => None }),
        tree_get(driver_members(s), DRIVER_TAG_NODE_SELECTOR as nat) == slot_of_opt_map(omap(&s.node_selector)),
{
    let m1 = m_opt_str(DRIVER_TAG_CORE_REQUEST, ostr(&s.core_request));
    let m2 = m_opt_str(DRIVER_TAG_JAVA_OPTIONS, ostr(&s.java_options));
    let m3 = m_opt_str(DRIVER_TAG_SERVICE_ACCOUNT, ostr(&s.service_account));
    let m4 = m_opt_int(DRIVER_TAG_CORES, oi32(s.cores));
    let m5 = m_opt_str(DRIVER_TAG_CORE_LIMIT, ostr(&s.core_limit));
    let m6 = m_opt_str(DRIVER_TAG_MEMORY, ostr(&s.memory));
    let m7 = m_opt_str(DRIVER_TAG_MEMORY_OVERHEAD, ostr(&s.memory_overhead));
    let m8 = m_opt_val(DRIVER_TAG_PORTS, (match &s.ports { Some(v) => Some(TreeView::Arr(port_views(v@))), None => None }));
    let m9 = m_opt_val(DRIVER_TAG_CONFIG_MAPS, (match &s.config_maps { Some(v) => Some(TreeView::Arr(name_path_views(v@))), None => None }));
    let m10 = m_opt_val(DRIVER_TAG_SECRETS, (match &s.secrets { Some(v) => Some(TreeView::Arr(secret_info_views(v@))), None => None }));
    let m11 = m_opt_val(DRIVER_TAG_ENV, (match &s.env { Some(v) => Some(TreeView::Arr(env_var_views(v@))), None => None }));
    let m12 = m_opt_map(DRIVER_TAG_NODE_SELECTOR, omap(&s.node_selector));
    let l1 = m1;
    let l2 = l1 + m2;
    let l3 = l2 + m3;
    let l4 = l3 + m4;
    let l5 = l4 + m5;
    let l6 = l5 + m6;
    let l7 = l6 + m7;
    let l8 = l7 + m8;
    let l9 = l8 + m9;
    let l10 = l9 + m10;
    let l11 = l10 + m11;
    let l12 = l11 + m12;
    lemma_tree_get_opt_val(DRIVER_TAG_CORE_REQUEST, slot_of_opt_str(ostr(&s.core_request)));
    lemma_tree_get_opt_val(DRIVER_TAG_JAVA_OPTIONS, slot_of_opt_str(ostr(&s.java_options)));
    lemma_tree_get_opt_val(DRIVER_TAG_SERVICE_ACCOUNT, slot_of_opt_str(ostr(&s.service_account)));
    lemma_tree_get_opt_val(DRIVER_TAG_CORES, slot_of_opt_int(oi32(s.cores)));
    lemma_tree_get_opt_val(DRIVER_TAG_CORE_LIMIT, slot_of_opt_str(ostr(&s.core_limit)));
    lemma_tree_get_opt_val(DRIVER_TAG_MEMORY, slot_of_opt_str(ostr(&s.memory)));
    lemma_tree_get_opt_val(DRIVER_TAG_MEMORY_OVERHEAD, slot_of_opt_str(ostr(&s.memory_overhead)));
    lemma_tree_get_opt_val(DRIVER_TAG_PORTS, (match &s.ports { Some(v) => Some(TreeView::Arr(port_views(v@))), None => None }));
    lemma_tree_get_opt_val(DRIVER_TAG_CONFIG_MAPS, (match &s.config_maps { Some(v) => Some(TreeView::Arr(name_path_views(v@))), None => None }));
    lemma_tree_get_opt_val(DRIVER_TAG_SECRETS, (match &s.secrets { Some(v) => Some(TreeView::Arr(secret_info_views(v@))), None => None }));
    lemma_tree_get_opt_val(DRIVER_TAG_ENV, (match &s.env { Some(v) => Some(TreeView::Arr(env_var_views(v@))), None => None }));
    lemma_tree_get_opt_val(DRIVER_TAG_NODE_SELECTOR, slot_of_opt_map(omap(&s.node_selector)));
    lemma_tree_get_concat(l1, m2);
    lemma_tree_get_concat(l2, m3);
    lemma_tree_get_concat(l3, m4);
    lemma_tree_get_concat(l4, m5);
    lemma_tree_get_concat(l5, m6);
    lemma_tree_get_concat(l6, m7);
    lemma_tree_get_concat(l7, m8);
    lemma_tree_get_concat(l8, m9);
    lemma_tree_get_concat(l9, m10);
    lemma_tree_get_concat(l10, m11);
    lemma_tree_get_concat(l11, m12);
    assert(driver_members(s) == l12);
}

/// The encoding of the driver settings is canonical, correctly shaped, decodes to the
/// value itself, and each tag looks up to the encoded field.
#[verifier::rlimit(100)]
#[verifier::spinoff_prover]
pub proof fn lemma_driver_canon(s: &crate::spark_application::DriverSpec)
    ensures
        unique_keys(driver_members(s)),
        vals_wf(driver_members(s)),
        keys_lt(driver_members(s), 13),
        wf_view(driver_view(s)),
        driver_shaped(driver_view(s)),
        driver_decodes(s, driver_view(s)),
        tree_get(driver_members(s), DRIVER_TAG_CORE_REQUEST as nat) == slot_of_opt_str(ostr(&s.core_request)),
        tree_get(driver_members(s), DRIVER_TAG_JAVA_OPTIONS as nat) == slot_of_opt_str(ostr(&s.java_options)),
        tree_get(driver_members(s), DRIVER_TAG_SERVICE_ACCOUNT as nat) == slot_of_opt_str(ostr(&s.service_account)),
        tree_get(driver_members(s), DRIVER_TAG_CORES as nat) == slot_of_opt_int(oi32(s.cores)),
        tree_get(driver_members(s), DRIVER_TAG_CORE_LIMIT as nat) == slot_of_opt_str(ostr(&s.core_limit)),
        tree_get(driver_members(s), DRIVER_TAG_MEMORY as nat) == slot_of_opt_str(ostr(&s.memory)),
        tree_get(driver_members(s), DRIVER_TAG_MEMORY_OVERHEAD as nat) == slot_of_opt_str(ostr(&s.memory_overhead)),
        tree_get(driver_members(s), DRIVER_TAG_PORTS as nat) == (match &s.ports { Some(v) => Some(TreeView::Arr(port_views(v@))), None => None }),
        tree_get(driver_members(s), DRIVER_TAG_CONFIG_MAPS as nat) == (match &s.config_maps { Some(v) => Some(TreeView::Arr(name_path_views(v@))), None => None }),
        tree_get(driver_members(s), DRIVER_TAG_SECRETS as nat) == (match &s.secrets { Some(v) => Some(TreeView::Arr(secret_info_views(v@))), None => None }),
        tree_get(driver_members(s), DRIVER_TAG_ENV as nat) == (match &s.env { Some(v) => Some(TreeView::Arr(env_var_views(v@))), None => None }),
        tree_get(driver_members(s), DRIVER_TAG_NODE_SELECTOR as nat) == slot_of_opt_map(omap(&s.node_selector)),
{
    lemma_driver_wf(s);
    lemma_driver_gets(s);
    match &s.ports {
        Some(v) => {
            assert forall|i: int| 0 <= i < v@.len() implies port_shaped(#[trigger] port_views(v@)[i])
                && port_decodes(&v@[i], port_views(v@)[i]) by {
                lemma_port_canon(&v@[i]);
            }
            assert(ports_all_shaped(port_views(v@)));
            assert(ports_all_decode(v@, port_views(v@)));
        }
        None => {}
    }
    match &s.config_maps {
        Some(v) => {
            assert forall|i: int| 0 <= i < v@.len() implies name_path_shaped(#[trigger] name_path_views(v@)[i])
                && name_path_decodes(&v@[i], name_path_views(v@)[i]) by {
                lemma_name_path_canon(&v@[i]);
            }
            assert(name_paths_all_shaped(name_path_views(v@)));
            assert(name_paths_all_decode(v@, name_path_views(v@)));
        }
        None => {}
    }
    match &s.secrets {
        Some(v) => {
            assert forall|i: int| 0 <= i < v@.len() implies secret_info_shaped(#[trigger] secret_info_views(v@)[i])
                && secret_info_decodes(&v@[i], secret_info_views(v@)[i]) by {
                lemma_secret_info_canon(&v@[i]);
            }
            assert(secret_infos_all_shaped(secret_info_views(v@)));
            assert(secret_infos_all_decode(v@, secret_info_views(v@)));
        }
        None => {}
    }
    match &s.env {
        Some(v) => {
            assert forall|i: int| 0 <= i < v@.len() implies env_var_shaped(#[trigger] env_var_views(v@)[i])
                && env_var_decodes(&v@[i], env_var_views(v@)[i]) by {
                lemma_env_var_canon(&v@[i]);
            }
            assert(env_vars_all_shaped(env_var_views(v@)));
            assert(env_vars_all_decode(v@, env_var_views(v@)));
        }
        None => {}
    }
}

/// Decoding the encoding of the driver settings gives the value back.
#[verifier::rlimit(100)]
#[verifier::spinoff_prover]
pub proof fn lemma_driver_roundtrip(x: &crate::spark_application::DriverSpec, s: &crate::spark_application::DriverSpec)
    requires
        driver_decodes(x, driver_view(s)),
    ensures
        x.same_as(s),
{
    lemma_driver_canon(s);
    match (&x.ports, &s.ports) {
        (Some(a), Some(b)) => {
            assert forall|i: int| 0 <= i < a@.len() implies (#[trigger] a@[i]).same_as(&b@[i]) by {
                assert(port_views(b@)[i] == port_view(&b@[i]));
                lemma_port_roundtrip(&a@[i], &b@[i]);
            }
        }
        _ => {}
    }
    match (&x.config_maps, &s.config_maps) {
        (Some(a), Some(b)) => {
            assert forall|i: int| 0 <= i < a@.len() implies (#[trigger] a@[i]).same_as(&b@[i]) by {
                assert(name_path_views(b@)[i] == name_path_view(&b@[i]));
                lemma_name_path_roundtrip(&a@[i], &b@[i]);
            }
        }
        _ => {}
    }
    match (&x.secrets, &s.secrets) {
        (Some(a), Some(b)) => {
            assert forall|i: int| 0 <= i < a@.len() implies (#[trigger] a@[i]).same_as(&b@[i]) by {
                assert(secret_info_views(b@)[i] == secret_info_view(&b@[i]));
                lemma_secret_info_roundtrip(&a@[i], &b@[i]);
            }
        }
        _ => {}
    }
    match (&x.env, &s.env) {
        (Some(a), Some(b)) => {
            assert forall|i: int| 0 <= i < a@.len() implies (#[trigger] a@[i]).same_as(&b@[i]) by {
                assert(env_var_views(b@)[i] == env_var_view(&b@[i]));
                lemma_env_var_roundtrip(&a@[i], &b@[i]);
            }
        }
        _ => {}
    }
}

/// Equal values encode to equal member lists.
#[verifier::rlimit(100)]
#[verifier::spinoff_prover]
pub proof fn lemma_driver_congruent(a: &crate::spark_application::DriverSpec, b: &crate::spark_application::DriverSpec)
    requires
        a.same_as(b),
    ensures
        driver_members(a) == driver_members(b),
{
    match (&a.ports, &b.ports) {
        (Some(x), Some(y)) => {
            assert forall|i: int| 0 <= i < x@.len() implies #[trigger] port_views(x@)[i]
                == port_views(y@)[i] by {
                lemma_port_congruent(&x@[i], &y@[i]);
            }
            assert(port_views(x@) =~= port_views(y@));
        }
        _ => {}
    }
    match (&a.config_maps, &b.config_maps) {
        (Some(x), Some(y)) => {
            assert forall|i: int| 0 <= i < x@.len() implies #[trigger] name_path_views(x@)[i]
                == name_path_views(y@)[i] by {
                lemma_name_path_congruent(&x@[i], &y@[i]);
            }
            assert(name_path_views(x@) =~= name_path_views(y@));
        }
        _ => {}
    }
    match (&a.secrets, &b.secrets) {
        (Some(x), Some(y)) => {
            assert forall|i: int| 0 <= i < x@.len() implies #[trigger] secret_info_views(x@)[i]
                == secret_info_views(y@)[i] by {
                lemma_secret_info_congruent(&x@[i], &y@[i]);
            }
            assert(secret_info_views(x@) =~= secret_info_views(y@));
        }
        _ => {}
    }
    match (&a.env, &b.env) {
        (Some(x), Some(y)) => {
            assert forall|i: int| 0 <= i < x@.len() implies #[trigger] env_var_views(x@)[i]
                == env_var_views(y@)[i] by {
                lemma_env_var_congruent(&x@[i], &y@[i]);
            }
            assert(env_var_views(x@) =~= env_var_views(y@));
        }
        _ => {}
    }
}

pub const EXECUTOR_TAG_INSTANCES: u64 = 1;

pub const EXECUTOR_TAG_CORE_REQUEST: u64 = 2;

pub const EXECUTOR_TAG_JAVA_OPTIONS: u64 = 3;

pub const EXECUTOR_TAG_DELETE_ON_TERMINATION: u64 = 4;

pub const EXECUTOR_TAG_SERVICE_ACCOUNT: u64 = 5;

pub const EXECUTOR_TAG_CORES: u64 = 6;

pub const EXECUTOR_TAG_CORE_LIMIT: u64 = 7;

pub const EXECUTOR_TAG_MEMORY: u64 = 8;

pub const EXECUTOR_TAG_MEMORY_OVERHEAD: u64 = 9;

pub const EXECUTOR_TAG_SECRETS: u64 = 10;

pub const EXECUTOR_TAG_ENV: u64 = 11;

pub const EXECUTOR_TAG_NODE_SELECTOR: u64 = 12;

/// The encoded members of the executor settings.
pub open spec fn executor_members(s: &crate::spark_application::ExecutorSpec) -> Seq<(nat, TreeView)> {
    m_opt_int(EXECUTOR_TAG_INSTANCES, oi32(s.instances)) + m_opt_str(EXECUTOR_TAG_CORE_REQUEST, ostr(&s.core_request)) + m_opt_str(EXECUTOR_TAG_JAVA_OPTIONS, ostr(&s.java_options)) + m_opt_bool(EXECUTOR_TAG_DELETE_ON_TERMINATION, s.delete_on_termination) + m_opt_str(EXECUTOR_TAG_SERVICE_ACCOUNT, ostr(&s.service_account)) + m_opt_int(EXECUTOR_TAG_CORES, oi32(s.cores)) + m_opt_str(EXECUTOR_TAG_CORE_LIMIT, ostr(&s.core_limit)) + m_opt_str(EXECUTOR_TAG_MEMORY, ostr(&s.memory)) + m_opt_str(EXECUTOR_TAG_MEMORY_OVERHEAD, ostr(&s.memory_overhead)) + m_opt_val(EXECUTOR_TAG_SECRETS, (match &s.secrets { Some(v) => Some(TreeView::Arr(secret_info_views(v@))), None => None })) + m_opt_val(EXECUTOR_TAG_ENV, (match &s.env { Some(v) => Some(TreeView::Arr(env_var_views(v@))), None => None })) + m_opt_map(EXECUTOR_TAG_NODE_SELECTOR, omap(&s.node_selector))
}

/// The encoded tree of the executor settings.
pub open spec fn executor_view(s: &crate::spark_application::ExecutorSpec) -> TreeView {
    TreeView::Obj(executor_members(s))
}
/// The first members of the encoding of the executor settings, in tag order.
pub open spec fn executor_members_front(s: &crate::spark_application::ExecutorSpec) -> Seq<(nat, TreeView)> {
    m_opt_int(EXECUTOR_TAG_INSTANCES, oi32(s.instances)) + m_opt_str(EXECUTOR_TAG_CORE_REQUEST, ostr(&s.core_request)) + m_opt_str(EXECUTOR_TAG_JAVA_OPTIONS, ostr(&s.java_options)) + m_opt_bool(EXECUTOR_TAG_DELETE_ON_TERMINATION, s.delete_on_termination) + m_opt_str(EXECUTOR_TAG_SERVICE_ACCOUNT, ostr(&s.service_account)) + m_opt_int(EXECUTOR_TAG_CORES, oi32(s.cores))
}

#[verifier::rlimit(100)]
#[verifier::spinoff_prover]
fn executor_encode_front(s: &crate::spark_application::ExecutorSpec, out: &mut Vec<(u64, Tree)>)
    requires
        view_of_members(out@) == Seq::<(nat, TreeView)>::empty(),
    ensures
        view_of_members(final(out)@) == executor_members_front(s),
{
    let ghost acc = Seq::<(nat, TreeView)>::empty();
    match s.instances {
        Some(v) => {
            push_member(out, EXECUTOR_TAG_INSTANCES, Tree::Int(v as i64));
        }
        None => {}
    }
    proof {
        lemma_add_empty(acc);
        acc = acc + m_opt_int(EXECUTOR_TAG_INSTANCES, oi32(s.instances));
        assert(view_of_members(out@) == acc);
    }
    match &s.core_request {
        Some(v) => {
            push_member(out, EXECUTOR_TAG_CORE_REQUEST, Tree::Str(v.clone()));
        }
        None => {}
    }
    proof {
        lemma_add_empty(acc);
        acc = acc + m_opt_str(EXECUTOR_TAG_CORE_REQUEST, ostr(&s.core_request));
        assert(view_of_members(out@) == acc);
    }
    match &s.java_options {
        Some(v) => {
            push_member(out, EXECUTOR_TAG_JAVA_OPTIONS, Tree::Str(v.clone()));
        }
        None => {}
    }
    proof {
        lemma_add_empty(acc);
        acc = acc + m_opt_str(EXECUTOR_TAG_JAVA_OPTIONS, ostr(&s.java_options));
        assert(view_of_members(out@) == acc);
    }
    match s.delete_on_termination {
        Some(v) => {
            push_member(out, EXECUTOR_TAG_DELETE_ON_TERMINATION, Tree::Bool(v));
        }
        None => {}
    }
    proof {
        lemma_add_empty(acc);
        acc = acc + m_opt_bool(EXECUTOR_TAG_DELETE_ON_TERMINATION, s.delete_on_termination);
        assert(view_of_members(out@) == acc);
    }
    match &s.service_account {
        Some(v) => {
            push_member(out, EXECUTOR_TAG_SERVICE_ACCOUNT, Tree::Str(v.clone()));
        }
        None => {}
    }
    proof {
        lemma_add_empty(acc);
        acc = acc + m_opt_str(EXECUTOR_TAG_SERVICE_ACCOUNT, ostr(&s.service_account));
        assert(view_of_members(out@) == acc);
    }
    match s.cores {
        Some(v) => {
            push_member(out, EXECUTOR_TAG_CORES, Tree::Int(v as i64));
        }
        None => {}
    }
    proof {
        lemma_add_empty(acc);
        acc = acc + m_opt_int(EXECUTOR_TAG_CORES, oi32(s.cores));
        assert(view_of_members(out@) == acc);
    }
    proof {
        assert(acc == executor_members_front(s));
    }
}

#[verifier::rlimit(100)]
#[verifier::spinoff_prover]
fn executor_encode_back(s: &crate::spark_application::ExecutorSpec, out: &mut Vec<(u64, Tree)>)
    requires
        view_of_members(out@) == executor_members_front(s),
    ensures
        view_of_members(final(out)@) == executor_members(s),
{
    let ghost acc = executor_members_front(s);
    match &s.core_limit {
        Some(v) => {
            push_member(out, EXECUTOR_TAG_CORE_LIMIT, Tree::Str(v.clone()));
        }
        None => {}
    }
    proof {
        lemma_add_empty(acc);
        acc = acc + m_opt_str(EXECUTOR_TAG_CORE_LIMIT, ostr(&s.core_limit));
        assert(view_of_members(out@) == acc);
    }
    match &s.memory {
        Some(v) => {
            push_member(out, EXECUTOR_TAG_MEMORY, Tree::Str(v.clone()));
        }
        None => {}
    }
    proof {
        lemma_add_empty(acc);
        acc = acc + m_opt_str(EXECUTOR_TAG_MEMORY, ostr(&s.memory));
        assert(view_of_members(out@) == acc);
    }
    match &s.memory_overhead {
        Some(v) => {
            push_member(out, EXECUTOR_TAG_MEMORY_OVERHEAD, Tree::Str(v.clone()));
        }
        None => {}
    }
    proof {
        lemma_add_empty(acc);
        acc = acc + m_opt_str(EXECUTOR_TAG_MEMORY_OVERHEAD, ostr(&s.memory_overhead));
        assert(view_of_members(out@) == acc);
    }
    match &s.secrets {
        Some(v) => {
            push_member(out, EXECUTOR_TAG_SECRETS, Tree::Arr(secret_info_list_to_trees(v)));
        }
        None => {}
    }
    proof {
        lemma_add_empty(acc);
        acc = acc + m_opt_val(EXECUTOR_TAG_SECRETS, (match &s.secrets { Some(v) => Some(TreeView::Arr(secret_info_views(v@))), None => None }));
        assert(view_of_members(out@) == acc);
    }
    match &s.env {
        Some(v) => {
            push_member(out, EXECUTOR_TAG_ENV, Tree::Arr(env_var_list_to_trees(v)));
        }
        None => {}
    }
    proof {
        lemma_add_empty(acc);
        acc = acc + m_opt_val(EXECUTOR_TAG_ENV, (match &s.env { Some(v) => Some(TreeView::Arr(env_var_views(v@))), None => None }));
        assert(view_of_members(out@) == acc);
    }
    match &s.node_selector {
        Some(m) => {
            push_member(out, EXECUTOR_TAG_NODE_SELECTOR, Tree::StrMap(m.clone()));
        }
        None => {}
    }
    proof {
        lemma_add_empty(acc);
        acc = acc + m_opt_map(EXECUTOR_TAG_NODE_SELECTOR, omap(&s.node_selector));
        assert(view_of_members(out@) == acc);
    }
    proof {
        assert(acc == executor_members(s));
    }
}

/// Encode the executor settings.
pub fn executor_to_tree(s: &crate::spark_application::ExecutorSpec) -> (r: Tree)
    ensures
        r@ == executor_view(s),
{
    let mut out: Vec<(u64, Tree)> = Vec::new();
    proof {
        assert(view_of_members(out@) =~= Seq::<(nat, TreeView)>::empty());
    }
    executor_encode_front(s, &mut out);
    executor_encode_back(s, &mut out);
    Tree::Obj(out)
}

/// Whether a tree decodes as the executor settings.
pub open spec fn executor_shaped(t: TreeView) -> bool {
    match t {
        TreeView::Obj(ms) => {
            &&& slot_opt_i32_ok(tree_get(ms, EXECUTOR_TAG_INSTANCES as nat))
            &&& slot_opt_str_ok(tree_get(ms, EXECUTOR_TAG_CORE_REQUEST as nat))
            &&& slot_opt_str_ok(tree_get(ms, EXECUTOR_TAG_JAVA_OPTIONS as nat))
            &&& slot_opt_bool_ok(tree_get(ms, EXECUTOR_TAG_DELETE_ON_TERMINATION as nat))
            &&& slot_opt_str_ok(tree_get(ms, EXECUTOR_TAG_SERVICE_ACCOUNT as nat))
            &&& slot_opt_i32_ok(tree_get(ms, EXECUTOR_TAG_CORES as nat))
            &&& slot_opt_str_ok(tree_get(ms, EXECUTOR_TAG_CORE_LIMIT as nat))
            &&& slot_opt_str_ok(tree_get(ms, EXECUTOR_TAG_MEMORY as nat))
            &&& slot_opt_str_ok(tree_get(ms, EXECUTOR_TAG_MEMORY_OVERHEAD as nat))
            &&& slot_vec_secret_info_ok(tree_get(ms, EXECUTOR_TAG_SECRETS as nat))
            &&& slot_vec_env_var_ok(tree_get(ms, EXECUTOR_TAG_ENV as nat))
            &&& slot_opt_map_ok(tree_get(ms, EXECUTOR_TAG_NODE_SELECTOR as nat))
        }
        _ => false,
    }
}

/// How a decoded value relates to the tree it came from.
pub open spec fn executor_decodes(x: &crate::spark_application::ExecutorSpec, t: TreeView) -> bool {
    match t {
        TreeView::Obj(ms) => {
            &&& oi32(x.instances) == slot_opt_i32(tree_get(ms, EXECUTOR_TAG_INSTANCES as nat))
            &&& ostr(&x.core_request) == slot_opt_str(tree_get(ms, EXECUTOR_TAG_CORE_REQUEST as nat))
            &&& ostr(&x.java_options) == slot_opt_str(tree_get(ms, EXECUTOR_TAG_JAVA_OPTIONS as nat))
            &&& x.delete_on_termination == slot_opt_bool(tree_get(ms, EXECUTOR_TAG_DELETE_ON_TERMINATION as nat))
            &&& ostr(&x.service_account) == slot_opt_str(tree_get(ms, EXECUTOR_TAG_SERVICE_ACCOUNT as nat))
            &&& oi32(x.cores) == slot_opt_i32(tree_get(ms, EXECUTOR_TAG_CORES as nat))
            &&& ostr(&x.core_limit) == slot_opt_str(tree_get(ms, EXECUTOR_TAG_CORE_LIMIT as nat))
            &&& ostr(&x.memory) == slot_opt_str(tree_get(ms, EXECUTOR_TAG_MEMORY as nat))
            &&& ostr(&x.memory_overhead) == slot_opt_str(tree_get(ms, EXECUTOR_TAG_MEMORY_OVERHEAD as nat))
            &&& slot_vec_secret_info_rel(&x.secrets, tree_get(ms, EXECUTOR_TAG_SECRETS as nat))
            &&& slot_vec_env_var_rel(&x.env, tree_get(ms, EXECUTOR_TAG_ENV as nat))
            &&& omap(&x.node_selector) == slot_opt_map(tree_get(ms, EXECUTOR_TAG_NODE_SELECTOR as nat))
        }
        _ => false,
    }
}
/// Decode the executor settings.
#[verifier::rlimit(100)]
#[verifier::spinoff_prover]
pub fn executor_from_tree(t: &Tree) -> (r: Result<crate::spark_application::ExecutorSpec, ()>)
    ensures
        r is Ok <==> executor_shaped(t@),
        r matches Ok(x) ==> executor_decodes(&x, t@),
{
    match t {
        Tree::Obj(ms) => {
            proof {
                crate::tree::lemma_view_of_members_index(ms@);
            }
            let instances = match dec_opt_i32(crate::tree::obj_get(ms, EXECUTOR_TAG_INSTANCES)) {
                Ok(v) => v,
                Err(_) => {
                    return Err(());
                }
            };
            let core_request = match dec_opt_str(crate::tree::obj_get(ms, EXECUTOR_TAG_CORE_REQUEST)) {
                Ok(v) => v,
                Err(_) => {
                    return Err(());
                }
            };
            let java_options = match dec_opt_str(crate::tree::obj_get(ms, EXECUTOR_TAG_JAVA_OPTIONS)) {
                Ok(v) => v,
                Err(_) => {
                    return Err(());
                }
            };
            let delete_on_termination = match dec_opt_bool(crate::tree::obj_get(ms, EXECUTOR_TAG_DELETE_ON_TERMINATION)) {
                Ok(v) => v,
                Err(_) => {
                    return Err(());
                }
            };
            let service_account = match dec_opt_str(crate::tree::obj_get(ms, EXECUTOR_TAG_SERVICE_ACCOUNT)) {
                Ok(v) => v,
                Err(_) => {
                    return Err(());
                }
            };
            let cores = match dec_opt_i32(crate::tree::obj_get(ms, EXECUTOR_TAG_CORES)) {
                Ok(v) => v,
                Err(_) => {
                    return Err(());
                }
            };
            let core_limit = match dec_opt_str(crate::tree::obj_get(ms, EXECUTOR_TAG_CORE_LIMIT)) {
                Ok(v) => v,
                Err(_) => {
                    return Err(());
                }
            };
            let memory = match dec_opt_str(crate::tree::obj_get(ms, EXECUTOR_TAG_MEMORY)) {
                Ok(v) => v,
                Err(_) => {
                    return Err(());
                }
            };
            let memory_overhead = match dec_opt_str(crate::tree::obj_get(ms, EXECUTOR_TAG_MEMORY_OVERHEAD)) {
                Ok(v) => v,
                Err(_) => {
                    return Err(());
                }
            };
            let secrets = match dec_vec_secret_info(crate::tree::obj_get(ms, EXECUTOR_TAG_SECRETS)) {
                Ok(v) => v,
                Err(_) => {
                    return Err(());
                }
            };
            let env = match dec_vec_env_var(crate::tree::obj_get(ms, EXECUTOR_TAG_ENV)) {
                Ok(v) => v,
                Err(_) => {
                    return Err(());
                }
            };
            let node_selector = match dec_opt_map(crate::tree::obj_get(ms, EXECUTOR_TAG_NODE_SELECTOR)) {
                Ok(v) => v,
                Err(_) => {
                    return Err(());
                }
            };
            Ok(crate::spark_application::ExecutorSpec { instances, core_request, java_options, delete_on_termination, service_account, cores, core_limit, memory, memory_overhead, secrets, env, node_selector })
        }
        _ => {
            proof {
                assert(!(t@ is Obj));
            }
            Err(())
        }
    }
}

/// The encoding of the executor settings is canonical: tags are unique and ascending,
/// member values well formed.
#[verifier::rlimit(100)]
#[verifier::spinoff_prover]
pub proof fn lemma_executor_wf(s: &crate::spark_application::ExecutorSpec)
    ensures
        unique_keys(executor_members(s)),
        vals_wf(executor_members(s)),
        keys_lt(executor_members(s), 13),
        wf_view(executor_view(s)),
{
    match &s.secrets {
        Some(v) => {
            assert forall|i: int| 0 <= i < v@.len() implies secret_info_shaped(#[trigger] secret_info_views(v@)[i])
                && secret_info_decodes(&v@[i], secret_info_views(v@)[i]) by {
                lemma_secret_info_canon(&v@[i]);
            }
            assert(secret_infos_all_shaped(secret_info_views(v@)));
            assert(secret_infos_all_decode(v@, secret_info_views(v@)));
        }
        None => {}
    }
    match &s.env {
        Some(v) => {
            assert forall|i: int| 0 <= i < v@.len() implies env_var_shaped(#[trigger] env_var_views(v@)[i])
                && env_var_decodes(&v@[i], env_var_views(v@)[i]) by {
                lemma_env_var_canon(&v@[i]);
            }
            assert(env_vars_all_shaped(env_var_views(v@)));
            assert(env_vars_all_decode(v@, env_var_views(v@)));
        }
        None => {}
    }
    let m1 = m_opt_int(EXECUTOR_TAG_INSTANCES, oi32(s.instances));
    let m2 = m_opt_str(EXECUTOR_TAG_CORE_REQUEST, ostr(&s.core_request));
    let m3 = m_opt_str(EXECUTOR_TAG_JAVA_OPTIONS, ostr(&s.java_options));
    let m4 = m_opt_bool(EXECUTOR_TAG_DELETE_ON_TERMINATION, s.delete_on_termination);
    let m5 = m_opt_str(EXECUTOR_TAG_SERVICE_ACCOUNT, ostr(&s.service_account));
    let m6 = m_opt_int(EXECUTOR_TAG_CORES, oi32(s.cores));
    let m7 = m_opt_str(EXECUTOR_TAG_CORE_LIMIT, ostr(&s.core_limit));
    let m8 = m_opt_str(EXECUTOR_TAG_MEMORY, ostr(&s.memory));
    let m9 = m_opt_str(EXECUTOR_TAG_MEMORY_OVERHEAD, ostr(&s.memory_overhead));
    let m10 = m_opt_val(EXECUTOR_TAG_SECRETS, (match &s.secrets { Some(v) => Some(TreeView::Arr(secret_info_views(v@))), None => None }));
    let m11 = m_opt_val(EXECUTOR_TAG_ENV, (match &s.env { Some(v) => Some(TreeView::Arr(env_var_views(v@))), None => None }));
    let m12 = m_opt_map(EXECUTOR_TAG_NODE_SELECTOR, omap(&s.node_selector));
    let l1 = m1;
    let l2 = l1 + m2;
    let l3 = l2 + m3;
    let l4 = l3 + m4;
    let l5 = l4 + m5;
    let l6 = l5 + m6;
    let l7 = l6 + m7;
    let l8 = l7 + m8;
    let l9 = l8 + m9;
    let l10 = l9 + m10;
    let l11 = l10 + m11;
    let l12 = l11 + m12;
    assert(Seq::<(nat, TreeView)>::empty() + m1 =~= m1);
    lemma_canon_extend(Seq::empty(), m1, 1, 2);
    lemma_canon_extend(l1, m2, 2, 3);
    lemma_canon_extend(l2, m3, 3, 4);
    lemma_canon_extend(l3, m4, 4, 5);
    lemma_canon_extend(l4, m5, 5, 6);
    lemma_canon_extend(l5, m6, 6, 7);
    lemma_canon_extend(l6, m7, 7, 8);
    lemma_canon_extend(l7, m8, 8, 9);
    lemma_canon_extend(l8, m9, 9, 10);
    lemma_canon_extend(l9, m10, 10, 11);
    lemma_canon_extend(l10, m11, 11, 12);
    lemma_canon_extend(l11, m12, 12, 13);
    assert(executor_members(s) == l12);
    assert(wf_view(executor_view(s)));
}

/// Each tag of the encoding looks up to the encoded field.
#[verifier::rlimit(100)]
#[verifier::spinoff_prover]
pub proof fn lemma_executor_gets(s: &crate::spark_application::ExecutorSpec)
    ensures
        tree_get(executor_members(s), EXECUTOR_TAG_INSTANCES as nat) == slot_of_opt_int(oi32(s.instances)),
        tree_get(executor_members(s), EXECUTOR_TAG_CORE_REQUEST as nat) == slot_of_opt_str(ostr(&s.core_request)),
        tree_get(executor_members(s), EXECUTOR_TAG_JAVA_OPTIONS as nat) == slot_of_opt_str(ostr(&s.java_options)),
        tree_get(executor_members(s), EXECUTOR_TAG_DELETE_ON_TERMINATION as nat) == slot_of_opt_bool(s.delete_on_termination),
        tree_get(executor_members(s), EXECUTOR_TAG_SERVICE_ACCOUNT as nat) == slot_of_opt_str(ostr(&s.service_account)),
        tree_get(executor_members(s), EXECUTOR_TAG_CORES as nat) == slot_of_opt_int(oi32(s.cores)),
        tree_get(executor_members(s), EXECUTOR_TAG_CORE_LIMIT as nat) == slot_of_opt_str(ostr(&s.core_limit)),
        tree_get(executor_members(s), EXECUTOR_TAG_MEMORY as nat) == slot_of_opt_str(ostr(&s.memory)),
        tree_get(executor_members(s), EXECUTOR_TAG_MEMORY_OVERHEAD as nat) == slot_of_opt_str(ostr(&s.memory_overhead)),
        tree_get(executor_members(s), EXECUTOR_TAG_SECRETS as nat) == (match &s.secrets { Some(v) => Some(TreeView::Arr(secret_info_views(v@))), None => None }),
        tree_get(executor_members(s), EXECUTOR_TAG_ENV as nat) == (match &s.env { Some(v) => Some(TreeView::Arr(env_var_views(v@))), None => None }),
        tree_get(executor_members(s), EXECUTOR_TAG_NODE_SELECTOR as nat) == slot_of_opt_map(omap(&s.node_selector)),
{
    let m1 = m_opt_int(EXECUTOR_TAG_INSTANCES, oi32(s.instances));
    let m2 = m_opt_str(EXECUTOR_TAG_CORE_REQUEST, ostr(&s.core_request));
    let m3 = m_opt_str(EXECUTOR_TAG_JAVA_OPTIONS, ostr(&s.java_options));
    let m4 = m_opt_bool(EXECUTOR_TAG_DELETE_ON_TERMINATION, s.delete_on_termination);
    let m5 = m_opt_str(EXECUTOR_TAG_SERVICE_ACCOUNT, ostr(&s.service_account));
    let m6 = m_opt_int(EXECUTOR_TAG_CORES, oi32(s.cores));
    let m7 = m_opt_str(EXECUTOR_TAG_CORE_LIMIT, ostr(&s.core_limit));
    let m8 = m_opt_str(EXECUTOR_TAG_MEMORY, ostr(&s.memory));
    let m9 = m_opt_str(EXECUTOR_TAG_MEMORY_OVERHEAD, ostr(&s.memory_overhead));
    let m10 = m_opt_val(EXECUTOR_TAG_SECRETS, (match &s.secrets { Some(v) => Some(TreeView::Arr(secret_info_views(v@))), None => None }));
    let m11 = m_opt_val(EXECUTOR_TAG_ENV, (match &s.env { Some(v) => Some(TreeView::Arr(env_var_views(v@))), None => None }));
    let m12 = m_opt_map(EXECUTOR_TAG_NODE_SELECTOR, omap(&s.node_selector));
    let l1 = m1;
    let l2 = l1 + m2;
    let l3 = l2 + m3;
    let l4 = l3 + m4;
    let l5 = l4 + m5;
    let l6 = l5 + m6;
    let l7 = l6 + m7;
    let l8 = l7 + m8;
    let l9 = l8 + m9;
    let l10 = l9 + m10;
    let l11 = l10 + m11;
    let l12 = l11 + m12;
    lemma_tree_get_opt_val(EXECUTOR_TAG_INSTANCES, slot_of_opt_int(oi32(s.instances)));
    lemma_tree_get_opt_val(EXECUTOR_TAG_CORE_REQUEST, slot_of_opt_str(ostr(&s.core_request)));
    lemma_tree_get_opt_val(EXECUTOR_TAG_JAVA_OPTIONS, slot_of_opt_str(ostr(&s.java_options)));
    lemma_tree_get_opt_val(EXECUTOR_TAG_DELETE_ON_TERMINATION, slot_of_opt_bool(s.delete_on_termination));
    lemma_tree_get_opt_val(EXECUTOR_TAG_SERVICE_ACCOUNT, slot_of_opt_str(ostr(&s.service_account)));
    lemma_tree_get_opt_val(EXECUTOR_TAG_CORES, slot_of_opt_int(oi32(s.cores)));
    lemma_tree_get_opt_val(EXECUTOR_TAG_CORE_LIMIT, slot_of_opt_str(ostr(&s.core_limit)));
    lemma_tree_get_opt_val(EXECUTOR_TAG_MEMORY, slot_of_opt_str(ostr(&s.memory)));
    lemma_tree_get_opt_val(EXECUTOR_TAG_MEMORY_OVERHEAD, slot_of_opt_str(ostr(&s.memory_overhead)));
    lemma_tree_get_opt_val(EXECUTOR_TAG_SECRETS, (match &s.secrets { Some(v) => Some(TreeView::Arr(secret_info_views(v@))), None => None }));
    lemma_tree_get_opt_val(EXECUTOR_TAG_ENV, (match &s.env { Some(v) => Some(TreeView::Arr(env_var_views(v@))), None => None }));
    lemma_tree_get_opt_val(EXECUTOR_TAG_NODE_SELECTOR, slot_of_opt_map(omap(&s.node_selector)));
    lemma_tree_get_concat(l1, m2);
    lemma_tree_get_concat(l2, m3);
    lemma_tree_get_concat(l3, m4);
    lemma_tree_get_concat(l4, m5);
    lemma_tree_get_concat(l5, m6);
    lemma_tree_get_concat(l6, m7);
    lemma_tree_get_concat(l7, m8);
    lemma_tree_get_concat(l8, m9);
    lemma_tree_get_concat(l9, m10);
    lemma_tree_get_concat(l10, m11);
    lemma_tree_get_concat(l11, m12);
    assert(executor_members(s) == l12);
}

/// The encoding of the executor settings is canonical, correctly shaped, decodes to the
/// value itself, and each tag looks up to the encoded field.
#[verifier::rlimit(100)]
#[verifier::spinoff_prover]
pub proof fn lemma_executor_canon(s: &crate::spark_application::ExecutorSpec)
    ensures
        unique_keys(executor_members(s)),
        vals_wf(executor_members(s)),
        keys_lt(executor_members(s), 13),
        wf_view(executor_view(s)),
        executor_shaped(executor_view(s)),
        executor_decodes(s, executor_view(s)),
        tree_get(executor_members(s), EXECUTOR_TAG_INSTANCES as nat) == slot_of_opt_int(oi32(s.instances)),
        tree_get(executor_members(s), EXECUTOR_TAG_CORE_REQUEST as nat) == slot_of_opt_str(ostr(&s.core_request)),
        tree_get(executor_members(s), EXECUTOR_TAG_JAVA_OPTIONS as nat) == slot_of_opt_str(ostr(&s.java_options)),
        tree_get(executor_members(s), EXECUTOR_TAG_DELETE_ON_TERMINATION as nat) == slot_of_opt_bool(s.delete_on_termination),
        tree_get(executor_members(s), EXECUTOR_TAG_SERVICE_ACCOUNT as nat) == slot_of_opt_str(ostr(&s.service_account)),
        tree_get(executor_members(s), EXECUTOR_TAG_CORES as nat) == slot_of_opt_int(oi32(s.cores)),
        tree_get(executor_members(s), EXECUTOR_TAG_CORE_LIMIT as nat) == slot_of_opt_str(ostr(&s.core_limit)),
        tree_get(executor_members(s), EXECUTOR_TAG_MEMORY as nat) == slot_of_opt_str(ostr(&s.memory)),
        tree_get(executor_members(s), EXECUTOR_TAG_MEMORY_OVERHEAD as nat) == slot_of_opt_str(ostr(&s.memory_overhead)),
        tree_get(executor_members(s), EXECUTOR_TAG_SECRETS as nat) == (match &s.secrets { Some(v) => Some(TreeView::Arr(secret_info_views(v@))), None => None }),
        tree_get(executor_members(s), EXECUTOR_TAG_ENV as nat) == (match &s.env { Some(v) => Some(TreeView::Arr(env_var_views(v@))), None => None }),
        tree_get(executor_members(s), EXECUTOR_TAG_NODE_SELECTOR as nat) == slot_of_opt_map(omap(&s.node_selector)),
{
    lemma_executor_wf(s);
    lemma_executor_gets(s);
    match &s.secrets {
        Some(v) => {
            assert forall|i: int| 0 <= i < v@.len() implies secret_info_shaped(#[trigger] secret_info_views(v@)[i])
                && secret_info_decodes(&v@[i], secret_info_views(v@)[i]) by {
                lemma_secret_info_canon(&v@[i]);
            }
            assert(secret_infos_all_shaped(secret_info_views(v@)));
            assert(secret_infos_all_decode(v@, secret_info_views(v@)));
        }
        None => {}
    }
    match &s.env {
        Some(v) => {
            assert forall|i: int| 0 <= i < v@.len() implies env_var_shaped(#[trigger] env_var_views(v@)[i])
                && env_var_decodes(&v@[i], env_var_views(v@)[i]) by {
                lemma_env_var_canon(&v@[i]);
            }
            assert(env_vars_all_shaped(env_var_views(v@)));
            assert(env_vars_all_decode(v@, env_var_views(v@)));
        }
        None => {}
    }
}

/// Decoding the encoding of the executor settings gives the value back.
#[verifier::rlimit(100)]
#[verifier::spinoff_prover]
pub proof fn lemma_executor_roundtrip(x: &crate::spark_application::ExecutorSpec, s: &crate::spark_application::ExecutorSpec)
    requires
        executor_decodes(x, executor_view(s)),
    ensures
        x.same_as(s),
{
    lemma_executor_canon(s);
    match (&x.secrets, &s.secrets) {
        (Some(a), Some(b)) => {
            assert forall|i: int| 0 <= i < a@.len() implies (#[trigger] a@[i]).same_as(&b@[i]) by {
                assert(secret_info_views(b@)[i] == secret_info_view(&b@[i]));
                lemma_secret_info_roundtrip(&a@[i], &b@[i]);
            }
        }
        _ => {}
    }
    match (&x.env, &s.env) {
        (Some(a), Some(b)) => {
            assert forall|i: int| 0 <= i < a@.len() implies (#[trigger] a@[i]).same_as(&b@[i]) by {
                assert(env_var_views(b@)[i] == env_var_view(&b@[i]));
                lemma_env_var_roundtrip(&a@[i], &b@[i]);
            }
        }
        _ => {}
    }
}

/// Equal values encode to equal member lists.
#[verifier::rlimit(100)]
#[verifier::spinoff_prover]
pub proof fn lemma_executor_congruent(a: &crate::spark_application::ExecutorSpec, b: &crate::spark_application::ExecutorSpec)
    requires
        a.same_as(b),
    ensures
        executor_members(a) == executor_members(b),
{
    match (&a.secrets, &b.secrets) {
        (Some(x), Some(y)) => {
            assert forall|i: int| 0 <= i < x@.len() implies #[trigger] secret_info_views(x@)[i]
                == secret_info_views(y@)[i] by {
                lemma_secret_info_congruent(&x@[i], &y@[i]);
            }
            assert(secret_info_views(x@) =~= secret_info_views(y@));
        }
        _ => {}
    }
    match (&a.env, &b.env) {
        (Some(x), Some(y)) => {
            assert forall|i: int| 0 <= i < x@.len() implies #[trigger] env_var_views(x@)[i]
                == env_var_views(y@)[i] by {
                lemma_env_var_congruent(&x@[i], &y@[i]);
            }
            assert(env_var_views(x@) =~= env_var_views(y@));
        }
        _ => {}
    }
}

pub const SPARK_TAG_SPARK_VERSION: u64 = 1;

pub const SPARK_TAG_MODE: u64 = 2;

pub const SPARK_TAG_PROXY_USER: u64 = 3;

pub const SPARK_TAG_IMAGE: u64 = 4;

pub const SPARK_TAG_IMAGE_PULL_POLICY: u64 = 5;

pub const SPARK_TAG_IMAGE_PULL_SECRETS: u64 = 6;

pub const SPARK_TAG_SPARK_CONF: u64 = 7;

pub const SPARK_TAG_HADOOP_CONF: u64 = 8;

pub const SPARK_TAG_SPARK_CONFIG_MAP: u64 = 9;

pub const SPARK_TAG_HADOOP_CONFIG_MAP: u64 = 10;

pub const SPARK_TAG_DRIVER: u64 = 11;

pub const SPARK_TAG_EXECUTOR: u64 = 12;

pub const SPARK_TAG_DEPS: u64 = 13;

pub const SPARK_TAG_RESTART_POLICY: u64 = 14;

pub const SPARK_TAG_NODE_SELECTOR: u64 = 15;

pub const SPARK_TAG_FAILURE_RETRIES: u64 = 16;

pub const SPARK_TAG_RETRY_INTERVAL: u64 = 17;

pub const SPARK_TAG_MEMORY_OVERHEAD_FACTOR: u64 = 18;

pub const SPARK_TAG_MONITORING: u64 = 19;

pub const SPARK_TAG_BATCH_SCHEDULER: u64 = 20;

pub const SPARK_TAG_BATCH_SCHEDULER_OPTIONS: u64 = 21;

pub const SPARK_TAG_TIME_TO_LIVE_SECONDS: u64 = 22;

pub const SPARK_TAG_SPARK_UIOPTIONS: u64 = 23;

pub const SPARK_TAG_DYNAMIC_ALLOCATION: u64 = 24;

pub const SPARK_TAG_S3_CONNECTION: u64 = 25;

pub const SPARK_TAG_CATALOGS: u64 = 26;

pub const SPARK_TAG_ENV_SETS: u64 = 27;

/// The encoded members of an embedded Spark specification.
pub open spec fn spark_members(s: &crate::spark_application::SparkSpec) -> Seq<(nat, TreeView)> {
    m_str(SPARK_TAG_SPARK_VERSION, s.spark_version@) + m_opt_str(SPARK_TAG_MODE, ostr(&s.mode)) + m_opt_str(SPARK_TAG_PROXY_USER, ostr(&s.proxy_user)) + m_opt_str(SPARK_TAG_IMAGE, ostr(&s.image)) + m_opt_str(SPARK_TAG_IMAGE_PULL_POLICY, opull(s.image_pull_policy)) + m_opt_list(SPARK_TAG_IMAGE_PULL_SECRETS, olist(&s.image_pull_secrets)) + m_opt_map(SPARK_TAG_SPARK_CONF, omap(&s.spark_conf)) + m_opt_map(SPARK_TAG_HADOOP_CONF, omap(&s.hadoop_conf)) + m_opt_str(SPARK_TAG_SPARK_CONFIG_MAP, ostr(&s.spark_config_map)) + m_opt_str(SPARK_TAG_HADOOP_CONFIG_MAP, ostr(&s.hadoop_config_map)) + m_opt_val(SPARK_TAG_DRIVER, Some(driver_view(&s.driver))) + m_opt_val(SPARK_TAG_EXECUTOR, (match &s.executor { Some(v) => Some(executor_view(v)), None => None })) + m_opt_val(SPARK_TAG_DEPS, (match &s.deps { Some(v) => Some(deps_view(v)), None => None })) + m_opt_val(SPARK_TAG_RESTART_POLICY, (match &s.restart_policy { Some(v) => Some(restart_policy_view(v)), None => None })) + m_opt_map(SPARK_TAG_NODE_SELECTOR, omap(&s.node_selector)) + m_opt_int(SPARK_TAG_FAILURE_RETRIES, oi32(s.failure_retries)) + m_opt_int(SPARK_TAG_RETRY_INTERVAL, oi64(s.retry_interval)) + m_opt_str(SPARK_TAG_MEMORY_OVERHEAD_FACTOR, ostr(&s.memory_overhead_factor)) + m_opt_val(SPARK_TAG_MONITORING, (match &s.monitoring { Some(v) => Some(monitoring_view(v)), None => None })) + m_opt_str(SPARK_TAG_BATCH_SCHEDULER, ostr(&s.batch_scheduler)) + m_opt_val(SPARK_TAG_BATCH_SCHEDULER_OPTIONS, (match &s.batch_scheduler_options { Some(v) => Some(batch_conf_view(v)), None => None })) + m_opt_int(SPARK_TAG_TIME_TO_LIVE_SECONDS, oi64(s.time_to_live_seconds)) + m_opt_val(SPARK_TAG_SPARK_UIOPTIONS, (match &s.spark_uioptions { Some(v) => Some(ui_conf_view(v)), None => None })) + m_opt_val(SPARK_TAG_DYNAMIC_ALLOCATION, (match &s.dynamic_allocation { Some(v) => Some(dynamic_allocation_view(v)), None => None })) + m_opt_val(SPARK_TAG_S3_CONNECTION, (match &s.s3_connection { Some(v) => Some(conn_def_view(v)), None => None })) + m_opt_val(SPARK_TAG_CATALOGS, (match &s.catalogs { Some(v) => Some(TreeView::Arr(catalog_def_views(v@))), None => None })) + m_opt_val(SPARK_TAG_ENV_SETS, (match &s.env_sets { Some(v) => Some(TreeView::Arr(env_set_def_views(v@))), None => None }))
}

/// The encoded tree of an embedded Spark specification.
pub open spec fn spark_view(s: &crate::spark_application::SparkSpec) -> TreeView {
    TreeView::Obj(spark_members(s))
}
/// The first members of the encoding of an embedded Spark specification, in tag order.
pub open spec fn spark_members_front(s: &crate::spark_application::SparkSpec) -> Seq<(nat, TreeView)> {
    m_str(SPARK_TAG_SPARK_VERSION, s.spark_version@) + m_opt_str(SPARK_TAG_MODE, ostr(&s.mode)) + m_opt_str(SPARK_TAG_PROXY_USER, ostr(&s.proxy_user)) + m_opt_str(SPARK_TAG_IMAGE, ostr(&s.image)) + m_opt_str(SPARK_TAG_IMAGE_PULL_POLICY, opull(s.image_pull_policy)) + m_opt_list(SPARK_TAG_IMAGE_PULL_SECRETS, olist(&s.image_pull_secrets)) + m_opt_map(SPARK_TAG_SPARK_CONF, omap(&s.spark_conf)) + m_opt_map(SPARK_TAG_HADOOP_CONF, omap(&s.hadoop_conf)) + m_opt_str(SPARK_TAG_SPARK_CONFIG_MAP, ostr(&s.spark_config_map)) + m_opt_str(SPARK_TAG_HADOOP_CONFIG_MAP, ostr(&s.hadoop_config_map)) + m_opt_val(SPARK_TAG_DRIVER, Some(driver_view(&s.driver))) + m_opt_val(SPARK_TAG_EXECUTOR, (match &s.executor { Some(v) => Some(executor_view(v)), None => None })) + m_opt_val(SPARK_TAG_DEPS, (match &s.deps { Some(v) => Some(deps_view(v)), None => None }))
}

#[verifier::rlimit(100)]
#[verifier::spinoff_prover]
fn spark_encode_front(s: &crate::spark_application::SparkSpec, out: &mut Vec<(u64, Tree)>)
    requires
        view_of_members(out@) == Seq::<(nat, TreeView)>::empty(),
    ensures
        view_of_members(final(out)@) == spark_members_front(s),
{
    let ghost acc = Seq::<(nat, TreeView)>::empty();
    push_member(out, SPARK_TAG_SPARK_VERSION, Tree::Str(s.spark_version.clone()));
    proof {
        lemma_add_empty(acc);
        acc = acc + m_str(SPARK_TAG_SPARK_VERSION, s.spark_version@);
        assert(view_of_members(out@) == acc);
    }
    match &s.mode {
        Some(v) => {
            push_member(out, SPARK_TAG_MODE, Tree::Str(v.clone()));
        }
        None => {}
    }
    proof {
        lemma_add_empty(acc);
        acc = acc + m_opt_str(SPARK_TAG_MODE, ostr(&s.mode));
        assert(view_of_members(out@) == acc);
    }
    match &s.proxy_user {
        Some(v) => {
            push_member(out, SPARK_TAG_PROXY_USER, Tree::Str(v.clone()));
        }
        None => {}
    }
    proof {
        lemma_add_empty(acc);
        acc = acc + m_opt_str(SPARK_TAG_PROXY_USER, ostr(&s.proxy_user));
        assert(view_of_members(out@) == acc);
    }
    match &s.image {
        Some(v) => {
            push_member(out, SPARK_TAG_IMAGE, Tree::Str(v.clone()));
        }
        None => {}
    }
    proof {
        lemma_add_empty(acc);
        acc = acc + m_opt_str(SPARK_TAG_IMAGE, ostr(&s.image));
        assert(view_of_members(out@) == acc);
    }
    match s.image_pull_policy {
        Some(v) => {
            push_member(out, SPARK_TAG_IMAGE_PULL_POLICY, Tree::Str(v.as_str().to_owned()));
        }
        None => {}
    }
    proof {
        lemma_add_empty(acc);
        acc = acc + m_opt_str(SPARK_TAG_IMAGE_PULL_POLICY, opull(s.image_pull_policy));
        assert(view_of_members(out@) == acc);
    }
    match &s.image_pull_secrets {
        Some(v) => {
            push_member(out, SPARK_TAG_IMAGE_PULL_SECRETS, Tree::StrList(crate::tree::clone_strings(v)));
        }
        None => {}
    }
    proof {
        lemma_add_empty(acc);
        acc = acc + m_opt_list(SPARK_TAG_IMAGE_PULL_SECRETS, olist(&s.image_pull_secrets));
        assert(view_of_members(out@) == acc);
    }
    match &s.spark_conf {
        Some(m) => {
            push_member(out, SPARK_TAG_SPARK_CONF, Tree::StrMap(m.clone()));
        }
        None => {}
    }
    proof {
        lemma_add_empty(acc);
        acc = acc + m_opt_map(SPARK_TAG_SPARK_CONF, omap(&s.spark_conf));
        assert(view_of_members(out@) == acc);
    }
    match &s.hadoop_conf {
        Some(m) => {
            push_member(out, SPARK_TAG_HADOOP_CONF, Tree::StrMap(m.clone()));
        }
        None => {}
    }
    proof {
        lemma_add_empty(acc);
        acc = acc + m_opt_map(SPARK_TAG_HADOOP_CONF, omap(&s.hadoop_conf));
        assert(view_of_members(out@) == acc);
    }
    match &s.spark_config_map {
        Some(v) => {
            push_member(out, SPARK_TAG_SPARK_CONFIG_MAP, Tree::Str(v.clone()));
        }
        None => {}
    }
    proof {
        lemma_add_empty(acc);
        acc = acc + m_opt_str(SPARK_TAG_SPARK_CONFIG_MAP, ostr(&s.spark_config_map));
        assert(view_of_members(out@) == acc);
    }
    match &s.hadoop_config_map {
        Some(v) => {
            push_member(out, SPARK_TAG_HADOOP_CONFIG_MAP, Tree::Str(v.clone()));
        }
        None => {}
    }
    proof {
        lemma_add_empty(acc);
        acc = acc + m_opt_str(SPARK_TAG_HADOOP_CONFIG_MAP, ostr(&s.hadoop_config_map));
        assert(view_of_members(out@) == acc);
    }
    push_member(out, SPARK_TAG_DRIVER, driver_to_tree(&s.driver));
    proof {
        lemma_add_empty(acc);
        acc = acc + m_opt_val(SPARK_TAG_DRIVER, Some(driver_view(&s.driver)));
        assert(view_of_members(out@) == acc);
    }
    match &s.executor {
        Some(v) => {
            push_member(out, SPARK_TAG_EXECUTOR, executor_to_tree(v));
        }
        None => {}
    }
    proof {
        lemma_add_empty(acc);
        acc = acc + m_opt_val(SPARK_TAG_EXECUTOR, (match &s.executor { Some(v) => Some(executor_view(v)), None => None }));
        assert(view_of_members(out@) == acc);
    }
    match &s.deps {
        Some(v) => {
            push_member(out, SPARK_TAG_DEPS, deps_to_tree(v));
        }
        None => {}
    }
    proof {
        lemma_add_empty(acc);
        acc = acc + m_opt_val(SPARK_TAG_DEPS, (match &s.deps { Some(v) => Some(deps_view(v)), None => None }));
        assert(view_of_members(out@) == acc);
    }
    proof {
        assert(acc == spark_members_front(s));
    }
}

/// The first twenty members of the encoding, in tag order.
pub open spec fn spark_members_mid(s: &crate::spark_application::SparkSpec) -> Seq<(nat, TreeView)> {
    spark_members_front(s) + m_opt_val(SPARK_TAG_RESTART_POLICY, (match &s.restart_policy { Some(v) => Some(restart_policy_view(v)), None => None })) + m_opt_map(SPARK_TAG_NODE_SELECTOR, omap(&s.node_selector)) + m_opt_int(SPARK_TAG_FAILURE_RETRIES, oi32(s.failure_retries)) + m_opt_int(SPARK_TAG_RETRY_INTERVAL, oi64(s.retry_interval)) + m_opt_str(SPARK_TAG_MEMORY_OVERHEAD_FACTOR, ostr(&s.memory_overhead_factor)) + m_opt_val(SPARK_TAG_MONITORING, (match &s.monitoring { Some(v) => Some(monitoring_view(v)), None => None })) + m_opt_str(SPARK_TAG_BATCH_SCHEDULER, ostr(&s.batch_scheduler))
}

#[verifier::rlimit(100)]
#[verifier::spinoff_prover]
fn spark_encode_back(s: &crate::spark_application::SparkSpec, out: &mut Vec<(u64, Tree)>)
    requires
        view_of_members(out@) == spark_members_front(s),
    ensures
        view_of_members(final(out)@) == spark_members_mid(s),
{
    let ghost acc = spark_members_front(s);
    match &s.restart_policy {
        Some(v) => {
            push_member(out, SPARK_TAG_RESTART_POLICY, restart_policy_to_tree(v));
        }
        None => {}
    }
    proof {
        lemma_add_empty(acc);
        acc = acc + m_opt_val(SPARK_TAG_RESTART_POLICY, (match &s.restart_policy { Some(v) => Some(restart_policy_view(v)), None => None }));
        assert(view_of_members(out@) == acc);
    }
    match &s.node_selector {
        Some(m) => {
            push_member(out, SPARK_TAG_NODE_SELECTOR, Tree::StrMap(m.clone()));
        }
        None => {}
    }
    proof {
        lemma_add_empty(acc);
        acc = acc + m_opt_map(SPARK_TAG_NODE_SELECTOR, omap(&s.node_selector));
        assert(view_of_members(out@) == acc);
    }
    match s.failure_retries {
        Some(v) => {
            push_member(out, SPARK_TAG_FAILURE_RETRIES, Tree::Int(v as i64));
        }
        None => {}
    }
    proof {
        lemma_add_empty(acc);
        acc = acc + m_opt_int(SPARK_TAG_FAILURE_RETRIES, oi32(s.failure_retries));
        assert(view_of_members(out@) == acc);
    }
    match s.retry_interval {
        Some(v) => {
            push_member(out, SPARK_TAG_RETRY_INTERVAL, Tree::Int(v));
        }
        None => {}
    }
    proof {
        lemma_add_empty(acc);
        acc = acc + m_opt_int(SPARK_TAG_RETRY_INTERVAL, oi64(s.retry_interval));
        assert(view_of_members(out@) == acc);
    }
    match &s.memory_overhead_factor {
        Some(v) => {
            push_member(out, SPARK_TAG_MEMORY_OVERHEAD_FACTOR, Tree::Str(v.clone()));
        }
        None => {}
    }
    proof {
        lemma_add_empty(acc);
        acc = acc + m_opt_str(SPARK_TAG_MEMORY_OVERHEAD_FACTOR, ostr(&s.memory_overhead_factor));
        assert(view_of_members(out@) == acc);
    }
    match &s.monitoring {
        Some(v) => {
            push_member(out, SPARK_TAG_MONITORING, monitoring_to_tree(v));
        }
        None => {}
    }
    proof {
        lemma_add_empty(acc);
        acc = acc + m_opt_val(SPARK_TAG_MONITORING, (match &s.monitoring { Some(v) => Some(monitoring_view(v)), None => None }));
        assert(view_of_members(out@) == acc);
    }
    match &s.batch_scheduler {
        Some(v) => {
            push_member(out, SPARK_TAG_BATCH_SCHEDULER, Tree::Str(v.clone()));
        }
        None => {}
    }
    proof {
        lemma_add_empty(acc);
        acc = acc + m_opt_str(SPARK_TAG_BATCH_SCHEDULER, ostr(&s.batch_scheduler));
        assert(view_of_members(out@) == acc);
    }
    proof {
        assert(acc == spark_members_mid(s));
    }
}

#[verifier::rlimit(100)]
#[verifier::spinoff_prover]
fn spark_encode_tail(s: &crate::spark_application::SparkSpec, out: &mut Vec<(u64, Tree)>)
    requires
        view_of_members(out@) == spark_members_mid(s),
    ensures
        view_of_members(final(out)@) == spark_members(s),
{
    let ghost acc = spark_members_mid(s);
    match &s.batch_scheduler_options {
        Some(v) => {
            push_member(out, SPARK_TAG_BATCH_SCHEDULER_OPTIONS, batch_conf_to_tree(v));
        }
        None => {}
    }
    proof {
        lemma_add_empty(acc);
        acc = acc + m_opt_val(SPARK_TAG_BATCH_SCHEDULER_OPTIONS, (match &s.batch_scheduler_options { Some(v) => Some(batch_conf_view(v)), None => None }));
        assert(view_of_members(out@) == acc);
    }
    match s.time_to_live_seconds {
        Some(v) => {
            push_member(out, SPARK_TAG_TIME_TO_LIVE_SECONDS, Tree::Int(v));
        }
        None => {}
    }
    proof {
        lemma_add_empty(acc);
        acc = acc + m_opt_int(SPARK_TAG_TIME_TO_LIVE_SECONDS, oi64(s.time_to_live_seconds));
        assert(view_of_members(out@) == acc);
    }
    match &s.spark_uioptions {
        Some(v) => {
            push_member(out, SPARK_TAG_SPARK_UIOPTIONS, ui_conf_to_tree(v));
        }
        None => {}
    }
    proof {
        lemma_add_empty(acc);
        acc = acc + m_opt_val(SPARK_TAG_SPARK_UIOPTIONS, (match &s.spark_uioptions { Some(v) => Some(ui_conf_view(v)), None => None }));
        assert(view_of_members(out@) == acc);
    }
    match &s.dynamic_allocation {
        Some(v) => {
            push_member(out, SPARK_TAG_DYNAMIC_ALLOCATION, dynamic_allocation_to_tree(v));
        }
        None => {}
    }
    proof {
        lemma_add_empty(acc);
        acc = acc + m_opt_val(SPARK_TAG_DYNAMIC_ALLOCATION, (match &s.dynamic_allocation { Some(v) => Some(dynamic_allocation_view(v)), None => None }));
        assert(view_of_members(out@) == acc);
    }
    match &s.s3_connection {
        Some(v) => {
            push_member(out, SPARK_TAG_S3_CONNECTION, conn_def_to_tree(v));
        }
        None => {}
    }
    proof {
        lemma_add_empty(acc);
        acc = acc + m_opt_val(SPARK_TAG_S3_CONNECTION, (match &s.s3_connection { Some(v) => Some(conn_def_view(v)), None => None }));
        assert(view_of_members(out@) == acc);
    }
    match &s.catalogs {
        Some(v) => {
            push_member(out, SPARK_TAG_CATALOGS, Tree::Arr(catalog_def_list_to_trees(v)));
        }
        None => {}
    }
    proof {
        lemma_add_empty(acc);
        acc = acc + m_opt_val(SPARK_TAG_CATALOGS, (match &s.catalogs { Some(v) => Some(TreeView::Arr(catalog_def_views(v@))), None => None }));
        assert(view_of_members(out@) == acc);
    }
    match &s.env_sets {
        Some(v) => {
            push_member(out, SPARK_TAG_ENV_SETS, Tree::Arr(env_set_def_list_to_trees(v)));
        }
        None => {}
    }
    proof {
        lemma_add_empty(acc);
        acc = acc + m_opt_val(SPARK_TAG_ENV_SETS, (match &s.env_sets { Some(v) => Some(TreeView::Arr(env_set_def_views(v@))), None => None }));
        assert(view_of_members(out@) == acc);
    }
    proof {
        assert(acc == spark_members(s));
    }
}

/// Encode an embedded Spark specification.
pub fn spark_to_tree(s: &crate::spark_application::SparkSpec) -> (r: Tree)
    ensures
        r@ == spark_view(s),
{
    let mut out: Vec<(u64, Tree)> = Vec::new();
    proof {
        assert(view_of_members(out@) =~= Seq::<(nat, TreeView)>::empty());
    }
    spark_encode_front(s, &mut out);
    spark_encode_back(s, &mut out);
    spark_encode_tail(s, &mut out);
    Tree::Obj(out)
}

/// Whether a tree decodes as an embedded Spark specification.
pub open spec fn spark_shaped(t: TreeView) -> bool {
    match t {
        TreeView::Obj(ms) => {
            &&& slot_str_default_ok(tree_get(ms, SPARK_TAG_SPARK_VERSION as nat))
            &&& slot_opt_str_ok(tree_get(ms, SPARK_TAG_MODE as nat))
            &&& slot_opt_str_ok(tree_get(ms, SPARK_TAG_PROXY_USER as nat))
            &&& slot_opt_str_ok(tree_get(ms, SPARK_TAG_IMAGE as nat))
            &&& slot_opt_pull_ok(tree_get(ms, SPARK_TAG_IMAGE_PULL_POLICY as nat))
            &&& slot_opt_list_ok(tree_get(ms, SPARK_TAG_IMAGE_PULL_SECRETS as nat))
            &&& slot_opt_map_ok(tree_get(ms, SPARK_TAG_SPARK_CONF as nat))
            &&& slot_opt_map_ok(tree_get(ms, SPARK_TAG_HADOOP_CONF as nat))
            &&& slot_opt_str_ok(tree_get(ms, SPARK_TAG_SPARK_CONFIG_MAP as nat))
            &&& slot_opt_str_ok(tree_get(ms, SPARK_TAG_HADOOP_CONFIG_MAP as nat))
            &&& (match tree_get(ms, SPARK_TAG_DRIVER as nat) { Some(t) => driver_shaped(t), None => false })
            &&& (match tree_get(ms, SPARK_TAG_EXECUTOR as nat) { Some(t) => executor_shaped(t), None => true })
            &&& (match tree_get(ms, SPARK_TAG_DEPS as nat) { Some(t) => deps_shaped(t), None => true })
            &&& (match tree_get(ms, SPARK_TAG_RESTART_POLICY as nat) { Some(t) => restart_policy_shaped(t), None => true })
            &&& slot_opt_map_ok(tree_get(ms, SPARK_TAG_NODE_SELECTOR as nat))
            &&& slot_opt_i32_ok(tree_get(ms, SPARK_TAG_FAILURE_RETRIES as nat))
            &&& slot_opt_i64_ok(tree_get(ms, SPARK_TAG_RETRY_INTERVAL as nat))
            &&& slot_opt_str_ok(tree_get(ms, SPARK_TAG_MEMORY_OVERHEAD_FACTOR as nat))
            &&& (match tree_get(ms, SPARK_TAG_MONITORING as nat) { Some(t) => monitoring_shaped(t), None => true })
            &&& slot_opt_str_ok(tree_get(ms, SPARK_TAG_BATCH_SCHEDULER as nat))
            &&& (match tree_get(ms, SPARK_TAG_BATCH_SCHEDULER_OPTIONS as nat) { Some(t) => batch_conf_shaped(t), None => true })
            &&& slot_opt_i64_ok(tree_get(ms, SPARK_TAG_TIME_TO_LIVE_SECONDS as nat))
            &&& (match tree_get(ms, SPARK_TAG_SPARK_UIOPTIONS as nat) { Some(t) => ui_conf_shaped(t), None => true })
            &&& (match tree_get(ms, SPARK_TAG_DYNAMIC_ALLOCATION as nat) { Some(t) => dynamic_allocation_shaped(t), None => true })
            &&& (match tree_get(ms, SPARK_TAG_S3_CONNECTION as nat) { Some(t) => conn_def_shaped(t), None => true })
            &&& slot_vec_catalog_def_ok(tree_get(ms, SPARK_TAG_CATALOGS as nat))
            &&& slot_vec_env_set_def_ok(tree_get(ms, SPARK_TAG_ENV_SETS as nat))
        }
        _ => false,
    }
}

/// How a decoded value relates to the tree it came from.
pub open spec fn spark_decodes(x: &crate::spark_application::SparkSpec, t: TreeView) -> bool {
    match t {
        TreeView::Obj(ms) => {
            &&& x.spark_version@ == slot_str_default(tree_get(ms, SPARK_TAG_SPARK_VERSION as nat))
            &&& ostr(&x.mode) == slot_opt_str(tree_get(ms, SPARK_TAG_MODE as nat))
            &&& ostr(&x.proxy_user) == slot_opt_str(tree_get(ms, SPARK_TAG_PROXY_USER as nat))
            &&& ostr(&x.image) == slot_opt_str(tree_get(ms, SPARK_TAG_IMAGE as nat))
            &&& x.image_pull_policy == slot_opt_pull(tree_get(ms, SPARK_TAG_IMAGE_PULL_POLICY as nat))
            &&& olist(&x.image_pull_secrets) == slot_opt_list(tree_get(ms, SPARK_TAG_IMAGE_PULL_SECRETS as nat))
            &&& omap(&x.spark_conf) == slot_opt_map(tree_get(ms, SPARK_TAG_SPARK_CONF as nat))
            &&& omap(&x.hadoop_conf) == slot_opt_map(tree_get(ms, SPARK_TAG_HADOOP_CONF as nat))
            &&& ostr(&x.spark_config_map) == slot_opt_str(tree_get(ms, SPARK_TAG_SPARK_CONFIG_MAP as nat))
            &&& ostr(&x.hadoop_config_map) == slot_opt_str(tree_get(ms, SPARK_TAG_HADOOP_CONFIG_MAP as nat))
            &&& (match tree_get(ms, SPARK_TAG_DRIVER as nat) { Some(t) => driver_decodes(&x.driver, t), None => false })
            &&& (match (&x.executor, tree_get(ms, SPARK_TAG_EXECUTOR as nat)) { (Some(v), Some(t)) => executor_decodes(v, t), (None, None) => true, _ => false })
            &&& (match (&x.deps, tree_get(ms, SPARK_TAG_DEPS as nat)) { (Some(v), Some(t)) => deps_decodes(v, t), (None, None) => true, _ => false })
            &&& (match (&x.restart_policy, tree_get(ms, SPARK_TAG_RESTART_POLICY as nat)) { (Some(v), Some(t)) => restart_policy_decodes(v, t), (None, None) => true, _ => false })
            &&& omap(&x.node_selector) == slot_opt_map(tree_get(ms, SPARK_TAG_NODE_SELECTOR as nat))
            &&& oi32(x.failure_retries) == slot_opt_i32(tree_get(ms, SPARK_TAG_FAILURE_RETRIES as nat))
            &&& oi64(x.retry_interval) == slot_opt_i64(tree_get(ms, SPARK_TAG_RETRY_INTERVAL as nat))
            &&& ostr(&x.memory_overhead_factor) == slot_opt_str(tree_get(ms, SPARK_TAG_MEMORY_OVERHEAD_FACTOR as nat))
            &&& (match (&x.monitoring, tree_get(ms, SPARK_TAG_MONITORING as nat)) { (Some(v), Some(t)) => monitoring_decodes(v, t), (None, None) => true, _ => false })
            &&& ostr(&x.batch_scheduler) == slot_opt_str(tree_get(ms, SPARK_TAG_BATCH_SCHEDULER as nat))
            &&& (match (&x.batch_scheduler_options, tree_get(ms, SPARK_TAG_BATCH_SCHEDULER_OPTIONS as nat)) { (Some(v), Some(t)) => batch_conf_decodes(v, t), (None, None) => true, _ => false })
            &&& oi64(x.time_to_live_seconds) == slot_opt_i64(tree_get(ms, SPARK_TAG_TIME_TO_LIVE_SECONDS as nat))
            &&& (match (&x.spark_uioptions, tree_get(ms, SPARK_TAG_SPARK_UIOPTIONS as nat)) { (Some(v), Some(t)) => ui_conf_decodes(v, t), (None, None) => true, _ => false })
            &&& (match (&x.dynamic_allocation, tree_get(ms, SPARK_TAG_DYNAMIC_ALLOCATION as nat)) { (Some(v), Some(t)) => dynamic_allocation_decodes(v, t), (None, None) => true, _ => false })
            &&& (match (&x.s3_connection, tree_get(ms, SPARK_TAG_S3_CONNECTION as nat)) { (Some(v), Some(t)) => conn_def_decodes(v, t), (None, None) => true, _ => false })
            &&& slot_vec_catalog_def_rel(&x.catalogs, tree_get(ms, SPARK_TAG_CATALOGS as nat))
            &&& slot_vec_env_set_def_rel(&x.env_sets, tree_get(ms, SPARK_TAG_ENV_SETS as nat))
        }
        _ => false,
    }
}
/// Decode an embedded Spark specification.
#[verifier::rlimit(100)]
#[verifier::spinoff_prover]
pub fn spark_from_tree(t: &Tree) -> (r: Result<crate::spark_application::SparkSpec, ()>)
    ensures
        r is Ok <==> spark_shaped(t@),
        r matches Ok(x) ==> spark_decodes(&x, t@),
{
    match t {
        Tree::Obj(ms) => {
            proof {
                crate::tree::lemma_view_of_members_index(ms@);
            }
            let spark_version = match dec_str_default(crate::tree::obj_get(ms, SPARK_TAG_SPARK_VERSION)) {
                Ok(v) => v,
                Err(_) => {
                    return Err(());
                }
            };
            let mode = match dec_opt_str(crate::tree::obj_get(ms, SPARK_TAG_MODE)) {
                Ok(v) => v,
                Err(_) => {
                    return Err(());
                }
            };
            let proxy_user = match dec_opt_str(crate::tree::obj_get(ms, SPARK_TAG_PROXY_USER)) {
                Ok(v) => v,
                Err(_) => {
                    return Err(());
                }
            };
            let image = match dec_opt_str(crate::tree::obj_get(ms, SPARK_TAG_IMAGE)) {
                Ok(v) => v,
                Err(_) => {
                    return Err(());
                }
            };
            let image_pull_policy = match dec_opt_pull(crate::tree::obj_get(ms, SPARK_TAG_IMAGE_PULL_POLICY)) {
                Ok(v) => v,
                Err(_) => {
                    return Err(());
                }
            };
            let image_pull_secrets = match dec_opt_list(crate::tree::obj_get(ms, SPARK_TAG_IMAGE_PULL_SECRETS)) {
                Ok(v) => v,
                Err(_) => {
                    return Err(());
                }
            };
            let spark_conf = match dec_opt_map(crate::tree::obj_get(ms, SPARK_TAG_SPARK_CONF)) {
                Ok(v) => v,
                Err(_) => {
                    return Err(());
                }
            };
            let hadoop_conf = match dec_opt_map(crate::tree::obj_get(ms, SPARK_TAG_HADOOP_CONF)) {
                Ok(v) => v,
                Err(_) => {
                    return Err(());
                }
            };
            let spark_config_map = match dec_opt_str(crate::tree::obj_get(ms, SPARK_TAG_SPARK_CONFIG_MAP)) {
                Ok(v) => v,
                Err(_) => {
                    return Err(());
                }
            };
            let hadoop_config_map = match dec_opt_str(crate::tree::obj_get(ms, SPARK_TAG_HADOOP_CONFIG_MAP)) {
                Ok(v) => v,
                Err(_) => {
                    return Err(());
                }
            };
            let driver = match crate::tree::obj_get(ms, SPARK_TAG_DRIVER) {
                Some(t2) => match driver_from_tree(t2) {
                    Ok(v) => v,
                    Err(_) => {
                        return Err(());
                    }
                },
                None => {
                    return Err(());
                }
            };
            let executor = match crate::tree::obj_get(ms, SPARK_TAG_EXECUTOR) {
                Some(t2) => match executor_from_tree(t2) {
                    Ok(v) => Some(v),
                    Err(_) => {
                        return Err(());
                    }
                },
                None => None,
            };
            let deps = match crate::tree::obj_get(ms, SPARK_TAG_DEPS) {
                Some(t2) => match deps_from_tree(t2) {
                    Ok(v) => Some(v),
                    Err(_) => {
                        return Err(());
                    }
                },
                None => None,
            };
            let restart_policy = match crate::tree::obj_get(ms, SPARK_TAG_RESTART_POLICY) {
                Some(t2) => match restart_policy_from_tree(t2) {
                    Ok(v) => Some(v),
                    Err(_) => {
                        return Err(());
                    }
                },
                None => None,
            };
            let node_selector = match dec_opt_map(crate::tree::obj_get(ms, SPARK_TAG_NODE_SELECTOR)) {
                Ok(v) => v,
                Err(_) => {
                    return Err(());
                }
            };
            let failure_retries = match dec_opt_i32(crate::tree::obj_get(ms, SPARK_TAG_FAILURE_RETRIES)) {
                Ok(v) => v,
                Err(_) => {
                    return Err(());
                }
            };
            let retry_interval = match dec_opt_i64(crate::tree::obj_get(ms, SPARK_TAG_RETRY_INTERVAL)) {
                Ok(v) => v,
                Err(_) => {
                    return Err(());
                }
            };
            let memory_overhead_factor = match dec_opt_str(crate::tree::obj_get(ms, SPARK_TAG_MEMORY_OVERHEAD_FACTOR)) {
                Ok(v) => v,
                Err(_) => {
                    return Err(());
                }
            };
            let monitoring = match crate::tree::obj_get(ms, SPARK_TAG_MONITORING) {
                Some(t2) => match monitoring_from_tree(t2) {
                    Ok(v) => Some(v),
                    Err(_) => {
                        return Err(());
                    }
                },
                None => None,
            };
            let batch_scheduler = match dec_opt_str(crate::tree::obj_get(ms, SPARK_TAG_BATCH_SCHEDULER)) {
                Ok(v) => v,
                Err(_) => {
                    return Err(());
                }
            };
            let batch_scheduler_options = match crate::tree::obj_get(ms, SPARK_TAG_BATCH_SCHEDULER_OPTIONS) {
                Some(t2) => match batch_conf_from_tree(t2) {
                    Ok(v) => Some(v),
                    Err(_) => {
                        return Err(());
                    }
                },
                None => None,
            };
            let time_to_live_seconds = match dec_opt_i64(crate::tree::obj_get(ms, SPARK_TAG_TIME_TO_LIVE_SECONDS)) {
                Ok(v) => v,
                Err(_) => {
                    return Err(());
                }
            };
            let spark_uioptions = match crate::tree::obj_get(ms, SPARK_TAG_SPARK_UIOPTIONS) {
                Some(t2) => match ui_conf_from_tree(t2) {
                    Ok(v) => Some(v),
                    Err(_) => {
                        return Err(());
                    }
                },
                None => None,
            };
            let dynamic_allocation = match crate::tree::obj_get(ms, SPARK_TAG_DYNAMIC_ALLOCATION) {
                Some(t2) => match dynamic_allocation_from_tree(t2) {
                    Ok(v) => Some(v),
                    Err(_) => {
                        return Err(());
                    }
                },
                None => None,
            };
            let s3_connection = match crate::tree::obj_get(ms, SPARK_TAG_S3_CONNECTION) {
                Some(t2) => match conn_def_from_tree(t2) {
                    Ok(v) => Some(v),
                    Err(_) => {
                        return Err(());
                    }
                },
                None => None,
            };
            let catalogs = match dec_vec_catalog_def(crate::tree::obj_get(ms, SPARK_TAG_CATALOGS)) {
                Ok(v) => v,
                Err(_) => {
                    return Err(());
                }
            };
            let env_sets = match dec_vec_env_set_def(crate::tree::obj_get(ms, SPARK_TAG_ENV_SETS)) {
                Ok(v) => v,
                Err(_) => {
                    return Err(());
                }
            };
            Ok(crate::spark_application::SparkSpec { spark_version, mode, proxy_user, image, image_pull_policy, image_pull_secrets, spark_conf, hadoop_conf, spark_config_map, hadoop_config_map, driver, executor, deps, restart_policy, node_selector, failure_retries, retry_interval, memory_overhead_factor, monitoring, batch_scheduler, batch_scheduler_options, time_to_live_seconds, spark_uioptions, dynamic_allocation, s3_connection, catalogs, env_sets })
        }
        _ => {
            proof {
                assert(!(t@ is Obj));
            }
            Err(())
        }
    }
}

impl crate::spark_application::SparkSpec {
    /// Merge this specification over an optional template.  Both sides are
    /// encoded onto the intermediate tree, the instance is applied to the
    /// template as a merge patch (instance fields win, absent instance
    /// fields keep the template's value, nested objects merge member-wise,
    /// lists replace wholesale), and the merged tree is decoded back.  The
    /// merge succeeds exactly when the merged tree is rightly shaped; an
    /// attached fragment whose two sides use different variants is the one
    /// way two rightly shaped inputs can clash.  With no template, the
    /// specification comes back unchanged, not as an error; and merging a
    /// specification with itself leaves it unchanged.
    pub fn merge_template_opt(
        &self,
        template: Option<&crate::spark_application::SparkSpec>,
    ) -> (r: Result<crate::spark_application::SparkSpec, crate::crd::Error>)
        ensures
            template is None ==> (r matches Ok(m) && m.same_as(self)),
            template matches Some(t) ==> (r is Ok <==> spark_shaped(
                merge_view(spark_view(t), spark_view(self)),
            )),
            template matches Some(t) ==> (r matches Ok(m) ==> spark_decodes(
                &m,
                merge_view(spark_view(t), spark_view(self)),
            )),
            template matches Some(t) && t.same_as(self) ==> (r matches Ok(m) && m.same_as(self)),
            r matches Err(e) ==> e.is_merge_failure(),
    {
        proof {
            lemma_spark_canon(self);
        }
        let ghost target = match template {
            Some(t) => merge_view(spark_view(t), spark_view(self)),
            None => spark_view(self),
        };
        let patch = spark_to_tree(self);
        let merged = match template {
            Some(t) => {
                proof {
                    if t.same_as(self) {
                        lemma_spark_congruent(t, self);
                        lemma_spark_wf(self);
                        crate::tree::lemma_merge_view_self(spark_view(self));
                    }
                }
                let base = spark_to_tree(t);
                let m = crate::tree::merge_trees(&base, &patch);
                proof {
                    assert(m@ == target);
                }
                m
            }
            None => patch,
        };
        proof {
            assert(merged@ == target);
        }
        match spark_from_tree(&merged) {
            Ok(m) => {
                proof {
                    if template is None {
                        lemma_spark_roundtrip(&m, self);
                    }
                    if template matches Some(t) && t.same_as(self) {
                        lemma_spark_roundtrip(&m, self);
                    }
                }
                Ok(m)
            }
            Err(_) => Err(
                crate::crd::Error::FailedMergeObjects {
                    internal: "the merged specification has the wrong shape".to_owned(),
                },
            ),
        }
    }
}

/// Every element of the list is rightly shaped.
pub open spec fn ports_all_shaped(es: Seq<TreeView>) -> bool {
    forall|i: int| 0 <= i < es.len() ==> port_shaped(#[trigger] es[i])
}

/// The decoded elements relate one-to-one to the trees they came from.
pub open spec fn ports_all_decode(xs: Seq<crate::spark_application::Port>, es: Seq<TreeView>) -> bool {
    xs.len() == es.len() && (forall|i: int| 0 <= i < es.len() ==> port_decodes(
        &xs[i],
        #[trigger] es[i],
    ))
}

/// Whether a slot can decode as a list of these values.
pub open spec fn slot_vec_port_ok(s: Option<TreeView>) -> bool {
    match s {
        None => true,
        Some(t) => match t {
            TreeView::Arr(es) => ports_all_shaped(es),
            _ => false,
        },
    }
}

/// How a decoded list relates to the slot it came from.
pub open spec fn slot_vec_port_rel(v: &Option<Vec<crate::spark_application::Port>>, s: Option<TreeView>) -> bool {
    match (v, s) {
        (Some(xs), Some(t)) => match t {
            TreeView::Arr(es) => ports_all_decode(xs@, es),
            _ => false,
        },
        (None, None) => true,
        _ => false,
    }
}

/// Decode an optional list slot of these values.
fn dec_vec_port(o: Option<&Tree>) -> (r: Result<Option<Vec<crate::spark_application::Port>>, ()>)
    ensures
        r is Ok <==> slot_vec_port_ok(oview(o)),
        r matches Ok(v) ==> slot_vec_port_rel(&v, oview(o)),
{
    match o {
        None => Ok(None),
        Some(t) => match t {
            Tree::Arr(es) => {
                proof {
                    crate::tree::lemma_view_of_values_index(es@);
                    assert(t@ == TreeView::Arr(crate::tree::view_of_values(es@)));
                }
                match port_list_from_trees(es) {
                    Ok(v) => Ok(Some(v)),
                    Err(_) => Err(()),
                }
            }
            _ => {
                proof {
                    assert(!(t@ is Arr));
                }
                Err(())
            }
        },
    }
}
/// Every element of the list is rightly shaped.
pub open spec fn name_paths_all_shaped(es: Seq<TreeView>) -> bool {
    forall|i: int| 0 <= i < es.len() ==> name_path_shaped(#[trigger] es[i])
}

/// The decoded elements relate one-to-one to the trees they came from.
pub open spec fn name_paths_all_decode(xs: Seq<crate::spark_application::NamePath>, es: Seq<TreeView>) -> bool {
    xs.len() == es.len() && (forall|i: int| 0 <= i < es.len() ==> name_path_decodes(
        &xs[i],
        #[trigger] es[i],
    ))
}

/// Whether a slot can decode as a list of these values.
pub open spec fn slot_vec_name_path_ok(s: Option<TreeView>) -> bool {
    match s {
        None => true,
        Some(t) => match t {
            TreeView::Arr(es) => name_paths_all_shaped(es),
            _ => false,
        },
    }
}

/// How a decoded list relates to the slot it came from.
pub open spec fn slot_vec_name_path_rel(v: &Option<Vec<crate::spark_application::NamePath>>, s: Option<TreeView>) -> bool {
    match (v, s) {
        (Some(xs), Some(t)) => match t {
            TreeView::Arr(es) => name_paths_all_decode(xs@, es),
            _ => false,
        },
        (None, None) => true,
        _ => false,
    }
}

/// Decode an optional list slot of these values.
fn dec_vec_name_path(o: Option<&Tree>) -> (r: Result<Option<Vec<crate::spark_application::NamePath>>, ()>)
    ensures
        r is Ok <==> slot_vec_name_path_ok(oview(o)),
        r matches Ok(v) ==> slot_vec_name_path_rel(&v, oview(o)),
{
    match o {
        None => Ok(None),
        Some(t) => match t {
            Tree::Arr(es) => {
                proof {
                    crate::tree::lemma_view_of_values_index(es@);
                    assert(t@ == TreeView::Arr(crate::tree::view_of_values(es@)));
                }
                match name_path_list_from_trees(es) {
                    Ok(v) => Ok(Some(v)),
                    Err(_) => Err(()),
                }
            }
            _ => {
                proof {
                    assert(!(t@ is Arr));
                }
                Err(())
            }
        },
    }
}

/// Every element of the list is rightly shaped.
pub open spec fn secret_infos_all_shaped(es: Seq<TreeView>) -> bool {
    forall|i: int| 0 <= i < es.len() ==> secret_info_shaped(#[trigger] es[i])
}

/// The decoded elements relate one-to-one to the trees they came from.
pub open spec fn secret_infos_all_decode(xs: Seq<crate::spark_application::SecretInfo>, es: Seq<TreeView>) -> bool {
    xs.len() == es.len() && (forall|i: int| 0 <= i < es.len() ==> secret_info_decodes(
        &xs[i],
        #[trigger] es[i],
    ))
}

/// Whether a slot can decode as a list of these values.
pub open spec fn slot_vec_secret_info_ok(s: Option<TreeView>) -> bool {
    match s {
        None => true,
        Some(t) => match t {
            TreeView::Arr(es) => secret_infos_all_shaped(es),
            _ => false,
        },
    }
}

/// How a decoded list relates to the slot it came from.
pub open spec fn slot_vec_secret_info_rel(v: &Option<Vec<crate::spark_application::SecretInfo>>, s: Option<TreeView>) -> bool {
    match (v, s) {
        (Some(xs), Some(t)) => match t {
            TreeView::Arr(es) => secret_infos_all_decode(xs@, es),
            _ => false,
        },
        (None, None) => true,
        _ => false,
    }
}

/// Decode an optional list slot of these values.
fn dec_vec_secret_info(o: Option<&Tree>) -> (r: Result<Option<Vec<crate::spark_application::SecretInfo>>, ()>)
    ensures
        r is Ok <==> slot_vec_secret_info_ok(oview(o)),
        r matches Ok(v) ==> slot_vec_secret_info_rel(&v, oview(o)),
{
    match o {
        None => Ok(None),
        Some(t) => match t {
            Tree::Arr(es) => {
                proof {
                    crate::tree::lemma_view_of_values_index(es@);
                    assert(t@ == TreeView::Arr(crate::tree::view_of_values(es@)));
                }
                match secret_info_list_from_trees(es) {
                    Ok(v) => Ok(Some(v)),
                    Err(_) => Err(()),
                }
            }
            _ => {
                proof {
                    assert(!(t@ is Arr));
                }
                Err(())
            }
        },
    }
}

/// Every element of the list is rightly shaped.
pub open spec fn env_vars_all_shaped(es: Seq<TreeView>) -> bool {
    forall|i: int| 0 <= i < es.len() ==> env_var_shaped(#[trigger] es[i])
}

/// The decoded elements relate one-to-one to the trees they came from.
pub open spec fn env_vars_all_decode(xs: Seq<crate::k8s::EnvVar>, es: Seq<TreeView>) -> bool {
    xs.len() == es.len() && (forall|i: int| 0 <= i < es.len() ==> env_var_decodes(
        &xs[i],
        #[trigger] es[i],
    ))
}

/// Whether a slot can decode as a list of these values.
pub open spec fn slot_vec_env_var_ok(s: Option<TreeView>) -> bool {
    match s {
        None => true,
        Some(t) => match t {
            TreeView::Arr(es) => env_vars_all_shaped(es),
            _ => false,
        },
    }
}

/// How a decoded list relates to the slot it came from.
pub open spec fn slot_vec_env_var_rel(v: &Option<Vec<crate::k8s::EnvVar>>, s: Option<TreeView>) -> bool {
    match (v, s) {
        (Some(xs), Some(t)) => match t {
            TreeView::Arr(es) => env_vars_all_decode(xs@, es),
            _ => false,
        },
        (None, None) => true,
        _ => false,
    }
}

/// Decode an optional list slot of these values.
fn dec_vec_env_var(o: Option<&Tree>) -> (r: Result<Option<Vec<crate::k8s::EnvVar>>, ()>)
    ensures
        r is Ok <==> slot_vec_env_var_ok(oview(o)),
        r matches Ok(v) ==> slot_vec_env_var_rel(&v, oview(o)),
{
    match o {
        None => Ok(None),
        Some(t) => match t {
            Tree::Arr(es) => {
                proof {
                    crate::tree::lemma_view_of_values_index(es@);
                    assert(t@ == TreeView::Arr(crate::tree::view_of_values(es@)));
                }
                match env_var_list_from_trees(es) {
                    Ok(v) => Ok(Some(v)),
                    Err(_) => Err(()),
                }
            }
            _ => {
                proof {
                    assert(!(t@ is Arr));
                }
                Err(())
            }
        },
    }
}

/// Every element of the list is rightly shaped.
pub open spec fn catalog_defs_all_shaped(es: Seq<TreeView>) -> bool {
    forall|i: int| 0 <= i < es.len() ==> catalog_def_shaped(#[trigger] es[i])
}

/// The decoded elements relate one-to-one to the trees they came from.
pub open spec fn catalog_defs_all_decode(xs: Seq<crate::crd::SparkCatalogDef>, es: Seq<TreeView>) -> bool {
    xs.len() == es.len() && (forall|i: int| 0 <= i < es.len() ==> catalog_def_decodes(
        &xs[i],
        #[trigger] es[i],
    ))
}

/// Whether a slot can decode as a list of these values.
pub open spec fn slot_vec_catalog_def_ok(s: Option<TreeView>) -> bool {
    match s {
        None => true,
        Some(t) => match t {
            TreeView::Arr(es) => catalog_defs_all_shaped(es),
            _ => false,
        },
    }
}

/// How a decoded list relates to the slot it came from.
pub open spec fn slot_vec_catalog_def_rel(v: &Option<Vec<crate::crd::SparkCatalogDef>>, s: Option<TreeView>) -> bool {
    match (v, s) {
        (Some(xs), Some(t)) => match t {
            TreeView::Arr(es) => catalog_defs_all_decode(xs@, es),
            _ => false,
        },
        (None, None) => true,
        _ => false,
    }
}

/// Decode an optional list slot of these values.
fn dec_vec_catalog_def(o: Option<&Tree>) -> (r: Result<Option<Vec<crate::crd::SparkCatalogDef>>, ()>)
    ensures
        r is Ok <==> slot_vec_catalog_def_ok(oview(o)),
        r matches Ok(v) ==> slot_vec_catalog_def_rel(&v, oview(o)),
{
    match o {
        None => Ok(None),
        Some(t) => match t {
            Tree::Arr(es) => {
                proof {
                    crate::tree::lemma_view_of_values_index(es@);
                    assert(t@ == TreeView::Arr(crate::tree::view_of_values(es@)));
                }
                match catalog_def_list_from_trees(es) {
                    Ok(v) => Ok(Some(v)),
                    Err(_) => Err(()),
                }
            }
            _ => {
                proof {
                    assert(!(t@ is Arr));
                }
                Err(())
            }
        },
    }
}

/// Every element of the list is rightly shaped.
pub open spec fn env_set_defs_all_shaped(es: Seq<TreeView>) -> bool {
    forall|i: int| 0 <= i < es.len() ==> env_set_def_shaped(#[trigger] es[i])
}

/// The decoded elements relate one-to-one to the trees they came from.
pub open spec fn env_set_defs_all_decode(xs: Seq<crate::crd::SparkEnvSetDef>, es: Seq<TreeView>) -> bool {
    xs.len() == es.len() && (forall|i: int| 0 <= i < es.len() ==> env_set_def_decodes(
        &xs[i],
        #[trigger] es[i],
    ))
}

/// Whether a slot can decode as a list of these values.
pub open spec fn slot_vec_env_set_def_ok(s: Option<TreeView>) -> bool {
    match s {
        None => true,
        Some(t) => match t {
            TreeView::Arr(es) => env_set_defs_all_shaped(es),
            _ => false,
        },
    }
}

/// How a decoded list relates to the slot it came from.
pub open spec fn slot_vec_env_set_def_rel(v: &Option<Vec<crate::crd::SparkEnvSetDef>>, s: Option<TreeView>) -> bool {
    match (v, s) {
        (Some(xs), Some(t)) => match t {
            TreeView::Arr(es) => env_set_defs_all_decode(xs@, es),
            _ => false,
        },
        (None, None) => true,
        _ => false,
    }
}

/// Decode an optional list slot of these values.
fn dec_vec_env_set_def(o: Option<&Tree>) -> (r: Result<Option<Vec<crate::crd::SparkEnvSetDef>>, ()>)
    ensures
        r is Ok <==> slot_vec_env_set_def_ok(oview(o)),
        r matches Ok(v) ==> slot_vec_env_set_def_rel(&v, oview(o)),
{
    match o {
        None => Ok(None),
        Some(t) => match t {
            Tree::Arr(es) => {
                proof {
                    crate::tree::lemma_view_of_values_index(es@);
                    assert(t@ == TreeView::Arr(crate::tree::view_of_values(es@)));
                }
                match env_set_def_list_from_trees(es) {
                    Ok(v) => Ok(Some(v)),
                    Err(_) => Err(()),
                }
            }
            _ => {
                proof {
                    assert(!(t@ is Arr));
                }
                Err(())
            }
        },
    }
}










/// The encoding of an embedded Spark specification is canonical up to its first members:
/// tags are unique and ascending, member values well formed.
#[verifier::rlimit(100)]
#[verifier::spinoff_prover]
proof fn lemma_spark_wf_front(s: &crate::spark_application::SparkSpec)
    ensures
        unique_keys(spark_members_front(s)),
        vals_wf(spark_members_front(s)),
        keys_lt(spark_members_front(s), 14),
{
    match s.image_pull_policy {
        Some(v) => {
            lemma_pull_policy_roundtrip(v);
        }
        None => {}
    }
    lemma_driver_canon(&s.driver);
    match &s.executor {
        Some(v) => {
            lemma_executor_canon(v);
        }
        None => {}
    }
    match &s.deps {
        Some(v) => {
            lemma_deps_canon(v);
        }
        None => {}
    }
    let m1 = m_str(SPARK_TAG_SPARK_VERSION, s.spark_version@);
    let m2 = m_opt_str(SPARK_TAG_MODE, ostr(&s.mode));
    let m3 = m_opt_str(SPARK_TAG_PROXY_USER, ostr(&s.proxy_user));
    let m4 = m_opt_str(SPARK_TAG_IMAGE, ostr(&s.image));
    let m5 = m_opt_str(SPARK_TAG_IMAGE_PULL_POLICY, opull(s.image_pull_policy));
    let m6 = m_opt_list(SPARK_TAG_IMAGE_PULL_SECRETS, olist(&s.image_pull_secrets));
    let m7 = m_opt_map(SPARK_TAG_SPARK_CONF, omap(&s.spark_conf));
    let m8 = m_opt_map(SPARK_TAG_HADOOP_CONF, omap(&s.hadoop_conf));
    let m9 = m_opt_str(SPARK_TAG_SPARK_CONFIG_MAP, ostr(&s.spark_config_map));
    let m10 = m_opt_str(SPARK_TAG_HADOOP_CONFIG_MAP, ostr(&s.hadoop_config_map));
    let m11 = m_opt_val(SPARK_TAG_DRIVER, Some(driver_view(&s.driver)));
    let m12 = m_opt_val(SPARK_TAG_EXECUTOR, (match &s.executor { Some(v) => Some(executor_view(v)), None => None }));
    let m13 = m_opt_val(SPARK_TAG_DEPS, (match &s.deps { Some(v) => Some(deps_view(v)), None => None }));
    let l1 = m1;
    let l2 = l1 + m2;
    let l3 = l2 + m3;
    let l4 = l3 + m4;
    let l5 = l4 + m5;
    let l6 = l5 + m6;
    let l7 = l6 + m7;
    let l8 = l7 + m8;
    let l9 = l8 + m9;
    let l10 = l9 + m10;
    let l11 = l10 + m11;
    let l12 = l11 + m12;
    let l13 = l12 + m13;
    assert(Seq::<(nat, TreeView)>::empty() + m1 =~= m1);
    lemma_canon_extend(Seq::empty(), m1, 1, 2);
    lemma_canon_extend(l1, m2, 2, 3);
    lemma_canon_extend(l2, m3, 3, 4);
    lemma_canon_extend(l3, m4, 4, 5);
    lemma_canon_extend(l4, m5, 5, 6);
    lemma_canon_extend(l5, m6, 6, 7);
    lemma_canon_extend(l6, m7, 7, 8);
    lemma_canon_extend(l7, m8, 8, 9);
    lemma_canon_extend(l8, m9, 9, 10);
    lemma_canon_extend(l9, m10, 10, 11);
    lemma_canon_extend(l10, m11, 11, 12);
    lemma_canon_extend(l11, m12, 12, 13);
    lemma_canon_extend(l12, m13, 13, 14);
    assert(spark_members_front(s) == l13);
}

/// The encoding of an embedded Spark specification is canonical up to its first twenty members:
/// tags are unique and ascending, member values well formed.
#[verifier::rlimit(100)]
#[verifier::spinoff_prover]
proof fn lemma_spark_wf_mid(s: &crate::spark_application::SparkSpec)
    ensures
        unique_keys(spark_members_mid(s)),
        vals_wf(spark_members_mid(s)),
        keys_lt(spark_members_mid(s), 21),
{
    lemma_spark_wf_front(s);
    match &s.restart_policy {
        Some(v) => {
            lemma_restart_policy_canon(v);
        }
        None => {}
    }
    match &s.monitoring {
        Some(v) => {
            lemma_monitoring_canon(v);
        }
        None => {}
    }
    let l13 = spark_members_front(s);
    let m14 = m_opt_val(SPARK_TAG_RESTART_POLICY, (match &s.restart_policy { Some(v) => Some(restart_policy_view(v)), None => None }));
    let m15 = m_opt_map(SPARK_TAG_NODE_SELECTOR, omap(&s.node_selector));
    let m16 = m_opt_int(SPARK_TAG_FAILURE_RETRIES, oi32(s.failure_retries));
    let m17 = m_opt_int(SPARK_TAG_RETRY_INTERVAL, oi64(s.retry_interval));
    let m18 = m_opt_str(SPARK_TAG_MEMORY_OVERHEAD_FACTOR, ostr(&s.memory_overhead_factor));
    let m19 = m_opt_val(SPARK_TAG_MONITORING, (match &s.monitoring { Some(v) => Some(monitoring_view(v)), None => None }));
    let m20 = m_opt_str(SPARK_TAG_BATCH_SCHEDULER, ostr(&s.batch_scheduler));
    let l14 = l13 + m14;
    let l15 = l14 + m15;
    let l16 = l15 + m16;
    let l17 = l16 + m17;
    let l18 = l17 + m18;
    let l19 = l18 + m19;
    let l20 = l19 + m20;
    lemma_canon_extend(l13, m14, 14, 15);
    lemma_canon_extend(l14, m15, 15, 16);
    lemma_canon_extend(l15, m16, 16, 17);
    lemma_canon_extend(l16, m17, 17, 18);
    lemma_canon_extend(l17, m18, 18, 19);
    lemma_canon_extend(l18, m19, 19, 20);
    lemma_canon_extend(l19, m20, 20, 21);
    assert(spark_members_mid(s) == l20);
}

/// The encoding of an embedded Spark specification is canonical:
/// tags are unique and ascending, member values well formed.
#[verifier::rlimit(100)]
#[verifier::spinoff_prover]
pub proof fn lemma_spark_wf(s: &crate::spark_application::SparkSpec)
    ensures
        unique_keys(spark_members(s)),
        vals_wf(spark_members(s)),
        keys_lt(spark_members(s), 28),
        wf_view(spark_view(s)),
{
    lemma_spark_wf_mid(s);
    match &s.batch_scheduler_options {
        Some(v) => {
            lemma_batch_conf_canon(v);
        }
        None => {}
    }
    match &s.spark_uioptions {
        Some(v) => {
            lemma_ui_conf_canon(v);
        }
        None => {}
    }
    match &s.dynamic_allocation {
        Some(v) => {
            lemma_dynamic_allocation_canon(v);
        }
        None => {}
    }
    match &s.s3_connection {
        Some(v) => {
            lemma_conn_def_canon(v);
        }
        None => {}
    }
    match &s.catalogs {
        Some(v) => {
            assert forall|i: int| 0 <= i < v@.len() implies catalog_def_shaped(#[trigger] catalog_def_views(v@)[i])
                && catalog_def_decodes(&v@[i], catalog_def_views(v@)[i]) by {
                lemma_catalog_def_canon(&v@[i]);
            }
            assert(catalog_defs_all_shaped(catalog_def_views(v@)));
            assert(catalog_defs_all_decode(v@, catalog_def_views(v@)));
        }
        None => {}
    }
    match &s.env_sets {
        Some(v) => {
            assert forall|i: int| 0 <= i < v@.len() implies env_set_def_shaped(#[trigger] env_set_def_views(v@)[i])
                && env_set_def_decodes(&v@[i], env_set_def_views(v@)[i]) by {
                lemma_env_set_def_canon(&v@[i]);
            }
            assert(env_set_defs_all_shaped(env_set_def_views(v@)));
            assert(env_set_defs_all_decode(v@, env_set_def_views(v@)));
        }
        None => {}
    }
    let l20 = spark_members_mid(s);
    let m21 = m_opt_val(SPARK_TAG_BATCH_SCHEDULER_OPTIONS, (match &s.batch_scheduler_options { Some(v) => Some(batch_conf_view(v)), None => None }));
    let m22 = m_opt_int(SPARK_TAG_TIME_TO_LIVE_SECONDS, oi64(s.time_to_live_seconds));
    let m23 = m_opt_val(SPARK_TAG_SPARK_UIOPTIONS, (match &s.spark_uioptions { Some(v) => Some(ui_conf_view(v)), None => None }));
    let m24 = m_opt_val(SPARK_TAG_DYNAMIC_ALLOCATION, (match &s.dynamic_allocation { Some(v) => Some(dynamic_allocation_view(v)), None => None }));
    let m25 = m_opt_val(SPARK_TAG_S3_CONNECTION, (match &s.s3_connection { Some(v) => Some(conn_def_view(v)), None => None }));
    let m26 = m_opt_val(SPARK_TAG_CATALOGS, (match &s.catalogs { Some(v) => Some(TreeView::Arr(catalog_def_views(v@))), None => None }));
    let m27 = m_opt_val(SPARK_TAG_ENV_SETS, (match &s.env_sets { Some(v) => Some(TreeView::Arr(env_set_def_views(v@))), None => None }));
    let l21 = l20 + m21;
    let l22 = l21 + m22;
    let l23 = l22 + m23;
    let l24 = l23 + m24;
    let l25 = l24 + m25;
    let l26 = l25 + m26;
    let l27 = l26 + m27;
    lemma_canon_extend(l20, m21, 21, 22);
    lemma_canon_extend(l21, m22, 22, 23);
    lemma_canon_extend(l22, m23, 23, 24);
    lemma_canon_extend(l23, m24, 24, 25);
    lemma_canon_extend(l24, m25, 25, 26);
    lemma_canon_extend(l25, m26, 26, 27);
    lemma_canon_extend(l26, m27, 27, 28);
    assert(spark_members(s) == l27);
    assert(wf_view(spark_view(s)));
}

/// Each tag of the encoding among the first members looks up to the encoded field.
#[verifier::rlimit(100)]
#[verifier::spinoff_prover]
proof fn lemma_spark_gets_front(s: &crate::spark_application::SparkSpec)
    ensures
        tree_get(spark_members_front(s), SPARK_TAG_SPARK_VERSION as nat) == slot_of_str(s.spark_version@),
        tree_get(spark_members_front(s), SPARK_TAG_MODE as nat) == slot_of_opt_str(ostr(&s.mode)),
        tree_get(spark_members_front(s), SPARK_TAG_PROXY_USER as nat) == slot_of_opt_str(ostr(&s.proxy_user)),
        tree_get(spark_members_front(s), SPARK_TAG_IMAGE as nat) == slot_of_opt_str(ostr(&s.image)),
        tree_get(spark_members_front(s), SPARK_TAG_IMAGE_PULL_POLICY as nat) == slot_of_opt_str(opull(s.image_pull_policy)),
        tree_get(spark_members_front(s), SPARK_TAG_IMAGE_PULL_SECRETS as nat) == slot_of_opt_list(olist(&s.image_pull_secrets)),
        tree_get(spark_members_front(s), SPARK_TAG_SPARK_CONF as nat) == slot_of_opt_map(omap(&s.spark_conf)),
        tree_get(spark_members_front(s), SPARK_TAG_HADOOP_CONF as nat) == slot_of_opt_map(omap(&s.hadoop_conf)),
        tree_get(spark_members_front(s), SPARK_TAG_SPARK_CONFIG_MAP as nat) == slot_of_opt_str(ostr(&s.spark_config_map)),
        tree_get(spark_members_front(s), SPARK_TAG_HADOOP_CONFIG_MAP as nat) == slot_of_opt_str(ostr(&s.hadoop_config_map)),
        tree_get(spark_members_front(s), SPARK_TAG_DRIVER as nat) == Some(driver_view(&s.driver)),
        tree_get(spark_members_front(s), SPARK_TAG_EXECUTOR as nat) == (match &s.executor { Some(v) => Some(executor_view(v)), None => None }),
        tree_get(spark_members_front(s), SPARK_TAG_DEPS as nat) == (match &s.deps { Some(v) => Some(deps_view(v)), None => None }),
{
    let m1 = m_str(SPARK_TAG_SPARK_VERSION, s.spark_version@);
    let m2 = m_opt_str(SPARK_TAG_MODE, ostr(&s.mode));
    let m3 = m_opt_str(SPARK_TAG_PROXY_USER, ostr(&s.proxy_user));
    let m4 = m_opt_str(SPARK_TAG_IMAGE, ostr(&s.image));
    let m5 = m_opt_str(SPARK_TAG_IMAGE_PULL_POLICY, opull(s.image_pull_policy));
    let m6 = m_opt_list(SPARK_TAG_IMAGE_PULL_SECRETS, olist(&s.image_pull_secrets));
    let m7 = m_opt_map(SPARK_TAG_SPARK_CONF, omap(&s.spark_conf));
    let m8 = m_opt_map(SPARK_TAG_HADOOP_CONF, omap(&s.hadoop_conf));
    let m9 = m_opt_str(SPARK_TAG_SPARK_CONFIG_MAP, ostr(&s.spark_config_map));
    let m10 = m_opt_str(SPARK_TAG_HADOOP_CONFIG_MAP, ostr(&s.hadoop_config_map));
    let m11 = m_opt_val(SPARK_TAG_DRIVER, Some(driver_view(&s.driver)));
    let m12 = m_opt_val(SPARK_TAG_EXECUTOR, (match &s.executor { Some(v) => Some(executor_view(v)), None => None }));
    let m13 = m_opt_val(SPARK_TAG_DEPS, (match &s.deps { Some(v) => Some(deps_view(v)), None => None }));
    let l1 = m1;
    let l2 = l1 + m2;
    let l3 = l2 + m3;
    let l4 = l3 + m4;
    let l5 = l4 + m5;
    let l6 = l5 + m6;
    let l7 = l6 + m7;
    let l8 = l7 + m8;
    let l9 = l8 + m9;
    let l10 = l9 + m10;
    let l11 = l10 + m11;
    let l12 = l11 + m12;
    let l13 = l12 + m13;
    lemma_tree_get_opt_val(SPARK_TAG_SPARK_VERSION, slot_of_str(s.spark_version@));
    lemma_tree_get_opt_val(SPARK_TAG_MODE, slot_of_opt_str(ostr(&s.mode)));
    lemma_tree_get_opt_val(SPARK_TAG_PROXY_USER, slot_of_opt_str(ostr(&s.proxy_user)));
    lemma_tree_get_opt_val(SPARK_TAG_IMAGE, slot_of_opt_str(ostr(&s.image)));
    lemma_tree_get_opt_val(SPARK_TAG_IMAGE_PULL_POLICY, slot_of_opt_str(opull(s.image_pull_policy)));
    lemma_tree_get_opt_val(SPARK_TAG_IMAGE_PULL_SECRETS, slot_of_opt_list(olist(&s.image_pull_secrets)));
    lemma_tree_get_opt_val(SPARK_TAG_SPARK_CONF, slot_of_opt_map(omap(&s.spark_conf)));
    lemma_tree_get_opt_val(SPARK_TAG_HADOOP_CONF, slot_of_opt_map(omap(&s.hadoop_conf)));
    lemma_tree_get_opt_val(SPARK_TAG_SPARK_CONFIG_MAP, slot_of_opt_str(ostr(&s.spark_config_map)));
    lemma_tree_get_opt_val(SPARK_TAG_HADOOP_CONFIG_MAP, slot_of_opt_str(ostr(&s.hadoop_config_map)));
    lemma_tree_get_opt_val(SPARK_TAG_DRIVER, Some(driver_view(&s.driver)));
    lemma_tree_get_opt_val(SPARK_TAG_EXECUTOR, (match &s.executor { Some(v) => Some(executor_view(v)), None => None }));
    lemma_tree_get_opt_val(SPARK_TAG_DEPS, (match &s.deps { Some(v) => Some(deps_view(v)), None => None }));
    lemma_tree_get_concat(l1, m2);
    lemma_tree_get_concat(l2, m3);
    lemma_tree_get_concat(l3, m4);
    lemma_tree_get_concat(l4, m5);
    lemma_tree_get_concat(l5, m6);
    lemma_tree_get_concat(l6, m7);
    lemma_tree_get_concat(l7, m8);
    lemma_tree_get_concat(l8, m9);
    lemma_tree_get_concat(l9, m10);
    lemma_tree_get_concat(l10, m11);
    lemma_tree_get_concat(l11, m12);
    lemma_tree_get_concat(l12, m13);
    assert(spark_members_front(s) == l13);
}

/// Each tag of the encoding among the first twenty members looks up to the encoded field.
#[verifier::rlimit(100)]
#[verifier::spinoff_prover]
proof fn lemma_spark_gets_mid(s: &crate::spark_application::SparkSpec)
    ensures
        tree_get(spark_members_mid(s), SPARK_TAG_SPARK_VERSION as nat) == slot_of_str(s.spark_version@),
        tree_get(spark_members_mid(s), SPARK_TAG_MODE as nat) == slot_of_opt_str(ostr(&s.mode)),
        tree_get(spark_members_mid(s), SPARK_TAG_PROXY_USER as nat) == slot_of_opt_str(ostr(&s.proxy_user)),
        tree_get(spark_members_mid(s), SPARK_TAG_IMAGE as nat) == slot_of_opt_str(ostr(&s.image)),
        tree_get(spark_members_mid(s), SPARK_TAG_IMAGE_PULL_POLICY as nat) == slot_of_opt_str(opull(s.image_pull_policy)),
        tree_get(spark_members_mid(s), SPARK_TAG_IMAGE_PULL_SECRETS as nat) == slot_of_opt_list(olist(&s.image_pull_secrets)),
        tree_get(spark_members_mid(s), SPARK_TAG_SPARK_CONF as nat) == slot_of_opt_map(omap(&s.spark_conf)),
        tree_get(spark_members_mid(s), SPARK_TAG_HADOOP_CONF as nat) == slot_of_opt_map(omap(&s.hadoop_conf)),
        tree_get(spark_members_mid(s), SPARK_TAG_SPARK_CONFIG_MAP as nat) == slot_of_opt_str(ostr(&s.spark_config_map)),
        tree_get(spark_members_mid(s), SPARK_TAG_HADOOP_CONFIG_MAP as nat) == slot_of_opt_str(ostr(&s.hadoop_config_map)),
        tree_get(spark_members_mid(s), SPARK_TAG_DRIVER as nat) == Some(driver_view(&s.driver)),
        tree_get(spark_members_mid(s), SPARK_TAG_EXECUTOR as nat) == (match &s.executor { Some(v) => Some(executor_view(v)), None => None }),
        tree_get(spark_members_mid(s), SPARK_TAG_DEPS as nat) == (match &s.deps { Some(v) => Some(deps_view(v)), None => None }),
        tree_get(spark_members_mid(s), SPARK_TAG_RESTART_POLICY as nat) == (match &s.restart_policy { Some(v) => Some(restart_policy_view(v)), None => None }),
        tree_get(spark_members_mid(s), SPARK_TAG_NODE_SELECTOR as nat) == slot_of_opt_map(omap(&s.node_selector)),
        tree_get(spark_members_mid(s), SPARK_TAG_FAILURE_RETRIES as nat) == slot_of_opt_int(oi32(s.failure_retries)),
        tree_get(spark_members_mid(s), SPARK_TAG_RETRY_INTERVAL as nat) == slot_of_opt_int(oi64(s.retry_interval)),
        tree_get(spark_members_mid(s), SPARK_TAG_MEMORY_OVERHEAD_FACTOR as nat) == slot_of_opt_str(ostr(&s.memory_overhead_factor)),
        tree_get(spark_members_mid(s), SPARK_TAG_MONITORING as nat) == (match &s.monitoring { Some(v) => Some(monitoring_view(v)), None => None }),
        tree_get(spark_members_mid(s), SPARK_TAG_BATCH_SCHEDULER as nat) == slot_of_opt_str(ostr(&s.batch_scheduler)),
{
    lemma_spark_wf_front(s);
    lemma_tree_get_none_high(spark_members_front(s), 14);
    lemma_spark_gets_front(s);
    let l13 = spark_members_front(s);
    let m14 = m_opt_val(SPARK_TAG_RESTART_POLICY, (match &s.restart_policy { Some(v) => Some(restart_policy_view(v)), None => None }));
    let m15 = m_opt_map(SPARK_TAG_NODE_SELECTOR, omap(&s.node_selector));
    let m16 = m_opt_int(SPARK_TAG_FAILURE_RETRIES, oi32(s.failure_retries));
    let m17 = m_opt_int(SPARK_TAG_RETRY_INTERVAL, oi64(s.retry_interval));
    let m18 = m_opt_str(SPARK_TAG_MEMORY_OVERHEAD_FACTOR, ostr(&s.memory_overhead_factor));
    let m19 = m_opt_val(SPARK_TAG_MONITORING, (match &s.monitoring { Some(v) => Some(monitoring_view(v)), None => None }));
    let m20 = m_opt_str(SPARK_TAG_BATCH_SCHEDULER, ostr(&s.batch_scheduler));
    let l14 = l13 + m14;
    let l15 = l14 + m15;
    let l16 = l15 + m16;
    let l17 = l16 + m17;
    let l18 = l17 + m18;
    let l19 = l18 + m19;
    let l20 = l19 + m20;
    lemma_tree_get_opt_val(SPARK_TAG_RESTART_POLICY, (match &s.restart_policy { Some(v) => Some(restart_policy_view(v)), None => None }));
    lemma_tree_get_opt_val(SPARK_TAG_NODE_SELECTOR, slot_of_opt_map(omap(&s.node_selector)));
    lemma_tree_get_opt_val(SPARK_TAG_FAILURE_RETRIES, slot_of_opt_int(oi32(s.failure_retries)));
    lemma_tree_get_opt_val(SPARK_TAG_RETRY_INTERVAL, slot_of_opt_int(oi64(s.retry_interval)));
    lemma_tree_get_opt_val(SPARK_TAG_MEMORY_OVERHEAD_FACTOR, slot_of_opt_str(ostr(&s.memory_overhead_factor)));
    lemma_tree_get_opt_val(SPARK_TAG_MONITORING, (match &s.monitoring { Some(v) => Some(monitoring_view(v)), None => None }));
    lemma_tree_get_opt_val(SPARK_TAG_BATCH_SCHEDULER, slot_of_opt_str(ostr(&s.batch_scheduler)));
    lemma_tree_get_concat(l13, m14);
    lemma_tree_get_concat(l14, m15);
    lemma_tree_get_concat(l15, m16);
    lemma_tree_get_concat(l16, m17);
    lemma_tree_get_concat(l17, m18);
    lemma_tree_get_concat(l18, m19);
    lemma_tree_get_concat(l19, m20);
    assert(tree_get(l20, SPARK_TAG_SPARK_VERSION as nat) == slot_of_str(s.spark_version@));
    assert(tree_get(l20, SPARK_TAG_MODE as nat) == slot_of_opt_str(ostr(&s.mode)));
    assert(tree_get(l20, SPARK_TAG_PROXY_USER as nat) == slot_of_opt_str(ostr(&s.proxy_user)));
    assert(tree_get(l20, SPARK_TAG_IMAGE as nat) == slot_of_opt_str(ostr(&s.image)));
    assert(tree_get(l20, SPARK_TAG_IMAGE_PULL_POLICY as nat) == slot_of_opt_str(opull(s.image_pull_policy)));
    assert(tree_get(l20, SPARK_TAG_IMAGE_PULL_SECRETS as nat) == slot_of_opt_list(olist(&s.image_pull_secrets)));
    assert(tree_get(l20, SPARK_TAG_SPARK_CONF as nat) == slot_of_opt_map(omap(&s.spark_conf)));
    assert(tree_get(l20, SPARK_TAG_HADOOP_CONF as nat) == slot_of_opt_map(omap(&s.hadoop_conf)));
    assert(tree_get(l20, SPARK_TAG_SPARK_CONFIG_MAP as nat) == slot_of_opt_str(ostr(&s.spark_config_map)));
    assert(tree_get(l20, SPARK_TAG_HADOOP_CONFIG_MAP as nat) == slot_of_opt_str(ostr(&s.hadoop_config_map)));
    assert(tree_get(l20, SPARK_TAG_DRIVER as nat) == Some(driver_view(&s.driver)));
    assert(tree_get(l20, SPARK_TAG_EXECUTOR as nat) == (match &s.executor { Some(v) => Some(executor_view(v)), None => None }));
    assert(tree_get(l20, SPARK_TAG_DEPS as nat) == (match &s.deps { Some(v) => Some(deps_view(v)), None => None }));
    assert(tree_get(l20, SPARK_TAG_RESTART_POLICY as nat) == (match &s.restart_policy { Some(v) => Some(restart_policy_view(v)), None => None }));
    assert(tree_get(l20, SPARK_TAG_NODE_SELECTOR as nat) == slot_of_opt_map(omap(&s.node_selector)));
    assert(tree_get(l20, SPARK_TAG_FAILURE_RETRIES as nat) == slot_of_opt_int(oi32(s.failure_retries)));
    assert(tree_get(l20, SPARK_TAG_RETRY_INTERVAL as nat) == slot_of_opt_int(oi64(s.retry_interval)));
    assert(tree_get(l20, SPARK_TAG_MEMORY_OVERHEAD_FACTOR as nat) == slot_of_opt_str(ostr(&s.memory_overhead_factor)));
    assert(tree_get(l20, SPARK_TAG_MONITORING as nat) == (match &s.monitoring { Some(v) => Some(monitoring_view(v)), None => None }));
    assert(tree_get(l20, SPARK_TAG_BATCH_SCHEDULER as nat) == slot_of_opt_str(ostr(&s.batch_scheduler)));
    assert(spark_members_mid(s) == l20);
}

/// Each tag of the encoding looks up to the encoded field.
#[verifier::rlimit(100)]
#[verifier::spinoff_prover]
pub proof fn lemma_spark_gets(s: &crate::spark_application::SparkSpec)
    ensures
        tree_get(spark_members(s), SPARK_TAG_SPARK_VERSION as nat) == slot_of_str(s.spark_version@),
        tree_get(spark_members(s), SPARK_TAG_MODE as nat) == slot_of_opt_str(ostr(&s.mode)),
        tree_get(spark_members(s), SPARK_TAG_PROXY_USER as nat) == slot_of_opt_str(ostr(&s.proxy_user)),
        tree_get(spark_members(s), SPARK_TAG_IMAGE as nat) == slot_of_opt_str(ostr(&s.image)),
        tree_get(spark_members(s), SPARK_TAG_IMAGE_PULL_POLICY as nat) == slot_of_opt_str(opull(s.image_pull_policy)),
        tree_get(spark_members(s), SPARK_TAG_IMAGE_PULL_SECRETS as nat) == slot_of_opt_list(olist(&s.image_pull_secrets)),
        tree_get(spark_members(s), SPARK_TAG_SPARK_CONF as nat) == slot_of_opt_map(omap(&s.spark_conf)),
        tree_get(spark_members(s), SPARK_TAG_HADOOP_CONF as nat) == slot_of_opt_map(omap(&s.hadoop_conf)),
        tree_get(spark_members(s), SPARK_TAG_SPARK_CONFIG_MAP as nat) == slot_of_opt_str(ostr(&s.spark_config_map)),
        tree_get(spark_members(s), SPARK_TAG_HADOOP_CONFIG_MAP as nat) == slot_of_opt_str(ostr(&s.hadoop_config_map)),
        tree_get(spark_members(s), SPARK_TAG_DRIVER as nat) == Some(driver_view(&s.driver)),
        tree_get(spark_members(s), SPARK_TAG_EXECUTOR as nat) == (match &s.executor { Some(v) => Some(executor_view(v)), None => None }),
        tree_get(spark_members(s), SPARK_TAG_DEPS as nat) == (match &s.deps { Some(v) => Some(deps_view(v)), None => None }),
        tree_get(spark_members(s), SPARK_TAG_RESTART_POLICY as nat) == (match &s.restart_policy { Some(v) => Some(restart_policy_view(v)), None => None }),
        tree_get(spark_members(s), SPARK_TAG_NODE_SELECTOR as nat) == slot_of_opt_map(omap(&s.node_selector)),
        tree_get(spark_members(s), SPARK_TAG_FAILURE_RETRIES as nat) == slot_of_opt_int(oi32(s.failure_retries)),
        tree_get(spark_members(s), SPARK_TAG_RETRY_INTERVAL as nat) == slot_of_opt_int(oi64(s.retry_interval)),
        tree_get(spark_members(s), SPARK_TAG_MEMORY_OVERHEAD_FACTOR as nat) == slot_of_opt_str(ostr(&s.memory_overhead_factor)),
        tree_get(spark_members(s), SPARK_TAG_MONITORING as nat) == (match &s.monitoring { Some(v) => Some(monitoring_view(v)), None => None }),
        tree_get(spark_members(s), SPARK_TAG_BATCH_SCHEDULER as nat) == slot_of_opt_str(ostr(&s.batch_scheduler)),
        tree_get(spark_members(s), SPARK_TAG_BATCH_SCHEDULER_OPTIONS as nat) == (match &s.batch_scheduler_options { Some(v) => Some(batch_conf_view(v)), None => None }),
        tree_get(spark_members(s), SPARK_TAG_TIME_TO_LIVE_SECONDS as nat) == slot_of_opt_int(oi64(s.time_to_live_seconds)),
        tree_get(spark_members(s), SPARK_TAG_SPARK_UIOPTIONS as nat) == (match &s.spark_uioptions { Some(v) => Some(ui_conf_view(v)), None => None }),
        tree_get(spark_members(s), SPARK_TAG_DYNAMIC_ALLOCATION as nat) == (match &s.dynamic_allocation { Some(v) => Some(dynamic_allocation_view(v)), None => None }),
        tree_get(spark_members(s), SPARK_TAG_S3_CONNECTION as nat) == (match &s.s3_connection { Some(v) => Some(conn_def_view(v)), None => None }),
        tree_get(spark_members(s), SPARK_TAG_CATALOGS as nat) == (match &s.catalogs { Some(v) => Some(TreeView::Arr(catalog_def_views(v@))), None => None }),
        tree_get(spark_members(s), SPARK_TAG_ENV_SETS as nat) == (match &s.env_sets { Some(v) => Some(TreeView::Arr(env_set_def_views(v@))), None => None }),
{
    lemma_spark_wf_mid(s);
    lemma_tree_get_none_high(spark_members_mid(s), 21);
    lemma_spark_gets_mid(s);
    let l20 = spark_members_mid(s);
    let m21 = m_opt_val(SPARK_TAG_BATCH_SCHEDULER_OPTIONS, (match &s.batch_scheduler_options { Some(v) => Some(batch_conf_view(v)), None => None }));
    let m22 = m_opt_int(SPARK_TAG_TIME_TO_LIVE_SECONDS, oi64(s.time_to_live_seconds));
    let m23 = m_opt_val(SPARK_TAG_SPARK_UIOPTIONS, (match &s.spark_uioptions { Some(v) => Some(ui_conf_view(v)), None => None }));
    let m24 = m_opt_val(SPARK_TAG_DYNAMIC_ALLOCATION, (match &s.dynamic_allocation { Some(v) => Some(dynamic_allocation_view(v)), None => None }));
    let m25 = m_opt_val(SPARK_TAG_S3_CONNECTION, (match &s.s3_connection { Some(v) => Some(conn_def_view(v)), None => None }));
    let m26 = m_opt_val(SPARK_TAG_CATALOGS, (match &s.catalogs { Some(v) => Some(TreeView::Arr(catalog_def_views(v@))), None => None }));
    let m27 = m_opt_val(SPARK_TAG_ENV_SETS, (match &s.env_sets { Some(v) => Some(TreeView::Arr(env_set_def_views(v@))), None => None }));
    let l21 = l20 + m21;
    let l22 = l21 + m22;
    let l23 = l22 + m23;
    let l24 = l23 + m24;
    let l25 = l24 + m25;
    let l26 = l25 + m26;
    let l27 = l26 + m27;
    lemma_tree_get_opt_val(SPARK_TAG_BATCH_SCHEDULER_OPTIONS, (match &s.batch_scheduler_options { Some(v) => Some(batch_conf_view(v)), None => None }));
    lemma_tree_get_opt_val(SPARK_TAG_TIME_TO_LIVE_SECONDS, slot_of_opt_int(oi64(s.time_to_live_seconds)));
    lemma_tree_get_opt_val(SPARK_TAG_SPARK_UIOPTIONS, (match &s.spark_uioptions { Some(v) => Some(ui_conf_view(v)), None => None }));
    lemma_tree_get_opt_val(SPARK_TAG_DYNAMIC_ALLOCATION, (match &s.dynamic_allocation { Some(v) => Some(dynamic_allocation_view(v)), None => None }));
    lemma_tree_get_opt_val(SPARK_TAG_S3_CONNECTION, (match &s.s3_connection { Some(v) => Some(conn_def_view(v)), None => None }));
    lemma_tree_get_opt_val(SPARK_TAG_CATALOGS, (match &s.catalogs { Some(v) => Some(TreeView::Arr(catalog_def_views(v@))), None => None }));
    lemma_tree_get_opt_val(SPARK_TAG_ENV_SETS, (match &s.env_sets { Some(v) => Some(TreeView::Arr(env_set_def_views(v@))), None => None }));
    lemma_tree_get_concat(l20, m21);
    lemma_tree_get_concat(l21, m22);
    lemma_tree_get_concat(l22, m23);
    lemma_tree_get_concat(l23, m24);
    lemma_tree_get_concat(l24, m25);
    lemma_tree_get_concat(l25, m26);
    lemma_tree_get_concat(l26, m27);
    assert(tree_get(l27, SPARK_TAG_SPARK_VERSION as nat) == slot_of_str(s.spark_version@));
    assert(tree_get(l27, SPARK_TAG_MODE as nat) == slot_of_opt_str(ostr(&s.mode)));
    assert(tree_get(l27, SPARK_TAG_PROXY_USER as nat) == slot_of_opt_str(ostr(&s.proxy_user)));
    assert(tree_get(l27, SPARK_TAG_IMAGE as nat) == slot_of_opt_str(ostr(&s.image)));
    assert(tree_get(l27, SPARK_TAG_IMAGE_PULL_POLICY as nat) == slot_of_opt_str(opull(s.image_pull_policy)));
    assert(tree_get(l27, SPARK_TAG_IMAGE_PULL_SECRETS as nat) == slot_of_opt_list(olist(&s.image_pull_secrets)));
    assert(tree_get(l27, SPARK_TAG_SPARK_CONF as nat) == slot_of_opt_map(omap(&s.spark_conf)));
    assert(tree_get(l27, SPARK_TAG_HADOOP_CONF as nat) == slot_of_opt_map(omap(&s.hadoop_conf)));
    assert(tree_get(l27, SPARK_TAG_SPARK_CONFIG_MAP as nat) == slot_of_opt_str(ostr(&s.spark_config_map)));
    assert(tree_get(l27, SPARK_TAG_HADOOP_CONFIG_MAP as nat) == slot_of_opt_str(ostr(&s.hadoop_config_map)));
    assert(tree_get(l27, SPARK_TAG_DRIVER as nat) == Some(driver_view(&s.driver)));
    assert(tree_get(l27, SPARK_TAG_EXECUTOR as nat) == (match &s.executor { Some(v) => Some(executor_view(v)), None => None }));
    assert(tree_get(l27, SPARK_TAG_DEPS as nat) == (match &s.deps { Some(v) => Some(deps_view(v)), None => None }));
    assert(tree_get(l27, SPARK_TAG_RESTART_POLICY as nat) == (match &s.restart_policy { Some(v) => Some(restart_policy_view(v)), None => None }));
    assert(tree_get(l27, SPARK_TAG_NODE_SELECTOR as nat) == slot_of_opt_map(omap(&s.node_selector)));
    assert(tree_get(l27, SPARK_TAG_FAILURE_RETRIES as nat) == slot_of_opt_int(oi32(s.failure_retries)));
    assert(tree_get(l27, SPARK_TAG_RETRY_INTERVAL as nat) == slot_of_opt_int(oi64(s.retry_interval)));
    assert(tree_get(l27, SPARK_TAG_MEMORY_OVERHEAD_FACTOR as nat) == slot_of_opt_str(ostr(&s.memory_overhead_factor)));
    assert(tree_get(l27, SPARK_TAG_MONITORING as nat) == (match &s.monitoring { Some(v) => Some(monitoring_view(v)), None => None }));
    assert(tree_get(l27, SPARK_TAG_BATCH_SCHEDULER as nat) == slot_of_opt_str(ostr(&s.batch_scheduler)));
    assert(tree_get(l27, SPARK_TAG_BATCH_SCHEDULER_OPTIONS as nat) == (match &s.batch_scheduler_options { Some(v) => Some(batch_conf_view(v)), None => None }));
    assert(tree_get(l27, SPARK_TAG_TIME_TO_LIVE_SECONDS as nat) == slot_of_opt_int(oi64(s.time_to_live_seconds)));
    assert(tree_get(l27, SPARK_TAG_SPARK_UIOPTIONS as nat) == (match &s.spark_uioptions { Some(v) => Some(ui_conf_view(v)), None => None }));
    assert(tree_get(l27, SPARK_TAG_DYNAMIC_ALLOCATION as nat) == (match &s.dynamic_allocation { Some(v) => Some(dynamic_allocation_view(v)), None => None }));
    assert(tree_get(l27, SPARK_TAG_S3_CONNECTION as nat) == (match &s.s3_connection { Some(v) => Some(conn_def_view(v)), None => None }));
    assert(tree_get(l27, SPARK_TAG_CATALOGS as nat) == (match &s.catalogs { Some(v) => Some(TreeView::Arr(catalog_def_views(v@))), None => None }));
    assert(tree_get(l27, SPARK_TAG_ENV_SETS as nat) == (match &s.env_sets { Some(v) => Some(TreeView::Arr(env_set_def_views(v@))), None => None }));
    assert(spark_members(s) == l27);
}

/// The encoding of an embedded Spark specification is canonical, correctly
/// shaped, decodes to the value itself, and each tag looks up to the
/// encoded field.
#[verifier::rlimit(100)]
#[verifier::spinoff_prover]
pub proof fn lemma_spark_canon(s: &crate::spark_application::SparkSpec)
    ensures
        unique_keys(spark_members(s)),
        vals_wf(spark_members(s)),
        keys_lt(spark_members(s), 28),
        wf_view(spark_view(s)),
        spark_shaped(spark_view(s)),
        spark_decodes(s, spark_view(s)),
        tree_get(spark_members(s), SPARK_TAG_SPARK_VERSION as nat) == slot_of_str(s.spark_version@),
        tree_get(spark_members(s), SPARK_TAG_MODE as nat) == slot_of_opt_str(ostr(&s.mode)),
        tree_get(spark_members(s), SPARK_TAG_PROXY_USER as nat) == slot_of_opt_str(ostr(&s.proxy_user)),
        tree_get(spark_members(s), SPARK_TAG_IMAGE as nat) == slot_of_opt_str(ostr(&s.image)),
        tree_get(spark_members(s), SPARK_TAG_IMAGE_PULL_POLICY as nat) == slot_of_opt_str(opull(s.image_pull_policy)),
        tree_get(spark_members(s), SPARK_TAG_IMAGE_PULL_SECRETS as nat) == slot_of_opt_list(olist(&s.image_pull_secrets)),
        tree_get(spark_members(s), SPARK_TAG_SPARK_CONF as nat) == slot_of_opt_map(omap(&s.spark_conf)),
        tree_get(spark_members(s), SPARK_TAG_HADOOP_CONF as nat) == slot_of_opt_map(omap(&s.hadoop_conf)),
        tree_get(spark_members(s), SPARK_TAG_SPARK_CONFIG_MAP as nat) == slot_of_opt_str(ostr(&s.spark_config_map)),
        tree_get(spark_members(s), SPARK_TAG_HADOOP_CONFIG_MAP as nat) == slot_of_opt_str(ostr(&s.hadoop_config_map)),
        tree_get(spark_members(s), SPARK_TAG_DRIVER as nat) == Some(driver_view(&s.driver)),
        tree_get(spark_members(s), SPARK_TAG_EXECUTOR as nat) == (match &s.executor { Some(v) => Some(executor_view(v)), None => None }),
        tree_get(spark_members(s), SPARK_TAG_DEPS as nat) == (match &s.deps { Some(v) => Some(deps_view(v)), None => None }),
        tree_get(spark_members(s), SPARK_TAG_RESTART_POLICY as nat) == (match &s.restart_policy { Some(v) => Some(restart_policy_view(v)), None => None }),
        tree_get(spark_members(s), SPARK_TAG_NODE_SELECTOR as nat) == slot_of_opt_map(omap(&s.node_selector)),
        tree_get(spark_members(s), SPARK_TAG_FAILURE_RETRIES as nat) == slot_of_opt_int(oi32(s.failure_retries)),
        tree_get(spark_members(s), SPARK_TAG_RETRY_INTERVAL as nat) == slot_of_opt_int(oi64(s.retry_interval)),
        tree_get(spark_members(s), SPARK_TAG_MEMORY_OVERHEAD_FACTOR as nat) == slot_of_opt_str(ostr(&s.memory_overhead_factor)),
        tree_get(spark_members(s), SPARK_TAG_MONITORING as nat) == (match &s.monitoring { Some(v) => Some(monitoring_view(v)), None => None }),
        tree_get(spark_members(s), SPARK_TAG_BATCH_SCHEDULER as nat) == slot_of_opt_str(ostr(&s.batch_scheduler)),
        tree_get(spark_members(s), SPARK_TAG_BATCH_SCHEDULER_OPTIONS as nat) == (match &s.batch_scheduler_options { Some(v) => Some(batch_conf_view(v)), None => None }),
        tree_get(spark_members(s), SPARK_TAG_TIME_TO_LIVE_SECONDS as nat) == slot_of_opt_int(oi64(s.time_to_live_seconds)),
        tree_get(spark_members(s), SPARK_TAG_SPARK_UIOPTIONS as nat) == (match &s.spark_uioptions { Some(v) => Some(ui_conf_view(v)), None => None }),
        tree_get(spark_members(s), SPARK_TAG_DYNAMIC_ALLOCATION as nat) == (match &s.dynamic_allocation { Some(v) => Some(dynamic_allocation_view(v)), None => None }),
        tree_get(spark_members(s), SPARK_TAG_S3_CONNECTION as nat) == (match &s.s3_connection { Some(v) => Some(conn_def_view(v)), None => None }),
        tree_get(spark_members(s), SPARK_TAG_CATALOGS as nat) == (match &s.catalogs { Some(v) => Some(TreeView::Arr(catalog_def_views(v@))), None => None }),
        tree_get(spark_members(s), SPARK_TAG_ENV_SETS as nat) == (match &s.env_sets { Some(v) => Some(TreeView::Arr(env_set_def_views(v@))), None => None }),
{
    lemma_spark_wf(s);
    lemma_spark_gets(s);
    match s.image_pull_policy {
        Some(v) => {
            lemma_pull_policy_roundtrip(v);
        }
        None => {}
    }
    lemma_driver_canon(&s.driver);
    match &s.executor {
        Some(v) => {
            lemma_executor_canon(v);
        }
        None => {}
    }
    match &s.deps {
        Some(v) => {
            lemma_deps_canon(v);
        }
        None => {}
    }
    match &s.restart_policy {
        Some(v) => {
            lemma_restart_policy_canon(v);
        }
        None => {}
    }
    match &s.monitoring {
        Some(v) => {
            lemma_monitoring_canon(v);
        }
        None => {}
    }
    match &s.batch_scheduler_options {
        Some(v) => {
            lemma_batch_conf_canon(v);
        }
        None => {}
    }
    match &s.spark_uioptions {
        Some(v) => {
            lemma_ui_conf_canon(v);
        }
        None => {}
    }
    match &s.dynamic_allocation {
        Some(v) => {
            lemma_dynamic_allocation_canon(v);
        }
        None => {}
    }
    match &s.s3_connection {
        Some(v) => {
            lemma_conn_def_canon(v);
        }
        None => {}
    }
    match &s.catalogs {
        Some(v) => {
            assert forall|i: int| 0 <= i < v@.len() implies catalog_def_shaped(#[trigger] catalog_def_views(v@)[i])
                && catalog_def_decodes(&v@[i], catalog_def_views(v@)[i]) by {
                lemma_catalog_def_canon(&v@[i]);
            }
            assert(catalog_defs_all_shaped(catalog_def_views(v@)));
            assert(catalog_defs_all_decode(v@, catalog_def_views(v@)));
        }
        None => {}
    }
    match &s.env_sets {
        Some(v) => {
            assert forall|i: int| 0 <= i < v@.len() implies env_set_def_shaped(#[trigger] env_set_def_views(v@)[i])
                && env_set_def_decodes(&v@[i], env_set_def_views(v@)[i]) by {
                lemma_env_set_def_canon(&v@[i]);
            }
            assert(env_set_defs_all_shaped(env_set_def_views(v@)));
            assert(env_set_defs_all_decode(v@, env_set_def_views(v@)));
        }
        None => {}
    }
}

/// Decoding the encoding of an embedded Spark specification gives the
/// value back.
#[verifier::rlimit(100)]
#[verifier::spinoff_prover]
pub proof fn lemma_spark_roundtrip(x: &crate::spark_application::SparkSpec, s: &crate::spark_application::SparkSpec)
    requires
        spark_decodes(x, spark_view(s)),
    ensures
        x.same_as(s),
{
    lemma_spark_canon(s);
    match s.image_pull_policy {
        Some(v) => {
            lemma_pull_policy_roundtrip(v);
        }
        None => {}
    }
    lemma_driver_roundtrip(&x.driver, &s.driver);
    match (&x.executor, &s.executor) {
        (Some(a), Some(b)) => {
            lemma_executor_roundtrip(a, b);
        }
        _ => {}
    }
    match (&x.deps, &s.deps) {
        (Some(a), Some(b)) => {
            lemma_deps_roundtrip(a, b);
        }
        _ => {}
    }
    match (&x.restart_policy, &s.restart_policy) {
        (Some(a), Some(b)) => {
            lemma_restart_policy_roundtrip(a, b);
        }
        _ => {}
    }
    match (&x.monitoring, &s.monitoring) {
        (Some(a), Some(b)) => {
            lemma_monitoring_roundtrip(a, b);
        }
        _ => {}
    }
    match (&x.batch_scheduler_options, &s.batch_scheduler_options) {
        (Some(a), Some(b)) => {
            lemma_batch_conf_roundtrip(a, b);
        }
        _ => {}
    }
    match (&x.spark_uioptions, &s.spark_uioptions) {
        (Some(a), Some(b)) => {
            lemma_ui_conf_roundtrip(a, b);
        }
        _ => {}
    }
    match (&x.dynamic_allocation, &s.dynamic_allocation) {
        (Some(a), Some(b)) => {
            lemma_dynamic_allocation_roundtrip(a, b);
        }
        _ => {}
    }
    match (&x.s3_connection, &s.s3_connection) {
        (Some(a), Some(b)) => {
            lemma_conn_def_roundtrip(a, b);
        }
        _ => {}
    }
    match (&x.catalogs, &s.catalogs) {
        (Some(a), Some(b)) => {
            assert forall|i: int| 0 <= i < a@.len() implies catalog_def_same(&a@[i], &b@[i]) by {
                assert(catalog_def_views(b@)[i] == catalog_def_view(&b@[i]));
                lemma_catalog_def_roundtrip(&a@[i], &b@[i]);
            }
        }
        _ => {}
    }
    match (&x.env_sets, &s.env_sets) {
        (Some(a), Some(b)) => {
            assert forall|i: int| 0 <= i < a@.len() implies env_set_def_same(&a@[i], &b@[i]) by {
                assert(env_set_def_views(b@)[i] == env_set_def_view(&b@[i]));
                lemma_env_set_def_roundtrip(&a@[i], &b@[i]);
            }
        }
        _ => {}
    }
}

/// Equal specifications encode to equal member lists.
#[verifier::rlimit(100)]
#[verifier::spinoff_prover]
pub proof fn lemma_spark_congruent(a: &crate::spark_application::SparkSpec, b: &crate::spark_application::SparkSpec)
    requires
        a.same_as(b),
    ensures
        spark_members(a) == spark_members(b),
{
    lemma_driver_congruent(&a.driver, &b.driver);
    match (&a.executor, &b.executor) {
        (Some(x), Some(y)) => {
            lemma_executor_congruent(x, y);
        }
        _ => {}
    }
    match (&a.deps, &b.deps) {
        (Some(x), Some(y)) => {
            lemma_deps_congruent(x, y);
        }
        _ => {}
    }
    match (&a.restart_policy, &b.restart_policy) {
        (Some(x), Some(y)) => {
            lemma_restart_policy_congruent(x, y);
        }
        _ => {}
    }
    match (&a.monitoring, &b.monitoring) {
        (Some(x), Some(y)) => {
            lemma_monitoring_congruent(x, y);
        }
        _ => {}
    }
    match (&a.batch_scheduler_options, &b.batch_scheduler_options) {
        (Some(x), Some(y)) => {
            lemma_batch_conf_congruent(x, y);
        }
        _ => {}
    }
    match (&a.spark_uioptions, &b.spark_uioptions) {
        (Some(x), Some(y)) => {
            lemma_ui_conf_congruent(x, y);
        }
        _ => {}
    }
    match (&a.dynamic_allocation, &b.dynamic_allocation) {
        (Some(x), Some(y)) => {
            lemma_dynamic_allocation_congruent(x, y);
        }
        _ => {}
    }
    match (&a.s3_connection, &b.s3_connection) {
        (Some(x), Some(y)) => {
            lemma_conn_def_congruent(x, y);
        }
        _ => {}
    }
    match (&a.catalogs, &b.catalogs) {
        (Some(x), Some(y)) => {
            assert forall|i: int| 0 <= i < x@.len() implies #[trigger] catalog_def_views(x@)[i]
                == catalog_def_views(y@)[i] by {
                lemma_catalog_def_congruent(&x@[i], &y@[i]);
            }
            assert(catalog_def_views(x@) =~= catalog_def_views(y@));
        }
        _ => {}
    }
    match (&a.env_sets, &b.env_sets) {
        (Some(x), Some(y)) => {
            assert forall|i: int| 0 <= i < x@.len() implies #[trigger] env_set_def_views(x@)[i]
                == env_set_def_views(y@)[i] by {
                lemma_env_set_def_congruent(&x@[i], &y@[i]);
            }
            assert(env_set_def_views(x@) =~= env_set_def_views(y@));
        }
        _ => {}
    }
}

} // verus!
