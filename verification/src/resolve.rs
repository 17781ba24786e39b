//! Union types `A | B | ...`: the members of a union must be pairwise
//! disjoint, so that the tag of a value names exactly one member.
use vstd::prelude::*;
use vstd::string::StringExecFns;
use crate::error::{Span, TypeError};
use crate::render::{render, type_to_string};
use crate::ty::{Ty, Type, spec_is_numeric, type_eq, view_types};

verus! {

broadcast use vstd::std_specs::vec::group_vec_axioms, vstd::string::group_string_axioms, crate::ty::group_view_types;

pub open spec fn why_duplicate() -> Seq<char> {
    "重复成员"@
}

pub open spec fn why_numeric() -> Seq<char> {
    "数值类型互通（宽度 / 平台相关重叠）"@
}

pub open spec fn why_ref() -> Seq<char> {
    "引用可变性重叠（`&T` 与 `&mut T`）"@
}

pub open spec fn why_raw_ptr() -> Seq<char> {
    "裸指针可变性重叠（`*const T` 与 `*mut T`）"@
}

/// The reason given for an overlap found inside a nested union.
pub open spec fn why_nested(why: Seq<char>) -> Seq<char> {
    "嵌套联合成员重叠（"@ + why + "）"@
}

/// The overlaps that do not look inside unions: equal members, two numeric
/// types, `&T` with `&mut T`, `*const T` with `*mut T`.
pub open spec fn direct_overlap(a: Ty, b: Ty) -> Option<Seq<char>> {
    if a == b {
        Some(why_duplicate())
    } else if spec_is_numeric(a) && spec_is_numeric(b) {
        Some(why_numeric())
    } else if a matches Ty::Ref(ia, _) && b matches Ty::Ref(ib, _) && ia == ib {
        Some(why_ref())
    } else if a matches Ty::RawPtr(ia, _) && b matches Ty::RawPtr(ib, _) && ia == ib {
        Some(why_raw_ptr())
    } else {
        None
    }
}

/// Why `a` and `b` overlap, for a `b` that is no union: a direct overlap, or
/// (for a union `a`) the first member of `a` that overlaps `b`.
pub open spec fn overlap_left(a: Ty, b: Ty) -> Option<Seq<char>>
    decreases a, 0nat,
{
    match direct_overlap(a, b) {
        Some(w) => Some(w),
        None => match a {
            Ty::Union(us) => match first_overlap_left(us, 0, b) {
                Some(w) => Some(why_nested(w)),
                None => None,
            },
            _ => None,
        },
    }
}

/// The reason of the first member `us[k]` (from `i` on) with `overlap_left(us[k], b)`.
pub open spec fn first_overlap_left(us: Seq<Ty>, i: nat, b: Ty) -> Option<Seq<char>>
    decreases us, us.len() - i,
{
    if i >= us.len() {
        None
    } else {
        match overlap_left(us[i as int], b) {
            Some(w) => Some(w),
            None => first_overlap_left(us, i + 1, b),
        }
    }
}

/// Why the union members `a` and `b` overlap (`None` when they are disjoint):
/// a direct overlap; else, when `a` is a union, the first of its members that
/// overlaps `b`; else, when `b` is a union, the first of its members that
/// overlaps `a`. Distinct named types and enum members are disjoint.
pub open spec fn spec_overlap(a: Ty, b: Ty) -> Option<Seq<char>>
    decreases a, 0nat,
{
    match direct_overlap(a, b) {
        Some(w) => Some(w),
        None => match a {
            Ty::Union(us) => match first_overlap(us, 0, b) {
                Some(w) => Some(why_nested(w)),
                None => None,
            },
            _ => match b {
                Ty::Union(vs) => match first_overlap_left(vs, 0, a) {
                    Some(w) => Some(why_nested(w)),
                    None => None,
                },
                _ => None,
            },
        },
    }
}

/// The reason of the first member `us[k]` (from `i` on) with `spec_overlap(us[k], b)`.
pub open spec fn first_overlap(us: Seq<Ty>, i: nat, b: Ty) -> Option<Seq<char>>
    decreases us, us.len() - i,
{
    if i >= us.len() {
        None
    } else {
        match spec_overlap(us[i as int], b) {
            Some(w) => Some(w),
            None => first_overlap(us, i + 1, b),
        }
    }
}

fn nested(why: String) -> (r: String)
    ensures
        r@ == why_nested(why@),
{
    let mut s = "嵌套联合成员重叠（".to_string();
    s.append(why.as_str());
    s.append("）");
    s
}

fn direct_overlap_reason(a: &Type, b: &Type) -> (r: Option<String>)
    ensures
        r matches Some(w) ==> direct_overlap(a@, b@) == Some(w@),
        r is None ==> direct_overlap(a@, b@) is None,
{
    if type_eq(a, b) {
        return Some("重复成员".to_string());
    }
    if a.is_numeric() && b.is_numeric() {
        return Some("数值类型互通（宽度 / 平台相关重叠）".to_string());
    }
    if let (Type::Ref(ia, _), Type::Ref(ib, _)) = (a, b) {
        if type_eq(ia, ib) {
            return Some("引用可变性重叠（`&T` 与 `&mut T`）".to_string());
        }
    }
    if let (Type::RawPtr(ia, _), Type::RawPtr(ib, _)) = (a, b) {
        if type_eq(ia, ib) {
            return Some("裸指针可变性重叠（`*const T` 与 `*mut T`）".to_string());
        }
    }
    None
}

fn overlap_left_reason(a: &Type, b: &Type) -> (r: Option<String>)
    ensures
        r matches Some(w) ==> overlap_left(a@, b@) == Some(w@),
        r is None ==> overlap_left(a@, b@) is None,
    decreases a, 0nat,
{
    match direct_overlap_reason(a, b) {
        Some(w) => Some(w),
        None => match a {
            Type::Union(us) => match first_overlap_left_reason(us, 0, b) {
                Some(w) => Some(nested(w)),
                None => None,
            },
            _ => None,
        },
    }
}

fn first_overlap_left_reason(us: &Vec<Type>, i: usize, b: &Type) -> (r: Option<String>)
    requires
        i <= us.len(),
    ensures
        r matches Some(w) ==> first_overlap_left(view_types(us@), i as nat, b@) == Some(w@),
        r is None ==> first_overlap_left(view_types(us@), i as nat, b@) is None,
    decreases us, us.len() - i,
{
    if i >= us.len() {
        return None;
    }
    match overlap_left_reason(&us[i], b) {
        Some(w) => Some(w),
        None => first_overlap_left_reason(us, i + 1, b),
    }
}

/// Why two union members overlap: `Some(reason)` when they overlap, `None`
/// when they are disjoint (see `spec_overlap`).
pub fn union_overlap_reason(a: &Type, b: &Type) -> (r: Option<String>)
    ensures
        r matches Some(w) ==> spec_overlap(a@, b@) == Some(w@),
        r is None ==> spec_overlap(a@, b@) is None,
    decreases a, 0nat,
{
    match direct_overlap_reason(a, b) {
        Some(w) => Some(w),
        None => match a {
            Type::Union(us) => match first_overlap_reason(us, 0, b) {
                Some(w) => Some(nested(w)),
                None => None,
            },
            _ => match b {
                Type::Union(vs) => match first_overlap_left_reason(vs, 0, a) {
                    Some(w) => Some(nested(w)),
                    None => None,
                },
                _ => None,
            },
        },
    }
}

fn first_overlap_reason(us: &Vec<Type>, i: usize, b: &Type) -> (r: Option<String>)
    requires
        i <= us.len(),
    ensures
        r matches Some(w) ==> first_overlap(view_types(us@), i as nat, b@) == Some(w@),
        r is None ==> first_overlap(view_types(us@), i as nat, b@) is None,
    decreases us, us.len() - i,
{
    if i >= us.len() {
        return None;
    }
    match union_overlap_reason(&us[i], b) {
        Some(w) => Some(w),
        None => first_overlap_reason(us, i + 1, b),
    }
}

/// Whether the members `ms[i]`, `ms[j]` (`i < j`) come before the pair `(i2, j2)`
/// in the order in which the pairs are checked.
pub open spec fn pair_before(i: int, j: int, i2: int, j2: int) -> bool {
    i < i2 || (i == i2 && j < j2)
}

/// Checks that the members of a union are pairwise disjoint. The first
/// overlapping pair `(ms[i], ms[j])`, `i < j`, in the order of `i`, then `j`, is
/// reported with both members' texts and the reason.
pub fn check_union_disjoint(members: &[Type], span: Span) -> (r: Result<(), TypeError>)
    ensures
        r is Ok <==> forall|i: int, j: int|
            0 <= i < j < members@.len() ==> (#[trigger] spec_overlap(members@[i]@, members@[j]@)) is None,
        r is Err ==> exists|i: int, j: int|
            0 <= i < j < members@.len() && (#[trigger] spec_overlap(members@[i]@, members@[j]@)) is Some && (
            r matches Err(TypeError::UnionMembersNotDisjoint { first, second, why, span: sp }) && first@ == render(
                members@[i]@,
            ) && second@ == render(members@[j]@) && spec_overlap(members@[i]@, members@[j]@) == Some(why@) && sp
                == span) && forall|i2: int, j2: int|
                0 <= i2 < j2 < members@.len() && pair_before(i2, j2, i, j) ==> (#[trigger] spec_overlap(
                    members@[i2]@,
                    members@[j2]@,
                )) is None,
{
    let n = members.len();
    let mut i: usize = 0;
    while i < n
        invariant
            n == members@.len(),
            i <= n,
            forall|i2: int, j2: int|
                0 <= i2 < i && i2 < j2 < n ==> (#[trigger] spec_overlap(members@[i2]@, members@[j2]@)) is None,
        decreases n - i,
    {
        let mut j: usize = i + 1;
        while j < n
            invariant
                n == members@.len(),
                i < n,
                i + 1 <= j <= n,
                forall|i2: int, j2: int|
                    0 <= i2 < i && i2 < j2 < n ==> (#[trigger] spec_overlap(members@[i2]@, members@[j2]@)) is None,
                forall|j2: int| i < j2 < j ==> (#[trigger] spec_overlap(members@[i as int]@, members@[j2]@)) is None,
            decreases n - j,
        {
            match union_overlap_reason(&members[i], &members[j]) {
                Some(why) => {
                    let e = TypeError::UnionMembersNotDisjoint {
                        first: type_to_string(&members[i]),
                        second: type_to_string(&members[j]),
                        why,
                        span,
                    };
                    let r: Result<(), TypeError> = Err(e);
                    assert(spec_overlap(members@[i as int]@, members@[j as int]@) is Some);
                    assert(forall|i2: int, j2: int|
                        0 <= i2 < j2 < members@.len() && pair_before(i2, j2, i as int, j as int) ==> (
                        #[trigger] spec_overlap(members@[i2]@, members@[j2]@)) is None) by {
                        assert forall|i2: int, j2: int|
                            0 <= i2 < j2 < members@.len() && pair_before(
                                i2,
                                j2,
                                i as int,
                                j as int,
                            ) implies (#[trigger] spec_overlap(members@[i2]@, members@[j2]@)) is None by {
                            if i2 < i {
                            } else {
                                assert(i2 == i && j2 < j);
                            }
                        }
                    }
                    return r;
                },
                None => {},
            }
            j += 1;
        }
        i += 1;
    }
    Ok(())
}

/// A union that names a member twice is refused.
pub proof fn law_duplicate_members_overlap(a: Ty)
    ensures
        spec_overlap(a, a) == Some(why_duplicate()),
{
}


// ---------------------------------------------------------------------------
// Symmetry of the overlap relation
// ---------------------------------------------------------------------------

/// `x` is a leaf of the union tree of `t`: `t` itself when it is no union,
/// else a leaf of one of its members.
pub open spec fn is_leaf_of(x: Ty, t: Ty) -> bool
    decreases t, 0nat,
{
    match t {
        Ty::Union(us) => leaf_in_members(x, us, 0),
        _ => x == t,
    }
}

/// `x` is a leaf of one of the members `us[i..]`.
pub open spec fn leaf_in_members(x: Ty, us: Seq<Ty>, i: nat) -> bool
    decreases us, us.len() - i,
{
    if i >= us.len() {
        false
    } else {
        is_leaf_of(x, us[i as int]) || leaf_in_members(x, us, i + 1)
    }
}

proof fn lemma_leaf_in_members(x: Ty, us: Seq<Ty>, i: nat)
    ensures
        leaf_in_members(x, us, i) == (exists|k: int| i <= k < us.len() && #[trigger] is_leaf_of(x, us[k])),
    decreases us.len() - i,
{
    if i < us.len() {
        lemma_leaf_in_members(x, us, i + 1);
        if is_leaf_of(x, us[i as int]) {
            assert(i <= i as int && i < us.len() && is_leaf_of(x, us[i as int]));
        }
        if leaf_in_members(x, us, i + 1) {
            let k = choose|k: int| i + 1 <= k < us.len() && #[trigger] is_leaf_of(x, us[k]);
            assert(i <= k < us.len() && is_leaf_of(x, us[k]));
        }
        if exists|k: int| i <= k < us.len() && #[trigger] is_leaf_of(x, us[k]) {
            let k = choose|k: int| i <= k < us.len() && #[trigger] is_leaf_of(x, us[k]);
            if k > i {
                assert(i + 1 <= k < us.len() && is_leaf_of(x, us[k]));
            }
        }
    }
}

/// The leaves of a union are the leaves of its members.
proof fn lemma_union_leaves(us: Seq<Ty>)
    ensures
        forall|x: Ty| #[trigger] is_leaf_of(x, Ty::Union(us)) == (exists|k: int| 0 <= k < us.len() && #[trigger] is_leaf_of(x, us[k])),
{
    assert forall|x: Ty| #[trigger] is_leaf_of(x, Ty::Union(us)) == (exists|k: int| 0 <= k < us.len() && #[trigger] is_leaf_of(x, us[k])) by {
        lemma_leaf_in_members(x, us, 0);
    }
}

/// Some leaf of `a` directly overlaps some leaf of `b`.
pub open spec fn leaf_overlap(a: Ty, b: Ty) -> bool {
    exists|x: Ty, y: Ty| #![trigger is_leaf_of(x, a), is_leaf_of(y, b)]
        is_leaf_of(x, a) && is_leaf_of(y, b) && direct_overlap(x, y) is Some
}

proof fn lemma_direct_symmetric(a: Ty, b: Ty)
    ensures
        (direct_overlap(a, b) is Some) == (direct_overlap(b, a) is Some),
{
}

proof fn lemma_direct_union_leaf(a: Ty, b: Ty)
    requires
        a is Union,
        !(b is Union),
    ensures
        direct_overlap(a, b) is None,
        direct_overlap(b, a) is None,
{
}

/// For a leaf `x`, `overlap_left(v, x)` finds an overlap exactly when a leaf of
/// `v` directly overlaps `x`.
proof fn lemma_overlap_left_leaves(v: Ty, x: Ty)
    requires
        !(x is Union),
    ensures
        (overlap_left(v, x) is Some) == (exists|y: Ty| #[trigger] is_leaf_of(y, v) && direct_overlap(y, x) is Some),
    decreases v, 0nat,
{
    match v {
        Ty::Union(us) => {
            lemma_direct_union_leaf(v, x);
            lemma_first_overlap_left_leaves(us, 0, x);
            lemma_union_leaves(us);
            if overlap_left(v, x) is Some {
                let (k, y) = choose|k: int, y: Ty|
                    #![trigger is_leaf_of(y, us[k])]
                    0 <= k < us.len() && is_leaf_of(y, us[k]) && direct_overlap(y, x) is Some;
                assert(is_leaf_of(y, v));
            }
            if exists|y: Ty| #[trigger] is_leaf_of(y, v) && direct_overlap(y, x) is Some {
                let y = choose|y: Ty| #[trigger] is_leaf_of(y, v) && direct_overlap(y, x) is Some;
                let k = choose|k: int| 0 <= k < us.len() && #[trigger] is_leaf_of(y, us[k]);
                assert(0 <= k < us.len() && is_leaf_of(y, us[k]) && direct_overlap(y, x) is Some);
            }
        },
        _ => {
            assert forall|y: Ty| #[trigger] is_leaf_of(y, v) implies y == v by {}
            if direct_overlap(v, x) is Some {
                assert(is_leaf_of(v, v));
            }
        },
    }
}

proof fn lemma_first_overlap_left_leaves(us: Seq<Ty>, i: nat, x: Ty)
    requires
        !(x is Union),
    ensures
        (first_overlap_left(us, i, x) is Some) == (exists|k: int, y: Ty|
            #![trigger is_leaf_of(y, us[k])]
            i <= k < us.len() && is_leaf_of(y, us[k]) && direct_overlap(y, x) is Some),
    decreases us, us.len() - i,
{
    if i < us.len() {
        lemma_overlap_left_leaves(us[i as int], x);
        lemma_first_overlap_left_leaves(us, i + 1, x);
        if exists|k: int, y: Ty|
            #![trigger is_leaf_of(y, us[k])]
            i <= k < us.len() && is_leaf_of(y, us[k]) && direct_overlap(y, x) is Some {
            let (k, y) = choose|k: int, y: Ty|
                #![trigger is_leaf_of(y, us[k])]
                i <= k < us.len() && is_leaf_of(y, us[k]) && direct_overlap(y, x) is Some;
            if k > i {
                assert(i + 1 <= k < us.len() && is_leaf_of(y, us[k]) && direct_overlap(y, x) is Some);
            }
        }
    }
}

/// For a member `a` that is no union, `spec_overlap(a, b)` finds an overlap
/// exactly when their leaves overlap.
proof fn lemma_overlap_leaf_nonunion(a: Ty, b: Ty)
    requires
        !(a is Union),
    ensures
        (spec_overlap(a, b) is Some) == leaf_overlap(a, b),
{
    assert forall|x: Ty| #[trigger] is_leaf_of(x, a) implies x == a by {}
    assert(is_leaf_of(a, a));
    match b {
        Ty::Union(vs) => {
            lemma_direct_union_leaf(b, a);
            lemma_first_overlap_left_leaves(vs, 0, a);
            lemma_union_leaves(vs);
            if spec_overlap(a, b) is Some {
                let (k, y) = choose|k: int, y: Ty|
                    #![trigger is_leaf_of(y, vs[k])]
                    0 <= k < vs.len() && is_leaf_of(y, vs[k]) && direct_overlap(y, a) is Some;
                assert(is_leaf_of(y, b));
                lemma_direct_symmetric(y, a);
                assert(is_leaf_of(a, a) && is_leaf_of(y, b) && direct_overlap(a, y) is Some);
            }
            if leaf_overlap(a, b) {
                let (x, y) = choose|x: Ty, y: Ty| #![trigger is_leaf_of(x, a), is_leaf_of(y, b)]
                    is_leaf_of(x, a) && is_leaf_of(y, b) && direct_overlap(x, y) is Some;
                let k = choose|k: int| 0 <= k < vs.len() && #[trigger] is_leaf_of(y, vs[k]);
                lemma_direct_symmetric(x, y);
                assert(0 <= k < vs.len() && is_leaf_of(y, vs[k]) && direct_overlap(y, a) is Some);
            }
        },
        _ => {
            assert forall|y: Ty| #[trigger] is_leaf_of(y, b) implies y == b by {}
            assert(is_leaf_of(b, b));
            if direct_overlap(a, b) is Some {
                assert(is_leaf_of(a, a) && is_leaf_of(b, b) && direct_overlap(a, b) is Some);
            }
        },
    }
}

/// `x` is a node of the union tree of `t`: `t` itself, or a node of the tree
/// of one of its members when `t` is a union.
pub open spec fn is_node_of(x: Ty, t: Ty) -> bool
    decreases t, 0nat,
{
    x == t || match t {
        Ty::Union(us) => node_in_members(x, us, 0),
        _ => false,
    }
}

/// `x` is a node of the tree of one of the members `us[i..]`.
pub open spec fn node_in_members(x: Ty, us: Seq<Ty>, i: nat) -> bool
    decreases us, us.len() - i,
{
    if i >= us.len() {
        false
    } else {
        is_node_of(x, us[i as int]) || node_in_members(x, us, i + 1)
    }
}

/// The union tree of `t` has at least one leaf.
pub open spec fn has_leaf(t: Ty) -> bool {
    exists|x: Ty| is_leaf_of(x, t)
}

proof fn lemma_node_in_members(x: Ty, us: Seq<Ty>, i: nat)
    ensures
        node_in_members(x, us, i) == (exists|k: int| i <= k < us.len() && #[trigger] is_node_of(x, us[k])),
    decreases us.len() - i,
{
    if i < us.len() {
        lemma_node_in_members(x, us, i + 1);
        if is_node_of(x, us[i as int]) {
            assert(i <= i as int && i < us.len() && is_node_of(x, us[i as int]));
        }
        if node_in_members(x, us, i + 1) {
            let k = choose|k: int| i + 1 <= k < us.len() && #[trigger] is_node_of(x, us[k]);
            assert(i <= k < us.len() && is_node_of(x, us[k]));
        }
        if exists|k: int| i <= k < us.len() && #[trigger] is_node_of(x, us[k]) {
            let k = choose|k: int| i <= k < us.len() && #[trigger] is_node_of(x, us[k]);
            if k > i {
                assert(i + 1 <= k < us.len() && is_node_of(x, us[k]));
            }
        }
    }
}

/// The nodes of a union are the union itself and the nodes of its members.
proof fn lemma_union_nodes(us: Seq<Ty>)
    ensures
        forall|x: Ty| #[trigger] is_node_of(x, Ty::Union(us)) == (x == Ty::Union(us) || exists|k: int|
            0 <= k < us.len() && #[trigger] is_node_of(x, us[k])),
{
    assert forall|x: Ty| #[trigger] is_node_of(x, Ty::Union(us)) == (x == Ty::Union(us) || exists|k: int|
        0 <= k < us.len() && #[trigger] is_node_of(x, us[k])) by {
        lemma_node_in_members(x, us, 0);
    }
}

/// A leaf of a node of `t` is a leaf of `t`.
proof fn lemma_leaf_of_node(l: Ty, x: Ty, t: Ty)
    requires
        is_node_of(x, t),
        is_leaf_of(l, x),
    ensures
        is_leaf_of(l, t),
    decreases t,
{
    if x != t {
        if let Ty::Union(us) = t {
            lemma_union_nodes(us);
            lemma_union_leaves(us);
            let k = choose|k: int| 0 <= k < us.len() && #[trigger] is_node_of(x, us[k]);
            lemma_leaf_of_node(l, x, us[k]);
            assert(0 <= k < us.len() && is_leaf_of(l, us[k]));
        }
    }
}

/// Member `u` overlaps `b` through a leaf, or `b` is a node of `u`'s tree.
pub open spec fn overlap_cond(u: Ty, b: Ty) -> bool {
    leaf_overlap(u, b) || is_node_of(b, u)
}

proof fn lemma_overlap_char(a: Ty, b: Ty)
    ensures
        (spec_overlap(a, b) is Some) == overlap_cond(a, b),
    decreases a, 0nat,
{
    match a {
        Ty::Union(us) => {
            lemma_union_leaves(us);
            lemma_union_nodes(us);
            lemma_first_overlap_char(us, 0, b);
            if spec_overlap(a, b) is Some {
                if direct_overlap(a, b) is Some {
                    assert(a == b);
                    assert(is_node_of(b, a));
                } else {
                    let k = choose|k: int| 0 <= k < us.len() && #[trigger] overlap_cond(us[k], b);
                    if leaf_overlap(us[k], b) {
                        let (x, y) = choose|x: Ty, y: Ty| #![trigger is_leaf_of(x, us[k]), is_leaf_of(y, b)]
                            is_leaf_of(x, us[k]) && is_leaf_of(y, b) && direct_overlap(x, y) is Some;
                        assert(is_leaf_of(x, a));
                    } else {
                        assert(0 <= k < us.len() && is_node_of(b, us[k]));
                    }
                }
            }
            if overlap_cond(a, b) {
                if b == a {
                } else if leaf_overlap(a, b) {
                    let (x, y) = choose|x: Ty, y: Ty| #![trigger is_leaf_of(x, a), is_leaf_of(y, b)]
                        is_leaf_of(x, a) && is_leaf_of(y, b) && direct_overlap(x, y) is Some;
                    let k = choose|k: int| 0 <= k < us.len() && #[trigger] is_leaf_of(x, us[k]);
                    assert(leaf_overlap(us[k], b));
                    assert(overlap_cond(us[k], b));
                } else {
                    let k = choose|k: int| 0 <= k < us.len() && #[trigger] is_node_of(b, us[k]);
                    assert(overlap_cond(us[k], b));
                }
            }
        },
        _ => {
            lemma_overlap_leaf_nonunion(a, b);
            if is_node_of(b, a) {
                assert(b == a);
                assert(is_leaf_of(a, a));
                assert(direct_overlap(a, a) is Some);
                assert(is_leaf_of(a, a) && is_leaf_of(b, b) && direct_overlap(a, b) is Some);
            }
        },
    }
}

proof fn lemma_first_overlap_char(us: Seq<Ty>, i: nat, b: Ty)
    ensures
        (first_overlap(us, i, b) is Some) == (exists|k: int| i <= k < us.len() && #[trigger] overlap_cond(us[k], b)),
    decreases us, us.len() - i,
{
    if i < us.len() {
        lemma_overlap_char(us[i as int], b);
        lemma_first_overlap_char(us, i + 1, b);
        if exists|k: int| i <= k < us.len() && #[trigger] overlap_cond(us[k], b) {
            let k = choose|k: int| i <= k < us.len() && #[trigger] overlap_cond(us[k], b);
            if k > i {
                assert(i + 1 <= k < us.len() && overlap_cond(us[k], b));
            }
        }
    }
}

/// When two union members overlap: exactly when a leaf of the first directly
/// overlaps a leaf of the second (equal types, two numeric types, `&T` with
/// `&mut T`, `*const T` with `*mut T`), or when the second is the first or one
/// of the unions nested in it.
pub proof fn law_overlap_characterized(a: Ty, b: Ty)
    ensures
        (spec_overlap(a, b) is Some) == (leaf_overlap(a, b) || is_node_of(b, a)),
{
    lemma_overlap_char(a, b);
}

/// Whether two union members overlap does not depend on the order in which
/// they are compared, except when one of them is a union without any leaf
/// nested strictly inside the other (then only the outer one, compared first,
/// sees it).
pub proof fn law_overlap_symmetric(a: Ty, b: Ty)
    requires
        is_node_of(b, a) && a != b ==> has_leaf(b),
        is_node_of(a, b) && a != b ==> has_leaf(a),
    ensures
        (spec_overlap(a, b) is Some) == (spec_overlap(b, a) is Some),
{
    lemma_overlap_char(a, b);
    lemma_overlap_char(b, a);
    if leaf_overlap(a, b) {
        let (x, y) = choose|x: Ty, y: Ty| #![trigger is_leaf_of(x, a), is_leaf_of(y, b)]
            is_leaf_of(x, a) && is_leaf_of(y, b) && direct_overlap(x, y) is Some;
        lemma_direct_symmetric(x, y);
        assert(is_leaf_of(y, b) && is_leaf_of(x, a) && direct_overlap(y, x) is Some);
    }
    if leaf_overlap(b, a) {
        let (y, x) = choose|y: Ty, x: Ty| #![trigger is_leaf_of(y, b), is_leaf_of(x, a)]
            is_leaf_of(y, b) && is_leaf_of(x, a) && direct_overlap(y, x) is Some;
        lemma_direct_symmetric(y, x);
        assert(is_leaf_of(x, a) && is_leaf_of(y, b) && direct_overlap(x, y) is Some);
    }
    if is_node_of(b, a) && a != b {
        let l = choose|l: Ty| is_leaf_of(l, b);
        lemma_leaf_of_node(l, b, a);
        assert(direct_overlap(l, l) is Some);
        assert(is_leaf_of(l, b) && is_leaf_of(l, a) && direct_overlap(l, l) is Some);
        assert(is_leaf_of(l, a) && is_leaf_of(l, b) && direct_overlap(l, l) is Some);
    }
    if is_node_of(a, b) && a != b {
        let l = choose|l: Ty| is_leaf_of(l, a);
        lemma_leaf_of_node(l, a, b);
        assert(direct_overlap(l, l) is Some);
        assert(is_leaf_of(l, b) && is_leaf_of(l, a) && direct_overlap(l, l) is Some);
        assert(is_leaf_of(l, a) && is_leaf_of(l, b) && direct_overlap(l, l) is Some);
    }
    if a == b {
        assert(is_node_of(a, b));
    }
}


/// The numeric types: the integer types and the floating-point types.
pub open spec fn is_number_type(t: Ty) -> bool {
    ||| t is I8
    ||| t is I16
    ||| t is I32
    ||| t is I64
    ||| t is ISize
    ||| t is U8
    ||| t is U16
    ||| t is U32
    ||| t is U64
    ||| t is USize
    ||| t is F32
    ||| t is F64
}

/// Any two different numeric types overlap, integer or floating-point alike,
/// so a union holding both is refused.
pub proof fn law_numeric_members_overlap(a: Ty, b: Ty)
    requires
        is_number_type(a),
        is_number_type(b),
        a != b,
    ensures
        spec_overlap(a, b) == Some("数值类型互通（宽度 / 平台相关重叠）"@),
        spec_overlap(b, a) == Some("数值类型互通（宽度 / 平台相关重叠）"@),
{
}


/// `&T` and `&mut T` overlap (mutability does not separate them), and so do
/// `*const T` and `*mut T`.
pub proof fn law_mutability_does_not_separate(t: Ty)
    ensures
        spec_overlap(
            Ty::Ref(Box::new(t), crate::ty::Mutability::Immutable),
            Ty::Ref(Box::new(t), crate::ty::Mutability::Mutable),
        ) == Some("引用可变性重叠（`&T` 与 `&mut T`）"@),
        spec_overlap(Ty::RawPtr(Box::new(t), false), Ty::RawPtr(Box::new(t), true)) == Some(
            "裸指针可变性重叠（`*const T` 与 `*mut T`）"@,
        ),
{
}

/// Named types with different names (and no type arguments) are disjoint.
pub proof fn law_distinct_names_disjoint(n1: Seq<char>, n2: Seq<char>)
    requires
        n1 != n2,
    ensures
        spec_overlap(Ty::Named(n1, Seq::empty()), Ty::Named(n2, Seq::empty())) is None,
{
}

} // verus!
