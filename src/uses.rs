//! The cross-reference index: where in a schema a given type is used.
use vstd::prelude::*;
use vstd::relations::{sorted_by, total_ordering};
use crate::order::{chars_le, lemma_chars_le_total_order, str_le};
use crate::schema::{refers_to, Field, FullType, InputValue, Schema, TypeRef};

verus! {

/// A place in a schema that mentions a type.
#[derive(Debug, Clone, Copy)]
pub enum TypeUse<'a> {
    /// The type is the result type, or the type of an argument, of a field
    Field { typ: &'a FullType, field: &'a Field },
    /// The type is the type of an input field of an input object
    InputField { typ: &'a FullType, input_field: &'a InputValue },
    /// The type is a possible type of a union or an interface
    PossibleType { typ: &'a FullType },
}

/// What identifies a use: its variant (0 field, 1 input field, 2 possible
/// type), the name of the referencing type, and the name of the referencing
/// field or input field (empty for a possible type).
pub type UseKey = (nat, Seq<char>, Seq<char>);

impl<'a> TypeUse<'a> {
    /// The key of this use.
    pub open spec fn key(self) -> UseKey {
        match self {
            TypeUse::Field { typ, field } => (0nat, typ.name@, field.name@),
            TypeUse::InputField { typ, input_field } => (1nat, typ.name@, input_field.name@),
            TypeUse::PossibleType { typ } => (2nat, typ.name@, Seq::empty()),
        }
    }

    fn tag(&self) -> (r: u8)
        ensures
            r as nat == self.key().0,
    {
        match self {
            TypeUse::Field { .. } => 0,
            TypeUse::InputField { .. } => 1,
            TypeUse::PossibleType { .. } => 2,
        }
    }

    /// The type whose definition holds this use.
    pub open spec fn typ_spec(self) -> &'a FullType {
        match self {
            TypeUse::Field { typ, .. } => typ,
            TypeUse::InputField { typ, .. } => typ,
            TypeUse::PossibleType { typ } => typ,
        }
    }

    /// The type whose definition holds this use.
    pub fn typ(&self) -> (r: &'a FullType)
        ensures
            r == self.typ_spec(),
            r.name@ == self.key().1,
    {
        match self {
            TypeUse::Field { typ, .. } => typ,
            TypeUse::InputField { typ, .. } => typ,
            TypeUse::PossibleType { typ } => typ,
        }
    }

    /// The name of the field or input field through which the use occurs;
    /// empty for a possible type.
    pub fn member_name(&self) -> (r: &'a str)
        ensures
            r@ == self.key().2,
    {
        proof {
            reveal_strlit("");
        }
        match self {
            TypeUse::Field { field, .. } => field.name.as_str(),
            TypeUse::InputField { input_field, .. } => input_field.name.as_str(),
            TypeUse::PossibleType { .. } => "",
        }
    }
}

/// The keys of a sequence of uses, in the same order.
pub open spec fn keys_of<'a>(uses: Seq<TypeUse<'a>>) -> Seq<UseKey> {
    uses.map_values(|u: TypeUse<'a>| u.key())
}

/// The order of uses: by variant, then by referencing type name, then by
/// member name.
pub open spec fn key_le(x: UseKey, y: UseKey) -> bool {
    ||| x.0 < y.0
    ||| x.0 == y.0 && x.1 != y.1 && chars_le(x.1, y.1)
    ||| x.0 == y.0 && x.1 == y.1 && chars_le(x.2, y.2)
}

/// `key_le` as a relation.
pub open spec fn use_order() -> spec_fn(UseKey, UseKey) -> bool {
    |x: UseKey, y: UseKey| key_le(x, y)
}

/// `key_le` is reflexive, total, antisymmetric and transitive.
pub proof fn lemma_key_le_order()
    ensures
        forall|x: UseKey| #[trigger] key_le(x, x),
        forall|x: UseKey, y: UseKey| #[trigger] key_le(x, y) || #[trigger] key_le(y, x),
        forall|x: UseKey, y: UseKey| #[trigger] key_le(x, y) && #[trigger] key_le(y, x) ==> x == y,
        forall|x: UseKey, y: UseKey, z: UseKey|
            #[trigger] key_le(x, y) && #[trigger] key_le(y, z) ==> key_le(x, z),
{
    lemma_chars_le_total_order();
    assert forall|x: UseKey, y: UseKey, z: UseKey|
        #[trigger] key_le(x, y) && #[trigger] key_le(y, z) implies key_le(x, z) by {
        if x.0 == y.0 && y.0 == z.0 && x.1 != z.1 {
            assert(chars_le(x.1, z.1));
        }
    }
    assert forall|x: UseKey, y: UseKey|
        #[trigger] key_le(x, y) && #[trigger] key_le(y, x) implies x == y by {
        if x.1 != y.1 {
            assert(chars_le(x.1, y.1) && chars_le(y.1, x.1));
        }
    }
}

/// `key_le` totally orders the keys of uses.
pub proof fn lemma_use_order_total()
    ensures
        total_ordering(use_order()),
{
    lemma_key_le_order();
}

/// The field uses the target: through its result type or one of its
/// arguments.
pub open spec fn field_uses(f: Field, target: Seq<char>) -> bool {
    ||| refers_to(f.typ, target)
    ||| exists|k: int| 0 <= k < f.args@.len() && refers_to(#[trigger] f.args@[k].typ, target)
}

/// The uses of `target` by the fields of the type named `tname`.
pub open spec fn field_keys(tname: Seq<char>, fields: Seq<Field>, target: Seq<char>) -> Seq<UseKey>
    decreases fields.len(),
{
    if fields.len() == 0 {
        Seq::empty()
    } else {
        field_keys(tname, fields.drop_last(), target) + if field_uses(fields.last(), target) {
            seq![(0nat, tname, fields.last().name@)]
        } else {
            Seq::empty()
        }
    }
}

/// The uses of `target` by the input fields of the type named `tname`.
pub open spec fn input_field_keys(
    tname: Seq<char>,
    input_fields: Seq<InputValue>,
    target: Seq<char>,
) -> Seq<UseKey>
    decreases input_fields.len(),
{
    if input_fields.len() == 0 {
        Seq::empty()
    } else {
        input_field_keys(tname, input_fields.drop_last(), target) + if refers_to(
            input_fields.last().typ,
            target,
        ) {
            seq![(1nat, tname, input_fields.last().name@)]
        } else {
            Seq::empty()
        }
    }
}

/// The uses of `target` among the possible types of the type named `tname`.
pub open spec fn possible_type_keys(
    tname: Seq<char>,
    possible: Seq<TypeRef>,
    target: Seq<char>,
) -> Seq<UseKey>
    decreases possible.len(),
{
    if possible.len() == 0 {
        Seq::empty()
    } else {
        possible_type_keys(tname, possible.drop_last(), target) + if refers_to(
            possible.last(),
            target,
        ) {
            seq![(2nat, tname, Seq::<char>::empty())]
        } else {
            Seq::empty()
        }
    }
}

/// The uses of `target` in one type, in declaration order.
pub open spec fn type_keys(t: FullType, target: Seq<char>) -> Seq<UseKey> {
    (match t.fields {
        Some(fs) => field_keys(t.name@, fs@, target),
        None => Seq::empty(),
    }) + (match t.input_fields {
        Some(ifs) => input_field_keys(t.name@, ifs@, target),
        None => Seq::empty(),
    }) + (match t.possible_types {
        Some(ps) => possible_type_keys(t.name@, ps@, target),
        None => Seq::empty(),
    })
}

/// The uses of `target` in a list of types, in scan order.
pub open spec fn scan_keys(types: Seq<FullType>, target: Seq<char>) -> Seq<UseKey>
    decreases types.len(),
{
    if types.len() == 0 {
        Seq::empty()
    } else {
        scan_keys(types.drop_last(), target) + type_keys(types.last(), target)
    }
}

/// The uses of `target` in a list of types, in the order of `key_le`.
pub open spec fn sorted_uses(types: Seq<FullType>, target: Seq<char>) -> Seq<UseKey> {
    scan_keys(types, target).sort_by(use_order())
}

/// Where a use lies: its key, the position of the referencing type in the
/// schema's list of types, and the position of the field, input field or
/// possible-type entry in that type's own list.
pub type UseSite = (UseKey, int, int);

/// `u` is the use at `site` of `types`: it carries the type at that
/// position, and the field or input field at that position of its list.
pub open spec fn use_at<'a>(u: TypeUse<'a>, types: Seq<FullType>, site: UseSite) -> bool {
    let j = site.1;
    let m = site.2;
    &&& 0 <= j < types.len()
    &&& u.key() == site.0
    &&& match u {
        TypeUse::Field { typ, field } => *typ == types[j] && types[j].fields is Some && 0 <= m
            < types[j].fields->0@.len() && *field == types[j].fields->0@[m],
        TypeUse::InputField { typ, input_field } => *typ == types[j] && types[j].input_fields is Some
            && 0 <= m < types[j].input_fields->0@.len() && *input_field
            == types[j].input_fields->0@[m],
        TypeUse::PossibleType { typ } => *typ == types[j] && types[j].possible_types is Some && 0
            <= m < types[j].possible_types->0@.len(),
    }
}

/// The order of sites: by key, and sites with equal keys by position, which
/// is the order in which the schema lists them.
pub open spec fn site_le(a: UseSite, b: UseSite) -> bool {
    ||| key_le(a.0, b.0) && !key_le(b.0, a.0)
    ||| a.0 == b.0 && a.1 < b.1
    ||| a.0 == b.0 && a.1 == b.1 && a.2 <= b.2
}

/// `site_le` as a relation.
pub open spec fn site_order() -> spec_fn(UseSite, UseSite) -> bool {
    |a: UseSite, b: UseSite| site_le(a, b)
}

/// `site_le` is a total order that refines `key_le`.
pub proof fn lemma_site_le_order()
    ensures
        forall|x: UseSite| #[trigger] site_le(x, x),
        forall|x: UseSite, y: UseSite| #[trigger] site_le(x, y) || #[trigger] site_le(y, x),
        forall|x: UseSite, y: UseSite| #[trigger] site_le(x, y) && #[trigger] site_le(y, x) ==> x
            == y,
        forall|x: UseSite, y: UseSite, z: UseSite|
            #[trigger] site_le(x, y) && #[trigger] site_le(y, z) ==> site_le(x, z),
        forall|x: UseSite, y: UseSite| #[trigger] site_le(x, y) ==> key_le(x.0, y.0),
{
    lemma_key_le_order();
}

/// `site_le` totally orders sites.
pub proof fn lemma_site_order_total()
    ensures
        total_ordering(site_order()),
{
    lemma_site_le_order();
}

/// The sites of the uses of `target` by the fields of the type at position
/// `j`, named `tname`.
pub open spec fn field_sites(j: int, tname: Seq<char>, fields: Seq<Field>, target: Seq<char>) -> Seq<
    UseSite,
>
    decreases fields.len(),
{
    if fields.len() == 0 {
        Seq::empty()
    } else {
        field_sites(j, tname, fields.drop_last(), target) + if field_uses(fields.last(), target) {
            seq![((0nat, tname, fields.last().name@), j, fields.len() - 1)]
        } else {
            Seq::empty()
        }
    }
}

/// The sites of the uses of `target` by the input fields of the type at
/// position `j`, named `tname`.
pub open spec fn input_field_sites(
    j: int,
    tname: Seq<char>,
    input_fields: Seq<InputValue>,
    target: Seq<char>,
) -> Seq<UseSite>
    decreases input_fields.len(),
{
    if input_fields.len() == 0 {
        Seq::empty()
    } else {
        input_field_sites(j, tname, input_fields.drop_last(), target) + if refers_to(
            input_fields.last().typ,
            target,
        ) {
            seq![((1nat, tname, input_fields.last().name@), j, input_fields.len() - 1)]
        } else {
            Seq::empty()
        }
    }
}

/// The sites of the uses of `target` among the possible types of the type at
/// position `j`, named `tname`.
pub open spec fn possible_type_sites(
    j: int,
    tname: Seq<char>,
    possible: Seq<TypeRef>,
    target: Seq<char>,
) -> Seq<UseSite>
    decreases possible.len(),
{
    if possible.len() == 0 {
        Seq::empty()
    } else {
        possible_type_sites(j, tname, possible.drop_last(), target) + if refers_to(
            possible.last(),
            target,
        ) {
            seq![((2nat, tname, Seq::<char>::empty()), j, possible.len() - 1)]
        } else {
            Seq::empty()
        }
    }
}

/// The sites of the uses of `target` in the type at position `j`.
pub open spec fn type_sites(t: FullType, j: int, target: Seq<char>) -> Seq<UseSite> {
    (match t.fields {
        Some(fs) => field_sites(j, t.name@, fs@, target),
        None => Seq::empty(),
    }) + (match t.input_fields {
        Some(ifs) => input_field_sites(j, t.name@, ifs@, target),
        None => Seq::empty(),
    }) + (match t.possible_types {
        Some(ps) => possible_type_sites(j, t.name@, ps@, target),
        None => Seq::empty(),
    })
}

/// The sites of the uses of `target` in a list of types, in scan order.
pub open spec fn scan_sites(types: Seq<FullType>, target: Seq<char>) -> Seq<UseSite>
    decreases types.len(),
{
    if types.len() == 0 {
        Seq::empty()
    } else {
        scan_sites(types.drop_last(), target) + type_sites(types.last(), types.len() - 1, target)
    }
}

/// The sites of the uses of `target`, in the order `find_uses` returns them:
/// by key, and uses with equal keys in scan order.
pub open spec fn located_uses(types: Seq<FullType>, target: Seq<char>) -> Seq<UseSite> {
    scan_sites(types, target).sort_by(site_order())
}

/// Two sequences of uses at the same sites of the same types are the same.
pub proof fn lemma_uses_determined<'a>(
    types: Seq<FullType>,
    sites: Seq<UseSite>,
    a: Seq<TypeUse<'a>>,
    b: Seq<TypeUse<'a>>,
)
    requires
        a.len() == sites.len(),
        b.len() == sites.len(),
        forall|k: int| 0 <= k < sites.len() ==> use_at(#[trigger] a[k], types, sites[k]),
        forall|k: int| 0 <= k < sites.len() ==> use_at(#[trigger] b[k], types, sites[k]),
    ensures
        a == b,
{
    assert forall|k: int| 0 <= k < sites.len() implies a[k] == b[k] by {
        assert(use_at(a[k], types, sites[k]));
        assert(use_at(b[k], types, sites[k]));
    }
    assert(a =~= b);
}

/// The uses of a target depend on its name alone: two targets of the same
/// name, in the same types, have the same uses, referencing types and
/// fields included.
pub proof fn lemma_uses_depend_on_name_only<'a>(
    types: Seq<FullType>,
    first: FullType,
    second: FullType,
    r1: Seq<TypeUse<'a>>,
    r2: Seq<TypeUse<'a>>,
)
    requires
        first.name@ == second.name@,
        r1.len() == located_uses(types, first.name@).len(),
        forall|k: int|
            0 <= k < r1.len() ==> use_at(#[trigger] r1[k], types, located_uses(types, first.name@)[k]),
        r2.len() == located_uses(types, second.name@).len(),
        forall|k: int|
            0 <= k < r2.len() ==> use_at(#[trigger] r2[k], types, located_uses(types, second.name@)[k]),
    ensures
        r1 == r2,
{
    lemma_uses_determined(types, located_uses(types, first.name@), r1, r2);
}

/// A use with the positions it was found at.
pub type Entry<'a> = (TypeUse<'a>, usize, usize);

/// The site an entry records.
pub open spec fn site_of<'a>(e: Entry<'a>) -> UseSite {
    (e.0.key(), e.1 as int, e.2 as int)
}

/// The sites of entries, in the same order.
pub open spec fn sites_of<'a>(es: Seq<Entry<'a>>) -> Seq<UseSite> {
    es.map_values(|e: Entry<'a>| site_of(e))
}

/// The keys of entries, in the same order.
pub open spec fn entry_keys<'a>(es: Seq<Entry<'a>>) -> Seq<UseKey> {
    es.map_values(|e: Entry<'a>| e.0.key())
}

/// Every entry is the use at its site of `types`.
pub open spec fn entries_at<'a>(es: Seq<Entry<'a>>, types: Seq<FullType>) -> bool {
    forall|k: int| 0 <= k < es.len() ==> use_at(#[trigger] es[k].0, types, site_of(es[k]))
}

proof fn lemma_entries_push<'a>(es: Seq<Entry<'a>>, e: Entry<'a>)
    ensures
        sites_of(es.push(e)) == sites_of(es).push(site_of(e)),
        entry_keys(es.push(e)) == entry_keys(es).push(e.0.key()),
{
    assert(sites_of(es.push(e)) =~= sites_of(es).push(site_of(e)));
    assert(entry_keys(es.push(e)) =~= entry_keys(es).push(e.0.key()));
}

/// Whether `a` comes no later than `b`.
fn use_le(a: &TypeUse, b: &TypeUse) -> (r: bool)
    ensures
        r == key_le(a.key(), b.key()),
{
    let ta = a.tag();
    let tb = b.tag();
    if ta != tb {
        return ta < tb;
    }
    let na = &a.typ().name;
    let nb = &b.typ().name;
    if !na.eq(nb) {
        return str_le(na.as_str(), nb.as_str());
    }
    str_le(a.member_name(), b.member_name())
}

/// Whether entry `a` comes no later than entry `b`.
fn entry_le(a: &Entry, b: &Entry) -> (r: bool)
    ensures
        r == site_le(site_of(*a), site_of(*b)),
{
    proof {
        lemma_key_le_order();
    }
    let ab = use_le(&a.0, &b.0);
    let ba = use_le(&b.0, &a.0);
    if ab && !ba {
        true
    } else if ab && ba {
        a.1 < b.1 || (a.1 == b.1 && a.2 <= b.2)
    } else {
        false
    }
}

/// Orders `v` by `site_le`.
fn sort_entries<'a>(v: Vec<Entry<'a>>) -> (r: Vec<Entry<'a>>)
    ensures
        sorted_by(sites_of(r@), site_order()),
        sites_of(r@).to_multiset() == sites_of(v@).to_multiset(),
        entry_keys(r@).to_multiset() == entry_keys(v@).to_multiset(),
        forall|k: int| 0 <= k < r@.len() ==> v@.contains(#[trigger] r@[k]),
{
    broadcast use vstd::seq_lib::group_to_multiset_ensures;
    broadcast use vstd::multiset::group_multiset_axioms;

    proof {
        lemma_site_order_total();
    }
    let mut r: Vec<Entry<'a>> = Vec::new();
    let mut i: usize = 0;
    while i < v.len()
        invariant
            i <= v@.len(),
            total_ordering(site_order()),
            sorted_by(sites_of(r@), site_order()),
            sites_of(r@).to_multiset() == sites_of(v@.take(i as int)).to_multiset(),
            entry_keys(r@).to_multiset() == entry_keys(v@.take(i as int)).to_multiset(),
            forall|k: int| 0 <= k < r@.len() ==> v@.contains(#[trigger] r@[k]),
        decreases v@.len() - i,
    {
        let u = v[i];
        let mut j: usize = 0;
        while j < r.len() && entry_le(&r[j], &u)
            invariant
                j <= r@.len(),
                forall|k: int| 0 <= k < j ==> site_le(#[trigger] site_of(r@[k]), site_of(u)),
            decreases r@.len() - j,
        {
            j = j + 1;
        }
        let ghost old_r = r@;
        r.insert(j, u);
        proof {
            assert(v@[i as int] == u);
            assert forall|k: int| 0 <= k < r@.len() implies v@.contains(#[trigger] r@[k]) by {
                if k < j {
                    assert(r@[k] == old_r[k]);
                } else if k > j {
                    assert(r@[k] == old_r[k - 1]);
                }
            }
            lemma_site_le_order();
            assert(v@.take(i + 1) =~= v@.take(i as int).push(u));
            lemma_entries_push(v@.take(i as int), u);
            let ss = sites_of(old_r);
            let s = sites_of(r@);
            assert(s =~= ss.insert(j as int, site_of(u)));
            assert(s[j as int] == site_of(u));
            s.to_multiset_ensures();
            ss.to_multiset_ensures();
            sites_of(v@.take(i as int)).to_multiset_ensures();
            assert(s.to_multiset().count(site_of(u)) > 0);
            assert(s.to_multiset().remove(site_of(u)).insert(site_of(u)) =~= s.to_multiset());
            assert(s.remove(j as int) =~= ss);
            let ks = entry_keys(old_r);
            let k2 = entry_keys(r@);
            assert(k2 =~= ks.insert(j as int, u.0.key()));
            assert(k2[j as int] == u.0.key());
            k2.to_multiset_ensures();
            ks.to_multiset_ensures();
            entry_keys(v@.take(i as int)).to_multiset_ensures();
            assert(k2.to_multiset().count(u.0.key()) > 0);
            assert(k2.to_multiset().remove(u.0.key()).insert(u.0.key()) =~= k2.to_multiset());
            assert(k2.remove(j as int) =~= ks);
            assert forall|a: int, b: int| 0 <= a < b < r@.len() implies #[trigger] site_le(
                s[a],
                s[b],
            ) by {
                if j < old_r.len() {
                    assert(!site_le(ss[j as int], site_of(u)));
                    assert(site_le(site_of(u), ss[j as int]));
                }
                if b < j {
                    assert(site_order()(ss[a], ss[b]));
                } else if b == j {
                    assert(site_le(site_of(old_r[a]), site_of(u)));
                } else if a < j {
                    assert(site_le(site_of(old_r[a]), site_of(u)));
                    assert(site_order()(ss[j as int], ss[b - 1]) || j == b - 1);
                } else if a == j {
                    assert(site_order()(ss[j as int], ss[b - 1]) || j == b - 1);
                } else {
                    assert(site_order()(ss[a - 1], ss[b - 1]));
                }
            }
        }
        i = i + 1;
    }
    proof {
        assert(v@.take(v@.len() as int) =~= v@);
    }
    r
}

proof fn lemma_scan_keys_append(a: Seq<FullType>, b: Seq<FullType>, target: Seq<char>)
    ensures
        scan_keys(a + b, target) == scan_keys(a, target) + scan_keys(b, target),
    decreases b.len(),
{
    if b.len() == 0 {
        assert(a + b =~= a);
        assert(scan_keys(a, target) + scan_keys(b, target) =~= scan_keys(a, target));
    } else {
        assert((a + b).drop_last() =~= a + b.drop_last());
        lemma_scan_keys_append(a, b.drop_last(), target);
        assert(scan_keys(a + b, target) =~= scan_keys(a, target) + scan_keys(b, target));
    }
}

proof fn lemma_scan_keys_remove(s: Seq<FullType>, j: int, target: Seq<char>)
    requires
        0 <= j < s.len(),
    ensures
        scan_keys(s, target).to_multiset() == scan_keys(s.remove(j), target).to_multiset().add(
            type_keys(s[j], target).to_multiset(),
        ),
{
    let pre = s.subrange(0, j);
    let post = s.subrange(j + 1, s.len() as int);
    assert(s =~= pre + seq![s[j]] + post);
    assert(s.remove(j) =~= pre + post);
    lemma_scan_keys_append(pre + seq![s[j]], post, target);
    lemma_scan_keys_append(pre, seq![s[j]], target);
    lemma_scan_keys_append(pre, post, target);
    assert(seq![s[j]].drop_last() =~= Seq::<FullType>::empty());
    let kp = scan_keys(pre, target);
    let kj = type_keys(s[j], target);
    let kq = scan_keys(post, target);
    let single = seq![s[j]];
    assert(single.drop_last() =~= Seq::<FullType>::empty());
    assert(single.last() == s[j]);
    assert(scan_keys(single.drop_last(), target) =~= Seq::<UseKey>::empty());
    assert(scan_keys(single, target) =~= kj);
    vstd::seq_lib::lemma_multiset_commutative(kp + kj, kq);
    vstd::seq_lib::lemma_multiset_commutative(kp, kj);
    vstd::seq_lib::lemma_multiset_commutative(kp, kq);
    broadcast use vstd::multiset::group_multiset_axioms;

    assert(scan_keys(s, target).to_multiset() =~= scan_keys(s.remove(j), target).to_multiset().add(
        kj.to_multiset(),
    ));
}

proof fn lemma_scan_keys_permutation(a: Seq<FullType>, b: Seq<FullType>, target: Seq<char>)
    requires
        a.to_multiset() == b.to_multiset(),
    ensures
        scan_keys(a, target).to_multiset() == scan_keys(b, target).to_multiset(),
    decreases a.len(),
{
    broadcast use vstd::seq_lib::group_to_multiset_ensures;
    broadcast use vstd::multiset::group_multiset_axioms;

    if a.len() == 0 {
        assert(a.to_multiset().len() == 0);
        assert(b.to_multiset().len() == 0);
        assert(b.len() == 0);
        assert(b =~= Seq::<FullType>::empty());
    } else {
        let x = a.last();
        let a1 = a.drop_last();
        assert(a1.push(x) =~= a);
        assert(a.to_multiset().count(x) > 0);
        assert(b.contains(x));
        let j = choose|j: int| 0 <= j < b.len() && b[j] == x;
        let b1 = b.remove(j);
        assert(a1.to_multiset() =~= a.to_multiset().remove(x));
        assert(b1.to_multiset() =~= b.to_multiset().remove(x));
        lemma_scan_keys_permutation(a1, b1, target);
        lemma_scan_keys_remove(b, j, target);
        vstd::seq_lib::lemma_multiset_commutative(scan_keys(a1, target), type_keys(x, target));
    }
}

/// The ordered uses of a type do not depend on the order in which the
/// schema lists its types: two type lists holding the same types, each as
/// many times, give the same uses in the same order.
pub proof fn lemma_uses_independent_of_type_order(
    a: Seq<FullType>,
    b: Seq<FullType>,
    target: Seq<char>,
)
    requires
        a.to_multiset() == b.to_multiset(),
    ensures
        sorted_uses(a, target) == sorted_uses(b, target),
{
    lemma_use_order_total();
    lemma_scan_keys_permutation(a, b, target);
    scan_keys(a, target).lemma_sort_by_ensures(use_order());
    scan_keys(b, target).lemma_sort_by_ensures(use_order());
    vstd::seq_lib::lemma_sorted_unique(sorted_uses(a, target), sorted_uses(b, target), use_order());
}

/// A site without the position of its type: its key and the position of
/// the member in the type's list.
pub open spec fn site_in_type(x: UseSite) -> (UseKey, int) {
    (x.0, x.2)
}

/// Sites without type positions, in the same order.
spec fn in_type_of(s: Seq<UseSite>) -> Seq<(UseKey, int)> {
    s.map_values(|x: UseSite| site_in_type(x))
}

proof fn lemma_in_type_of_add(a: Seq<UseSite>, b: Seq<UseSite>)
    ensures
        in_type_of(a + b) == in_type_of(a) + in_type_of(b),
{
    assert(in_type_of(a + b) =~= in_type_of(a) + in_type_of(b));
}

proof fn lemma_member_sites_any_position(j: int, t: FullType, target: Seq<char>)
    ensures
        in_type_of(type_sites(t, j, target)) == in_type_of(type_sites(t, 0, target)),
{
    if let Some(fs) = t.fields {
        lemma_field_sites_any_position(j, t.name@, fs@, target);
    }
    if let Some(ifs) = t.input_fields {
        lemma_input_field_sites_any_position(j, t.name@, ifs@, target);
    }
    if let Some(ps) = t.possible_types {
        lemma_possible_type_sites_any_position(j, t.name@, ps@, target);
    }
    let f = |j: int| (match t.fields {
        Some(fs) => field_sites(j, t.name@, fs@, target),
        None => Seq::empty(),
    });
    let g = |j: int| (match t.input_fields {
        Some(ifs) => input_field_sites(j, t.name@, ifs@, target),
        None => Seq::empty(),
    });
    let h = |j: int| (match t.possible_types {
        Some(ps) => possible_type_sites(j, t.name@, ps@, target),
        None => Seq::empty(),
    });
    assert(in_type_of(Seq::<UseSite>::empty()) =~= Seq::empty());
    lemma_in_type_of_add(f(j) + g(j), h(j));
    lemma_in_type_of_add(f(j), g(j));
    lemma_in_type_of_add(f(0) + g(0), h(0));
    lemma_in_type_of_add(f(0), g(0));
}

proof fn lemma_field_sites_any_position(j: int, n: Seq<char>, fs: Seq<Field>, target: Seq<char>)
    ensures
        in_type_of(field_sites(j, n, fs, target)) == in_type_of(field_sites(0, n, fs, target)),
    decreases fs.len(),
{
    if fs.len() > 0 {
        lemma_field_sites_any_position(j, n, fs.drop_last(), target);
        let tail = |j: int| if field_uses(fs.last(), target) {
            seq![((0nat, n, fs.last().name@), j, fs.len() - 1)]
        } else {
            Seq::<UseSite>::empty()
        };
        lemma_in_type_of_add(field_sites(j, n, fs.drop_last(), target), tail(j));
        lemma_in_type_of_add(field_sites(0, n, fs.drop_last(), target), tail(0));
        assert(in_type_of(tail(j)) =~= in_type_of(tail(0)));
    }
}

proof fn lemma_input_field_sites_any_position(
    j: int,
    n: Seq<char>,
    fs: Seq<InputValue>,
    target: Seq<char>,
)
    ensures
        in_type_of(input_field_sites(j, n, fs, target)) == in_type_of(
            input_field_sites(0, n, fs, target),
        ),
    decreases fs.len(),
{
    if fs.len() > 0 {
        lemma_input_field_sites_any_position(j, n, fs.drop_last(), target);
        let tail = |j: int| if refers_to(fs.last().typ, target) {
            seq![((1nat, n, fs.last().name@), j, fs.len() - 1)]
        } else {
            Seq::<UseSite>::empty()
        };
        lemma_in_type_of_add(input_field_sites(j, n, fs.drop_last(), target), tail(j));
        lemma_in_type_of_add(input_field_sites(0, n, fs.drop_last(), target), tail(0));
        assert(in_type_of(tail(j)) =~= in_type_of(tail(0)));
    }
}

proof fn lemma_possible_type_sites_any_position(
    j: int,
    n: Seq<char>,
    ps: Seq<TypeRef>,
    target: Seq<char>,
)
    ensures
        in_type_of(possible_type_sites(j, n, ps, target)) == in_type_of(
            possible_type_sites(0, n, ps, target),
        ),
    decreases ps.len(),
{
    if ps.len() > 0 {
        lemma_possible_type_sites_any_position(j, n, ps.drop_last(), target);
        let tail = |j: int| if refers_to(ps.last(), target) {
            seq![((2nat, n, Seq::<char>::empty()), j, ps.len() - 1)]
        } else {
            Seq::<UseSite>::empty()
        };
        lemma_in_type_of_add(possible_type_sites(j, n, ps.drop_last(), target), tail(j));
        lemma_in_type_of_add(possible_type_sites(0, n, ps.drop_last(), target), tail(0));
        assert(in_type_of(tail(j)) =~= in_type_of(tail(0)));
    }
}

/// The sites of a list of types, without type positions.
spec fn flat_sites(types: Seq<FullType>, target: Seq<char>) -> Seq<(UseKey, int)>
    decreases types.len(),
{
    if types.len() == 0 {
        Seq::empty()
    } else {
        flat_sites(types.drop_last(), target) + in_type_of(type_sites(types.last(), 0, target))
    }
}

proof fn lemma_scan_sites_flat(types: Seq<FullType>, target: Seq<char>)
    ensures
        in_type_of(scan_sites(types, target)) == flat_sites(types, target),
    decreases types.len(),
{
    if types.len() == 0 {
        assert(in_type_of(Seq::<UseSite>::empty()) =~= Seq::empty());
    } else {
        lemma_scan_sites_flat(types.drop_last(), target);
        lemma_in_type_of_add(
            scan_sites(types.drop_last(), target),
            type_sites(types.last(), types.len() - 1, target),
        );
        lemma_member_sites_any_position(types.len() - 1, types.last(), target);
    }
}

proof fn lemma_flat_sites_append(a: Seq<FullType>, b: Seq<FullType>, target: Seq<char>)
    ensures
        flat_sites(a + b, target) == flat_sites(a, target) + flat_sites(b, target),
    decreases b.len(),
{
    if b.len() == 0 {
        assert(a + b =~= a);
        assert(flat_sites(a, target) + flat_sites(b, target) =~= flat_sites(a, target));
    } else {
        assert((a + b).drop_last() =~= a + b.drop_last());
        lemma_flat_sites_append(a, b.drop_last(), target);
        assert(flat_sites(a + b, target) =~= flat_sites(a, target) + flat_sites(b, target));
    }
}

proof fn lemma_flat_sites_remove(s: Seq<FullType>, j: int, target: Seq<char>)
    requires
        0 <= j < s.len(),
    ensures
        flat_sites(s, target).to_multiset() == flat_sites(s.remove(j), target).to_multiset().add(
            in_type_of(type_sites(s[j], 0, target)).to_multiset(),
        ),
{
    let pre = s.subrange(0, j);
    let post = s.subrange(j + 1, s.len() as int);
    assert(s =~= pre + seq![s[j]] + post);
    assert(s.remove(j) =~= pre + post);
    lemma_flat_sites_append(pre + seq![s[j]], post, target);
    lemma_flat_sites_append(pre, seq![s[j]], target);
    lemma_flat_sites_append(pre, post, target);
    let single = seq![s[j]];
    assert(single.drop_last() =~= Seq::<FullType>::empty());
    assert(single.last() == s[j]);
    assert(flat_sites(single.drop_last(), target) =~= Seq::<(UseKey, int)>::empty());
    let kp = flat_sites(pre, target);
    let kj = in_type_of(type_sites(s[j], 0, target));
    let kq = flat_sites(post, target);
    assert(flat_sites(single, target) =~= kj);
    vstd::seq_lib::lemma_multiset_commutative(kp + kj, kq);
    vstd::seq_lib::lemma_multiset_commutative(kp, kj);
    vstd::seq_lib::lemma_multiset_commutative(kp, kq);
    broadcast use vstd::multiset::group_multiset_axioms;

    assert(flat_sites(s, target).to_multiset() =~= flat_sites(s.remove(j), target).to_multiset().add(
        kj.to_multiset(),
    ));
}

proof fn lemma_flat_sites_permutation(a: Seq<FullType>, b: Seq<FullType>, target: Seq<char>)
    requires
        a.to_multiset() == b.to_multiset(),
    ensures
        flat_sites(a, target).to_multiset() == flat_sites(b, target).to_multiset(),
    decreases a.len(),
{
    broadcast use vstd::seq_lib::group_to_multiset_ensures;
    broadcast use vstd::multiset::group_multiset_axioms;

    if a.len() == 0 {
        assert(a.to_multiset().len() == 0);
        assert(b.to_multiset().len() == 0);
        assert(b =~= Seq::<FullType>::empty());
    } else {
        let x = a.last();
        let a1 = a.drop_last();
        assert(a1.push(x) =~= a);
        assert(a.to_multiset().count(x) > 0);
        assert(b.contains(x));
        let j = choose|j: int| 0 <= j < b.len() && b[j] == x;
        let b1 = b.remove(j);
        assert(a1.to_multiset() =~= a.to_multiset().remove(x));
        assert(b1.to_multiset() =~= b.to_multiset().remove(x));
        lemma_flat_sites_permutation(a1, b1, target);
        lemma_flat_sites_remove(b, j, target);
        vstd::seq_lib::lemma_multiset_commutative(
            flat_sites(a1, target),
            in_type_of(type_sites(x, 0, target)),
        );
    }
}

proof fn lemma_in_type_of_permutation(a: Seq<UseSite>, b: Seq<UseSite>)
    requires
        a.to_multiset() == b.to_multiset(),
    ensures
        in_type_of(a).to_multiset() == in_type_of(b).to_multiset(),
    decreases a.len(),
{
    broadcast use vstd::seq_lib::group_to_multiset_ensures;
    broadcast use vstd::multiset::group_multiset_axioms;

    if a.len() == 0 {
        assert(a.to_multiset().len() == 0);
        assert(b.to_multiset().len() == 0);
        assert(b =~= Seq::<UseSite>::empty());
        assert(in_type_of(a) =~= in_type_of(b));
    } else {
        let x = a.last();
        let a1 = a.drop_last();
        assert(a1.push(x) =~= a);
        assert(a.to_multiset().count(x) > 0);
        assert(b.contains(x));
        let j = choose|j: int| 0 <= j < b.len() && b[j] == x;
        let b1 = b.remove(j);
        assert(a1.to_multiset() =~= a.to_multiset().remove(x));
        assert(b1.to_multiset() =~= b.to_multiset().remove(x));
        lemma_in_type_of_permutation(a1, b1);
        let fx = site_in_type(x);
        assert(in_type_of(a) =~= in_type_of(a1).push(fx));
        let mb = in_type_of(b);
        assert(mb.remove(j) =~= in_type_of(b1));
        assert(mb[j] == fx);
        mb.to_multiset_ensures();
        assert(mb.to_multiset().count(fx) > 0);
        assert(mb.to_multiset().remove(fx).insert(fx) =~= mb.to_multiset());
        in_type_of(a1).to_multiset_ensures();
    }
}

/// Each site of a list of types names the type at its position.
proof fn lemma_scan_sites_name_their_type(types: Seq<FullType>, target: Seq<char>, x: UseSite)
    requires
        scan_sites(types, target).contains(x),
    ensures
        0 <= x.1 < types.len(),
        types[x.1].name@ == x.0.1,
    decreases types.len(),
{
    let n = types.len() - 1;
    if types.len() > 0 {
        let rest = scan_sites(types.drop_last(), target);
        let t = types.last();
        let ts = type_sites(t, n, target);
        let i = choose|i: int| 0 <= i < (rest + ts).len() && (rest + ts)[i] == x;
        if i < rest.len() {
            assert(rest[i] == x);
            lemma_scan_sites_name_their_type(types.drop_last(), target, x);
        } else {
            assert(ts[i - rest.len()] == x);
            lemma_type_sites_name(t, n, target, x);
        }
    }
}

proof fn lemma_type_sites_name(t: FullType, j: int, target: Seq<char>, x: UseSite)
    requires
        type_sites(t, j, target).contains(x),
    ensures
        x.1 == j,
        x.0.1 == t.name@,
{
    if let Some(fs) = t.fields {
        lemma_field_sites_all(j, t.name@, fs@, target);
    }
    if let Some(ifs) = t.input_fields {
        lemma_input_field_sites_all(j, t.name@, ifs@, target);
    }
    if let Some(ps) = t.possible_types {
        lemma_possible_type_sites_all(j, t.name@, ps@, target);
    }
    let ts = type_sites(t, j, target);
    let i = choose|i: int| 0 <= i < ts.len() && ts[i] == x;
    assert(ts[i] == x);
}

proof fn lemma_field_sites_all(j: int, n: Seq<char>, fs: Seq<Field>, target: Seq<char>)
    ensures
        forall|i: int|
            0 <= i < field_sites(j, n, fs, target).len() ==> (#[trigger] field_sites(
                j,
                n,
                fs,
                target,
            )[i]).1 == j && field_sites(j, n, fs, target)[i].0.1 == n,
    decreases fs.len(),
{
    if fs.len() > 0 {
        lemma_field_sites_all(j, n, fs.drop_last(), target);
        let pre = field_sites(j, n, fs.drop_last(), target);
        let whole = field_sites(j, n, fs, target);
        assert forall|i: int| 0 <= i < whole.len() implies (#[trigger] whole[i]).1 == j
            && whole[i].0.1 == n by {
            if i < pre.len() {
                assert(whole[i] == pre[i]);
            }
        }
    }
}

proof fn lemma_input_field_sites_all(j: int, n: Seq<char>, fs: Seq<InputValue>, target: Seq<char>)
    ensures
        forall|i: int|
            0 <= i < input_field_sites(j, n, fs, target).len() ==> (#[trigger] input_field_sites(
                j,
                n,
                fs,
                target,
            )[i]).1 == j && input_field_sites(j, n, fs, target)[i].0.1 == n,
    decreases fs.len(),
{
    if fs.len() > 0 {
        lemma_input_field_sites_all(j, n, fs.drop_last(), target);
        let pre = input_field_sites(j, n, fs.drop_last(), target);
        let whole = input_field_sites(j, n, fs, target);
        assert forall|i: int| 0 <= i < whole.len() implies (#[trigger] whole[i]).1 == j
            && whole[i].0.1 == n by {
            if i < pre.len() {
                assert(whole[i] == pre[i]);
            }
        }
    }
}

proof fn lemma_possible_type_sites_all(j: int, n: Seq<char>, ps: Seq<TypeRef>, target: Seq<char>)
    ensures
        forall|i: int|
            0 <= i < possible_type_sites(j, n, ps, target).len() ==> (#[trigger] possible_type_sites(
                j,
                n,
                ps,
                target,
            )[i]).1 == j && possible_type_sites(j, n, ps, target)[i].0.1 == n,
    decreases ps.len(),
{
    if ps.len() > 0 {
        lemma_possible_type_sites_all(j, n, ps.drop_last(), target);
        let pre = possible_type_sites(j, n, ps.drop_last(), target);
        let whole = possible_type_sites(j, n, ps, target);
        assert forall|i: int| 0 <= i < whole.len() implies (#[trigger] whole[i]).1 == j
            && whole[i].0.1 == n by {
            if i < pre.len() {
                assert(whole[i] == pre[i]);
            }
        }
    }
}

/// No two types of the list share a name.
pub open spec fn names_unique(types: Seq<FullType>) -> bool {
    forall|i: int, j: int|
        0 <= i < types.len() && 0 <= j < types.len() && i != j ==> #[trigger] types[i].name@
            != #[trigger] types[j].name@
}

/// The order of sites without type positions: by key, then by member
/// position.
spec fn in_type_le(a: (UseKey, int), b: (UseKey, int)) -> bool {
    ||| key_le(a.0, b.0) && !key_le(b.0, a.0)
    ||| a.0 == b.0 && a.1 <= b.1
}

/// `in_type_le` as a relation.
spec fn in_type_order() -> spec_fn((UseKey, int), (UseKey, int)) -> bool {
    |a: (UseKey, int), b: (UseKey, int)| in_type_le(a, b)
}

proof fn lemma_in_type_order_total()
    ensures
        total_ordering(in_type_order()),
{
    lemma_key_le_order();
}

/// With unique type names, the located sites without type positions are
/// sorted by `in_type_le`.
proof fn lemma_located_in_type_sorted(types: Seq<FullType>, target: Seq<char>)
    requires
        names_unique(types),
    ensures
        sorted_by(in_type_of(located_uses(types, target)), in_type_order()),
        in_type_of(located_uses(types, target)).to_multiset() == flat_sites(types, target).to_multiset(),
{
    broadcast use vstd::seq_lib::group_to_multiset_ensures;

    let ss = scan_sites(types, target);
    let ls = located_uses(types, target);
    lemma_site_order_total();
    lemma_site_le_order();
    ss.lemma_sort_by_ensures(site_order());
    assert forall|a: int, b: int| 0 <= a < b < ls.len() implies #[trigger] in_type_order()(
        in_type_of(ls)[a],
        in_type_of(ls)[b],
    ) by {
        assert(site_order()(ls[a], ls[b]));
        assert(ls.to_multiset().count(ls[a]) > 0);
        assert(ls.to_multiset().count(ls[b]) > 0);
        assert(ss.contains(ls[a]));
        assert(ss.contains(ls[b]));
        lemma_scan_sites_name_their_type(types, target, ls[a]);
        lemma_scan_sites_name_their_type(types, target, ls[b]);
        if ls[a].0 == ls[b].0 {
            assert(ls[a].1 == ls[b].1);
        }
    }
    lemma_in_type_of_permutation(ls, ss);
    lemma_scan_sites_flat(types, target);
}

/// The uses of a type do not depend on the order in which a schema with
/// unique type names lists its types: two such type lists holding the same
/// types give the same uses, element by element, referencing types and
/// fields included.
pub proof fn lemma_uses_values_independent_of_type_order<'a>(
    a: Seq<FullType>,
    b: Seq<FullType>,
    target: Seq<char>,
    ra: Seq<TypeUse<'a>>,
    rb: Seq<TypeUse<'a>>,
)
    requires
        a.to_multiset() == b.to_multiset(),
        names_unique(a),
        names_unique(b),
        ra.len() == located_uses(a, target).len(),
        forall|k: int| 0 <= k < ra.len() ==> use_at(#[trigger] ra[k], a, located_uses(a, target)[k]),
        rb.len() == located_uses(b, target).len(),
        forall|k: int| 0 <= k < rb.len() ==> use_at(#[trigger] rb[k], b, located_uses(b, target)[k]),
    ensures
        ra == rb,
{
    broadcast use vstd::seq_lib::group_to_multiset_ensures;

    let la = located_uses(a, target);
    let lb = located_uses(b, target);
    lemma_located_in_type_sorted(a, target);
    lemma_located_in_type_sorted(b, target);
    lemma_flat_sites_permutation(a, b, target);
    lemma_in_type_order_total();
    vstd::seq_lib::lemma_sorted_unique(in_type_of(la), in_type_of(lb), in_type_order());
    assert(la.len() == in_type_of(la).len());
    lemma_site_order_total();
    scan_sites(a, target).lemma_sort_by_ensures(site_order());
    scan_sites(b, target).lemma_sort_by_ensures(site_order());
    assert forall|k: int| 0 <= k < ra.len() implies ra[k] == rb[k] by {
        assert(in_type_of(la)[k] == in_type_of(lb)[k]);
        assert(la.to_multiset().count(la[k]) > 0);
        assert(lb.to_multiset().count(lb[k]) > 0);
        assert(scan_sites(a, target).contains(la[k]));
        assert(scan_sites(b, target).contains(lb[k]));
        lemma_scan_sites_name_their_type(a, target, la[k]);
        lemma_scan_sites_name_their_type(b, target, lb[k]);
        let ta = a[la[k].1];
        let tb = b[lb[k].1];
        assert(b.to_multiset().count(tb) > 0);
        assert(a.contains(tb));
        let p = choose|p: int| 0 <= p < a.len() && a[p] == tb;
        assert(a[p].name@ == a[la[k].1].name@);
        assert(p == la[k].1);
        assert(use_at(ra[k], a, la[k]));
        assert(use_at(rb[k], b, lb[k]));
    }
    assert(ra =~= rb);
}

impl Schema {
    /// Whether the field's result type, or the type of one of its arguments,
    /// names `full_type`.
    fn field_is_use(&self, full_type: &FullType, field: &Field) -> (r: bool)
        ensures
            r == field_uses(*field, full_type.name@),
    {
        if self.is_use(full_type, &field.typ) {
            return true;
        }
        let mut k: usize = 0;
        while k < field.args.len()
            invariant
                k <= field.args@.len(),
                forall|m: int| 0 <= m < k ==> !refers_to(#[trigger] field.args@[m].typ, full_type.name@),
            decreases field.args@.len() - k,
        {
            if self.is_use(full_type, &field.args[k].typ) {
                return true;
            }
            k = k + 1;
        }
        false
    }


    fn push_field_uses<'a>(
        &'a self,
        full_type: &FullType,
        j: usize,
        typ: &'a FullType,
        fields: &'a Vec<Field>,
        entries: &mut Vec<Entry<'a>>,
    )
        requires
            j < self.types@.len(),
            *typ == self.types@[j as int],
            typ.fields == Some(*fields),
            entries_at(old(entries)@, self.types@),
        ensures
            entries_at(final(entries)@, self.types@),
            entry_keys(final(entries)@) == entry_keys(old(entries)@) + field_keys(
                typ.name@,
                fields@,
                full_type.name@,
            ),
            sites_of(final(entries)@) == sites_of(old(entries)@) + field_sites(
                j as int,
                typ.name@,
                fields@,
                full_type.name@,
            ),
    {
        let ghost start_keys = entry_keys(entries@);
        let ghost start_sites = sites_of(entries@);
        let mut m: usize = 0;
        while m < fields.len()
            invariant
                j < self.types@.len(),
                *typ == self.types@[j as int],
                typ.fields == Some(*fields),
                m <= fields@.len(),
                entries_at(entries@, self.types@),
                entry_keys(entries@) == start_keys + field_keys(
                    typ.name@,
                    fields@.take(m as int),
                    full_type.name@,
                ),
                sites_of(entries@) == start_sites + field_sites(
                    j as int,
                    typ.name@,
                    fields@.take(m as int),
                    full_type.name@,
                ),
            decreases fields@.len() - m,
        {
            let item = &fields[m];
            let e: Entry<'a> = (TypeUse::Field { typ, field: item }, j, m);
            proof {
                assert(fields@.take(m + 1).drop_last() =~= fields@.take(m as int));
                assert(fields@.take(m + 1).last() == *item);
                lemma_entries_push(entries@, e);
            }
            if self.field_is_use(full_type, item) {
                let ghost before = entries@;
                entries.push(e);
                proof {
                    assert(use_at(e.0, self.types@, site_of(e)));
                    assert forall|k: int| 0 <= k < entries@.len() implies use_at(
                        #[trigger] entries@[k].0,
                        self.types@,
                        site_of(entries@[k]),
                    ) by {
                        if k < before.len() {
                            assert(entries@[k] == before[k]);
                        }
                    }
                }
            }
            m = m + 1;
        }
        proof {
            assert(fields@.take(fields@.len() as int) =~= fields@);
        }
    }

    fn push_input_field_uses<'a>(
        &'a self,
        full_type: &FullType,
        j: usize,
        typ: &'a FullType,
        input_fields: &'a Vec<InputValue>,
        entries: &mut Vec<Entry<'a>>,
    )
        requires
            j < self.types@.len(),
            *typ == self.types@[j as int],
            typ.input_fields == Some(*input_fields),
            entries_at(old(entries)@, self.types@),
        ensures
            entries_at(final(entries)@, self.types@),
            entry_keys(final(entries)@) == entry_keys(old(entries)@) + input_field_keys(
                typ.name@,
                input_fields@,
                full_type.name@,
            ),
            sites_of(final(entries)@) == sites_of(old(entries)@) + input_field_sites(
                j as int,
                typ.name@,
                input_fields@,
                full_type.name@,
            ),
    {
        let ghost start_keys = entry_keys(entries@);
        let ghost start_sites = sites_of(entries@);
        let mut m: usize = 0;
        while m < input_fields.len()
            invariant
                j < self.types@.len(),
                *typ == self.types@[j as int],
                typ.input_fields == Some(*input_fields),
                m <= input_fields@.len(),
                entries_at(entries@, self.types@),
                entry_keys(entries@) == start_keys + input_field_keys(
                    typ.name@,
                    input_fields@.take(m as int),
                    full_type.name@,
                ),
                sites_of(entries@) == start_sites + input_field_sites(
                    j as int,
                    typ.name@,
                    input_fields@.take(m as int),
                    full_type.name@,
                ),
            decreases input_fields@.len() - m,
        {
            let item = &input_fields[m];
            let e: Entry<'a> = (TypeUse::InputField { typ, input_field: item }, j, m);
            proof {
                assert(input_fields@.take(m + 1).drop_last() =~= input_fields@.take(m as int));
                assert(input_fields@.take(m + 1).last() == *item);
                lemma_entries_push(entries@, e);
            }
            if self.is_use(full_type, &item.typ) {
                let ghost before = entries@;
                entries.push(e);
                proof {
                    assert(use_at(e.0, self.types@, site_of(e)));
                    assert forall|k: int| 0 <= k < entries@.len() implies use_at(
                        #[trigger] entries@[k].0,
                        self.types@,
                        site_of(entries@[k]),
                    ) by {
                        if k < before.len() {
                            assert(entries@[k] == before[k]);
                        }
                    }
                }
            }
            m = m + 1;
        }
        proof {
            assert(input_fields@.take(input_fields@.len() as int) =~= input_fields@);
        }
    }

    fn push_possible_type_uses<'a>(
        &'a self,
        full_type: &FullType,
        j: usize,
        typ: &'a FullType,
        possible_types: &'a Vec<TypeRef>,
        entries: &mut Vec<Entry<'a>>,
    )
        requires
            j < self.types@.len(),
            *typ == self.types@[j as int],
            typ.possible_types == Some(*possible_types),
            entries_at(old(entries)@, self.types@),
        ensures
            entries_at(final(entries)@, self.types@),
            entry_keys(final(entries)@) == entry_keys(old(entries)@) + possible_type_keys(
                typ.name@,
                possible_types@,
                full_type.name@,
            ),
            sites_of(final(entries)@) == sites_of(old(entries)@) + possible_type_sites(
                j as int,
                typ.name@,
                possible_types@,
                full_type.name@,
            ),
    {
        let ghost start_keys = entry_keys(entries@);
        let ghost start_sites = sites_of(entries@);
        let mut m: usize = 0;
        while m < possible_types.len()
            invariant
                j < self.types@.len(),
                *typ == self.types@[j as int],
                typ.possible_types == Some(*possible_types),
                m <= possible_types@.len(),
                entries_at(entries@, self.types@),
                entry_keys(entries@) == start_keys + possible_type_keys(
                    typ.name@,
                    possible_types@.take(m as int),
                    full_type.name@,
                ),
                sites_of(entries@) == start_sites + possible_type_sites(
                    j as int,
                    typ.name@,
                    possible_types@.take(m as int),
                    full_type.name@,
                ),
            decreases possible_types@.len() - m,
        {
            let item = &possible_types[m];
            let e: Entry<'a> = (TypeUse::PossibleType { typ }, j, m);
            proof {
                assert(possible_types@.take(m + 1).drop_last() =~= possible_types@.take(m as int));
                assert(possible_types@.take(m + 1).last() == *item);
                lemma_entries_push(entries@, e);
            }
            if self.is_use(full_type, item) {
                let ghost before = entries@;
                entries.push(e);
                proof {
                    assert(use_at(e.0, self.types@, site_of(e)));
                    assert forall|k: int| 0 <= k < entries@.len() implies use_at(
                        #[trigger] entries@[k].0,
                        self.types@,
                        site_of(entries@[k]),
                    ) by {
                        if k < before.len() {
                            assert(entries@[k] == before[k]);
                        }
                    }
                }
            }
            m = m + 1;
        }
        proof {
            assert(possible_types@.take(possible_types@.len() as int) =~= possible_types@);
        }
    }

    /// Every place in the schema that uses `full_type`: one use per field
    /// whose result type or some argument names it, one per input field of
    /// that type, one per possible-type entry naming it. They are ordered by
    /// variant, referencing type name and member name, and uses with equal
    /// keys keep the order in which the schema lists them. Each use carries
    /// the referencing type and field or input field themselves.
    pub fn find_uses<'a>(&'a self, full_type: &FullType) -> (r: Vec<TypeUse<'a>>)
        ensures
            keys_of(r@) == sorted_uses(self.types@, full_type.name@),
            r@.len() == located_uses(self.types@, full_type.name@).len(),
            forall|k: int|
                0 <= k < r@.len() ==> use_at(
                    #[trigger] r@[k],
                    self.types@,
                    located_uses(self.types@, full_type.name@)[k],
                ),
    {
        let mut entries: Vec<Entry<'a>> = Vec::new();
        let mut i: usize = 0;
        while i < self.types.len()
            invariant
                i <= self.types@.len(),
                entries_at(entries@, self.types@),
                entry_keys(entries@) == scan_keys(self.types@.take(i as int), full_type.name@),
                sites_of(entries@) == scan_sites(self.types@.take(i as int), full_type.name@),
            decreases self.types@.len() - i,
        {
            let typ = &self.types[i];
            let ghost before_keys = entry_keys(entries@);
            let ghost before_sites = sites_of(entries@);
            if let Some(fields) = &typ.fields {
                self.push_field_uses(full_type, i, typ, fields, &mut entries);
            }
            if let Some(input_fields) = &typ.input_fields {
                self.push_input_field_uses(full_type, i, typ, input_fields, &mut entries);
            }
            if let Some(possible_types) = &typ.possible_types {
                self.push_possible_type_uses(full_type, i, typ, possible_types, &mut entries);
            }
            proof {
                let prefix = self.types@.take(i + 1);
                assert(prefix.drop_last() =~= self.types@.take(i as int));
                assert(prefix.last() == *typ);
                assert(prefix.len() - 1 == i);
                assert(entry_keys(entries@) =~= before_keys + type_keys(*typ, full_type.name@));
                assert(sites_of(entries@) =~= before_sites + type_sites(*typ, i as int, full_type.name@));
            }
            i = i + 1;
        }
        proof {
            assert(self.types@.take(self.types@.len() as int) =~= self.types@);
        }
        let ghost scanned = entries@;
        let sorted = sort_entries(entries);
        let mut r: Vec<TypeUse<'a>> = Vec::new();
        let mut k: usize = 0;
        while k < sorted.len()
            invariant
                k <= sorted@.len(),
                r@.len() == k,
                forall|q: int| 0 <= q < k ==> r@[q] == #[trigger] sorted@[q].0,
            decreases sorted@.len() - k,
        {
            r.push(sorted[k].0);
            k = k + 1;
        }
        proof {
            let target = full_type.name@;
            lemma_site_order_total();
            lemma_site_le_order();
            lemma_use_order_total();
            let ss = scan_sites(self.types@, target);
            ss.lemma_sort_by_ensures(site_order());
            vstd::seq_lib::lemma_sorted_unique(sites_of(sorted@), ss.sort_by(site_order()), site_order());
            let ks = entry_keys(sorted@);
            assert forall|a: int, b: int| 0 <= a < b < ks.len() implies #[trigger] use_order()(
                ks[a],
                ks[b],
            ) by {
                assert(site_order()(sites_of(sorted@)[a], sites_of(sorted@)[b]));
            }
            scan_keys(self.types@, target).lemma_sort_by_ensures(use_order());
            vstd::seq_lib::lemma_sorted_unique(ks, scan_keys(self.types@, target).sort_by(use_order()), use_order());
            assert(keys_of(r@) =~= ks);
            assert forall|q: int| 0 <= q < r@.len() implies use_at(
                #[trigger] r@[q],
                self.types@,
                located_uses(self.types@, target)[q],
            ) by {
                assert(r@[q] == sorted@[q].0);
                assert(scanned.contains(sorted@[q]));
                let p = choose|p: int| 0 <= p < scanned.len() && scanned[p] == sorted@[q];
                assert(use_at(scanned[p].0, self.types@, site_of(scanned[p])));
                assert(sites_of(sorted@)[q] == site_of(sorted@[q]));
            }
        }
        r
    }
}

} // verus!
