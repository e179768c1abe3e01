//! The entity model: identities, attribute values, entities, and the
//! entity graph, together with the generic claim-to-attribute conversion
//! and the graph merge.
//!
//! Attribute values are restricted to the engine's value model: literals
//! (boolean, long, string, fixed-point decimal), sets, records, and
//! entity references.  Arbitrary nested structures are not representable
//! and are rejected or dropped by the conversions, never coerced.

use vstd::prelude::*;
use crate::json::{json_seq_view, json_view, JsonVal, JsonValV};

verus! {

/// The identity of an entity: a type tag and a string id, globally
/// unique within one entity graph.
#[derive(Debug, PartialEq, Eq)]
pub struct EntityIdent {
    pub etype: String,
    pub eid: String,
}

/// The mathematical view of an [`EntityIdent`].
pub struct EntityIdentV {
    pub etype: Seq<char>,
    pub eid: Seq<char>,
}

impl View for EntityIdent {
    type V = EntityIdentV;

    open spec fn view(&self) -> EntityIdentV {
        EntityIdentV { etype: self.etype@, eid: self.eid@ }
    }
}

impl EntityIdent {
    /// Builds the identity `(etype, eid)`.
    pub fn of(etype: &str, eid: &str) -> (r: Self)
        ensures
            r@ == (EntityIdentV { etype: etype@, eid: eid@ }),
    {
        EntityIdent { etype: etype.to_owned(), eid: eid.to_owned() }
    }

    /// A copy of this identity.
    pub fn duplicate(&self) -> (r: Self)
        ensures
            r@ == self@,
    {
        EntityIdent { etype: self.etype.clone(), eid: self.eid.clone() }
    }

    /// Whether two identities are the same.
    pub fn same_as(&self, other: &Self) -> (r: bool)
        ensures
            r == (self@ == other@),
    {
        let r = self.etype == other.etype && self.eid == other.eid;
        proof {
            if self@.etype == other@.etype && self@.eid == other@.eid {
                assert(self@ == other@);
            }
        }
        r
    }
}

/// An attribute value in the engine's value model.
#[derive(Debug, PartialEq, Eq)]
pub enum AttrValue {
    BoolVal(bool),
    LongVal(i64),
    StrVal(String),
    /// A fixed-point decimal, kept as its source text.
    DecimalVal(String),
    SetVal(Vec<AttrValue>),
    RecordVal(Vec<(String, AttrValue)>),
    EntityRef(EntityIdent),
}

/// The mathematical view of an [`AttrValue`].
pub enum AttrValueV {
    BoolVal(bool),
    LongVal(int),
    StrVal(Seq<char>),
    DecimalVal(Seq<char>),
    SetVal(Seq<AttrValueV>),
    RecordVal(Seq<(Seq<char>, AttrValueV)>),
    EntityRef(EntityIdentV),
}

/// The view of a sequence of attribute values, element by element.
pub open spec fn attr_seq_view(s: Seq<AttrValue>) -> Seq<AttrValueV>
    decreases s,
{
    if s.len() == 0 {
        Seq::empty()
    } else {
        seq![attr_view(s[0])] + attr_seq_view(s.drop_first())
    }
}

/// The view of a sequence of named attribute values, pair by pair.
pub open spec fn attr_map_view(s: Seq<(String, AttrValue)>) -> Seq<(Seq<char>, AttrValueV)>
    decreases s,
{
    if s.len() == 0 {
        Seq::empty()
    } else {
        seq![(s[0].0@, attr_view(s[0].1))] + attr_map_view(s.drop_first())
    }
}

/// The view of a single attribute value.
pub open spec fn attr_view(a: AttrValue) -> AttrValueV
    decreases a,
{
    match a {
        AttrValue::BoolVal(b) => AttrValueV::BoolVal(b),
        AttrValue::LongVal(i) => AttrValueV::LongVal(i as int),
        AttrValue::StrVal(s) => AttrValueV::StrVal(s@),
        AttrValue::DecimalVal(s) => AttrValueV::DecimalVal(s@),
        AttrValue::SetVal(items) => AttrValueV::SetVal(attr_seq_view(items@)),
        AttrValue::RecordVal(members) => AttrValueV::RecordVal(attr_map_view(members@)),
        AttrValue::EntityRef(u) => AttrValueV::EntityRef(u@),
    }
}

impl View for AttrValue {
    type V = AttrValueV;

    open spec fn view(&self) -> AttrValueV {
        attr_view(*self)
    }
}

pub proof fn lemma_attr_seq_view(s: Seq<AttrValue>)
    ensures
        attr_seq_view(s).len() == s.len(),
        forall|i: int| 0 <= i < s.len() ==> attr_seq_view(s)[i] == attr_view(s[i]),
    decreases s,
{
    if s.len() > 0 {
        lemma_attr_seq_view(s.drop_first());
    }
}

pub proof fn lemma_attr_map_view(s: Seq<(String, AttrValue)>)
    ensures
        attr_map_view(s).len() == s.len(),
        forall|i: int|
            0 <= i < s.len() ==> attr_map_view(s)[i] == (s[i].0@, attr_view(s[i].1)),
    decreases s,
{
    if s.len() > 0 {
        lemma_attr_map_view(s.drop_first());
    }
}

/// An entity: an identity, an attribute mapping, and the identities of
/// its parents in the hierarchy.
#[derive(Debug, PartialEq, Eq)]
pub struct Entity {
    pub uid: EntityIdent,
    pub attrs: Vec<(String, AttrValue)>,
    pub parents: Vec<EntityIdent>,
}

/// The mathematical view of an [`Entity`].
pub struct EntityV {
    pub uid: EntityIdentV,
    pub attrs: Seq<(Seq<char>, AttrValueV)>,
    pub parents: Seq<EntityIdentV>,
}

impl View for Entity {
    type V = EntityV;

    open spec fn view(&self) -> EntityV {
        EntityV {
            uid: self.uid@,
            attrs: attr_map_view(self.attrs@),
            parents: self.parents@.map_values(|p: EntityIdent| p@),
        }
    }
}

pub proof fn lemma_attr_seq_view_push(s: Seq<AttrValue>, a: AttrValue)
    ensures
        attr_seq_view(s.push(a)) == attr_seq_view(s) + seq![attr_view(a)],
{
    lemma_attr_seq_view(s.push(a));
    lemma_attr_seq_view(s);
    assert(attr_seq_view(s.push(a)) =~= attr_seq_view(s) + seq![attr_view(a)]);
}

pub proof fn lemma_attr_map_view_push(s: Seq<(String, AttrValue)>, m: (String, AttrValue))
    ensures
        attr_map_view(s.push(m)) == attr_map_view(s) + seq![(m.0@, attr_view(m.1))],
{
    lemma_attr_map_view(s.push(m));
    lemma_attr_map_view(s);
    assert(attr_map_view(s.push(m)) =~= attr_map_view(s) + seq![(m.0@, attr_view(m.1))]);
}

/// The generic claim conversion: a total function from a JSON value to a
/// representable attribute value, or nothing.  It is partial and lossy
/// by design: `null` and nested objects are omitted entirely, and the
/// elements of an array that cannot be converted are dropped from the
/// resulting set.
pub open spec fn attr_of_json(v: JsonValV) -> Option<AttrValueV>
    decreases v,
{
    match v {
        JsonValV::Null => None,
        JsonValV::Bool(b) => Some(AttrValueV::BoolVal(b)),
        JsonValV::Int(i) => Some(AttrValueV::LongVal(i)),
        JsonValV::Dec(s) => Some(AttrValueV::DecimalVal(s)),
        JsonValV::Str(s) => Some(AttrValueV::StrVal(s)),
        JsonValV::Arr(items) => Some(AttrValueV::SetVal(attrs_of_json_seq(items))),
        JsonValV::Obj(_) => None,
    }
}

/// The claim conversion applied element-wise to an array, dropping the
/// elements that do not convert.
pub open spec fn attrs_of_json_seq(items: Seq<JsonValV>) -> Seq<AttrValueV>
    decreases items,
{
    if items.len() == 0 {
        Seq::empty()
    } else {
        match attr_of_json(items[0]) {
            Some(a) => seq![a] + attrs_of_json_seq(items.drop_first()),
            None => attrs_of_json_seq(items.drop_first()),
        }
    }
}

pub proof fn lemma_attrs_of_json_seq_concat(a: Seq<JsonValV>, b: Seq<JsonValV>)
    ensures
        attrs_of_json_seq(a + b) == attrs_of_json_seq(a) + attrs_of_json_seq(b),
    decreases a,
{
    if a.len() == 0 {
        assert(a + b =~= b);
        assert(attrs_of_json_seq(a) + attrs_of_json_seq(b) =~= attrs_of_json_seq(b));
    } else {
        assert((a + b).drop_first() =~= a.drop_first() + b);
        lemma_attrs_of_json_seq_concat(a.drop_first(), b);
        assert((a + b)[0] == a[0]);
        match attr_of_json(a[0]) {
            Some(x) => {
                assert(seq![x] + (attrs_of_json_seq(a.drop_first()) + attrs_of_json_seq(b))
                    =~= (seq![x] + attrs_of_json_seq(a.drop_first())) + attrs_of_json_seq(b));
            },
            None => {},
        }
    }
}

pub proof fn lemma_attrs_of_json_single(x: JsonValV)
    ensures
        attr_of_json(x) matches Some(a) ==> attrs_of_json_seq(seq![x]) == seq![a],
        attr_of_json(x) is None ==> attrs_of_json_seq(seq![x]) == Seq::<AttrValueV>::empty(),
{
    reveal_with_fuel(attrs_of_json_seq, 2);
    assert(seq![x].drop_first() =~= Seq::<JsonValV>::empty());
    assert(seq![x][0] == x);
    match attr_of_json(x) {
        Some(a) => {
            assert(attrs_of_json_seq(seq![x]) =~= seq![a]);
        },
        None => {},
    }
}

/// Converts a JSON value into a representable attribute value, or
/// nothing, exactly as [`attr_of_json`] says.
pub fn attr_from_json(v: &JsonVal) -> (r: Option<AttrValue>)
    ensures
        r matches Some(a) ==> attr_of_json(json_view(*v)) == Some(a@),
        r is None <==> attr_of_json(json_view(*v)) is None,
    decreases *v,
{
    match v {
        JsonVal::Null => None,
        JsonVal::Bool(b) => Some(AttrValue::BoolVal(*b)),
        JsonVal::Int(i) => Some(AttrValue::LongVal(*i)),
        JsonVal::Dec(s) => Some(AttrValue::DecimalVal(s.clone())),
        JsonVal::Str(s) => Some(AttrValue::StrVal(s.clone())),
        JsonVal::Obj(_) => None,
        JsonVal::Arr(items) => {
            proof {
                crate::json::lemma_json_seq_view(items@);
            }
            let ghost itemsv = json_seq_view(items@);
            let mut out: Vec<AttrValue> = Vec::new();
            let mut idx: usize = 0;
            while idx < items.len()
                invariant
                    idx <= items.len(),
                    *v == JsonVal::Arr(*items),
                    itemsv == json_seq_view(items@),
                    itemsv.len() == items@.len(),
                    forall|i: int| 0 <= i < items@.len() ==> itemsv[i] == json_view(items@[i]),
                    attr_seq_view(out@) == attrs_of_json_seq(itemsv.take(idx as int)),
                decreases items.len() - idx,
            {
                let ghost prefix = itemsv.take(idx as int);
                proof {
                    assert(decreases_to!(*v => items@[idx as int])) by {
                        assert(decreases_to!(*v => v->Arr_0));
                        assert(v->Arr_0 == *items);
                        assert(decreases_to!(*items => items@));
                        assert(decreases_to!(items@ => items@[idx as int]));
                    }
                }
                match attr_from_json(&items[idx]) {
                    Some(a) => {
                        proof {
                            lemma_attr_seq_view_push(out@, a);
                        }
                        out.push(a);
                    },
                    None => (),
                }
                proof {
                    assert(itemsv.take(idx + 1) =~= prefix + seq![itemsv[idx as int]]);
                    lemma_attrs_of_json_seq_concat(prefix, seq![itemsv[idx as int]]);
                    lemma_attrs_of_json_single(itemsv[idx as int]);
                    if attr_of_json(itemsv[idx as int]) is None {
                        assert(attrs_of_json_seq(itemsv.take(idx + 1))
                            =~= attrs_of_json_seq(prefix));
                    }
                }
                idx += 1;
            }
            proof {
                assert(itemsv.take(items@.len() as int) =~= itemsv);
            }
            Some(AttrValue::SetVal(out))
        },
    }
}

impl AttrValue {
    /// A deep copy of this attribute value.
    pub fn duplicate(&self) -> (r: Self)
        ensures
            r@ == self@,
        decreases *self,
    {
        match self {
            AttrValue::BoolVal(b) => AttrValue::BoolVal(*b),
            AttrValue::LongVal(i) => AttrValue::LongVal(*i),
            AttrValue::StrVal(s) => AttrValue::StrVal(s.clone()),
            AttrValue::DecimalVal(s) => AttrValue::DecimalVal(s.clone()),
            AttrValue::EntityRef(u) => AttrValue::EntityRef(u.duplicate()),
            AttrValue::SetVal(items) => {
                let mut out: Vec<AttrValue> = Vec::new();
                let mut idx: usize = 0;
                while idx < items.len()
                    invariant
                        *self == AttrValue::SetVal(*items),
                        idx <= items.len(),
                        out@.len() == idx,
                        forall|i: int| 0 <= i < idx ==> attr_view(out@[i]) == attr_view(items@[i]),
                    decreases items.len() - idx,
                {
                    proof {
                        assert(decreases_to!(*self => items@[idx as int])) by {
                            assert(decreases_to!(*self => self->SetVal_0));
                            assert(decreases_to!(*items => items@));
                            assert(decreases_to!(items@ => items@[idx as int]));
                        }
                    }
                    let d = items[idx].duplicate();
                    out.push(d);
                    idx += 1;
                }
                proof {
                    lemma_attr_seq_view(out@);
                    lemma_attr_seq_view(items@);
                    assert(attr_seq_view(out@) =~= attr_seq_view(items@));
                }
                AttrValue::SetVal(out)
            },
            AttrValue::RecordVal(members) => {
                let mut out: Vec<(String, AttrValue)> = Vec::new();
                let mut idx: usize = 0;
                while idx < members.len()
                    invariant
                        *self == AttrValue::RecordVal(*members),
                        idx <= members.len(),
                        out@.len() == idx,
                        forall|i: int|
                            0 <= i < idx ==> out@[i].0@ == members@[i].0@
                                && attr_view(out@[i].1) == attr_view(members@[i].1),
                    decreases members.len() - idx,
                {
                    proof {
                        assert(decreases_to!(*self => members@[idx as int].1)) by {
                            assert(decreases_to!(*self => self->RecordVal_0));
                            assert(decreases_to!(*members => members@));
                            assert(decreases_to!(members@ => members@[idx as int]));
                        }
                    }
                    let k = members[idx].0.clone();
                    let d = members[idx].1.duplicate();
                    out.push((k, d));
                    idx += 1;
                }
                proof {
                    lemma_attr_map_view(out@);
                    lemma_attr_map_view(members@);
                    assert(attr_map_view(out@) =~= attr_map_view(members@));
                }
                AttrValue::RecordVal(out)
            },
        }
    }
}

/// Copies a vector of named attribute values, pair by pair.
pub(crate) fn duplicate_attrs(attrs: &Vec<(String, AttrValue)>) -> (r: Vec<(String, AttrValue)>)
    ensures
        attr_map_view(r@) == attr_map_view(attrs@),
{
    let mut out: Vec<(String, AttrValue)> = Vec::new();
    let mut idx: usize = 0;
    while idx < attrs.len()
        invariant
            idx <= attrs.len(),
            out@.len() == idx,
            forall|i: int|
                0 <= i < idx ==> out@[i].0@ == attrs@[i].0@
                    && attr_view(out@[i].1) == attr_view(attrs@[i].1),
        decreases attrs.len() - idx,
    {
        let k = attrs[idx].0.clone();
        let d = attrs[idx].1.duplicate();
        out.push((k, d));
        idx += 1;
    }
    proof {
        lemma_attr_map_view(out@);
        lemma_attr_map_view(attrs@);
        assert(attr_map_view(out@) =~= attr_map_view(attrs@));
    }
    out
}

impl Entity {
    /// A deep copy of this entity.
    pub fn duplicate(&self) -> (r: Self)
        ensures
            r@ == self@,
    {
        let uid = self.uid.duplicate();
        let attrs = duplicate_attrs(&self.attrs);
        let mut parents: Vec<EntityIdent> = Vec::new();
        let mut idx: usize = 0;
        while idx < self.parents.len()
            invariant
                idx <= self.parents.len(),
                parents@.len() == idx,
                forall|i: int| 0 <= i < idx ==> parents@[i]@ == self.parents@[i]@,
            decreases self.parents.len() - idx,
        {
            let p = self.parents[idx].duplicate();
            parents.push(p);
            idx += 1;
        }
        let r = Entity { uid, attrs, parents };
        proof {
            assert(r@.parents =~= self@.parents);
        }
        r
    }
}

/// The view of a sequence of entities, element by element.
pub open spec fn ents_view(s: Seq<Entity>) -> Seq<EntityV> {
    s.map_values(|e: Entity| e@)
}

/// An entity graph: a set of entities keyed by identity.
#[derive(Debug)]
pub struct EntityGraph {
    pub entities: Vec<Entity>,
}

impl View for EntityGraph {
    type V = Seq<EntityV>;

    open spec fn view(&self) -> Seq<EntityV> {
        ents_view(self.entities@)
    }
}

/// Whether some entity in `g` has the identity `uid`.
pub open spec fn has_uid(g: Seq<EntityV>, uid: EntityIdentV) -> bool {
    exists|i: int| 0 <= i < g.len() && g[i].uid == uid
}

/// Whether the identities in `g` are pairwise distinct.
pub open spec fn uids_distinct(g: Seq<EntityV>) -> bool {
    forall|i: int, j: int| 0 <= i < j < g.len() ==> g[i].uid != g[j].uid
}

/// Whether adding `add` to `base` would collide: some added identity
/// already occurs in `base`, or occurs twice within `add` itself.
pub open spec fn merge_collision(base: Seq<EntityV>, add: Seq<EntityV>) -> bool {
    (exists|i: int| 0 <= i < add.len() && has_uid(base, add[i].uid)) || !uids_distinct(add)
}

/// An identity collision found while merging entity graphs; carries
/// one colliding identity.
#[derive(Debug)]
pub struct EntitiesMergeError {
    pub uid: EntityIdent,
}

/// Whether some entity in `list` has the identity `uid`.
fn list_has_uid(list: &Vec<Entity>, uid: &EntityIdent) -> (r: bool)
    ensures
        r == has_uid(ents_view(list@), uid@),
{
    let mut idx: usize = 0;
    while idx < list.len()
        invariant
            idx <= list.len(),
            forall|i: int| 0 <= i < idx ==> ents_view(list@)[i].uid != uid@,
        decreases list.len() - idx,
    {
        if list[idx].uid.same_as(uid) {
            assert(ents_view(list@)[idx as int].uid == uid@);
            return true;
        }
        idx += 1;
    }
    false
}

impl EntityGraph {
    /// Whether the graph satisfies its invariant: identities are
    /// pairwise distinct.
    pub open spec fn wf(&self) -> bool {
        uids_distinct(self@)
    }

    /// Unions the synthesized entities into a copy of this baseline
    /// graph.  Never mutates the baseline.  Fails exactly when an added
    /// identity already occurs in the baseline or occurs twice among the
    /// additions themselves; the error carries one colliding identity.
    pub fn merge(&self, synthesized: &Vec<Entity>) -> (r: Result<EntityGraph, EntitiesMergeError>)
        requires
            self.wf(),
        ensures
            r is Ok <==> !merge_collision(self@, ents_view(synthesized@)),
            r matches Ok(g) ==> g@ == self@ + ents_view(synthesized@) && g.wf(),
            r matches Err(e) ==> has_uid(self@ + ents_view(synthesized@), e.uid@),
    {
        let ghost addv = ents_view(synthesized@);
        let mut out: Vec<Entity> = Vec::new();
        let mut idx: usize = 0;
        while idx < self.entities.len()
            invariant
                idx <= self.entities.len(),
                out@.len() == idx,
                forall|i: int| 0 <= i < idx ==> ents_view(out@)[i] == self@[i],
            decreases self.entities.len() - idx,
        {
            let d = self.entities[idx].duplicate();
            out.push(d);
            idx += 1;
        }
        proof {
            assert(ents_view(out@) =~= self@);
        }
        let mut k: usize = 0;
        while k < synthesized.len()
            invariant
                self.wf(),
                addv == ents_view(synthesized@),
                k <= synthesized.len(),
                out@.len() == self@.len() + k,
                ents_view(out@) =~= self@ + addv.take(k as int),
                uids_distinct(ents_view(out@)),
            decreases synthesized.len() - k,
        {
            let cand = &synthesized[k];
            assert(cand@ == addv[k as int]);
            if list_has_uid(&out, &cand.uid) {
                proof {
                    let i = choose|i: int|
                        0 <= i < ents_view(out@).len() && ents_view(out@)[i].uid == cand.uid@;
                    if i < self@.len() {
                        assert(has_uid(self@, addv[k as int].uid));
                    } else {
                        assert(addv.take(k as int)[i - self@.len()] == addv[i - self@.len()]);
                        assert(!uids_distinct(addv));
                    }
                    assert(has_uid(self@ + addv, cand.uid@)) by {
                        assert((self@ + addv)[i] == ents_view(out@)[i]);
                    }
                }
                return Err(EntitiesMergeError { uid: cand.uid.duplicate() });
            }
            let ghost pre = out@;
            let d = cand.duplicate();
            out.push(d);
            k += 1;
            proof {
                assert(out@ == pre.push(d));
                assert(ents_view(out@) =~= ents_view(pre).push(d@));
                assert(ents_view(pre).push(d@) =~= self@ + addv.take(k as int));
                assert forall|i: int, j: int|
                    0 <= i < j < ents_view(out@).len() implies ents_view(out@)[i].uid
                    != ents_view(out@)[j].uid by {
                    if j == ents_view(out@).len() - 1 {
                        assert(ents_view(out@)[j] == d@);
                        assert(ents_view(pre)[i].uid != cand.uid@);
                    }
                }
            }
        }
        proof {
            assert(addv.take(synthesized@.len() as int) =~= addv);
            assert(!merge_collision(self@, addv)) by {
                assert(forall|i: int| 0 <= i < addv.len()
                    ==> (self@ + addv)[self@.len() + i] == #[trigger] addv[i]);
                assert(forall|i: int| 0 <= i < self@.len()
                    ==> (self@ + addv)[i] == #[trigger] self@[i]);
            }
        }
        Ok(EntityGraph { entities: out })
    }
}

} // verus!
