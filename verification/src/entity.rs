//! Entities as property and pin resolution reads them.

use crate::model::{PropValue, PropertyRow, RowView};
use vstd::prelude::*;

verus! {

/// An alias that exposes a property of another sub-entity.
///
/// `original_entity` is the local sub-entity the alias points at, when the
/// alias is a short local reference.
#[derive(Debug)]
pub struct PropertyAlias {
    pub original_entity: Option<String>,
    pub original_property: String,
}

/// A property that a sub-entity sets itself.
#[derive(Debug)]
pub struct OwnProperty {
    pub name: String,
    pub property_type: String,
    pub value: PropValue,
    pub post_init: Option<bool>,
}

/// A reference to a sub-entity, as an entity's connections write it.
#[derive(Debug)]
pub enum EntityRef {
    /// The id of a sub-entity of the same entity, or no sub-entity.
    Short(Option<String>),
    /// A sub-entity of the same entity or, with `external_scene`, of
    /// another scene; `exposed_entity` names an entity that it exposes.
    Full { entity_ref: String, external_scene: Option<String>, exposed_entity: Option<String> },
}

/// One trigger or propagated pin of an event or copying entry, with the
/// references it makes.
#[derive(Debug)]
pub struct Connection {
    pub name: String,
    pub targets: Vec<EntityRef>,
}

/// The sub-entity of the same entity that a reference points at: a short
/// reference's id, or a full reference's id when it names no other scene.
pub open spec fn local_reference(r: EntityRef) -> Option<Seq<char>> {
    match r {
        EntityRef::Short(Some(x)) => Some(x@),
        EntityRef::Short(None) => None,
        EntityRef::Full { entity_ref, external_scene, .. } => match external_scene {
            None => Some(entity_ref@),
            Some(_) => None,
        },
    }
}

/// The sub-entity of the same entity that a reference points at, if any.
pub fn local_reference_of(r: &EntityRef) -> (o: Option<String>)
    ensures
        match o {
            Some(x) => local_reference(*r) == Some(x@),
            None => local_reference(*r) is None,
        },
{
    match r {
        EntityRef::Short(Some(x)) => Some(x.clone()),
        EntityRef::Short(None) => None,
        EntityRef::Full { entity_ref, external_scene, .. } => match external_scene {
            None => Some(entity_ref.clone()),
            Some(_) => None,
        },
    }
}

/// A sub-entity: its id, its factory hash and what it declares.
#[derive(Debug)]
pub struct SubEntity {
    pub id: String,
    pub factory: String,
    pub properties: Vec<OwnProperty>,
    pub property_aliases: Vec<(String, Vec<PropertyAlias>)>,
    pub events: Vec<(String, Vec<Connection>)>,
    pub input_copying: Vec<(String, Vec<Connection>)>,
    pub output_copying: Vec<(String, Vec<Connection>)>,
}

/// An entity: its factory hash, its root sub-entity and its sub-entities.
#[derive(Debug)]
pub struct Entity {
    pub factory_hash: String,
    pub root_entity: String,
    pub entities: Vec<SubEntity>,
}

/// The first entry keyed `k`.
pub open spec fn keyed<T>(s: Seq<(String, T)>, k: Seq<char>) -> Option<T>
    decreases s.len(),
{
    if s.len() == 0 {
        None
    } else if s[0].0@ == k {
        Some(s[0].1)
    } else {
        keyed(s.drop_first(), k)
    }
}

/// The position of the first entry keyed `k`.
pub fn key_position<T>(s: &Vec<(String, T)>, k: &String) -> (r: Option<usize>)
    ensures
        match r {
            Some(i) => i < s.len() && keyed(s@, k@) == Some(s@[i as int].1) && s@[i as int].0@
                == k@ && forall|m: int| 0 <= m < i ==> s@[m].0@ != k@,
            None => keyed(s@, k@) == None::<T>,
        },
{
    assert(s@.skip(0) =~= s@);
    let mut i: usize = 0;
    while i < s.len()
        invariant
            i <= s.len(),
            keyed(s@, k@) == keyed(s@.skip(i as int), k@),
            forall|m: int| 0 <= m < i ==> s@[m].0@ != k@,
        decreases s.len() - i,
    {
        assert(s@.skip(i as int).drop_first() =~= s@.skip(i + 1));
        assert(s@.skip(i as int)[0] == s@[i as int]);
        if s[i].0 == *k {
            return Some(i);
        }
        i += 1;
    }
    None
}

/// Whether `names` holds `name`.
pub fn holds_name(names: &Vec<String>, name: &String) -> (r: bool)
    ensures
        r == names.deep_view().contains(name@),
{
    let mut i: usize = 0;
    while i < names.len()
        invariant
            i <= names.len(),
            forall|k: int| 0 <= k < i ==> names.deep_view()[k] != name@,
        decreases names.len() - i,
    {
        if names[i] == *name {
            assert(names.deep_view()[i as int] == name@);
            return true;
        }
        i += 1;
    }
    false
}

/// The first sub-entity with id `id`.
pub open spec fn sub_entity(subs: Seq<SubEntity>, id: Seq<char>) -> Option<SubEntity>
    decreases subs.len(),
{
    if subs.len() == 0 {
        None
    } else if subs[0].id@ == id {
        Some(subs[0])
    } else {
        sub_entity(subs.drop_first(), id)
    }
}

/// The position of the first sub-entity with id `id`.
pub fn sub_entity_position(subs: &Vec<SubEntity>, id: &String) -> (r: Option<usize>)
    ensures
        match r {
            Some(i) => i < subs.len() && sub_entity(subs@, id@) == Some(subs@[i as int]),
            None => sub_entity(subs@, id@) == None::<SubEntity>,
        },
{
    assert(subs@.skip(0) =~= subs@);
    let mut i: usize = 0;
    while i < subs.len()
        invariant
            i <= subs.len(),
            sub_entity(subs@, id@) == sub_entity(subs@.skip(i as int), id@),
        decreases subs.len() - i,
    {
        assert(subs@.skip(i as int).drop_first() =~= subs@.skip(i + 1));
        assert(subs@.skip(i as int)[0] == subs@[i as int]);
        if subs[i].id == *id {
            return Some(i);
        }
        i += 1;
    }
    None
}

/// The row of a property a sub-entity sets itself; post-init defaults to
/// `false`.
pub open spec fn own_row(p: OwnProperty) -> RowView {
    (
        p.name@,
        p.property_type@,
        p.value@,
        match p.post_init {
            Some(b) => b,
            None => false,
        },
    )
}

/// The rows of the properties a sub-entity sets itself, in order.
pub open spec fn own_rows(t: SubEntity) -> Seq<RowView> {
    t.properties@.map_values(|p: OwnProperty| own_row(p))
}

/// The rows of the properties a sub-entity sets itself, in order.
pub fn own_rows_of(t: &SubEntity) -> (r: Vec<PropertyRow>)
    ensures
        r.deep_view() == own_rows(*t),
{
    let ps = &t.properties;
    let mut rows: Vec<PropertyRow> = Vec::new();
    let mut i: usize = 0;
    while i < ps.len()
        invariant
            i <= ps.len(),
            ps == &t.properties,
            rows.deep_view() == ps@.take(i as int).map_values(|p: OwnProperty| own_row(p)),
        decreases ps.len() - i,
    {
        let p = &ps[i];
        let post = match p.post_init {
            Some(b) => b,
            None => false,
        };
        let row = (p.name.clone(), p.property_type.clone(), p.value.duplicate(), post);
        let ghost before = rows.deep_view();
        let ghost rv = row.deep_view();
        rows.push(row);
        assert(ps@.take(i + 1) =~= ps@.take(i as int).push(ps@[i as int]));
        assert(rows.deep_view() =~= before.push(rv));
        assert(ps@.take(i + 1).map_values(|p: OwnProperty| own_row(p)) =~= before.push(rv));
        i += 1;
    }
    assert(ps@.take(ps.len() as int) =~= ps@);
    rows
}

/// The keys of a keyed list, in order.
pub open spec fn keys<T>(s: Seq<(String, T)>) -> Seq<Seq<char>> {
    s.map_values(|e: (String, T)| e.0@)
}

/// The keys of a keyed list, in order.
pub fn keys_of<T>(s: &Vec<(String, T)>) -> (r: Vec<String>)
    ensures
        r.deep_view() == keys(s@),
{
    let mut out: Vec<String> = Vec::new();
    let mut i: usize = 0;
    while i < s.len()
        invariant
            i <= s.len(),
            out.deep_view() == keys(s@.take(i as int)),
        decreases s.len() - i,
    {
        let ghost before = out.deep_view();
        out.push(s[i].0.clone());
        assert(s@.take(i + 1) =~= s@.take(i as int).push(s@[i as int]));
        assert(out.deep_view() =~= before.push(s@[i as int].0@));
        assert(keys(s@.take(i + 1)) =~= before.push(s@[i as int].0@));
        i += 1;
    }
    assert(s@.take(s.len() as int) =~= s@);
    out
}

} // verus!

verus! {

/// The name of a connection once for each of its references that points
/// at the sub-entity `sub`.
pub open spec fn target_hits(ts: Seq<EntityRef>, name: Seq<char>, sub: Seq<char>) -> Seq<
    Seq<char>,
>
    decreases ts.len(),
{
    if ts.len() == 0 {
        Seq::empty()
    } else {
        let rest = target_hits(ts.drop_last(), name, sub);
        match local_reference(ts.last()) {
            Some(x) => if x == sub {
                rest.push(name)
            } else {
                rest
            },
            None => rest,
        }
    }
}

/// The hits of a list of connections, in order.
pub open spec fn connection_hits(cs: Seq<Connection>, sub: Seq<char>) -> Seq<Seq<char>>
    decreases cs.len(),
{
    if cs.len() == 0 {
        Seq::empty()
    } else {
        connection_hits(cs.drop_last(), sub) + target_hits(cs.last().targets@, cs.last().name@, sub)
    }
}

/// The hits of all connection lists of a keyed list (events or copying
/// entries), in order.
pub open spec fn table_hits(m: Seq<(String, Vec<Connection>)>, sub: Seq<char>) -> Seq<Seq<char>>
    decreases m.len(),
{
    if m.len() == 0 {
        Seq::empty()
    } else {
        table_hits(m.drop_last(), sub) + connection_hits(m.last().1@, sub)
    }
}

/// The input pins that the sub-entities of an entity reach on `sub`:
/// for each sub-entity in turn, the triggers of its events and then of its
/// input copying that reference `sub`.
pub open spec fn referencing_inputs(subs: Seq<SubEntity>, sub: Seq<char>) -> Seq<Seq<char>>
    decreases subs.len(),
{
    if subs.len() == 0 {
        Seq::empty()
    } else {
        referencing_inputs(subs.drop_last(), sub) + table_hits(subs.last().events@, sub)
            + table_hits(subs.last().input_copying@, sub)
    }
}

/// The output pins that the sub-entities of an entity propagate from
/// `sub`: the propagated pins of their output copying that reference it.
pub open spec fn referencing_outputs(subs: Seq<SubEntity>, sub: Seq<char>) -> Seq<Seq<char>>
    decreases subs.len(),
{
    if subs.len() == 0 {
        Seq::empty()
    } else {
        referencing_outputs(subs.drop_last(), sub) + table_hits(subs.last().output_copying@, sub)
    }
}

fn target_hits_of(ts: &Vec<EntityRef>, name: &String, sub: &String) -> (r: Vec<String>)
    ensures
        r.deep_view() == target_hits(ts@, name@, sub@),
{
    let mut out: Vec<String> = Vec::new();
    assert(ts@.take(0) =~= Seq::<EntityRef>::empty());
    assert(out.deep_view() =~= Seq::<Seq<char>>::empty());
    let mut i: usize = 0;
    while i < ts.len()
        invariant
            i <= ts.len(),
            out.deep_view() == target_hits(ts@.take(i as int), name@, sub@),
        decreases ts.len() - i,
    {
        assert(ts@.take(i + 1).drop_last() =~= ts@.take(i as int));
        assert(ts@.take(i + 1).last() == ts@[i as int]);
        match local_reference_of(&ts[i]) {
            Some(x) => {
                if x == *sub {
                    let ghost before = out.deep_view();
                    out.push(name.clone());
                    assert(out.deep_view() =~= before.push(name@));
                }
            },
            None => {},
        }
        i += 1;
    }
    assert(ts@.take(ts.len() as int) =~= ts@);
    out
}

fn connection_hits_of(cs: &Vec<Connection>, sub: &String) -> (r: Vec<String>)
    ensures
        r.deep_view() == connection_hits(cs@, sub@),
{
    let mut out: Vec<String> = Vec::new();
    assert(cs@.take(0) =~= Seq::<Connection>::empty());
    assert(out.deep_view() =~= Seq::<Seq<char>>::empty());
    let mut i: usize = 0;
    while i < cs.len()
        invariant
            i <= cs.len(),
            out.deep_view() == connection_hits(cs@.take(i as int), sub@),
        decreases cs.len() - i,
    {
        assert(cs@.take(i + 1).drop_last() =~= cs@.take(i as int));
        assert(cs@.take(i + 1).last() == cs@[i as int]);
        let more = target_hits_of(&cs[i].targets, &cs[i].name, sub);
        crate::model::append_names(&mut out, more);
        i += 1;
    }
    assert(cs@.take(cs.len() as int) =~= cs@);
    out
}

fn table_hits_of(m: &Vec<(String, Vec<Connection>)>, sub: &String) -> (r: Vec<String>)
    ensures
        r.deep_view() == table_hits(m@, sub@),
{
    let mut out: Vec<String> = Vec::new();
    assert(m@.take(0) =~= Seq::<(String, Vec<Connection>)>::empty());
    assert(out.deep_view() =~= Seq::<Seq<char>>::empty());
    let mut i: usize = 0;
    while i < m.len()
        invariant
            i <= m.len(),
            out.deep_view() == table_hits(m@.take(i as int), sub@),
        decreases m.len() - i,
    {
        assert(m@.take(i + 1).drop_last() =~= m@.take(i as int));
        assert(m@.take(i + 1).last() == m@[i as int]);
        let more = connection_hits_of(&m[i].1, sub);
        crate::model::append_names(&mut out, more);
        i += 1;
    }
    assert(m@.take(m.len() as int) =~= m@);
    out
}

/// The input pins that the sub-entities of an entity reach on `sub`.
pub fn referencing_inputs_of(subs: &Vec<SubEntity>, sub: &String) -> (r: Vec<String>)
    ensures
        r.deep_view() == referencing_inputs(subs@, sub@),
{
    let mut out: Vec<String> = Vec::new();
    assert(subs@.take(0) =~= Seq::<SubEntity>::empty());
    assert(out.deep_view() =~= Seq::<Seq<char>>::empty());
    let mut i: usize = 0;
    while i < subs.len()
        invariant
            i <= subs.len(),
            out.deep_view() == referencing_inputs(subs@.take(i as int), sub@),
        decreases subs.len() - i,
    {
        assert(subs@.take(i + 1).drop_last() =~= subs@.take(i as int));
        assert(subs@.take(i + 1).last() == subs@[i as int]);
        let from_events = table_hits_of(&subs[i].events, sub);
        crate::model::append_names(&mut out, from_events);
        let from_copying = table_hits_of(&subs[i].input_copying, sub);
        crate::model::append_names(&mut out, from_copying);
        i += 1;
    }
    assert(subs@.take(subs.len() as int) =~= subs@);
    out
}

/// The output pins that the sub-entities of an entity propagate from `sub`.
pub fn referencing_outputs_of(subs: &Vec<SubEntity>, sub: &String) -> (r: Vec<String>)
    ensures
        r.deep_view() == referencing_outputs(subs@, sub@),
{
    let mut out: Vec<String> = Vec::new();
    assert(subs@.take(0) =~= Seq::<SubEntity>::empty());
    assert(out.deep_view() =~= Seq::<Seq<char>>::empty());
    let mut i: usize = 0;
    while i < subs.len()
        invariant
            i <= subs.len(),
            out.deep_view() == referencing_outputs(subs@.take(i as int), sub@),
        decreases subs.len() - i,
    {
        assert(subs@.take(i + 1).drop_last() =~= subs@.take(i as int));
        assert(subs@.take(i + 1).last() == subs@[i as int]);
        let more = table_hits_of(&subs[i].output_copying, sub);
        crate::model::append_names(&mut out, more);
        i += 1;
    }
    assert(subs@.take(subs.len() as int) =~= subs@);
    out
}

} // verus!

verus! {

/// Appending an entry leaves earlier keys as they were and makes a new key
/// findable.
pub proof fn lemma_keyed_push<T>(s: Seq<(String, T)>, e: (String, T), j: Seq<char>)
    ensures
        keyed(s.push(e), j) == (if keyed(s, j) is Some {
            keyed(s, j)
        } else if e.0@ == j {
            Some(e.1)
        } else {
            None
        }),
    decreases s.len(),
{
    if s.len() > 0 {
        assert(s.push(e)[0] == s[0]);
        assert(s.push(e).drop_first() =~= s.drop_first().push(e));
        lemma_keyed_push(s.drop_first(), e, j);
    } else {
        assert(s.push(e)[0] == e);
        assert(s.push(e).drop_first() =~= Seq::<(String, T)>::empty());
        assert(keyed(Seq::<(String, T)>::empty(), j) == None::<T>);
    }
}

/// Replacing the entry at `i` by one with the same key leaves other keys as
/// they were, and the key itself finds the new entry when `i` was the
/// first entry with that key.
pub proof fn lemma_keyed_update<T>(s: Seq<(String, T)>, i: int, e: (String, T), j: Seq<char>)
    requires
        0 <= i < s.len(),
        s[i].0@ == e.0@,
    ensures
        j != e.0@ ==> keyed(s.update(i, e), j) == keyed(s, j),
        (forall|m: int| 0 <= m < i ==> s[m].0@ != e.0@) ==> keyed(s.update(i, e), e.0@) == Some(
            e.1,
        ),
    decreases s.len(),
{
    if i == 0 {
        assert(s.update(i, e).drop_first() =~= s.drop_first());
        assert(s.update(i, e)[0] == e);
    } else {
        assert(s.update(i, e)[0] == s[0]);
        assert(s.update(i, e).drop_first() =~= s.drop_first().update(i - 1, e));
        lemma_keyed_update(s.drop_first(), i - 1, e, j);
        if forall|m: int| 0 <= m < i ==> s[m].0@ != e.0@ {
            assert forall|m: int| 0 <= m < i - 1 implies s.drop_first()[m].0@ != e.0@ by {
                assert(s.drop_first()[m] == s[m + 1]);
            }
            assert(s[0].0@ != e.0@);
        }
    }
}

/// No two entries share a key: what a map keyed by text holds.
pub open spec fn keys_distinct<T>(s: Seq<(String, T)>) -> bool {
    forall|i: int, j: int| 0 <= i < j < s.len() ==> s[i].0@ != s[j].0@
}

/// No two sub-entities share an id.
pub open spec fn ids_distinct(subs: Seq<SubEntity>) -> bool {
    forall|i: int, j: int| 0 <= i < j < subs.len() ==> subs[i].id@ != subs[j].id@
}

/// No two own properties share a name.
pub open spec fn property_names_distinct(ps: Seq<OwnProperty>) -> bool {
    forall|i: int, j: int| 0 <= i < j < ps.len() ==> ps[i].name@ != ps[j].name@
}

/// No two connections of a list share a name.
pub open spec fn connection_names_distinct(cs: Seq<Connection>) -> bool {
    forall|i: int, j: int| 0 <= i < j < cs.len() ==> cs[i].name@ != cs[j].name@
}

/// Each key of a table of connections occurs once, and so does each
/// connection name under it.
pub open spec fn table_valid(m: Seq<(String, Vec<Connection>)>) -> bool {
    &&& keys_distinct(m)
    &&& forall|k: int| 0 <= k < m.len() ==> connection_names_distinct(#[trigger] m[k].1@)
}

/// What the entity format's maps hold of a sub-entity: each property,
/// aliased property, event, trigger and copied pin is named once.
pub open spec fn sub_entity_valid(t: SubEntity) -> bool {
    &&& property_names_distinct(t.properties@)
    &&& keys_distinct(t.property_aliases@)
    &&& table_valid(t.events@)
    &&& table_valid(t.input_copying@)
    &&& table_valid(t.output_copying@)
}

/// What the entity format's maps hold of an entity: each sub-entity id
/// occurs once, and each sub-entity is valid.
pub open spec fn entity_valid(e: Entity) -> bool {
    &&& ids_distinct(e.entities@)
    &&& forall|k: int| 0 <= k < e.entities@.len() ==> sub_entity_valid(#[trigger] e.entities@[k])
}

/// A key that finds nothing is the key of no entry.
pub proof fn lemma_keyed_none<T>(s: Seq<(String, T)>, k: Seq<char>)
    requires
        keyed(s, k) is None,
    ensures
        forall|i: int| 0 <= i < s.len() ==> s[i].0@ != k,
    decreases s.len(),
{
    if s.len() > 0 {
        lemma_keyed_none(s.drop_first(), k);
        assert forall|i: int| 0 <= i < s.len() implies s[i].0@ != k by {
            if i > 0 {
                assert(s[i] == s.drop_first()[i - 1]);
            }
        }
    }
}

/// Records `v` under `k`, replacing the first entry keyed `k` or appending.
///
/// Afterwards `k` finds `v` and every other key finds what it found before;
/// a list whose keys were distinct keeps them distinct.
pub fn put<T>(s: &mut Vec<(String, T)>, k: String, v: T)
    ensures
        keyed(final(s)@, k@) == Some(v),
        forall|j: Seq<char>| j != k@ ==> #[trigger] keyed(final(s)@, j) == keyed(old(s)@, j),
        keys_distinct(old(s)@) ==> keys_distinct(final(s)@),
{
    let ghost before = s@;
    let ghost kv = k@;
    match key_position(s, &k) {
        Some(i) => {
            let ghost e = (k, v);
            proof {
                assert forall|j: Seq<char>| j != kv implies keyed(before.update(i as int, e), j)
                    == keyed(before, j) by {
                    lemma_keyed_update(before, i as int, e, j);
                }
                lemma_keyed_update(before, i as int, e, kv);
            }
            s.set(i, (k, v));
            proof {
                assert forall|a: int, b: int| 0 <= a < b < s@.len() && keys_distinct(before)
                    implies s@[a].0@ != s@[b].0@ by {
                    assert(s@[a].0@ == before[a].0@ && s@[b].0@ == before[b].0@);
                }
            }
        },
        None => {
            let ghost e = (k, v);
            proof {
                assert forall|j: Seq<char>| j != kv implies keyed(before.push(e), j) == keyed(
                    before,
                    j,
                ) by {
                    lemma_keyed_push(before, e, j);
                }
                lemma_keyed_push(before, e, kv);
                lemma_keyed_none(before, kv);
            }
            s.push((k, v));
            proof {
                assert forall|a: int, b: int| 0 <= a < b < s@.len() && keys_distinct(before)
                    implies s@[a].0@ != s@[b].0@ by {
                    if b == before.len() {
                        assert(s@[a] == before[a]);
                    } else {
                        assert(s@[a] == before[a] && s@[b] == before[b]);
                    }
                }
            }
        },
    }
}

} // verus!

verus! {

/// Whether the keys of a keyed list are distinct.
pub fn keys_distinct_of<T>(s: &Vec<(String, T)>) -> (r: bool)
    ensures
        r == keys_distinct(s@),
{
    let mut i: usize = 0;
    while i < s.len()
        invariant
            i <= s.len(),
            forall|a: int, b: int| 0 <= a < i && a < b < s@.len() ==> s@[a].0@ != s@[b].0@,
        decreases s.len() - i,
    {
        let mut j: usize = i + 1;
        while j < s.len()
            invariant
                i < s.len(),
                i + 1 <= j <= s.len(),
                forall|b: int| i < b < j ==> s@[i as int].0@ != s@[b].0@,
            decreases s.len() - j,
        {
            if s[i].0 == s[j].0 {
                return false;
            }
            j += 1;
        }
        i += 1;
    }
    true
}

fn connection_names_distinct_of(cs: &Vec<Connection>) -> (r: bool)
    ensures
        r == connection_names_distinct(cs@),
{
    let mut i: usize = 0;
    while i < cs.len()
        invariant
            i <= cs.len(),
            forall|a: int, b: int| 0 <= a < i && a < b < cs@.len() ==> cs@[a].name@ != cs@[b].name@,
        decreases cs.len() - i,
    {
        let mut j: usize = i + 1;
        while j < cs.len()
            invariant
                i < cs.len(),
                i + 1 <= j <= cs.len(),
                forall|b: int| i < b < j ==> cs@[i as int].name@ != cs@[b].name@,
            decreases cs.len() - j,
        {
            if cs[i].name == cs[j].name {
                return false;
            }
            j += 1;
        }
        i += 1;
    }
    true
}

fn property_names_distinct_of(ps: &Vec<OwnProperty>) -> (r: bool)
    ensures
        r == property_names_distinct(ps@),
{
    let mut i: usize = 0;
    while i < ps.len()
        invariant
            i <= ps.len(),
            forall|a: int, b: int| 0 <= a < i && a < b < ps@.len() ==> ps@[a].name@ != ps@[b].name@,
        decreases ps.len() - i,
    {
        let mut j: usize = i + 1;
        while j < ps.len()
            invariant
                i < ps.len(),
                i + 1 <= j <= ps.len(),
                forall|b: int| i < b < j ==> ps@[i as int].name@ != ps@[b].name@,
            decreases ps.len() - j,
        {
            if ps[i].name == ps[j].name {
                return false;
            }
            j += 1;
        }
        i += 1;
    }
    true
}

fn ids_distinct_of(subs: &Vec<SubEntity>) -> (r: bool)
    ensures
        r == ids_distinct(subs@),
{
    let mut i: usize = 0;
    while i < subs.len()
        invariant
            i <= subs.len(),
            forall|a: int, b: int| 0 <= a < i && a < b < subs@.len() ==> subs@[a].id@ != subs@[b].id@,
        decreases subs.len() - i,
    {
        let mut j: usize = i + 1;
        while j < subs.len()
            invariant
                i < subs.len(),
                i + 1 <= j <= subs.len(),
                forall|b: int| i < b < j ==> subs@[i as int].id@ != subs@[b].id@,
            decreases subs.len() - j,
        {
            if subs[i].id == subs[j].id {
                return false;
            }
            j += 1;
        }
        i += 1;
    }
    true
}

fn table_valid_of(m: &Vec<(String, Vec<Connection>)>) -> (r: bool)
    ensures
        r == table_valid(m@),
{
    if !keys_distinct_of(m) {
        return false;
    }
    let mut k: usize = 0;
    while k < m.len()
        invariant
            k <= m.len(),
            forall|a: int| 0 <= a < k ==> connection_names_distinct(#[trigger] m@[a].1@),
        decreases m.len() - k,
    {
        if !connection_names_distinct_of(&m[k].1) {
            return false;
        }
        k += 1;
    }
    true
}

fn sub_entity_valid_of(t: &SubEntity) -> (r: bool)
    ensures
        r == sub_entity_valid(*t),
{
    property_names_distinct_of(&t.properties) && keys_distinct_of(&t.property_aliases)
        && table_valid_of(&t.events) && table_valid_of(&t.input_copying) && table_valid_of(
        &t.output_copying,
    )
}

/// Whether an entity is valid: each sub-entity id, and each key of each
/// sub-entity's tables, occurs once.
pub fn entity_is_valid(e: &Entity) -> (r: bool)
    ensures
        r == entity_valid(*e),
{
    if !ids_distinct_of(&e.entities) {
        return false;
    }
    let mut k: usize = 0;
    while k < e.entities.len()
        invariant
            k <= e.entities.len(),
            forall|a: int| 0 <= a < k ==> sub_entity_valid(#[trigger] e.entities@[a]),
        decreases e.entities.len() - k,
    {
        if !sub_entity_valid_of(&e.entities[k]) {
            return false;
        }
        k += 1;
    }
    true
}

} // verus!
