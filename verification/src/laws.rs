//! Properties that relate the resolution functions to each other.

use crate::blueprint::{uicb_lookup, uicb_row, uicb_rows, UicbEntry};
use crate::entity::{entity_valid, keyed, keys, own_rows, sub_entity_valid, referencing_inputs, referencing_outputs, sub_entity, Entity, PropertyAlias};
use crate::model::{ErrorView, RowView};
use crate::resolve::{
    alias_entry_rows, alias_lookup, alias_rows, factories_lookup, factories_pins, factories_rows,
    factory_lookup, factory_rows, pins, properties, specific, then_rows,
};
use crate::rows::{first_named, first_named_from, FoundView};
use crate::store::{factory_list, EntityLoad, FactoryKind, FaultView, Intellisense, ResourceStore};
use crate::unique::{lemma_unique, no_repeats, unique};
use vstd::prelude::*;

verus! {

/// The pins of a sub-entity hold no repetitions, and they hold every pin
/// that resolution collects: (unless ignored) its own input copying,
/// events and output copying names, and the pins that other sub-entities
/// aim at it.
pub proof fn law_pins_are_unique_and_complete(
    intel: Intellisense,
    store: ResourceStore,
    e: Entity,
    sub: Seq<char>,
    ignore_own: bool,
    fuel: nat,
)
    requires
        pins(intel, store, e, sub, ignore_own, fuel) is Ok,
    ensures
        ({
            let p = pins(intel, store, e, sub, ignore_own, fuel)->Ok_0;
            let t = sub_entity(e.entities@, sub)->Some_0;
            &&& no_repeats(p.0)
            &&& no_repeats(p.1)
            &&& forall|x: Seq<char>| #[trigger]
                referencing_inputs(e.entities@, sub).contains(x) ==> p.0.contains(x)
            &&& forall|x: Seq<char>| #[trigger]
                referencing_outputs(e.entities@, sub).contains(x) ==> p.1.contains(x)
            &&& !ignore_own ==> forall|x: Seq<char>| #[trigger]
                keys(t.input_copying@).contains(x) ==> p.0.contains(x)
            &&& !ignore_own ==> forall|x: Seq<char>| #[trigger]
                keys(t.events@).contains(x) ==> p.1.contains(x)
            &&& !ignore_own ==> forall|x: Seq<char>| #[trigger]
                keys(t.output_copying@).contains(x) ==> p.1.contains(x)
        }),
{
    let t = sub_entity(e.entities@, sub)->Some_0;
    let own_in = if ignore_own {
        Seq::<Seq<char>>::empty()
    } else {
        keys(t.input_copying@)
    };
    let own_out = if ignore_own {
        Seq::<Seq<char>>::empty()
    } else {
        keys(t.events@) + keys(t.output_copying@)
    };
    let ins = own_in + referencing_inputs(e.entities@, sub);
    let outs = own_out + referencing_outputs(e.entities@, sub);
    let fs = factory_list(intel, store, t.factory@)->Ok_0;
    let fp = factories_pins(intel, store, fs, fuel)->Ok_0;
    lemma_unique(ins + fp.0);
    lemma_unique(outs + fp.1);
    let all_in = ins + fp.0;
    let all_out = outs + fp.1;
    assert forall|x: Seq<char>| #[trigger]
        referencing_inputs(e.entities@, sub).contains(x) implies all_in.contains(x) by {
        let k = choose|k: int|
            0 <= k < referencing_inputs(e.entities@, sub).len() && referencing_inputs(
                e.entities@,
                sub,
            )[k] == x;
        assert(all_in[own_in.len() + k] == x);
    }
    assert forall|x: Seq<char>| #[trigger]
        referencing_outputs(e.entities@, sub).contains(x) implies all_out.contains(x) by {
        let k = choose|k: int|
            0 <= k < referencing_outputs(e.entities@, sub).len() && referencing_outputs(
                e.entities@,
                sub,
            )[k] == x;
        assert(all_out[own_out.len() + k] == x);
    }
    if !ignore_own {
        assert forall|x: Seq<char>| #[trigger]
            keys(t.input_copying@).contains(x) implies all_in.contains(x) by {
            let k = choose|k: int|
                0 <= k < keys(t.input_copying@).len() && keys(t.input_copying@)[k] == x;
            assert(all_in[k] == x);
        }
        assert forall|x: Seq<char>| #[trigger] keys(t.events@).contains(x) implies all_out.contains(
            x,
        ) by {
            let k = choose|k: int| 0 <= k < keys(t.events@).len() && keys(t.events@)[k] == x;
            assert(all_out[k] == x);
        }
        assert forall|x: Seq<char>| #[trigger]
            keys(t.output_copying@).contains(x) implies all_out.contains(x) by {
            let k = choose|k: int|
                0 <= k < keys(t.output_copying@).len() && keys(t.output_copying@)[k] == x;
            assert(all_out[keys(t.events@).len() + k] == x);
        }
    }
}

/// A name is in two lists one after the other exactly when it is in one of
/// them.
pub proof fn lemma_concat_contains(a: Seq<Seq<char>>, b: Seq<Seq<char>>, x: Seq<char>)
    ensures
        (a + b).contains(x) <==> (a.contains(x) || b.contains(x)),
{
    if (a + b).contains(x) {
        let k = choose|k: int| 0 <= k < (a + b).len() && (a + b)[k] == x;
        if k < a.len() {
            assert(a[k] == x);
        } else {
            assert(b[k - a.len()] == x);
        }
    }
    if a.contains(x) {
        let k = choose|k: int| 0 <= k < a.len() && a[k] == x;
        assert((a + b)[k] == x);
    }
    if b.contains(x) {
        let k = choose|k: int| 0 <= k < b.len() && b[k] == x;
        assert((a + b)[a.len() + k] == x);
    }
}

/// Leaving out a sub-entity's own pins changes neither whether gathering
/// its pins succeeds nor what it asks for or fails with; where it
/// succeeds, the pins with its own are exactly those without them together
/// with its input copying names (inputs), and its event and output copying
/// names (outputs).
pub proof fn law_own_pins(
    intel: Intellisense,
    store: ResourceStore,
    e: Entity,
    sub: Seq<char>,
    fuel: nat,
)
    ensures
        (pins(intel, store, e, sub, false, fuel) is Ok) == (pins(intel, store, e, sub, true, fuel) is Ok),
        pins(intel, store, e, sub, false, fuel) is Err ==> pins(intel, store, e, sub, false, fuel)
            == pins(intel, store, e, sub, true, fuel),
        pins(intel, store, e, sub, false, fuel) is Ok ==> ({
            let with = pins(intel, store, e, sub, false, fuel)->Ok_0;
            let without = pins(intel, store, e, sub, true, fuel)->Ok_0;
            let t = sub_entity(e.entities@, sub)->Some_0;
            &&& forall|x: Seq<char>| #[trigger]
                with.0.contains(x) <==> (without.0.contains(x) || keys(t.input_copying@).contains(
                    x,
                ))
            &&& forall|x: Seq<char>| #[trigger]
                with.1.contains(x) <==> (without.1.contains(x) || keys(t.events@).contains(x)
                    || keys(t.output_copying@).contains(x))
        }),
{
    if pins(intel, store, e, sub, false, fuel) is Ok {
        let t = sub_entity(e.entities@, sub)->Some_0;
        let fs = factory_list(intel, store, t.factory@)->Ok_0;
        let fp = factories_pins(intel, store, fs, fuel)->Ok_0;
        let ri = referencing_inputs(e.entities@, sub);
        let ro = referencing_outputs(e.entities@, sub);
        let oi = keys(t.input_copying@);
        let ev = keys(t.events@);
        let oc = keys(t.output_copying@);
        let e0 = Seq::<Seq<char>>::empty();
        lemma_unique(oi + ri + fp.0);
        lemma_unique(e0 + ri + fp.0);
        lemma_unique(ev + oc + ro + fp.1);
        lemma_unique(e0 + ro + fp.1);
        assert(e0 + ri =~= ri);
        assert(e0 + ro =~= ro);
        assert forall|x: Seq<char>| #[trigger]
            unique(oi + ri + fp.0).contains(x) <==> (unique(ri + fp.0).contains(x) || oi.contains(x)) by {
            lemma_concat_contains(oi + ri, fp.0, x);
            lemma_concat_contains(oi, ri, x);
            lemma_concat_contains(ri, fp.0, x);
        }
        assert forall|x: Seq<char>| #[trigger]
            unique(ev + oc + ro + fp.1).contains(x) <==> (unique(ro + fp.1).contains(x) || ev.contains(x)
                || oc.contains(x)) by {
            lemma_concat_contains(ev + oc + ro, fp.1, x);
            lemma_concat_contains(ev + oc, ro, x);
            lemma_concat_contains(ev, oc, x);
            lemma_concat_contains(ro, fp.1, x);
        }
    }
}

} // verus!

verus! {

proof fn lemma_first_named_from_shift(a: Seq<RowView>, b: Seq<RowView>, p: Seq<char>, j: int)
    requires
        0 <= j,
    ensures
        first_named_from(a + b, p, a.len() + j) == first_named_from(b, p, j),
    decreases b.len() - j,
{
    if j < b.len() {
        assert((a + b)[a.len() + j] == b[j]);
        lemma_first_named_from_shift(a, b, p, j + 1);
    }
}

proof fn lemma_first_named_from_concat(a: Seq<RowView>, b: Seq<RowView>, p: Seq<char>, k: int)
    requires
        0 <= k <= a.len(),
    ensures
        first_named_from(a + b, p, k) == (if first_named_from(a, p, k) is Some {
            first_named_from(a, p, k)
        } else {
            first_named_from(b, p, 0)
        }),
    decreases a.len() - k,
{
    if k < a.len() {
        assert((a + b)[k] == a[k]);
        lemma_first_named_from_concat(a, b, p, k + 1);
    } else {
        lemma_first_named_from_shift(a, b, p, 0);
    }
}

/// The first row named `p` in two lists one after the other is the first
/// in the first list, or else the first in the second.
pub proof fn lemma_first_named_concat(a: Seq<RowView>, b: Seq<RowView>, p: Seq<char>)
    ensures
        first_named(a + b, p) == (if first_named(a, p) is Some {
            first_named(a, p)
        } else {
            first_named(b, p)
        }),
{
    lemma_first_named_from_concat(a, b, p, 0);
}

/// A list whose rows are all named otherwise has no row named `p`.
pub proof fn lemma_first_named_absent(a: Seq<RowView>, p: Seq<char>, k: int)
    requires
        0 <= k,
        forall|i: int| 0 <= i < a.len() ==> a[i].0 != p,
    ensures
        first_named_from(a, p, k) == None::<FoundView>,
    decreases a.len() - k,
{
    if k < a.len() {
        lemma_first_named_absent(a, p, k + 1);
    }
}

/// Joining row lists is associative.
pub proof fn lemma_then_rows_assoc(
    a: Result<Seq<RowView>, FaultView>,
    b: Result<Seq<RowView>, FaultView>,
    c: Result<Seq<RowView>, FaultView>,
)
    ensures
        then_rows(then_rows(a, b), c) == then_rows(a, then_rows(b, c)),
{
    if a is Ok && b is Ok && c is Ok {
        assert(a->Ok_0 + b->Ok_0 + c->Ok_0 =~= a->Ok_0 + (b->Ok_0 + c->Ok_0));
    }
}

/// The rows of several factories are the rows of the first followed by
/// those of the rest.
pub proof fn lemma_factories_rows_front(
    intel: Intellisense,
    store: ResourceStore,
    fs: Seq<Seq<char>>,
    fuel: nat,
)
    requires
        fs.len() > 0,
    ensures
        factories_rows(intel, store, fs, fuel) == then_rows(
            factory_rows(intel, store, fs[0], fuel),
            factories_rows(intel, store, fs.drop_first(), fuel),
        ),
    decreases fs.len(),
{
    let first = factory_rows(intel, store, fs[0], fuel);
    if fs.len() == 1 {
        assert(fs.drop_last() =~= Seq::<Seq<char>>::empty());
        assert(fs.drop_first() =~= Seq::<Seq<char>>::empty());
        assert(fs.last() == fs[0]);
        if first is Ok {
            assert(Seq::<RowView>::empty() + first->Ok_0 =~= first->Ok_0);
            assert(first->Ok_0 + Seq::<RowView>::empty() =~= first->Ok_0);
        }
    } else {
        let d = fs.drop_last();
        lemma_factories_rows_front(intel, store, d, fuel);
        assert(d[0] == fs[0]);
        assert(d.drop_first() =~= fs.drop_first().drop_last());
        assert(fs.drop_first().last() == fs.last());
        lemma_then_rows_assoc(
            first,
            factories_rows(intel, store, d.drop_first(), fuel),
            factory_rows(intel, store, fs.last(), fuel),
        );
    }
}

/// The rows of a UI blueprint, built from the front: the first entry's row
/// (if it is a property) followed by the rows of the rest.
pub proof fn lemma_uicb_rows_front(types: Seq<(u8, String)>, es: Seq<UicbEntry>)
    requires
        es.len() > 0,
    ensures
        uicb_rows(types, es) == (if es[0].kind == 0 {
            match uicb_row(types, es[0]) {
                Err(e) => Err(e),
                Ok(r) => match uicb_rows(types, es.drop_first()) {
                    Err(e) => Err(e),
                    Ok(u) => Ok(seq![r] + u),
                },
            }
        } else {
            uicb_rows(types, es.drop_first())
        }),
    decreases es.len(),
{
    if es.len() == 1 {
        assert(es.drop_last() =~= Seq::<UicbEntry>::empty());
        assert(es.drop_first() =~= Seq::<UicbEntry>::empty());
        assert(es.last() == es[0]);
        if es[0].kind == 0 && uicb_row(types, es[0]) is Ok {
            assert(seq![uicb_row(types, es[0])->Ok_0] + Seq::<RowView>::empty() =~= Seq::<
                RowView,
            >::empty().push(uicb_row(types, es[0])->Ok_0));
        }
    } else {
        let d = es.drop_last();
        lemma_uicb_rows_front(types, d);
        assert(d[0] == es[0]);
        assert(d.drop_first() =~= es.drop_first().drop_last());
        assert(es.drop_first().last() == es.last());
        if es[0].kind == 0 && uicb_row(types, es[0]) is Ok && uicb_rows(types, d.drop_first())
            is Ok && es.last().kind == 0 && uicb_row(types, es.last()) is Ok {
            let r = uicb_row(types, es[0])->Ok_0;
            let u = uicb_rows(types, d.drop_first())->Ok_0;
            let l = uicb_row(types, es.last())->Ok_0;
            assert((seq![r] + u).push(l) =~= seq![r] + u.push(l));
        }
    }
}

/// Where all rows of a UI blueprint come out, looking up one of them by
/// name finds the first row of that name.
pub proof fn lemma_uicb_lookup_agrees(types: Seq<(u8, String)>, es: Seq<UicbEntry>, p: Seq<char>)
    requires
        uicb_rows(types, es) is Ok,
    ensures
        uicb_lookup(types, es, p) == Ok::<Option<FoundView>, ErrorView>(
            first_named(uicb_rows(types, es)->Ok_0, p),
        ),
    decreases es.len(),
{
    if es.len() > 0 {
        lemma_uicb_rows_front(types, es);
        lemma_uicb_lookup_agrees(types, es.drop_first(), p);
        if es[0].kind == 0 {
            let r = uicb_row(types, es[0])->Ok_0;
            let u = uicb_rows(types, es.drop_first())->Ok_0;
            lemma_first_named_concat(seq![r], u, p);
            assert(first_named(seq![r], p) == (if r.0 == p {
                Some((r.1, r.2, r.3))
            } else {
                first_named_from(seq![r], p, 1)
            }));
        }
    } else {
        assert(uicb_rows(types, es)->Ok_0 =~= Seq::<RowView>::empty());
    }
}

} // verus!

verus! {

/// At most one alias of a list points at a local sub-entity.
pub open spec fn at_most_one_local(al: Seq<PropertyAlias>) -> bool {
    forall|i: int, j: int|
        0 <= i < j < al.len() ==> !(al[i].original_entity is Some && al[j].original_entity is Some)
}

/// A sub-entity names each aliased property once (what the entity format's
/// map of aliases holds), and each alias list has at most one local alias.
pub open spec fn sub_aliases_simple(t: crate::entity::SubEntity) -> bool {
    &&& crate::entity::keys_distinct(t.property_aliases@)
    &&& forall|i: int|
        0 <= i < t.property_aliases@.len() ==> at_most_one_local(
            #[trigger] t.property_aliases@[i].1@,
        )
}

/// Every sub-entity of `e` has simple aliases.
pub open spec fn simple_aliases(e: Entity) -> bool {
    forall|k: int| 0 <= k < e.entities@.len() ==> sub_aliases_simple(#[trigger] e.entities@[k])
}

/// Every entity loaded into `store` has simple aliases.
pub open spec fn store_aliases_simple(store: ResourceStore) -> bool {
    forall|k: int|
        0 <= k < store.entities@.len() ==> match (#[trigger] store.entities@[k]).1 {
            EntityLoad::Loaded(x) => simple_aliases(x),
            _ => true,
        }
}

/// The sub-entity found by id is one of the entity's sub-entities.
pub proof fn lemma_sub_entity_index(subs: Seq<crate::entity::SubEntity>, id: Seq<char>) -> (k: int)
    requires
        sub_entity(subs, id) is Some,
    ensures
        0 <= k < subs.len(),
        subs[k] == sub_entity(subs, id)->Some_0,
    decreases subs.len(),
{
    if subs[0].id@ == id {
        0
    } else {
        let k = lemma_sub_entity_index(subs.drop_first(), id);
        k + 1
    }
}

/// The entry found by key is one of the entries.
pub proof fn lemma_keyed_index<T>(s: Seq<(String, T)>, key: Seq<char>) -> (k: int)
    requires
        keyed(s, key) is Some,
    ensures
        0 <= k < s.len(),
        s[k].1 == keyed(s, key)->Some_0,
        s[k].0@ == key,
    decreases s.len(),
{
    if s[0].0@ == key {
        0
    } else {
        let k = lemma_keyed_index(s.drop_first(), key);
        k + 1
    }
}

/// A key that no entry has finds nothing.
pub proof fn lemma_keyed_absent<T>(s: Seq<(String, T)>, key: Seq<char>)
    requires
        forall|i: int| 0 <= i < s.len() ==> s[i].0@ != key,
    ensures
        keyed(s, key) == None::<T>,
    decreases s.len(),
{
    if s.len() > 0 {
        lemma_keyed_absent(s.drop_first(), key);
    }
}

proof fn lemma_alias_lookup_no_local(
    intel: Intellisense,
    store: ResourceStore,
    e: Entity,
    al: Seq<PropertyAlias>,
    fuel: nat,
)
    requires
        forall|i: int| 0 <= i < al.len() ==> al[i].original_entity is None,
    ensures
        alias_lookup(intel, store, e, al, fuel) == Ok::<Option<FoundView>, FaultView>(None),
    decreases al.len(),
{
    if al.len() > 0 {
        lemma_alias_lookup_no_local(intel, store, e, al.drop_first(), fuel);
    }
}

proof fn lemma_alias_entry_agrees(
    intel: Intellisense,
    store: ResourceStore,
    e: Entity,
    name: Seq<char>,
    al: Seq<PropertyAlias>,
    fuel: nat,
)
    requires
        at_most_one_local(al),
        alias_entry_rows(intel, store, e, name, al, fuel) is Ok,
    ensures
        alias_lookup(intel, store, e, al, fuel) == Ok::<Option<FoundView>, FaultView>(
            first_named(alias_entry_rows(intel, store, e, name, al, fuel)->Ok_0, name),
        ),
        forall|i: int|
            0 <= i < alias_entry_rows(intel, store, e, name, al, fuel)->Ok_0.len() ==> (
            #[trigger] alias_entry_rows(intel, store, e, name, al, fuel)->Ok_0[i]).0 == name,
    decreases al.len(),
{
    if al.len() > 0 {
        match al[0].original_entity {
            Some(ent) => {
                assert forall|i: int| 0 <= i < al.drop_first().len() implies #[trigger] al.drop_first()[i].original_entity is None by {
                    assert(al.drop_first()[i] == al[i + 1]);
                }
                lemma_alias_lookup_no_local(intel, store, e, al.drop_first(), fuel);
            },
            None => {
                assert(at_most_one_local(al.drop_first())) by {
                    assert forall|i: int, j: int| 0 <= i < j < al.drop_first().len() implies !(al.drop_first()[i].original_entity is Some && al.drop_first()[j].original_entity is Some) by {
                        assert(al.drop_first()[i] == al[i + 1]);
                        assert(al.drop_first()[j] == al[j + 1]);
                    }
                }
                lemma_alias_entry_agrees(intel, store, e, name, al.drop_first(), fuel);
            },
        }
    }
}

proof fn lemma_alias_rows_agree(
    intel: Intellisense,
    store: ResourceStore,
    e: Entity,
    m: Seq<(String, Vec<PropertyAlias>)>,
    p: Seq<char>,
    fuel: nat,
)
    requires
        forall|i: int, j: int| 0 <= i < j < m.len() ==> m[i].0@ != m[j].0@,
        forall|i: int| 0 <= i < m.len() ==> at_most_one_local(#[trigger] m[i].1@),
        alias_rows(intel, store, e, m, fuel) is Ok,
    ensures
        (match keyed(m, p) {
            Some(a) => alias_lookup(intel, store, e, a@, fuel),
            None => Ok(None),
        }) == Ok::<Option<FoundView>, FaultView>(
            first_named(alias_rows(intel, store, e, m, fuel)->Ok_0, p),
        ),
        forall|i: int|
            0 <= i < alias_rows(intel, store, e, m, fuel)->Ok_0.len() ==> keys(m).contains(
                (#[trigger] alias_rows(intel, store, e, m, fuel)->Ok_0[i]).0,
            ),
    decreases m.len(),
{
    if m.len() == 0 {
        assert(alias_rows(intel, store, e, m, fuel)->Ok_0 =~= Seq::<RowView>::empty());
    } else {
        let d = m.drop_last();
        let last = m.last();
        lemma_alias_rows_agree(intel, store, e, d, p, fuel);
        assert(m.len() - 1 < m.len());
        lemma_alias_entry_agrees(intel, store, e, last.0@, last.1@, fuel);
        let a = alias_rows(intel, store, e, d, fuel)->Ok_0;
        let x = alias_entry_rows(intel, store, e, last.0@, last.1@, fuel)->Ok_0;
        assert(m =~= d.push(last));
        crate::entity::lemma_keyed_push(d, last, p);
        lemma_first_named_concat(a, x, p);
        assert(keys(m) =~= keys(d).push(last.0@));
        assert forall|i: int| 0 <= i < (a + x).len() implies keys(m).contains(
            #[trigger] (a + x)[i].0,
        ) by {
            if i < a.len() {
                assert((a + x)[i] == a[i]);
                let k = choose|k: int| 0 <= k < keys(d).len() && keys(d)[k] == a[i].0;
                assert(keys(m)[k] == a[i].0);
            } else {
                assert((a + x)[i] == x[i - a.len()]);
                assert(keys(m)[d.len() as int] == last.0@);
            }
        }
        if last.0@ == p {
            assert forall|i: int| 0 <= i < d.len() implies d[i].0@ != p by {
                assert(d[i] == m[i]);
            }
            lemma_keyed_absent(d, p);
            assert forall|i: int| 0 <= i < a.len() implies a[i].0 != p by {
                let k = choose|k: int| 0 <= k < keys(d).len() && keys(d)[k] == a[i].0;
                assert(d[k] == m[k]);
            }
            lemma_first_named_absent(a, p, 0);
        } else {
            lemma_first_named_absent(x, p, 0);
        }
    }
}

} // verus!

verus! {

/// Looking one property up by name agrees with listing all properties,
/// for entities with simple aliases.
pub proof fn lemma_lookup_agrees_simple(
    intel: Intellisense,
    store: ResourceStore,
    e: Entity,
    sub: Seq<char>,
    p: Seq<char>,
    fuel: nat,
)
    requires
        simple_aliases(e),
        store_aliases_simple(store),
        properties(intel, store, e, sub, false, fuel) is Ok,
    ensures
        specific(intel, store, e, sub, p, fuel) == Ok::<Option<FoundView>, FaultView>(
            first_named(properties(intel, store, e, sub, false, fuel)->Ok_0, p),
        ),
    decreases fuel, 2nat, 0nat,
{
    let k = lemma_sub_entity_index(e.entities@, sub);
    let t = sub_entity(e.entities@, sub)->Some_0;
    assert(sub_aliases_simple(e.entities@[k]));
    let m = t.property_aliases@;
    lemma_alias_rows_agree(intel, store, e, m, p, fuel);
    let a = alias_rows(intel, store, e, m, fuel)->Ok_0;
    let o = own_rows(t);
    let fs = factory_list(intel, store, t.factory@)->Ok_0;
    let f = factories_rows(intel, store, fs, fuel)->Ok_0;
    lemma_factories_agree(intel, store, fs, p, fuel);
    lemma_first_named_concat(a + o, f, p);
    lemma_first_named_concat(a, o, p);
}

/// Looking up a name among several factories agrees with listing their
/// rows.
pub proof fn lemma_factories_agree(
    intel: Intellisense,
    store: ResourceStore,
    fs: Seq<Seq<char>>,
    p: Seq<char>,
    fuel: nat,
)
    requires
        store_aliases_simple(store),
        factories_rows(intel, store, fs, fuel) is Ok,
    ensures
        factories_lookup(intel, store, fs, p, fuel) == Ok::<Option<FoundView>, FaultView>(
            first_named(factories_rows(intel, store, fs, fuel)->Ok_0, p),
        ),
    decreases fuel, 1nat, fs.len(),
{
    if fs.len() > 0 {
        lemma_factories_rows_front(intel, store, fs, fuel);
        let x = factory_rows(intel, store, fs[0], fuel)->Ok_0;
        let y = factories_rows(intel, store, fs.drop_first(), fuel)->Ok_0;
        lemma_factory_agrees(intel, store, fs[0], p, fuel);
        lemma_factories_agree(intel, store, fs.drop_first(), p, fuel);
        lemma_first_named_concat(x, y, p);
    } else {
        assert(factories_rows(intel, store, fs, fuel)->Ok_0 =~= Seq::<RowView>::empty());
    }
}

/// Looking up a name among what one factory contributes agrees with
/// listing its rows.
pub proof fn lemma_factory_agrees(
    intel: Intellisense,
    store: ResourceStore,
    f: Seq<char>,
    p: Seq<char>,
    fuel: nat,
)
    requires
        store_aliases_simple(store),
        factory_rows(intel, store, f, fuel) is Ok,
    ensures
        factory_lookup(intel, store, f, p, fuel) == Ok::<Option<FoundView>, FaultView>(
            first_named(factory_rows(intel, store, f, fuel)->Ok_0, p),
        ),
    decreases fuel, 0nat, 0nat,
{
    match crate::store::factory_kind(intel, f) {
        FactoryKind::Uict => {
            let c = crate::resolve::cppt_rows(intel, store, crate::resolve::ui_control_class())->Ok_0;
            let es = crate::store::loaded(
                store.uicb_entries@,
                f,
                crate::store::NeedView::UicbEntries(f),
            )->Ok_0;
            let u = uicb_rows(intel.uicb_prop_types@, es@)->Ok_0;
            lemma_first_named_concat(c, u, p);
            lemma_uicb_lookup_agrees(intel.uicb_prop_types@, es@, p);
        },
        FactoryKind::Matt => {
            let c = crate::resolve::cppt_rows(intel, store, crate::resolve::material_class())->Ok_0;
            let ps = crate::resolve::matt_properties(intel, store, f)->Ok_0;
            lemma_first_named_concat(c, crate::blueprint::material_rows(ps), p);
        },
        FactoryKind::Ecpt => {
            let c = crate::resolve::cppt_rows(intel, store, crate::resolve::extended_class())->Ok_0;
            let ps = crate::store::loaded(
                store.ecpb_properties@,
                f,
                crate::store::NeedView::EcpbProperties(f),
            )->Ok_0;
            lemma_first_named_concat(c, crate::blueprint::extended_rows(ps@), p);
        },
        FactoryKind::Other => {
            match keyed(store.entities@, f) {
                Some(EntityLoad::Loaded(x)) => {
                    let k = lemma_keyed_index(store.entities@, f);
                    assert(match store.entities@[k].1 {
                        EntityLoad::Loaded(x) => simple_aliases(x),
                        _ => true,
                    });
                    lemma_lookup_agrees_simple(
                        intel,
                        store,
                        x,
                        x.root_entity@,
                        p,
                        (fuel - 1) as nat,
                    );
                },
                _ => {
                    if keyed(store.entities@, f) matches Some(EntityLoad::NotFound) {
                        assert(factory_rows(intel, store, f, fuel)->Ok_0 =~= Seq::<
                            RowView,
                        >::empty());
                    }
                },
            }
        },
        _ => {},
    }
}

} // verus!

verus! {

/// Each alias list of every sub-entity of `e` has at most one local alias.
pub open spec fn one_local_alias(e: Entity) -> bool {
    forall|k: int, i: int|
        0 <= k < e.entities@.len() && 0 <= i < e.entities@[k].property_aliases@.len()
            ==> at_most_one_local(#[trigger] e.entities@[k].property_aliases@[i].1@)
}

/// Every entity loaded into `store` is valid and has at most one local
/// alias in each alias list.
pub open spec fn store_entities_simple(store: ResourceStore) -> bool {
    forall|k: int|
        0 <= k < store.entities@.len() ==> match (#[trigger] store.entities@[k]).1 {
            EntityLoad::Loaded(x) => entity_valid(x) && one_local_alias(x),
            _ => true,
        }
}

proof fn lemma_simple_of_valid(e: Entity)
    requires
        entity_valid(e),
        one_local_alias(e),
    ensures
        simple_aliases(e),
{
    assert forall|k: int| 0 <= k < e.entities@.len() implies sub_aliases_simple(
        #[trigger] e.entities@[k],
    ) by {
        assert(sub_entity_valid(e.entities@[k]));
        assert forall|i: int| 0 <= i < e.entities@[k].property_aliases@.len() implies at_most_one_local(
            #[trigger] e.entities@[k].property_aliases@[i].1@,
        ) by {
            assert(at_most_one_local(e.entities@[k].property_aliases@[i].1@));
        }
    }
}

/// Looking one property up by name agrees with listing all properties:
/// where the listing of a sub-entity succeeds, the lookup of any name
/// succeeds too and finds the first listed row of that name (or nothing
/// when no row has it).
///
/// This holds for valid entities (each id and key occurring once, as the
/// entity format's maps hold) whose alias lists each have at most one local
/// alias, and likewise for the entities loaded into `store`: the listing
/// takes the first local alias of a name only, while the lookup tries every
/// local alias in turn.
pub proof fn law_lookup_agrees_with_listing(
    intel: Intellisense,
    store: ResourceStore,
    e: Entity,
    sub: Seq<char>,
    p: Seq<char>,
    fuel: nat,
)
    requires
        entity_valid(e),
        one_local_alias(e),
        store_entities_simple(store),
        properties(intel, store, e, sub, false, fuel) is Ok,
    ensures
        specific(intel, store, e, sub, p, fuel) == Ok::<Option<FoundView>, FaultView>(
            first_named(properties(intel, store, e, sub, false, fuel)->Ok_0, p),
        ),
{
    lemma_simple_of_valid(e);
    assert forall|k: int| 0 <= k < store.entities@.len() implies match (
    #[trigger] store.entities@[k]).1 {
        EntityLoad::Loaded(x) => simple_aliases(x),
        _ => true,
    } by {
        match store.entities@[k].1 {
            EntityLoad::Loaded(x) => lemma_simple_of_valid(x),
            _ => {},
        }
    }
    lemma_lookup_agrees_simple(intel, store, e, sub, p, fuel);
}

} // verus!
