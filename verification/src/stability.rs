//! Loading more never changes a settled answer: once resolution answers
//! (with a result or a failure) for some caches and store, it gives the
//! same answer for any caches and store that hold at least as much.

use crate::entity::{keyed, Entity, PropertyAlias};
use crate::resolve::{
    alias_entry_rows, alias_lookup, alias_rows, factories_lookup, factories_pins, factories_rows,
    factory_lookup, factory_pins, factory_rows, pins, properties, specific,
};
use crate::store::{FaultView, Intellisense, ResourceStore};
use vstd::prelude::*;

verus! {

/// `b` holds every entry that `a` holds, unchanged.
pub open spec fn keeps<T>(a: Seq<(String, T)>, b: Seq<(String, T)>) -> bool {
    forall|k: Seq<char>| keyed(a, k) is Some ==> #[trigger] keyed(b, k) == keyed(a, k)
}

/// `c2` and `f2` hold every cached value and recorded failure of `c1` and
/// `f1`, and add neither to a key that already had one.
pub open spec fn keeps_cache<T>(
    c1: Seq<(String, T)>,
    f1: Seq<(String, String)>,
    c2: Seq<(String, T)>,
    f2: Seq<(String, String)>,
) -> bool {
    forall|k: Seq<char>|
        (keyed(c1, k) is Some || keyed(f1, k) is Some) ==> #[trigger] keyed(c2, k) == keyed(c1, k)
            && #[trigger] keyed(f2, k) == keyed(f1, k)
}

/// `(i2, s2)` holds at least what `(i1, s1)` holds: the same catalogues and
/// tables, and every cache entry, recorded failure and loaded resource of
/// the first, unchanged.
pub open spec fn holds_more(
    i1: Intellisense,
    s1: ResourceStore,
    i2: Intellisense,
    s2: ResourceStore,
) -> bool {
    &&& i2.cppt_pins == i1.cppt_pins
    &&& i2.uicb_prop_types == i1.uicb_prop_types
    &&& i2.all_cppts == i1.all_cppts
    &&& i2.all_asets == i1.all_asets
    &&& i2.all_uicts == i1.all_uicts
    &&& i2.all_matts == i1.all_matts
    &&& i2.all_wswts == i1.all_wswts
    &&& i2.all_ecpts == i1.all_ecpts
    &&& i2.all_aibxs == i1.all_aibxs
    &&& keeps_cache(i1.cppt_properties@, s1.failed_cppts@, i2.cppt_properties@, s2.failed_cppts@)
    &&& keeps_cache(i1.matt_properties@, s1.failed_matts@, i2.matt_properties@, s2.failed_matts@)
    &&& keeps(s1.aset_factories@, s2.aset_factories@)
    &&& keeps(s1.uicb_entries@, s2.uicb_entries@)
    &&& keeps(s1.switches@, s2.switches@)
    &&& keeps(s1.ecpb_properties@, s2.ecpb_properties@)
    &&& keeps(s1.entities@, s2.entities@)
}

/// An answer that does not ask for anything stays the same.
pub open spec fn settled_same<T>(r1: Result<T, FaultView>, r2: Result<T, FaultView>) -> bool {
    !(r1 matches Err(FaultView::Needs(_))) ==> r2 == r1
}

/// Loading more never changes a settled listing of properties.
pub proof fn law_properties_settle(
    intel: Intellisense,
    store: ResourceStore,
    i2: Intellisense,
    s2: ResourceStore,
    e: Entity,
    sub: Seq<char>,
    ignore_own: bool,
    fuel: nat,
)
    requires
        holds_more(intel, store, i2, s2),
    ensures
        settled_same(
            properties(intel, store, e, sub, ignore_own, fuel),
            properties(i2, s2, e, sub, ignore_own, fuel),
        ),
    decreases fuel, 4nat, 0nat,
{
    if let Some(t) = crate::entity::sub_entity(e.entities@, sub) {
        lemma_alias_rows_settle(intel, store, i2, s2, e, t.property_aliases@, fuel);
        if let Ok(fs) = crate::store::factory_list(intel, store, t.factory@) {
            lemma_factories_rows_settle(intel, store, i2, s2, fs, fuel);
        }
    }
}

proof fn lemma_alias_rows_settle(
    intel: Intellisense,
    store: ResourceStore,
    i2: Intellisense,
    s2: ResourceStore,
    e: Entity,
    m: Seq<(String, Vec<PropertyAlias>)>,
    fuel: nat,
)
    requires
        holds_more(intel, store, i2, s2),
    ensures
        settled_same(
            alias_rows(intel, store, e, m, fuel),
            alias_rows(i2, s2, e, m, fuel),
        ),
    decreases fuel, 3nat, m.len(),
{
    if m.len() > 0 {
        lemma_alias_rows_settle(intel, store, i2, s2, e, m.drop_last(), fuel);
        lemma_alias_entry_settle(intel, store, i2, s2, e, m.last().0@, m.last().1@, fuel);
    }
}

proof fn lemma_alias_entry_settle(
    intel: Intellisense,
    store: ResourceStore,
    i2: Intellisense,
    s2: ResourceStore,
    e: Entity,
    name: Seq<char>,
    al: Seq<PropertyAlias>,
    fuel: nat,
)
    requires
        holds_more(intel, store, i2, s2),
    ensures
        settled_same(
            alias_entry_rows(intel, store, e, name, al, fuel),
            alias_entry_rows(i2, s2, e, name, al, fuel),
        ),
    decreases fuel, 2nat, al.len(),
{
    if al.len() > 0 {
        match al[0].original_entity {
            Some(ent) => if fuel > 0 {
                law_specific_settles(
                intel,
                store,
                i2,
                s2,
                    e,
                    ent@,
                    al[0].original_property@,
                    (fuel - 1) as nat,
                );
            },
            None => lemma_alias_entry_settle(intel, store, i2, s2, e, name, al.drop_first(), fuel),
        }
    }
}

proof fn lemma_factories_rows_settle(
    intel: Intellisense,
    store: ResourceStore,
    i2: Intellisense,
    s2: ResourceStore,
    fs: Seq<Seq<char>>,
    fuel: nat,
)
    requires
        holds_more(intel, store, i2, s2),
    ensures
        settled_same(
            factories_rows(intel, store, fs, fuel),
            factories_rows(i2, s2, fs, fuel),
        ),
    decreases fuel, 2nat, fs.len(),
{
    if fs.len() > 0 {
        lemma_factories_rows_settle(intel, store, i2, s2, fs.drop_last(), fuel);
        lemma_factory_rows_settle(intel, store, i2, s2, fs.last(), fuel);
    }
}

proof fn lemma_factory_rows_settle(
    intel: Intellisense,
    store: ResourceStore,
    i2: Intellisense,
    s2: ResourceStore,
    f: Seq<char>,
    fuel: nat,
)
    requires
        holds_more(intel, store, i2, s2),
    ensures
        settled_same(
            factory_rows(intel, store, f, fuel),
            factory_rows(i2, s2, f, fuel),
        ),
    decreases fuel, 1nat, 0nat,
{
    if fuel > 0 {
        if let Some(crate::store::EntityLoad::Loaded(x)) = keyed(store.entities@, f) {
            law_properties_settle(
                intel,
                store,
                i2,
                s2,
                x,
                x.root_entity@,
                false,
                (fuel - 1) as nat,
            );
        }
    }
}

/// Loading more never changes a settled lookup of one property.
pub proof fn law_specific_settles(
    intel: Intellisense,
    store: ResourceStore,
    i2: Intellisense,
    s2: ResourceStore,
    e: Entity,
    sub: Seq<char>,
    prop: Seq<char>,
    fuel: nat,
)
    requires
        holds_more(intel, store, i2, s2),
    ensures
        settled_same(
            specific(intel, store, e, sub, prop, fuel),
            specific(i2, s2, e, sub, prop, fuel),
        ),
    decreases fuel, 4nat, 0nat,
{
    if let Some(t) = crate::entity::sub_entity(e.entities@, sub) {
        if let Some(a) = keyed(t.property_aliases@, prop) {
            lemma_alias_lookup_settle(intel, store, i2, s2, e, a@, fuel);
        }
        if let Ok(fs) = crate::store::factory_list(intel, store, t.factory@) {
            lemma_factories_lookup_settle(intel, store, i2, s2, fs, prop, fuel);
        }
    }
}

proof fn lemma_alias_lookup_settle(
    intel: Intellisense,
    store: ResourceStore,
    i2: Intellisense,
    s2: ResourceStore,
    e: Entity,
    al: Seq<PropertyAlias>,
    fuel: nat,
)
    requires
        holds_more(intel, store, i2, s2),
    ensures
        settled_same(
            alias_lookup(intel, store, e, al, fuel),
            alias_lookup(i2, s2, e, al, fuel),
        ),
    decreases fuel, 2nat, al.len(),
{
    if al.len() > 0 {
        lemma_alias_lookup_settle(intel, store, i2, s2, e, al.drop_first(), fuel);
        if let Some(ent) = al[0].original_entity {
            if fuel > 0 {
                law_specific_settles(
                intel,
                store,
                i2,
                s2,
                    e,
                    ent@,
                    al[0].original_property@,
                    (fuel - 1) as nat,
                );
            }
        }
    }
}

proof fn lemma_factories_lookup_settle(
    intel: Intellisense,
    store: ResourceStore,
    i2: Intellisense,
    s2: ResourceStore,
    fs: Seq<Seq<char>>,
    prop: Seq<char>,
    fuel: nat,
)
    requires
        holds_more(intel, store, i2, s2),
    ensures
        settled_same(
            factories_lookup(intel, store, fs, prop, fuel),
            factories_lookup(i2, s2, fs, prop, fuel),
        ),
    decreases fuel, 2nat, fs.len(),
{
    if fs.len() > 0 {
        lemma_factory_lookup_settle(intel, store, i2, s2, fs[0], prop, fuel);
        lemma_factories_lookup_settle(intel, store, i2, s2, fs.drop_first(), prop, fuel);
    }
}

proof fn lemma_factory_lookup_settle(
    intel: Intellisense,
    store: ResourceStore,
    i2: Intellisense,
    s2: ResourceStore,
    f: Seq<char>,
    prop: Seq<char>,
    fuel: nat,
)
    requires
        holds_more(intel, store, i2, s2),
    ensures
        settled_same(
            factory_lookup(intel, store, f, prop, fuel),
            factory_lookup(i2, s2, f, prop, fuel),
        ),
    decreases fuel, 1nat, 0nat,
{
    if fuel > 0 {
        if let Some(crate::store::EntityLoad::Loaded(x)) = keyed(store.entities@, f) {
            law_specific_settles(intel, store, i2, s2, x, x.root_entity@, prop, (fuel - 1) as nat);
        }
    }
}

/// Loading more never changes settled pins.
pub proof fn law_pins_settle(
    intel: Intellisense,
    store: ResourceStore,
    i2: Intellisense,
    s2: ResourceStore,
    e: Entity,
    sub: Seq<char>,
    ignore_own: bool,
    fuel: nat,
)
    requires
        holds_more(intel, store, i2, s2),
    ensures
        settled_same(
            pins(intel, store, e, sub, ignore_own, fuel),
            pins(i2, s2, e, sub, ignore_own, fuel),
        ),
    decreases fuel, 4nat, 0nat,
{
    if let Some(t) = crate::entity::sub_entity(e.entities@, sub) {
        if let Ok(fs) = crate::store::factory_list(intel, store, t.factory@) {
            lemma_factories_pins_settle(intel, store, i2, s2, fs, fuel);
        }
    }
}

proof fn lemma_factories_pins_settle(
    intel: Intellisense,
    store: ResourceStore,
    i2: Intellisense,
    s2: ResourceStore,
    fs: Seq<Seq<char>>,
    fuel: nat,
)
    requires
        holds_more(intel, store, i2, s2),
    ensures
        settled_same(
            factories_pins(intel, store, fs, fuel),
            factories_pins(i2, s2, fs, fuel),
        ),
    decreases fuel, 2nat, fs.len(),
{
    if fs.len() > 0 {
        lemma_factories_pins_settle(intel, store, i2, s2, fs.drop_last(), fuel);
        lemma_factory_pins_settle(intel, store, i2, s2, fs.last(), fuel);
    }
}

proof fn lemma_factory_pins_settle(
    intel: Intellisense,
    store: ResourceStore,
    i2: Intellisense,
    s2: ResourceStore,
    f: Seq<char>,
    fuel: nat,
)
    requires
        holds_more(intel, store, i2, s2),
    ensures
        settled_same(
            factory_pins(intel, store, f, fuel),
            factory_pins(i2, s2, f, fuel),
        ),
    decreases fuel, 1nat, 0nat,
{
    if fuel > 0 {
        if let Some(crate::store::EntityLoad::Loaded(x)) = keyed(store.entities@, f) {
            law_pins_settle(intel, store, i2, s2, x, x.root_entity@, false, (fuel - 1) as nat);
        }
    }
}

} // verus!
