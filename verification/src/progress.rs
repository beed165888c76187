//! Resolution asks only for what it lacks: every [`FaultView::Needs`]
//! names a resource that neither the caches nor the store hold, so loading
//! it always adds something new.

use crate::entity::{keyed, Entity, PropertyAlias};
use crate::resolve::{
    alias_entry_rows, alias_lookup, alias_rows, factories_lookup, factories_pins, factories_rows,
    factory_lookup, factory_pins, factory_rows, pins, properties, specific,
};
use crate::store::{FaultView, Intellisense, NeedView, ResourceStore};
use vstd::prelude::*;

verus! {

/// Whether the caches or the store already hold (or record the failure
/// of) the resource a need names.
pub open spec fn holds(intel: Intellisense, store: ResourceStore, n: NeedView) -> bool {
    match n {
        NeedView::CpptProperties(h) => keyed(intel.cppt_properties@, h) is Some || keyed(
            store.failed_cppts@,
            h,
        ) is Some,
        NeedView::AsetFactories(h) => keyed(store.aset_factories@, h) is Some,
        NeedView::UicbEntries(h) => keyed(store.uicb_entries@, h) is Some,
        NeedView::MattProperties(h) => keyed(intel.matt_properties@, h) is Some || keyed(
            store.failed_matts@,
            h,
        ) is Some,
        NeedView::Switches(h) => keyed(store.switches@, h) is Some,
        NeedView::EcpbProperties(h) => keyed(store.ecpb_properties@, h) is Some,
        NeedView::Entity(h) => keyed(store.entities@, h) is Some,
    }
}

/// An outcome asks only for resources that are not held.
pub open spec fn asks_only_missing<T>(
    intel: Intellisense,
    store: ResourceStore,
    r: Result<T, FaultView>,
) -> bool {
    r matches Err(FaultView::Needs(n)) ==> !holds(intel, store, n)
}

/// Listing the properties of a sub-entity asks only for missing resources.
pub proof fn law_properties_ask_only_missing(
    intel: Intellisense,
    store: ResourceStore,
    e: Entity,
    sub: Seq<char>,
    ignore_own: bool,
    fuel: nat,
)
    ensures
        asks_only_missing(intel, store, properties(intel, store, e, sub, ignore_own, fuel)),
    decreases fuel, 4nat, 0nat,
{
    if let Some(t) = crate::entity::sub_entity(e.entities@, sub) {
        lemma_alias_rows_ask(intel, store, e, t.property_aliases@, fuel);
        if let Ok(fs) = crate::store::factory_list(intel, store, t.factory@) {
            lemma_factories_rows_ask(intel, store, fs, fuel);
        }
    }
}

proof fn lemma_alias_rows_ask(
    intel: Intellisense,
    store: ResourceStore,
    e: Entity,
    m: Seq<(String, Vec<PropertyAlias>)>,
    fuel: nat,
)
    ensures
        asks_only_missing(intel, store, alias_rows(intel, store, e, m, fuel)),
    decreases fuel, 3nat, m.len(),
{
    if m.len() > 0 {
        lemma_alias_rows_ask(intel, store, e, m.drop_last(), fuel);
        lemma_alias_entry_ask(intel, store, e, m.last().0@, m.last().1@, fuel);
    }
}

proof fn lemma_alias_entry_ask(
    intel: Intellisense,
    store: ResourceStore,
    e: Entity,
    name: Seq<char>,
    al: Seq<PropertyAlias>,
    fuel: nat,
)
    ensures
        asks_only_missing(intel, store, alias_entry_rows(intel, store, e, name, al, fuel)),
    decreases fuel, 2nat, al.len(),
{
    if al.len() > 0 {
        match al[0].original_entity {
            Some(ent) => if fuel > 0 {
                law_specific_asks_only_missing(
                    intel,
                    store,
                    e,
                    ent@,
                    al[0].original_property@,
                    (fuel - 1) as nat,
                );
            },
            None => lemma_alias_entry_ask(intel, store, e, name, al.drop_first(), fuel),
        }
    }
}

proof fn lemma_factories_rows_ask(
    intel: Intellisense,
    store: ResourceStore,
    fs: Seq<Seq<char>>,
    fuel: nat,
)
    ensures
        asks_only_missing(intel, store, factories_rows(intel, store, fs, fuel)),
    decreases fuel, 2nat, fs.len(),
{
    if fs.len() > 0 {
        lemma_factories_rows_ask(intel, store, fs.drop_last(), fuel);
        lemma_factory_rows_ask(intel, store, fs.last(), fuel);
    }
}

proof fn lemma_factory_rows_ask(intel: Intellisense, store: ResourceStore, f: Seq<char>, fuel: nat)
    ensures
        asks_only_missing(intel, store, factory_rows(intel, store, f, fuel)),
    decreases fuel, 1nat, 0nat,
{
    if fuel > 0 {
        if let Some(crate::store::EntityLoad::Loaded(x)) = keyed(store.entities@, f) {
            law_properties_ask_only_missing(
                intel,
                store,
                x,
                x.root_entity@,
                false,
                (fuel - 1) as nat,
            );
        }
    }
}

/// Looking up one property asks only for missing resources.
pub proof fn law_specific_asks_only_missing(
    intel: Intellisense,
    store: ResourceStore,
    e: Entity,
    sub: Seq<char>,
    prop: Seq<char>,
    fuel: nat,
)
    ensures
        asks_only_missing(intel, store, specific(intel, store, e, sub, prop, fuel)),
    decreases fuel, 4nat, 0nat,
{
    if let Some(t) = crate::entity::sub_entity(e.entities@, sub) {
        if let Some(a) = keyed(t.property_aliases@, prop) {
            lemma_alias_lookup_ask(intel, store, e, a@, fuel);
        }
        if let Ok(fs) = crate::store::factory_list(intel, store, t.factory@) {
            lemma_factories_lookup_ask(intel, store, fs, prop, fuel);
        }
    }
}

proof fn lemma_alias_lookup_ask(
    intel: Intellisense,
    store: ResourceStore,
    e: Entity,
    al: Seq<PropertyAlias>,
    fuel: nat,
)
    ensures
        asks_only_missing(intel, store, alias_lookup(intel, store, e, al, fuel)),
    decreases fuel, 2nat, al.len(),
{
    if al.len() > 0 {
        lemma_alias_lookup_ask(intel, store, e, al.drop_first(), fuel);
        if let Some(ent) = al[0].original_entity {
            if fuel > 0 {
                law_specific_asks_only_missing(
                    intel,
                    store,
                    e,
                    ent@,
                    al[0].original_property@,
                    (fuel - 1) as nat,
                );
            }
        }
    }
}

proof fn lemma_factories_lookup_ask(
    intel: Intellisense,
    store: ResourceStore,
    fs: Seq<Seq<char>>,
    prop: Seq<char>,
    fuel: nat,
)
    ensures
        asks_only_missing(intel, store, factories_lookup(intel, store, fs, prop, fuel)),
    decreases fuel, 2nat, fs.len(),
{
    if fs.len() > 0 {
        lemma_factory_lookup_ask(intel, store, fs[0], prop, fuel);
        lemma_factories_lookup_ask(intel, store, fs.drop_first(), prop, fuel);
    }
}

proof fn lemma_factory_lookup_ask(
    intel: Intellisense,
    store: ResourceStore,
    f: Seq<char>,
    prop: Seq<char>,
    fuel: nat,
)
    ensures
        asks_only_missing(intel, store, factory_lookup(intel, store, f, prop, fuel)),
    decreases fuel, 1nat, 0nat,
{
    if fuel > 0 {
        if let Some(crate::store::EntityLoad::Loaded(x)) = keyed(store.entities@, f) {
            law_specific_asks_only_missing(intel, store, x, x.root_entity@, prop, (fuel - 1) as nat);
        }
    }
}

/// Gathering the pins of a sub-entity asks only for missing resources.
pub proof fn law_pins_ask_only_missing(
    intel: Intellisense,
    store: ResourceStore,
    e: Entity,
    sub: Seq<char>,
    ignore_own: bool,
    fuel: nat,
)
    ensures
        asks_only_missing(intel, store, pins(intel, store, e, sub, ignore_own, fuel)),
    decreases fuel, 4nat, 0nat,
{
    if let Some(t) = crate::entity::sub_entity(e.entities@, sub) {
        if let Ok(fs) = crate::store::factory_list(intel, store, t.factory@) {
            lemma_factories_pins_ask(intel, store, fs, fuel);
        }
    }
}

proof fn lemma_factories_pins_ask(
    intel: Intellisense,
    store: ResourceStore,
    fs: Seq<Seq<char>>,
    fuel: nat,
)
    ensures
        asks_only_missing(intel, store, factories_pins(intel, store, fs, fuel)),
    decreases fuel, 2nat, fs.len(),
{
    if fs.len() > 0 {
        lemma_factories_pins_ask(intel, store, fs.drop_last(), fuel);
        lemma_factory_pins_ask(intel, store, fs.last(), fuel);
    }
}

proof fn lemma_factory_pins_ask(intel: Intellisense, store: ResourceStore, f: Seq<char>, fuel: nat)
    ensures
        asks_only_missing(intel, store, factory_pins(intel, store, f, fuel)),
    decreases fuel, 1nat, 0nat,
{
    if fuel > 0 {
        if let Some(crate::store::EntityLoad::Loaded(x)) = keyed(store.entities@, f) {
            law_pins_ask_only_missing(intel, store, x, x.root_entity@, false, (fuel - 1) as nat);
        }
    }
}

} // verus!
