//! Resolving the properties and pins of a sub-entity.
//!
//! Resolution reads what [`Intellisense`] and a [`ResourceStore`] hold.
//! When it reaches a resource that has not been loaded, it stops with
//! [`Fault::Needs`]; the caller loads that resource into the store (or
//! records why it could not) and asks again. Each answer is therefore the
//! answer of a resolution that loads resources as it reaches them.

use crate::blueprint::{
    extended_rows, material_pins, material_rows, uicb_lookup, uicb_pins, uicb_rows,
    MaterialProperty,
};
use crate::cppt::CpptView;
use crate::entity::{
    keyed, keys, own_rows, referencing_inputs, referencing_outputs, sub_entity, Entity,
    PropertyAlias,
};
use crate::model::{ContextView, ErrorView, RowView, ValueView};
use crate::rows::{first_named, FoundView};
use crate::store::{
    cached, factory_kind, factory_list, load_failure, loaded, EntityLoad, FactoryKind, FaultView,
    Intellisense, NeedView, ResourceStore,
};
use crate::unique::unique;
use vstd::prelude::*;

verus! {

/// An outcome with its failure put under the context `c`; what it asks
/// for and what it answers are unchanged.
pub open spec fn within<T>(c: ContextView, r: Result<T, FaultView>) -> Result<T, FaultView> {
    match r {
        Err(FaultView::Fails(x)) => Err(FaultView::Fails(ErrorView::Within { context: c, cause: Box::new(x) })),
        _ => r,
    }
}

/// The class whose properties and pins every UI control has.
pub open spec fn ui_control_class() -> Seq<char> {
    "002C4526CC9753E6"@
}

/// The class whose properties and pins every material has.
pub open spec fn material_class() -> Seq<char> {
    "00B4B11DA327CAD0"@
}

/// The class whose properties and pins every switch group has.
pub open spec fn switch_class() -> Seq<char> {
    "00797DC916520C4D"@
}

/// The class whose properties and pins every extended class has.
pub open spec fn extended_class() -> Seq<char> {
    "00D3003AAA7B3817"@
}

/// The class whose properties and pins every behaviour tree has.
pub open spec fn behaviour_tree_class() -> Seq<char> {
    "0028607138892D70"@
}

/// Input and output pin names.
pub type PinsView = (Seq<Seq<char>>, Seq<Seq<char>>);

/// Two row lists one after the other, or the first fault of either.
pub open spec fn then_rows(
    a: Result<Seq<RowView>, FaultView>,
    b: Result<Seq<RowView>, FaultView>,
) -> Result<Seq<RowView>, FaultView> {
    match a {
        Err(e) => Err(e),
        Ok(x) => match b {
            Err(e) => Err(e),
            Ok(y) => Ok(x + y),
        },
    }
}

/// A row list whose error is a failure.
pub open spec fn lift_rows(r: Result<Seq<RowView>, ErrorView>) -> Result<Seq<RowView>, FaultView> {
    match r {
        Ok(v) => Ok(v),
        Err(e) => Err(FaultView::Fails(e)),
    }
}

/// The rows of a converted class table: each property, not post-init.
pub open spec fn class_rows(t: Seq<CpptView>) -> Seq<RowView> {
    t.map_values(|p: CpptView| (p.0, p.1, p.2, false))
}

/// The rows of the class `h`, from the cache.
pub open spec fn cppt_rows(intel: Intellisense, store: ResourceStore, h: Seq<char>) -> Result<
    Seq<RowView>,
    FaultView,
> {
    match cached(
        intel.cppt_properties@,
        store.failed_cppts@,
        h,
        NeedView::CpptProperties(h),
    ) {
        Ok(t) => Ok(class_rows(t.deep_view())),
        Err(e) => Err(e),
    }
}

/// The properties of the material `h`, from the cache.
pub open spec fn matt_properties(intel: Intellisense, store: ResourceStore, h: Seq<char>) -> Result<
    Seq<MaterialProperty>,
    FaultView,
> {
    match cached(
        intel.matt_properties@,
        store.failed_matts@,
        h,
        NeedView::MattProperties(h),
    ) {
        Ok(ps) => Ok(ps@),
        Err(e) => Err(e),
    }
}

/// The rows a factory contributes: a class its table; a UI control the UI
/// control class and its UI blueprint; a material the material class and
/// its material properties; a switch group, an extended class (plus its
/// blueprint) and a behaviour tree their base classes; any other factory
/// is an entity whose root sub-entity's rows it contributes (nothing when
/// no package holds it).
pub open spec fn factory_rows(
    intel: Intellisense,
    store: ResourceStore,
    f: Seq<char>,
    fuel: nat,
) -> Result<Seq<RowView>, FaultView>
    decreases fuel, 1nat, 0nat,
{
    match factory_kind(intel, f) {
        FactoryKind::Cppt => cppt_rows(intel, store, f),
        FactoryKind::Uict => then_rows(
            cppt_rows(intel, store, ui_control_class()),
            match loaded(store.uicb_entries@, f, NeedView::UicbEntries(f)) {
                Ok(es) => lift_rows(uicb_rows(intel.uicb_prop_types@, es@)),
                Err(x) => Err(x),
            },
        ),
        FactoryKind::Matt => then_rows(
            cppt_rows(intel, store, material_class()),
            match matt_properties(intel, store, f) {
                Ok(ps) => Ok(material_rows(ps)),
                Err(x) => Err(x),
            },
        ),
        FactoryKind::Wswt => cppt_rows(intel, store, switch_class()),
        FactoryKind::Ecpt => then_rows(
            cppt_rows(intel, store, extended_class()),
            match loaded(store.ecpb_properties@, f, NeedView::EcpbProperties(f)) {
                Ok(ps) => Ok(extended_rows(ps@)),
                Err(x) => Err(x),
            },
        ),
        FactoryKind::Aibx => cppt_rows(intel, store, behaviour_tree_class()),
        FactoryKind::Other => if fuel == 0 {
            Err(FaultView::Fails(ErrorView::TooDeep))
        } else {
            match keyed(store.entities@, f) {
                Some(EntityLoad::Loaded(x)) => properties(
                    intel,
                    store,
                    x,
                    x.root_entity@,
                    false,
                    (fuel - 1) as nat,
                ),
                Some(EntityLoad::NotFound) => Ok(Seq::empty()),
                Some(EntityLoad::Failed(m)) => Err(load_failure(m@)),
                None => Err(FaultView::Needs(NeedView::Entity(f))),
            }
        },
    }
}

/// The rows of several factories, in order.
pub open spec fn factories_rows(
    intel: Intellisense,
    store: ResourceStore,
    fs: Seq<Seq<char>>,
    fuel: nat,
) -> Result<Seq<RowView>, FaultView>
    decreases fuel, 2nat, fs.len(),
{
    if fs.len() == 0 {
        Ok(Seq::empty())
    } else {
        then_rows(
            factories_rows(intel, store, fs.drop_last(), fuel),
            factory_rows(intel, store, fs.last(), fuel),
        )
    }
}

/// The row an aliased property contributes: the first alias that points at
/// a local sub-entity is looked up there, and gives a row under the alias
/// name when that sub-entity has the property.
pub open spec fn alias_entry_rows(
    intel: Intellisense,
    store: ResourceStore,
    e: Entity,
    name: Seq<char>,
    aliases: Seq<PropertyAlias>,
    fuel: nat,
) -> Result<Seq<RowView>, FaultView>
    decreases fuel, 2nat, aliases.len(),
{
    if aliases.len() == 0 {
        Ok(Seq::empty())
    } else {
        match aliases[0].original_entity {
            Some(ent) => if fuel == 0 {
                Err(FaultView::Fails(ErrorView::TooDeep))
            } else {
                match specific(
                    intel,
                    store,
                    e,
                    ent@,
                    aliases[0].original_property@,
                    (fuel - 1) as nat,
                ) {
                    Ok(Some(d)) => Ok(seq![(name, d.0, d.1, d.2)]),
                    Ok(None) => Ok(Seq::empty()),
                    Err(x) => Err(x),
                }
            },
            None => alias_entry_rows(intel, store, e, name, aliases.drop_first(), fuel),
        }
    }
}

/// The rows of all aliased properties of a sub-entity, in order.
pub open spec fn alias_rows(
    intel: Intellisense,
    store: ResourceStore,
    e: Entity,
    m: Seq<(String, Vec<PropertyAlias>)>,
    fuel: nat,
) -> Result<Seq<RowView>, FaultView>
    decreases fuel, 3nat, m.len(),
{
    if m.len() == 0 {
        Ok(Seq::empty())
    } else {
        then_rows(
            alias_rows(intel, store, e, m.drop_last(), fuel),
            alias_entry_rows(intel, store, e, m.last().0@, m.last().1@, fuel),
        )
    }
}

/// The properties of the sub-entity `sub` of `e`: its aliased properties,
/// then (unless `ignore_own`) the properties it sets itself, then the rows
/// of the factories its factory stands for. `fuel` bounds the nesting of
/// aliases and entities that resolution follows.
pub open spec fn properties(
    intel: Intellisense,
    store: ResourceStore,
    e: Entity,
    sub: Seq<char>,
    ignore_own: bool,
    fuel: nat,
) -> Result<Seq<RowView>, FaultView>
    decreases fuel, 4nat, 0nat,
{
    within(
        ContextView::Properties { sub_entity: sub, factory_hash: e.factory_hash@ },
        match sub_entity(e.entities@, sub) {
            None => Err(FaultView::Fails(ErrorView::NoSuchSubEntity)),
            Some(t) => then_rows(
                then_rows(
                    alias_rows(intel, store, e, t.property_aliases@, fuel),
                    Ok(
                        if ignore_own {
                            Seq::empty()
                        } else {
                            own_rows(t)
                        },
                    ),
                ),
                match factory_list(intel, store, t.factory@) {
                    Ok(fs) => factories_rows(intel, store, fs, fuel),
                    Err(x) => Err(x),
                },
            ),
        },
    )
}

/// A lookup whose error is a failure.
pub open spec fn lift_lookup(r: Result<Option<FoundView>, ErrorView>) -> Result<
    Option<FoundView>,
    FaultView,
> {
    match r {
        Ok(v) => Ok(v),
        Err(e) => Err(FaultView::Fails(e)),
    }
}

/// Looking up a property in the table of the class `h`.
pub open spec fn class_lookup(
    intel: Intellisense,
    store: ResourceStore,
    h: Seq<char>,
    prop: Seq<char>,
) -> Result<Option<FoundView>, FaultView> {
    match cppt_rows(intel, store, h) {
        Ok(r) => Ok(first_named(r, prop)),
        Err(x) => Err(x),
    }
}

/// Looking up a property among what a factory contributes, in the order
/// [`factory_rows`] lists it (a UI blueprint is searched entry by entry).
pub open spec fn factory_lookup(
    intel: Intellisense,
    store: ResourceStore,
    f: Seq<char>,
    prop: Seq<char>,
    fuel: nat,
) -> Result<Option<FoundView>, FaultView>
    decreases fuel, 1nat, 0nat,
{
    match factory_kind(intel, f) {
        FactoryKind::Cppt => class_lookup(intel, store, f, prop),
        FactoryKind::Uict => match class_lookup(intel, store, ui_control_class(), prop) {
            Ok(None) => match loaded(store.uicb_entries@, f, NeedView::UicbEntries(f)) {
                Ok(es) => lift_lookup(uicb_lookup(intel.uicb_prop_types@, es@, prop)),
                Err(x) => Err(x),
            },
            other => other,
        },
        FactoryKind::Matt => match class_lookup(intel, store, material_class(), prop) {
            Ok(None) => match matt_properties(intel, store, f) {
                Ok(ps) => Ok(first_named(material_rows(ps), prop)),
                Err(x) => Err(x),
            },
            other => other,
        },
        FactoryKind::Wswt => class_lookup(intel, store, switch_class(), prop),
        FactoryKind::Ecpt => match class_lookup(intel, store, extended_class(), prop) {
            Ok(None) => match loaded(store.ecpb_properties@, f, NeedView::EcpbProperties(f)) {
                Ok(ps) => Ok(first_named(extended_rows(ps@), prop)),
                Err(x) => Err(x),
            },
            other => other,
        },
        FactoryKind::Aibx => class_lookup(intel, store, behaviour_tree_class(), prop),
        FactoryKind::Other => if fuel == 0 {
            Err(FaultView::Fails(ErrorView::TooDeep))
        } else {
            match keyed(store.entities@, f) {
                Some(EntityLoad::Loaded(x)) => specific(
                    intel,
                    store,
                    x,
                    x.root_entity@,
                    prop,
                    (fuel - 1) as nat,
                ),
                Some(EntityLoad::NotFound) => Ok(None),
                Some(EntityLoad::Failed(m)) => Err(load_failure(m@)),
                None => Err(FaultView::Needs(NeedView::Entity(f))),
            }
        },
    }
}

/// Looking up a property among several factories: the first that has it
/// answers.
pub open spec fn factories_lookup(
    intel: Intellisense,
    store: ResourceStore,
    fs: Seq<Seq<char>>,
    prop: Seq<char>,
    fuel: nat,
) -> Result<Option<FoundView>, FaultView>
    decreases fuel, 2nat, fs.len(),
{
    if fs.len() == 0 {
        Ok(None)
    } else {
        match factory_lookup(intel, store, fs[0], prop, fuel) {
            Ok(None) => factories_lookup(intel, store, fs.drop_first(), prop, fuel),
            other => other,
        }
    }
}

/// Looking up a property through aliases: each alias that points at a
/// local sub-entity is tried in turn, and the first that finds the
/// property answers.
pub open spec fn alias_lookup(
    intel: Intellisense,
    store: ResourceStore,
    e: Entity,
    aliases: Seq<PropertyAlias>,
    fuel: nat,
) -> Result<Option<FoundView>, FaultView>
    decreases fuel, 2nat, aliases.len(),
{
    if aliases.len() == 0 {
        Ok(None)
    } else {
        match aliases[0].original_entity {
            Some(ent) => if fuel == 0 {
                Err(FaultView::Fails(ErrorView::TooDeep))
            } else {
                match specific(
                    intel,
                    store,
                    e,
                    ent@,
                    aliases[0].original_property@,
                    (fuel - 1) as nat,
                ) {
                    Ok(None) => alias_lookup(intel, store, e, aliases.drop_first(), fuel),
                    other => other,
                }
            },
            None => alias_lookup(intel, store, e, aliases.drop_first(), fuel),
        }
    }
}

/// The type, default value and post-init status of the property `prop` of
/// the sub-entity `sub` of `e`: through its aliases of that name, then its
/// own property, then the factories its factory stands for.
pub open spec fn specific(
    intel: Intellisense,
    store: ResourceStore,
    e: Entity,
    sub: Seq<char>,
    prop: Seq<char>,
    fuel: nat,
) -> Result<Option<FoundView>, FaultView>
    decreases fuel, 4nat, 0nat,
{
    within(
        ContextView::Property { property: prop, sub_entity: sub, factory_hash: e.factory_hash@ },
        match sub_entity(e.entities@, sub) {
            None => Err(FaultView::Fails(ErrorView::NoSuchSubEntity)),
            Some(t) => match (match keyed(t.property_aliases@, prop) {
                Some(a) => alias_lookup(intel, store, e, a@, fuel),
                None => Ok(None),
            }) {
                Ok(None) => match first_named(own_rows(t), prop) {
                    Some(d) => Ok(Some(d)),
                    None => match factory_list(intel, store, t.factory@) {
                        Ok(fs) => factories_lookup(intel, store, fs, prop, fuel),
                        Err(x) => Err(x),
                    },
                },
                other => other,
            },
        },
    )
}

/// The pins of the class `h`, from the table of pins.
pub open spec fn class_pins(intel: Intellisense, h: Seq<char>) -> Result<PinsView, FaultView> {
    match keyed(intel.cppt_pins@, h) {
        Some(p) => Ok((p.0.deep_view(), p.1.deep_view())),
        None => Err(FaultView::Fails(ErrorView::NoSuchCpptInPins)),
    }
}

/// Pins with more input pins added.
pub open spec fn more_inputs(p: Result<PinsView, FaultView>, more: Result<Seq<Seq<char>>, FaultView>) -> Result<
    PinsView,
    FaultView,
> {
    match p {
        Err(x) => Err(x),
        Ok(p) => match more {
            Err(x) => Err(x),
            Ok(m) => Ok((p.0 + m, p.1)),
        },
    }
}

/// The pins a factory contributes: a class its pins; a UI control those of
/// the UI control class and the pins of its UI blueprint as inputs; a
/// material those of the material class and its non-texture properties as
/// inputs; a switch group those of the switch class and its switches as
/// inputs; an extended class and a behaviour tree those of their base
/// classes; any other factory is an entity whose root sub-entity's pins it
/// contributes.
pub open spec fn factory_pins(intel: Intellisense, store: ResourceStore, f: Seq<char>, fuel: nat) -> Result<
    PinsView,
    FaultView,
>
    decreases fuel, 1nat, 0nat,
{
    match factory_kind(intel, f) {
        FactoryKind::Cppt => class_pins(intel, f),
        FactoryKind::Uict => more_inputs(
            class_pins(intel, ui_control_class()),
            match loaded(store.uicb_entries@, f, NeedView::UicbEntries(f)) {
                Ok(es) => Ok(uicb_pins(es@)),
                Err(x) => Err(x),
            },
        ),
        FactoryKind::Matt => more_inputs(
            class_pins(intel, material_class()),
            match matt_properties(intel, store, f) {
                Ok(ps) => Ok(material_pins(ps)),
                Err(x) => Err(x),
            },
        ),
        FactoryKind::Wswt => more_inputs(
            class_pins(intel, switch_class()),
            match loaded(store.switches@, f, NeedView::Switches(f)) {
                Ok(sw) => Ok(sw.deep_view()),
                Err(x) => Err(x),
            },
        ),
        FactoryKind::Ecpt => class_pins(intel, extended_class()),
        FactoryKind::Aibx => class_pins(intel, behaviour_tree_class()),
        FactoryKind::Other => if fuel == 0 {
            Err(FaultView::Fails(ErrorView::TooDeep))
        } else {
            match keyed(store.entities@, f) {
                Some(EntityLoad::Loaded(x)) => pins(
                    intel,
                    store,
                    x,
                    x.root_entity@,
                    false,
                    (fuel - 1) as nat,
                ),
                Some(EntityLoad::NotFound) => Ok((Seq::empty(), Seq::empty())),
                Some(EntityLoad::Failed(m)) => Err(load_failure(m@)),
                None => Err(FaultView::Needs(NeedView::Entity(f))),
            }
        },
    }
}

/// The pins of several factories, inputs and outputs each in order.
pub open spec fn factories_pins(
    intel: Intellisense,
    store: ResourceStore,
    fs: Seq<Seq<char>>,
    fuel: nat,
) -> Result<PinsView, FaultView>
    decreases fuel, 2nat, fs.len(),
{
    if fs.len() == 0 {
        Ok((Seq::empty(), Seq::empty()))
    } else {
        match factories_pins(intel, store, fs.drop_last(), fuel) {
            Err(x) => Err(x),
            Ok(a) => match factory_pins(intel, store, fs.last(), fuel) {
                Err(x) => Err(x),
                Ok(b) => Ok((a.0 + b.0, a.1 + b.1)),
            },
        }
    }
}

/// The input and output pins of the sub-entity `sub` of `e`: (unless
/// `ignore_own`) its own input copying, events and output copying names;
/// the triggers and propagated pins that sub-entities of `e` aim at it;
/// and the pins of the factories its factory stands for; each list without
/// repetitions.
pub open spec fn pins(
    intel: Intellisense,
    store: ResourceStore,
    e: Entity,
    sub: Seq<char>,
    ignore_own: bool,
    fuel: nat,
) -> Result<PinsView, FaultView>
    decreases fuel, 4nat, 0nat,
{
    within(
        ContextView::Pins { sub_entity: sub, factory_hash: e.factory_hash@ },
        match sub_entity(e.entities@, sub) {
            None => Err(FaultView::Fails(ErrorView::NoSuchSubEntity)),
            Some(t) => {
                let own_in = if ignore_own {
                    Seq::empty()
                } else {
                    keys(t.input_copying@)
                };
                let own_out = if ignore_own {
                    Seq::empty()
                } else {
                    keys(t.events@) + keys(t.output_copying@)
                };
                let ins = own_in + referencing_inputs(e.entities@, sub);
                let outs = own_out + referencing_outputs(e.entities@, sub);
                match factory_list(intel, store, t.factory@) {
                    Err(x) => Err(x),
                    Ok(fs) => match factories_pins(intel, store, fs, fuel) {
                        Err(x) => Err(x),
                        Ok(p) => Ok((unique(ins + p.0), unique(outs + p.1))),
                    },
                }
            },
        },
    )
}

} // verus!
