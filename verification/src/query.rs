//! The executable side of resolution: property rows, single-property
//! lookups and pins of a sub-entity, each equal to its definition in
//! [`crate::resolve`].

use crate::blueprint::{
    extended_rows_of, material_pins_of, material_rows_of, uicb_lookup_of, uicb_pins_of,
    uicb_rows_of, MaterialProperty,
};
use crate::cppt::{CpptProperty, CpptView};
use crate::entity::{
    key_position, keys_of, own_rows_of, referencing_inputs_of, referencing_outputs_of,
    sub_entity_position, Entity, PropertyAlias,
};
use crate::model::{append_names, append_rows, ContextView, ErrorContext, IntellisenseError, PropertyRow, RowView};
use crate::resolve::{
    alias_entry_rows, alias_lookup, alias_rows, class_lookup, class_pins, class_rows, cppt_rows,
    factories_lookup, factories_pins, factories_rows, factory_lookup, factory_pins, factory_rows,
    matt_properties, pins, properties, specific, within, PinsView,
};
use crate::rows::{find_row, Found, FoundView};
use crate::store::{
    cache_slot, slot, EntityLoad, FactoryKind, Fault, FaultView, Intellisense, Need, ResourceStore,
};
use crate::text::owned;
use crate::unique::unique_names;
use vstd::prelude::*;

verus! {

/// How deep resolution follows aliases and nested entities before it
/// gives up with [`IntellisenseError::TooDeep`]: the largest depth a `u64`
/// counts, so that only the machine bounds the nesting. Each level is a
/// call frame, so a chain of references that leads back to itself runs
/// until the stack is exhausted, as unbounded recursion would.
pub const NESTING_LIMIT: u64 = 0xffff_ffff_ffff_ffff;

/// The mathematical form of a row list or its fault.
pub open spec fn rows_outcome(r: Result<Vec<PropertyRow>, Fault>) -> Result<
    Seq<RowView>,
    FaultView,
> {
    match r {
        Ok(v) => Ok(v.deep_view()),
        Err(e) => Err(e@),
    }
}

/// The mathematical form of a lookup or its fault.
pub open spec fn found_outcome(r: Result<Option<Found>, Fault>) -> Result<
    Option<FoundView>,
    FaultView,
> {
    match r {
        Ok(Some(t)) => Ok(Some((t.0@, t.1@, t.2))),
        Ok(None) => Ok(None),
        Err(e) => Err(e@),
    }
}

/// The mathematical form of pins or their fault.
pub open spec fn pins_outcome(r: Result<(Vec<String>, Vec<String>), Fault>) -> Result<
    PinsView,
    FaultView,
> {
    match r {
        Ok(p) => Ok((p.0.deep_view(), p.1.deep_view())),
        Err(e) => Err(e@),
    }
}

/// The rows of a converted class table.
pub fn class_rows_of(t: &Vec<CpptProperty>) -> (r: Vec<PropertyRow>)
    ensures
        r.deep_view() == class_rows(t.deep_view()),
{
    let mut rows: Vec<PropertyRow> = Vec::new();
    let mut i: usize = 0;
    while i < t.len()
        invariant
            i <= t.len(),
            rows.deep_view() == class_rows(t.deep_view().take(i as int)),
        decreases t.len() - i,
    {
        let p = &t[i];
        let row = (p.0.clone(), p.1.clone(), p.2.duplicate(), false);
        let ghost before = rows.deep_view();
        let ghost rv = row.deep_view();
        rows.push(row);
        assert(t.deep_view().take(i + 1) =~= t.deep_view().take(i as int).push(
            t.deep_view()[i as int],
        ));
        assert(rows.deep_view() =~= before.push(rv));
        assert(class_rows(t.deep_view().take(i + 1)) =~= before.push(rv));
        i += 1;
    }
    assert(t.deep_view().take(t.len() as int) =~= t.deep_view());
    rows
}

/// Once the rows of some factories fail, adding factories keeps the fault.
pub proof fn lemma_factories_rows_fault_persists(
    intel: Intellisense,
    store: ResourceStore,
    fs: Seq<Seq<char>>,
    fuel: nat,
    k: int,
)
    requires
        0 <= k <= fs.len(),
        factories_rows(intel, store, fs.take(k), fuel) is Err,
    ensures
        factories_rows(intel, store, fs, fuel) == factories_rows(intel, store, fs.take(k), fuel),
    decreases fs.len() - k,
{
    if k < fs.len() {
        assert(fs.take(k + 1).drop_last() =~= fs.take(k));
        lemma_factories_rows_fault_persists(intel, store, fs, fuel, k + 1);
    } else {
        assert(fs.take(k) =~= fs);
    }
}

/// Once the rows of some aliased properties fail, adding more keeps the
/// fault.
pub proof fn lemma_alias_rows_fault_persists(
    intel: Intellisense,
    store: ResourceStore,
    e: Entity,
    m: Seq<(String, Vec<PropertyAlias>)>,
    fuel: nat,
    k: int,
)
    requires
        0 <= k <= m.len(),
        alias_rows(intel, store, e, m.take(k), fuel) is Err,
    ensures
        alias_rows(intel, store, e, m, fuel) == alias_rows(intel, store, e, m.take(k), fuel),
    decreases m.len() - k,
{
    if k < m.len() {
        assert(m.take(k + 1).drop_last() =~= m.take(k));
        lemma_alias_rows_fault_persists(intel, store, e, m, fuel, k + 1);
    } else {
        assert(m.take(k) =~= m);
    }
}

/// Once the pins of some factories fail, adding factories keeps the fault.
pub proof fn lemma_factories_pins_fault_persists(
    intel: Intellisense,
    store: ResourceStore,
    fs: Seq<Seq<char>>,
    fuel: nat,
    k: int,
)
    requires
        0 <= k <= fs.len(),
        factories_pins(intel, store, fs.take(k), fuel) is Err,
    ensures
        factories_pins(intel, store, fs, fuel) == factories_pins(intel, store, fs.take(k), fuel),
    decreases fs.len() - k,
{
    if k < fs.len() {
        assert(fs.take(k + 1).drop_last() =~= fs.take(k));
        lemma_factories_pins_fault_persists(intel, store, fs, fuel, k + 1);
    } else {
        assert(fs.take(k) =~= fs);
    }
}

fn fails(e: IntellisenseError) -> (r: Fault)
    ensures
        r@ == FaultView::Fails(e@),
{
    Fault::Fails(e)
}

impl Intellisense {
    /// The rows of the class `h`, from the cache.
    pub fn cppt_rows_of(&self, store: &ResourceStore, h: &String) -> (r: Result<
        Vec<PropertyRow>,
        Fault,
    >)
        ensures
            rows_outcome(r) == cppt_rows(*self, *store, h@),
    {
        let t = cache_slot(
            &self.cppt_properties,
            &store.failed_cppts,
            h,
            Need::CpptProperties(h.clone()),
        )?;
        Ok(class_rows_of(t))
    }

    /// The properties of the material `h`, from the cache.
    pub fn matt_properties_of<'a>(&'a self, store: &ResourceStore, h: &String) -> (r: Result<
        &'a Vec<MaterialProperty>,
        Fault,
    >)
        ensures
            match r {
                Ok(ps) => matt_properties(*self, *store, h@) == Ok::<
                    Seq<MaterialProperty>,
                    FaultView,
                >(ps@),
                Err(e) => matt_properties(*self, *store, h@) == Err::<
                    Seq<MaterialProperty>,
                    FaultView,
                >(e@),
            },
    {
        cache_slot(&self.matt_properties, &store.failed_matts, h, Need::MattProperties(h.clone()))
    }

    /// The rows a factory contributes.
    fn factory_rows_of(&self, store: &ResourceStore, f: &String, fuel: u64) -> (r: Result<
        Vec<PropertyRow>,
        Fault,
    >)
        ensures
            rows_outcome(r) == factory_rows(*self, *store, f@, fuel as nat),
        decreases fuel, 1nat,
    {
        match self.classify(f) {
            FactoryKind::Cppt => self.cppt_rows_of(store, f),
            FactoryKind::Uict => {
                let base = self.cppt_rows_of(store, &owned("002C4526CC9753E6"))?;
                let es = slot(&store.uicb_entries, f, Need::UicbEntries(f.clone()))?;
                let more = match uicb_rows_of(&self.uicb_prop_types, es) {
                    Ok(v) => v,
                    Err(e) => {
                        return Err(fails(e));
                    },
                };
                let mut rows = base;
                append_rows(&mut rows, more);
                Ok(rows)
            },
            FactoryKind::Matt => {
                let base = self.cppt_rows_of(store, &owned("00B4B11DA327CAD0"))?;
                let ps = self.matt_properties_of(store, f)?;
                let mut rows = base;
                append_rows(&mut rows, material_rows_of(ps));
                Ok(rows)
            },
            FactoryKind::Wswt => self.cppt_rows_of(store, &owned("00797DC916520C4D")),
            FactoryKind::Ecpt => {
                let base = self.cppt_rows_of(store, &owned("00D3003AAA7B3817"))?;
                let ps = slot(&store.ecpb_properties, f, Need::EcpbProperties(f.clone()))?;
                let mut rows = base;
                append_rows(&mut rows, extended_rows_of(ps));
                Ok(rows)
            },
            FactoryKind::Aibx => self.cppt_rows_of(store, &owned("0028607138892D70")),
            FactoryKind::Other => {
                if fuel == 0 {
                    return Err(fails(IntellisenseError::TooDeep));
                }
                match key_position(&store.entities, f) {
                    Some(i) => match &store.entities[i].1 {
                        EntityLoad::Loaded(x) => self.properties_within(
                            store,
                            x,
                            &x.root_entity,
                            false,
                            fuel - 1,
                        ),
                        EntityLoad::NotFound => {
                            let rows: Vec<PropertyRow> = Vec::new();
                            assert(rows.deep_view() =~= Seq::<RowView>::empty());
                            Ok(rows)
                        },
                        EntityLoad::Failed(m) => Err(fails(IntellisenseError::Load(m.clone()))),
                    },
                    None => Err(Fault::Needs(Need::Entity(f.clone()))),
                }
            },
        }
    }

    /// The rows of several factories, in order.
    fn factories_rows_of(&self, store: &ResourceStore, fs: &Vec<String>, fuel: u64) -> (r: Result<
        Vec<PropertyRow>,
        Fault,
    >)
        ensures
            rows_outcome(r) == factories_rows(*self, *store, fs.deep_view(), fuel as nat),
        decreases fuel, 2nat,
    {
        let ghost s = fs.deep_view();
        let mut rows: Vec<PropertyRow> = Vec::new();
        assert(s.take(0) =~= Seq::<Seq<char>>::empty());
        assert(rows.deep_view() =~= Seq::<RowView>::empty());
        let mut i: usize = 0;
        while i < fs.len()
            invariant
                i <= fs.len(),
                s == fs.deep_view(),
                factories_rows(*self, *store, s.take(i as int), fuel as nat) == Ok::<
                    Seq<RowView>,
                    FaultView,
                >(rows.deep_view()),
            decreases fs.len() - i,
        {
            assert(s.take(i + 1).drop_last() =~= s.take(i as int));
            assert(s.take(i + 1).last() == fs[i as int]@);
            match self.factory_rows_of(store, &fs[i], fuel) {
                Ok(more) => {
                    append_rows(&mut rows, more);
                },
                Err(e) => {
                    proof {
                        lemma_factories_rows_fault_persists(
                            *self,
                            *store,
                            s,
                            fuel as nat,
                            i + 1,
                        );
                    }
                    return Err(e);
                },
            }
            i += 1;
        }
        assert(s.take(fs.len() as int) =~= s);
        Ok(rows)
    }

    /// The row an aliased property contributes.
    fn alias_entry_rows_of(
        &self,
        store: &ResourceStore,
        e: &Entity,
        name: &String,
        aliases: &Vec<PropertyAlias>,
        fuel: u64,
    ) -> (r: Result<Vec<PropertyRow>, Fault>)
        ensures
            rows_outcome(r) == alias_entry_rows(*self, *store, *e, name@, aliases@, fuel as nat),
        decreases fuel, 2nat,
    {
        assert(aliases@.skip(0) =~= aliases@);
        let mut i: usize = 0;
        while i < aliases.len()
            invariant
                i <= aliases.len(),
                alias_entry_rows(*self, *store, *e, name@, aliases@, fuel as nat)
                    == alias_entry_rows(
                    *self,
                    *store,
                    *e,
                    name@,
                    aliases@.skip(i as int),
                    fuel as nat,
                ),
            decreases aliases.len() - i,
        {
            assert(aliases@.skip(i as int).drop_first() =~= aliases@.skip(i + 1));
            assert(aliases@.skip(i as int)[0] == aliases@[i as int]);
            let a = &aliases[i];
            match &a.original_entity {
                Some(ent) => {
                    if fuel == 0 {
                        return Err(fails(IntellisenseError::TooDeep));
                    }
                    let found = self.specific_within(
                        store,
                        e,
                        ent,
                        &a.original_property,
                        fuel - 1,
                    )?;
                    let mut rows: Vec<PropertyRow> = Vec::new();
                    match found {
                        Some(d) => {
                            let ghost dv = (d.0@, d.1@, d.2);
                            rows.push((name.clone(), d.0, d.1, d.2));
                            assert(rows.deep_view() =~= seq![(name@, dv.0, dv.1, dv.2)]);
                        },
                        None => {
                            assert(rows.deep_view() =~= Seq::<RowView>::empty());
                        },
                    }
                    return Ok(rows);
                },
                None => {},
            }
            i += 1;
        }
        let rows: Vec<PropertyRow> = Vec::new();
        assert(rows.deep_view() =~= Seq::<RowView>::empty());
        Ok(rows)
    }

    /// The rows of all aliased properties of a sub-entity, in order.
    fn alias_rows_of(
        &self,
        store: &ResourceStore,
        e: &Entity,
        m: &Vec<(String, Vec<PropertyAlias>)>,
        fuel: u64,
    ) -> (r: Result<Vec<PropertyRow>, Fault>)
        ensures
            rows_outcome(r) == alias_rows(*self, *store, *e, m@, fuel as nat),
        decreases fuel, 3nat,
    {
        let mut rows: Vec<PropertyRow> = Vec::new();
        assert(m@.take(0) =~= Seq::<(String, Vec<PropertyAlias>)>::empty());
        assert(rows.deep_view() =~= Seq::<RowView>::empty());
        let mut i: usize = 0;
        while i < m.len()
            invariant
                i <= m.len(),
                alias_rows(*self, *store, *e, m@.take(i as int), fuel as nat) == Ok::<
                    Seq<RowView>,
                    FaultView,
                >(rows.deep_view()),
            decreases m.len() - i,
        {
            assert(m@.take(i + 1).drop_last() =~= m@.take(i as int));
            assert(m@.take(i + 1).last() == m@[i as int]);
            match self.alias_entry_rows_of(store, e, &m[i].0, &m[i].1, fuel) {
                Ok(more) => {
                    append_rows(&mut rows, more);
                },
                Err(x) => {
                    proof {
                        lemma_alias_rows_fault_persists(*self, *store, *e, m@, fuel as nat, i + 1);
                    }
                    return Err(x);
                },
            }
            i += 1;
        }
        assert(m@.take(m.len() as int) =~= m@);
        Ok(rows)
    }

    /// The properties of the sub-entity `sub` of `e`, following at most
    /// `fuel` levels of aliases and nested entities.
    pub fn properties_within(
        &self,
        store: &ResourceStore,
        e: &Entity,
        sub: &String,
        ignore_own: bool,
        fuel: u64,
    ) -> (r: Result<Vec<PropertyRow>, Fault>)
        ensures
            rows_outcome(r) == properties(*self, *store, *e, sub@, ignore_own, fuel as nat),
        decreases fuel, 5nat,
    {
        match self.properties_body(store, e, sub, ignore_own, fuel) {
            Err(Fault::Fails(x)) => Err(
                Fault::Fails(
                    IntellisenseError::Within {
                        context: ErrorContext::Properties { sub_entity: sub.clone(), factory_hash: e.factory_hash.clone() },
                        cause: Box::new(x),
                    },
                ),
            ),
            other => other,
        }
    }

    fn properties_body(
        &self,
        store: &ResourceStore,
        e: &Entity,
        sub: &String,
        ignore_own: bool,
        fuel: u64,
    ) -> (r: Result<Vec<PropertyRow>, Fault>)
        ensures
            within(
                (ContextView::Properties { sub_entity: sub@, factory_hash: e.factory_hash@ }),
                rows_outcome(r),
            ) == properties(*self, *store, *e, sub@, ignore_own, fuel as nat),
        decreases fuel, 4nat,
    {
        let t = match sub_entity_position(&e.entities, sub) {
            Some(i) => &e.entities[i],
            None => {
                return Err(fails(IntellisenseError::NoSuchSubEntity));
            },
        };
        let mut rows = self.alias_rows_of(store, e, &t.property_aliases, fuel)?;
        if !ignore_own {
            append_rows(&mut rows, own_rows_of(t));
        } else {
            assert(rows.deep_view() =~= rows.deep_view() + Seq::<RowView>::empty());
        }
        let fs = self.factories_of(store, &t.factory)?;
        let more = self.factories_rows_of(store, &fs, fuel)?;
        append_rows(&mut rows, more);
        Ok(rows)
    }

    /// Looking up a property in the table of the class `h`.
    fn class_lookup_of(&self, store: &ResourceStore, h: &String, prop: &String) -> (r: Result<
        Option<Found>,
        Fault,
    >)
        ensures
            found_outcome(r) == class_lookup(*self, *store, h@, prop@),
    {
        let rows = self.cppt_rows_of(store, h)?;
        Ok(find_row(&rows, prop))
    }

    /// Looking up a property among what a factory contributes.
    fn factory_lookup_of(&self, store: &ResourceStore, f: &String, prop: &String, fuel: u64) -> (r:
        Result<Option<Found>, Fault>)
        ensures
            found_outcome(r) == factory_lookup(*self, *store, f@, prop@, fuel as nat),
        decreases fuel, 1nat,
    {
        match self.classify(f) {
            FactoryKind::Cppt => self.class_lookup_of(store, f, prop),
            FactoryKind::Uict => {
                let base = self.class_lookup_of(store, &owned("002C4526CC9753E6"), prop)?;
                if base.is_some() {
                    return Ok(base);
                }
                let es = slot(&store.uicb_entries, f, Need::UicbEntries(f.clone()))?;
                match uicb_lookup_of(&self.uicb_prop_types, es, prop) {
                    Ok(v) => Ok(v),
                    Err(e) => Err(fails(e)),
                }
            },
            FactoryKind::Matt => {
                let base = self.class_lookup_of(store, &owned("00B4B11DA327CAD0"), prop)?;
                if base.is_some() {
                    return Ok(base);
                }
                let ps = self.matt_properties_of(store, f)?;
                Ok(find_row(&material_rows_of(ps), prop))
            },
            FactoryKind::Wswt => self.class_lookup_of(store, &owned("00797DC916520C4D"), prop),
            FactoryKind::Ecpt => {
                let base = self.class_lookup_of(store, &owned("00D3003AAA7B3817"), prop)?;
                if base.is_some() {
                    return Ok(base);
                }
                let ps = slot(&store.ecpb_properties, f, Need::EcpbProperties(f.clone()))?;
                Ok(find_row(&extended_rows_of(ps), prop))
            },
            FactoryKind::Aibx => self.class_lookup_of(store, &owned("0028607138892D70"), prop),
            FactoryKind::Other => {
                if fuel == 0 {
                    return Err(fails(IntellisenseError::TooDeep));
                }
                match key_position(&store.entities, f) {
                    Some(i) => match &store.entities[i].1 {
                        EntityLoad::Loaded(x) => self.specific_within(
                            store,
                            x,
                            &x.root_entity,
                            prop,
                            fuel - 1,
                        ),
                        EntityLoad::NotFound => Ok(None),
                        EntityLoad::Failed(m) => Err(fails(IntellisenseError::Load(m.clone()))),
                    },
                    None => Err(Fault::Needs(Need::Entity(f.clone()))),
                }
            },
        }
    }

    /// Looking up a property among several factories.
    fn factories_lookup_of(
        &self,
        store: &ResourceStore,
        fs: &Vec<String>,
        prop: &String,
        fuel: u64,
    ) -> (r: Result<Option<Found>, Fault>)
        ensures
            found_outcome(r) == factories_lookup(*self, *store, fs.deep_view(), prop@, fuel as nat),
        decreases fuel, 2nat,
    {
        let ghost s = fs.deep_view();
        assert(s.skip(0) =~= s);
        let mut i: usize = 0;
        while i < fs.len()
            invariant
                i <= fs.len(),
                s == fs.deep_view(),
                factories_lookup(*self, *store, s, prop@, fuel as nat) == factories_lookup(
                    *self,
                    *store,
                    s.skip(i as int),
                    prop@,
                    fuel as nat,
                ),
            decreases fs.len() - i,
        {
            assert(s.skip(i as int).drop_first() =~= s.skip(i + 1));
            assert(s.skip(i as int)[0] == fs[i as int]@);
            let found = self.factory_lookup_of(store, &fs[i], prop, fuel)?;
            if found.is_some() {
                return Ok(found);
            }
            i += 1;
        }
        Ok(None)
    }

    /// Looking up a property through aliases.
    fn alias_lookup_of(
        &self,
        store: &ResourceStore,
        e: &Entity,
        aliases: &Vec<PropertyAlias>,
        fuel: u64,
    ) -> (r: Result<Option<Found>, Fault>)
        ensures
            found_outcome(r) == alias_lookup(*self, *store, *e, aliases@, fuel as nat),
        decreases fuel, 2nat,
    {
        assert(aliases@.skip(0) =~= aliases@);
        let mut i: usize = 0;
        while i < aliases.len()
            invariant
                i <= aliases.len(),
                alias_lookup(*self, *store, *e, aliases@, fuel as nat) == alias_lookup(
                    *self,
                    *store,
                    *e,
                    aliases@.skip(i as int),
                    fuel as nat,
                ),
            decreases aliases.len() - i,
        {
            assert(aliases@.skip(i as int).drop_first() =~= aliases@.skip(i + 1));
            assert(aliases@.skip(i as int)[0] == aliases@[i as int]);
            let a = &aliases[i];
            match &a.original_entity {
                Some(ent) => {
                    if fuel == 0 {
                        return Err(fails(IntellisenseError::TooDeep));
                    }
                    let found = self.specific_within(
                        store,
                        e,
                        ent,
                        &a.original_property,
                        fuel - 1,
                    )?;
                    if found.is_some() {
                        return Ok(found);
                    }
                },
                None => {},
            }
            i += 1;
        }
        Ok(None)
    }

    /// The type, default value and post-init status of the property `prop`
    /// of the sub-entity `sub` of `e`, following at most `fuel` levels of
    /// aliases and nested entities.
    pub fn specific_within(
        &self,
        store: &ResourceStore,
        e: &Entity,
        sub: &String,
        prop: &String,
        fuel: u64,
    ) -> (r: Result<Option<Found>, Fault>)
        ensures
            found_outcome(r) == specific(*self, *store, *e, sub@, prop@, fuel as nat),
        decreases fuel, 5nat,
    {
        match self.specific_body(store, e, sub, prop, fuel) {
            Err(Fault::Fails(x)) => Err(
                Fault::Fails(
                    IntellisenseError::Within {
                        context: ErrorContext::Property { property: prop.clone(), sub_entity: sub.clone(), factory_hash: e.factory_hash.clone() },
                        cause: Box::new(x),
                    },
                ),
            ),
            other => other,
        }
    }

    fn specific_body(
        &self,
        store: &ResourceStore,
        e: &Entity,
        sub: &String,
        prop: &String,
        fuel: u64,
    ) -> (r: Result<Option<Found>, Fault>)
        ensures
            within(
                (ContextView::Property { property: prop@, sub_entity: sub@, factory_hash: e.factory_hash@ }),
                found_outcome(r),
            ) == specific(*self, *store, *e, sub@, prop@, fuel as nat),
        decreases fuel, 4nat,
    {
        let t = match sub_entity_position(&e.entities, sub) {
            Some(i) => &e.entities[i],
            None => {
                return Err(fails(IntellisenseError::NoSuchSubEntity));
            },
        };
        match key_position(&t.property_aliases, prop) {
            Some(j) => {
                let found = self.alias_lookup_of(store, e, &t.property_aliases[j].1, fuel)?;
                if found.is_some() {
                    return Ok(found);
                }
            },
            None => {},
        }
        let own = find_row(&own_rows_of(t), prop);
        if own.is_some() {
            return Ok(own);
        }
        let fs = self.factories_of(store, &t.factory)?;
        self.factories_lookup_of(store, &fs, prop, fuel)
    }

    /// The pins of the class `h`, from the table of pins.
    fn class_pins_of(&self, h: &String) -> (r: Result<(Vec<String>, Vec<String>), Fault>)
        ensures
            pins_outcome(r) == class_pins(*self, h@),
    {
        match key_position(&self.cppt_pins, h) {
            Some(i) => {
                let p = &self.cppt_pins[i].1;
                Ok((crate::model::copy_names(&p.0), crate::model::copy_names(&p.1)))
            },
            None => Err(fails(IntellisenseError::NoSuchCpptInPins)),
        }
    }

    /// The pins a factory contributes.
    fn factory_pins_of(&self, store: &ResourceStore, f: &String, fuel: u64) -> (r: Result<
        (Vec<String>, Vec<String>),
        Fault,
    >)
        ensures
            pins_outcome(r) == factory_pins(*self, *store, f@, fuel as nat),
        decreases fuel, 1nat,
    {
        match self.classify(f) {
            FactoryKind::Cppt => self.class_pins_of(f),
            FactoryKind::Uict => {
                let (mut ins, outs) = self.class_pins_of(&owned("002C4526CC9753E6"))?;
                let es = slot(&store.uicb_entries, f, Need::UicbEntries(f.clone()))?;
                append_names(&mut ins, uicb_pins_of(es));
                Ok((ins, outs))
            },
            FactoryKind::Matt => {
                let (mut ins, outs) = self.class_pins_of(&owned("00B4B11DA327CAD0"))?;
                let ps = self.matt_properties_of(store, f)?;
                append_names(&mut ins, material_pins_of(ps));
                Ok((ins, outs))
            },
            FactoryKind::Wswt => {
                let (mut ins, outs) = self.class_pins_of(&owned("00797DC916520C4D"))?;
                let sw = slot(&store.switches, f, Need::Switches(f.clone()))?;
                append_names(&mut ins, crate::model::copy_names(sw));
                Ok((ins, outs))
            },
            FactoryKind::Ecpt => self.class_pins_of(&owned("00D3003AAA7B3817")),
            FactoryKind::Aibx => self.class_pins_of(&owned("0028607138892D70")),
            FactoryKind::Other => {
                if fuel == 0 {
                    return Err(fails(IntellisenseError::TooDeep));
                }
                match key_position(&store.entities, f) {
                    Some(i) => match &store.entities[i].1 {
                        EntityLoad::Loaded(x) => self.pins_within(
                            store,
                            x,
                            &x.root_entity,
                            false,
                            fuel - 1,
                        ),
                        EntityLoad::NotFound => {
                            let ins: Vec<String> = Vec::new();
                            let outs: Vec<String> = Vec::new();
                            assert(ins.deep_view() =~= Seq::<Seq<char>>::empty());
                            assert(outs.deep_view() =~= Seq::<Seq<char>>::empty());
                            Ok((ins, outs))
                        },
                        EntityLoad::Failed(m) => Err(fails(IntellisenseError::Load(m.clone()))),
                    },
                    None => Err(Fault::Needs(Need::Entity(f.clone()))),
                }
            },
        }
    }

    /// The pins of several factories, inputs and outputs each in order.
    fn factories_pins_of(&self, store: &ResourceStore, fs: &Vec<String>, fuel: u64) -> (r: Result<
        (Vec<String>, Vec<String>),
        Fault,
    >)
        ensures
            pins_outcome(r) == factories_pins(*self, *store, fs.deep_view(), fuel as nat),
        decreases fuel, 2nat,
    {
        let ghost s = fs.deep_view();
        let mut ins: Vec<String> = Vec::new();
        let mut outs: Vec<String> = Vec::new();
        assert(s.take(0) =~= Seq::<Seq<char>>::empty());
        assert(ins.deep_view() =~= Seq::<Seq<char>>::empty());
        assert(outs.deep_view() =~= Seq::<Seq<char>>::empty());
        let mut i: usize = 0;
        while i < fs.len()
            invariant
                i <= fs.len(),
                s == fs.deep_view(),
                factories_pins(*self, *store, s.take(i as int), fuel as nat) == Ok::<
                    PinsView,
                    FaultView,
                >((ins.deep_view(), outs.deep_view())),
            decreases fs.len() - i,
        {
            assert(s.take(i + 1).drop_last() =~= s.take(i as int));
            assert(s.take(i + 1).last() == fs[i as int]@);
            match self.factory_pins_of(store, &fs[i], fuel) {
                Ok((more_in, more_out)) => {
                    append_names(&mut ins, more_in);
                    append_names(&mut outs, more_out);
                },
                Err(e) => {
                    proof {
                        lemma_factories_pins_fault_persists(
                            *self,
                            *store,
                            s,
                            fuel as nat,
                            i + 1,
                        );
                    }
                    return Err(e);
                },
            }
            i += 1;
        }
        assert(s.take(fs.len() as int) =~= s);
        Ok((ins, outs))
    }

    /// The input and output pins of the sub-entity `sub` of `e`, following
    /// at most `fuel` levels of nested entities.
    pub fn pins_within(
        &self,
        store: &ResourceStore,
        e: &Entity,
        sub: &String,
        ignore_own: bool,
        fuel: u64,
    ) -> (r: Result<(Vec<String>, Vec<String>), Fault>)
        ensures
            pins_outcome(r) == pins(*self, *store, *e, sub@, ignore_own, fuel as nat),
        decreases fuel, 5nat,
    {
        match self.pins_body(store, e, sub, ignore_own, fuel) {
            Err(Fault::Fails(x)) => Err(
                Fault::Fails(
                    IntellisenseError::Within {
                        context: ErrorContext::Pins { sub_entity: sub.clone(), factory_hash: e.factory_hash.clone() },
                        cause: Box::new(x),
                    },
                ),
            ),
            other => other,
        }
    }

    fn pins_body(
        &self,
        store: &ResourceStore,
        e: &Entity,
        sub: &String,
        ignore_own: bool,
        fuel: u64,
    ) -> (r: Result<(Vec<String>, Vec<String>), Fault>)
        ensures
            within(
                (ContextView::Pins { sub_entity: sub@, factory_hash: e.factory_hash@ }),
                pins_outcome(r),
            ) == pins(*self, *store, *e, sub@, ignore_own, fuel as nat),
        decreases fuel, 4nat,
    {
        let t = match sub_entity_position(&e.entities, sub) {
            Some(i) => &e.entities[i],
            None => {
                return Err(fails(IntellisenseError::NoSuchSubEntity));
            },
        };
        let mut ins: Vec<String> = Vec::new();
        let mut outs: Vec<String> = Vec::new();
        if !ignore_own {
            ins = keys_of(&t.input_copying);
            outs = keys_of(&t.events);
            append_names(&mut outs, keys_of(&t.output_copying));
        } else {
            assert(ins.deep_view() =~= Seq::<Seq<char>>::empty());
            assert(outs.deep_view() =~= Seq::<Seq<char>>::empty());
        }
        append_names(&mut ins, referencing_inputs_of(&e.entities, sub));
        append_names(&mut outs, referencing_outputs_of(&e.entities, sub));
        let fs = self.factories_of(store, &t.factory)?;
        let (more_in, more_out) = self.factories_pins_of(store, &fs, fuel)?;
        append_names(&mut ins, more_in);
        append_names(&mut outs, more_out);
        Ok((unique_names(ins), unique_names(outs)))
    }

    /// Gets the names, types, default values and post-init status of all
    /// properties of the sub-entity `sub_entity` of `entity`: its aliased
    /// properties, then (unless `ignore_own`) the properties it sets
    /// itself, then those of the factories its factory stands for.
    ///
    /// Stops with [`Fault::Needs`] at the first resource that `store` and
    /// the caches do not hold yet. A failure comes under the context
    /// "Couldn't get properties for sub-entity .. in ..", as do the
    /// failures of nested entities under theirs.
    pub fn get_properties(
        &self,
        store: &ResourceStore,
        entity: &Entity,
        sub_entity: &String,
        ignore_own: bool,
    ) -> (r: Result<Vec<PropertyRow>, Fault>)
        ensures
            rows_outcome(r) == properties(
                *self,
                *store,
                *entity,
                sub_entity@,
                ignore_own,
                NESTING_LIMIT as nat,
            ),
    {
        self.properties_within(store, entity, sub_entity, ignore_own, NESTING_LIMIT)
    }

    /// Gets the type, default value and post-init status of the property
    /// `property_to_find` of the sub-entity `sub_entity` of `entity`, by
    /// its name: through its aliases, its own properties, then its
    /// factories; `None` when none of them has it.
    ///
    /// Stops with [`Fault::Needs`] at the first resource that `store` and
    /// the caches do not hold yet. A failure comes under the context
    /// "Couldn't get property .. of sub-entity .. in ..".
    pub fn get_specific_property(
        &self,
        store: &ResourceStore,
        entity: &Entity,
        sub_entity: &String,
        property_to_find: &String,
    ) -> (r: Result<Option<Found>, Fault>)
        ensures
            found_outcome(r) == specific(
                *self,
                *store,
                *entity,
                sub_entity@,
                property_to_find@,
                NESTING_LIMIT as nat,
            ),
    {
        self.specific_within(store, entity, sub_entity, property_to_find, NESTING_LIMIT)
    }

    /// Gets the names of all input and output pins of the sub-entity
    /// `sub_entity` of `entity`, each list without repetitions.
    ///
    /// Stops with [`Fault::Needs`] at the first resource that `store` and
    /// the caches do not hold yet. A failure comes under the context
    /// "Couldn't get pins for sub-entity .. in ..".
    pub fn get_pins(
        &self,
        store: &ResourceStore,
        entity: &Entity,
        sub_entity: &String,
        ignore_own: bool,
    ) -> (r: Result<(Vec<String>, Vec<String>), Fault>)
        ensures
            pins_outcome(r) == pins(
                *self,
                *store,
                *entity,
                sub_entity@,
                ignore_own,
                NESTING_LIMIT as nat,
            ),
    {
        self.pins_within(store, entity, sub_entity, ignore_own, NESTING_LIMIT)
    }
}

} // verus!
