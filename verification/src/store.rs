//! What resolution knows: the class tables and caches of [`Intellisense`],
//! and the resources loaded so far for one request ([`ResourceStore`]).

use crate::blueprint::{EcpbProperty, MaterialProperty, UicbEntry};
use crate::cppt::{convert_cppt_properties, CpptInput, CpptProperty, HashRef};
use crate::hash::{normalise_to_hash, normalised};
use crate::entity::{holds_name, key_position, keyed, keys_distinct, Entity};
use crate::model::{ContextView, ErrorContext, ErrorView, IntellisenseError};
use vstd::prelude::*;

verus! {

/// The class tables, blueprint catalogues and caches that property and pin
/// resolution consults.
#[derive(Debug)]
pub struct Intellisense {
    /// Class -> converted property table (name, type, default value).
    pub cppt_properties: Vec<(String, Vec<CpptProperty>)>,
    /// Class -> (input pins, output pins).
    pub cppt_pins: Vec<(String, (Vec<String>, Vec<String>))>,
    /// UI property type code -> type name.
    pub uicb_prop_types: Vec<(u8, String)>,
    /// Material -> its properties.
    pub matt_properties: Vec<(String, Vec<MaterialProperty>)>,
    pub all_cppts: Vec<String>,
    pub all_asets: Vec<String>,
    pub all_uicts: Vec<String>,
    pub all_matts: Vec<String>,
    pub all_wswts: Vec<String>,
    pub all_ecpts: Vec<String>,
    pub all_aibxs: Vec<String>,
}

/// The outcome of loading an entity for a factory hash.
#[derive(Debug)]
pub enum EntityLoad {
    Loaded(Entity),
    /// No resource package holds the entity; resolution skips it.
    NotFound,
    /// Loading failed for another reason, with the loader's message.
    Failed(String),
}

/// The resources loaded so far while resolving one request, and the loads
/// that failed.
#[derive(Debug)]
pub struct ResourceStore {
    /// Classes whose property table could not be loaded, with the message.
    pub failed_cppts: Vec<(String, String)>,
    /// Materials whose properties could not be loaded, with the message.
    pub failed_matts: Vec<(String, String)>,
    /// Aspect -> the (normalised) hashes its metadata references.
    pub aset_factories: Vec<(String, Result<Vec<String>, String>)>,
    /// UI control -> the entries of its UI blueprint.
    pub uicb_entries: Vec<(String, Result<Vec<UicbEntry>, String>)>,
    /// Switch group -> the switches of its blueprint.
    pub switches: Vec<(String, Result<Vec<String>, String>)>,
    /// Extended class -> the properties of its blueprint.
    pub ecpb_properties: Vec<(String, Result<Vec<EcpbProperty>, String>)>,
    /// Factory hash -> the entity loaded for it.
    pub entities: Vec<(String, EntityLoad)>,
}

/// A resource that resolution needs and that has not been loaded yet.
#[derive(Debug)]
pub enum Need {
    CpptProperties(String),
    AsetFactories(String),
    UicbEntries(String),
    MattProperties(String),
    Switches(String),
    EcpbProperties(String),
    Entity(String),
}

/// The mathematical form of a [`Need`].
pub enum NeedView {
    CpptProperties(Seq<char>),
    AsetFactories(Seq<char>),
    UicbEntries(Seq<char>),
    MattProperties(Seq<char>),
    Switches(Seq<char>),
    EcpbProperties(Seq<char>),
    Entity(Seq<char>),
}

impl View for Need {
    type V = NeedView;

    open spec fn view(&self) -> NeedView {
        match self {
            Need::CpptProperties(h) => NeedView::CpptProperties(h@),
            Need::AsetFactories(h) => NeedView::AsetFactories(h@),
            Need::UicbEntries(h) => NeedView::UicbEntries(h@),
            Need::MattProperties(h) => NeedView::MattProperties(h@),
            Need::Switches(h) => NeedView::Switches(h@),
            Need::EcpbProperties(h) => NeedView::EcpbProperties(h@),
            Need::Entity(h) => NeedView::Entity(h@),
        }
    }
}

/// Why resolution stopped: it needs a resource loaded first, or it failed.
#[derive(Debug)]
pub enum Fault {
    Needs(Need),
    Fails(IntellisenseError),
}

/// The mathematical form of a [`Fault`].
pub enum FaultView {
    Needs(NeedView),
    Fails(ErrorView),
}

impl View for Fault {
    type V = FaultView;

    open spec fn view(&self) -> FaultView {
        match self {
            Fault::Needs(n) => FaultView::Needs(n@),
            Fault::Fails(e) => FaultView::Fails(e@),
        }
    }
}

/// A failure to load, with the loader's message.
pub open spec fn load_failure(m: Seq<char>) -> FaultView {
    FaultView::Fails(ErrorView::Load(m))
}

/// What a store slot gives: the loaded value, the load failure, or the
/// need to load it.
pub open spec fn loaded<T>(s: Seq<(String, Result<T, String>)>, k: Seq<char>, need: NeedView) -> Result<
    T,
    FaultView,
> {
    match keyed(s, k) {
        Some(Ok(v)) => Ok(v),
        Some(Err(m)) => Err(load_failure(m@)),
        None => Err(FaultView::Needs(need)),
    }
}

/// What a cache gives: the cached value, the recorded load failure, or the
/// need to load it.
pub open spec fn cached<T>(
    cache: Seq<(String, T)>,
    failures: Seq<(String, String)>,
    k: Seq<char>,
    need: NeedView,
) -> Result<T, FaultView> {
    match keyed(cache, k) {
        Some(v) => Ok(v),
        None => match keyed(failures, k) {
            Some(m) => Err(load_failure(m@)),
            None => Err(FaultView::Needs(need)),
        },
    }
}

/// The kind of factory a hash names, by the catalogue it is listed in.
#[derive(Debug)]
pub enum FactoryKind {
    Cppt,
    Uict,
    Matt,
    Wswt,
    Ecpt,
    Aibx,
    Other,
}

/// The kind of factory a hash names: catalogues are consulted in the order
/// classes, UI controls, materials, switch groups, extended classes,
/// behaviour trees; anything else is an entity.
pub open spec fn factory_kind(intel: Intellisense, f: Seq<char>) -> FactoryKind {
    if intel.all_cppts.deep_view().contains(f) {
        FactoryKind::Cppt
    } else if intel.all_uicts.deep_view().contains(f) {
        FactoryKind::Uict
    } else if intel.all_matts.deep_view().contains(f) {
        FactoryKind::Matt
    } else if intel.all_wswts.deep_view().contains(f) {
        FactoryKind::Wswt
    } else if intel.all_ecpts.deep_view().contains(f) {
        FactoryKind::Ecpt
    } else if intel.all_aibxs.deep_view().contains(f) {
        FactoryKind::Aibx
    } else {
        FactoryKind::Other
    }
}

/// All but the last of the hashes an aspect references: the factories it
/// combines (the last reference is the aspect's blueprint).
pub open spec fn aspect_factories(refs: Seq<Seq<char>>) -> Seq<Seq<char>> {
    if refs.len() == 0 {
        refs
    } else {
        refs.drop_last()
    }
}

/// Each of a list of factories by its hash.
pub open spec fn normalised_all(fs: Seq<Seq<char>>) -> Seq<Seq<char>> {
    fs.map_values(|x: Seq<char>| normalised(x))
}

/// The factories, by hash, that a sub-entity's factory stands for: an
/// aspect's factories, or the factory itself.
pub open spec fn factory_list(intel: Intellisense, store: ResourceStore, f: Seq<char>) -> Result<
    Seq<Seq<char>>,
    FaultView,
> {
    let h = normalised(f);
    if intel.all_asets.deep_view().contains(h) {
        match loaded(store.aset_factories@, h, NeedView::AsetFactories(h)) {
            Ok(v) => Ok(normalised_all(aspect_factories(v.deep_view()))),
            Err(e) => Err(e),
        }
    } else {
        Ok(seq![h])
    }
}

/// A resource that a resource references, with the type the hash list
/// records for it (if it records the hash).
#[derive(Debug)]
pub struct DependencyRef {
    pub hash: String,
    pub resource_type: Option<String>,
}

/// The first reference whose recorded type is one of `wanted`, at or after
/// `from`.
pub open spec fn dependency_from(refs: Seq<DependencyRef>, wanted: Seq<Seq<char>>, from: int) -> Option<
    int,
>
    decreases refs.len() - from,
{
    if from < 0 || from >= refs.len() {
        None
    } else if refs[from].resource_type matches Some(t) && wanted.contains(t@) {
        Some(from)
    } else {
        dependency_from(refs, wanted, from + 1)
    }
}

/// The position of the first reference whose recorded type is one of
/// `wanted`: how a material finds its blueprint, a UI control its UI
/// blueprint, an extended class its blueprint, and a switch group its
/// switch blueprint.
pub fn find_dependency(refs: &Vec<DependencyRef>, wanted: &Vec<String>) -> (r: Option<usize>)
    ensures
        match r {
            Some(i) => dependency_from(refs@, wanted.deep_view(), 0) == Some(i as int) && i
                < refs.len(),
            None => dependency_from(refs@, wanted.deep_view(), 0) == None::<int>,
        },
{
    let mut i: usize = 0;
    while i < refs.len()
        invariant
            i <= refs.len(),
            dependency_from(refs@, wanted.deep_view(), 0) == dependency_from(
                refs@,
                wanted.deep_view(),
                i as int,
            ),
        decreases refs.len() - i,
    {
        match &refs[i].resource_type {
            Some(t) => {
                if holds_name(wanted, t) {
                    return Some(i);
                }
            },
            None => {},
        }
        i += 1;
    }
    None
}

} // verus!

verus! {

/// What a store slot gives, as an exec value.
pub fn slot<'a, T>(s: &'a Vec<(String, Result<T, String>)>, k: &String, need: Need) -> (r: Result<
    &'a T,
    Fault,
>)
    ensures
        match r {
            Ok(v) => loaded(s@, k@, need@) == Ok::<T, FaultView>(*v),
            Err(e) => loaded(s@, k@, need@) == Err::<T, FaultView>(e@),
        },
{
    match key_position(s, k) {
        Some(i) => match &s[i].1 {
            Ok(v) => Ok(v),
            Err(m) => Err(Fault::Fails(IntellisenseError::Load(m.clone()))),
        },
        None => Err(Fault::Needs(need)),
    }
}

/// What a cache gives, as an exec value.
pub fn cache_slot<'a, T>(
    cache: &'a Vec<(String, T)>,
    failures: &Vec<(String, String)>,
    k: &String,
    need: Need,
) -> (r: Result<&'a T, Fault>)
    ensures
        match r {
            Ok(v) => cached(cache@, failures@, k@, need@) == Ok::<T, FaultView>(*v),
            Err(e) => cached(cache@, failures@, k@, need@) == Err::<T, FaultView>(e@),
        },
{
    match key_position(cache, k) {
        Some(i) => Ok(&cache[i].1),
        None => match key_position(failures, k) {
            Some(j) => Err(Fault::Fails(IntellisenseError::Load(failures[j].1.clone()))),
            None => Err(Fault::Needs(need)),
        },
    }
}

impl Intellisense {
    /// The kind of factory `f` names.
    pub fn classify(&self, f: &String) -> (r: FactoryKind)
        ensures
            r == factory_kind(*self, f@),
    {
        if holds_name(&self.all_cppts, f) {
            FactoryKind::Cppt
        } else if holds_name(&self.all_uicts, f) {
            FactoryKind::Uict
        } else if holds_name(&self.all_matts, f) {
            FactoryKind::Matt
        } else if holds_name(&self.all_wswts, f) {
            FactoryKind::Wswt
        } else if holds_name(&self.all_ecpts, f) {
            FactoryKind::Ecpt
        } else if holds_name(&self.all_aibxs, f) {
            FactoryKind::Aibx
        } else {
            FactoryKind::Other
        }
    }

    /// The factories that the factory `f` of a sub-entity stands for.
    pub fn factories_of(&self, store: &ResourceStore, f: &String) -> (r: Result<Vec<String>, Fault>)
        ensures
            match r {
                Ok(v) => factory_list(*self, *store, f@) == Ok::<Seq<Seq<char>>, FaultView>(
                    v.deep_view(),
                ),
                Err(e) => factory_list(*self, *store, f@) == Err::<Seq<Seq<char>>, FaultView>(e@),
            },
    {
        let h = normalise_to_hash(f);
        if holds_name(&self.all_asets, &h) {
            let refs = slot(&store.aset_factories, &h, Need::AsetFactories(h.clone()))?;
            let ghost kept = aspect_factories(refs.deep_view());
            let n: usize = if refs.len() > 0 {
                refs.len() - 1
            } else {
                0
            };
            let mut out: Vec<String> = Vec::new();
            let mut i: usize = 0;
            while i < n
                invariant
                    i <= n,
                    n <= refs.len(),
                    kept == aspect_factories(refs.deep_view()),
                    kept.len() == n,
                    forall|k: int| 0 <= k < n ==> kept[k] == refs.deep_view()[k],
                    out.deep_view() == normalised_all(kept.take(i as int)),
                decreases n - i,
            {
                let x = normalise_to_hash(&refs[i]);
                let ghost before = out.deep_view();
                out.push(x);
                assert(refs.deep_view()[i as int] == refs@[i as int]@);
                assert(kept.take(i + 1) =~= kept.take(i as int).push(kept[i as int]));
                assert(out.deep_view() =~= before.push(x@));
                assert(out.deep_view() =~= normalised_all(kept.take(i + 1)));
                i += 1;
            }
            assert(kept.take(n as int) =~= kept);
            Ok(out)
        } else {
            let mut out: Vec<String> = Vec::new();
            out.push(h);
            assert(out.deep_view() =~= seq![normalised(f@)]);
            Ok(out)
        }
    }

    /// Records the converted property table of the class `cppt`.
    ///
    /// Afterwards `cppt` finds `table` and every other class finds what it
    /// found before.
    pub fn store_cppt_properties(&mut self, cppt: String, table: Vec<CpptProperty>)
        ensures
            keys_distinct(old(self).cppt_properties@) ==> keys_distinct(
                final(self).cppt_properties@,
            ),
            keyed(final(self).cppt_properties@, cppt@) == Some(table),
            forall|j: Seq<char>|
                j != cppt@ ==> #[trigger] keyed(final(self).cppt_properties@, j) == keyed(
                    old(self).cppt_properties@,
                    j,
                ),
            final(self).cppt_pins == old(self).cppt_pins,
            final(self).uicb_prop_types == old(self).uicb_prop_types,
            final(self).matt_properties == old(self).matt_properties,
            final(self).all_cppts == old(self).all_cppts,
            final(self).all_asets == old(self).all_asets,
            final(self).all_uicts == old(self).all_uicts,
            final(self).all_matts == old(self).all_matts,
            final(self).all_wswts == old(self).all_wswts,
            final(self).all_ecpts == old(self).all_ecpts,
            final(self).all_aibxs == old(self).all_aibxs,
    {
        crate::entity::put(&mut self.cppt_properties, cppt, table);
    }

    /// Converts the listed properties of the class `cppt` and, when that
    /// succeeds, records the table; otherwise the conversion's error under
    /// the class's context, with nothing recorded.
    pub fn load_cppt_properties(
        &mut self,
        cppt: String,
        props: &Vec<CpptInput>,
        refs: &Vec<HashRef>,
    ) -> (r: Result<(), IntellisenseError>)
        ensures
            match crate::cppt::converted_properties(props@, refs@) {
                Ok(t) => {
                    &&& r is Ok
                    &&& keyed(final(self).cppt_properties@, cppt@) matches Some(v) && v.deep_view()
                        == t
                    &&& forall|j: Seq<char>|
                        j != cppt@ ==> #[trigger] keyed(final(self).cppt_properties@, j) == keyed(
                            old(self).cppt_properties@,
                            j,
                        )
                },
                Err(e) => {
                    &&& r matches Err(x) && x@ == ErrorView::Within {
                        context: ContextView::Cppt(cppt@),
                        cause: Box::new(e),
                    }
                    &&& final(self).cppt_properties == old(self).cppt_properties
                },
            },
            keys_distinct(old(self).cppt_properties@) ==> keys_distinct(
                final(self).cppt_properties@,
            ),
            final(self).matt_properties == old(self).matt_properties,
            final(self).cppt_pins == old(self).cppt_pins,
            final(self).uicb_prop_types == old(self).uicb_prop_types,
            final(self).all_cppts == old(self).all_cppts,
            final(self).all_asets == old(self).all_asets,
            final(self).all_uicts == old(self).all_uicts,
            final(self).all_matts == old(self).all_matts,
            final(self).all_wswts == old(self).all_wswts,
            final(self).all_ecpts == old(self).all_ecpts,
            final(self).all_aibxs == old(self).all_aibxs,
    {
        match convert_cppt_properties(props, refs) {
            Ok(table) => {
                self.store_cppt_properties(cppt, table);
                Ok(())
            },
            Err(e) => Err(
                IntellisenseError::Within { context: ErrorContext::Cppt(cppt), cause: Box::new(e) },
            ),
        }
    }

    /// Records the properties of the material `matt`.
    ///
    /// Afterwards `matt` finds `props` and every other material finds what
    /// it found before.
    pub fn store_matt_properties(&mut self, matt: String, props: Vec<MaterialProperty>)
        ensures
            keys_distinct(old(self).matt_properties@) ==> keys_distinct(
                final(self).matt_properties@,
            ),
            keyed(final(self).matt_properties@, matt@) == Some(props),
            forall|j: Seq<char>|
                j != matt@ ==> #[trigger] keyed(final(self).matt_properties@, j) == keyed(
                    old(self).matt_properties@,
                    j,
                ),
            final(self).cppt_properties == old(self).cppt_properties,
            final(self).cppt_pins == old(self).cppt_pins,
            final(self).uicb_prop_types == old(self).uicb_prop_types,
            final(self).all_cppts == old(self).all_cppts,
            final(self).all_asets == old(self).all_asets,
            final(self).all_uicts == old(self).all_uicts,
            final(self).all_matts == old(self).all_matts,
            final(self).all_wswts == old(self).all_wswts,
            final(self).all_ecpts == old(self).all_ecpts,
            final(self).all_aibxs == old(self).all_aibxs,
    {
        crate::entity::put(&mut self.matt_properties, matt, props);
    }
}

impl ResourceStore {
    /// A store with nothing loaded.
    pub fn new() -> (r: ResourceStore)
        ensures
            r.failed_cppts@.len() == 0,
            r.failed_matts@.len() == 0,
            r.aset_factories@.len() == 0,
            r.uicb_entries@.len() == 0,
            r.switches@.len() == 0,
            r.ecpb_properties@.len() == 0,
            r.entities@.len() == 0,
    {
        ResourceStore {
            failed_cppts: Vec::new(),
            failed_matts: Vec::new(),
            aset_factories: Vec::new(),
            uicb_entries: Vec::new(),
            switches: Vec::new(),
            ecpb_properties: Vec::new(),
            entities: Vec::new(),
        }
    }
}

} // verus!
