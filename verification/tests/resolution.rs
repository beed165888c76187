use intellisense::blueprint::{MaterialProperty, MaterialValue, UicbEntry};
use intellisense::cppt::{CpptInput, PropertyId, RawValue};
use intellisense::entity::{entity_is_valid, local_reference_of, Connection, Entity, EntityRef, OwnProperty, PropertyAlias, SubEntity};
use intellisense::model::{IntellisenseError, PropValue};
use intellisense::store::{find_dependency, DependencyRef, EntityLoad, FactoryKind, Fault, Intellisense, Need, ResourceStore};

const CLASS: &str = "00AAAA0000000001";
const TEMPLATE: &str = "00EEEE0000000001";
const UI: &str = "00CCCC0000000001";
const MATERIAL: &str = "00DDDD0000000001";
const ASPECT: &str = "00FFFF0000000001";
const MISSING: &str = "00BBBB0000000001";

fn s(x: &str) -> String {
    x.to_string()
}

fn json(x: &str) -> PropValue {
    PropValue::Json(s(x))
}

fn input(name: &str, ty: &str, value: &str) -> CpptInput {
    CpptInput {
        id: PropertyId::Text(s(name)),
        property_type: s(ty),
        value: RawValue { json: s(value), id_low: None, guid: None, colour: None, transform: None },
    }
}

fn sub(id: &str, factory: &str) -> SubEntity {
    SubEntity {
        id: s(id),
        factory: s(factory),
        properties: vec![],
        property_aliases: vec![],
        events: vec![],
        input_copying: vec![],
        output_copying: vec![],
    }
}

fn own(name: &str, ty: &str, value: &str, post_init: Option<bool>) -> OwnProperty {
    OwnProperty { name: s(name), property_type: s(ty), value: json(value), post_init }
}

fn intellisense() -> Intellisense {
    Intellisense {
        cppt_properties: vec![],
        cppt_pins: vec![
            (s(CLASS), (vec![s("Start")], vec![s("OnDone")])),
            (s("002C4526CC9753E6"), (vec![s("Show")], vec![s("OnShown")])),
            (s("00B4B11DA327CAD0"), (vec![], vec![])),
        ],
        uicb_prop_types: vec![(0, s("int32")), (1, s("bool"))],
        matt_properties: vec![],
        all_cppts: vec![s(CLASS)],
        all_asets: vec![s(ASPECT)],
        all_uicts: vec![s(UI)],
        all_matts: vec![s(MATERIAL)],
        all_wswts: vec![],
        all_ecpts: vec![],
        all_aibxs: vec![],
    }
}

fn template() -> Entity {
    let mut r = sub("r", CLASS);
    r.properties = vec![own("m_z", "float32", "2.5", None)];
    r.input_copying = vec![(s("Relay"), vec![])];
    Entity { factory_hash: s(TEMPLATE), root_entity: s("r"), entities: vec![r] }
}

fn scene() -> Entity {
    let mut root = sub("root", TEMPLATE);
    root.properties = vec![own("p", "bool", "true", None), own("m_z", "float32", "9", Some(true))];
    root.property_aliases = vec![(
        s("alias1"),
        vec![
            PropertyAlias { original_entity: None, original_property: s("ignored") },
            PropertyAlias { original_entity: Some(s("child")), original_property: s("m_y") },
        ],
    )];
    root.events = vec![(s("OnStart"), vec![])];
    let mut child = sub("child", CLASS);
    child.properties = vec![own("m_y", "int32", "1", Some(true))];
    child.events = vec![(
        s("OnDone"),
        vec![
            Connection {
                name: s("Start"),
                targets: vec![
                    EntityRef::Short(Some(s("root"))),
                    EntityRef::Short(None),
                    EntityRef::Full { entity_ref: s("root"), external_scene: Some(s("00OTHERSCENE0001")), exposed_entity: None },
                    EntityRef::Full { entity_ref: s("root"), external_scene: None, exposed_entity: None },
                ],
            },
            Connection { name: s("Stop"), targets: vec![EntityRef::Short(Some(s("child")))] },
        ],
    )];
    child.output_copying = vec![(s("Out"), vec![Connection { name: s("Relay"), targets: vec![EntityRef::Short(Some(s("root")))] }])];
    let ui = sub("button", UI);
    let mat = sub("paint", MATERIAL);
    let aspect = sub("combo", ASPECT);
    let gone = sub("gone", MISSING);
    Entity { factory_hash: s("00SCENE000000001"), root_entity: s("root"), entities: vec![root, child, ui, mat, aspect, gone] }
}

/// Loads what resolution asks for, the way an application would from the
/// game's packages, and counts the loads.
fn supply(intel: &mut Intellisense, store: &mut ResourceStore, need: Need) {
    match need {
        Need::CpptProperties(h) => {
            let props = if h == CLASS {
                vec![input("m_x", "int32", "0"), input("m_ref", "ZEntityReference", "null")]
            } else if h == "002C4526CC9753E6" {
                vec![input("m_bVisible", "bool", "true")]
            } else if h == "00B4B11DA327CAD0" {
                vec![input("m_eBlend", "int32", "0")]
            } else {
                store.failed_cppts.push((h, s("Couldn't find the resource")));
                return;
            };
            intel.load_cppt_properties(h, &props, &vec![]).ok().unwrap();
        }
        Need::Entity(h) => {
            let load = if h == TEMPLATE { EntityLoad::Loaded(template()) } else { EntityLoad::NotFound };
            store.entities.push((h, load));
        }
        Need::UicbEntries(h) => store.uicb_entries.push((
            h,
            Ok(vec![
                UicbEntry { kind: 0, type_code: 1, name: s("Enabled") },
                UicbEntry { kind: 1, type_code: 0, name: s("Press") },
            ]),
        )),
        Need::MattProperties(h) => {
            intel.store_matt_properties(
                h,
                vec![
                    MaterialProperty { name: s("tint"), value: MaterialValue::ColourRgb(1, 2, 3) },
                    MaterialProperty { name: s("diffuse"), value: MaterialValue::Texture(None) },
                ],
            );
        }
        Need::AsetFactories(h) => store.aset_factories.push((h, Ok(vec![s(CLASS), s(UI), s("00ASPECTBLUEPRNT")]))),
        Need::Switches(h) => store.switches.push((h, Ok(vec![]))),
        Need::EcpbProperties(h) => store.ecpb_properties.push((h, Ok(vec![]))),
    }
}

fn properties(intel: &mut Intellisense, store: &mut ResourceStore, e: &Entity, sub: &str) -> Result<Vec<(String, String, PropValue, bool)>, IntellisenseError> {
    loop {
        match intel.get_properties(store, e, &s(sub), false) {
            Ok(rows) => return Ok(rows),
            Err(Fault::Fails(x)) => return Err(x),
            Err(Fault::Needs(n)) => supply(intel, store, n),
        }
    }
}

fn specific(intel: &mut Intellisense, store: &mut ResourceStore, e: &Entity, sub: &str, prop: &str) -> Result<Option<(String, PropValue, bool)>, IntellisenseError> {
    loop {
        match intel.get_specific_property(store, e, &s(sub), &s(prop)) {
            Ok(found) => return Ok(found),
            Err(Fault::Fails(x)) => return Err(x),
            Err(Fault::Needs(n)) => supply(intel, store, n),
        }
    }
}

fn pins(intel: &mut Intellisense, store: &mut ResourceStore, e: &Entity, sub: &str, ignore_own: bool) -> Result<(Vec<String>, Vec<String>), IntellisenseError> {
    loop {
        match intel.get_pins(store, e, &s(sub), ignore_own) {
            Ok(p) => return Ok(p),
            Err(Fault::Fails(x)) => return Err(x),
            Err(Fault::Needs(n)) => supply(intel, store, n),
        }
    }
}

fn names(rows: &Vec<(String, String, PropValue, bool)>) -> Vec<String> {
    rows.iter().map(|r| r.0.clone()).collect()
}

#[test]
fn properties_list_aliases_then_own_then_factories() {
    let (mut intel, mut store, e) = (intellisense(), ResourceStore::new(), scene());
    let rows = properties(&mut intel, &mut store, &e, "root").ok().unwrap();
    assert_eq!(names(&rows), vec!["alias1", "p", "m_z", "m_z", "m_x", "m_ref"]);
    assert_eq!(rows[0].1, "int32");
    assert!(rows[0].3);
    assert!(matches!(&rows[3].2, PropValue::Json(j) if j == "2.5"));
    assert!(!rows[3].3);
}

#[test]
fn classes_list_their_table_with_template_references() {
    let (mut intel, mut store, e) = (intellisense(), ResourceStore::new(), scene());
    let rows = properties(&mut intel, &mut store, &e, "child").ok().unwrap();
    assert_eq!(names(&rows), vec!["m_y", "m_x", "m_ref"]);
    assert_eq!(rows[2].1, "SEntityTemplateReference");
    assert!(matches!(rows[2].2, PropValue::Null));
}

#[test]
fn ui_controls_materials_and_aspects() {
    let (mut intel, mut store, e) = (intellisense(), ResourceStore::new(), scene());
    let rows = properties(&mut intel, &mut store, &e, "button").ok().unwrap();
    assert_eq!(names(&rows), vec!["m_bVisible", "Enabled"]);
    assert!(matches!(rows[1].2, PropValue::Bool(false)));
    let rows = properties(&mut intel, &mut store, &e, "paint").ok().unwrap();
    assert_eq!(names(&rows), vec!["m_eBlend", "tint", "tint_op", "diffuse", "diffuse_enab", "diffuse_dest"]);
    let rows = properties(&mut intel, &mut store, &e, "combo").ok().unwrap();
    assert_eq!(names(&rows), vec!["m_x", "m_ref", "m_bVisible", "Enabled"]);
}

#[test]
fn entities_that_no_package_holds_are_skipped() {
    let (mut intel, mut store, e) = (intellisense(), ResourceStore::new(), scene());
    let rows = properties(&mut intel, &mut store, &e, "gone").ok().unwrap();
    assert!(rows.is_empty());
    assert!(specific(&mut intel, &mut store, &e, "gone", "anything").ok().unwrap().is_none());
}

#[test]
fn load_failures_and_missing_sub_entities_are_errors() {
    let (mut intel, mut store, e) = (intellisense(), ResourceStore::new(), scene());
    let missing = properties(&mut intel, &mut store, &e, "nobody").err().unwrap();
    assert_eq!(missing.chain(), vec!["Couldn't get properties for sub-entity nobody in 00SCENE000000001", "No such sub-entity"]);
    assert_eq!(missing.message(), "Couldn't get properties for sub-entity nobody in 00SCENE000000001");
    let lookup = specific(&mut intel, &mut store, &e, "nobody", "p").err().unwrap();
    assert_eq!(lookup.chain(), vec!["Couldn't get property p of sub-entity nobody in 00SCENE000000001", "No such sub-entity"]);
    let pinless = pins(&mut intel, &mut store, &e, "nobody", false).err().unwrap();
    assert_eq!(pinless.chain(), vec!["Couldn't get pins for sub-entity nobody in 00SCENE000000001", "No such sub-entity"]);
    store.entities.push((s(MISSING), EntityLoad::Failed(s("corrupt"))));
    let failed = properties(&mut intel, &mut store, &e, "gone").err().unwrap();
    assert_eq!(failed.chain(), vec!["Couldn't get properties for sub-entity gone in 00SCENE000000001", "corrupt"]);
}

#[test]
fn errors_of_nested_entities_carry_every_context() {
    let (mut intel, mut store, e) = (intellisense(), ResourceStore::new(), scene());
    let mut broken = template();
    broken.root_entity = s("absent");
    store.entities.push((s(TEMPLATE), EntityLoad::Loaded(broken)));
    let nested = properties(&mut intel, &mut store, &e, "root").err().unwrap();
    assert_eq!(
        nested.chain(),
        vec![
            "Couldn't get properties for sub-entity root in 00SCENE000000001",
            "Couldn't get properties for sub-entity absent in 00EEEE0000000001",
            "No such sub-entity",
        ]
    );
}

#[test]
fn resolution_asks_before_it_answers() {
    let (intel, store, e) = (intellisense(), ResourceStore::new(), scene());
    assert!(matches!(intel.get_properties(&store, &e, &s("child"), false), Err(Fault::Needs(Need::CpptProperties(h))) if h == CLASS));
    assert!(matches!(intel.get_properties(&store, &e, &s("root"), true), Err(Fault::Needs(Need::Entity(h))) if h == TEMPLATE));
}

#[test]
fn specific_properties_follow_aliases_own_then_factories() {
    let (mut intel, mut store, e) = (intellisense(), ResourceStore::new(), scene());
    let a = specific(&mut intel, &mut store, &e, "root", "alias1").ok().unwrap().unwrap();
    assert_eq!(a.0, "int32");
    assert!(a.2);
    let own_first = specific(&mut intel, &mut store, &e, "root", "m_z").ok().unwrap().unwrap();
    assert!(matches!(&own_first.1, PropValue::Json(j) if j == "9"));
    assert!(own_first.2);
    let from_class = specific(&mut intel, &mut store, &e, "child", "m_ref").ok().unwrap().unwrap();
    assert_eq!(from_class.0, "SEntityTemplateReference");
    assert!(specific(&mut intel, &mut store, &e, "root", "missing").ok().unwrap().is_none());
    let tint = specific(&mut intel, &mut store, &e, "paint", "tint_op").ok().unwrap().unwrap();
    assert_eq!(tint.0, "IRenderMaterialEntity.EModifierOperation");
}

#[test]
fn lookup_agrees_with_listing_on_a_scene() {
    let (mut intel, mut store, e) = (intellisense(), ResourceStore::new(), scene());
    for sub in ["root", "child", "button", "paint", "combo", "gone"] {
        let rows = properties(&mut intel, &mut store, &e, sub).ok().unwrap();
        for name in ["alias1", "p", "m_z", "m_x", "m_y", "m_ref", "Enabled", "tint", "diffuse_dest", "none"] {
            let listed = rows.iter().find(|r| r.0 == name).map(|r| (r.1.clone(), format!("{:?}", r.2), r.3));
            let looked = specific(&mut intel, &mut store, &e, sub, name).ok().unwrap().map(|f| (f.0, format!("{:?}", f.1), f.2));
            assert_eq!(listed, looked, "{} of {}", name, sub);
        }
    }
}

#[test]
fn pins_gather_own_referencing_and_factory_pins_once() {
    let (mut intel, mut store, e) = (intellisense(), ResourceStore::new(), scene());
    let (ins, outs) = pins(&mut intel, &mut store, &e, "root", false).ok().unwrap();
    assert_eq!(ins, vec!["Start", "Relay"]);
    assert_eq!(outs, vec!["OnStart", "Relay", "OnDone"]);
    let (ins, outs) = pins(&mut intel, &mut store, &e, "root", true).ok().unwrap();
    assert_eq!(ins, vec!["Start", "Relay"]);
    assert_eq!(outs, vec!["Relay", "OnDone"]);
    let (ins, outs) = pins(&mut intel, &mut store, &e, "button", false).ok().unwrap();
    assert_eq!(ins, vec!["Show", "Press"]);
    assert_eq!(outs, vec!["OnShown"]);
    let (ins, _) = pins(&mut intel, &mut store, &e, "paint", false).ok().unwrap();
    assert_eq!(ins, vec!["tint"]);
}

#[test]
fn pins_of_unlisted_classes_are_errors() {
    let (mut intel, mut store, mut e) = (intellisense(), ResourceStore::new(), scene());
    intel.all_cppts.push(s("00AAAA0000000002"));
    e.entities.push(sub("odd", "00AAAA0000000002"));
    let err = pins(&mut intel, &mut store, &e, "odd", false).err().unwrap();
    assert_eq!(err.chain(), vec!["Couldn't get pins for sub-entity odd in 00SCENE000000001", "No such CPPT in pins"]);
}

#[test]
fn caches_give_back_what_was_stored() {
    let mut intel = intellisense();
    intel.load_cppt_properties(s(CLASS), &vec![input("a", "bool", "true")], &vec![]).ok().unwrap();
    intel.load_cppt_properties(s(UI), &vec![input("b", "bool", "false")], &vec![]).ok().unwrap();
    intel.load_cppt_properties(s(CLASS), &vec![input("c", "bool", "true")], &vec![]).ok().unwrap();
    assert_eq!(intel.cppt_properties.len(), 2);
    let store = ResourceStore::new();
    let rows = intel.cppt_rows_of(&store, &s(CLASS)).ok().unwrap();
    assert_eq!(names(&rows), vec!["c"]);
    let rows = intel.cppt_rows_of(&store, &s(UI)).ok().unwrap();
    assert_eq!(names(&rows), vec!["b"]);
    let bad = vec![input("g", "ZGuid", "{}")];
    let err = intel.load_cppt_properties(s(UI), &bad, &vec![]).err().unwrap();
    assert_eq!(err.chain(), vec![format!("Couldn't get properties for CPPT {}", UI), s("Invalid data")]);
    assert_eq!(names(&intel.cppt_rows_of(&store, &s(UI)).ok().unwrap()), vec!["b"]);
}

#[test]
fn factories_are_classified_in_catalogue_order() {
    let mut intel = intellisense();
    intel.all_uicts.push(s(CLASS));
    assert!(matches!(intel.classify(&s(CLASS)), FactoryKind::Cppt));
    assert!(matches!(intel.classify(&s(UI)), FactoryKind::Uict));
    assert!(matches!(intel.classify(&s(TEMPLATE)), FactoryKind::Other));
}

#[test]
fn aspects_stand_for_all_but_their_last_reference() {
    let intel = intellisense();
    let mut store = ResourceStore::new();
    assert!(matches!(intel.factories_of(&store, &s(ASPECT)), Err(Fault::Needs(Need::AsetFactories(_)))));
    store.aset_factories.push((s(ASPECT), Ok(vec![s("00A"), s(""), s("00C")])));
    assert_eq!(intel.factories_of(&store, &s(ASPECT)).ok().unwrap(), vec!["00A", "001D8CD98F00B204"]);
    assert_eq!(intel.factories_of(&store, &s(CLASS)).ok().unwrap(), vec![CLASS]);
}

#[test]
fn dependencies_are_found_by_recorded_type() {
    let refs = vec![
        DependencyRef { hash: s("X"), resource_type: None },
        DependencyRef { hash: s("Y"), resource_type: Some(s("TEXT")) },
        DependencyRef { hash: s("Z"), resource_type: Some(s("WSWB")) },
        DependencyRef { hash: s("W"), resource_type: Some(s("DSWB")) },
    ];
    assert_eq!(find_dependency(&refs, &vec![s("DSWB"), s("WSWB")]), Some(2));
    assert_eq!(find_dependency(&refs, &vec![s("MATB")]), None);
}

#[test]
fn settled_answers_stay_when_more_is_loaded() {
    let (mut intel, mut store, e) = (intellisense(), ResourceStore::new(), scene());
    let before = properties(&mut intel, &mut store, &e, "root").ok().unwrap();
    let pins_before = pins(&mut intel, &mut store, &e, "child", false).ok().unwrap();
    store.entities.push((s("00FFFF00000000FF"), EntityLoad::NotFound));
    store.uicb_entries.push((s("00FFFF00000000FE"), Ok(vec![])));
    intel.load_cppt_properties(s("00FFFF00000000FD"), &vec![input("q", "bool", "true")], &vec![]).ok().unwrap();
    let after = intel.get_properties(&store, &e, &s("root"), false).ok().unwrap();
    assert_eq!(format!("{:?}", before), format!("{:?}", after));
    let pins_after = intel.get_pins(&store, &e, &s("child"), false).ok().unwrap();
    assert_eq!(pins_before, pins_after);
}

#[test]
fn local_references_are_short_ids_and_full_references_within_the_scene() {
    assert_eq!(local_reference_of(&EntityRef::Short(Some(s("a")))), Some(s("a")));
    assert_eq!(local_reference_of(&EntityRef::Short(None)), None);
    let inside = EntityRef::Full { entity_ref: s("b"), external_scene: None, exposed_entity: Some(s("x")) };
    assert_eq!(local_reference_of(&inside), Some(s("b")));
    let outside = EntityRef::Full { entity_ref: s("b"), external_scene: Some(s("00OTHERSCENE0001")), exposed_entity: None };
    assert_eq!(local_reference_of(&outside), None);
}

#[test]
fn factories_written_as_paths_resolve_by_their_hash() {
    let path = "[assembly:/templates/gameplay/ai2/actors.template?/npcactor.entitytemplate].pc_entitytype";
    let hash = "00DDCC74AD917CAA";
    let mut intel = intellisense();
    intel.all_cppts.push(s(hash));
    intel.cppt_pins.push((s(hash), (vec![s("Wake")], vec![s("OnWoken")])));
    intel.load_cppt_properties(s(hash), &vec![input("m_health", "int32", "100")], &vec![]).ok().unwrap();
    let e = Entity { factory_hash: s("00SCENE000000002"), root_entity: s("npc"), entities: vec![sub("npc", path)] };
    let store = ResourceStore::new();
    let rows = intel.get_properties(&store, &e, &s("npc"), false).ok().unwrap();
    assert_eq!(names(&rows), vec!["m_health"]);
    let (ins, outs) = intel.get_pins(&store, &e, &s("npc"), false).ok().unwrap();
    assert_eq!(ins, vec!["Wake"]);
    assert_eq!(outs, vec!["OnWoken"]);
    let aspect_path = "[assembly:/templates/aspect.template?/combo.entitytemplate].pc_entitytype";
    let aspect = intellisense::hash::normalise_to_hash(&s(aspect_path));
    intel.all_asets.push(aspect.clone());
    let e = Entity { factory_hash: s("00SCENE000000003"), root_entity: s("c"), entities: vec![sub("c", aspect_path)] };
    let mut store = ResourceStore::new();
    assert!(matches!(intel.get_properties(&store, &e, &s("c"), false), Err(Fault::Needs(Need::AsetFactories(h))) if h == aspect));
    store.aset_factories.push((aspect, Ok(vec![s(path), s("00ASPECTBLUEPRNT")])));
    let rows = intel.get_properties(&store, &e, &s("c"), false).ok().unwrap();
    assert_eq!(names(&rows), vec!["m_health"]);
}

#[test]
fn entities_are_valid_when_ids_and_keys_occur_once() {
    let e = scene();
    assert!(entity_is_valid(&e));
    let mut twice = scene();
    twice.entities.push(sub("root", CLASS));
    assert!(!entity_is_valid(&twice));
    let mut aliases = scene();
    aliases.entities[0].property_aliases.push((s("alias1"), vec![]));
    assert!(!entity_is_valid(&aliases));
    let mut triggers = scene();
    triggers.entities[1].events[0].1.push(Connection { name: s("Stop"), targets: vec![] });
    assert!(!entity_is_valid(&triggers));
}

#[test]
fn own_pins_add_to_the_pins_without_them() {
    let (mut intel, mut store, e) = (intellisense(), ResourceStore::new(), scene());
    let (ins, outs) = pins(&mut intel, &mut store, &e, "child", false).ok().unwrap();
    let (ins_bare, outs_bare) = pins(&mut intel, &mut store, &e, "child", true).ok().unwrap();
    let t = &e.entities[1];
    for x in &ins {
        assert!(ins_bare.contains(x) || t.input_copying.iter().any(|k| &k.0 == x));
    }
    for x in &outs {
        assert!(outs_bare.contains(x) || t.events.iter().any(|k| &k.0 == x) || t.output_copying.iter().any(|k| &k.0 == x));
    }
    assert!(outs.contains(&s("OnDone")) && outs.contains(&s("Out")));
    assert!(ins_bare.iter().all(|x| ins.contains(x)));
    assert!(outs_bare.iter().all(|x| outs.contains(x)));
}
