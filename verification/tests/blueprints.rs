use intellisense::blueprint::{
    extended_rows_of, material_pins_of, material_rows_of, uicb_lookup_of, uicb_pins_of, uicb_rows_of,
    EcpbProperty, ExtendedPropertyType, MaterialProperty, MaterialValue, UicbEntry,
};
use intellisense::model::{IntellisenseError, PropValue};
use intellisense::unique::unique_names;

fn names(rows: &Vec<(String, String, PropValue, bool)>) -> Vec<String> {
    rows.iter().map(|r| r.0.clone()).collect()
}

#[test]
fn textures_add_switch_and_destination_rows() {
    let ps = vec![
        MaterialProperty { name: "mapDiffuse".to_string(), value: MaterialValue::Texture(Some("00ABCDEF01234567".to_string())) },
        MaterialProperty { name: "mapNormal".to_string(), value: MaterialValue::Texture(None) },
    ];
    let rows = material_rows_of(&ps);
    assert_eq!(names(&rows), vec!["mapDiffuse", "mapDiffuse_enab", "mapDiffuse_dest", "mapNormal", "mapNormal_enab", "mapNormal_dest"]);
    assert_eq!(rows[0].1, "ZRuntimeResourceID");
    match &rows[0].2 {
        PropValue::ResourceRef { resource, flag } => {
            assert_eq!(resource, "00ABCDEF01234567");
            assert_eq!(flag, "5F");
        }
        _ => panic!("expected a resource reference"),
    }
    assert!(matches!(rows[1].2, PropValue::Bool(false)));
    assert_eq!(rows[2].1, "SEntityTemplateReference");
    assert!(matches!(rows[3].2, PropValue::Null));
    assert!(rows.iter().all(|r| !r.3));
}

#[test]
fn values_add_modifier_rows() {
    let ps = vec![
        MaterialProperty { name: "tint".to_string(), value: MaterialValue::ColourRgb(255, 128, 0) },
        MaterialProperty { name: "glow".to_string(), value: MaterialValue::ColourRgba(0, 0, 0, 255) },
        MaterialProperty { name: "rough".to_string(), value: MaterialValue::Float("0.5".to_string()) },
        MaterialProperty { name: "uv".to_string(), value: MaterialValue::Vector2("{\"x\":1.0,\"y\":2.0}".to_string()) },
    ];
    let rows = material_rows_of(&ps);
    assert_eq!(names(&rows), vec!["tint", "tint_op", "glow", "glow_op", "rough", "rough_op", "uv", "uv_op"]);
    assert!(matches!(&rows[0].2, PropValue::Text(t) if t == "#ff8000"));
    assert_eq!(rows[1].1, "IRenderMaterialEntity.EModifierOperation");
    assert!(matches!(&rows[1].2, PropValue::Text(t) if t == "eLeave"));
    assert!(matches!(&rows[2].2, PropValue::Text(t) if t == "#000000ff"));
    assert_eq!(rows[2].1, "SColorRGBA");
    assert_eq!(rows[4].1, "float32");
    assert_eq!(rows[6].1, "SVector2");
    assert_eq!(material_pins_of(&ps), vec!["tint", "glow", "rough", "uv"]);
}

#[test]
fn extended_properties_get_type_names_and_defaults() {
    let ps = vec![
        EcpbProperty { name: "a".to_string(), property_type: ExtendedPropertyType::ResourcePtr },
        EcpbProperty { name: "b".to_string(), property_type: ExtendedPropertyType::Uint32 },
        EcpbProperty { name: "c".to_string(), property_type: ExtendedPropertyType::Text },
        EcpbProperty { name: "d".to_string(), property_type: ExtendedPropertyType::Bool },
        EcpbProperty { name: "e".to_string(), property_type: ExtendedPropertyType::Variant },
    ];
    let rows = extended_rows_of(&ps);
    let types: Vec<&str> = rows.iter().map(|r| r.1.as_str()).collect();
    assert_eq!(types, vec!["ZRuntimeResourceID", "uint32", "ZString", "bool", "ZVariant"]);
    assert!(matches!(rows[0].2, PropValue::Null));
    assert!(matches!(rows[1].2, PropValue::Int(0)));
    assert!(matches!(&rows[2].2, PropValue::Text(t) if t.is_empty()));
    assert!(matches!(rows[3].2, PropValue::Bool(false)));
}

fn ui_types() -> Vec<(u8, String)> {
    vec![(0, "int32".to_string()), (1, "ZString".to_string()), (2, "SVector2".to_string())]
}

#[test]
fn ui_blueprints_list_properties_and_pins() {
    let es = vec![
        UicbEntry { kind: 0, type_code: 0, name: "Count".to_string() },
        UicbEntry { kind: 1, type_code: 9, name: "OnClick".to_string() },
        UicbEntry { kind: 0, type_code: 1, name: "Label".to_string() },
    ];
    let rows = uicb_rows_of(&ui_types(), &es).ok().unwrap();
    assert_eq!(names(&rows), vec!["Count", "Label"]);
    assert!(matches!(rows[0].2, PropValue::Int(0)));
    assert!(matches!(&rows[1].2, PropValue::Text(t) if t.is_empty()));
    assert_eq!(uicb_pins_of(&es), vec!["OnClick"]);
    let found = uicb_lookup_of(&ui_types(), &es, &"Label".to_string()).ok().unwrap().unwrap();
    assert_eq!(found.0, "ZString");
    assert!(uicb_lookup_of(&ui_types(), &es, &"Nope".to_string()).ok().unwrap().is_none());
}

#[test]
fn ui_blueprints_reject_unknown_types() {
    let unknown_code = vec![UicbEntry { kind: 0, type_code: 7, name: "X".to_string() }];
    assert!(matches!(uicb_rows_of(&ui_types(), &unknown_code), Err(IntellisenseError::UnknownUicbPropertyType)));
    let no_default = vec![UicbEntry { kind: 0, type_code: 2, name: "Pos".to_string() }];
    assert!(matches!(uicb_rows_of(&ui_types(), &no_default), Err(IntellisenseError::UnknownUicbValueType)));
    assert!(matches!(uicb_lookup_of(&ui_types(), &no_default, &"Other".to_string()), Ok(None)));
    assert!(matches!(uicb_lookup_of(&ui_types(), &no_default, &"Pos".to_string()), Err(IntellisenseError::UnknownUicbValueType)));
}

#[test]
fn repeated_names_keep_their_first_place() {
    let v: Vec<String> = ["b", "a", "b", "c", "a"].iter().map(|s| s.to_string()).collect();
    assert_eq!(unique_names(v.clone()), vec!["b", "a", "c"]);
    assert_eq!(unique_names(unique_names(v.clone())), unique_names(v));
    assert!(unique_names(vec![]).is_empty());
}
