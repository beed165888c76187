use intellisense::hash::{hash_of_digest, normalise_to_hash};
use intellisense::cppt::{
    colour_string, convert_cppt_properties, convert_value, guid_string, property_name, shown_type_of,
    Channel, ColourReading, CpptInput, GuidParts, HashRef, PropertyId, RawValue,
};
use intellisense::model::{IntellisenseError, PropValue};
use intellisense::text::{chars_of, decimal_string, occurs, same_text};

fn raw(json: &str) -> RawValue {
    RawValue { json: json.to_string(), id_low: None, guid: None, colour: None, transform: None }
}

fn text_of(v: &PropValue) -> String {
    match v {
        PropValue::Text(s) => s.clone(),
        _ => panic!("not text"),
    }
}

#[test]
fn decimal_rendering_matches_to_string() {
    for v in [0u64, 7, 10, 99, 100, 4294967295, u64::MAX] {
        assert_eq!(decimal_string(v), v.to_string());
    }
}

#[test]
fn guid_text_is_canonical() {
    let g = GuidParts { a: 0x1a2b3c, b: 0xbeef, c: 0x12, d: 0x0f, e: 0xa0, f: 1, g: 2, h: 3, i: 4, j: 5, k: 0xff };
    assert_eq!(guid_string(&g), "001a2b3c-beef-0012-0fa0-0102030405ff");
}

#[test]
fn colour_text_is_two_digits_per_channel() {
    assert_eq!(colour_string(&vec![255, 0, 16]), "#ff0010");
    assert_eq!(colour_string(&vec![1, 2, 3, 254]), "#010203fe");
}

#[test]
fn property_names_of_numbers_are_decimal() {
    assert_eq!(property_name(&PropertyId::Int(3253306412)), "3253306412");
    assert_eq!(property_name(&PropertyId::Text("m_bEnabled".to_string())), "m_bEnabled");
}

#[test]
fn entity_reference_types_are_shown_as_template_references() {
    assert_eq!(shown_type_of("ZEntityReference"), "SEntityTemplateReference");
    assert_eq!(shown_type_of("TArray<ZEntityReference>"), "TArray<SEntityTemplateReference>");
    assert_eq!(shown_type_of("bool"), "bool");
}

#[test]
fn resource_ids_resolve_through_references() {
    let refs = vec![
        HashRef { hash: "00AAAAAAAAAAAAAA".to_string(), flag: "1F".to_string() },
        HashRef { hash: "00BBBBBBBBBBBBBB".to_string(), flag: "5F".to_string() },
    ];
    let mut v = raw("{}");
    v.id_low = Some(0);
    assert!(matches!(convert_value("ZRuntimeResourceID", &v, &refs), Ok(PropValue::Text(h)) if h == "00AAAAAAAAAAAAAA"));
    v.id_low = Some(1);
    match convert_value("ZRuntimeResourceID", &v, &refs) {
        Ok(PropValue::ResourceRef { resource, flag }) => {
            assert_eq!(resource, "00BBBBBBBBBBBBBB");
            assert_eq!(flag, "5F");
        }
        _ => panic!("expected a resource reference"),
    }
    v.id_low = Some(4294967295);
    assert!(matches!(convert_value("ZRuntimeResourceID", &v, &refs), Ok(PropValue::Null)));
    v.id_low = Some(2);
    assert!(matches!(convert_value("ZRuntimeResourceID", &v, &refs), Err(IntellisenseError::NoSuchReferencedResource)));
    v.id_low = None;
    assert!(matches!(convert_value("ZRuntimeResourceID", &v, &refs), Err(IntellisenseError::InvalidData)));
}

#[test]
fn other_types_convert_by_their_rules() {
    let refs = vec![];
    assert!(matches!(convert_value("ZEntityReference", &raw("{}"), &refs), Ok(PropValue::Null)));
    assert!(matches!(convert_value("TArray<ZEntityReference>", &raw("[]"), &refs), Ok(PropValue::EmptyList)));
    assert!(matches!(convert_value("float32", &raw("1.5"), &refs), Ok(PropValue::Json(j)) if j == "1.5"));
    let mut g = raw("{}");
    assert!(matches!(convert_value("ZGuid", &g, &refs), Err(IntellisenseError::InvalidData)));
    g.guid = Some(GuidParts { a: 0, b: 0, c: 0, d: 0, e: 0, f: 0, g: 0, h: 0, i: 0, j: 0, k: 1 });
    assert_eq!(text_of(&convert_value("ZGuid", &g, &refs).ok().unwrap()), "00000000-0000-0000-0000-000000000001");
    let mut m = raw("{}");
    assert!(matches!(convert_value("SMatrix43", &m, &refs), Err(IntellisenseError::InvalidData)));
    m.transform = Some("{\"position\":{}}".to_string());
    assert!(matches!(convert_value("SMatrix43", &m, &refs), Ok(PropValue::Json(j)) if j == "{\"position\":{}}"));
}

#[test]
fn colours_report_the_first_bad_channel() {
    let refs = vec![];
    let mut c = raw("{}");
    assert!(matches!(convert_value("SColorRGB", &c, &refs), Err(IntellisenseError::ColourNotObject { with_alpha: false })));
    assert!(matches!(convert_value("SColorRGBA", &c, &refs), Err(IntellisenseError::ColourNotObject { with_alpha: true })));
    c.colour = Some(ColourReading { r: Channel::Byte(255), g: Channel::Missing, b: Channel::NotNumber, a: Channel::Missing });
    assert!(matches!(convert_value("SColorRGB", &c, &refs), Err(IntellisenseError::ColourMissingKey('g'))));
    c.colour = Some(ColourReading { r: Channel::Byte(255), g: Channel::Byte(128), b: Channel::NotNumber, a: Channel::Missing });
    assert!(matches!(convert_value("SColorRGB", &c, &refs), Err(IntellisenseError::InvalidData)));
    c.colour = Some(ColourReading { r: Channel::Byte(255), g: Channel::Byte(128), b: Channel::Byte(0), a: Channel::Missing });
    assert_eq!(text_of(&convert_value("SColorRGB", &c, &refs).ok().unwrap()), "#ff8000");
    assert!(matches!(convert_value("SColorRGBA", &c, &refs), Err(IntellisenseError::ColourMissingKey('a'))));
    c.colour = Some(ColourReading { r: Channel::Byte(255), g: Channel::Byte(128), b: Channel::Byte(0), a: Channel::Byte(10) });
    assert_eq!(text_of(&convert_value("SColorRGBA", &c, &refs).ok().unwrap()), "#ff80000a");
}

#[test]
fn error_messages_are_the_editors() {
    assert_eq!(IntellisenseError::ColourMissingKey('b').message(), "Colour did not have required key b");
    assert_eq!(IntellisenseError::ColourNotObject { with_alpha: true }.message(), "SColorRGBA was not an object");
    assert_eq!(IntellisenseError::UnknownUicbValueType.message(), "UICB property types has unknown type");
    assert_eq!(IntellisenseError::Load("boom".to_string()).message(), "boom");
}

#[test]
fn class_tables_hold_each_name_once_with_the_last_value() {
    let props = vec![
        CpptInput { id: PropertyId::Text("a".to_string()), property_type: "bool".to_string(), value: raw("true") },
        CpptInput { id: PropertyId::Int(7), property_type: "ZEntityReference".to_string(), value: raw("null") },
        CpptInput { id: PropertyId::Text("a".to_string()), property_type: "int32".to_string(), value: raw("3") },
    ];
    let table = convert_cppt_properties(&props, &vec![]).ok().unwrap();
    assert_eq!(table.len(), 2);
    assert_eq!(table[0].0, "a");
    assert_eq!(table[0].1, "int32");
    assert!(matches!(&table[0].2, PropValue::Json(j) if j == "3"));
    assert_eq!(table[1].0, "7");
    assert_eq!(table[1].1, "SEntityTemplateReference");
    assert!(matches!(table[1].2, PropValue::Null));
}

#[test]
fn class_table_conversion_stops_at_the_first_error() {
    let props = vec![
        CpptInput { id: PropertyId::Text("a".to_string()), property_type: "ZGuid".to_string(), value: raw("{}") },
        CpptInput { id: PropertyId::Text("b".to_string()), property_type: "SColorRGB".to_string(), value: raw("{}") },
    ];
    assert!(matches!(convert_cppt_properties(&props, &vec![]), Err(IntellisenseError::InvalidData)));
}

#[test]
fn text_search_and_equality() {
    assert!(same_text("abc", "abc"));
    assert!(!same_text("abc", "abd"));
    let hay = chars_of("[assembly:/_pro/characters]");
    assert!(occurs(&hay, &chars_of("characters")));
    assert!(occurs(&hay, &chars_of("")));
    assert!(!occurs(&hay, &chars_of("Characters")));
    assert!(!occurs(&chars_of("ab"), &chars_of("abc")));
}

#[test]
fn factories_written_as_paths_are_named_by_their_hash() {
    let path = "[assembly:/templates/gameplay/ai2/actors.template?/npcactor.entitytemplate].pc_entitytype".to_string();
    assert_eq!(normalise_to_hash(&path), "00DDCC74AD917CAA");
    assert_eq!(normalise_to_hash(&String::new()), "001D8CD98F00B204");
    assert_eq!(normalise_to_hash(&"00DDCC74AD917CAA".to_string()), "00DDCC74AD917CAA");
    assert_eq!(normalise_to_hash(&"0abc".to_string()), "0abc");
    let digest = [86, 221, 204, 116, 173, 145, 124, 170, 140, 12, 137, 152, 69, 63, 235, 251];
    assert_eq!(hash_of_digest(&digest), "00DDCC74AD917CAA");
    assert_eq!(hash_of_digest(&[255; 16]), "00FFFFFFFFFFFFFF");
}
