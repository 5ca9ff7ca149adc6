use hypercircuit::kicad_schematic::{
    decode_fields, encode_fields, filename_slug, kicad_pin_kind, kicad_symbol_name, library_id,
    pin_angle, port_shape, quoted, stable_uuid, unit_body_property, valid_kicad_filename,
};
use hypercircuit::model::{PinElectricalKind, PortDirection};
use hypercircuit::{
    KiCadSchematicBookExportOptions, KiCadSchematicExportOptions, KiCadSchematicImportError,
    SchematicPinSide, SchematicSymbolDefinitionId,
};

fn metadata_error(text: &str) -> Result<Vec<String>, KiCadSchematicImportError> {
    Err(KiCadSchematicImportError::InvalidBookMetadata(text.to_string()))
}

#[test]
fn encode_fields_prefixes_byte_lengths() {
    assert_eq!(encode_fields(&["ab", "", "x:y"]), "2:ab0:3:x:y");
    assert_eq!(encode_fields(&["é"]), "2:é");
    assert_eq!(encode_fields(&[]), "");
}

#[test]
fn decode_fields_inverts_encode_fields() {
    let fields = ["parent", "", "12:34", "ü/ß", "7"];
    let encoded = encode_fields(&fields);
    assert_eq!(decode_fields(&encoded).unwrap(), fields.iter().map(|f| f.to_string()).collect::<Vec<_>>());
    assert_eq!(decode_fields("").unwrap(), Vec::<String>::new());
}

#[test]
fn decode_fields_reports_each_malformation() {
    assert_eq!(decode_fields("3abc"), metadata_error("length-prefixed link field has no ':'"));
    assert_eq!(decode_fields("x:abc"), metadata_error("length-prefixed link field has invalid length"));
    assert_eq!(decode_fields(":abc"), metadata_error("length-prefixed link field has invalid length"));
    assert_eq!(decode_fields("5:abc"), metadata_error("length-prefixed link field is truncated"));
    assert_eq!(decode_fields("1:é"), metadata_error("length-prefixed link field is truncated"));
    assert_eq!(
        decode_fields("99999999999999999999999:a"),
        metadata_error("length-prefixed link field has invalid length")
    );
}

#[test]
fn decode_fields_accepts_a_plus_sign_like_usize_parsing() {
    assert_eq!(decode_fields("+2:ab").unwrap(), vec!["ab".to_string()]);
    assert_eq!(decode_fields("+:ab"), metadata_error("length-prefixed link field has invalid length"));
}

#[test]
fn quoted_escapes_kicad_specials() {
    assert_eq!(quoted("plain"), "\"plain\"");
    assert_eq!(quoted("a\"b\\c\nd\re\tf"), "\"a\\\"b\\\\c\\nd\\re\\tf\"");
    assert_eq!(quoted(""), "\"\"");
}

#[test]
fn filename_slug_examples() {
    assert_eq!(filename_slug("Power Supply"), "power-supply");
    assert_eq!(filename_slug("  --ADC__in!!  "), "adc__in");
    assert_eq!(filename_slug("***"), "sheet");
    assert_eq!(filename_slug(""), "sheet");
    assert_eq!(filename_slug("Ärger"), "rger");
}

#[test]
fn kicad_filenames() {
    assert!(valid_kicad_filename("root.kicad_sch"));
    assert!(valid_kicad_filename("a.kicad_sch"));
    assert!(!valid_kicad_filename(".kicad_sch"));
    assert!(!valid_kicad_filename(""));
    assert!(!valid_kicad_filename("sub/a.kicad_sch"));
    assert!(!valid_kicad_filename("sub\\a.kicad_sch"));
    assert!(!valid_kicad_filename("a.sch"));
}

#[test]
fn kicad_uuid_layout_and_version() {
    let uuid = stable_uuid("sheet:demo");
    assert_eq!(uuid.len(), 36);
    let dashes: Vec<usize> = uuid.char_indices().filter(|(_, c)| *c == '-').map(|(i, _)| i).collect();
    assert_eq!(dashes, vec![8, 13, 18, 23]);
    assert_eq!(&uuid[14..15], "5");
    assert!(matches!(&uuid[19..20], "8" | "9" | "a" | "b"));
    assert_eq!(stable_uuid("sheet:demo"), uuid);
    assert_ne!(stable_uuid("sheet:other"), uuid);
    assert!(uuid.chars().all(|c| c == '-' || c.is_ascii_hexdigit() && !c.is_ascii_uppercase()));
}

#[test]
fn kicad_uuid_of_empty_text() {
    // FNV-1a bases unchanged: cbf29ce484222325 and 84222325cbf29ce4, then stamped.
    assert_eq!(stable_uuid(""), "cbf29ce4-8422-5325-8422-2325cbf29ce4");
}

#[test]
fn symbol_names_derive_from_uuid() {
    let id = SchematicSymbolDefinitionId::new("opamp");
    let uuid = stable_uuid("opamp");
    let name = kicad_symbol_name(&id);
    assert_eq!(name, format!("hc_{}", uuid.replace('-', "_")));
    assert_eq!(library_id(&id), format!("hypercircuit:{name}"));
}

#[test]
fn pin_and_port_keywords() {
    assert_eq!(pin_angle(SchematicPinSide::Left), 0);
    assert_eq!(pin_angle(SchematicPinSide::Right), 180);
    assert_eq!(pin_angle(SchematicPinSide::Top), 90);
    assert_eq!(pin_angle(SchematicPinSide::Bottom), 270);
    assert_eq!(kicad_pin_kind(PinElectricalKind::PowerInput), "power_in");
    assert_eq!(kicad_pin_kind(PinElectricalKind::NotConnected), "no_connect");
    assert_eq!(kicad_pin_kind(PinElectricalKind::OpenCollector), "open_collector");
    assert_eq!(port_shape(PortDirection::Ground), "input");
    assert_eq!(port_shape(PortDirection::PowerOutput), "output");
    assert_eq!(port_shape(PortDirection::Passive), "passive");
}

#[test]
fn unit_body_property_names() {
    assert_eq!(unit_body_property(2, "Width"), "HyperCircuit Unit 2 Body Width");
    assert_eq!(unit_body_property(0, "Height"), "HyperCircuit Unit 0 Body Height");
    assert_eq!(unit_body_property(65535, "Width"), "HyperCircuit Unit 65535 Body Width");
}

#[test]
fn export_option_defaults() {
    let options = KiCadSchematicExportOptions::default();
    assert_eq!(options.decimal_places, 6);
    assert_eq!(options.project_name, "hypercircuit");
    let book = KiCadSchematicBookExportOptions::default();
    assert_eq!(book.root_filename, "root.kicad_sch");
    assert_eq!(book.schematic, options);
}
