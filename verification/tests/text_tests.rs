use hypercircuit::fingerprint::fnv64;
use hypercircuit::lceda::{safe_filename, sanitize, stable_uuid, trim_number};
use hypercircuit::{LcedaProExportOptions, LcedaSourceLengthUnit, LCEDA_PRO_EXPORT_SCHEMA, LCEDA_PRO_EXPORT_VERSION};

fn trimmed(text: &str) -> String {
    let mut value = text.to_string();
    trim_number(&mut value);
    value
}

#[test]
fn fnv64_reference_values() {
    assert_eq!(fnv64(b"", 0xcbf2_9ce4_8422_2325), 0xcbf2_9ce4_8422_2325);
    assert_eq!(fnv64(b"a", 0xcbf2_9ce4_8422_2325), 0xaf63_dc4c_8601_ec8c);
    assert_eq!(fnv64(b"foobar", 0xcbf2_9ce4_8422_2325), 0x8594_4171_f739_67e8);
}

#[test]
fn trim_number_drops_fractional_zeros() {
    assert_eq!(trimmed("1.500000"), "1.5");
    assert_eq!(trimmed("2.000000"), "2");
    assert_eq!(trimmed("-0.000000"), "0");
    assert_eq!(trimmed("-0"), "0");
    assert_eq!(trimmed("100"), "100");
    assert_eq!(trimmed("-12.340"), "-12.34");
    assert_eq!(trimmed(""), "");
}

#[test]
fn sanitize_keeps_only_ascii_alphanumerics() {
    assert_eq!(sanitize("My Board-1.v2"), "My_Board_1_v2");
    assert_eq!(sanitize("Ωx"), "_x");
    assert_eq!(sanitize(""), "");
}

#[test]
fn safe_filename_never_empty() {
    assert_eq!(safe_filename(""), "hypercircuit");
    assert_eq!(safe_filename("a b"), "a_b");
    assert_eq!(safe_filename("--"), "__");
}

#[test]
fn lceda_uuid_is_two_fingerprints_in_hex() {
    let seed = "footprint:R0603";
    let uuid = stable_uuid(seed);
    let expected = format!(
        "{:016x}{:016x}",
        fnv64(seed.as_bytes(), 0xcbf2_9ce4_8422_2325),
        fnv64(seed.as_bytes(), 0x8422_2325_cbf2_9ce4)
    );
    assert_eq!(uuid, expected);
    assert_eq!(uuid.len(), 32);
    assert_eq!(stable_uuid(seed), uuid);
    assert_ne!(stable_uuid("footprint:R0402"), uuid);
    assert_eq!(stable_uuid(""), "cbf29ce48422232584222325cbf29ce4");
}

#[test]
fn millimeter_policy() {
    let options = LcedaProExportOptions::millimeters();
    assert_eq!(options.source_length_unit, LcedaSourceLengthUnit::Millimeter);
    assert_eq!(options.decimal_places, 6);
    assert_eq!(LCEDA_PRO_EXPORT_SCHEMA, "hypercircuit/lceda-pro-export");
    assert_eq!(LCEDA_PRO_EXPORT_VERSION, 4);
}
