//! EasyEDA/LCEDA Pro (`.epro2`) interchange vocabulary and its deterministic
//! text helpers.
//!
//! LCEDA Pro is a finite, external interchange boundary. The exporter retains
//! logical identities, records every exact-to-decimal projection, and reports
//! semantic details for which the record vocabulary has no faithful
//! representation. The archive framing itself lives in [`crate::archive`].

use vstd::prelude::*;
use vstd::string::StringExecFns;

use crate::fingerprint::{fnv64, hex16, push_hex16, spec_fnv64};
use crate::text::{ascii_alphanumeric, chars_of, is_ascii_alphanumeric, push_char, text_from_chars};

verus! {

/// Schema identifying the auditable export report.
pub const LCEDA_PRO_EXPORT_SCHEMA: &'static str = "hypercircuit/lceda-pro-export";

/// Version of the report and mapping policy.
pub const LCEDA_PRO_EXPORT_VERSION: u32 = 4;

/// First FNV basis of an LCEDA identifier.
pub const LCEDA_UUID_BASIS_A: u64 = 0xcbf2_9ce4_8422_2325;

/// Second FNV basis of an LCEDA identifier.
pub const LCEDA_UUID_BASIS_B: u64 = 0x8422_2325_cbf2_9ce4;

/// Physical unit used by authored PCB coordinates.
#[derive(Clone, Copy, Debug, PartialEq, Eq, Structural)]
pub enum LcedaSourceLengthUnit {
    /// Millimetres.
    Millimeter,
    /// Thousandths of an inch.
    Mil,
    /// Inches.
    Inch,
}

/// LCEDA Pro output and finite-decimal policy.
#[derive(Clone, Copy, Debug, PartialEq, Eq, Structural)]
pub struct LcedaProExportOptions {
    /// Unit in which physical PCB dimensions were authored.
    pub source_length_unit: LcedaSourceLengthUnit,
    /// Digits written after the decimal point before zero trimming.
    pub decimal_places: usize,
}

impl LcedaProExportOptions {
    /// Conventional millimetre-authored board policy: six decimal places.
    pub fn millimeters() -> (options: Self)
        ensures
            options == (LcedaProExportOptions {
                source_length_unit: LcedaSourceLengthUnit::Millimeter,
                decimal_places: 6,
            }),
    {
        LcedaProExportOptions { source_length_unit: LcedaSourceLengthUnit::Millimeter, decimal_places: 6 }
    }
}

/// One exact scalar projected into LCEDA numeric syntax.
#[derive(Clone, Debug, PartialEq, Eq)]
pub struct LcedaNumericProjection {
    /// Stable semantic field path.
    pub field: String,
    /// Exact-aware source spelling.
    pub source: String,
    /// Unit of the emitted token.
    pub emitted_unit: &'static str,
    /// Decimal token placed in the record stream.
    pub emitted: String,
}

/// Retained intent not faithfully represented by this mapping version.
#[derive(Clone, Debug, PartialEq, Eq)]
pub enum LcedaExportOmission {
    /// The public Pro specification is incomplete and announces an incompatible V3 format.
    EditorConformanceReview,
    /// LCEDA receives physical layers but not all material-library semantics.
    DetailedStackup,
    /// Relational constraints are already reflected only when placements were resolved.
    PlacementConstraints(usize),
    /// Typed keepout scopes do not have a proven Pro record mapping yet.
    Keepouts(usize),
    /// The arbitrary pad polygon was represented by its bounding rectangle.
    PolygonPadApproximation { land_pattern: String, pad: String },
    /// The routed slot was represented by its overall rectangular hole envelope.
    RoutedSlotApproximation { land_pattern: String, pad: String },
    /// Source-specific/custom artwork layer was placed on the document layer.
    CustomArtworkLayer { land_pattern: String, graphic: String },
    /// A mask or paste expansion remains retained only in hypercircuit.
    PadProcessMargin { land_pattern: String, pad: String },
    /// A non-plated or unspecified via was emitted, but editor behavior must be reviewed.
    ViaPlatingReview { via: String },
    /// Explicit via mask opening/tenting intent remains retained only in hypercircuit.
    ViaMaskIntent { via: String },
    /// Exact circular route arc has no proven LCEDA Pro record mapping yet.
    CircularRouteArc { route: String, segment: usize },
    /// Exact cubic route Bezier has no proven LCEDA Pro record mapping yet.
    CubicRouteBezier { route: String, segment: usize },
    /// A curved board edge was represented by its endpoint chord.
    CurvedBoardContourChord { contour: String, segment: usize },
    /// Zone policy is retained in extension fields pending native-editor conformance.
    ZonePolicyExtension { zone: String },
    /// Sheet parentage is retained as metadata, not native hierarchical sheet symbols.
    SchematicHierarchyMetadata,
    /// Reusable multipart symbol graphics remain retained in HyperCircuit.
    SchematicSymbolLibrary {
        /// Number of reusable definitions.
        definitions: usize,
        /// Number of independently placeable units.
        units: usize,
        /// Number of exact graphic primitives.
        graphics: usize,
    },
}

/// Deterministic archive plus its full loss/projection audit.
#[derive(Clone, Debug, PartialEq, Eq)]
pub struct LcedaProExportReport {
    /// Report schema.
    pub schema: &'static str,
    /// Mapping version.
    pub version: u32,
    /// Complete deterministic `.epro2` ZIP bytes.
    pub archive: Vec<u8>,
    /// Exact `project2.json` archive member.
    pub project_json: String,
    /// Exact `.epru` JSON-record stream archive member.
    pub record_stream: String,
    /// Archive member names in deterministic order.
    pub files: Vec<String>,
    /// Every exact-to-finite conversion.
    pub numeric_projections: Vec<LcedaNumericProjection>,
    /// Every known semantic approximation or omission.
    pub omissions: Vec<LcedaExportOmission>,
}

/// Failure before a structurally meaningful project can be produced.
#[derive(Clone, Debug, PartialEq, Eq)]
pub enum LcedaExportError {
    /// Circuit, schematic, or PCB validation failed.
    InvalidDesign,
    /// Decimal precision must be nonzero and bounded.
    InvalidOptions,
    /// An exact scalar did not project to a finite number.
    NonFiniteScalar(String),
    /// JSON serialization failed.
    Json,
    /// ZIP size or I/O limits were exceeded.
    Archive(String),
}

/// One finite LCEDA token restored to an exact source-unit scalar.
#[derive(Clone, Debug, PartialEq, Eq)]
pub struct LcedaNumericImport {
    /// Stable semantic destination field.
    pub field: String,
    /// Decimal token read from the archive.
    pub source: String,
    /// Unit carried by the archive token.
    pub source_unit: &'static str,
    /// Exact source-unit value restored to HyperCircuit.
    pub restored: String,
}

/// Supported-subset import fact that remains baseline-owned or unrecognized.
#[derive(Clone, Debug, PartialEq, Eq)]
pub enum LcedaImportOmission {
    /// Circuit connectivity remains authoritative in the caller-supplied baseline.
    BaselineCircuitTruth,
    /// Footprint, pad, stackup, constraints, and keepout definitions remain baseline-owned.
    BaselinePhysicalDefinitions,
    /// Wire endpoint kinds, page membership, ports, and reusable symbols remain baseline-owned.
    BaselineSchematicTopology,
    /// A typed pin/port endpoint remained anchored to authoritative connectivity.
    AnchoredWireEndpointPreserved { wire: String, endpoint: &'static str },
    /// A curved baseline outline segment was not replaced by its exported chord.
    CurvedOutlinePreserved { contour: String, segment: usize },
    /// A PCB record was not part of the supported editable subset.
    UnsupportedPcbRecord { kind: String, id: String },
    /// A schematic record was not part of the supported presentation subset.
    UnsupportedSchematicRecord { kind: String, id: String },
}

/// Failure to parse or safely apply an LCEDA Pro archive.
#[derive(Clone, Debug, PartialEq, Eq)]
pub enum LcedaImportError {
    /// Caller-supplied circuit/layout truth is invalid.
    InvalidBaseline,
    /// ZIP structure is malformed, compressed, or exceeds member bounds.
    InvalidArchive,
    /// No unique `.epru` record stream exists.
    MissingRecordStream,
    /// One JSON record line is malformed.
    InvalidRecord(usize),
    /// A required supported-subset field is absent or invalid.
    InvalidField(String),
    /// A stable HyperCircuit target is absent from the baseline.
    UnknownTarget(String),
    /// Applied editor changes produce an invalid retained layout.
    InvalidResult,
}

/// Drops trailing `'0'` characters.
pub open spec fn without_trailing_zeros(s: Seq<char>) -> Seq<char>
    decreases s.len(),
{
    if s.len() > 0 && s.last() == '0' {
        without_trailing_zeros(s.drop_last())
    } else {
        s
    }
}

/// A decimal token with a fractional part loses its trailing zeros and then
/// a bare trailing point; a negative zero becomes `0`.
pub open spec fn trimmed_number(s: Seq<char>) -> Seq<char> {
    let t = if s.contains('.') {
        let z = without_trailing_zeros(s);
        if z.len() > 0 && z.last() == '.' {
            z.drop_last()
        } else {
            z
        }
    } else {
        s
    };
    if t == seq!['-', '0'] {
        seq!['0']
    } else {
        t
    }
}

/// Trims a fixed-point decimal token in place (see [`trimmed_number`]).
pub fn trim_number(value: &mut String)
    ensures
        final(value)@ == trimmed_number(old(value)@),
{
    let chars = chars_of(value.as_str());
    let n = chars.len();
    let mut has_point = false;
    let mut i: usize = 0;
    while i < n
        invariant
            i <= n == chars@.len(),
            has_point <==> chars@.take(i as int).contains('.'),
        decreases n - i,
    {
        if chars[i] == '.' {
            has_point = true;
        }
        proof {
            let t = chars@.take(i + 1);
            assert(t =~= chars@.take(i as int).push(chars@[i as int]));
            if chars@[i as int] == '.' {
                assert(t[i as int] == '.');
            }
            if chars@.take(i as int).contains('.') {
                let k = choose|k: int| 0 <= k < i && chars@.take(i as int)[k] == '.';
                assert(t[k] == '.');
            }
        }
        i = i + 1;
    }
    proof {
        assert(chars@.take(n as int) =~= chars@);
    }
    let mut end: usize = n;
    if has_point {
        while end > 0 && chars[end - 1] == '0'
            invariant
                end <= n == chars@.len(),
                without_trailing_zeros(chars@) == without_trailing_zeros(chars@.take(end as int)),
            decreases end,
        {
            proof {
                assert(chars@.take(end as int).drop_last() =~= chars@.take(end - 1));
            }
            end = end - 1;
        }
        proof {
            assert(without_trailing_zeros(chars@.take(end as int)) == chars@.take(end as int));
        }
        if end > 0 && chars[end - 1] == '.' {
            end = end - 1;
            proof {
                assert(chars@.take(end + 1).drop_last() =~= chars@.take(end as int));
            }
        }
    }
    let trimmed = text_from_chars(&chars, end);
    let negative_zero = trimmed.as_str().unicode_len() == 2 && trimmed.as_str().get_char(0) == '-'
        && trimmed.as_str().get_char(1) == '0';
    if negative_zero {
        proof {
            assert(trimmed@ =~= seq!['-', '0']);
        }
        *value = String::from_str("0");
        proof {
            reveal_strlit("0");
            assert(value@ =~= seq!['0']);
        }
    } else {
        proof {
            if trimmed@ == seq!['-', '0'] {
                assert(trimmed@.len() == 2 && trimmed@[0] == '-' && trimmed@[1] == '0');
            }
        }
        *value = trimmed;
    }
}

/// Each character that is not an ASCII letter or digit becomes `_`.
pub open spec fn sanitized(s: Seq<char>) -> Seq<char> {
    Seq::new(s.len(), |i: int| if is_ascii_alphanumeric(s[i]) { s[i] } else { '_' })
}

/// Replaces every character that is not an ASCII letter or digit by `_`.
pub fn sanitize(value: &str) -> (safe: String)
    ensures
        safe@ == sanitized(value@),
{
    let chars = chars_of(value);
    let mut safe = String::new();
    let mut i: usize = 0;
    while i < chars.len()
        invariant
            i <= chars@.len(),
            chars@ == value@,
            safe@ == sanitized(value@).take(i as int),
        decreases chars.len() - i,
    {
        let c = chars[i];
        if ascii_alphanumeric(c) {
            push_char(&mut safe, c);
        } else {
            push_char(&mut safe, '_');
        }
        proof {
            assert(sanitized(value@).take(i + 1) =~= sanitized(value@).take(i as int).push(
                sanitized(value@)[i as int],
            ));
        }
        i = i + 1;
    }
    proof {
        assert(sanitized(value@).take(i as int) =~= sanitized(value@));
    }
    safe
}

/// The sanitized name, or `hypercircuit` when nothing remains of it.
pub open spec fn safe_file_stem(s: Seq<char>) -> Seq<char> {
    if s.len() == 0 {
        "hypercircuit"@
    } else {
        sanitized(s)
    }
}

/// A file stem made only of ASCII letters, digits and `_`, never empty.
pub fn safe_filename(value: &str) -> (name: String)
    ensures
        name@ == safe_file_stem(value@),
{
    let safe = sanitize(value);
    if safe.as_str().unicode_len() == 0 {
        String::from_str("hypercircuit")
    } else {
        safe
    }
}

/// The LCEDA identifier of a seed: two FNV-1a fingerprints of its UTF-8
/// bytes, from two bases, as thirty-two lowercase hexadecimal digits.
pub open spec fn lceda_uuid(seed: Seq<char>) -> Seq<char> {
    let bytes = vstd::utf8::encode_utf8(seed);
    hex16(spec_fnv64(bytes, LCEDA_UUID_BASIS_A)) + hex16(spec_fnv64(bytes, LCEDA_UUID_BASIS_B))
}

/// Deterministic identifier derived from a seed text (see [`lceda_uuid`]).
pub fn stable_uuid(seed: &str) -> (uuid: String)
    ensures
        uuid@ == lceda_uuid(seed@),
{
    let bytes = seed.as_bytes_vec();
    let a = fnv64(bytes.as_slice(), LCEDA_UUID_BASIS_A);
    let b = fnv64(bytes.as_slice(), LCEDA_UUID_BASIS_B);
    let mut uuid = String::new();
    push_hex16(&mut uuid, a);
    push_hex16(&mut uuid, b);
    proof {
        assert(uuid@ =~= lceda_uuid(seed@));
    }
    uuid
}

} // verus!
