//! Native KiCad schematic interchange vocabulary and its deterministic text
//! helpers.
//!
//! The KiCad file remains a presentation boundary: identities, file names,
//! quoting, and hidden hierarchy metadata are produced here exactly, so that
//! an import can recover every retained circuit identity.

use vstd::prelude::*;
use vstd::string::StringExecFns;
use vstd::utf8::{decode_utf8, encode_utf8, is_continuation_byte, valid_utf8};

use crate::archive::{copy_range, utf8_text};
use crate::fingerprint::{fnv64, hex_byte, push_hex_byte, spec_fnv64};
use crate::identity::{
    SchematicLabelId, SchematicSheetId, SchematicSheetPortId, SchematicSymbolDefinitionId,
    SchematicSymbolId, SchematicWireId,
};
use crate::model::{PinElectricalKind, PortDirection};
use crate::text::{
    ascii_alphanumeric, chars_of, contains_char, ends_with_chars, is_ascii_alphanumeric, push_char,
    text_from_range,
};

verus! {

/// Finite-decimal and project-name policy for KiCad schematic export.
#[derive(Debug, PartialEq, Eq)]
pub struct KiCadSchematicExportOptions {
    /// Digits written after the decimal point for exact schematic coordinates.
    pub decimal_places: usize,
    /// KiCad project identity used in symbol instance paths.
    pub project_name: String,
}

impl Clone for KiCadSchematicExportOptions {
    fn clone(&self) -> (copy: Self)
        ensures
            copy.decimal_places == self.decimal_places,
            copy.project_name@ == self.project_name@,
    {
        KiCadSchematicExportOptions {
            decimal_places: self.decimal_places,
            project_name: self.project_name.clone(),
        }
    }
}

impl Default for KiCadSchematicExportOptions {
    /// Six decimal places, project `hypercircuit`.
    fn default() -> (options: Self)
        ensures
            options.decimal_places == 6,
            options.project_name@ == "hypercircuit"@,
    {
        KiCadSchematicExportOptions {
            decimal_places: 6,
            project_name: String::from_str("hypercircuit"),
        }
    }
}

/// One exact scalar projected to KiCad's finite-decimal syntax.
#[derive(Clone, Debug, PartialEq, Eq)]
pub struct KiCadSchematicNumericProjection {
    /// Semantic field being projected.
    pub field: String,
    /// Exact source expression.
    pub source: String,
    /// Decimal token written to KiCad.
    pub emitted: String,
}

/// Stable relation between one circuit-owned symbol and its KiCad identities.
#[derive(Clone, Debug, PartialEq, Eq)]
pub struct KiCadSchematicSymbolProjection {
    /// Circuit-owned drawing identity retained as a hidden symbol property.
    pub symbol: SchematicSymbolId,
    /// Embedded KiCad library identifier.
    pub library_id: String,
    /// Deterministic native KiCad symbol UUID.
    pub uuid: String,
}

/// One circuit-owned polyline lowered to one or more native two-point wires.
#[derive(Clone, Debug, PartialEq, Eq)]
pub struct KiCadSchematicWireProjection {
    /// Circuit-owned wire identity.
    pub wire: SchematicWireId,
    /// Ordered native KiCad segment UUIDs.
    pub native_uuids: Vec<String>,
}

/// Explicit loss at the schematic interchange boundary.
#[derive(Clone, Debug, PartialEq, Eq)]
pub enum KiCadSchematicExportOmission {
    /// KiCad local labels cannot separate displayed text from electrical net name.
    LabelTextProjected {
        /// Circuit-owned label identity.
        label: SchematicLabelId,
        /// Authored display text retained by hypercircuit.
        authored: String,
        /// Native KiCad electrical label text.
        emitted: String,
    },
    /// KiCad requires one shared sheet-pin/hierarchical-label name.
    SheetPortNameProjected {
        /// Parent-page boundary port.
        parent_port: SchematicSheetPortId,
        /// Child-page boundary port.
        child_port: SchematicSheetPortId,
        /// Parent-authored display name retained only in metadata.
        parent_name: String,
        /// Native shared name taken from the child port.
        emitted: String,
    },
}

/// Native `.kicad_sch` text plus replayable projection evidence.
#[derive(Clone, Debug, PartialEq, Eq)]
pub struct KiCadSchematicExportReport {
    /// Standalone KiCad 9 schematic file content.
    pub schematic: String,
    /// Every exact-to-decimal boundary crossing.
    pub numeric_projections: Vec<KiCadSchematicNumericProjection>,
    /// Stable circuit-symbol to native-symbol mapping.
    pub symbols: Vec<KiCadSchematicSymbolProjection>,
    /// Stable circuit-wire to native-segment mapping.
    pub wires: Vec<KiCadSchematicWireProjection>,
    /// Number of native connectivity labels generated for junction-only wires.
    pub generated_connectivity_labels: usize,
    /// Retained presentation facts not represented exactly by KiCad.
    pub omissions: Vec<KiCadSchematicExportOmission>,
}

/// Filename and finite projection policy for a native multi-file schematic.
#[derive(Debug, PartialEq, Eq)]
pub struct KiCadSchematicBookExportOptions {
    /// Scalar and project settings shared by every file.
    pub schematic: KiCadSchematicExportOptions,
    /// Basename of the root schematic file.
    pub root_filename: String,
}

impl Clone for KiCadSchematicBookExportOptions {
    fn clone(&self) -> (copy: Self)
        ensures
            copy.schematic.decimal_places == self.schematic.decimal_places,
            copy.schematic.project_name@ == self.schematic.project_name@,
            copy.root_filename@ == self.root_filename@,
    {
        KiCadSchematicBookExportOptions {
            schematic: self.schematic.clone(),
            root_filename: self.root_filename.clone(),
        }
    }
}

impl Default for KiCadSchematicBookExportOptions {
    /// The default scalar policy, rooted at `root.kicad_sch`.
    fn default() -> (options: Self)
        ensures
            options.schematic.decimal_places == 6,
            options.schematic.project_name@ == "hypercircuit"@,
            options.root_filename@ == "root.kicad_sch"@,
    {
        KiCadSchematicBookExportOptions {
            schematic: KiCadSchematicExportOptions::default(),
            root_filename: String::from_str("root.kicad_sch"),
        }
    }
}

/// Stable file/path identity for one explicit schematic page.
#[derive(Clone, Debug, PartialEq, Eq)]
pub struct KiCadSchematicSheetProjection {
    /// Circuit-owned page identity.
    pub sheet: SchematicSheetId,
    /// Native file basename.
    pub filename: String,
    /// File-header UUID.
    pub file_uuid: String,
    /// Native instance path used by symbols and nested sheets.
    pub instance_path: String,
    /// Deterministic one-based page number.
    pub page: usize,
}

/// One generated page in a native KiCad hierarchy package.
#[derive(Clone, Debug, PartialEq, Eq)]
pub struct KiCadSchematicBookFile {
    /// Page/file/path identity.
    pub projection: KiCadSchematicSheetProjection,
    /// Native `.kicad_sch` contents.
    pub schematic: String,
    /// Exact-to-decimal boundaries in this file.
    pub numeric_projections: Vec<KiCadSchematicNumericProjection>,
    /// Symbol mappings emitted in this file.
    pub symbols: Vec<KiCadSchematicSymbolProjection>,
    /// Wire-to-native-segment mappings emitted in this file.
    pub wires: Vec<KiCadSchematicWireProjection>,
    /// Connectivity-only labels generated in this file.
    pub generated_connectivity_labels: usize,
    /// File-local representational losses.
    pub omissions: Vec<KiCadSchematicExportOmission>,
}

/// Complete native KiCad hierarchy package.
#[derive(Clone, Debug, PartialEq, Eq)]
pub struct KiCadSchematicBookExportReport {
    /// Basename KiCad should open as the hierarchy root.
    pub root_filename: String,
    /// Root-first files; every child filename is unique.
    pub files: Vec<KiCadSchematicBookFile>,
}

/// Failure before a structurally meaningful KiCad schematic can be emitted.
#[derive(Clone, Debug, PartialEq, Eq)]
pub enum KiCadSchematicExportError {
    /// Circuit or schematic validation failed.
    InvalidDesign,
    /// Native hierarchical files require a multi-file export package.
    HierarchyRequiresMultiFileExport,
    /// A book export was requested for an implicit flat schematic.
    BookRequiresExplicitHierarchy,
    /// A package filename was unsafe or lacked the native extension.
    InvalidBookFilename(String),
    /// A retained boundary port does not participate in a parent/child link.
    UnlinkedSheetPort(SchematicSheetPortId),
    /// Validated hierarchy could not be lowered to one internally consistent package.
    InvalidBookState(String),
    /// A validated wire endpoint could not be resolved to a drawing point.
    UnresolvedWireEndpoint {
        /// Circuit-owned wire identity.
        wire: SchematicWireId,
        /// Endpoint position in the wire record.
        endpoint: &'static str,
    },
    /// Native simplification collapsed a wire to fewer than two distinct points.
    DegenerateWire(SchematicWireId),
    /// Export options are empty or outside the supported finite projection bound.
    InvalidOptions,
    /// An exact scalar had no finite projection.
    NonFiniteScalar(String),
    /// Internal text formatting failed.
    Formatting,
}

/// One finite KiCad coordinate imported as an exact decimal.
#[derive(Clone, Debug, PartialEq, Eq)]
pub struct KiCadSchematicNumericImport {
    /// Imported field.
    pub field: String,
    /// Native decimal token.
    pub token: String,
}

/// Explicit assumptions or identity changes made during schematic import.
#[derive(Clone, Debug, PartialEq, Eq)]
pub enum KiCadSchematicImportOmission {
    /// KiCad wire UUIDs became new circuit-owned drawing identities.
    GeneratedWireIdentities { count: usize },
    /// KiCad label UUIDs became new circuit-owned drawing identities.
    GeneratedLabelIdentities { count: usize },
    /// Supplied files not reachable from the root Sheetfile graph were ignored.
    UnreferencedFiles { filenames: Vec<String> },
}

/// One file identity accepted while reconstructing a native hierarchy.
#[derive(Clone, Debug, PartialEq, Eq)]
pub struct KiCadSchematicSheetImport {
    /// Reconstructed circuit-owned sheet identity.
    pub sheet: SchematicSheetId,
    /// Native file basename.
    pub filename: String,
    /// Native file-header UUID.
    pub file_uuid: String,
}

/// Failure to reconstruct the supported native KiCad schematic subset.
#[derive(Clone, Debug, PartialEq, Eq)]
pub enum KiCadSchematicImportError {
    /// S-expression structure was malformed or outside the supported subset.
    Parse(String),
    /// A native numeric token was invalid.
    InvalidNumber { field: String, token: String },
    /// A generated symbol lacks required circuit identity metadata.
    MissingSymbolMetadata(String),
    /// A retained or generated identity was invalid.
    InvalidIdentifier(String),
    /// A wire had no authoritative circuit-net evidence.
    UnresolvedWireNet(String),
    /// Native geometry produced a drawing that disagrees with the circuit.
    InvalidImportedLayout { issue_count: usize },
    /// File input failed.
    Io(String),
    /// A Sheetfile reference was absent from the supplied package.
    MissingBookFile(String),
    /// Two files claimed the same retained sheet identity.
    DuplicateBookSheet(SchematicSheetId),
    /// Native Sheetfile references contain a cycle.
    BookFileCycle(String),
    /// Hidden hierarchy metadata was missing or malformed.
    InvalidBookMetadata(String),
}

/// Side of a symbol body on which a pin stands.
#[derive(Clone, Copy, Debug, PartialEq, Eq, Structural)]
pub enum SchematicPinSide {
    /// Left edge; the pin points right.
    Left,
    /// Right edge; the pin points left.
    Right,
    /// Top edge; the pin points down.
    Top,
    /// Bottom edge; the pin points up.
    Bottom,
}

/// KiCad pin orientation in degrees for a pin on `side`.
pub open spec fn spec_pin_angle(side: SchematicPinSide) -> i32 {
    match side {
        SchematicPinSide::Left => 0,
        SchematicPinSide::Right => 180,
        SchematicPinSide::Top => 90,
        SchematicPinSide::Bottom => 270,
    }
}

/// KiCad pin orientation in degrees.
pub fn pin_angle(side: SchematicPinSide) -> (angle: i32)
    ensures
        angle == spec_pin_angle(side),
{
    match side {
        SchematicPinSide::Left => 0,
        SchematicPinSide::Right => 180,
        SchematicPinSide::Top => 90,
        SchematicPinSide::Bottom => 270,
    }
}

/// KiCad electrical pin type keyword.
pub open spec fn spec_kicad_pin_kind(kind: PinElectricalKind) -> Seq<char> {
    match kind {
        PinElectricalKind::Input => "input"@,
        PinElectricalKind::Output => "output"@,
        PinElectricalKind::Bidirectional => "bidirectional"@,
        PinElectricalKind::Passive => "passive"@,
        PinElectricalKind::PowerInput => "power_in"@,
        PinElectricalKind::PowerOutput => "power_out"@,
        PinElectricalKind::OpenCollector => "open_collector"@,
        PinElectricalKind::OpenEmitter => "open_emitter"@,
        PinElectricalKind::NotConnected => "no_connect"@,
    }
}

/// KiCad electrical pin type keyword of a pin kind.
pub fn kicad_pin_kind(kind: PinElectricalKind) -> (keyword: &'static str)
    ensures
        keyword@ == spec_kicad_pin_kind(kind),
{
    match kind {
        PinElectricalKind::Input => "input",
        PinElectricalKind::Output => "output",
        PinElectricalKind::Bidirectional => "bidirectional",
        PinElectricalKind::Passive => "passive",
        PinElectricalKind::PowerInput => "power_in",
        PinElectricalKind::PowerOutput => "power_out",
        PinElectricalKind::OpenCollector => "open_collector",
        PinElectricalKind::OpenEmitter => "open_emitter",
        PinElectricalKind::NotConnected => "no_connect",
    }
}

/// KiCad label shape keyword of a port direction.
pub open spec fn spec_port_shape(direction: PortDirection) -> Seq<char> {
    match direction {
        PortDirection::Input | PortDirection::PowerInput | PortDirection::Ground => "input"@,
        PortDirection::Output | PortDirection::PowerOutput => "output"@,
        PortDirection::Bidirectional => "bidirectional"@,
        PortDirection::Passive => "passive"@,
    }
}

/// KiCad label shape keyword of a boundary port.
pub fn port_shape(direction: PortDirection) -> (shape: &'static str)
    ensures
        shape@ == spec_port_shape(direction),
{
    match direction {
        PortDirection::Input | PortDirection::PowerInput | PortDirection::Ground => "input",
        PortDirection::Output | PortDirection::PowerOutput => "output",
        PortDirection::Bidirectional => "bidirectional",
        PortDirection::Passive => "passive",
    }
}


/// Message for a length-prefixed field without its `:` separator.
pub const FIELD_WITHOUT_COLON: &'static str = "length-prefixed link field has no ':'";

/// Message for a length prefix that is not a decimal `usize`.
pub const FIELD_INVALID_LENGTH: &'static str = "length-prefixed link field has invalid length";

/// Message for a length that runs past the end or into a character.
pub const FIELD_TRUNCATED: &'static str = "length-prefixed link field is truncated";

/// Message for a field whose bytes are not UTF-8 text.
pub const FIELD_SPLITS_UTF8: &'static str = "length-prefixed link field splits UTF-8";

/// ASCII digit of a value below ten.
pub open spec fn digit_char(d: nat) -> char {
    ((d + 48) as u8) as char
}

/// Decimal spelling of `n`: ASCII digits, most significant first, without
/// leading zeros.
pub open spec fn decimal_digits(n: nat) -> Seq<char>
    decreases n,
{
    if n < 10 {
        seq![digit_char(n)]
    } else {
        decimal_digits(n / 10).push(digit_char(n % 10))
    }
}

/// Appends the decimal spelling of `n`.
pub fn push_decimal(text: &mut String, n: usize)
    ensures
        final(text)@ == old(text)@ + decimal_digits(n as nat),
    decreases n,
{
    if n >= 10 {
        push_decimal(text, n / 10);
    }
    let d: u8 = (n % 10) as u8;
    push_char(text, (d + 48) as char);
    proof {
        if n >= 10 {
            assert(text@ =~= old(text)@ + decimal_digits(n as nat));
        } else {
            assert(text@ =~= old(text)@ + decimal_digits(n as nat));
        }
    }
}

/// One field as `<UTF-8 byte length>:<text>`.
pub open spec fn encoded_field(field: Seq<char>) -> Seq<char> {
    decimal_digits(encode_utf8(field).len()) + seq![':'] + field
}

/// The concatenated length-prefixed spelling of `fields`.
pub open spec fn encoded_fields(fields: Seq<Seq<char>>) -> Seq<char>
    decreases fields.len(),
{
    if fields.len() == 0 {
        seq![]
    } else {
        encoded_field(fields[0]) + encoded_fields(fields.drop_first())
    }
}

proof fn lemma_encoded_fields_push(fields: Seq<Seq<char>>, field: Seq<char>)
    ensures
        encoded_fields(fields.push(field)) == encoded_fields(fields) + encoded_field(field),
    decreases fields.len(),
{
    if fields.len() == 0 {
        let single = fields.push(field);
        assert(single[0] == field);
        assert(single.drop_first() =~= Seq::<Seq<char>>::empty());
        assert(encoded_fields(single.drop_first()) =~= Seq::<char>::empty());
        assert(encoded_fields(single) =~= encoded_fields(fields) + encoded_field(field));
    } else {
        assert(fields.push(field).drop_first() =~= fields.drop_first().push(field));
        lemma_encoded_fields_push(fields.drop_first(), field);
        assert(encoded_fields(fields.push(field)) =~= encoded_fields(fields) + encoded_field(field));
    }
}

/// The views of a list of texts.
pub open spec fn text_views(texts: Seq<&str>) -> Seq<Seq<char>> {
    texts.map_values(|t: &str| t@)
}

/// Length-prefixed concatenation of `fields`: each field is written as its
/// UTF-8 byte length in decimal, a `:`, and the field itself.
pub fn encode_fields(fields: &[&str]) -> (encoded: String)
    ensures
        encoded@ == encoded_fields(text_views(fields@)),
{
    let mut encoded = String::new();
    let mut i: usize = 0;
    while i < fields.len()
        invariant
            i <= fields@.len(),
            encoded@ == encoded_fields(text_views(fields@).take(i as int)),
        decreases fields.len() - i,
    {
        let field: &str = fields[i];
        let length: usize = field.as_bytes_vec().len();
        push_decimal(&mut encoded, length);
        push_char(&mut encoded, ':');
        encoded.append(field);
        proof {
            let views = text_views(fields@);
            assert(views.take(i + 1) =~= views.take(i as int).push(views[i as int]));
            lemma_encoded_fields_push(views.take(i as int), views[i as int]);
            assert(encoded@ =~= encoded_fields(views.take(i as int)) + encoded_field(views[i as int]));
        }
        i = i + 1;
    }
    proof {
        assert(text_views(fields@).take(i as int) =~= text_views(fields@));
    }
    encoded
}

/// Rust's `str::is_char_boundary` over UTF-8 bytes.
pub open spec fn at_char_boundary(bytes: Seq<u8>, index: int) -> bool {
    index == 0 || index == bytes.len() || (0 <= index < bytes.len() && !is_continuation_byte(bytes[index]))
}

/// Byte offset of the first `:`.
pub open spec fn first_colon(bytes: Seq<u8>) -> Option<nat>
    decreases bytes.len(),
{
    if bytes.len() == 0 {
        None
    } else if bytes[0] == 58 {
        Some(0)
    } else {
        match first_colon(bytes.drop_first()) {
            Some(k) => Some(k + 1),
            None => None,
        }
    }
}

pub proof fn lemma_first_colon_bound(bytes: Seq<u8>)
    ensures
        first_colon(bytes) matches Some(c) ==> c < bytes.len() && bytes[c as int] == 58,
    decreases bytes.len(),
{
    if bytes.len() > 0 && bytes[0] != 58 {
        lemma_first_colon_bound(bytes.drop_first());
    }
}

proof fn lemma_first_colon(bytes: Seq<u8>, k: int)
    requires
        0 <= k <= bytes.len(),
        forall|j: int| 0 <= j < k ==> bytes[j] != 58,
    ensures
        k < bytes.len() && bytes[k] == 58 ==> first_colon(bytes) == Some(k as nat),
        k == bytes.len() ==> first_colon(bytes) is None,
    decreases k,
{
    if k > 0 {
        assert(bytes[0] != 58);
        assert forall|j: int| 0 <= j < k - 1 implies bytes.drop_first()[j] != 58 by {
            assert(bytes[j + 1] != 58);
        }
        lemma_first_colon(bytes.drop_first(), k - 1);
    }
}

/// Value of a string of ASCII digits.
pub open spec fn decimal_value(digits: Seq<u8>) -> nat
    decreases digits.len(),
{
    if digits.len() == 0 {
        0
    } else {
        decimal_value(digits.drop_last()) * 10 + (digits.last() - 48) as nat
    }
}

/// Every byte is an ASCII digit.
pub open spec fn ascii_digits(bytes: Seq<u8>) -> bool {
    forall|i: int| 0 <= i < bytes.len() ==> 48 <= #[trigger] bytes[i] <= 57
}

/// The value of one or more ASCII digits, when it fits in `usize`.
pub open spec fn decimal_usize(digits: Seq<u8>) -> Option<nat> {
    if digits.len() > 0 && ascii_digits(digits) && decimal_value(digits) <= usize::MAX {
        Some(decimal_value(digits))
    } else {
        None
    }
}

/// `usize::from_str`: an optional `+`, then at least one ASCII digit, whose
/// value fits in `usize`.
pub open spec fn parsed_length(text: Seq<u8>) -> Option<nat> {
    decimal_usize(
        if text.len() > 0 && text[0] == 43 {
            text.drop_first()
        } else {
            text
        },
    )
}

/// What remains to be decoded after `done` fields were read.
pub open spec fn after_fields(
    done: Seq<Seq<char>>,
    rest: Result<Seq<Seq<char>>, Seq<char>>,
) -> Result<Seq<Seq<char>>, Seq<char>> {
    match rest {
        Ok(tail) => Ok(done + tail),
        Err(message) => Err(message),
    }
}

/// Decoding of length-prefixed fields from UTF-8 bytes, or the message of
/// the first malformed field.
pub open spec fn decoded_fields(bytes: Seq<u8>) -> Result<Seq<Seq<char>>, Seq<char>>
    decreases bytes.len(),
{
    if bytes.len() == 0 {
        Ok(seq![])
    } else {
        match first_colon(bytes) {
            None => Err(FIELD_WITHOUT_COLON@),
            Some(colon) => match parsed_length(bytes.take(colon as int)) {
                None => Err(FIELD_INVALID_LENGTH@),
                Some(length) => {
                    let rest = bytes.skip(colon + 1int);
                    if length > rest.len() || !at_char_boundary(rest, length as int) {
                        Err(FIELD_TRUNCATED@)
                    } else if !valid_utf8(rest.take(length as int)) {
                        Err(FIELD_SPLITS_UTF8@)
                    } else {
                        proof {
                            lemma_first_colon_bound(bytes);
                        }
                        after_fields(
                            seq![decode_utf8(rest.take(length as int))],
                            decoded_fields(rest.skip(length as int)),
                        )
                    }
                },
            },
        }
    }
}

proof fn lemma_decimal_value_grows(digits: Seq<u8>, k: int)
    requires
        0 <= k <= digits.len(),
        ascii_digits(digits),
    ensures
        decimal_value(digits.take(k)) <= decimal_value(digits),
    decreases digits.len(),
{
    if k < digits.len() {
        assert(digits.drop_last().take(k) =~= digits.take(k));
        lemma_decimal_value_grows(digits.drop_last(), k);
    } else {
        assert(digits.take(k) =~= digits);
    }
}

/// The `usize` spelled by `bytes[start..end]` (see [`parsed_length`]).
fn parse_length(bytes: &Vec<u8>, start: usize, end: usize) -> (length: Option<usize>)
    requires
        start <= end <= bytes@.len(),
    ensures
        match length {
            Some(v) => parsed_length(bytes@.subrange(start as int, end as int)) == Some(v as nat),
            None => parsed_length(bytes@.subrange(start as int, end as int)) is None,
        },
{
    let ghost text = bytes@.subrange(start as int, end as int);
    let mut first: usize = start;
    if first < end && bytes[first] == 43u8 {
        first = first + 1;
        proof {
            assert(text.drop_first() =~= bytes@.subrange(first as int, end as int));
        }
    } else {
        proof {
            assert(text =~= bytes@.subrange(first as int, end as int));
        }
    }
    let ghost digits = bytes@.subrange(first as int, end as int);
    assert(parsed_length(text) == decimal_usize(digits));
    if first == end {
        return None;
    }
    let mut value: usize = 0;
    let mut i: usize = first;
    while i < end
        invariant
            first <= i <= end <= bytes@.len(),
            digits == bytes@.subrange(first as int, end as int),
            parsed_length(bytes@.subrange(start as int, end as int)) == decimal_usize(digits),
            digits.take(i - first) == bytes@.subrange(first as int, i as int),
            ascii_digits(bytes@.subrange(first as int, i as int)),
            value == decimal_value(bytes@.subrange(first as int, i as int)),
        decreases end - i,
    {
        let b: u8 = bytes[i];
        if b < 48u8 || b > 57u8 {
            proof {
                assert(digits[i - first] == b);
            }
            return None;
        }
        let ghost next = bytes@.subrange(first as int, i + 1);
        proof {
            assert(next.drop_last() =~= bytes@.subrange(first as int, i as int));
            assert(digits.take(i + 1 - first) =~= next);
        }
        let d: usize = (b - 48u8) as usize;
        match value.checked_mul(10) {
            None => {
                proof {
                    if ascii_digits(digits) {
                        lemma_decimal_value_grows(digits, i + 1 - first);
                    }
                }
                return None;
            },
            Some(tens) => match tens.checked_add(d) {
                None => {
                    proof {
                        if ascii_digits(digits) {
                            lemma_decimal_value_grows(digits, i + 1 - first);
                        }
                    }
                    return None;
                },
                Some(v) => {
                    value = v;
                },
            },
        }
        i = i + 1;
        proof {
            assert(digits.take(i - first) == bytes@.subrange(first as int, i as int));
        }
    }
    proof {
        assert(digits.take(i - first) =~= digits);
    }
    Some(value)
}

/// Splits a length-prefixed concatenation back into its fields.
pub fn decode_fields(encoded: &str) -> (result: Result<Vec<String>, KiCadSchematicImportError>)
    ensures
        match decoded_fields(encode_utf8(encoded@)) {
            Ok(fields) => result matches Ok(v) && v@.map_values(|s: String| s@) == fields,
            Err(message) => result matches Err(KiCadSchematicImportError::InvalidBookMetadata(m))
                && m@ == message,
        },
{
    let bytes: Vec<u8> = encoded.as_bytes_vec();
    let n: usize = bytes.len();
    let mut fields: Vec<String> = Vec::new();
    let mut pos: usize = 0;
    proof {
        assert(bytes@.skip(0) =~= bytes@);
        assert(fields@.map_values(|s: String| s@) + Seq::<Seq<char>>::empty() =~= fields@.map_values(|s: String| s@));
    }
    while pos < n
        invariant
            pos <= n == bytes@.len(),
            bytes@ == encode_utf8(encoded@),
            decoded_fields(bytes@) == after_fields(
                fields@.map_values(|s: String| s@),
                decoded_fields(bytes@.skip(pos as int)),
            ),
        decreases n - pos,
    {
        let ghost rem = bytes@.skip(pos as int);
        let ghost done = fields@.map_values(|s: String| s@);
        let mut colon: usize = pos;
        while colon < n && bytes[colon] != 58u8
            invariant
                pos <= colon <= n == bytes@.len(),
                forall|j: int| pos <= j < colon ==> bytes@[j] != 58,
            decreases n - colon,
        {
            colon = colon + 1;
        }
        proof {
            assert forall|j: int| 0 <= j < colon - pos implies rem[j] != 58 by {
                assert(rem[j] == bytes@[pos + j]);
            }
            lemma_first_colon(rem, colon - pos);
        }
        if colon == n {
            return Err(KiCadSchematicImportError::InvalidBookMetadata(String::from_str(FIELD_WITHOUT_COLON)));
        }
        proof {
            assert(rem.take(colon - pos) =~= bytes@.subrange(pos as int, colon as int));
        }
        let length: usize = match parse_length(&bytes, pos, colon) {
            None => {
                return Err(KiCadSchematicImportError::InvalidBookMetadata(String::from_str(FIELD_INVALID_LENGTH)));
            },
            Some(v) => v,
        };
        let start: usize = colon + 1;
        let ghost rest = rem.skip(colon - pos + 1);
        proof {
            assert(rest =~= bytes@.skip(start as int));
        }
        let fits = length <= n - start;
        if !fits {
            return Err(KiCadSchematicImportError::InvalidBookMetadata(String::from_str(FIELD_TRUNCATED)));
        }
        let boundary = length == 0 || length == n - start || bytes[start + length] < 0x80u8
            || bytes[start + length] >= 0xc0u8;
        proof {
            if length != 0 && length != n - start {
                assert(rest[length as int] == bytes@[start + length]);
            }
        }
        if !boundary {
            return Err(KiCadSchematicImportError::InvalidBookMetadata(String::from_str(FIELD_TRUNCATED)));
        }
        let piece = copy_range(bytes.as_slice(), start, start + length);
        proof {
            assert(piece@ =~= rest.take(length as int));
            assert(rest.skip(length as int) =~= bytes@.skip(start + length));
        }
        match utf8_text(piece.as_slice()) {
            None => {
                return Err(KiCadSchematicImportError::InvalidBookMetadata(String::from_str(FIELD_SPLITS_UTF8)));
            },
            Some(text) => {
                proof {
                    vstd::utf8::encode_utf8_decode_utf8(text@);
                }
                fields.push(String::from_str(text));
            },
        }
        pos = start + length;
        proof {
            let tail = decoded_fields(bytes@.skip(pos as int));
            assert(fields@.map_values(|s: String| s@) =~= done.push(decode_utf8(piece@)));
            match tail {
                Ok(t) => {
                    assert(done + (seq![decode_utf8(piece@)] + t) =~= done.push(decode_utf8(piece@)) + t);
                },
                Err(m) => {},
            }
        }
    }
    proof {
        assert(bytes@.skip(pos as int) =~= Seq::<u8>::empty());
        assert(fields@.map_values(|s: String| s@) + Seq::<Seq<char>>::empty() =~= fields@.map_values(|s: String| s@));
    }
    Ok(fields)
}


proof fn lemma_encode_utf8_concat(a: Seq<char>, b: Seq<char>)
    ensures
        encode_utf8(a + b) == encode_utf8(a) + encode_utf8(b),
    decreases a.len(),
{
    if a.len() == 0 {
        assert(a + b =~= b);
        assert(encode_utf8(a) =~= Seq::<u8>::empty());
        assert(encode_utf8(a) + encode_utf8(b) =~= encode_utf8(b));
    } else {
        assert((a + b)[0] == a[0]);
        assert((a + b).drop_first() =~= a.drop_first() + b);
        lemma_encode_utf8_concat(a.drop_first(), b);
        assert(encode_utf8(a + b) =~= encode_utf8(a) + encode_utf8(b));
    }
}

proof fn lemma_encode_ascii(c: char)
    requires
        (c as u32) < 128,
    ensures
        encode_utf8(seq![c]) == seq![(c as u32) as u8],
{
    let v = c as u32;
    assert((v & 0x7F) == v) by (bit_vector)
        requires
            v < 128,
    ;
    assert(seq![c][0] == c);
    assert(seq![c].drop_first() =~= Seq::<char>::empty());
    assert(encode_utf8(Seq::<char>::empty()) =~= Seq::<u8>::empty());
    assert(encode_utf8(seq![c]) =~= seq![(c as u32) as u8]);
}

proof fn lemma_decimal_bytes(n: nat)
    ensures
        encode_utf8(decimal_digits(n)).len() >= 1,
        ascii_digits(encode_utf8(decimal_digits(n))),
        decimal_value(encode_utf8(decimal_digits(n))) == n,
    decreases n,
{
    let r: nat = n % 10;
    let c = digit_char(r);
    assert((c as u32) == r + 48);
    lemma_encode_ascii(c);
    if n < 10 {
        let d = encode_utf8(decimal_digits(n));
        assert(d =~= seq![(r + 48) as u8]);
        assert(d.drop_last() =~= Seq::<u8>::empty());
        assert(decimal_value(Seq::<u8>::empty()) == 0);
        assert(d.last() == r + 48);
        assert(r == n);
        assert(decimal_value(d) == decimal_value(d.drop_last()) * 10 + (d.last() - 48) as nat);
    } else {
        lemma_decimal_bytes(n / 10);
        let prev = decimal_digits(n / 10);
        assert(prev.push(c) =~= prev + seq![c]);
        lemma_encode_utf8_concat(prev, seq![c]);
        let d = encode_utf8(decimal_digits(n));
        let dp = encode_utf8(prev);
        assert(d =~= dp.push((r + 48) as u8));
        assert(d.drop_last() =~= dp);
        assert(d.last() == r + 48);
        assert(decimal_value(d) == decimal_value(dp) * 10 + r);
        assert((n / 10) * 10 + n % 10 == n) by (nonlinear_arith);
    }
}

proof fn lemma_encoded_fields_start(fields: Seq<Seq<char>>)
    requires
        encode_utf8(encoded_fields(fields)).len() > 0,
    ensures
        48 <= encode_utf8(encoded_fields(fields))[0] <= 57,
{
    if fields.len() == 0 {
        assert(encode_utf8(Seq::<char>::empty()) =~= Seq::<u8>::empty());
    } else {
        let f = fields[0];
        let digits = decimal_digits(encode_utf8(f).len());
        lemma_decimal_bytes(encode_utf8(f).len());
        let others = seq![':'] + f + encoded_fields(fields.drop_first());
        assert(encoded_fields(fields) =~= digits + others);
        lemma_encode_utf8_concat(digits, others);
        assert(encode_utf8(encoded_fields(fields))[0] == encode_utf8(digits)[0]);
    }
}

/// Decoding the length-prefixed concatenation of fields gives back exactly
/// those fields, whatever characters they hold (`:` and digits included).
pub proof fn decode_fields_inverts_encode_fields(fields: Seq<Seq<char>>)
    requires
        forall|i: int| 0 <= i < fields.len() ==> encode_utf8(#[trigger] fields[i]).len() <= usize::MAX,
    ensures
        decoded_fields(encode_utf8(encoded_fields(fields))) == Ok::<Seq<Seq<char>>, Seq<char>>(fields),
    decreases fields.len(),
{
    if fields.len() == 0 {
        assert(encode_utf8(Seq::<char>::empty()) =~= Seq::<u8>::empty());
        assert(fields =~= Seq::<Seq<char>>::empty());
    } else {
        let f = fields[0];
        let rest = fields.drop_first();
        assert forall|i: int| 0 <= i < rest.len() implies encode_utf8(#[trigger] rest[i]).len() <= usize::MAX by {
            assert(rest[i] == fields[i + 1]);
        }
        decode_fields_inverts_encode_fields(rest);
        let len = encode_utf8(f).len();
        assert(len <= usize::MAX) by {
            assert(fields[0] == f);
        }
        let digits = decimal_digits(len);
        let dbytes = encode_utf8(digits);
        let fbytes = encode_utf8(f);
        let tail = encode_utf8(encoded_fields(rest));
        lemma_decimal_bytes(len);
        lemma_encode_ascii(':');
        lemma_encode_utf8_concat(digits, seq![':']);
        lemma_encode_utf8_concat(digits + seq![':'], f);
        lemma_encode_utf8_concat(encoded_field(f), encoded_fields(rest));
        let bytes = encode_utf8(encoded_fields(fields));
        assert(bytes =~= dbytes + seq![58u8] + fbytes + tail);
        let c = dbytes.len();
        assert forall|j: int| 0 <= j < c implies bytes[j] != 58 by {
            assert(bytes[j] == dbytes[j]);
        }
        assert(bytes[c as int] == 58);
        lemma_first_colon(bytes, c as int);
        assert(bytes.take(c as int) =~= dbytes);
        assert(dbytes[0] != 43);
        assert(parsed_length(dbytes) == Some(len));
        let after = bytes.skip(c + 1int);
        assert(after =~= fbytes + tail);
        if tail.len() > 0 {
            lemma_encoded_fields_start(rest);
            assert(after[len as int] == tail[0]);
        }
        assert(at_char_boundary(after, len as int));
        assert(after.take(len as int) =~= fbytes);
        vstd::utf8::encode_utf8_valid_utf8(f);
        vstd::utf8::encode_utf8_decode_utf8(f);
        assert(after.skip(len as int) =~= tail);
        assert(seq![f] + rest =~= fields);
    }
}


/// First FNV basis of a KiCad UUID.
pub const KICAD_UUID_BASIS_A: u64 = 0xcbf29ce484222325;

/// Second FNV basis of a KiCad UUID.
pub const KICAD_UUID_BASIS_B: u64 = 0x84222325cbf29ce4;

/// Byte `k` of `value` in big-endian order.
pub open spec fn be_byte(value: u64, k: int) -> u8 {
    (value >> ((56 - 8 * k) as u64)) as u8
}

/// The sixteen UUID bytes: both fingerprints big-endian, stamped with
/// version 5 (byte 6) and the RFC 4122 variant (byte 8).
pub open spec fn uuid_bytes(first: u64, second: u64) -> Seq<u8> {
    Seq::new(
        16,
        |k: int|
            {
                let raw = if k < 8 {
                    be_byte(first, k)
                } else {
                    be_byte(second, k - 8)
                };
                if k == 6 {
                    (raw & 0x0fu8) | 0x50u8
                } else if k == 8 {
                    (raw & 0x3fu8) | 0x80u8
                } else {
                    raw
                }
            },
    )
}

/// The first `count` bytes in lowercase hexadecimal, with a dash before
/// bytes 4, 6, 8 and 10.
pub open spec fn dashed_hex(bytes: Seq<u8>, count: nat) -> Seq<char>
    decreases count,
{
    if count == 0 {
        seq![]
    } else {
        let k = count - 1;
        let dash: Seq<char> = if k == 4 || k == 6 || k == 8 || k == 10 {
            seq!['-']
        } else {
            seq![]
        };
        dashed_hex(bytes, k as nat) + dash + hex_byte(bytes[k])
    }
}

/// The deterministic KiCad UUID of a text: two FNV-1a fingerprints of its
/// UTF-8 bytes in the 8-4-4-4-12 layout.
pub open spec fn kicad_uuid(value: Seq<char>) -> Seq<char> {
    let bytes = encode_utf8(value);
    dashed_hex(
        uuid_bytes(spec_fnv64(bytes, KICAD_UUID_BASIS_A), spec_fnv64(bytes, KICAD_UUID_BASIS_B)),
        16,
    )
}

/// Deterministic native UUID of a text (see [`kicad_uuid`]).
pub fn stable_uuid(value: &str) -> (uuid: String)
    ensures
        uuid@ == kicad_uuid(value@),
{
    let bytes = value.as_bytes_vec();
    let first = fnv64(bytes.as_slice(), KICAD_UUID_BASIS_A);
    let second = fnv64(bytes.as_slice(), KICAD_UUID_BASIS_B);
    let ghost all = uuid_bytes(first, second);
    let mut uuid = String::new();
    let mut k: usize = 0;
    while k < 16
        invariant
            k <= 16,
            all == uuid_bytes(first, second),
            uuid@ == dashed_hex(all, k as nat),
        decreases 16 - k,
    {
        let raw: u8 = if k < 8 {
            (first >> ((56 - 8 * k) as u64)) as u8
        } else {
            (second >> ((56 - 8 * (k - 8)) as u64)) as u8
        };
        let byte: u8 = if k == 6 {
            (raw & 0x0fu8) | 0x50u8
        } else if k == 8 {
            (raw & 0x3fu8) | 0x80u8
        } else {
            raw
        };
        assert(byte == all[k as int]);
        let ghost before = uuid@;
        if k == 4 || k == 6 || k == 8 || k == 10 {
            push_char(&mut uuid, '-');
        }
        push_hex_byte(&mut uuid, byte);
        proof {
            assert(uuid@ =~= dashed_hex(all, (k + 1) as nat));
        }
        k = k + 1;
    }
    uuid
}

/// ASCII letters become lowercase; every other character is unchanged.
pub open spec fn ascii_lower(c: char) -> char {
    if 'A' <= c && c <= 'Z' {
        (((c as u32) + 32) as u8) as char
    } else {
        c
    }
}

/// Characters kept by a slug: ASCII letters, digits, `-` and `_`.
pub open spec fn slug_keeps(c: char) -> bool {
    is_ascii_alphanumeric(c) || c == '-' || c == '_'
}

/// Kept characters in lowercase; each other character becomes a `-`, unless
/// the slug so far already ends with one.
pub open spec fn slug_draft(s: Seq<char>) -> Seq<char>
    decreases s.len(),
{
    if s.len() == 0 {
        seq![]
    } else {
        let prev = slug_draft(s.drop_last());
        let c = s.last();
        if slug_keeps(c) {
            prev.push(ascii_lower(c))
        } else if prev.len() > 0 && prev.last() == '-' {
            prev
        } else {
            prev.push('-')
        }
    }
}

/// Number of leading `-` characters.
pub open spec fn leading_dashes(s: Seq<char>) -> nat
    decreases s.len(),
{
    if s.len() > 0 && s[0] == '-' {
        1 + leading_dashes(s.drop_first())
    } else {
        0
    }
}

/// Number of trailing `-` characters.
pub open spec fn trailing_dashes(s: Seq<char>) -> nat
    decreases s.len(),
{
    if s.len() > 0 && s.last() == '-' {
        1 + trailing_dashes(s.drop_last())
    } else {
        0
    }
}

/// `s` without its leading and trailing `-` characters.
pub open spec fn trim_dashes(s: Seq<char>) -> Seq<char> {
    if leading_dashes(s) >= s.len() {
        seq![]
    } else {
        s.subrange(leading_dashes(s) as int, s.len() - trailing_dashes(s))
    }
}

/// The file-name slug of a sheet name, or `sheet` when nothing remains.
pub open spec fn sheet_slug(s: Seq<char>) -> Seq<char> {
    if trim_dashes(slug_draft(s)).len() == 0 {
        "sheet"@
    } else {
        trim_dashes(slug_draft(s))
    }
}

proof fn lemma_leading_dashes(s: Seq<char>, k: int)
    requires
        0 <= k <= s.len(),
        forall|j: int| 0 <= j < k ==> s[j] == '-',
        k == s.len() || s[k] != '-',
    ensures
        leading_dashes(s) == k,
    decreases k,
{
    if k > 0 {
        assert forall|j: int| 0 <= j < k - 1 implies s.drop_first()[j] == '-' by {
            assert(s[j + 1] == '-');
        }
        lemma_leading_dashes(s.drop_first(), k - 1);
    } else if s.len() > 0 {
        assert(s[0] != '-');
    }
}

proof fn lemma_trailing_dashes(s: Seq<char>, k: int)
    requires
        0 <= k <= s.len(),
        forall|j: int| s.len() - k <= j < s.len() ==> s[j] == '-',
        k == s.len() || s[s.len() - 1 - k] != '-',
    ensures
        trailing_dashes(s) == k,
    decreases k,
{
    if k > 0 {
        assert forall|j: int| s.drop_last().len() - (k - 1) <= j < s.drop_last().len() implies s.drop_last()[j] == '-' by {
            assert(s[j] == '-');
        }
        lemma_trailing_dashes(s.drop_last(), k - 1);
    }
}

/// Lowercase, dash-separated, ASCII-only file-name slug of a sheet name.
pub fn filename_slug(value: &str) -> (slug: String)
    ensures
        slug@ == sheet_slug(value@),
{
    let chars = chars_of(value);
    let mut draft: Vec<char> = Vec::new();
    let mut i: usize = 0;
    while i < chars.len()
        invariant
            i <= chars@.len(),
            chars@ == value@,
            draft@ == slug_draft(value@.take(i as int)),
        decreases chars.len() - i,
    {
        let c = chars[i];
        proof {
            assert(value@.take(i + 1).drop_last() =~= value@.take(i as int));
            assert(value@.take(i + 1).last() == c);
        }
        if ascii_alphanumeric(c) || c == '-' || c == '_' {
            let lower = if 'A' <= c && c <= 'Z' {
                (((c as u32) + 32) as u8) as char
            } else {
                c
            };
            draft.push(lower);
        } else if draft.len() > 0 && draft[draft.len() - 1] == '-' {
        } else {
            draft.push('-');
        }
        i = i + 1;
    }
    proof {
        assert(value@.take(i as int) =~= value@);
    }
    let n: usize = draft.len();
    let mut lead: usize = 0;
    while lead < n && draft[lead] == '-'
        invariant
            lead <= n == draft@.len(),
            forall|j: int| 0 <= j < lead ==> draft@[j] == '-',
        decreases n - lead,
    {
        lead = lead + 1;
    }
    proof {
        lemma_leading_dashes(draft@, lead as int);
    }
    if lead == n {
        return String::from_str("sheet");
    }
    let mut end: usize = n;
    while end > lead && draft[end - 1] == '-'
        invariant
            lead < n == draft@.len(),
            lead <= end <= n,
            forall|j: int| end <= j < n ==> draft@[j] == '-',
        decreases end,
    {
        end = end - 1;
    }
    proof {
        assert(end > lead) by {
            if end == lead {
                assert(draft@[lead as int] != '-');
            }
        }
        lemma_trailing_dashes(draft@, (n - end) as int);
    }
    text_from_range(&draft, lead, end)
}

/// KiCad string-literal escape of one character.
pub open spec fn escaped_char(c: char) -> Seq<char> {
    if c == '\\' {
        seq!['\\', '\\']
    } else if c == '"' {
        seq!['\\', '"']
    } else if c == '\n' {
        seq!['\\', 'n']
    } else if c == '\r' {
        seq!['\\', 'r']
    } else if c == '\t' {
        seq!['\\', 't']
    } else {
        seq![c]
    }
}

/// Every character escaped, in order.
pub open spec fn escaped(s: Seq<char>) -> Seq<char>
    decreases s.len(),
{
    if s.len() == 0 {
        seq![]
    } else {
        escaped(s.drop_last()) + escaped_char(s.last())
    }
}

/// A KiCad string literal: the escaped text between double quotes.
pub open spec fn spec_quoted(s: Seq<char>) -> Seq<char> {
    seq!['"'] + escaped(s) + seq!['"']
}

/// Quotes a text as a KiCad string literal (see [`spec_quoted`]).
pub fn quoted(value: &str) -> (literal: String)
    ensures
        literal@ == spec_quoted(value@),
{
    let chars = chars_of(value);
    let mut literal = String::new();
    push_char(&mut literal, '"');
    let mut i: usize = 0;
    while i < chars.len()
        invariant
            i <= chars@.len(),
            chars@ == value@,
            literal@ == seq!['"'] + escaped(value@.take(i as int)),
        decreases chars.len() - i,
    {
        let c = chars[i];
        let ghost before = literal@;
        if c == '\\' {
            push_char(&mut literal, '\\');
            push_char(&mut literal, '\\');
        } else if c == '"' {
            push_char(&mut literal, '\\');
            push_char(&mut literal, '"');
        } else if c == '\n' {
            push_char(&mut literal, '\\');
            push_char(&mut literal, 'n');
        } else if c == '\r' {
            push_char(&mut literal, '\\');
            push_char(&mut literal, 'r');
        } else if c == '\t' {
            push_char(&mut literal, '\\');
            push_char(&mut literal, 't');
        } else {
            push_char(&mut literal, c);
        }
        proof {
            assert(value@.take(i + 1).drop_last() =~= value@.take(i as int));
            assert(value@.take(i + 1).last() == c);
            assert(literal@ =~= before + escaped_char(c));
            assert(literal@ =~= seq!['"'] + escaped(value@.take(i + 1)));
        }
        i = i + 1;
    }
    push_char(&mut literal, '"');
    proof {
        assert(value@.take(i as int) =~= value@);
        assert(literal@ =~= spec_quoted(value@));
    }
    literal
}

/// A safe native file basename: it ends with `.kicad_sch`, is more than the
/// extension, and holds no path separator.
pub open spec fn spec_valid_kicad_filename(s: Seq<char>) -> bool {
    &&& s.len() > 0
    &&& s.len() >= 10 && s.subrange(s.len() - 10, s.len() as int) == ".kicad_sch"@
    &&& !s.contains('/')
    &&& !s.contains('\\')
    &&& s != ".kicad_sch"@
}

/// True for a safe native schematic file basename.
pub fn valid_kicad_filename(filename: &str) -> (valid: bool)
    ensures
        valid == spec_valid_kicad_filename(filename@),
{
    let chars = chars_of(filename);
    let extension = chars_of(".kicad_sch");
    proof {
        reveal_strlit(".kicad_sch");
    }
    assert(extension@.len() == 10);
    let ends = ends_with_chars(&chars, &extension);
    let slash = contains_char(&chars, '/');
    let backslash = contains_char(&chars, '\\');
    let only_extension = ends && chars.len() == 10;
    proof {
        if only_extension {
            assert(chars@.subrange(0, 10) =~= chars@);
        }
        if chars@ == ".kicad_sch"@ {
            assert(chars@.subrange(0, 10) =~= chars@);
        }
    }
    chars.len() > 0 && ends && !slash && !backslash && !only_extension
}

/// `HyperCircuit Unit <unit> Body <dimension>`.
pub open spec fn spec_unit_body_property(unit: u16, dimension: Seq<char>) -> Seq<char> {
    "HyperCircuit Unit "@ + decimal_digits(unit as nat) + " Body "@ + dimension
}

/// Hidden library property carrying one exact unit body dimension.
pub fn unit_body_property(unit: u16, dimension: &str) -> (name: String)
    ensures
        name@ == spec_unit_body_property(unit, dimension@),
{
    let mut name = String::from_str("HyperCircuit Unit ");
    push_decimal(&mut name, unit as usize);
    name.append(" Body ");
    name.append(dimension);
    name
}

/// Every `-` replaced by `_`.
pub open spec fn dashes_to_underscores(s: Seq<char>) -> Seq<char> {
    Seq::new(s.len(), |i: int| if s[i] == '-' { '_' } else { s[i] })
}

/// `hc_` and the definition's UUID with underscores for dashes.
pub open spec fn spec_kicad_symbol_name(id: Seq<char>) -> Seq<char> {
    "hc_"@ + dashes_to_underscores(kicad_uuid(id))
}

/// Native symbol name of a reusable symbol definition.
pub fn kicad_symbol_name(id: &SchematicSymbolDefinitionId) -> (name: String)
    ensures
        name@ == spec_kicad_symbol_name(id@),
{
    let uuid = stable_uuid(id.as_str());
    let chars = chars_of(uuid.as_str());
    let mut name = String::from_str("hc_");
    let ghost prefix = name@;
    let mut i: usize = 0;
    while i < chars.len()
        invariant
            i <= chars@.len(),
            chars@ == uuid@,
            name@ == prefix + dashes_to_underscores(uuid@).take(i as int),
        decreases chars.len() - i,
    {
        if chars[i] == '-' {
            push_char(&mut name, '_');
        } else {
            push_char(&mut name, chars[i]);
        }
        proof {
            assert(dashes_to_underscores(uuid@).take(i + 1) =~= dashes_to_underscores(uuid@).take(
                i as int,
            ).push(dashes_to_underscores(uuid@)[i as int]));
        }
        i = i + 1;
    }
    proof {
        assert(dashes_to_underscores(uuid@).take(i as int) =~= dashes_to_underscores(uuid@));
    }
    name
}

/// `hypercircuit:` and the native symbol name.
pub open spec fn spec_library_id(id: Seq<char>) -> Seq<char> {
    "hypercircuit:"@ + spec_kicad_symbol_name(id)
}

/// Embedded library identifier of a reusable symbol definition.
pub fn library_id(id: &SchematicSymbolDefinitionId) -> (library: String)
    ensures
        library@ == spec_library_id(id@),
{
    let name = kicad_symbol_name(id);
    let library = String::from_str("hypercircuit:");
    library.concat(name.as_str())
}

} // verus!
