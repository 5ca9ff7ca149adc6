//! Versioned reader for retired csgrs electronics-migration handoffs.
//!
//! Live electronics markers have been removed from csgrs. This module retains
//! the persisted schema so previously captured claims remain readable without
//! reintroducing electrical meaning into geometry metadata. The JSON text
//! itself is read and written by the application; the library decides which
//! parsed documents are accepted.

use vstd::prelude::*;

use vstd::string::StringExecFns;

use crate::identity::same_text;

verus! {

/// Schema family for captured csgrs compatibility metadata.
pub const LEGACY_CSGRS_ELECTRONICS_SCHEMA: &'static str = "hypercircuit.legacy-csgrs-electronics";

/// Current schema version for captured csgrs compatibility metadata.
pub const LEGACY_CSGRS_ELECTRONICS_VERSION: u32 = 1;

/// Release that removes this migration-only reader.
///
/// Callers must replace every reported omission with explicit authoring and
/// persist the ordinary semantic document before this release.
pub const LEGACY_CSGRS_ELECTRONICS_REMOVAL_VERSION: &'static str = "0.4.0";

/// A free-form terminal claim copied from legacy geometry metadata.
///
/// The role is retained verbatim. In particular, `pin` and `pad` do not
/// become a device pin or a land-pattern pad without explicit caller
/// authoring.
#[derive(Clone, Debug, PartialEq, Eq)]
pub struct LegacyCsgrsTerminalClaim {
    /// Stable geometry-side terminal handle.
    pub handle: String,
    /// Human-readable legacy terminal name.
    pub name: String,
    /// Uninterpreted legacy role text.
    pub role: String,
}

/// Semantic information that cannot safely be recovered from csgrs metadata.
#[derive(Clone, Debug, PartialEq, Eq)]
pub enum LegacyCsgrsElectronicsOmission {
    /// A package marker does not describe pad geometry or a pin-to-pad map.
    LandPatternRequiresAuthoring { aspect: String },
    /// An electrical marker does not describe a typed device interface.
    DeviceModelRequiresAuthoring { aspect: String },
    /// A free-form terminal role cannot establish electrical identity.
    TerminalRequiresExplicitMapping { terminal: String, role: String },
}

/// Versioned, loss-audited capture of retired csgrs electronics metadata.
///
/// This is deliberately a persisted import report rather than an inferred
/// circuit object. Every missing semantic fact stays visible.
#[derive(Clone, Debug, PartialEq, Eq)]
pub struct LegacyCsgrsElectronicsImport {
    /// Schema family.
    pub schema: String,
    /// Schema revision.
    pub version: u32,
    /// Geometry metadata handle.
    pub source_handle: String,
    /// Original part family.
    pub family_id: String,
    /// Original part variant.
    pub variant_id: String,
    /// Handles of deprecated package aspects.
    pub package_aspects: Vec<String>,
    /// Handles of deprecated electrical aspects.
    pub electrical_aspects: Vec<String>,
    /// Verbatim compatibility terminal claims.
    pub terminal_claims: Vec<LegacyCsgrsTerminalClaim>,
    /// Facts requiring explicit circuit/PCB authoring.
    pub omissions: Vec<LegacyCsgrsElectronicsOmission>,
}

/// Invalid persisted legacy-metadata handoff.
#[derive(Clone, Debug, PartialEq, Eq)]
pub enum LegacyCsgrsElectronicsImportError {
    /// The document is not the legacy-csgrs schema.
    Schema(String),
    /// The document uses a newer or otherwise unsupported revision.
    Version(u32),
    /// The JSON document is malformed or structurally invalid.
    Json(String),
}

impl LegacyCsgrsElectronicsImport {
    /// Whether some captured compatibility claim still awaits explicit
    /// authoring: version 1 never infers those replacements, so review is
    /// owed exactly while an omission remains.
    pub fn requires_review(&self) -> (review: bool)
        ensures
            review == (self.omissions@.len() > 0),
    {
        !self.omissions.is_empty()
    }

    /// Accepts a parsed handoff only in the supported schema family and at
    /// the exact supported revision; the schema is checked first.
    pub fn check_revision(self) -> (checked: Result<Self, LegacyCsgrsElectronicsImportError>)
        ensures
            self.schema@ != LEGACY_CSGRS_ELECTRONICS_SCHEMA@ ==> (checked matches Err(
                LegacyCsgrsElectronicsImportError::Schema(s),
            ) && s@ == self.schema@),
            self.schema@ == LEGACY_CSGRS_ELECTRONICS_SCHEMA@ && self.version
                != LEGACY_CSGRS_ELECTRONICS_VERSION ==> checked == Err::<Self, LegacyCsgrsElectronicsImportError>(
                LegacyCsgrsElectronicsImportError::Version(self.version),
            ),
            self.schema@ == LEGACY_CSGRS_ELECTRONICS_SCHEMA@ && self.version
                == LEGACY_CSGRS_ELECTRONICS_VERSION ==> checked == Ok::<Self, LegacyCsgrsElectronicsImportError>(self),
    {
        let expected = String::from_str(LEGACY_CSGRS_ELECTRONICS_SCHEMA);
        if !same_text(&self.schema, &expected) {
            return Err(LegacyCsgrsElectronicsImportError::Schema(self.schema));
        }
        if self.version != LEGACY_CSGRS_ELECTRONICS_VERSION {
            return Err(LegacyCsgrsElectronicsImportError::Version(self.version));
        }
        Ok(self)
    }
}

} // verus!
