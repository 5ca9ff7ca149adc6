//! Exact-aware circuit carriers, MNA assembly and residual replay, the
//! declarative layout and materialization vocabulary, and deterministic text,
//! identifier and stored-archive helpers for KiCad and LCEDA interchange
//! (field encoding, stable UUIDs, file names, archive members).

pub mod archive;
pub mod error;
pub mod exact;
pub mod fingerprint;
pub mod identity;
pub mod kicad_schematic;
pub mod layout;
pub mod layout_module;
pub mod layout_validation;
pub mod lceda;
pub mod legacy_csgrs;
pub mod materialize;
pub mod mna;
pub mod net_class;
pub mod placement_resolution;
pub mod routing_aliases;
pub mod model;
pub mod text;
pub mod validation;

pub use error::{CircuitError, CircuitResult};
pub use exact::{CmpOutcome, SignFact, ZeroFact};
pub use identity::{
    BoardId, BranchId, BusId, BusSliceId, CircuitId, CircuitInstanceId, ComponentId,
    DeviceModelId, DifferentialPairId, EscapePolicyId, KeepoutId, LandPatternGraphicId,
    LandPatternId, LayoutModuleId, LengthTuningPatternId, NetClassId, NetId, PadId, PartRef,
    PhaseTuningGroupId, PinRef, PlacementConstraintId, PlacementGroupId, PortId,
    RouteConstraintRegionId, RouteId, RouteRuleRegionId, SchematicLabelId, SchematicSheetId,
    SchematicSheetPortId, SchematicSymbolDefinitionId, SchematicSymbolId, SchematicWireId,
    SubcircuitInstanceId, ViaId, ViaStyleId, ZoneId, same_text,
};
pub use kicad_schematic::{
    KiCadSchematicBookExportOptions, KiCadSchematicBookExportReport, KiCadSchematicBookFile,
    KiCadSchematicExportError, KiCadSchematicExportOmission, KiCadSchematicExportOptions,
    KiCadSchematicExportReport, KiCadSchematicImportError, KiCadSchematicImportOmission,
    KiCadSchematicNumericImport, KiCadSchematicNumericProjection, KiCadSchematicSheetImport,
    KiCadSchematicSheetProjection, KiCadSchematicSymbolProjection, KiCadSchematicWireProjection,
    SchematicPinSide,
};
pub use layout::{
    BoardBoundaryGeometryError, BoardContour, BoardContourSegment, BoardOutline, BoardSide,
    ComposedLayoutModule, CopperZone, CopperZoneConnection, CopperZoneFill, CopperZoneIslandPolicy,
    CopperZoneStitchingPolicy, DifferentialPair, DifferentialPairNeckdown, DrillShape, EscapePolicy,
    KeepoutScope, LandPattern, LandPatternBody, LandPatternGraphic, LandPatternGraphicPrimitive,
    LandPatternPad, LayerRole, LengthTuningPattern, LengthTuningSide, NetClass,
    NetClassResolutionError, PadPinMap, PadShape, Pcb3dModelFormat, Pcb3dModelReference,
    Pcb3dModelTransform, PcbDesignRules, PcbKeepout, PcbLayout, PcbPlacement, PcbRoute,
    PcbRouteSegment, PcbStackup, PcbVia, PhaseTuningGroup, PlacementConstraint,
    PlacementConstraintKind, PlacementResolutionIssue, PlacementResolutionReport, Plating, Point2,
    ResolvedNetClass, RouteConstraintRegion, RouteDirection, RouteRuleRegion, StackupLayer,
    StackupLayerKind, TraceLayer, ViaMaskDisposition, ViaMaskIntent, ViaStyle, ViaStyleSpan,
};
pub use layout_module::{
    LayoutAssembly, LayoutCompositionReport, LayoutModule, LayoutModuleInstance,
    LayoutModuleValidationIssue, LayoutTransform, PlacementGroup,
};
pub use layout_validation::{LayoutValidationIssue, LayoutValidationReport};
pub use routing_aliases::{RoutingNetAliases, RoutingNetId};
pub use lceda::{
    LCEDA_PRO_EXPORT_SCHEMA, LCEDA_PRO_EXPORT_VERSION, LcedaExportError, LcedaExportOmission,
    LcedaImportError, LcedaImportOmission, LcedaNumericImport, LcedaNumericProjection,
    LcedaProExportOptions, LcedaProExportReport, LcedaSourceLengthUnit,
};
pub use legacy_csgrs::{
    LEGACY_CSGRS_ELECTRONICS_REMOVAL_VERSION, LEGACY_CSGRS_ELECTRONICS_SCHEMA,
    LEGACY_CSGRS_ELECTRONICS_VERSION, LegacyCsgrsElectronicsImport,
    LegacyCsgrsElectronicsImportError, LegacyCsgrsElectronicsOmission, LegacyCsgrsTerminalClaim,
};
pub use materialize::{
    CopperFeatureKind, GeometryMaterializationError, MaterializationProjection,
    MaterializedCopperIdentity, Pcb3dAssemblyOmission, Pcb3dCoordinateEncoding, Pcb3dGltfError,
    Pcb3dModelResolutionEvidence, Pcb3dSubtractionEvidence, Pcb3dSubtractionKind,
    ProcessFeatureKind, ProcessLayerRole, ProcessMaterializationOmission, ProductionTextEvidence,
    ProductionTextPolicy, ZoneMaterializationEvidence,
};
pub use mna::{LinearMnaSystem, LinearSolveReport, LinearStamp, MnaUnknown, ResidualReplayReport};
pub use model::{
    AdapterKind, Bus, BusSlice, BusSliceOrder, Circuit, CircuitCertificationReport,
    CircuitInstance, CircuitModuleParameter, CircuitModuleParameterOverride,
    CircuitModuleParameterTarget, CircuitParameter, CircuitPort, CircuitState,
    CircuitValidationIssue, CircuitValidationReport, DeviceModel, DeviceModelKind, DevicePin,
    MnaProblem, MosfetPolarity, Net, PinBinding, PinElectricalKind, PortDirection, RailIntent,
    RailKind, SourceStimulus, SourceWaveform, SourceWaveformPoint, SubcircuitInstance,
    SubcircuitPortBinding, TransientPolicy,
};
