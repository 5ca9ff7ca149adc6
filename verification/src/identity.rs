//! Text-backed stable identities.
//!
//! Every identity is a distinct newtype over its text so that nets, pins,
//! components and branches cannot be confused. Identities compare by text.

use vstd::prelude::*;

verus! {

/// Text equality, the equality of every identity.
pub fn same_text(a: &String, b: &String) -> (equal: bool)
    ensures
        equal == (a@ == b@),
{
    a.eq(b)
}

/// Stable identity of one circuit definition.
#[derive(Debug, PartialEq, Eq, PartialOrd, Ord, Hash)]
pub struct CircuitId(pub String);

impl CircuitId {
    /// Creates the identity from its text.
    pub fn new(text: &str) -> (id: Self)
        ensures
            id@ == text@,
    {
        CircuitId(text.to_owned())
    }

    /// The identity's text.
    pub fn as_str(&self) -> (text: &str)
        ensures
            text@ == self@,
    {
        self.0.as_str()
    }

    /// True when both identities have the same text.
    pub fn same(&self, other: &Self) -> (equal: bool)
        ensures
            equal == (self@ == other@),
    {
        same_text(&self.0, &other.0)
    }
}

impl View for CircuitId {
    type V = Seq<char>;

    open spec fn view(&self) -> Seq<char> {
        self.0@
    }
}

impl Clone for CircuitId {
    fn clone(&self) -> (copy: Self)
        ensures
            copy == *self,
    {
        CircuitId(self.0.clone())
    }
}

/// Stable identity of one circuit net.
#[derive(Debug, PartialEq, Eq, PartialOrd, Ord, Hash)]
pub struct NetId(pub String);

impl NetId {
    /// Creates the identity from its text.
    pub fn new(text: &str) -> (id: Self)
        ensures
            id@ == text@,
    {
        NetId(text.to_owned())
    }

    /// The identity's text.
    pub fn as_str(&self) -> (text: &str)
        ensures
            text@ == self@,
    {
        self.0.as_str()
    }

    /// True when both identities have the same text.
    pub fn same(&self, other: &Self) -> (equal: bool)
        ensures
            equal == (self@ == other@),
    {
        same_text(&self.0, &other.0)
    }
}

impl View for NetId {
    type V = Seq<char>;

    open spec fn view(&self) -> Seq<char> {
        self.0@
    }
}

impl Clone for NetId {
    fn clone(&self) -> (copy: Self)
        ensures
            copy == *self,
    {
        NetId(self.0.clone())
    }
}

/// Stable identity of one ordered bus.
#[derive(Debug, PartialEq, Eq, PartialOrd, Ord, Hash)]
pub struct BusId(pub String);

impl BusId {
    /// Creates the identity from its text.
    pub fn new(text: &str) -> (id: Self)
        ensures
            id@ == text@,
    {
        BusId(text.to_owned())
    }

    /// The identity's text.
    pub fn as_str(&self) -> (text: &str)
        ensures
            text@ == self@,
    {
        self.0.as_str()
    }

    /// True when both identities have the same text.
    pub fn same(&self, other: &Self) -> (equal: bool)
        ensures
            equal == (self@ == other@),
    {
        same_text(&self.0, &other.0)
    }
}

impl View for BusId {
    type V = Seq<char>;

    open spec fn view(&self) -> Seq<char> {
        self.0@
    }
}

impl Clone for BusId {
    fn clone(&self) -> (copy: Self)
        ensures
            copy == *self,
    {
        BusId(self.0.clone())
    }
}

/// Stable identity of one named bus slice.
#[derive(Debug, PartialEq, Eq, PartialOrd, Ord, Hash)]
pub struct BusSliceId(pub String);

impl BusSliceId {
    /// Creates the identity from its text.
    pub fn new(text: &str) -> (id: Self)
        ensures
            id@ == text@,
    {
        BusSliceId(text.to_owned())
    }

    /// The identity's text.
    pub fn as_str(&self) -> (text: &str)
        ensures
            text@ == self@,
    {
        self.0.as_str()
    }

    /// True when both identities have the same text.
    pub fn same(&self, other: &Self) -> (equal: bool)
        ensures
            equal == (self@ == other@),
    {
        same_text(&self.0, &other.0)
    }
}

impl View for BusSliceId {
    type V = Seq<char>;

    open spec fn view(&self) -> Seq<char> {
        self.0@
    }
}

impl Clone for BusSliceId {
    fn clone(&self) -> (copy: Self)
        ensures
            copy == *self,
    {
        BusSliceId(self.0.clone())
    }
}

/// Stable identity of one circuit boundary port.
#[derive(Debug, PartialEq, Eq, PartialOrd, Ord, Hash)]
pub struct PortId(pub String);

impl PortId {
    /// Creates the identity from its text.
    pub fn new(text: &str) -> (id: Self)
        ensures
            id@ == text@,
    {
        PortId(text.to_owned())
    }

    /// The identity's text.
    pub fn as_str(&self) -> (text: &str)
        ensures
            text@ == self@,
    {
        self.0.as_str()
    }

    /// True when both identities have the same text.
    pub fn same(&self, other: &Self) -> (equal: bool)
        ensures
            equal == (self@ == other@),
    {
        same_text(&self.0, &other.0)
    }
}

impl View for PortId {
    type V = Seq<char>;

    open spec fn view(&self) -> Seq<char> {
        self.0@
    }
}

impl Clone for PortId {
    fn clone(&self) -> (copy: Self)
        ensures
            copy == *self,
    {
        PortId(self.0.clone())
    }
}

/// Logical or package pin reference.
#[derive(Debug, PartialEq, Eq, PartialOrd, Ord, Hash)]
pub struct PinRef(pub String);

impl PinRef {
    /// Creates the identity from its text.
    pub fn new(text: &str) -> (id: Self)
        ensures
            id@ == text@,
    {
        PinRef(text.to_owned())
    }

    /// The identity's text.
    pub fn as_str(&self) -> (text: &str)
        ensures
            text@ == self@,
    {
        self.0.as_str()
    }

    /// True when both identities have the same text.
    pub fn same(&self, other: &Self) -> (equal: bool)
        ensures
            equal == (self@ == other@),
    {
        same_text(&self.0, &other.0)
    }
}

impl View for PinRef {
    type V = Seq<char>;

    open spec fn view(&self) -> Seq<char> {
        self.0@
    }
}

impl Clone for PinRef {
    fn clone(&self) -> (copy: Self)
        ensures
            copy == *self,
    {
        PinRef(self.0.clone())
    }
}

/// Part-library reference.
#[derive(Debug, PartialEq, Eq, PartialOrd, Ord, Hash)]
pub struct PartRef(pub String);

impl PartRef {
    /// Creates the identity from its text.
    pub fn new(text: &str) -> (id: Self)
        ensures
            id@ == text@,
    {
        PartRef(text.to_owned())
    }

    /// The identity's text.
    pub fn as_str(&self) -> (text: &str)
        ensures
            text@ == self@,
    {
        self.0.as_str()
    }

    /// True when both identities have the same text.
    pub fn same(&self, other: &Self) -> (equal: bool)
        ensures
            equal == (self@ == other@),
    {
        same_text(&self.0, &other.0)
    }
}

impl View for PartRef {
    type V = Seq<char>;

    open spec fn view(&self) -> Seq<char> {
        self.0@
    }
}

impl Clone for PartRef {
    fn clone(&self) -> (copy: Self)
        ensures
            copy == *self,
    {
        PartRef(self.0.clone())
    }
}

/// Stable identity of one circuit instance.
#[derive(Debug, PartialEq, Eq, PartialOrd, Ord, Hash)]
pub struct CircuitInstanceId(pub String);

impl CircuitInstanceId {
    /// Creates the identity from its text.
    pub fn new(text: &str) -> (id: Self)
        ensures
            id@ == text@,
    {
        CircuitInstanceId(text.to_owned())
    }

    /// The identity's text.
    pub fn as_str(&self) -> (text: &str)
        ensures
            text@ == self@,
    {
        self.0.as_str()
    }

    /// True when both identities have the same text.
    pub fn same(&self, other: &Self) -> (equal: bool)
        ensures
            equal == (self@ == other@),
    {
        same_text(&self.0, &other.0)
    }
}

impl View for CircuitInstanceId {
    type V = Seq<char>;

    open spec fn view(&self) -> Seq<char> {
        self.0@
    }
}

impl Clone for CircuitInstanceId {
    fn clone(&self) -> (copy: Self)
        ensures
            copy == *self,
    {
        CircuitInstanceId(self.0.clone())
    }
}

/// Component identity used by simulation stamps.
#[derive(Debug, PartialEq, Eq, PartialOrd, Ord, Hash)]
pub struct ComponentId(pub String);

impl ComponentId {
    /// Creates the identity from its text.
    pub fn new(text: &str) -> (id: Self)
        ensures
            id@ == text@,
    {
        ComponentId(text.to_owned())
    }

    /// The identity's text.
    pub fn as_str(&self) -> (text: &str)
        ensures
            text@ == self@,
    {
        self.0.as_str()
    }

    /// True when both identities have the same text.
    pub fn same(&self, other: &Self) -> (equal: bool)
        ensures
            equal == (self@ == other@),
    {
        same_text(&self.0, &other.0)
    }
}

impl View for ComponentId {
    type V = Seq<char>;

    open spec fn view(&self) -> Seq<char> {
        self.0@
    }
}

impl Clone for ComponentId {
    fn clone(&self) -> (copy: Self)
        ensures
            copy == *self,
    {
        ComponentId(self.0.clone())
    }
}

/// Stable identity of one device model.
#[derive(Debug, PartialEq, Eq, PartialOrd, Ord, Hash)]
pub struct DeviceModelId(pub String);

impl DeviceModelId {
    /// Creates the identity from its text.
    pub fn new(text: &str) -> (id: Self)
        ensures
            id@ == text@,
    {
        DeviceModelId(text.to_owned())
    }

    /// The identity's text.
    pub fn as_str(&self) -> (text: &str)
        ensures
            text@ == self@,
    {
        self.0.as_str()
    }

    /// True when both identities have the same text.
    pub fn same(&self, other: &Self) -> (equal: bool)
        ensures
            equal == (self@ == other@),
    {
        same_text(&self.0, &other.0)
    }
}

impl View for DeviceModelId {
    type V = Seq<char>;

    open spec fn view(&self) -> Seq<char> {
        self.0@
    }
}

impl Clone for DeviceModelId {
    fn clone(&self) -> (copy: Self)
        ensures
            copy == *self,
    {
        DeviceModelId(self.0.clone())
    }
}

/// Stable identity of one child-circuit instance.
#[derive(Debug, PartialEq, Eq, PartialOrd, Ord, Hash)]
pub struct SubcircuitInstanceId(pub String);

impl SubcircuitInstanceId {
    /// Creates the identity from its text.
    pub fn new(text: &str) -> (id: Self)
        ensures
            id@ == text@,
    {
        SubcircuitInstanceId(text.to_owned())
    }

    /// The identity's text.
    pub fn as_str(&self) -> (text: &str)
        ensures
            text@ == self@,
    {
        self.0.as_str()
    }

    /// True when both identities have the same text.
    pub fn same(&self, other: &Self) -> (equal: bool)
        ensures
            equal == (self@ == other@),
    {
        same_text(&self.0, &other.0)
    }
}

impl View for SubcircuitInstanceId {
    type V = Seq<char>;

    open spec fn view(&self) -> Seq<char> {
        self.0@
    }
}

impl Clone for SubcircuitInstanceId {
    fn clone(&self) -> (copy: Self)
        ensures
            copy == *self,
    {
        SubcircuitInstanceId(self.0.clone())
    }
}

/// Identity of one introduced branch current.
#[derive(Debug, PartialEq, Eq, PartialOrd, Ord, Hash)]
pub struct BranchId(pub String);

impl BranchId {
    /// Creates the identity from its text.
    pub fn new(text: &str) -> (id: Self)
        ensures
            id@ == text@,
    {
        BranchId(text.to_owned())
    }

    /// The identity's text.
    pub fn as_str(&self) -> (text: &str)
        ensures
            text@ == self@,
    {
        self.0.as_str()
    }

    /// True when both identities have the same text.
    pub fn same(&self, other: &Self) -> (equal: bool)
        ensures
            equal == (self@ == other@),
    {
        same_text(&self.0, &other.0)
    }
}

impl View for BranchId {
    type V = Seq<char>;

    open spec fn view(&self) -> Seq<char> {
        self.0@
    }
}

impl Clone for BranchId {
    fn clone(&self) -> (copy: Self)
        ensures
            copy == *self,
    {
        BranchId(self.0.clone())
    }
}

/// Circuit-owned schematic symbol identity.
#[derive(Debug, PartialEq, Eq, PartialOrd, Ord, Hash)]
pub struct SchematicSymbolId(pub String);

impl SchematicSymbolId {
    /// Creates the identity from its text.
    pub fn new(text: &str) -> (id: Self)
        ensures
            id@ == text@,
    {
        SchematicSymbolId(text.to_owned())
    }

    /// The identity's text.
    pub fn as_str(&self) -> (text: &str)
        ensures
            text@ == self@,
    {
        self.0.as_str()
    }

    /// True when both identities have the same text.
    pub fn same(&self, other: &Self) -> (equal: bool)
        ensures
            equal == (self@ == other@),
    {
        same_text(&self.0, &other.0)
    }
}

impl View for SchematicSymbolId {
    type V = Seq<char>;

    open spec fn view(&self) -> Seq<char> {
        self.0@
    }
}

impl Clone for SchematicSymbolId {
    fn clone(&self) -> (copy: Self)
        ensures
            copy == *self,
    {
        SchematicSymbolId(self.0.clone())
    }
}

/// Circuit-owned schematic wire identity.
#[derive(Debug, PartialEq, Eq, PartialOrd, Ord, Hash)]
pub struct SchematicWireId(pub String);

impl SchematicWireId {
    /// Creates the identity from its text.
    pub fn new(text: &str) -> (id: Self)
        ensures
            id@ == text@,
    {
        SchematicWireId(text.to_owned())
    }

    /// The identity's text.
    pub fn as_str(&self) -> (text: &str)
        ensures
            text@ == self@,
    {
        self.0.as_str()
    }

    /// True when both identities have the same text.
    pub fn same(&self, other: &Self) -> (equal: bool)
        ensures
            equal == (self@ == other@),
    {
        same_text(&self.0, &other.0)
    }
}

impl View for SchematicWireId {
    type V = Seq<char>;

    open spec fn view(&self) -> Seq<char> {
        self.0@
    }
}

impl Clone for SchematicWireId {
    fn clone(&self) -> (copy: Self)
        ensures
            copy == *self,
    {
        SchematicWireId(self.0.clone())
    }
}

/// Circuit-owned schematic label identity.
#[derive(Debug, PartialEq, Eq, PartialOrd, Ord, Hash)]
pub struct SchematicLabelId(pub String);

impl SchematicLabelId {
    /// Creates the identity from its text.
    pub fn new(text: &str) -> (id: Self)
        ensures
            id@ == text@,
    {
        SchematicLabelId(text.to_owned())
    }

    /// The identity's text.
    pub fn as_str(&self) -> (text: &str)
        ensures
            text@ == self@,
    {
        self.0.as_str()
    }

    /// True when both identities have the same text.
    pub fn same(&self, other: &Self) -> (equal: bool)
        ensures
            equal == (self@ == other@),
    {
        same_text(&self.0, &other.0)
    }
}

impl View for SchematicLabelId {
    type V = Seq<char>;

    open spec fn view(&self) -> Seq<char> {
        self.0@
    }
}

impl Clone for SchematicLabelId {
    fn clone(&self) -> (copy: Self)
        ensures
            copy == *self,
    {
        SchematicLabelId(self.0.clone())
    }
}

/// Circuit-owned schematic sheet identity.
#[derive(Debug, PartialEq, Eq, PartialOrd, Ord, Hash)]
pub struct SchematicSheetId(pub String);

impl SchematicSheetId {
    /// Creates the identity from its text.
    pub fn new(text: &str) -> (id: Self)
        ensures
            id@ == text@,
    {
        SchematicSheetId(text.to_owned())
    }

    /// The identity's text.
    pub fn as_str(&self) -> (text: &str)
        ensures
            text@ == self@,
    {
        self.0.as_str()
    }

    /// True when both identities have the same text.
    pub fn same(&self, other: &Self) -> (equal: bool)
        ensures
            equal == (self@ == other@),
    {
        same_text(&self.0, &other.0)
    }
}

impl View for SchematicSheetId {
    type V = Seq<char>;

    open spec fn view(&self) -> Seq<char> {
        self.0@
    }
}

impl Clone for SchematicSheetId {
    fn clone(&self) -> (copy: Self)
        ensures
            copy == *self,
    {
        SchematicSheetId(self.0.clone())
    }
}

/// Circuit-owned schematic sheet-port identity.
#[derive(Debug, PartialEq, Eq, PartialOrd, Ord, Hash)]
pub struct SchematicSheetPortId(pub String);

impl SchematicSheetPortId {
    /// Creates the identity from its text.
    pub fn new(text: &str) -> (id: Self)
        ensures
            id@ == text@,
    {
        SchematicSheetPortId(text.to_owned())
    }

    /// The identity's text.
    pub fn as_str(&self) -> (text: &str)
        ensures
            text@ == self@,
    {
        self.0.as_str()
    }

    /// True when both identities have the same text.
    pub fn same(&self, other: &Self) -> (equal: bool)
        ensures
            equal == (self@ == other@),
    {
        same_text(&self.0, &other.0)
    }
}

impl View for SchematicSheetPortId {
    type V = Seq<char>;

    open spec fn view(&self) -> Seq<char> {
        self.0@
    }
}

impl Clone for SchematicSheetPortId {
    fn clone(&self) -> (copy: Self)
        ensures
            copy == *self,
    {
        SchematicSheetPortId(self.0.clone())
    }
}

/// Circuit-owned identity of one reusable schematic symbol definition.
#[derive(Debug, PartialEq, Eq, PartialOrd, Ord, Hash)]
pub struct SchematicSymbolDefinitionId(pub String);

impl SchematicSymbolDefinitionId {
    /// Creates the identity from its text.
    pub fn new(text: &str) -> (id: Self)
        ensures
            id@ == text@,
    {
        SchematicSymbolDefinitionId(text.to_owned())
    }

    /// The identity's text.
    pub fn as_str(&self) -> (text: &str)
        ensures
            text@ == self@,
    {
        self.0.as_str()
    }

    /// True when both identities have the same text.
    pub fn same(&self, other: &Self) -> (equal: bool)
        ensures
            equal == (self@ == other@),
    {
        same_text(&self.0, &other.0)
    }
}

impl View for SchematicSymbolDefinitionId {
    type V = Seq<char>;

    open spec fn view(&self) -> Seq<char> {
        self.0@
    }
}

impl Clone for SchematicSymbolDefinitionId {
    fn clone(&self) -> (copy: Self)
        ensures
            copy == *self,
    {
        SchematicSymbolDefinitionId(self.0.clone())
    }
}

/// Stable identity of one physical pad of a land pattern.
#[derive(Debug, PartialEq, Eq, PartialOrd, Ord, Hash)]
pub struct PadId(pub String);

impl PadId {
    /// Creates the identity from its text.
    pub fn new(text: &str) -> (id: Self)
        ensures
            id@ == text@,
    {
        PadId(text.to_owned())
    }

    /// The identity's text.
    pub fn as_str(&self) -> (text: &str)
        ensures
            text@ == self@,
    {
        self.0.as_str()
    }

    /// True when both identities have the same text.
    pub fn same(&self, other: &Self) -> (equal: bool)
        ensures
            equal == (self@ == other@),
    {
        same_text(&self.0, &other.0)
    }
}

impl View for PadId {
    type V = Seq<char>;

    open spec fn view(&self) -> Seq<char> {
        self.0@
    }
}

impl Clone for PadId {
    fn clone(&self) -> (copy: Self)
        ensures
            copy == *self,
    {
        PadId(self.0.clone())
    }
}

/// Stable identity of one retained placement constraint.
#[derive(Debug, PartialEq, Eq, PartialOrd, Ord, Hash)]
pub struct PlacementConstraintId(pub String);

impl PlacementConstraintId {
    /// Creates the identity from its text.
    pub fn new(text: &str) -> (id: Self)
        ensures
            id@ == text@,
    {
        PlacementConstraintId(text.to_owned())
    }

    /// The identity's text.
    pub fn as_str(&self) -> (text: &str)
        ensures
            text@ == self@,
    {
        self.0.as_str()
    }

    /// True when both identities have the same text.
    pub fn same(&self, other: &Self) -> (equal: bool)
        ensures
            equal == (self@ == other@),
    {
        same_text(&self.0, &other.0)
    }
}

impl View for PlacementConstraintId {
    type V = Seq<char>;

    open spec fn view(&self) -> Seq<char> {
        self.0@
    }
}

impl Clone for PlacementConstraintId {
    fn clone(&self) -> (copy: Self)
        ensures
            copy == *self,
    {
        PlacementConstraintId(self.0.clone())
    }
}

/// Stable identity of one net class.
#[derive(Debug, PartialEq, Eq, PartialOrd, Ord, Hash)]
pub struct NetClassId(pub String);

impl NetClassId {
    /// Creates the identity from its text.
    pub fn new(text: &str) -> (id: Self)
        ensures
            id@ == text@,
    {
        NetClassId(text.to_owned())
    }

    /// The identity's text.
    pub fn as_str(&self) -> (text: &str)
        ensures
            text@ == self@,
    {
        self.0.as_str()
    }

    /// True when both identities have the same text.
    pub fn same(&self, other: &Self) -> (equal: bool)
        ensures
            equal == (self@ == other@),
    {
        same_text(&self.0, &other.0)
    }
}

impl View for NetClassId {
    type V = Seq<char>;

    open spec fn view(&self) -> Seq<char> {
        self.0@
    }
}

impl Clone for NetClassId {
    fn clone(&self) -> (copy: Self)
        ensures
            copy == *self,
    {
        NetClassId(self.0.clone())
    }
}

/// Stable identity of one reusable layout module.
#[derive(Debug, PartialEq, Eq, PartialOrd, Ord, Hash)]
pub struct LayoutModuleId(pub String);

impl LayoutModuleId {
    /// Creates the identity from its text.
    pub fn new(text: &str) -> (id: Self)
        ensures
            id@ == text@,
    {
        LayoutModuleId(text.to_owned())
    }

    /// The identity's text.
    pub fn as_str(&self) -> (text: &str)
        ensures
            text@ == self@,
    {
        self.0.as_str()
    }

    /// True when both identities have the same text.
    pub fn same(&self, other: &Self) -> (equal: bool)
        ensures
            equal == (self@ == other@),
    {
        same_text(&self.0, &other.0)
    }
}

impl View for LayoutModuleId {
    type V = Seq<char>;

    open spec fn view(&self) -> Seq<char> {
        self.0@
    }
}

impl Clone for LayoutModuleId {
    fn clone(&self) -> (copy: Self)
        ensures
            copy == *self,
    {
        LayoutModuleId(self.0.clone())
    }
}

/// Stable identity of one placement group.
#[derive(Debug, PartialEq, Eq, PartialOrd, Ord, Hash)]
pub struct PlacementGroupId(pub String);

impl PlacementGroupId {
    /// Creates the identity from its text.
    pub fn new(text: &str) -> (id: Self)
        ensures
            id@ == text@,
    {
        PlacementGroupId(text.to_owned())
    }

    /// The identity's text.
    pub fn as_str(&self) -> (text: &str)
        ensures
            text@ == self@,
    {
        self.0.as_str()
    }

    /// True when both identities have the same text.
    pub fn same(&self, other: &Self) -> (equal: bool)
        ensures
            equal == (self@ == other@),
    {
        same_text(&self.0, &other.0)
    }
}

impl View for PlacementGroupId {
    type V = Seq<char>;

    open spec fn view(&self) -> Seq<char> {
        self.0@
    }
}

impl Clone for PlacementGroupId {
    fn clone(&self) -> (copy: Self)
        ensures
            copy == *self,
    {
        PlacementGroupId(self.0.clone())
    }
}

/// Stable identity of one reusable land pattern.
#[derive(Debug, PartialEq, Eq, PartialOrd, Ord, Hash)]
pub struct LandPatternId(pub String);

impl LandPatternId {
    /// Creates the identity from its text.
    pub fn new(text: &str) -> (id: Self)
        ensures
            id@ == text@,
    {
        LandPatternId(text.to_owned())
    }

    /// The identity's text.
    pub fn as_str(&self) -> (text: &str)
        ensures
            text@ == self@,
    {
        self.0.as_str()
    }

    /// True when both identities have the same text.
    pub fn same(&self, other: &Self) -> (equal: bool)
        ensures
            equal == (self@ == other@),
    {
        same_text(&self.0, &other.0)
    }
}

impl View for LandPatternId {
    type V = Seq<char>;

    open spec fn view(&self) -> Seq<char> {
        self.0@
    }
}

impl Clone for LandPatternId {
    fn clone(&self) -> (copy: Self)
        ensures
            copy == *self,
    {
        LandPatternId(self.0.clone())
    }
}

/// Stable identity of one land-pattern graphic.
#[derive(Debug, PartialEq, Eq, PartialOrd, Ord, Hash)]
pub struct LandPatternGraphicId(pub String);

impl LandPatternGraphicId {
    /// Creates the identity from its text.
    pub fn new(text: &str) -> (id: Self)
        ensures
            id@ == text@,
    {
        LandPatternGraphicId(text.to_owned())
    }

    /// The identity's text.
    pub fn as_str(&self) -> (text: &str)
        ensures
            text@ == self@,
    {
        self.0.as_str()
    }

    /// True when both identities have the same text.
    pub fn same(&self, other: &Self) -> (equal: bool)
        ensures
            equal == (self@ == other@),
    {
        same_text(&self.0, &other.0)
    }
}

impl View for LandPatternGraphicId {
    type V = Seq<char>;

    open spec fn view(&self) -> Seq<char> {
        self.0@
    }
}

impl Clone for LandPatternGraphicId {
    fn clone(&self) -> (copy: Self)
        ensures
            copy == *self,
    {
        LandPatternGraphicId(self.0.clone())
    }
}

/// Stable identity of one routed copper centerline.
#[derive(Debug, PartialEq, Eq, PartialOrd, Ord, Hash)]
pub struct RouteId(pub String);

impl RouteId {
    /// Creates the identity from its text.
    pub fn new(text: &str) -> (id: Self)
        ensures
            id@ == text@,
    {
        RouteId(text.to_owned())
    }

    /// The identity's text.
    pub fn as_str(&self) -> (text: &str)
        ensures
            text@ == self@,
    {
        self.0.as_str()
    }

    /// True when both identities have the same text.
    pub fn same(&self, other: &Self) -> (equal: bool)
        ensures
            equal == (self@ == other@),
    {
        same_text(&self.0, &other.0)
    }
}

impl View for RouteId {
    type V = Seq<char>;

    open spec fn view(&self) -> Seq<char> {
        self.0@
    }
}

impl Clone for RouteId {
    fn clone(&self) -> (copy: Self)
        ensures
            copy == *self,
    {
        RouteId(self.0.clone())
    }
}

/// Stable identity of one via.
#[derive(Debug, PartialEq, Eq, PartialOrd, Ord, Hash)]
pub struct ViaId(pub String);

impl ViaId {
    /// Creates the identity from its text.
    pub fn new(text: &str) -> (id: Self)
        ensures
            id@ == text@,
    {
        ViaId(text.to_owned())
    }

    /// The identity's text.
    pub fn as_str(&self) -> (text: &str)
        ensures
            text@ == self@,
    {
        self.0.as_str()
    }

    /// True when both identities have the same text.
    pub fn same(&self, other: &Self) -> (equal: bool)
        ensures
            equal == (self@ == other@),
    {
        same_text(&self.0, &other.0)
    }
}

impl View for ViaId {
    type V = Seq<char>;

    open spec fn view(&self) -> Seq<char> {
        self.0@
    }
}

impl Clone for ViaId {
    fn clone(&self) -> (copy: Self)
        ensures
            copy == *self,
    {
        ViaId(self.0.clone())
    }
}

/// Stable identity of one copper zone.
#[derive(Debug, PartialEq, Eq, PartialOrd, Ord, Hash)]
pub struct ZoneId(pub String);

impl ZoneId {
    /// Creates the identity from its text.
    pub fn new(text: &str) -> (id: Self)
        ensures
            id@ == text@,
    {
        ZoneId(text.to_owned())
    }

    /// The identity's text.
    pub fn as_str(&self) -> (text: &str)
        ensures
            text@ == self@,
    {
        self.0.as_str()
    }

    /// True when both identities have the same text.
    pub fn same(&self, other: &Self) -> (equal: bool)
        ensures
            equal == (self@ == other@),
    {
        same_text(&self.0, &other.0)
    }
}

impl View for ZoneId {
    type V = Seq<char>;

    open spec fn view(&self) -> Seq<char> {
        self.0@
    }
}

impl Clone for ZoneId {
    fn clone(&self) -> (copy: Self)
        ensures
            copy == *self,
    {
        ZoneId(self.0.clone())
    }
}

/// Stable identity of one board.
#[derive(Debug, PartialEq, Eq, PartialOrd, Ord, Hash)]
pub struct BoardId(pub String);

impl BoardId {
    /// Creates the identity from its text.
    pub fn new(text: &str) -> (id: Self)
        ensures
            id@ == text@,
    {
        BoardId(text.to_owned())
    }

    /// The identity's text.
    pub fn as_str(&self) -> (text: &str)
        ensures
            text@ == self@,
    {
        self.0.as_str()
    }

    /// True when both identities have the same text.
    pub fn same(&self, other: &Self) -> (equal: bool)
        ensures
            equal == (self@ == other@),
    {
        same_text(&self.0, &other.0)
    }
}

impl View for BoardId {
    type V = Seq<char>;

    open spec fn view(&self) -> Seq<char> {
        self.0@
    }
}

impl Clone for BoardId {
    fn clone(&self) -> (copy: Self)
        ensures
            copy == *self,
    {
        BoardId(self.0.clone())
    }
}

/// Stable identity of one differential pair.
#[derive(Debug, PartialEq, Eq, PartialOrd, Ord, Hash)]
pub struct DifferentialPairId(pub String);

impl DifferentialPairId {
    /// Creates the identity from its text.
    pub fn new(text: &str) -> (id: Self)
        ensures
            id@ == text@,
    {
        DifferentialPairId(text.to_owned())
    }

    /// The identity's text.
    pub fn as_str(&self) -> (text: &str)
        ensures
            text@ == self@,
    {
        self.0.as_str()
    }

    /// True when both identities have the same text.
    pub fn same(&self, other: &Self) -> (equal: bool)
        ensures
            equal == (self@ == other@),
    {
        same_text(&self.0, &other.0)
    }
}

impl View for DifferentialPairId {
    type V = Seq<char>;

    open spec fn view(&self) -> Seq<char> {
        self.0@
    }
}

impl Clone for DifferentialPairId {
    fn clone(&self) -> (copy: Self)
        ensures
            copy == *self,
    {
        DifferentialPairId(self.0.clone())
    }
}

/// Stable identity of one escape policy.
#[derive(Debug, PartialEq, Eq, PartialOrd, Ord, Hash)]
pub struct EscapePolicyId(pub String);

impl EscapePolicyId {
    /// Creates the identity from its text.
    pub fn new(text: &str) -> (id: Self)
        ensures
            id@ == text@,
    {
        EscapePolicyId(text.to_owned())
    }

    /// The identity's text.
    pub fn as_str(&self) -> (text: &str)
        ensures
            text@ == self@,
    {
        self.0.as_str()
    }

    /// True when both identities have the same text.
    pub fn same(&self, other: &Self) -> (equal: bool)
        ensures
            equal == (self@ == other@),
    {
        same_text(&self.0, &other.0)
    }
}

impl View for EscapePolicyId {
    type V = Seq<char>;

    open spec fn view(&self) -> Seq<char> {
        self.0@
    }
}

impl Clone for EscapePolicyId {
    fn clone(&self) -> (copy: Self)
        ensures
            copy == *self,
    {
        EscapePolicyId(self.0.clone())
    }
}

/// Stable identity of one keepout.
#[derive(Debug, PartialEq, Eq, PartialOrd, Ord, Hash)]
pub struct KeepoutId(pub String);

impl KeepoutId {
    /// Creates the identity from its text.
    pub fn new(text: &str) -> (id: Self)
        ensures
            id@ == text@,
    {
        KeepoutId(text.to_owned())
    }

    /// The identity's text.
    pub fn as_str(&self) -> (text: &str)
        ensures
            text@ == self@,
    {
        self.0.as_str()
    }

    /// True when both identities have the same text.
    pub fn same(&self, other: &Self) -> (equal: bool)
        ensures
            equal == (self@ == other@),
    {
        same_text(&self.0, &other.0)
    }
}

impl View for KeepoutId {
    type V = Seq<char>;

    open spec fn view(&self) -> Seq<char> {
        self.0@
    }
}

impl Clone for KeepoutId {
    fn clone(&self) -> (copy: Self)
        ensures
            copy == *self,
    {
        KeepoutId(self.0.clone())
    }
}

/// Stable identity of one length-tuning pattern.
#[derive(Debug, PartialEq, Eq, PartialOrd, Ord, Hash)]
pub struct LengthTuningPatternId(pub String);

impl LengthTuningPatternId {
    /// Creates the identity from its text.
    pub fn new(text: &str) -> (id: Self)
        ensures
            id@ == text@,
    {
        LengthTuningPatternId(text.to_owned())
    }

    /// The identity's text.
    pub fn as_str(&self) -> (text: &str)
        ensures
            text@ == self@,
    {
        self.0.as_str()
    }

    /// True when both identities have the same text.
    pub fn same(&self, other: &Self) -> (equal: bool)
        ensures
            equal == (self@ == other@),
    {
        same_text(&self.0, &other.0)
    }
}

impl View for LengthTuningPatternId {
    type V = Seq<char>;

    open spec fn view(&self) -> Seq<char> {
        self.0@
    }
}

impl Clone for LengthTuningPatternId {
    fn clone(&self) -> (copy: Self)
        ensures
            copy == *self,
    {
        LengthTuningPatternId(self.0.clone())
    }
}

/// Stable identity of one phase-tuning group.
#[derive(Debug, PartialEq, Eq, PartialOrd, Ord, Hash)]
pub struct PhaseTuningGroupId(pub String);

impl PhaseTuningGroupId {
    /// Creates the identity from its text.
    pub fn new(text: &str) -> (id: Self)
        ensures
            id@ == text@,
    {
        PhaseTuningGroupId(text.to_owned())
    }

    /// The identity's text.
    pub fn as_str(&self) -> (text: &str)
        ensures
            text@ == self@,
    {
        self.0.as_str()
    }

    /// True when both identities have the same text.
    pub fn same(&self, other: &Self) -> (equal: bool)
        ensures
            equal == (self@ == other@),
    {
        same_text(&self.0, &other.0)
    }
}

impl View for PhaseTuningGroupId {
    type V = Seq<char>;

    open spec fn view(&self) -> Seq<char> {
        self.0@
    }
}

impl Clone for PhaseTuningGroupId {
    fn clone(&self) -> (copy: Self)
        ensures
            copy == *self,
    {
        PhaseTuningGroupId(self.0.clone())
    }
}

/// Stable identity of one route-constraint region.
#[derive(Debug, PartialEq, Eq, PartialOrd, Ord, Hash)]
pub struct RouteConstraintRegionId(pub String);

impl RouteConstraintRegionId {
    /// Creates the identity from its text.
    pub fn new(text: &str) -> (id: Self)
        ensures
            id@ == text@,
    {
        RouteConstraintRegionId(text.to_owned())
    }

    /// The identity's text.
    pub fn as_str(&self) -> (text: &str)
        ensures
            text@ == self@,
    {
        self.0.as_str()
    }

    /// True when both identities have the same text.
    pub fn same(&self, other: &Self) -> (equal: bool)
        ensures
            equal == (self@ == other@),
    {
        same_text(&self.0, &other.0)
    }
}

impl View for RouteConstraintRegionId {
    type V = Seq<char>;

    open spec fn view(&self) -> Seq<char> {
        self.0@
    }
}

impl Clone for RouteConstraintRegionId {
    fn clone(&self) -> (copy: Self)
        ensures
            copy == *self,
    {
        RouteConstraintRegionId(self.0.clone())
    }
}

/// Stable identity of one route-rule region.
#[derive(Debug, PartialEq, Eq, PartialOrd, Ord, Hash)]
pub struct RouteRuleRegionId(pub String);

impl RouteRuleRegionId {
    /// Creates the identity from its text.
    pub fn new(text: &str) -> (id: Self)
        ensures
            id@ == text@,
    {
        RouteRuleRegionId(text.to_owned())
    }

    /// The identity's text.
    pub fn as_str(&self) -> (text: &str)
        ensures
            text@ == self@,
    {
        self.0.as_str()
    }

    /// True when both identities have the same text.
    pub fn same(&self, other: &Self) -> (equal: bool)
        ensures
            equal == (self@ == other@),
    {
        same_text(&self.0, &other.0)
    }
}

impl View for RouteRuleRegionId {
    type V = Seq<char>;

    open spec fn view(&self) -> Seq<char> {
        self.0@
    }
}

impl Clone for RouteRuleRegionId {
    fn clone(&self) -> (copy: Self)
        ensures
            copy == *self,
    {
        RouteRuleRegionId(self.0.clone())
    }
}

/// Stable identity of one named via construction.
#[derive(Debug, PartialEq, Eq, PartialOrd, Ord, Hash)]
pub struct ViaStyleId(pub String);

impl ViaStyleId {
    /// Creates the identity from its text.
    pub fn new(text: &str) -> (id: Self)
        ensures
            id@ == text@,
    {
        ViaStyleId(text.to_owned())
    }

    /// The identity's text.
    pub fn as_str(&self) -> (text: &str)
        ensures
            text@ == self@,
    {
        self.0.as_str()
    }

    /// True when both identities have the same text.
    pub fn same(&self, other: &Self) -> (equal: bool)
        ensures
            equal == (self@ == other@),
    {
        same_text(&self.0, &other.0)
    }
}

impl View for ViaStyleId {
    type V = Seq<char>;

    open spec fn view(&self) -> Seq<char> {
        self.0@
    }
}

impl Clone for ViaStyleId {
    fn clone(&self) -> (copy: Self)
        ensures
            copy == *self,
    {
        ViaStyleId(self.0.clone())
    }
}

} // verus!
