//! Exact circuit-domain carriers before solver lowering.
//!
//! Circuits, instances, device models, pins, nets, buses, rails, ports,
//! stimuli and stamps are kept in circuit-owned structures before any solver
//! adapter is selected. Scalars are exact `hyperreal::Real` values; numeric
//! engines only propose values that must survive exact residual replay.

use hyperreal::Real;
use vstd::prelude::*;

use crate::error::{CircuitError, CircuitResult};
use crate::identity::{
    BusId, BusSliceId, CircuitId, CircuitInstanceId, ComponentId, DeviceModelId, NetId, PartRef,
    PinRef, PortId, SubcircuitInstanceId,
};
use crate::mna::{LinearMnaSystem, LinearStamp, matrix_view, spec_from_stamps, voltage_branches};

verus! {

/// Circuit net record.
#[derive(Clone, Debug, PartialEq, Eq)]
pub struct Net {
    /// Net id.
    pub id: NetId,
    /// True when this net is the reference/ground net.
    pub is_ground: bool,
}

/// Ordered collection of nets exposed as one declarative bus.
#[derive(Clone, Debug, PartialEq, Eq)]
pub struct Bus {
    /// Stable bus id.
    pub id: BusId,
    /// Ordered member nets. Order is part of the authored interface.
    pub nets: Vec<NetId>,
}

/// Ordering applied when exposing a retained subset of a bus.
#[derive(Clone, Copy, Debug, PartialEq, Eq, Structural)]
pub enum BusSliceOrder {
    /// Preserve source bus declaration order.
    Forward,
    /// Reverse the selected source bus members.
    Reverse,
}

/// Named retained subset of an ordered bus.
#[derive(Clone, Debug, PartialEq, Eq)]
pub struct BusSlice {
    /// Stable slice identity in this circuit scope.
    pub id: BusSliceId,
    /// Source bus.
    pub bus: BusId,
    /// Zero-based first selected member in source order.
    pub offset: usize,
    /// Number of selected members.
    pub width: usize,
    /// Exposed member order.
    pub order: BusSliceOrder,
}

/// The members a slice selects from a bus, or `None` when the slice names
/// another bus, is empty, or does not fit inside the bus.
pub open spec fn spec_slice_members(slice: BusSlice, bus: Bus) -> Option<Seq<NetId>> {
    if slice.bus@ != bus.id@ || slice.width == 0 || slice.offset + slice.width > bus.nets@.len() {
        None
    } else {
        let selected = bus.nets@.subrange(slice.offset as int, slice.offset + slice.width);
        if slice.order == BusSliceOrder::Reverse {
            Some(selected.reverse())
        } else {
            Some(selected)
        }
    }
}

impl BusSlice {
    /// Resolves selected nets without duplicating them in retained storage.
    pub fn members(&self, bus: &Bus) -> (members: Option<Vec<NetId>>)
        ensures
            match spec_slice_members(*self, *bus) {
                None => members is None,
                Some(expected) => members matches Some(found) && found@ == expected,
            },
    {
        if !self.bus.same(&bus.id) || self.width == 0 {
            return None;
        }
        let length = bus.nets.len();
        let end = match self.offset.checked_add(self.width) {
            Some(end) => end,
            None => return None,
        };
        if end > length {
            return None;
        }
        let mut members: Vec<NetId> = Vec::new();
        if self.order == BusSliceOrder::Reverse {
            let mut index: usize = end;
            while index > self.offset
                invariant
                    self.offset <= index <= end,
                    end == self.offset + self.width,
                    end <= bus.nets@.len(),
                    members@ == bus.nets@.subrange(index as int, end as int).reverse(),
                decreases index,
            {
                index = index - 1;
                members.push(bus.nets[index].clone());
                assert(bus.nets@.subrange(index as int, end as int).reverse() =~= bus.nets@.subrange(
                    index + 1,
                    end as int,
                ).reverse().push(bus.nets@[index as int]));
            }
        } else {
            let mut index: usize = self.offset;
            while index < end
                invariant
                    self.offset <= index <= end,
                    end == self.offset + self.width,
                    end <= bus.nets@.len(),
                    members@ == bus.nets@.subrange(self.offset as int, index as int),
                decreases end - index,
            {
                members.push(bus.nets[index].clone());
                index = index + 1;
                assert(members@ =~= bus.nets@.subrange(self.offset as int, index as int));
            }
        }
        Some(members)
    }
}

/// Electrical role of a named supply/reference rail.
#[derive(Clone, Debug, PartialEq, Eq)]
pub enum RailKind {
    /// Positive or negative power distribution rail.
    Power,
    /// Circuit reference/ground rail.
    Ground,
    /// Analog or measurement reference that is not circuit ground.
    Reference,
    /// Bias rail used by analog circuitry.
    AnalogBias,
    /// Source-specific rail role.
    Custom(String),
}

/// Exact voltage/current intent attached to one retained net.
#[derive(Clone, Debug, PartialEq)]
pub struct RailIntent {
    /// Rail net.
    pub net: NetId,
    /// Nominal voltage relative to circuit ground/reference.
    pub nominal_voltage: Option<Real>,
    /// Maximum expected sourced or carried current magnitude.
    pub max_current: Option<Real>,
    /// Authored electrical role.
    pub kind: RailKind,
}

/// Electrical direction of a circuit boundary port.
#[derive(Clone, Copy, Debug, PartialEq, Eq, Structural)]
pub enum PortDirection {
    /// Signal is driven into the circuit.
    Input,
    /// Signal is driven out of the circuit.
    Output,
    /// Signal may be driven in either direction.
    Bidirectional,
    /// Passive terminal with no asserted signal direction.
    Passive,
    /// Power source terminal.
    PowerInput,
    /// Power-producing terminal.
    PowerOutput,
    /// Reference or ground terminal.
    Ground,
}

/// Named circuit-boundary port tied to one retained net.
#[derive(Clone, Debug, PartialEq, Eq)]
pub struct CircuitPort {
    /// Stable port id.
    pub id: PortId,
    /// Net exposed through the port.
    pub net: NetId,
    /// Authored electrical direction.
    pub direction: PortDirection,
    /// Whether a parent may omit this port when instantiating the circuit.
    pub optional: bool,
}

/// Pin binding for a circuit instance.
#[derive(Clone, Debug, PartialEq, Eq)]
pub struct PinBinding {
    /// External or package pin reference.
    pub pin: PinRef,
    /// Net connected to the pin.
    pub net: NetId,
}

/// Circuit instance record.
#[derive(Clone, Debug, PartialEq)]
pub struct CircuitInstance {
    /// Instance id.
    pub id: CircuitInstanceId,
    /// Component id used by stamps.
    pub component: ComponentId,
    /// Optional part-library reference.
    pub part: Option<PartRef>,
    /// Device model used by the instance.
    pub model: DeviceModelId,
    /// Pin-to-net bindings.
    pub pins: Vec<PinBinding>,
    /// Exact instance parameters, such as R/L/C/source values.
    pub parameters: Vec<CircuitParameter>,
}

/// Exact circuit parameter with provenance text.
#[derive(Clone, Debug, PartialEq)]
pub struct CircuitParameter {
    /// Parameter name.
    pub name: String,
    /// Exact parameter value.
    pub value: Real,
    /// Unit label.
    pub unit: String,
    /// Source/provenance label.
    pub source: String,
}

/// Exact parameter target controlled by a reusable circuit-module parameter.
#[derive(Debug, PartialEq, Eq, PartialOrd, Ord)]
pub enum CircuitModuleParameterTarget {
    /// One parameter retained directly on a child component instance.
    InstanceParameter {
        /// Local instance identity.
        instance: CircuitInstanceId,
        /// Existing instance-parameter name.
        parameter: String,
    },
    /// One parameter retained on a reusable device model.
    ModelParameter {
        /// Local device-model identity.
        model: DeviceModelId,
        /// Existing model-parameter name.
        parameter: String,
    },
    /// Forward the exact value into a nested subcircuit module parameter.
    SubcircuitParameter {
        /// Local nested subcircuit instance.
        instance: SubcircuitInstanceId,
        /// Parameter declared by that instance's child circuit.
        parameter: String,
    },
}

impl Clone for CircuitModuleParameterTarget {
    fn clone(&self) -> (copy: Self)
        ensures
            copy == *self,
    {
        match self {
            CircuitModuleParameterTarget::InstanceParameter { instance, parameter } => {
                CircuitModuleParameterTarget::InstanceParameter {
                    instance: instance.clone(),
                    parameter: parameter.clone(),
                }
            },
            CircuitModuleParameterTarget::ModelParameter { model, parameter } => {
                CircuitModuleParameterTarget::ModelParameter { model: model.clone(), parameter: parameter.clone() }
            },
            CircuitModuleParameterTarget::SubcircuitParameter { instance, parameter } => {
                CircuitModuleParameterTarget::SubcircuitParameter {
                    instance: instance.clone(),
                    parameter: parameter.clone(),
                }
            },
        }
    }
}

/// Declared exact interface parameter for a reusable circuit definition.
#[derive(Clone, Debug, PartialEq)]
pub struct CircuitModuleParameter {
    /// Stable name used by parent instances.
    pub name: String,
    /// Exact value used when a parent supplies no override.
    pub default: Real,
    /// Required unit shared by every target.
    pub unit: String,
    /// Default-value provenance.
    pub source: String,
    /// Explicit local parameters or nested interface parameters controlled.
    pub targets: Vec<CircuitModuleParameterTarget>,
}

/// Exact parent-authored override of one declared child-module parameter.
#[derive(Clone, Debug, PartialEq)]
pub struct CircuitModuleParameterOverride {
    /// Parameter name declared by the referenced child circuit.
    pub parameter: String,
    /// Exact replacement value.
    pub value: Real,
    /// Parent/editor/package provenance.
    pub source: String,
}

/// One exact point in a piecewise-linear independent-source waveform.
#[derive(Clone, Debug, PartialEq)]
pub struct SourceWaveformPoint {
    /// Exact simulation time.
    pub time: Real,
    /// Exact source value at `time`.
    pub value: Real,
}

/// Declarative time dependence for an independent voltage or current source.
///
/// Piecewise-linear values are held constant before the first point and after
/// the last point. Adjacent points must have strictly increasing exact times.
/// Pulse trains repeat indefinitely after their delay and retain exact
/// rise/high/fall timing. Analytic sine and exponential sources retain their
/// authored parameters.
#[derive(Clone, Debug, PartialEq)]
pub enum SourceWaveform {
    /// A retained constant source.
    Constant(Real),
    /// An ideal discontinuous step: `initial` before `at`, then `final_value`.
    Step {
        /// Value strictly before the transition.
        initial: Real,
        /// Value at and after the transition.
        final_value: Real,
        /// Exact transition time.
        at: Real,
    },
    /// Linear interpolation between exact points with endpoint-value holding.
    PiecewiseLinear {
        /// Nonempty points in strictly increasing exact-time order.
        points: Vec<SourceWaveformPoint>,
    },
    /// A periodic SPICE-style pulse train with an implicit low interval.
    Pulse {
        /// Value before `delay` and outside the rise/high/fall interval.
        low_value: Real,
        /// Value at the top of the pulse.
        high_value: Real,
        /// Nonnegative time before the first pulse begins.
        delay: Real,
        /// Nonnegative linear rise duration.
        rise_time: Real,
        /// Nonnegative duration held at `high_value`.
        high_time: Real,
        /// Nonnegative linear fall duration.
        fall_time: Real,
        /// Strictly positive repetition period, at least the active duration.
        period: Real,
    },
    /// A delayed, optionally damped SPICE-style sinusoid.
    Sine {
        /// Constant source offset.
        offset: Real,
        /// Peak sinusoidal excursion from `offset`.
        amplitude: Real,
        /// Nonnegative frequency in cycles per simulation-time unit.
        frequency: Real,
        /// Nonnegative time before oscillation and damping begin.
        delay: Real,
        /// Nonnegative exponential damping coefficient.
        damping: Real,
        /// Exact initial phase in degrees.
        phase_degrees: Real,
    },
    /// A SPICE-style exponential rise followed by an exponential return.
    Exponential {
        /// Value before `rise_delay`.
        initial: Real,
        /// Asymptotic value approached after `rise_delay`.
        pulsed: Real,
        /// Nonnegative rise onset.
        rise_delay: Real,
        /// Strictly positive rise time constant.
        rise_time_constant: Real,
        /// Fall onset, exactly no earlier than `rise_delay`.
        fall_delay: Real,
        /// Strictly positive fall time constant.
        fall_time_constant: Real,
    },
}

/// Component-addressed independent-source stimulus.
#[derive(Clone, Debug, PartialEq)]
pub struct SourceStimulus {
    /// Stable component identity of a voltage or current source instance.
    pub component: ComponentId,
    /// Retained exact waveform.
    pub waveform: SourceWaveform,
}

/// MOSFET channel polarity.
#[derive(Clone, Copy, Debug, PartialEq, Eq, Structural)]
pub enum MosfetPolarity {
    /// N-channel device with positive normalized gate/drain voltages.
    NChannel,
    /// P-channel device with negative physical gate/drain voltages.
    PChannel,
}

/// Device model family.
#[derive(Clone, Debug, PartialEq, Eq)]
pub enum DeviceModelKind {
    /// Resistor model.
    Resistor,
    /// Capacitor model.
    Capacitor,
    /// Inductor model.
    Inductor,
    /// Independent current source.
    CurrentSource,
    /// Independent voltage source.
    VoltageSource,
    /// Controlled source.
    ControlledSource,
    /// Two-terminal Shockley diode.
    Diode,
    /// Three-terminal Shichman-Hodges MOSFET with the body tied to source.
    Mosfet {
        /// N-channel or P-channel law orientation.
        polarity: MosfetPolarity,
        /// Model pin serving as drain.
        drain: PinRef,
        /// Model pin serving as gate.
        gate: PinRef,
        /// Model pin serving as source and body reference.
        source: PinRef,
    },
    /// Explicit placeholder for nonlinear devices.
    NonlinearPlaceholder,
    /// Source-specific model kind.
    Custom(String),
}

/// Electrical class of a modeled device pin for pre-layout ERC.
#[derive(Clone, Copy, Debug, PartialEq, Eq, Structural)]
pub enum PinElectricalKind {
    /// High-impedance signal input.
    Input,
    /// Actively driven signal output.
    Output,
    /// Signal pin that can both drive and receive.
    Bidirectional,
    /// Passive terminal, such as a resistor lead.
    Passive,
    /// Supply input.
    PowerInput,
    /// Supply source or regulator output.
    PowerOutput,
    /// Open-collector or open-drain output.
    OpenCollector,
    /// Open-emitter or open-source output.
    OpenEmitter,
    /// Intentionally unconnected package terminal.
    NotConnected,
}

/// One named pin in a reusable device model.
#[derive(Clone, Debug, PartialEq, Eq)]
pub struct DevicePin {
    /// Stable logical/package pin reference.
    pub pin: PinRef,
    /// Electrical class used by ERC.
    pub kind: PinElectricalKind,
    /// Whether an instance may omit this pin binding.
    pub optional: bool,
}

/// Device model definition.
#[derive(Clone, Debug, PartialEq)]
pub struct DeviceModel {
    /// Model id.
    pub id: DeviceModelId,
    /// Model kind.
    pub kind: DeviceModelKind,
    /// Declared electrical interface.
    pub pins: Vec<DevicePin>,
    /// Exact model parameters.
    pub parameters: Vec<CircuitParameter>,
}

/// Exact circuit state value.
#[derive(Clone, Debug, PartialEq)]
pub struct CircuitState {
    /// State name.
    pub name: String,
    /// Exact state value.
    pub value: Real,
    /// Unit label.
    pub unit: String,
}

/// Transient integration policy.
#[derive(Clone, Copy, Debug, PartialEq, Eq, Structural)]
pub enum TransientPolicy {
    /// DC or static solve, no transient companion model.
    Static,
    /// Trapezoidal companion model.
    Trapezoidal,
    /// Gear/BDF companion model.
    GearBdf { order: u8 },
    /// IDA-style DAE adapter boundary.
    IdaDaeAdapter,
}

/// Solver adapter family selected or proposed for a circuit.
#[derive(Clone, Debug, PartialEq, Eq)]
pub enum AdapterKind {
    /// Exact dense MNA elimination with residual replay.
    ExactDense,
    /// Sparse numeric proposal replayed exactly.
    SparseNumeric,
    /// Numeric transient/DAE engine proposal replayed exactly.
    TransientDae,
    /// Source-specific adapter.
    Custom(String),
}

/// Circuit-level certification report.
#[derive(Clone, Debug, PartialEq, Eq)]
pub struct CircuitCertificationReport {
    /// Report status.
    pub status: String,
    /// Evidence labels.
    pub evidence: Vec<String>,
}

/// Binding of a child-circuit boundary port to a parent net.
#[derive(Clone, Debug, PartialEq, Eq)]
pub struct SubcircuitPortBinding {
    /// Child boundary port.
    pub port: PortId,
    /// Parent net.
    pub net: NetId,
}

/// Instantiation of a reusable child circuit inside a parent circuit scope.
#[derive(Clone, Debug, PartialEq)]
pub struct SubcircuitInstance {
    /// Instance identity in the parent scope.
    pub id: SubcircuitInstanceId,
    /// Child circuit definition.
    pub circuit: CircuitId,
    /// Child-port to parent-net bindings.
    pub ports: Vec<SubcircuitPortBinding>,
    /// Parent overrides of declared child module parameters.
    pub parameter_overrides: Vec<CircuitModuleParameterOverride>,
}

/// Structural problem found while validating a declarative circuit graph.
#[derive(Clone, Debug, PartialEq, Eq)]
pub enum CircuitValidationIssue {
    /// Two nets share one stable id.
    DuplicateNet(NetId),
    /// More than one net was marked as the reference ground.
    MultipleGroundNets,
    /// Two buses share one stable id.
    DuplicateBus(BusId),
    /// A bus has no member nets.
    EmptyBus(BusId),
    /// A bus references a net absent from the circuit.
    UnknownBusNet { bus: BusId, net: NetId },
    /// A bus contains the same member net more than once.
    DuplicateBusNet { bus: BusId, net: NetId },
    /// Two named slices share one identity.
    DuplicateBusSlice(BusSliceId),
    /// A slice references a bus absent from the circuit.
    UnknownBusSliceBus { slice: BusSliceId, bus: BusId },
    /// A slice is empty, overflows, or extends beyond its source bus.
    InvalidBusSliceRange(BusSliceId),
    /// More than one rail-intent record targets the same net.
    DuplicateRailIntent(NetId),
    /// A rail-intent record references an absent net.
    UnknownRailNet(NetId),
    /// A ground rail and the net's ground marker disagree.
    GroundRailMismatch(NetId),
    /// Maximum rail current is nonpositive or indeterminate.
    InvalidRailCurrent(NetId),
    /// Two boundary ports share one stable id.
    DuplicatePort(PortId),
    /// A boundary port references a net absent from the circuit.
    UnknownPortNet { port: PortId, net: NetId },
    /// Two device models share one stable id.
    DuplicateDeviceModel(DeviceModelId),
    /// A MOSFET's D/G/S roles are duplicated or absent from its model pins.
    InvalidMosfetTerminals(DeviceModelId),
    /// A device model declares one pin more than once.
    DuplicateDeviceModelPin { model: DeviceModelId, pin: PinRef },
    /// Two instances share one stable instance id.
    DuplicateInstance(CircuitInstanceId),
    /// Two instances share one component identity used by simulation stamps.
    DuplicateComponent(ComponentId),
    /// Two child circuit instances share one identity in a circuit scope.
    DuplicateSubcircuitInstance(SubcircuitInstanceId),
    /// A child circuit binding references a parent net absent from the circuit.
    UnknownSubcircuitParentNet { instance: SubcircuitInstanceId, net: NetId },
    /// A child circuit port is bound more than once.
    DuplicateSubcircuitPortBinding { instance: SubcircuitInstanceId, port: PortId },
    /// A simulation stamp references a net absent from its circuit scope.
    UnknownStampNet { component: ComponentId, net: NetId },
    /// Two voltage-source stamps declare one branch-current identity.
    DuplicateStampBranch(crate::identity::BranchId),
    /// An instance references a device model absent from the circuit.
    UnknownInstanceModel { instance: CircuitInstanceId, model: DeviceModelId },
    /// An instance binds a pin absent from its device model.
    UnknownInstancePin { instance: CircuitInstanceId, pin: PinRef },
    /// An instance omits a required device-model pin.
    MissingRequiredInstancePin { instance: CircuitInstanceId, pin: PinRef },
    /// An instance binds one physical/logical pin more than once.
    DuplicateInstancePin { instance: CircuitInstanceId, pin: PinRef },
    /// An instance pin references a net absent from the circuit.
    UnknownInstanceNet { instance: CircuitInstanceId, pin: PinRef, net: NetId },
    /// More than one retained source stimulus targets the same component.
    DuplicateSourceStimulus(ComponentId),
    /// A source stimulus targets no circuit instance.
    UnknownSourceStimulusComponent(ComponentId),
    /// A source stimulus targets a device other than an independent source.
    InvalidSourceStimulusTarget(ComponentId),
    /// A piecewise-linear source stimulus has no points.
    EmptySourceWaveform(ComponentId),
    /// Piecewise-linear source times are not exactly and strictly increasing.
    NonIncreasingSourceWaveformTime(ComponentId),
    /// A pulse source has negative/indeterminate timing, a nonpositive period,
    /// or active durations longer than its period.
    InvalidPulseSourceWaveform(ComponentId),
    /// A sine source has negative or indeterminate frequency, delay, or damping.
    InvalidSineSourceWaveform(ComponentId),
    /// An exponential source has invalid delay ordering or nonpositive time constants.
    InvalidExponentialSourceWaveform(ComponentId),
    /// Two module-interface parameters share one name.
    DuplicateModuleParameter(String),
    /// A module parameter has blank metadata or no targets.
    InvalidModuleParameter(String),
    /// Two module parameters attempt to control one retained target.
    DuplicateModuleParameterTarget(CircuitModuleParameterTarget),
    /// A module parameter references an absent local object or parameter.
    UnknownModuleParameterTarget { parameter: String, target: CircuitModuleParameterTarget },
    /// A direct target's existing unit disagrees with its module interface.
    ModuleParameterUnitMismatch {
        parameter: String,
        target: CircuitModuleParameterTarget,
        expected: String,
        actual: String,
    },
    /// One child instance overrides the same parameter more than once.
    DuplicateSubcircuitParameterOverride { instance: SubcircuitInstanceId, parameter: String },
    /// A child parameter override has a blank name or provenance label.
    InvalidSubcircuitParameterOverride { instance: SubcircuitInstanceId, parameter: String },
    /// Authored manual stamps could become stale after module parameter substitution.
    ModuleParametersWithManualStamps,
}

/// Replayable structural validation of a declarative circuit graph.
#[derive(Clone, Debug, PartialEq, Eq)]
pub struct CircuitValidationReport {
    /// Every discovered issue in deterministic source order.
    pub issues: Vec<CircuitValidationIssue>,
}

impl CircuitValidationReport {
    /// True when the retained graph has no structural issues.
    pub fn is_valid(&self) -> (valid: bool)
        ensures
            valid == (self.issues@.len() == 0),
    {
        self.issues.len() == 0
    }
}

/// Exact MNA problem package.
#[derive(Clone, Debug, PartialEq)]
pub struct MnaProblem {
    /// Nets included in the MNA system.
    pub nets: Vec<NetId>,
    /// Exact linear stamps.
    pub stamps: Vec<LinearStamp>,
}

/// Circuit graph before solver lowering.
#[derive(Clone, Debug, PartialEq)]
pub struct Circuit {
    /// Circuit id.
    pub id: CircuitId,
    /// Nets.
    pub nets: Vec<Net>,
    /// Ordered named buses over retained nets.
    pub buses: Vec<Bus>,
    /// Named retained subsets of buses.
    pub bus_slices: Vec<BusSlice>,
    /// Supply/reference intent attached to retained nets.
    pub rails: Vec<RailIntent>,
    /// Named boundary ports for hierarchical composition.
    pub ports: Vec<CircuitPort>,
    /// Exact public parameters for reusable circuit instantiation.
    pub module_parameters: Vec<CircuitModuleParameter>,
    /// Device models.
    pub device_models: Vec<DeviceModel>,
    /// Instances.
    pub instances: Vec<CircuitInstance>,
    /// Time-dependent intent for independent voltage and current sources.
    pub source_stimuli: Vec<SourceStimulus>,
    /// Reusable child-circuit instances in this circuit scope.
    pub subcircuits: Vec<SubcircuitInstance>,
    /// Linear stamps prepared for MNA.
    pub stamps: Vec<LinearStamp>,
    /// Transient policy.
    pub transient_policy: TransientPolicy,
    /// Adapter family selected or proposed for this circuit.
    pub adapter_policy: AdapterKind,
}


impl Circuit {
    /// Creates an empty circuit with explicit transient and adapter policy.
    pub fn new(id: CircuitId, transient_policy: TransientPolicy, adapter_policy: AdapterKind) -> (circuit: Self)
        ensures
            circuit.id == id,
            circuit.transient_policy == transient_policy,
            circuit.adapter_policy == adapter_policy,
            circuit.nets@.len() == 0,
            circuit.buses@.len() == 0,
            circuit.bus_slices@.len() == 0,
            circuit.rails@.len() == 0,
            circuit.ports@.len() == 0,
            circuit.module_parameters@.len() == 0,
            circuit.device_models@.len() == 0,
            circuit.instances@.len() == 0,
            circuit.source_stimuli@.len() == 0,
            circuit.subcircuits@.len() == 0,
            circuit.stamps@.len() == 0,
    {
        Circuit {
            id,
            nets: Vec::new(),
            buses: Vec::new(),
            bus_slices: Vec::new(),
            rails: Vec::new(),
            ports: Vec::new(),
            module_parameters: Vec::new(),
            device_models: Vec::new(),
            instances: Vec::new(),
            source_stimuli: Vec::new(),
            subcircuits: Vec::new(),
            stamps: Vec::new(),
            transient_policy,
            adapter_policy,
        }
    }

    /// Adds one net.
    pub fn with_net(self, net: Net) -> (circuit: Self)
        ensures
            circuit.nets@ == self.nets@.push(net),
            circuit.id == self.id,
            circuit.buses == self.buses,
            circuit.bus_slices == self.bus_slices,
            circuit.rails == self.rails,
            circuit.ports == self.ports,
            circuit.module_parameters == self.module_parameters,
            circuit.device_models == self.device_models,
            circuit.instances == self.instances,
            circuit.source_stimuli == self.source_stimuli,
            circuit.subcircuits == self.subcircuits,
            circuit.stamps == self.stamps,
            circuit.transient_policy == self.transient_policy,
            circuit.adapter_policy == self.adapter_policy,
    {
        let mut circuit = self;
        circuit.nets.push(net);
        circuit
    }

    /// Adds one ordered bus.
    pub fn with_bus(self, bus: Bus) -> (circuit: Self)
        ensures
            circuit.buses@ == self.buses@.push(bus),
            circuit.id == self.id,
            circuit.nets == self.nets,
            circuit.bus_slices == self.bus_slices,
            circuit.rails == self.rails,
            circuit.ports == self.ports,
            circuit.module_parameters == self.module_parameters,
            circuit.device_models == self.device_models,
            circuit.instances == self.instances,
            circuit.source_stimuli == self.source_stimuli,
            circuit.subcircuits == self.subcircuits,
            circuit.stamps == self.stamps,
            circuit.transient_policy == self.transient_policy,
            circuit.adapter_policy == self.adapter_policy,
    {
        let mut circuit = self;
        circuit.buses.push(bus);
        circuit
    }

    /// Adds one named bus slice.
    pub fn with_bus_slice(self, slice: BusSlice) -> (circuit: Self)
        ensures
            circuit.bus_slices@ == self.bus_slices@.push(slice),
            circuit.id == self.id,
            circuit.nets == self.nets,
            circuit.buses == self.buses,
            circuit.rails == self.rails,
            circuit.ports == self.ports,
            circuit.module_parameters == self.module_parameters,
            circuit.device_models == self.device_models,
            circuit.instances == self.instances,
            circuit.source_stimuli == self.source_stimuli,
            circuit.subcircuits == self.subcircuits,
            circuit.stamps == self.stamps,
            circuit.transient_policy == self.transient_policy,
            circuit.adapter_policy == self.adapter_policy,
    {
        let mut circuit = self;
        circuit.bus_slices.push(slice);
        circuit
    }

    /// Adds exact voltage/current intent for one rail net.
    pub fn with_rail(self, rail: RailIntent) -> (circuit: Self)
        ensures
            circuit.rails@ == self.rails@.push(rail),
            circuit.id == self.id,
            circuit.nets == self.nets,
            circuit.buses == self.buses,
            circuit.bus_slices == self.bus_slices,
            circuit.ports == self.ports,
            circuit.module_parameters == self.module_parameters,
            circuit.device_models == self.device_models,
            circuit.instances == self.instances,
            circuit.source_stimuli == self.source_stimuli,
            circuit.subcircuits == self.subcircuits,
            circuit.stamps == self.stamps,
            circuit.transient_policy == self.transient_policy,
            circuit.adapter_policy == self.adapter_policy,
    {
        let mut circuit = self;
        circuit.rails.push(rail);
        circuit
    }

    /// Adds one circuit-boundary port.
    pub fn with_port(self, port: CircuitPort) -> (circuit: Self)
        ensures
            circuit.ports@ == self.ports@.push(port),
            circuit.id == self.id,
            circuit.nets == self.nets,
            circuit.buses == self.buses,
            circuit.bus_slices == self.bus_slices,
            circuit.rails == self.rails,
            circuit.module_parameters == self.module_parameters,
            circuit.device_models == self.device_models,
            circuit.instances == self.instances,
            circuit.source_stimuli == self.source_stimuli,
            circuit.subcircuits == self.subcircuits,
            circuit.stamps == self.stamps,
            circuit.transient_policy == self.transient_policy,
            circuit.adapter_policy == self.adapter_policy,
    {
        let mut circuit = self;
        circuit.ports.push(port);
        circuit
    }

    /// Declares one exact, unit-checked reusable-module parameter.
    pub fn with_module_parameter(self, parameter: CircuitModuleParameter) -> (circuit: Self)
        ensures
            circuit.module_parameters@ == self.module_parameters@.push(parameter),
            circuit.id == self.id,
            circuit.nets == self.nets,
            circuit.buses == self.buses,
            circuit.bus_slices == self.bus_slices,
            circuit.rails == self.rails,
            circuit.ports == self.ports,
            circuit.device_models == self.device_models,
            circuit.instances == self.instances,
            circuit.source_stimuli == self.source_stimuli,
            circuit.subcircuits == self.subcircuits,
            circuit.stamps == self.stamps,
            circuit.transient_policy == self.transient_policy,
            circuit.adapter_policy == self.adapter_policy,
    {
        let mut circuit = self;
        circuit.module_parameters.push(parameter);
        circuit
    }

    /// Adds one device model.
    pub fn with_device_model(self, model: DeviceModel) -> (circuit: Self)
        ensures
            circuit.device_models@ == self.device_models@.push(model),
            circuit.id == self.id,
            circuit.nets == self.nets,
            circuit.buses == self.buses,
            circuit.bus_slices == self.bus_slices,
            circuit.rails == self.rails,
            circuit.ports == self.ports,
            circuit.module_parameters == self.module_parameters,
            circuit.instances == self.instances,
            circuit.source_stimuli == self.source_stimuli,
            circuit.subcircuits == self.subcircuits,
            circuit.stamps == self.stamps,
            circuit.transient_policy == self.transient_policy,
            circuit.adapter_policy == self.adapter_policy,
    {
        let mut circuit = self;
        circuit.device_models.push(model);
        circuit
    }

    /// Adds one instance.
    pub fn with_instance(self, instance: CircuitInstance) -> (circuit: Self)
        ensures
            circuit.instances@ == self.instances@.push(instance),
            circuit.id == self.id,
            circuit.nets == self.nets,
            circuit.buses == self.buses,
            circuit.bus_slices == self.bus_slices,
            circuit.rails == self.rails,
            circuit.ports == self.ports,
            circuit.module_parameters == self.module_parameters,
            circuit.device_models == self.device_models,
            circuit.source_stimuli == self.source_stimuli,
            circuit.subcircuits == self.subcircuits,
            circuit.stamps == self.stamps,
            circuit.transient_policy == self.transient_policy,
            circuit.adapter_policy == self.adapter_policy,
    {
        let mut circuit = self;
        circuit.instances.push(instance);
        circuit
    }

    /// Adds a retained waveform for one independent-source component.
    pub fn with_source_stimulus(self, stimulus: SourceStimulus) -> (circuit: Self)
        ensures
            circuit.source_stimuli@ == self.source_stimuli@.push(stimulus),
            circuit.id == self.id,
            circuit.nets == self.nets,
            circuit.buses == self.buses,
            circuit.bus_slices == self.bus_slices,
            circuit.rails == self.rails,
            circuit.ports == self.ports,
            circuit.module_parameters == self.module_parameters,
            circuit.device_models == self.device_models,
            circuit.instances == self.instances,
            circuit.subcircuits == self.subcircuits,
            circuit.stamps == self.stamps,
            circuit.transient_policy == self.transient_policy,
            circuit.adapter_policy == self.adapter_policy,
    {
        let mut circuit = self;
        circuit.source_stimuli.push(stimulus);
        circuit
    }

    /// Instantiates one reusable child circuit.
    pub fn with_subcircuit(self, instance: SubcircuitInstance) -> (circuit: Self)
        ensures
            circuit.subcircuits@ == self.subcircuits@.push(instance),
            circuit.id == self.id,
            circuit.nets == self.nets,
            circuit.buses == self.buses,
            circuit.bus_slices == self.bus_slices,
            circuit.rails == self.rails,
            circuit.ports == self.ports,
            circuit.module_parameters == self.module_parameters,
            circuit.device_models == self.device_models,
            circuit.instances == self.instances,
            circuit.source_stimuli == self.source_stimuli,
            circuit.stamps == self.stamps,
            circuit.transient_policy == self.transient_policy,
            circuit.adapter_policy == self.adapter_policy,
    {
        let mut circuit = self;
        circuit.subcircuits.push(instance);
        circuit
    }

    /// Adds one exact linear stamp.
    pub fn with_stamp(self, stamp: LinearStamp) -> (circuit: Self)
        ensures
            circuit.stamps@ == self.stamps@.push(stamp),
            circuit.id == self.id,
            circuit.nets == self.nets,
            circuit.buses == self.buses,
            circuit.bus_slices == self.bus_slices,
            circuit.rails == self.rails,
            circuit.ports == self.ports,
            circuit.module_parameters == self.module_parameters,
            circuit.device_models == self.device_models,
            circuit.instances == self.instances,
            circuit.source_stimuli == self.source_stimuli,
            circuit.subcircuits == self.subcircuits,
            circuit.transient_policy == self.transient_policy,
            circuit.adapter_policy == self.adapter_policy,
    {
        let mut circuit = self;
        circuit.stamps.push(stamp);
        circuit
    }
}


/// True when some net of the sequence has the given id text.
pub open spec fn has_net_id(nets: Seq<Net>, id: Seq<char>) -> bool {
    exists|k: int| 0 <= k < nets.len() && #[trigger] nets[k].id@ == id
}

/// `index` is the first instance whose id text is `id`.
pub open spec fn is_first_instance(instances: Seq<CircuitInstance>, id: Seq<char>, index: int) -> bool {
    &&& 0 <= index < instances.len()
    &&& instances[index].id@ == id
    &&& forall|k: int| 0 <= k < index ==> #[trigger] instances[k].id@ != id
}

/// True when some binding of the sequence binds the given pin text.
pub open spec fn binds_pin(bindings: Seq<PinBinding>, pin: Seq<char>) -> bool {
    exists|k: int| 0 <= k < bindings.len() && #[trigger] bindings[k].pin@ == pin
}

/// True when some net of `nets` has the id text of `id`.
pub fn contains_net_id(nets: &Vec<Net>, id: &NetId) -> (found: bool)
    ensures
        found == has_net_id(nets@, id@),
{
    let mut k: usize = 0;
    while k < nets.len()
        invariant
            k <= nets@.len(),
            forall|j: int| 0 <= j < k ==> #[trigger] nets@[j].id@ != id@,
        decreases nets@.len() - k,
    {
        if nets[k].id.same(id) {
            return true;
        }
        k = k + 1;
    }
    false
}

/// Index of the first instance with the id text of `id`.
pub fn find_instance(instances: &Vec<CircuitInstance>, id: &CircuitInstanceId) -> (found: Option<usize>)
    ensures
        match found {
            Some(index) => is_first_instance(instances@, id@, index as int),
            None => forall|k: int| 0 <= k < instances@.len() ==> #[trigger] instances@[k].id@ != id@,
        },
{
    let mut k: usize = 0;
    while k < instances.len()
        invariant
            k <= instances@.len(),
            forall|j: int| 0 <= j < k ==> #[trigger] instances@[j].id@ != id@,
        decreases instances@.len() - k,
    {
        if instances[k].id.same(id) {
            return Some(k);
        }
        k = k + 1;
    }
    None
}

/// True when some binding binds the pin text of `pin`.
pub fn binds_pin_exec(bindings: &Vec<PinBinding>, pin: &PinRef) -> (found: bool)
    ensures
        found == binds_pin(bindings@, pin@),
{
    let mut k: usize = 0;
    while k < bindings.len()
        invariant
            k <= bindings@.len(),
            forall|j: int| 0 <= j < k ==> #[trigger] bindings@[j].pin@ != pin@,
        decreases bindings@.len() - k,
    {
        if bindings[k].pin.same(pin) {
            return true;
        }
        k = k + 1;
    }
    false
}

impl Circuit {
    /// Connects an instance pin to a retained circuit net.
    ///
    /// The method changes only declarative topology. Simulation stamps remain a
    /// separate lowering product so editing connectivity cannot silently leave
    /// an accepted numerical equation behind.
    pub fn connect_pin(&mut self, instance: &CircuitInstanceId, pin: PinRef, net: &NetId) -> (result: CircuitResult<()>)
        ensures
            !has_net_id(old(self).nets@, net@) ==> result == Err::<(), CircuitError>(
                CircuitError::MissingConnectionNet,
            ),
            has_net_id(old(self).nets@, net@) && (forall|k: int|
                0 <= k < old(self).instances@.len() ==> #[trigger] old(self).instances@[k].id@
                    != instance@) ==> result == Err::<(), CircuitError>(CircuitError::MissingInstance),
            forall|index: int|
                has_net_id(old(self).nets@, net@) && is_first_instance(
                    old(self).instances@,
                    instance@,
                    index,
                ) ==> {
                    if binds_pin(old(self).instances@[index].pins@, pin@) {
                        result == Err::<(), CircuitError>(CircuitError::DuplicatePinBinding)
                    } else {
                        &&& result == Ok::<(), CircuitError>(())
                        &&& final(self).instances@.len() == old(self).instances@.len()
                        &&& forall|k: int|
                            0 <= k < old(self).instances@.len() && k != index
                                ==> #[trigger] final(self).instances@[k] == old(self).instances@[k]
                        &&& final(self).instances@[index].pins@ == old(self).instances@[index].pins@.push(
                            PinBinding { pin: pin, net: *net },
                        )
                        &&& final(self).instances@[index].id == old(self).instances@[index].id
                        &&& final(self).instances@[index].component == old(self).instances@[index].component
                        &&& final(self).instances@[index].part == old(self).instances@[index].part
                        &&& final(self).instances@[index].model == old(self).instances@[index].model
                        &&& final(self).instances@[index].parameters == old(self).instances@[index].parameters
                        &&& final(self).id == old(self).id
                        &&& final(self).nets == old(self).nets
                        &&& final(self).buses == old(self).buses
                        &&& final(self).bus_slices == old(self).bus_slices
                        &&& final(self).rails == old(self).rails
                        &&& final(self).ports == old(self).ports
                        &&& final(self).module_parameters == old(self).module_parameters
                        &&& final(self).device_models == old(self).device_models
                        &&& final(self).source_stimuli == old(self).source_stimuli
                        &&& final(self).subcircuits == old(self).subcircuits
                        &&& final(self).stamps == old(self).stamps
                        &&& final(self).transient_policy == old(self).transient_policy
                        &&& final(self).adapter_policy == old(self).adapter_policy
                    }
                },
            result is Err ==> *final(self) == *old(self),
    {
        if !contains_net_id(&self.nets, net) {
            return Err(CircuitError::MissingConnectionNet);
        }
        let index = match find_instance(&self.instances, instance) {
            Some(index) => index,
            None => return Err(CircuitError::MissingInstance),
        };
        if binds_pin_exec(&self.instances[index].pins, &pin) {
            return Err(CircuitError::DuplicatePinBinding);
        }
        let ghost before = self.instances@;
        let mut target = self.instances.remove(index);
        target.pins.push(PinBinding { pin, net: net.clone() });
        self.instances.insert(index, target);
        proof {
            assert forall|k: int| 0 <= k < before.len() && k != index implies #[trigger] self.instances@[k]
                == before[k] by {
                if k < index {
                } else {
                }
            }
        }
        Ok(())
    }
}


/// Identities of the non-ground nets, in declaration order.
pub open spec fn non_ground_net_ids(nets: Seq<Net>) -> Seq<NetId>
    decreases nets.len(),
{
    if nets.len() == 0 {
        Seq::empty()
    } else {
        let earlier = non_ground_net_ids(nets.drop_last());
        if nets.last().is_ground {
            earlier
        } else {
            earlier.push(nets.last().id)
        }
    }
}

impl Circuit {
    /// Builds the exact dense MNA system for non-ground nets and linear stamps.
    pub fn linear_mna_system(&self) -> (result: CircuitResult<LinearMnaSystem>)
        requires
            non_ground_net_ids(self.nets@).len() + voltage_branches(self.stamps@).len() <= usize::MAX,
        ensures
            match spec_from_stamps(non_ground_net_ids(self.nets@), self.stamps@) {
                Err(error) => result == Err::<LinearMnaSystem, CircuitError>(error),
                Ok(expected) => result matches Ok(system) && system.unknowns@ == expected.0
                    && matrix_view(system.matrix@) == expected.1 && system.rhs@ == expected.2,
            },
    {
        let mut nets: Vec<NetId> = Vec::new();
        let mut k: usize = 0;
        while k < self.nets.len()
            invariant
                k <= self.nets@.len(),
                nets@ == non_ground_net_ids(self.nets@.take(k as int)),
            decreases self.nets@.len() - k,
        {
            proof {
                assert(self.nets@.take(k + 1).drop_last() =~= self.nets@.take(k as int));
            }
            if !self.nets[k].is_ground {
                nets.push(self.nets[k].id.clone());
            }
            k = k + 1;
        }
        proof {
            assert(self.nets@.take(self.nets@.len() as int) =~= self.nets@);
        }
        LinearMnaSystem::from_stamps(nets, self.stamps.as_slice())
    }
}

impl MnaProblem {
    /// Lowers this exact problem package to a dense MNA system.
    pub fn to_linear_system(&self) -> (result: CircuitResult<LinearMnaSystem>)
        requires
            self.nets@.len() + voltage_branches(self.stamps@).len() <= usize::MAX,
        ensures
            match spec_from_stamps(self.nets@, self.stamps@) {
                Err(error) => result == Err::<LinearMnaSystem, CircuitError>(error),
                Ok(expected) => result matches Ok(system) && system.unknowns@ == expected.0
                    && matrix_view(system.matrix@) == expected.1 && system.rhs@ == expected.2,
            },
    {
        let mut nets: Vec<NetId> = Vec::new();
        let mut k: usize = 0;
        while k < self.nets.len()
            invariant
                k <= self.nets@.len(),
                nets@ == self.nets@.take(k as int),
            decreases self.nets@.len() - k,
        {
            nets.push(self.nets[k].clone());
            k = k + 1;
            proof {
                assert(nets@ =~= self.nets@.take(k as int));
            }
        }
        proof {
            assert(nets@ =~= self.nets@);
        }
        LinearMnaSystem::from_stamps(nets, self.stamps.as_slice())
    }
}

} // verus!
