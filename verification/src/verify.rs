//! Verification rule vocabulary: the closed set of rule ids, each rule's default severity and
//! summary, the catalog, which rules a set of contracts puts in force, and the located findings and
//! report a verification pass produces.
//!
//! The segment-by-segment checks themselves compare floating-point quantities and live with the
//! floating-point toolpath model; this module holds everything about a verification result that is
//! decided on plain values.
use crate::ir::SegmentKind;
use crate::report::LicenseStamp;
use crate::text::string_from_str;
use vstd::prelude::*;

verus! {

/// How serious a finding is.
#[derive(Debug, Clone, Copy, PartialEq, Eq, Structural)]
pub enum Severity {
    /// The toolpath is unsafe / invalid.
    Error,
    /// Suspicious but not necessarily fatal.
    Warning,
}

/// The closed set of verification rule ids, the single source of truth for the rule vocabulary.
///
/// A rule is an error unless it is a process/quality advisory (stringing, first-layer adhesion, an IR
/// classification the controller does not act on) rather than a machine-safety or
/// geometric-validity violation.
#[derive(Debug, Clone, Copy, PartialEq, Eq, Structural)]
pub enum RuleId {
    /// A quantity is non-finite (NaN/inf).
    Finite,
    /// A travel move deposits material.
    TravelExtrudes,
    /// An extruding move has a non-positive bead (width/height).
    Bead,
    /// The toolframe orientation is not a unit vector.
    OrientationNotUnit,
    /// An arc's endpoint radius disagrees with its start radius (or the arc is malformed).
    ArcRadius,
    /// A move leaves the build volume.
    Bounds,
    /// Volumetric flow exceeds the ceiling.
    MaxFlow,
    /// An extruding feedrate is outside the allowed range.
    Speed,
    /// Z decreases where it must be non-decreasing.
    MonotonicZ,
    /// Extruding below the minimum nozzle temperature (or with none set).
    ColdExtrusion,
    /// A retraction distance exceeds the limit.
    RetractionDistance,
    /// A pure retraction/unretraction speed exceeds the limit.
    RetractionSpeed,
    /// A travel run exceeds the allowed distance without a retraction (stringing risk, advisory).
    TravelWithoutRetraction,
    /// First-layer height is outside the allowed range (adhesion, advisory).
    FirstLayerHeight,
    /// First-layer speed is outside the allowed range (adhesion, advisory).
    FirstLayerSpeed,
    /// An arc's centripetal acceleration exceeds the machine's max acceleration.
    PeakAcceleration,
    /// A junction is entered faster than its direction change allows.
    JunctionVelocity,
    /// Verbatim or imported G-code is preserved but not semantically verified.
    UnmodeledGcode,
    /// A segment starts somewhere other than where the previous one ended.
    Continuity,
    /// A quantity that cannot be negative is (length, volume, speed, power), or a bead dimension is not positive.
    NegativeQuantity,
    /// A straight or stationary segment's declared length disagrees with its own endpoints.
    SegmentLength,
    /// An arc's declared length disagrees with its radius and swept angle.
    ArcLength,
    /// The volume-to-filament ratio changes within one tool.
    FilamentConsistency,
    /// Deposited volume disagrees with the bead geometry (length x width x height x flow).
    BeadVolume,
    /// A commanded rotary word is outside its axis's travel range.
    RotaryTravel,
    /// A rotary axis would have to turn faster than its rate limit to keep up with the move.
    RotaryFeed,
    /// The machine position an orientation implies is outside the machine's reachable envelope.
    OrientationReachability,
    /// The spindle or laser power is active (> 0) during a rapid traversal move (travel: true).
    LaserPowerDuringTravel,
}

/// One rule's catalog entry.
#[derive(Debug, Clone, Copy)]
pub struct Rule {
    pub id: RuleId,
    pub severity: Severity,
    pub summary: &'static str,
}

/// Every rule, in catalog order.
pub open spec fn all_rules() -> Seq<RuleId> {
    seq![
        RuleId::Finite,
        RuleId::TravelExtrudes,
        RuleId::Bead,
        RuleId::OrientationNotUnit,
        RuleId::ArcRadius,
        RuleId::Bounds,
        RuleId::MaxFlow,
        RuleId::Speed,
        RuleId::MonotonicZ,
        RuleId::ColdExtrusion,
        RuleId::RetractionDistance,
        RuleId::RetractionSpeed,
        RuleId::TravelWithoutRetraction,
        RuleId::FirstLayerHeight,
        RuleId::FirstLayerSpeed,
        RuleId::PeakAcceleration,
        RuleId::JunctionVelocity,
        RuleId::UnmodeledGcode,
        RuleId::Continuity,
        RuleId::NegativeQuantity,
        RuleId::SegmentLength,
        RuleId::ArcLength,
        RuleId::FilamentConsistency,
        RuleId::BeadVolume,
        RuleId::RotaryTravel,
        RuleId::RotaryFeed,
        RuleId::OrientationReachability,
        RuleId::LaserPowerDuringTravel,
    ]
}

/// The stable kebab-case wire id of a rule.
pub open spec fn spec_wire(r: RuleId) -> Seq<char> {
    match r {
        RuleId::Finite => "finite"@,
        RuleId::TravelExtrudes => "travel-extrudes"@,
        RuleId::Bead => "bead"@,
        RuleId::OrientationNotUnit => "orientation-not-unit"@,
        RuleId::ArcRadius => "arc-radius"@,
        RuleId::Bounds => "bounds"@,
        RuleId::MaxFlow => "max-flow"@,
        RuleId::Speed => "speed"@,
        RuleId::MonotonicZ => "monotonic-z"@,
        RuleId::ColdExtrusion => "cold-extrusion"@,
        RuleId::RetractionDistance => "retraction-distance"@,
        RuleId::RetractionSpeed => "retraction-speed"@,
        RuleId::TravelWithoutRetraction => "travel-without-retraction"@,
        RuleId::FirstLayerHeight => "first-layer-height"@,
        RuleId::FirstLayerSpeed => "first-layer-speed"@,
        RuleId::PeakAcceleration => "peak-acceleration"@,
        RuleId::JunctionVelocity => "junction-velocity"@,
        RuleId::UnmodeledGcode => "unmodeled-gcode"@,
        RuleId::Continuity => "continuity"@,
        RuleId::NegativeQuantity => "negative-quantity"@,
        RuleId::SegmentLength => "segment-length"@,
        RuleId::ArcLength => "arc-length"@,
        RuleId::FilamentConsistency => "filament-consistency"@,
        RuleId::BeadVolume => "bead-volume"@,
        RuleId::RotaryTravel => "rotary-travel"@,
        RuleId::RotaryFeed => "rotary-feed"@,
        RuleId::OrientationReachability => "orientation-reachability"@,
        RuleId::LaserPowerDuringTravel => "laser-power-during-travel"@,
    }
}

/// A rule's default severity: the process/quality advisories are warnings, everything else errors.
pub open spec fn spec_default_severity(r: RuleId) -> Severity {
    match r {
        RuleId::Finite => Severity::Error,
        RuleId::TravelExtrudes => Severity::Warning,
        RuleId::Bead => Severity::Error,
        RuleId::OrientationNotUnit => Severity::Error,
        RuleId::ArcRadius => Severity::Error,
        RuleId::Bounds => Severity::Error,
        RuleId::MaxFlow => Severity::Error,
        RuleId::Speed => Severity::Error,
        RuleId::MonotonicZ => Severity::Error,
        RuleId::ColdExtrusion => Severity::Error,
        RuleId::RetractionDistance => Severity::Error,
        RuleId::RetractionSpeed => Severity::Error,
        RuleId::TravelWithoutRetraction => Severity::Warning,
        RuleId::FirstLayerHeight => Severity::Warning,
        RuleId::FirstLayerSpeed => Severity::Warning,
        RuleId::PeakAcceleration => Severity::Error,
        RuleId::JunctionVelocity => Severity::Warning,
        RuleId::UnmodeledGcode => Severity::Warning,
        RuleId::Continuity => Severity::Error,
        RuleId::NegativeQuantity => Severity::Error,
        RuleId::SegmentLength => Severity::Error,
        RuleId::ArcLength => Severity::Error,
        RuleId::FilamentConsistency => Severity::Warning,
        RuleId::BeadVolume => Severity::Error,
        RuleId::RotaryTravel => Severity::Error,
        RuleId::RotaryFeed => Severity::Warning,
        RuleId::OrientationReachability => Severity::Error,
        RuleId::LaserPowerDuringTravel => Severity::Error,
    }
}

/// A rule's one-line human summary.
pub open spec fn spec_summary(r: RuleId) -> Seq<char> {
    match r {
        RuleId::Finite => "a quantity is non-finite (NaN or infinite)"@,
        RuleId::TravelExtrudes => "a travel (non-printing) move deposits material"@,
        RuleId::Bead => "an extruding move has a non-positive bead width or height"@,
        RuleId::OrientationNotUnit => "the toolframe orientation vector is not unit length"@,
        RuleId::ArcRadius => "an arc's endpoint radius disagrees with its start radius"@,
        RuleId::Bounds => "a move leaves the build volume"@,
        RuleId::MaxFlow => "volumetric flow exceeds the configured ceiling"@,
        RuleId::Speed => "an extruding feedrate is outside the allowed range"@,
        RuleId::MonotonicZ => "Z decreases where it is required to be non-decreasing"@,
        RuleId::ColdExtrusion => "extruding below the minimum nozzle temperature"@,
        RuleId::RetractionDistance => "a retraction distance exceeds the limit"@,
        RuleId::RetractionSpeed => "a retraction or unretraction speed exceeds the limit"@,
        RuleId::TravelWithoutRetraction => "a travel run exceeds the allowed distance without a retraction"@,
        RuleId::FirstLayerHeight => "the first-layer height is outside the allowed range"@,
        RuleId::FirstLayerSpeed => "the first-layer speed is outside the allowed range"@,
        RuleId::PeakAcceleration => "an arc's centripetal acceleration exceeds the machine's max acceleration"@,
        RuleId::JunctionVelocity => "a junction is entered faster than its direction change allows"@,
        RuleId::UnmodeledGcode => "verbatim or imported G-code is preserved but not semantically verified"@,
        RuleId::Continuity => "a segment starts somewhere other than where the previous one ended"@,
        RuleId::NegativeQuantity => "a length, volume, speed or commanded spindle/laser power is negative, or a bead dimension is not positive"@,
        RuleId::SegmentLength => "a straight or stationary segment's length disagrees with its own endpoints"@,
        RuleId::ArcLength => "an arc's length disagrees with its radius and swept angle"@,
        RuleId::FilamentConsistency => "the volume-to-filament ratio changes within a single tool"@,
        RuleId::BeadVolume => "deposited volume disagrees with the bead geometry (length x width x height x flow)"@,
        RuleId::RotaryTravel => "a rotary axis is commanded outside its travel range"@,
        RuleId::RotaryFeed => "a rotary axis would have to turn faster than its rate limit to keep up with the move"@,
        RuleId::OrientationReachability => "an orientation puts the tool outside the machine's reachable envelope"@,
        RuleId::LaserPowerDuringTravel => "spindle or laser power is active (> 0) during a rapid traversal move"@,
    }
}

/// The first rule of `rules` whose wire id is `s`.
pub open spec fn first_with_wire(rules: Seq<RuleId>, s: Seq<char>) -> Option<RuleId>
    decreases rules.len(),
{
    if rules.len() == 0 {
        None
    } else if spec_wire(rules[0]) == s {
        Some(rules[0])
    } else {
        first_with_wire(rules.drop_first(), s)
    }
}

/// The rule a wire id names, if any.
pub open spec fn spec_from_wire(s: Seq<char>) -> Option<RuleId> {
    first_with_wire(all_rules(), s)
}

/// Which gating contracts are usable, i.e. set to a value that can actually decide something.
///
/// A contract holding a non-finite number is not in force: every comparison against `NaN` is false,
/// and an infinite ceiling is indistinguishable from none.
#[derive(Debug, Clone, Copy, Default, PartialEq, Eq, Structural)]
pub struct ContractGates {
    /// True when the build volume is set and all six of its numbers are finite.
    pub bounds: bool,
    /// True when the flow ceiling is set and finite.
    pub max_flow: bool,
    /// True when the extruding feedrate range is set and both ends are finite.
    pub speed_range: bool,
    /// True when non-decreasing Z is required.
    pub monotonic_z: bool,
    /// True when the minimum nozzle temperature is set and finite.
    pub min_temp: bool,
    /// True when the retraction distance limit is set and finite.
    pub max_retraction_distance: bool,
    /// True when the retraction speed limit is set and finite.
    pub max_retraction_speed: bool,
    /// True when the travel-without-retraction limit is set and finite.
    pub max_travel_without_retract: bool,
    /// True when the first-layer height range is set and both ends are finite.
    pub first_layer_height_range: bool,
    /// True when the first-layer speed range is set and both ends are finite.
    pub first_layer_speed_range: bool,
    /// True when the bead-volume tolerance is set and finite.
    pub bead_volume_tolerance: bool,
    /// True when a kinematic contract with a finite maximum acceleration is set.
    pub max_acceleration: bool,
    /// True when a kinematic contract with a finite square-corner velocity is set.
    pub max_junction_velocity: bool,
    /// True when a rotary contract constrains the travel of at least one axis.
    pub rotary_travel: bool,
    /// True when a rotary contract sets a maximum rotary feed.
    pub rotary_feed: bool,
    /// True when a rotary contract sets a reachable envelope.
    pub rotary_envelope: bool,
    /// True when the profile requires travels to be dark.
    pub travel_must_be_dark: bool,
}

/// Whether `r` is evaluated under `g`: structural rules always are, every other rule exactly when its
/// gating contract is in force.
pub open spec fn spec_is_evaluated(r: RuleId, g: ContractGates) -> bool {
    match r {
        RuleId::Finite => true,
        RuleId::TravelExtrudes => true,
        RuleId::Bead => true,
        RuleId::OrientationNotUnit => true,
        RuleId::ArcRadius => true,
        RuleId::Bounds => g.bounds,
        RuleId::MaxFlow => g.max_flow,
        RuleId::Speed => g.speed_range,
        RuleId::MonotonicZ => g.monotonic_z,
        RuleId::ColdExtrusion => g.min_temp,
        RuleId::RetractionDistance => g.max_retraction_distance,
        RuleId::RetractionSpeed => g.max_retraction_speed,
        RuleId::TravelWithoutRetraction => g.max_travel_without_retract,
        RuleId::FirstLayerHeight => g.first_layer_height_range,
        RuleId::FirstLayerSpeed => g.first_layer_speed_range,
        RuleId::PeakAcceleration => g.max_acceleration,
        RuleId::JunctionVelocity => g.max_junction_velocity,
        RuleId::UnmodeledGcode => true,
        RuleId::Continuity => true,
        RuleId::NegativeQuantity => true,
        RuleId::SegmentLength => true,
        RuleId::ArcLength => true,
        RuleId::FilamentConsistency => true,
        RuleId::BeadVolume => g.bead_volume_tolerance,
        RuleId::RotaryTravel => g.rotary_travel,
        RuleId::RotaryFeed => g.rotary_feed,
        RuleId::OrientationReachability => g.rotary_envelope,
        RuleId::LaserPowerDuringTravel => g.travel_must_be_dark,
    }
}

/// The rules of `rules` that are evaluated under `g`, in order.
pub open spec fn evaluated_rules(rules: Seq<RuleId>, g: ContractGates) -> Seq<RuleId>
    decreases rules.len(),
{
    if rules.len() == 0 {
        Seq::empty()
    } else if spec_is_evaluated(rules.last(), g) {
        evaluated_rules(rules.drop_last(), g).push(rules.last())
    } else {
        evaluated_rules(rules.drop_last(), g)
    }
}

/// The always-on structural rules, in catalog order.
pub open spec fn structural_rules() -> Seq<RuleId> {
    seq![
        RuleId::Finite,
        RuleId::TravelExtrudes,
        RuleId::Bead,
        RuleId::OrientationNotUnit,
        RuleId::ArcRadius,
        RuleId::UnmodeledGcode,
        RuleId::Continuity,
        RuleId::NegativeQuantity,
        RuleId::SegmentLength,
        RuleId::ArcLength,
        RuleId::FilamentConsistency,
    ]
}

impl RuleId {
    /// Every rule, in catalog order.
    pub const ALL: [RuleId; 28] = [
        RuleId::Finite,
        RuleId::TravelExtrudes,
        RuleId::Bead,
        RuleId::OrientationNotUnit,
        RuleId::ArcRadius,
        RuleId::Bounds,
        RuleId::MaxFlow,
        RuleId::Speed,
        RuleId::MonotonicZ,
        RuleId::ColdExtrusion,
        RuleId::RetractionDistance,
        RuleId::RetractionSpeed,
        RuleId::TravelWithoutRetraction,
        RuleId::FirstLayerHeight,
        RuleId::FirstLayerSpeed,
        RuleId::PeakAcceleration,
        RuleId::JunctionVelocity,
        RuleId::UnmodeledGcode,
        RuleId::Continuity,
        RuleId::NegativeQuantity,
        RuleId::SegmentLength,
        RuleId::ArcLength,
        RuleId::FilamentConsistency,
        RuleId::BeadVolume,
        RuleId::RotaryTravel,
        RuleId::RotaryFeed,
        RuleId::OrientationReachability,
        RuleId::LaserPowerDuringTravel,
    ];

    /// The stable kebab-case wire id.
    pub fn as_str(self) -> (s: &'static str)
        ensures
            s@ == spec_wire(self),
    {
        match self {
            RuleId::Finite => "finite",
            RuleId::TravelExtrudes => "travel-extrudes",
            RuleId::Bead => "bead",
            RuleId::OrientationNotUnit => "orientation-not-unit",
            RuleId::ArcRadius => "arc-radius",
            RuleId::Bounds => "bounds",
            RuleId::MaxFlow => "max-flow",
            RuleId::Speed => "speed",
            RuleId::MonotonicZ => "monotonic-z",
            RuleId::ColdExtrusion => "cold-extrusion",
            RuleId::RetractionDistance => "retraction-distance",
            RuleId::RetractionSpeed => "retraction-speed",
            RuleId::TravelWithoutRetraction => "travel-without-retraction",
            RuleId::FirstLayerHeight => "first-layer-height",
            RuleId::FirstLayerSpeed => "first-layer-speed",
            RuleId::PeakAcceleration => "peak-acceleration",
            RuleId::JunctionVelocity => "junction-velocity",
            RuleId::UnmodeledGcode => "unmodeled-gcode",
            RuleId::Continuity => "continuity",
            RuleId::NegativeQuantity => "negative-quantity",
            RuleId::SegmentLength => "segment-length",
            RuleId::ArcLength => "arc-length",
            RuleId::FilamentConsistency => "filament-consistency",
            RuleId::BeadVolume => "bead-volume",
            RuleId::RotaryTravel => "rotary-travel",
            RuleId::RotaryFeed => "rotary-feed",
            RuleId::OrientationReachability => "orientation-reachability",
            RuleId::LaserPowerDuringTravel => "laser-power-during-travel",
        }
    }

    /// The rule's default severity.
    pub fn default_severity(self) -> (s: Severity)
        ensures
            s == spec_default_severity(self),
    {
        match self {
            RuleId::Finite => Severity::Error,
            RuleId::TravelExtrudes => Severity::Warning,
            RuleId::Bead => Severity::Error,
            RuleId::OrientationNotUnit => Severity::Error,
            RuleId::ArcRadius => Severity::Error,
            RuleId::Bounds => Severity::Error,
            RuleId::MaxFlow => Severity::Error,
            RuleId::Speed => Severity::Error,
            RuleId::MonotonicZ => Severity::Error,
            RuleId::ColdExtrusion => Severity::Error,
            RuleId::RetractionDistance => Severity::Error,
            RuleId::RetractionSpeed => Severity::Error,
            RuleId::TravelWithoutRetraction => Severity::Warning,
            RuleId::FirstLayerHeight => Severity::Warning,
            RuleId::FirstLayerSpeed => Severity::Warning,
            RuleId::PeakAcceleration => Severity::Error,
            RuleId::JunctionVelocity => Severity::Warning,
            RuleId::UnmodeledGcode => Severity::Warning,
            RuleId::Continuity => Severity::Error,
            RuleId::NegativeQuantity => Severity::Error,
            RuleId::SegmentLength => Severity::Error,
            RuleId::ArcLength => Severity::Error,
            RuleId::FilamentConsistency => Severity::Warning,
            RuleId::BeadVolume => Severity::Error,
            RuleId::RotaryTravel => Severity::Error,
            RuleId::RotaryFeed => Severity::Warning,
            RuleId::OrientationReachability => Severity::Error,
            RuleId::LaserPowerDuringTravel => Severity::Error,
        }
    }

    /// A one-line human summary for the catalog/docs.
    pub fn summary(self) -> (s: &'static str)
        ensures
            s@ == spec_summary(self),
    {
        match self {
            RuleId::Finite => "a quantity is non-finite (NaN or infinite)",
            RuleId::TravelExtrudes => "a travel (non-printing) move deposits material",
            RuleId::Bead => "an extruding move has a non-positive bead width or height",
            RuleId::OrientationNotUnit => "the toolframe orientation vector is not unit length",
            RuleId::ArcRadius => "an arc's endpoint radius disagrees with its start radius",
            RuleId::Bounds => "a move leaves the build volume",
            RuleId::MaxFlow => "volumetric flow exceeds the configured ceiling",
            RuleId::Speed => "an extruding feedrate is outside the allowed range",
            RuleId::MonotonicZ => "Z decreases where it is required to be non-decreasing",
            RuleId::ColdExtrusion => "extruding below the minimum nozzle temperature",
            RuleId::RetractionDistance => "a retraction distance exceeds the limit",
            RuleId::RetractionSpeed => "a retraction or unretraction speed exceeds the limit",
            RuleId::TravelWithoutRetraction => "a travel run exceeds the allowed distance without a retraction",
            RuleId::FirstLayerHeight => "the first-layer height is outside the allowed range",
            RuleId::FirstLayerSpeed => "the first-layer speed is outside the allowed range",
            RuleId::PeakAcceleration => "an arc's centripetal acceleration exceeds the machine's max acceleration",
            RuleId::JunctionVelocity => "a junction is entered faster than its direction change allows",
            RuleId::UnmodeledGcode => "verbatim or imported G-code is preserved but not semantically verified",
            RuleId::Continuity => "a segment starts somewhere other than where the previous one ended",
            RuleId::NegativeQuantity => "a length, volume, speed or commanded spindle/laser power is negative, or a bead dimension is not positive",
            RuleId::SegmentLength => "a straight or stationary segment's length disagrees with its own endpoints",
            RuleId::ArcLength => "an arc's length disagrees with its radius and swept angle",
            RuleId::FilamentConsistency => "the volume-to-filament ratio changes within a single tool",
            RuleId::BeadVolume => "deposited volume disagrees with the bead geometry (length x width x height x flow)",
            RuleId::RotaryTravel => "a rotary axis is commanded outside its travel range",
            RuleId::RotaryFeed => "a rotary axis would have to turn faster than its rate limit to keep up with the move",
            RuleId::OrientationReachability => "an orientation puts the tool outside the machine's reachable envelope",
            RuleId::LaserPowerDuringTravel => "spindle or laser power is active (> 0) during a rapid traversal move",
        }
    }

    /// Whether this rule is evaluated at all under the contracts whose gates are `g`: structural
    /// rules always, every other rule when its gating contract is in force.
    pub fn is_evaluated(self, g: &ContractGates) -> (b: bool)
        ensures
            b == spec_is_evaluated(self, *g),
    {
        match self {
            RuleId::Finite => true,
            RuleId::TravelExtrudes => true,
            RuleId::Bead => true,
            RuleId::OrientationNotUnit => true,
            RuleId::ArcRadius => true,
            RuleId::Bounds => g.bounds,
            RuleId::MaxFlow => g.max_flow,
            RuleId::Speed => g.speed_range,
            RuleId::MonotonicZ => g.monotonic_z,
            RuleId::ColdExtrusion => g.min_temp,
            RuleId::RetractionDistance => g.max_retraction_distance,
            RuleId::RetractionSpeed => g.max_retraction_speed,
            RuleId::TravelWithoutRetraction => g.max_travel_without_retract,
            RuleId::FirstLayerHeight => g.first_layer_height_range,
            RuleId::FirstLayerSpeed => g.first_layer_speed_range,
            RuleId::PeakAcceleration => g.max_acceleration,
            RuleId::JunctionVelocity => g.max_junction_velocity,
            RuleId::UnmodeledGcode => true,
            RuleId::Continuity => true,
            RuleId::NegativeQuantity => true,
            RuleId::SegmentLength => true,
            RuleId::ArcLength => true,
            RuleId::FilamentConsistency => true,
            RuleId::BeadVolume => g.bead_volume_tolerance,
            RuleId::RotaryTravel => g.rotary_travel,
            RuleId::RotaryFeed => g.rotary_feed,
            RuleId::OrientationReachability => g.rotary_envelope,
            RuleId::LaserPowerDuringTravel => g.travel_must_be_dark,
        }
    }
}


impl RuleId {
    /// Parse a wire id back into a [`RuleId`]: the first rule, in catalog order, with that id.
    pub fn from_wire(s: &str) -> (r: Option<RuleId>)
        ensures
            r == spec_from_wire(s@),
    {
        proof {
            lemma_all_array();
            assert(all_rules().subrange(0, 28) =~= all_rules());
        }
        let mut i: usize = 0;
        while i < 28
            invariant
                i <= 28,
                RuleId::ALL@ == all_rules(),
                first_with_wire(all_rules(), s@) == first_with_wire(
                    all_rules().subrange(i as int, 28),
                    s@,
                ),
            decreases 28 - i,
        {
            let r = RuleId::ALL[i];
            let ghost rest = all_rules().subrange(i as int, 28);
            assert(rest[0] == r);
            if crate::text::str_eq(r.as_str(), s) {
                return Some(r);
            }
            assert(rest.drop_first() =~= all_rules().subrange(i + 1, 28));
            i = i + 1;
        }
        assert(all_rules().subrange(28, 28).len() == 0);
        None
    }
}

/// The constant rule table is the catalog sequence.
proof fn lemma_all_array()
    ensures
        RuleId::ALL@ == all_rules(),
{
    assert(RuleId::ALL@ =~= all_rules());
}

/// The full rule catalog (id, default severity, summary), in catalog order.
pub fn catalog() -> (cat: Vec<Rule>)
    ensures
        cat@.len() == all_rules().len(),
        forall|i: int|
            0 <= i < cat@.len() ==> {
                &&& (#[trigger] cat@[i]).id == all_rules()[i]
                &&& cat@[i].severity == spec_default_severity(all_rules()[i])
                &&& cat@[i].summary@ == spec_summary(all_rules()[i])
            },
{
    proof {
        lemma_all_array();
    }
    let mut cat: Vec<Rule> = Vec::new();
    let mut i: usize = 0;
    while i < 28
        invariant
            i <= 28,
            RuleId::ALL@ == all_rules(),
            cat@.len() == i,
            forall|k: int|
                0 <= k < i ==> {
                    &&& (#[trigger] cat@[k]).id == all_rules()[k]
                    &&& cat@[k].severity == spec_default_severity(all_rules()[k])
                    &&& cat@[k].summary@ == spec_summary(all_rules()[k])
                },
        decreases 28 - i,
    {
        let id = RuleId::ALL[i];
        cat.push(Rule { id, severity: id.default_severity(), summary: id.summary() });
        i = i + 1;
    }
    cat
}

/// The wire ids of every rule in force under the gates `g`, in catalog order.
pub fn rules_evaluated(g: &ContractGates) -> (ids: Vec<String>)
    ensures
        ids@.len() == evaluated_rules(all_rules(), *g).len(),
        forall|i: int|
            0 <= i < ids@.len() ==> (#[trigger] ids@[i])@ == spec_wire(
                evaluated_rules(all_rules(), *g)[i],
            ),
{
    proof {
        lemma_all_array();
    }
    let mut ids: Vec<String> = Vec::new();
    let mut i: usize = 0;
    while i < 28
        invariant
            i <= 28,
            RuleId::ALL@ == all_rules(),
            ids@.len() == evaluated_rules(all_rules().take(i as int), *g).len(),
            forall|k: int|
                0 <= k < ids@.len() ==> (#[trigger] ids@[k])@ == spec_wire(
                    evaluated_rules(all_rules().take(i as int), *g)[k],
                ),
        decreases 28 - i,
    {
        let r = RuleId::ALL[i];
        let ghost prefix = all_rules().take(i + 1);
        assert(prefix.drop_last() =~= all_rules().take(i as int));
        assert(prefix.last() == r);
        if r.is_evaluated(g) {
            ids.push(string_from_str(r.as_str()));
        }
        i = i + 1;
    }
    assert(all_rules().take(28) =~= all_rules());
    ids
}

/// The length, first and last character of a rule's wire id, which already tell the rules apart.
pub open spec fn wire_key(r: RuleId) -> (int, char, char) {
    match r {
        RuleId::Finite => (6, 'f', 'e'),
        RuleId::TravelExtrudes => (15, 't', 's'),
        RuleId::Bead => (4, 'b', 'd'),
        RuleId::OrientationNotUnit => (20, 'o', 't'),
        RuleId::ArcRadius => (10, 'a', 's'),
        RuleId::Bounds => (6, 'b', 's'),
        RuleId::MaxFlow => (8, 'm', 'w'),
        RuleId::Speed => (5, 's', 'd'),
        RuleId::MonotonicZ => (11, 'm', 'z'),
        RuleId::ColdExtrusion => (14, 'c', 'n'),
        RuleId::RetractionDistance => (19, 'r', 'e'),
        RuleId::RetractionSpeed => (16, 'r', 'd'),
        RuleId::TravelWithoutRetraction => (25, 't', 'n'),
        RuleId::FirstLayerHeight => (18, 'f', 't'),
        RuleId::FirstLayerSpeed => (17, 'f', 'd'),
        RuleId::PeakAcceleration => (17, 'p', 'n'),
        RuleId::JunctionVelocity => (17, 'j', 'y'),
        RuleId::UnmodeledGcode => (15, 'u', 'e'),
        RuleId::Continuity => (10, 'c', 'y'),
        RuleId::NegativeQuantity => (17, 'n', 'y'),
        RuleId::SegmentLength => (14, 's', 'h'),
        RuleId::ArcLength => (10, 'a', 'h'),
        RuleId::FilamentConsistency => (20, 'f', 'y'),
        RuleId::BeadVolume => (11, 'b', 'e'),
        RuleId::RotaryTravel => (13, 'r', 'l'),
        RuleId::RotaryFeed => (11, 'r', 'd'),
        RuleId::OrientationReachability => (24, 'o', 'y'),
        RuleId::LaserPowerDuringTravel => (25, 'l', 'l'),
    }
}

proof fn lemma_wire_key(r: RuleId)
    ensures
        wire_key(r) == (spec_wire(r).len() as int, spec_wire(r)[0], spec_wire(r)[spec_wire(r).len() - 1]),
{
    match r {
        RuleId::Finite => {
            reveal_strlit("finite");
        },
        RuleId::TravelExtrudes => {
            reveal_strlit("travel-extrudes");
        },
        RuleId::Bead => {
            reveal_strlit("bead");
        },
        RuleId::OrientationNotUnit => {
            reveal_strlit("orientation-not-unit");
        },
        RuleId::ArcRadius => {
            reveal_strlit("arc-radius");
        },
        RuleId::Bounds => {
            reveal_strlit("bounds");
        },
        RuleId::MaxFlow => {
            reveal_strlit("max-flow");
        },
        RuleId::Speed => {
            reveal_strlit("speed");
        },
        RuleId::MonotonicZ => {
            reveal_strlit("monotonic-z");
        },
        RuleId::ColdExtrusion => {
            reveal_strlit("cold-extrusion");
        },
        RuleId::RetractionDistance => {
            reveal_strlit("retraction-distance");
        },
        RuleId::RetractionSpeed => {
            reveal_strlit("retraction-speed");
        },
        RuleId::TravelWithoutRetraction => {
            reveal_strlit("travel-without-retraction");
        },
        RuleId::FirstLayerHeight => {
            reveal_strlit("first-layer-height");
        },
        RuleId::FirstLayerSpeed => {
            reveal_strlit("first-layer-speed");
        },
        RuleId::PeakAcceleration => {
            reveal_strlit("peak-acceleration");
        },
        RuleId::JunctionVelocity => {
            reveal_strlit("junction-velocity");
        },
        RuleId::UnmodeledGcode => {
            reveal_strlit("unmodeled-gcode");
        },
        RuleId::Continuity => {
            reveal_strlit("continuity");
        },
        RuleId::NegativeQuantity => {
            reveal_strlit("negative-quantity");
        },
        RuleId::SegmentLength => {
            reveal_strlit("segment-length");
        },
        RuleId::ArcLength => {
            reveal_strlit("arc-length");
        },
        RuleId::FilamentConsistency => {
            reveal_strlit("filament-consistency");
        },
        RuleId::BeadVolume => {
            reveal_strlit("bead-volume");
        },
        RuleId::RotaryTravel => {
            reveal_strlit("rotary-travel");
        },
        RuleId::RotaryFeed => {
            reveal_strlit("rotary-feed");
        },
        RuleId::OrientationReachability => {
            reveal_strlit("orientation-reachability");
        },
        RuleId::LaserPowerDuringTravel => {
            reveal_strlit("laser-power-during-travel");
        },
    }
}

/// Distinct rules have distinct wire ids.
pub proof fn lemma_wire_injective(a: RuleId, b: RuleId)
    ensures
        spec_wire(a) == spec_wire(b) ==> a == b,
{
    lemma_wire_key(a);
    lemma_wire_key(b);
}

/// Every rule appears in the catalog.
pub proof fn lemma_rule_in_catalog(r: RuleId)
    ensures
        all_rules().contains(r),
{
    let all = all_rules();
    let i: int = match r {
        RuleId::Finite => 0,
        RuleId::TravelExtrudes => 1,
        RuleId::Bead => 2,
        RuleId::OrientationNotUnit => 3,
        RuleId::ArcRadius => 4,
        RuleId::Bounds => 5,
        RuleId::MaxFlow => 6,
        RuleId::Speed => 7,
        RuleId::MonotonicZ => 8,
        RuleId::ColdExtrusion => 9,
        RuleId::RetractionDistance => 10,
        RuleId::RetractionSpeed => 11,
        RuleId::TravelWithoutRetraction => 12,
        RuleId::FirstLayerHeight => 13,
        RuleId::FirstLayerSpeed => 14,
        RuleId::PeakAcceleration => 15,
        RuleId::JunctionVelocity => 16,
        RuleId::UnmodeledGcode => 17,
        RuleId::Continuity => 18,
        RuleId::NegativeQuantity => 19,
        RuleId::SegmentLength => 20,
        RuleId::ArcLength => 21,
        RuleId::FilamentConsistency => 22,
        RuleId::BeadVolume => 23,
        RuleId::RotaryTravel => 24,
        RuleId::RotaryFeed => 25,
        RuleId::OrientationReachability => 26,
        RuleId::LaserPowerDuringTravel => 27,
    };
    assert(all[i] == r);
}

proof fn lemma_first_with_wire(rules: Seq<RuleId>, r: RuleId)
    requires
        rules.contains(r),
    ensures
        first_with_wire(rules, spec_wire(r)) == Some(r),
    decreases rules.len(),
{
    lemma_wire_injective(rules[0], r);
    if rules[0] != r {
        let i = choose|i: int| 0 <= i < rules.len() && rules[i] == r;
        assert(rules.drop_first()[i - 1] == r);
        lemma_first_with_wire(rules.drop_first(), r);
    }
}

/// Law: every rule's wire id parses back to that same rule, so the wire vocabulary is a faithful
/// encoding of the rule set.
pub proof fn law_wire_id_round_trip(r: RuleId)
    ensures
        spec_from_wire(spec_wire(r)) == Some(r),
{
    lemma_rule_in_catalog(r);
    lemma_first_with_wire(all_rules(), r);
}

/// Law: every rule's summary is a non-empty line.
pub proof fn law_summary_nonempty(r: RuleId)
    ensures
        spec_summary(r).len() > 0,
{
    reveal_strlit("a quantity is non-finite (NaN or infinite)");
    reveal_strlit("a travel (non-printing) move deposits material");
    reveal_strlit("an extruding move has a non-positive bead width or height");
    reveal_strlit("the toolframe orientation vector is not unit length");
    reveal_strlit("an arc's endpoint radius disagrees with its start radius");
    reveal_strlit("a move leaves the build volume");
    reveal_strlit("volumetric flow exceeds the configured ceiling");
    reveal_strlit("an extruding feedrate is outside the allowed range");
    reveal_strlit("Z decreases where it is required to be non-decreasing");
    reveal_strlit("extruding below the minimum nozzle temperature");
    reveal_strlit("a retraction distance exceeds the limit");
    reveal_strlit("a retraction or unretraction speed exceeds the limit");
    reveal_strlit("a travel run exceeds the allowed distance without a retraction");
    reveal_strlit("the first-layer height is outside the allowed range");
    reveal_strlit("the first-layer speed is outside the allowed range");
    reveal_strlit("an arc's centripetal acceleration exceeds the machine's max acceleration");
    reveal_strlit("a junction is entered faster than its direction change allows");
    reveal_strlit("verbatim or imported G-code is preserved but not semantically verified");
    reveal_strlit("a segment starts somewhere other than where the previous one ended");
    reveal_strlit("a length, volume, speed or commanded spindle/laser power is negative, or a bead dimension is not positive");
    reveal_strlit("a straight or stationary segment's length disagrees with its own endpoints");
    reveal_strlit("an arc's length disagrees with its radius and swept angle");
    reveal_strlit("the volume-to-filament ratio changes within a single tool");
    reveal_strlit("deposited volume disagrees with the bead geometry (length x width x height x flow)");
    reveal_strlit("a rotary axis is commanded outside its travel range");
    reveal_strlit("a rotary axis would have to turn faster than its rate limit to keep up with the move");
    reveal_strlit("an orientation puts the tool outside the machine's reachable envelope");
    reveal_strlit("spindle or laser power is active (> 0) during a rapid traversal move");
}

proof fn lemma_evaluated_contains(rules: Seq<RuleId>, g: ContractGates, r: RuleId)
    ensures
        evaluated_rules(rules, g).contains(r) <==> rules.contains(r) && spec_is_evaluated(r, g),
    decreases rules.len(),
{
    if rules.len() > 0 {
        let d = rules.drop_last();
        lemma_evaluated_contains(d, g, r);
        assert(rules =~= d.push(rules.last()));
        if rules.contains(r) && r != rules.last() {
            let i = choose|i: int| 0 <= i < rules.len() && rules[i] == r;
            assert(d[i] == r);
        }
        if d.contains(r) {
            let i = choose|i: int| 0 <= i < d.len() && d[i] == r;
            assert(rules[i] == r);
        }
        if spec_is_evaluated(rules.last(), g) {
            let e = evaluated_rules(d, g);
            if e.contains(r) {
                let i = choose|i: int| 0 <= i < e.len() && e[i] == r;
                assert(e.push(rules.last())[i] == r);
            }
            assert(e.push(rules.last())[e.len() as int] == rules.last());
            if e.push(rules.last()).contains(r) && r != rules.last() {
                let i = choose|i: int| 0 <= i < e.len() + 1 && e.push(rules.last())[i] == r;
                assert(e[i] == r);
            }
        }
        assert(rules[rules.len() - 1] == rules.last());
    }
}

/// Law: every rule that a contract gates is in force exactly when its own contract is (the flow
/// ceiling gates `max-flow`, the extruding feedrate range gates `speed`, the minimum temperature gates
/// `cold-extrusion`, and so on), every structural rule is always in force, and `rules_evaluated`
/// lists exactly the rules in force.
pub proof fn law_each_rule_runs_under_its_own_contract(g: ContractGates, r: RuleId)
    ensures
        evaluated_rules(all_rules(), g).contains(r) <==> spec_is_evaluated(r, g),
        structural_rules().contains(r) ==> spec_is_evaluated(r, g),
        spec_is_evaluated(RuleId::Bounds, g) == g.bounds,
        spec_is_evaluated(RuleId::MaxFlow, g) == g.max_flow,
        spec_is_evaluated(RuleId::Speed, g) == g.speed_range,
        spec_is_evaluated(RuleId::MonotonicZ, g) == g.monotonic_z,
        spec_is_evaluated(RuleId::ColdExtrusion, g) == g.min_temp,
        spec_is_evaluated(RuleId::RetractionDistance, g) == g.max_retraction_distance,
        spec_is_evaluated(RuleId::RetractionSpeed, g) == g.max_retraction_speed,
        spec_is_evaluated(RuleId::TravelWithoutRetraction, g) == g.max_travel_without_retract,
        spec_is_evaluated(RuleId::FirstLayerHeight, g) == g.first_layer_height_range,
        spec_is_evaluated(RuleId::FirstLayerSpeed, g) == g.first_layer_speed_range,
        spec_is_evaluated(RuleId::PeakAcceleration, g) == g.max_acceleration,
        spec_is_evaluated(RuleId::JunctionVelocity, g) == g.max_junction_velocity,
        spec_is_evaluated(RuleId::BeadVolume, g) == g.bead_volume_tolerance,
        spec_is_evaluated(RuleId::RotaryTravel, g) == g.rotary_travel,
        spec_is_evaluated(RuleId::RotaryFeed, g) == g.rotary_feed,
        spec_is_evaluated(RuleId::OrientationReachability, g) == g.rotary_envelope,
        spec_is_evaluated(RuleId::LaserPowerDuringTravel, g) == g.travel_must_be_dark,
{
    lemma_rule_in_catalog(r);
    lemma_evaluated_contains(all_rules(), g, r);
    if structural_rules().contains(r) {
        let i = choose|i: int| 0 <= i < structural_rules().len() && structural_rules()[i] == r;
    }
}

/// Law: with no contract in force exactly the structural rules are evaluated, in catalog order.
pub proof fn law_no_contracts_evaluates_structural_rules(g: ContractGates)
    requires
        g == ContractGates::default_gates(),
    ensures
        evaluated_rules(all_rules(), g) == structural_rules(),
{
    reveal_with_fuel(evaluated_rules, 29);
    assert(evaluated_rules(all_rules(), g) =~= structural_rules());
}

/// Law: putting more contracts in force never takes a rule out of force.
pub proof fn law_more_contracts_evaluate_more_rules(g1: ContractGates, g2: ContractGates, r: RuleId)
    requires
        gates_le(g1, g2),
    ensures
        spec_is_evaluated(r, g1) ==> spec_is_evaluated(r, g2),
{
}

/// Law: with every contract in force every rule is evaluated.
pub proof fn law_all_contracts_evaluate_every_rule(g: ContractGates, r: RuleId)
    requires
        gates_all(g),
    ensures
        spec_is_evaluated(r, g),
{
}

/// Every gate of `g1` that is in force is also in force in `g2`.
pub open spec fn gates_le(g1: ContractGates, g2: ContractGates) -> bool {
    &&& (g1.bounds ==> g2.bounds)
    &&& (g1.max_flow ==> g2.max_flow)
    &&& (g1.speed_range ==> g2.speed_range)
    &&& (g1.monotonic_z ==> g2.monotonic_z)
    &&& (g1.min_temp ==> g2.min_temp)
    &&& (g1.max_retraction_distance ==> g2.max_retraction_distance)
    &&& (g1.max_retraction_speed ==> g2.max_retraction_speed)
    &&& (g1.max_travel_without_retract ==> g2.max_travel_without_retract)
    &&& (g1.first_layer_height_range ==> g2.first_layer_height_range)
    &&& (g1.first_layer_speed_range ==> g2.first_layer_speed_range)
    &&& (g1.bead_volume_tolerance ==> g2.bead_volume_tolerance)
    &&& (g1.max_acceleration ==> g2.max_acceleration)
    &&& (g1.max_junction_velocity ==> g2.max_junction_velocity)
    &&& (g1.rotary_travel ==> g2.rotary_travel)
    &&& (g1.rotary_feed ==> g2.rotary_feed)
    &&& (g1.rotary_envelope ==> g2.rotary_envelope)
    &&& (g1.travel_must_be_dark ==> g2.travel_must_be_dark)
}

/// Every gate of `g` is in force.
pub open spec fn gates_all(g: ContractGates) -> bool {
    &&& g.bounds
    &&& g.max_flow
    &&& g.speed_range
    &&& g.monotonic_z
    &&& g.min_temp
    &&& g.max_retraction_distance
    &&& g.max_retraction_speed
    &&& g.max_travel_without_retract
    &&& g.first_layer_height_range
    &&& g.first_layer_speed_range
    &&& g.bead_volume_tolerance
    &&& g.max_acceleration
    &&& g.max_junction_velocity
    &&& g.rotary_travel
    &&& g.rotary_feed
    &&& g.rotary_envelope
    &&& g.travel_must_be_dark
}

impl ContractGates {
    /// The gates of the default (empty) contracts: nothing is in force.
    pub open spec fn default_gates() -> ContractGates {
        ContractGates {
            bounds: false,
            max_flow: false,
            speed_range: false,
            monotonic_z: false,
            min_temp: false,
            max_retraction_distance: false,
            max_retraction_speed: false,
            max_travel_without_retract: false,
            first_layer_height_range: false,
            first_layer_speed_range: false,
            bead_volume_tolerance: false,
            max_acceleration: false,
            max_junction_velocity: false,
            rotary_travel: false,
            rotary_feed: false,
            rotary_envelope: false,
            travel_must_be_dark: false,
        }
    }

    /// No contract in force.
    pub fn none() -> (g: ContractGates)
        ensures
            g == ContractGates::default_gates(),
    {
        ContractGates {
            bounds: false,
            max_flow: false,
            speed_range: false,
            monotonic_z: false,
            min_temp: false,
            max_retraction_distance: false,
            max_retraction_speed: false,
            max_travel_without_retract: false,
            first_layer_height_range: false,
            first_layer_speed_range: false,
            bead_volume_tolerance: false,
            max_acceleration: false,
            max_junction_velocity: false,
            rotary_travel: false,
            rotary_feed: false,
            rotary_envelope: false,
            travel_must_be_dark: false,
        }
    }
}


/// One located issue found by a verification pass.
#[derive(Debug, Clone)]
pub struct Finding {
    /// A stable kebab-case rule id from the [`RuleId`] catalog.
    pub rule: String,
    pub severity: Severity,
    /// The offending segment index, if the finding is local to one move.
    pub segment: Option<usize>,
    /// A human-readable description.
    pub message: String,
}

/// The number of `Error`-severity findings in `fs`.
pub open spec fn count_errors(fs: Seq<Finding>) -> nat
    decreases fs.len(),
{
    if fs.len() == 0 {
        0
    } else {
        count_errors(fs.drop_last()) + if fs.last().severity == Severity::Error {
            1nat
        } else {
            0nat
        }
    }
}

/// Whether `fs` holds an `Error`-severity finding.
pub open spec fn has_error(fs: Seq<Finding>) -> bool {
    exists|i: int| 0 <= i < fs.len() && (#[trigger] fs[i]).severity == Severity::Error
}

/// A finding's fields, as the verifier records one for `rule`.
pub open spec fn is_finding_for(f: Finding, rule: RuleId, segment: Option<usize>, message: Seq<char>) -> bool {
    &&& f.rule@ == spec_wire(rule)
    &&& f.severity == spec_default_severity(rule)
    &&& f.segment == segment
    &&& f.message@ == message
}

/// The result of verifying a toolpath: the findings, how much was inspected, which rules were in
/// force, and the contracts it was checked against (carried opaquely as `C`).
///
/// `ok()` alone cannot tell "clean" from "nothing was inspected" or "clean against no limits at all";
/// `segments_inspected` and `rules_evaluated` make a vacuous pass visible.
#[derive(Debug, Clone)]
pub struct Report<C> {
    pub findings: Vec<Finding>,
    /// How many segments this pass actually looked at. Zero means the pass proved nothing.
    pub segments_inspected: usize,
    /// The wire ids of every rule that was in force, in catalog order.
    pub rules_evaluated: Vec<String>,
    /// The contracts the toolpath was checked against.
    pub contracts: C,
    /// The licensing mode this report was produced under, when the caller stamped one.
    pub license: Option<LicenseStamp>,
}

impl<C> Report<C> {
    /// True when there are no `Error`-severity findings.
    pub fn ok(&self) -> (b: bool)
        ensures
            b == !has_error(self.findings@),
    {
        let mut i: usize = 0;
        while i < self.findings.len()
            invariant
                i <= self.findings@.len(),
                forall|k: int| 0 <= k < i ==> (#[trigger] self.findings@[k]).severity != Severity::Error,
            decreases self.findings@.len() - i,
        {
            if self.findings[i].severity == Severity::Error {
                return false;
            }
            i = i + 1;
        }
        assert(!has_error(self.findings@));
        true
    }

    /// The number of `Error`-severity findings.
    pub fn error_count(&self) -> (n: usize)
        ensures
            n == count_errors(self.findings@),
    {
        let mut n: usize = 0;
        let mut i: usize = 0;
        while i < self.findings.len()
            invariant
                i <= self.findings@.len(),
                n == count_errors(self.findings@.take(i as int)),
                n <= i,
            decreases self.findings@.len() - i,
        {
            proof {
                assert(self.findings@.take(i + 1).drop_last() =~= self.findings@.take(i as int));
            }
            if self.findings[i].severity == Severity::Error {
                n = n + 1;
            }
            i = i + 1;
        }
        assert(self.findings@.take(i as int) =~= self.findings@);
        n
    }

    /// Whether `rule` was in force for this report.
    pub fn evaluated(&self, rule: RuleId) -> (b: bool)
        ensures
            b == exists|i: int|
                0 <= i < self.rules_evaluated@.len() && (#[trigger] self.rules_evaluated@[i])@
                    == spec_wire(rule),
    {
        let id = rule.as_str();
        let mut i: usize = 0;
        while i < self.rules_evaluated.len()
            invariant
                i <= self.rules_evaluated@.len(),
                id@ == spec_wire(rule),
                forall|k: int| 0 <= k < i ==> (#[trigger] self.rules_evaluated@[k])@ != spec_wire(rule),
            decreases self.rules_evaluated@.len() - i,
        {
            if crate::text::str_eq(self.rules_evaluated[i].as_str(), id) {
                return true;
            }
            i = i + 1;
        }
        false
    }
}

/// Law: a report is ok exactly when it counts no errors.
pub proof fn law_ok_iff_no_errors(fs: Seq<Finding>)
    ensures
        !has_error(fs) <==> count_errors(fs) == 0,
    decreases fs.len(),
{
    if fs.len() > 0 {
        law_ok_iff_no_errors(fs.drop_last());
        if has_error(fs.drop_last()) {
            let i = choose|i: int| 0 <= i < fs.drop_last().len() && (#[trigger] fs.drop_last()[i]).severity == Severity::Error;
            assert(fs[i] == fs.drop_last()[i]);
        }
        if has_error(fs) && fs.last().severity != Severity::Error {
            let i = choose|i: int| 0 <= i < fs.len() && (#[trigger] fs[i]).severity == Severity::Error;
            assert(fs.drop_last()[i] == fs[i]);
        }
        if fs.last().severity == Severity::Error {
            assert(fs[fs.len() - 1].severity == Severity::Error);
        }
    }
}

/// Records a finding for `rule` at `segment`, with the rule's wire id and default severity.
pub fn push_finding<C>(report: &mut Report<C>, rule: RuleId, segment: Option<usize>, message: String)
    ensures
        final(report).findings@.len() == old(report).findings@.len() + 1,
        final(report).findings@.take(old(report).findings@.len() as int) == old(report).findings@,
        is_finding_for(final(report).findings@.last(), rule, segment, message@),
        final(report).segments_inspected == old(report).segments_inspected,
        final(report).rules_evaluated@ == old(report).rules_evaluated@,
        final(report).contracts == old(report).contracts,
        final(report).license == old(report).license,
{
    let f = Finding {
        rule: string_from_str(rule.as_str()),
        severity: rule.default_severity(),
        segment,
        message,
    };
    report.findings.push(f);
    assert(final(report).findings@.take(old(report).findings@.len() as int) =~= old(report).findings@);
}

/// `segment-length` applies to primitives whose length is the straight-line distance between their
/// endpoints: an arc has `arc-length`, a spline's length is the sampled curve, and manual G-code is
/// unmodelled.
pub fn has_straight_length(kind: SegmentKind) -> (b: bool)
    ensures
        b == !(kind is Arc || kind is Spline || kind is ManualGcode),
{
    !matches!(kind, SegmentKind::Arc | SegmentKind::Spline | SegmentKind::ManualGcode)
}

/// A user-facing contract configuration parse error.
#[derive(Debug, Clone, PartialEq, Eq)]
pub struct ContractParseError {
    message: String,
}

impl ContractParseError {
    pub fn new(message: String) -> (e: ContractParseError)
        ensures
            e.text() == message@,
    {
        ContractParseError { message }
    }

    /// The error's text, as it is displayed.
    pub closed spec fn text(&self) -> Seq<char> {
        self.message@
    }

    /// The error's text, as it is displayed.
    pub fn display_text(&self) -> (s: String)
        ensures
            s@ == self.text(),
    {
        self.message.clone()
    }
}


/// Whether `c` is a lowercase ASCII letter.
pub open spec fn is_lower_letter(c: char) -> bool {
    'a' <= c && c <= 'z'
}

/// `s` is what may follow a letter of a kebab-case word: letters, and single dashes each followed by
/// a letter.
pub open spec fn kebab_tail(s: Seq<char>) -> bool
    decreases s.len(),
{
    if s.len() == 0 {
        true
    } else if is_lower_letter(s[0]) {
        kebab_tail(s.drop_first())
    } else {
        s[0] == '-' && s.len() >= 2 && is_lower_letter(s[1]) && kebab_tail(s.drop_first().drop_first())
    }
}

/// Lowercase kebab-case: `[a-z]+(-[a-z]+)*`.
pub open spec fn is_kebab_case(s: Seq<char>) -> bool {
    s.len() > 0 && is_lower_letter(s[0]) && kebab_tail(s.drop_first())
}

/// Law: every rule's wire id is lowercase kebab-case (`[a-z]+(-[a-z]+)*`).
pub proof fn law_wire_ids_are_kebab_case(r: RuleId)
    ensures
        is_kebab_case(spec_wire(r)),
{
    reveal_with_fuel(kebab_tail, 30);
    match r {
        RuleId::Finite => reveal_strlit("finite"),
        RuleId::TravelExtrudes => reveal_strlit("travel-extrudes"),
        RuleId::Bead => reveal_strlit("bead"),
        RuleId::OrientationNotUnit => reveal_strlit("orientation-not-unit"),
        RuleId::ArcRadius => reveal_strlit("arc-radius"),
        RuleId::Bounds => reveal_strlit("bounds"),
        RuleId::MaxFlow => reveal_strlit("max-flow"),
        RuleId::Speed => reveal_strlit("speed"),
        RuleId::MonotonicZ => reveal_strlit("monotonic-z"),
        RuleId::ColdExtrusion => reveal_strlit("cold-extrusion"),
        RuleId::RetractionDistance => reveal_strlit("retraction-distance"),
        RuleId::RetractionSpeed => reveal_strlit("retraction-speed"),
        RuleId::TravelWithoutRetraction => reveal_strlit("travel-without-retraction"),
        RuleId::FirstLayerHeight => reveal_strlit("first-layer-height"),
        RuleId::FirstLayerSpeed => reveal_strlit("first-layer-speed"),
        RuleId::PeakAcceleration => reveal_strlit("peak-acceleration"),
        RuleId::JunctionVelocity => reveal_strlit("junction-velocity"),
        RuleId::UnmodeledGcode => reveal_strlit("unmodeled-gcode"),
        RuleId::Continuity => reveal_strlit("continuity"),
        RuleId::NegativeQuantity => reveal_strlit("negative-quantity"),
        RuleId::SegmentLength => reveal_strlit("segment-length"),
        RuleId::ArcLength => reveal_strlit("arc-length"),
        RuleId::FilamentConsistency => reveal_strlit("filament-consistency"),
        RuleId::BeadVolume => reveal_strlit("bead-volume"),
        RuleId::RotaryTravel => reveal_strlit("rotary-travel"),
        RuleId::RotaryFeed => reveal_strlit("rotary-feed"),
        RuleId::OrientationReachability => reveal_strlit("orientation-reachability"),
        RuleId::LaserPowerDuringTravel => reveal_strlit("laser-power-during-travel"),
    }
}

} // verus!
