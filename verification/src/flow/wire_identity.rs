//! What a step of a journey is called on the wire.
//!
//! A built-in journey has a name for each of its steps; a custom one has one name for all of them.
//! Before it goes on, a step may also show a state that is no step of its own.

use vstd::prelude::*;

verus! {

/// A journey.
#[derive(Debug, Clone, Copy, PartialEq, Eq, Structural)]
pub enum Journey {
    Login,
    Registration,
    Recovery,
    Federation,
    Consent,
    Mfa,
    Custom,
}

/// The kind of a step.
#[derive(Debug, Clone, Copy, PartialEq, Eq, Structural)]
pub enum StepKind {
    IdentifierPassword,
    MfaChallenge,
    MfaEnroll,
    ProgressiveProfiling,
    OrgPicker,
    Registration,
    RecoveryStart,
    RecoveryVerify,
    Decision,
    SubflowCall,
    Terminal,
}

impl StepKind {
    /// No custom journey can have a step of this kind.
    pub open spec fn builtin_only(self) -> bool {
        self is Registration
    }

    /// Whether no custom journey can have a step of this kind.
    pub fn is_builtin_only(self) -> (r: bool)
        ensures
            r == self.builtin_only(),
    {
        match self {
            StepKind::Registration => true,
            _ => false,
        }
    }
}

/// What a state is called on the wire.
#[derive(Debug, Clone, Copy, PartialEq, Eq, Structural)]
pub enum FlowStateTag {
    IdentifierPassword,
    MfaChallenge,
    MfaEnroll,
    MfaRecoveryCodes,
    ProgressiveProfiling,
    OrgPicker,
    RegistrationDetails,
    RegistrationAck,
    RecoveryStart,
    RecoveryAck,
    Custom,
}

/// The names of the steps of the built-in journeys.
pub open spec fn named(journey: Journey, kind: StepKind) -> Option<FlowStateTag> {
    match (journey, kind) {
        (Journey::Login, StepKind::IdentifierPassword) => Some(FlowStateTag::IdentifierPassword),
        (Journey::Login, StepKind::MfaChallenge) => Some(FlowStateTag::MfaChallenge),
        (Journey::Login, StepKind::MfaEnroll) => Some(FlowStateTag::MfaEnroll),
        (Journey::Login, StepKind::ProgressiveProfiling) => Some(
            FlowStateTag::ProgressiveProfiling,
        ),
        (Journey::Login, StepKind::OrgPicker) => Some(FlowStateTag::OrgPicker),
        (Journey::Registration, StepKind::Registration) => Some(FlowStateTag::RegistrationDetails),
        (Journey::Recovery, StepKind::RecoveryStart) => Some(FlowStateTag::RecoveryStart),
        (Journey::Recovery, StepKind::RecoveryVerify) => Some(FlowStateTag::RecoveryAck),
        _ => None,
    }
}

/// What a step is called on the wire: a step without a name is called custom.
pub open spec fn wire_state(journey: Journey, kind: StepKind) -> FlowStateTag {
    match named(journey, kind) {
        Some(tag) => tag,
        None => FlowStateTag::Custom,
    }
}

/// What a step is called on the wire.
pub fn wire_state_for(journey: Journey, step_kind: &StepKind) -> (r: FlowStateTag)
    ensures
        r == wire_state(journey, *step_kind),
{
    match journey {
        Journey::Login => match step_kind {
            StepKind::IdentifierPassword => FlowStateTag::IdentifierPassword,
            StepKind::MfaChallenge => FlowStateTag::MfaChallenge,
            StepKind::MfaEnroll => FlowStateTag::MfaEnroll,
            StepKind::ProgressiveProfiling => FlowStateTag::ProgressiveProfiling,
            StepKind::OrgPicker => FlowStateTag::OrgPicker,
            _ => FlowStateTag::Custom,
        },
        Journey::Registration => match step_kind {
            StepKind::Registration => FlowStateTag::RegistrationDetails,
            _ => FlowStateTag::Custom,
        },
        Journey::Recovery => match step_kind {
            StepKind::RecoveryStart => FlowStateTag::RecoveryStart,
            StepKind::RecoveryVerify => FlowStateTag::RecoveryAck,
            _ => FlowStateTag::Custom,
        },
        Journey::Custom | Journey::Federation | Journey::Consent | Journey::Mfa => {
            FlowStateTag::Custom
        },
    }
}

/// The state that a step shows before it goes on, if any: the registration acknowledges, and the
/// enrolment of a second factor shows the recovery codes once, in a custom journey too.
pub open spec fn override_state(journey: Journey, kind: StepKind) -> Option<FlowStateTag> {
    if journey is Registration && kind is Registration {
        Some(FlowStateTag::RegistrationAck)
    } else if (journey is Login || journey is Custom) && kind is MfaEnroll {
        Some(FlowStateTag::MfaRecoveryCodes)
    } else {
        None
    }
}

/// The states that a step shows before it goes on.
pub fn render_override_states(journey: Journey, step_kind: &StepKind) -> (r: Vec<FlowStateTag>)
    ensures
        r@ == (match override_state(journey, *step_kind) {
            Some(tag) => seq![tag],
            None => Seq::empty(),
        }),
{
    let mut states: Vec<FlowStateTag> = Vec::new();
    match (journey, step_kind) {
        (Journey::Registration, StepKind::Registration) => {
            states.push(FlowStateTag::RegistrationAck);
        },
        (Journey::Login, StepKind::MfaEnroll) | (Journey::Custom, StepKind::MfaEnroll) => {
            states.push(FlowStateTag::MfaRecoveryCodes);
        },
        _ => {},
    }
    states
}

// ---------------------------------------------------------------------------
// Laws
// ---------------------------------------------------------------------------

/// Every step of a custom journey is called custom, and so is every step of a journey that has no
/// names.
pub proof fn law_a_custom_journey_is_flat(kind: StepKind)
    ensures
        wire_state(Journey::Custom, kind) == FlowStateTag::Custom,
        wire_state(Journey::Federation, kind) == FlowStateTag::Custom,
        wire_state(Journey::Consent, kind) == FlowStateTag::Custom,
        wire_state(Journey::Mfa, kind) == FlowStateTag::Custom,
{
}

/// A named step is told apart from every other by its name: a name belongs to one journey and to
/// one kind of step.
pub proof fn law_names_tell_steps_apart(
    journey: Journey,
    kind: StepKind,
    other_journey: Journey,
    other_kind: StepKind,
)
    requires
        wire_state(journey, kind) != FlowStateTag::Custom,
        wire_state(journey, kind) == wire_state(other_journey, other_kind),
    ensures
        journey == other_journey && kind == other_kind,
{
}

/// What a step of a kind that a custom journey can have shows in a built-in one, it shows in a
/// custom one too.
pub proof fn law_custom_journeys_show_what_built_in_ones_show(journey: Journey, kind: StepKind)
    requires
        !kind.builtin_only(),
        override_state(journey, kind) is Some,
    ensures
        override_state(Journey::Custom, kind) == override_state(journey, kind),
{
}

/// A state that a step shows before it goes on is not the name of any step.
pub proof fn law_an_override_is_no_step(
    journey: Journey,
    kind: StepKind,
    other_journey: Journey,
    other_kind: StepKind,
)
    requires
        override_state(journey, kind) is Some,
    ensures
        wire_state(other_journey, other_kind) != override_state(journey, kind)->0,
{
}

/// The steps of the built-in journeys are called after what they ask for.
pub proof fn law_a_step_is_called_after_what_it_asks_for()
    ensures
        wire_state(Journey::Login, StepKind::IdentifierPassword) == FlowStateTag::IdentifierPassword,
        wire_state(Journey::Login, StepKind::MfaChallenge) == FlowStateTag::MfaChallenge,
        wire_state(Journey::Login, StepKind::MfaEnroll) == FlowStateTag::MfaEnroll,
        wire_state(Journey::Login, StepKind::ProgressiveProfiling)
            == FlowStateTag::ProgressiveProfiling,
        wire_state(Journey::Login, StepKind::OrgPicker) == FlowStateTag::OrgPicker,
        wire_state(Journey::Registration, StepKind::Registration) == FlowStateTag::RegistrationDetails,
        wire_state(Journey::Recovery, StepKind::RecoveryStart) == FlowStateTag::RecoveryStart,
        wire_state(Journey::Recovery, StepKind::RecoveryVerify) == FlowStateTag::RecoveryAck,
{
}

/// A step of a built-in journey that belongs to another journey, or decides, calls or ends, is
/// called custom.
pub proof fn law_a_step_out_of_place_is_called_custom(journey: Journey, kind: StepKind)
    ensures
        journey is Login && (kind is Registration || kind is RecoveryStart || kind is RecoveryVerify
            || kind is Decision || kind is SubflowCall || kind is Terminal) ==> wire_state(journey, kind)
            == FlowStateTag::Custom,
        journey is Registration && !(kind is Registration) ==> wire_state(journey, kind)
            == FlowStateTag::Custom,
        journey is Recovery && !(kind is RecoveryStart) && !(kind is RecoveryVerify) ==> wire_state(
            journey,
            kind,
        ) == FlowStateTag::Custom,
{
}

/// The registration acknowledges, and the enrolment of a second factor shows the recovery codes, at
/// a login and in a custom journey; no other step shows anything before it goes on.
pub proof fn law_two_kinds_of_steps_show_a_state(journey: Journey, kind: StepKind)
    ensures
        override_state(Journey::Registration, StepKind::Registration) == Some(
            FlowStateTag::RegistrationAck,
        ),
        override_state(Journey::Login, StepKind::MfaEnroll) == Some(FlowStateTag::MfaRecoveryCodes),
        override_state(Journey::Custom, StepKind::MfaEnroll) == Some(FlowStateTag::MfaRecoveryCodes),
        !(kind is Registration) && !(kind is MfaEnroll) ==> override_state(journey, kind) is None,
        kind is Registration && !(journey is Registration) ==> override_state(journey, kind) is None,
        kind is MfaEnroll && !(journey is Login) && !(journey is Custom) ==> override_state(
            journey,
            kind,
        ) is None,
        kind.builtin_only() <==> kind is Registration,
{
}

} // verus!
