use ironauth_oidc::flow::wire_identity::{
    render_override_states, wire_state_for, FlowStateTag, Journey, StepKind,
};

#[test]
fn a_genuine_custom_journey_is_flat_for_every_kind() {
    for kind in [
        StepKind::IdentifierPassword,
        StepKind::MfaChallenge,
        StepKind::MfaEnroll,
        StepKind::ProgressiveProfiling,
        StepKind::OrgPicker,
        StepKind::Registration,
        StepKind::RecoveryStart,
        StepKind::RecoveryVerify,
        StepKind::Decision,
        StepKind::Terminal,
    ] {
        assert_eq!(
            wire_state_for(Journey::Custom, &kind),
            FlowStateTag::Custom,
            "a custom journey is flat for {kind:?}"
        );
    }
}

#[test]
fn the_login_family_maps_to_its_real_wire_states() {
    assert_eq!(
        wire_state_for(Journey::Login, &StepKind::IdentifierPassword),
        FlowStateTag::IdentifierPassword
    );
    assert_eq!(
        wire_state_for(Journey::Login, &StepKind::MfaChallenge),
        FlowStateTag::MfaChallenge
    );
    assert_eq!(
        wire_state_for(Journey::Login, &StepKind::MfaEnroll),
        FlowStateTag::MfaEnroll
    );
    assert_eq!(
        wire_state_for(Journey::Login, &StepKind::ProgressiveProfiling),
        FlowStateTag::ProgressiveProfiling
    );
    assert_eq!(
        wire_state_for(Journey::Login, &StepKind::OrgPicker),
        FlowStateTag::OrgPicker
    );
}

#[test]
fn the_registration_and_recovery_kinds_map_to_their_wire_states() {
    assert_eq!(
        wire_state_for(Journey::Registration, &StepKind::Registration),
        FlowStateTag::RegistrationDetails
    );
    assert_eq!(
        wire_state_for(Journey::Recovery, &StepKind::RecoveryStart),
        FlowStateTag::RecoveryStart
    );
    assert_eq!(
        wire_state_for(Journey::Recovery, &StepKind::RecoveryVerify),
        FlowStateTag::RecoveryAck
    );
}

#[test]
fn registration_emits_the_ack_as_a_render_override_and_nothing_else_does() {
    assert_eq!(
        render_override_states(Journey::Registration, &StepKind::Registration),
        vec![FlowStateTag::RegistrationAck]
    );
    for kind in [
        StepKind::IdentifierPassword,
        StepKind::Terminal,
        StepKind::RecoveryStart,
        StepKind::RecoveryVerify,
    ] {
        assert!(
            render_override_states(Journey::Registration, &kind).is_empty(),
            "no override for {kind:?} under registration"
        );
    }
    for journey in [Journey::Login, Journey::Recovery, Journey::Custom] {
        assert!(
            render_override_states(journey, &StepKind::Registration).is_empty(),
            "no override for {journey:?}"
        );
    }
}

#[test]
fn the_enroll_step_emits_the_show_once_recovery_codes_as_a_render_override() {
    assert_eq!(
        render_override_states(Journey::Login, &StepKind::MfaEnroll),
        vec![FlowStateTag::MfaRecoveryCodes]
    );
    assert_eq!(
        render_override_states(Journey::Custom, &StepKind::MfaEnroll),
        vec![FlowStateTag::MfaRecoveryCodes]
    );
    for kind in [
        StepKind::IdentifierPassword,
        StepKind::MfaChallenge,
        StepKind::ProgressiveProfiling,
        StepKind::OrgPicker,
        StepKind::Terminal,
    ] {
        for journey in [Journey::Login, Journey::Custom] {
            assert!(
                render_override_states(journey, &kind).is_empty(),
                "no override for {kind:?} under {journey:?}"
            );
        }
    }
    for journey in [Journey::Registration, Journey::Recovery] {
        assert!(
            render_override_states(journey, &StepKind::MfaEnroll).is_empty(),
            "no enroll override for {journey:?}"
        );
    }
}

#[test]
fn the_override_map_covers_every_journey_a_step_kind_is_authorable_under() {
    for kind in [
        StepKind::IdentifierPassword,
        StepKind::MfaChallenge,
        StepKind::MfaEnroll,
        StepKind::ProgressiveProfiling,
        StepKind::OrgPicker,
        StepKind::Registration,
        StepKind::RecoveryStart,
        StepKind::RecoveryVerify,
        StepKind::Decision,
        StepKind::Terminal,
    ] {
        if kind.is_builtin_only() {
            continue;
        }
        for journey in [
            Journey::Login,
            Journey::Registration,
            Journey::Recovery,
            Journey::Federation,
            Journey::Consent,
            Journey::Mfa,
        ] {
            for tag in render_override_states(journey, &kind) {
                assert!(
                    render_override_states(Journey::Custom, &kind).contains(&tag),
                    "{kind:?} is authorable in a custom artifact and emits {tag:?} under \
                     {journey:?}, so the Custom arm must declare it too"
                );
            }
        }
    }
    assert!(
        !StepKind::MfaEnroll.is_builtin_only(),
        "the enroll kind is authorable in a custom artifact (the case this rule exists for)"
    );
    assert!(
        !render_override_states(Journey::Login, &StepKind::MfaEnroll).is_empty(),
        "the enroll kind declares an override under login (the sweep is not vacuous)"
    );
    assert!(
        StepKind::Registration.is_builtin_only(),
        "the registration kind is builtin only, which is the whole reason its arm is safe"
    );
}

#[test]
fn a_non_converging_journey_folds_to_the_flat_state() {
    for journey in [Journey::Federation, Journey::Consent, Journey::Mfa] {
        assert_eq!(
            wire_state_for(journey, &StepKind::IdentifierPassword),
            FlowStateTag::Custom
        );
    }
}
