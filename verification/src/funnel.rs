//! The funnel metrics of passkeys and one-time codes: which series a response counts in.
//!
//! A funnel is a ratio between two stages, so each stage counts what was attempted and what
//! succeeded. The result is read off the response, the one place that every path of a handler
//! goes through.

use vstd::prelude::*;

verus! {

/// A stage of a passkey ceremony.
#[derive(Debug, Clone, Copy, PartialEq, Eq, Structural)]
pub enum PasskeyStage {
    /// A registration challenge was requested.
    RegisterChallenge,
    /// A registration was submitted.
    RegisterComplete,
    /// An authentication challenge was requested.
    AuthenticateChallenge,
    /// An assertion was submitted.
    AuthenticateComplete,
}

impl PasskeyStage {
    /// The label of the stage.
    pub open spec fn label(self) -> Seq<char> {
        match self {
            PasskeyStage::RegisterChallenge => "register_challenge"@,
            PasskeyStage::RegisterComplete => "register_complete"@,
            PasskeyStage::AuthenticateChallenge => "authenticate_challenge"@,
            PasskeyStage::AuthenticateComplete => "authenticate_complete"@,
        }
    }

    /// The label of the stage.
    pub fn as_str(self) -> (r: &'static str)
        ensures
            r@ == self.label(),
    {
        match self {
            PasskeyStage::RegisterChallenge => "register_challenge",
            PasskeyStage::RegisterComplete => "register_complete",
            PasskeyStage::AuthenticateChallenge => "authenticate_challenge",
            PasskeyStage::AuthenticateComplete => "authenticate_complete",
        }
    }
}

/// The channel of a one-time code.
#[derive(Debug, Clone, Copy, PartialEq, Eq, Structural)]
pub enum OtpChannel {
    /// By email.
    Email,
    /// By text message.
    Sms,
}

impl OtpChannel {
    /// The label of the channel.
    pub open spec fn label(self) -> Seq<char> {
        match self {
            OtpChannel::Email => "email"@,
            OtpChannel::Sms => "sms"@,
        }
    }

    /// The label of the channel.
    pub fn as_str(self) -> (r: &'static str)
        ensures
            r@ == self.label(),
    {
        match self {
            OtpChannel::Email => "email",
            OtpChannel::Sms => "sms",
        }
    }
}

/// A stage of a one-time code.
#[derive(Debug, Clone, Copy, PartialEq, Eq, Structural)]
pub enum OtpStage {
    /// A code was requested.
    Send,
    /// A code was submitted.
    Verify,
}

impl OtpStage {
    /// The label of the stage.
    pub open spec fn label(self) -> Seq<char> {
        match self {
            OtpStage::Send => "send"@,
            OtpStage::Verify => "verify"@,
        }
    }

    /// The label of the stage.
    pub fn as_str(self) -> (r: &'static str)
        ensures
            r@ == self.label(),
    {
        match self {
            OtpStage::Send => "send",
            OtpStage::Verify => "verify",
        }
    }
}

/// Passkey ceremonies, by stage and result.
pub const PASSKEY_FUNNEL_TOTAL: &'static str = "ironauth_passkey_funnel_total";

/// One-time codes, by channel, stage and result.
pub const OTP_FUNNEL_TOTAL: &'static str = "ironauth_otp_funnel_total";

/// The label of the result of a response: only a status from 200 to 299 completes a ceremony.
pub fn result_label(status: u16) -> (r: &'static str)
    ensures
        r@ == (if 200 <= status <= 299 {
            "ok"@
        } else {
            "error"@
        }),
{
    if 200 <= status && status <= 299 {
        "ok"
    } else {
        "error"
    }
}

/// The different series have different labels.
pub proof fn law_stages_have_their_own_labels(a: PasskeyStage, b: PasskeyStage)
    requires
        a.label() == b.label(),
    ensures
        a == b,
{
    reveal_strlit("register_challenge");
    reveal_strlit("register_complete");
    reveal_strlit("authenticate_challenge");
    reveal_strlit("authenticate_complete");
    assert("register_challenge"@.len() == 18 && "register_complete"@.len() == 17);
    assert("authenticate_challenge"@.len() == 22 && "authenticate_complete"@.len() == 21);
}

/// A stage and a channel are labelled after what they are.
pub proof fn law_a_series_is_labelled_after_its_stage()
    ensures
        PasskeyStage::RegisterChallenge.label() == "register_challenge"@,
        PasskeyStage::RegisterComplete.label() == "register_complete"@,
        PasskeyStage::AuthenticateChallenge.label() == "authenticate_challenge"@,
        PasskeyStage::AuthenticateComplete.label() == "authenticate_complete"@,
        OtpChannel::Email.label() == "email"@,
        OtpChannel::Sms.label() == "sms"@,
        OtpStage::Send.label() == "send"@,
        OtpStage::Verify.label() == "verify"@,
{
}

} // verus!
