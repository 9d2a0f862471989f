//! The grant for an assertion of an outside issuer.
//!
//! An assertion that a registered issuer signed is exchanged for an access token of the principal
//! that its subject is mapped to. A subject without a mapping is refused, never provisioned. Every
//! refusal of the assertion or of the mapping looks the same to the caller; the reason is recorded
//! apart, for the operator.

use vstd::prelude::*;

use crate::clock;
use crate::hints;
use crate::jose::JwsAlgorithm;
use crate::json;
use crate::text;
use crate::token_credential;

verus! {

/// What a record of a failure of this grant is marked with.
pub const JWT_BEARER_METHOD_MARKER: &'static str = "jwt-bearer";

/// The name of this grant in a request.
pub const JWT_BEARER_GRANT_TYPE: &'static str = "urn:ietf:params:oauth:grant-type:jwt-bearer";

/// The algorithms that an assertion may be signed with.
pub const ASYMMETRIC_ALGS: [JwsAlgorithm; 9] = [
    JwsAlgorithm::EdDsa,
    JwsAlgorithm::Es256,
    JwsAlgorithm::Es384,
    JwsAlgorithm::Rs256,
    JwsAlgorithm::Rs384,
    JwsAlgorithm::Rs512,
    JwsAlgorithm::Ps256,
    JwsAlgorithm::Ps384,
    JwsAlgorithm::Ps512,
];

// ---------------------------------------------------------------------------
// Refusals
// ---------------------------------------------------------------------------

/// Why a verifier refused a token.
#[derive(Debug, PartialEq, Eq)]
pub enum RejectReason {
    /// It is not addressed to the audience.
    AudienceMismatch,
    /// Another reason, as the verifier calls it.
    Other(String),
}

/// Why an assertion did not verify.
#[derive(Debug, PartialEq, Eq)]
pub enum AssertionReject {
    /// There is no key, no algorithm or no audience to verify it with.
    NoUsableKey,
    /// The verifier refused it.
    Jose(RejectReason),
}

/// What is recorded of a refusal, for the operator alone.
#[derive(Debug, PartialEq, Eq)]
pub enum DiagnosticReason {
    /// The issuer is not registered, or not enabled.
    AssertionIssuerUntrusted,
    /// A claim that has to be there is missing.
    AssertionInvalid,
    /// The assertion did not verify.
    AssertionUnverified(AssertionReject),
    /// The assertion was presented before.
    ReplayedJti,
    /// The subject is mapped to no principal.
    AssertionSubjectUnmapped,
    /// The principal is a user who may not sign in.
    PrincipalNotAuthenticatable,
    /// The client may not ask for this scope.
    ScopeNotAllowlisted,
}

/// Why no principal came of an assertion.
#[derive(Debug, PartialEq, Eq)]
pub enum JwtBearerError {
    /// It is refused; the reason goes to the record.
    Reject(DiagnosticReason),
    /// Something failed that is not the fault of the caller.
    Server,
}

/// The error that a caller of the token endpoint sees.
#[derive(Debug, PartialEq, Eq)]
pub enum TokenError {
    InvalidRequest(String),
    InvalidClient { via_basic: bool },
    InvalidGrant,
    InvalidScope,
    UnauthorizedClient,
    ServerError,
}

// ---------------------------------------------------------------------------
// The issuer
// ---------------------------------------------------------------------------

/// A registered issuer.
pub struct ExternalAssertionIssuer {
    /// Its name in the `iss` claim.
    pub issuer: String,
    /// Its keys, where they are pinned.
    pub jwks: Option<String>,
    /// Where its keys are published.
    pub jwks_uri: Option<String>,
    /// The algorithms that it may sign with.
    pub signing_alg_allow: Option<String>,
    /// The audiences that it may address.
    pub audience_allow: Option<String>,
    /// It is trusted at present.
    pub enabled: bool,
}

/// The algorithms among `names`, in order; a name that is not known is left out.
pub open spec fn algorithms_named(names: Seq<Seq<char>>) -> Seq<JwsAlgorithm>
    decreases names.len(),
{
    if names.len() == 0 {
        Seq::empty()
    } else {
        let rest = algorithms_named(names.drop_last());
        match JwsAlgorithm::of_name(names.last()) {
            Some(alg) => if ASYMMETRIC_ALGS@.contains(alg) {
                rest.push(alg)
            } else {
                rest
            },
            None => rest,
        }
    }
}

/// The algorithms that an issuer may sign with: those that are pinned and supported, or all that
/// are supported where none is pinned.
pub open spec fn algorithms_of(pin: Option<Seq<char>>) -> Seq<JwsAlgorithm> {
    match pin {
        Some(list) => algorithms_named(text::words(list)),
        None => ASYMMETRIC_ALGS@,
    }
}

/// Whether an assertion may be signed with this algorithm at all.
fn is_asymmetric(alg: JwsAlgorithm) -> (r: bool)
    ensures
        r == ASYMMETRIC_ALGS@.contains(alg),
{
    let all = ASYMMETRIC_ALGS;
    let mut i: usize = 0;
    while i < 9
        invariant
            i <= 9,
            all@ == ASYMMETRIC_ALGS@,
            forall|k: int| 0 <= k < i ==> all@[k] != alg,
        decreases 9 - i,
    {
        if all[i] == alg {
            assert(all@[i as int] == alg);
            return true;
        }
        i = i + 1;
    }
    false
}

/// The algorithms that an issuer may sign with. The header of the assertion has no say in it.
pub fn allowed_algs(record: &ExternalAssertionIssuer) -> (r: Vec<JwsAlgorithm>)
    ensures
        r@ == algorithms_of(text::opt_text(record.signing_alg_allow)),
{
    let mut algs: Vec<JwsAlgorithm> = Vec::new();
    match &record.signing_alg_allow {
        Some(list) => {
            let names: Vec<String> = text::words_of(list.as_str());
            let ghost all = text::texts(names@);
            let mut i: usize = 0;
            assert(all.take(0) =~= Seq::empty());
            while i < names.len()
                invariant
                    i <= names@.len(),
                    all == text::texts(names@),
                    algs@ == algorithms_named(all.take(i as int)),
                decreases names@.len() - i,
            {
                assert(all.take(i + 1).drop_last() =~= all.take(i as int));
                match JwsAlgorithm::from_jose_name(names[i].as_str()) {
                    Some(alg) => if is_asymmetric(alg) {
                        algs.push(alg);
                    },
                    None => {},
                }
                i = i + 1;
            }
            assert(all.take(all.len() as int) =~= all);
        },
        None => {
            let supported = ASYMMETRIC_ALGS;
            let mut i: usize = 0;
            while i < 9
                invariant
                    i <= 9,
                    supported@ == ASYMMETRIC_ALGS@,
                    algs@ == supported@.take(i as int),
                decreases 9 - i,
            {
                algs.push(supported[i]);
                i = i + 1;
            }
            assert(supported@.take(9) =~= supported@);
        },
    }
    algs
}

/// Those of the shared audiences that an issuer may address, in order. It can only narrow them.
pub open spec fn narrowed(shared: Seq<Seq<char>>, allow: Option<Seq<char>>) -> Seq<Seq<char>> {
    match allow {
        Some(list) => shared.filter(|a: Seq<char>| text::words(list).contains(a)),
        None => shared,
    }
}

/// The audiences that an assertion of this issuer may be addressed to.
pub fn narrowed_audiences(shared: &Vec<String>, record: &ExternalAssertionIssuer) -> (r: Vec<String>)
    ensures
        text::texts(r@) == narrowed(text::texts(shared@), text::opt_text(record.audience_allow)),
{
    match &record.audience_allow {
        None => text::clone_texts(shared),
        Some(allow) => {
            let permitted: Vec<String> = text::words_of(allow.as_str());
            let ghost all = text::texts(shared@);
            let ghost keep = |a: Seq<char>| text::words(allow@).contains(a);
            let mut list: Vec<String> = Vec::new();
            let mut i: usize = 0;
            proof {
                reveal(Seq::filter);
            }
            assert(text::texts(list@) =~= all.take(0).filter(keep));
            while i < shared.len()
                invariant
                    i <= shared@.len(),
                    all == text::texts(shared@),
                    keep == (|a: Seq<char>| text::words(allow@).contains(a)),
                    text::texts(permitted@) == text::words(allow@),
                    text::texts(list@) == all.take(i as int).filter(keep),
                decreases shared@.len() - i,
            {
                assert(all.take(i + 1).drop_last() =~= all.take(i as int));
                proof {
                    reveal(Seq::filter);
                }
                if text::list_holds(&permitted, shared[i].as_str()) {
                    text::push_text(&mut list, shared[i].as_str());
                }
                i = i + 1;
            }
            assert(all.take(all.len() as int) =~= all);
            list
        },
    }
}

/// Where the keys of an issuer come from.
#[derive(Debug, PartialEq, Eq)]
pub enum KeySource {
    /// They are pinned.
    Inline(String),
    /// They are published here. The key that the assertion claims to be signed with tells whether
    /// keys that were fetched before are out of date; nothing is trusted for it.
    Fetch { uri: String, kid: Option<String> },
    /// There are none, and nothing verifies.
    Nowhere,
}

/// The keys of an issuer come from here: pinned keys come first; published ones need a resolver,
/// which is told the key that the assertion claims to be signed with.
pub open spec fn comes_from(
    record: ExternalAssertionIssuer,
    resolver: bool,
    kid: Option<Seq<char>>,
    source: KeySource,
) -> bool {
    match (record.jwks, record.jwks_uri) {
        (Some(jwks), _) => source matches KeySource::Inline(k) && k@ == jwks@,
        (None, Some(uri)) => if resolver {
            source matches KeySource::Fetch { uri: u, kid: hint } && u@ == uri@ && text::opt_text(
                hint,
            ) == kid
        } else {
            source is Nowhere
        },
        (None, None) => source is Nowhere,
    }
}

/// Where the keys of an issuer come from.
pub fn resolve_issuer_keys(
    record: &ExternalAssertionIssuer,
    resolver: bool,
    kid: Option<&str>,
) -> (r: KeySource)
    ensures
        comes_from(*record, resolver, text::opt_str(kid), r),
{
    match &record.jwks {
        Some(jwks) => KeySource::Inline(jwks.clone()),
        None => match &record.jwks_uri {
            Some(uri) => if resolver {
                KeySource::Fetch {
                    uri: uri.clone(),
                    kid: match kid {
                        Some(k) => Some(k.to_owned()),
                        None => None,
                    },
                }
            } else {
                KeySource::Nowhere
            },
            None => KeySource::Nowhere,
        },
    }
}

// ---------------------------------------------------------------------------
// Verifying
// ---------------------------------------------------------------------------

/// What verifying an assertion against one audience gave.
#[derive(Debug, PartialEq, Eq)]
pub enum VerifyOutcome<V> {
    /// It verified.
    Verified(V),
    /// It was refused.
    Refused(RejectReason),
    /// The keys and algorithms make up no policy.
    NoPolicy,
}

/// What verifying against the audiences one after the other gives, where the trials give
/// `outcomes`: the first that is no mismatch of the audience decides, and where all are one, that
/// is the reason.
pub open spec fn verdict<V>(outcomes: Seq<VerifyOutcome<V>>) -> Result<V, AssertionReject>
    decreases outcomes.len(),
{
    if outcomes.len() == 0 {
        Err(AssertionReject::Jose(RejectReason::AudienceMismatch))
    } else {
        match outcomes[0] {
            VerifyOutcome::Verified(v) => Ok(v),
            VerifyOutcome::NoPolicy => Err(AssertionReject::NoUsableKey),
            VerifyOutcome::Refused(RejectReason::AudienceMismatch) => verdict(outcomes.skip(1)),
            VerifyOutcome::Refused(reason) => Err(AssertionReject::Jose(reason)),
        }
    }
}

/// `trial` can give this outcome for this audience.
pub open spec fn possible<V, F: Fn(&str) -> VerifyOutcome<V>>(
    trial: F,
    audience: Seq<char>,
    outcome: VerifyOutcome<V>,
) -> bool {
    exists|a: &str| a@ == audience && #[trigger] call_ensures(trial, (a,), outcome)
}

/// Trials that could have been made: each is an outcome of `trial` for its audience.
pub open spec fn trials<V, F: Fn(&str) -> VerifyOutcome<V>>(
    trial: F,
    audiences: Seq<Seq<char>>,
    outcomes: Seq<VerifyOutcome<V>>,
) -> bool {
    &&& outcomes.len() <= audiences.len()
    &&& forall|i: int|
        0 <= i < outcomes.len() ==> possible(trial, audiences[i], #[trigger] outcomes[i])
}

/// Verifies an assertion against each of the audiences that it may be addressed to, one after the
/// other, by `trial`, until one decides. With no key, no algorithm or no audience it is refused
/// without a trial.
pub fn verify_external_assertion<K, V, F: Fn(&str) -> VerifyOutcome<V>>(
    keys: &[K],
    algorithms: &[JwsAlgorithm],
    audiences: &Vec<String>,
    trial: F,
) -> (r: Result<V, AssertionReject>)
    requires
        forall|a: &str| call_requires(trial, (a,)),
    ensures
        if keys@.len() == 0 || algorithms@.len() == 0 || audiences@.len() == 0 {
            r == Err::<V, AssertionReject>(AssertionReject::NoUsableKey)
        } else {
            exists|outcomes: Seq<VerifyOutcome<V>>|
                #![trigger verdict(outcomes)]
                {
                    &&& trials(trial, text::texts(audiences@), outcomes)
                    &&& r == verdict(outcomes)
                    &&& r == Err::<V, AssertionReject>(
                        AssertionReject::Jose(RejectReason::AudienceMismatch),
                    ) ==> outcomes.len() == audiences@.len()
                }
        },
{
    if keys.len() == 0 || algorithms.len() == 0 || audiences.len() == 0 {
        return Err(AssertionReject::NoUsableKey);
    }
    let ghost mut outcomes: Seq<VerifyOutcome<V>> = Seq::empty();
    let mut i: usize = 0;
    while i < audiences.len()
        invariant
            i <= audiences@.len(),
            outcomes.len() == i,
            forall|a: &str| call_requires(trial, (a,)),
            trials(trial, text::texts(audiences@), outcomes),
            forall|k: int|
                0 <= k < i ==> #[trigger] outcomes[k] == VerifyOutcome::<V>::Refused(
                    RejectReason::AudienceMismatch,
                ),
            keys@.len() > 0 && algorithms@.len() > 0 && audiences@.len() > 0,
        decreases audiences@.len() - i,
    {
        let audience = audiences[i].as_str();
        let outcome = trial(audience);
        proof {
            assert(text::texts(audiences@)[i as int] == audience@);
            assert(possible(trial, audience@, outcome));
            outcomes = outcomes.push(outcome);
            lemma_verdict_of_the_last(outcomes);
            assert(outcomes.last() == outcome);
        }
        match outcome {
            VerifyOutcome::Verified(v) => return Ok(v),
            VerifyOutcome::NoPolicy => return Err(AssertionReject::NoUsableKey),
            VerifyOutcome::Refused(reason) => match reason {
                RejectReason::AudienceMismatch => {},
                RejectReason::Other(other) => return Err(
                    AssertionReject::Jose(RejectReason::Other(other)),
                ),
            },
        }
        i = i + 1;
    }
    proof {
        lemma_verdict_of_the_last(outcomes);
    }
    Err(AssertionReject::Jose(RejectReason::AudienceMismatch))
}

/// Where all but the last are mismatches of the audience, the last decides.
proof fn lemma_verdict_of_the_last<V>(outcomes: Seq<VerifyOutcome<V>>)
    requires
        outcomes.len() > 0,
        forall|k: int|
            0 <= k < outcomes.len() - 1 ==> #[trigger] outcomes[k] == VerifyOutcome::<V>::Refused(
                RejectReason::AudienceMismatch,
            ),
    ensures
        verdict(outcomes) == (match outcomes.last() {
            VerifyOutcome::Verified(v) => Ok::<V, AssertionReject>(v),
            VerifyOutcome::NoPolicy => Err(AssertionReject::NoUsableKey),
            VerifyOutcome::Refused(reason) => Err(AssertionReject::Jose(reason)),
        }),
    decreases outcomes.len(),
{
    if outcomes.len() == 1 {
        assert(outcomes.skip(1).len() == 0);
        assert(verdict(outcomes.skip(1)) == Err::<V, AssertionReject>(
            AssertionReject::Jose(RejectReason::AudienceMismatch),
        ));
    } else {
        let rest = outcomes.skip(1);
        assert forall|k: int| 0 <= k < rest.len() - 1 implies #[trigger] rest[k]
            == VerifyOutcome::<V>::Refused(RejectReason::AudienceMismatch) by {
            assert(rest[k] == outcomes[k + 1]);
        }
        assert(outcomes[0] == VerifyOutcome::<V>::Refused(RejectReason::AudienceMismatch));
        lemma_verdict_of_the_last(rest);
        assert(rest.last() == outcomes.last());
    }
}

// ---------------------------------------------------------------------------
// The subject
// ---------------------------------------------------------------------------

/// What a mapping rule points at.
#[derive(Debug, Clone, Copy, PartialEq, Eq, Structural)]
pub enum MappedPrincipal {
    /// A user of this scope: whether they may sign in can be read, and decides.
    User,
    /// A user of another scope: that cannot be read here, so the principal is refused.
    ForeignUser,
    /// No user: a workload has no lifecycle.
    Workload,
}

impl MappedPrincipal {
    /// What a principal is: `in_scope` says that it reads as the identifier of a user of this
    /// scope, `of_any_scope` that it reads as one of some scope.
    pub fn classify(in_scope: bool, of_any_scope: bool) -> (r: MappedPrincipal)
        ensures
            r == (if in_scope {
                MappedPrincipal::User
            } else if of_any_scope {
                MappedPrincipal::ForeignUser
            } else {
                MappedPrincipal::Workload
            }),
    {
        if in_scope {
            return MappedPrincipal::User;
        }
        if of_any_scope {
            return MappedPrincipal::ForeignUser;
        }
        MappedPrincipal::Workload
    }
}

/// A mapping rule, as it is stored.
pub struct SubjectMapping {
    /// The principal.
    pub principal: String,
    /// What the principal is.
    pub kind: MappedPrincipal,
    /// A claim that the assertion has to carry.
    pub match_claim: Option<String>,
    /// The value that the claim has to have.
    pub match_value: Option<String>,
}

/// What a verified assertion claims.
pub struct VerifiedAssertion {
    pub subject: Option<String>,
    pub expiration: Option<i64>,
    pub claims: serde_json::Value,
}

/// What became of recording that an assertion was used.
#[derive(Debug, Clone, Copy, PartialEq, Eq, Structural)]
pub enum JtiOutcome {
    Recorded,
    Replayed,
}

/// A principal, with the issuer and the subject that vouch for it.
#[derive(Debug, PartialEq, Eq)]
pub struct MappedFederation {
    pub principal: String,
    pub issuer: String,
    pub subject: String,
}

/// The rule is met: it asks for no claim, or the assertion carries that claim as that string;
/// `actual` is the claim that it asks for. A rule that asks for a claim and gives no value asks for
/// the empty string.
pub open spec fn met(mapping: SubjectMapping, actual: Option<Seq<char>>) -> bool {
    mapping.match_claim is Some ==> actual == Some(
        match mapping.match_value {
            Some(value) => value@,
            None => Seq::empty(),
        },
    )
}

/// Whether the rule is met by this value of the claim that it asks for.
pub fn is_met(mapping: &SubjectMapping, actual: Option<&str>) -> (r: bool)
    ensures
        r == met(*mapping, text::opt_str(actual)),
{
    if mapping.match_claim.is_none() {
        return true;
    }
    match actual {
        Some(text) => match &mapping.match_value {
            Some(value) => text::same(text, value.as_str()),
            None => {
                let empty: bool = text.is_empty();
                assert(empty ==> text@ =~= Seq::empty());
                empty
            },
        },
        None => false,
    }
}

/// The rule is met by an assertion with these claims.
pub open spec fn gate_open(mapping: SubjectMapping, claims: serde_json::Value) -> bool {
    met(
        mapping,
        match mapping.match_claim {
            Some(claim) => json::member_text(claims, claim@),
            None => None,
        },
    )
}

/// Whether an assertion with these claims meets the rule.
pub fn passes_gate(mapping: &SubjectMapping, claims: &serde_json::Value) -> (r: bool)
    ensures
        r == gate_open(*mapping, *claims),
{
    let actual: Option<&str> = match &mapping.match_claim {
        Some(claim) => json::text_member(claims, claim.as_str()),
        None => None,
    };
    is_met(mapping, actual)
}

/// Until when the use of an assertion is remembered, in microseconds: a second longer than it can
/// be accepted.
pub open spec fn remembered_until(exp: i64, skew_secs: u64) -> int {
    let skew = if skew_secs > i64::MAX {
        i64::MAX as int
    } else {
        skew_secs as int
    };
    let secs = clock::saturated(clock::saturated(exp + skew) + 1);
    clock::saturated(secs * 1_000_000)
}

/// What is to be remembered of an assertion with this `jti`: the identifier, and until when. One
/// that is blank is none.
pub fn jti_to_spend(jti: Option<&str>, exp: i64, skew_secs: u64) -> (r: Option<(String, i64)>)
    ensures
        match hints::cleaned(text::opt_str(jti)) {
            Some(id) => r matches Some(p) && p.0@ == id && p.1 == remembered_until(exp, skew_secs),
            None => r is None,
        },
{
    match hints::clean(jti) {
        Some(id) => {
            let skew: i64 = if skew_secs > 0x7fff_ffff_ffff_ffff {
                i64::MAX
            } else {
                skew_secs as i64
            };
            let secs: i64 = clock::saturating_sum(clock::saturating_sum(exp, skew), 1);
            Some((id, clock::micros_of_secs(secs)))
        },
        None => None,
    }
}

/// What is to be remembered of an assertion with these claims so that it is used once.
pub fn spend_optional_jti(claims: &serde_json::Value, exp: i64, skew_secs: u64) -> (r: Option<
    (String, i64),
>)
    ensures
        match hints::cleaned(json::member_text(*claims, "jti"@)) {
            Some(jti) => r matches Some(p) && p.0@ == jti && p.1 == remembered_until(
                exp,
                skew_secs,
            ),
            None => r is None,
        },
{
    jti_to_spend(json::text_member(claims, "jti"), exp, skew_secs)
}

// ---------------------------------------------------------------------------
// From the assertion to the principal
// ---------------------------------------------------------------------------

/// What is known of an assertion so far. What is absent was not looked up yet; an `Err` is a
/// lookup that failed.
pub struct Validation {
    /// The assertion.
    pub assertion: String,
    /// The key that its header names, before anything is verified.
    pub kid: Option<String>,
    /// The audiences that any assertion may be addressed to.
    pub shared_audiences: Vec<String>,
    /// How far clocks may differ, in seconds.
    pub skew_secs: u64,
    /// Published keys can be fetched.
    pub resolver: bool,
    /// The issuer that the assertion names.
    pub issuer: Option<Result<Option<ExternalAssertionIssuer>, ()>>,
    /// What verifying it gave.
    pub verified: Option<Result<VerifiedAssertion, AssertionReject>>,
    /// What became of recording its use.
    pub spent: Option<Result<JtiOutcome, ()>>,
    /// The rule for its subject.
    pub mapping: Option<Result<Option<SubjectMapping>, ()>>,
    /// Whether the principal may sign in.
    pub lifecycle: Option<Result<bool, ()>>,
}

/// What comes next for an assertion.
#[derive(Debug, PartialEq, Eq)]
pub enum ValidationStep {
    /// Look up the issuer of this name.
    FindIssuer(String),
    /// Verify the assertion.
    Verify {
        issuer: String,
        keys: KeySource,
        algorithms: Vec<JwsAlgorithm>,
        audiences: Vec<String>,
        skew_secs: u64,
    },
    /// Record that this issuer's assertion was used.
    SpendJti { issuer: String, jti: String, expires_micros: i64 },
    /// Look up the rule for the subject.
    FindMapping { issuer: String, subject: String },
    /// Read whether the principal may sign in.
    ReadLifecycle(String),
    /// The principal that the subject is mapped to.
    Mapped(MappedFederation),
    /// There is none.
    Failed(JwtBearerError),
}

/// The assertion is refused for this reason.
pub open spec fn refused(step: ValidationStep, reason: DiagnosticReason) -> bool {
    step == ValidationStep::Failed(JwtBearerError::Reject(reason))
}

/// Something failed that is not the fault of the caller.
pub open spec fn faulted(step: ValidationStep) -> bool {
    step == ValidationStep::Failed(JwtBearerError::Server)
}

/// The principal is the one of the rule, and the issuer and the subject are those that vouch.
pub open spec fn federated(
    step: ValidationStep,
    principal: Seq<char>,
    issuer: Seq<char>,
    subject: Seq<char>,
) -> bool {
    step matches ValidationStep::Mapped(m) && m.principal@ == principal && m.issuer@ == issuer
        && m.subject@ == subject
}

/// What comes next once the rule was looked up: a rule whose claim is missing is no rule; a
/// workload passes; a user passes if they may sign in.
pub open spec fn after_mapping(
    v: Validation,
    record: ExternalAssertionIssuer,
    subject: Seq<char>,
    claims: serde_json::Value,
    step: ValidationStep,
) -> bool {
    match v.mapping {
        None => step matches ValidationStep::FindMapping { issuer, subject: s } && issuer@
            == record.issuer@ && s@ == subject,
        Some(Err(_)) => faulted(step),
        Some(Ok(None)) => refused(step, DiagnosticReason::AssertionSubjectUnmapped),
        Some(Ok(Some(mapping))) => if !gate_open(mapping, claims) {
            refused(step, DiagnosticReason::AssertionSubjectUnmapped)
        } else {
            match mapping.kind {
                MappedPrincipal::Workload => federated(
                    step,
                    mapping.principal@,
                    record.issuer@,
                    subject,
                ),
                MappedPrincipal::ForeignUser => refused(
                    step,
                    DiagnosticReason::PrincipalNotAuthenticatable,
                ),
                MappedPrincipal::User => match v.lifecycle {
                    None => step matches ValidationStep::ReadLifecycle(p) && p@
                        == mapping.principal@,
                    Some(Ok(true)) => federated(
                        step,
                        mapping.principal@,
                        record.issuer@,
                        subject,
                    ),
                    Some(Ok(false)) => refused(
                        step,
                        DiagnosticReason::PrincipalNotAuthenticatable,
                    ),
                    Some(Err(_)) => faulted(step),
                },
            }
        },
    }
}

/// What comes next once the assertion was verified: it has to name a subject that is not blank
/// and to expire; then its use is recorded, where it carries a `jti`.
pub open spec fn after_verifying(
    v: Validation,
    record: ExternalAssertionIssuer,
    verified: VerifiedAssertion,
    step: ValidationStep,
) -> bool {
    match (hints::cleaned(text::opt_text(verified.subject)), verified.expiration) {
        (Some(_), Some(exp)) => {
            let subject = verified.subject->0@;
            match hints::cleaned(json::member_text(verified.claims, "jti"@)) {
                None => after_mapping(v, record, subject, verified.claims, step),
                Some(jti) => match v.spent {
                    None => step matches ValidationStep::SpendJti { issuer, jti: j, expires_micros }
                        && issuer@ == record.issuer@ && j@ == jti && expires_micros
                        == remembered_until(exp, v.skew_secs),
                    Some(Err(_)) => faulted(step),
                    Some(Ok(JtiOutcome::Replayed)) => refused(step, DiagnosticReason::ReplayedJti),
                    Some(Ok(JtiOutcome::Recorded)) => after_mapping(
                        v,
                        record,
                        subject,
                        verified.claims,
                        step,
                    ),
                },
            }
        },
        _ => refused(step, DiagnosticReason::AssertionInvalid),
    }
}

/// What comes next for an assertion that names this issuer: find it, which has to be registered and
/// enabled; verify the assertion with what it may use; then see [`after_verifying`].
pub open spec fn follows_claim(v: Validation, claimed: Option<Seq<char>>, step: ValidationStep) -> bool {
    match claimed {
        None => refused(step, DiagnosticReason::AssertionIssuerUntrusted),
        Some(iss) => match v.issuer {
            None => step matches ValidationStep::FindIssuer(name) && name@ == iss,
            Some(Err(_)) => faulted(step),
            Some(Ok(None)) => refused(step, DiagnosticReason::AssertionIssuerUntrusted),
            Some(Ok(Some(record))) => if !record.enabled {
                refused(step, DiagnosticReason::AssertionIssuerUntrusted)
            } else {
                match v.verified {
                    None => step matches ValidationStep::Verify {
                        issuer,
                        keys,
                        algorithms,
                        audiences,
                        skew_secs,
                    } && skew_secs == v.skew_secs && issuer@ == record.issuer@ && algorithms@ == algorithms_of(
                        text::opt_text(record.signing_alg_allow),
                    ) && text::texts(audiences@) == narrowed(
                        text::texts(v.shared_audiences@),
                        text::opt_text(record.audience_allow),
                    ) && comes_from(record, v.resolver, text::opt_text(v.kid), keys),
                    Some(Err(reject)) => refused(
                        step,
                        DiagnosticReason::AssertionUnverified(reject),
                    ),
                    Some(Ok(verified)) => after_verifying(v, record, verified, step),
                }
            },
        },
    }
}

/// What comes next for an assertion.
pub open spec fn follows(v: Validation, step: ValidationStep) -> bool {
    follows_claim(v, token_credential::unverified_text(v.assertion@, "iss"@), step)
}

/// A refusal.
fn refuse(reason: DiagnosticReason) -> (r: ValidationStep)
    ensures
        refused(r, reason),
{
    ValidationStep::Failed(JwtBearerError::Reject(reason))
}

/// A copy of the reason.
fn copied(reject: &AssertionReject) -> (r: AssertionReject)
    ensures
        r == *reject,
{
    match reject {
        AssertionReject::NoUsableKey => AssertionReject::NoUsableKey,
        AssertionReject::Jose(RejectReason::AudienceMismatch) => AssertionReject::Jose(
            RejectReason::AudienceMismatch,
        ),
        AssertionReject::Jose(RejectReason::Other(other)) => AssertionReject::Jose(
            RejectReason::Other(other.clone()),
        ),
    }
}

/// The step behind [`after_mapping`].
fn resolve_mapped_principal(
    v: &Validation,
    record: &ExternalAssertionIssuer,
    subject: &String,
    claims: &serde_json::Value,
) -> (r: ValidationStep)
    ensures
        after_mapping(*v, *record, subject@, *claims, r),
{
    match &v.mapping {
        None => ValidationStep::FindMapping {
            issuer: record.issuer.clone(),
            subject: subject.clone(),
        },
        Some(Err(_)) => ValidationStep::Failed(JwtBearerError::Server),
        Some(Ok(None)) => refuse(DiagnosticReason::AssertionSubjectUnmapped),
        Some(Ok(Some(mapping))) => {
            if !passes_gate(mapping, claims) {
                return refuse(DiagnosticReason::AssertionSubjectUnmapped);
            }
            let passes: bool = match mapping.kind {
                MappedPrincipal::Workload => true,
                MappedPrincipal::ForeignUser => false,
                MappedPrincipal::User => match &v.lifecycle {
                    None => return ValidationStep::ReadLifecycle(mapping.principal.clone()),
                    Some(Ok(can)) => *can,
                    Some(Err(_)) => return ValidationStep::Failed(JwtBearerError::Server),
                },
            };
            if !passes {
                return refuse(DiagnosticReason::PrincipalNotAuthenticatable);
            }
            ValidationStep::Mapped(
                MappedFederation {
                    principal: mapping.principal.clone(),
                    issuer: record.issuer.clone(),
                    subject: subject.clone(),
                },
            )
        },
    }
}

/// The step behind [`after_verifying`].
fn check_claims(v: &Validation, record: &ExternalAssertionIssuer, verified: &VerifiedAssertion) -> (r:
    ValidationStep)
    ensures
        after_verifying(*v, *record, *verified, r),
{
    let named: bool = hints::clean(hints::borrowed(&verified.subject)).is_some();
    match (&verified.subject, verified.expiration) {
        (Some(subject), Some(exp)) => {
            if !named {
                return refuse(DiagnosticReason::AssertionInvalid);
            }
            match spend_optional_jti(&verified.claims, exp, v.skew_secs) {
                None => {},
                Some((jti, expires_micros)) => match &v.spent {
                    None => return ValidationStep::SpendJti {
                        issuer: record.issuer.clone(),
                        jti,
                        expires_micros,
                    },
                    Some(Err(_)) => return ValidationStep::Failed(JwtBearerError::Server),
                    Some(Ok(JtiOutcome::Replayed)) => return refuse(DiagnosticReason::ReplayedJti),
                    Some(Ok(JtiOutcome::Recorded)) => {},
                },
            }
            resolve_mapped_principal(v, record, subject, &verified.claims)
        },
        _ => refuse(DiagnosticReason::AssertionInvalid),
    }
}

/// What comes next for an assertion that names this issuer, from what is known of it.
pub fn validate_claim(v: &Validation, claimed: Option<String>) -> (r: ValidationStep)
    ensures
        follows_claim(*v, text::opt_text(claimed), r),
{
    let claimed = match claimed {
        Some(iss) => iss,
        None => return refuse(DiagnosticReason::AssertionIssuerUntrusted),
    };
    let record = match &v.issuer {
        None => return ValidationStep::FindIssuer(claimed),
        Some(Err(_)) => return ValidationStep::Failed(JwtBearerError::Server),
        Some(Ok(None)) => return refuse(DiagnosticReason::AssertionIssuerUntrusted),
        Some(Ok(Some(record))) => record,
    };
    if !record.enabled {
        return refuse(DiagnosticReason::AssertionIssuerUntrusted);
    }
    match &v.verified {
        None => ValidationStep::Verify {
            issuer: record.issuer.clone(),
            keys: resolve_issuer_keys(record, v.resolver, hints::borrowed(&v.kid)),
            algorithms: allowed_algs(record),
            audiences: narrowed_audiences(&v.shared_audiences, record),
            skew_secs: v.skew_secs,
        },
        Some(Err(reject)) => refuse(DiagnosticReason::AssertionUnverified(copied(reject))),
        Some(Ok(verified)) => check_claims(v, record, verified),
    }
}

/// What comes next for an assertion, from what is known of it.
pub fn validate_and_map(v: &Validation) -> (r: ValidationStep)
    ensures
        follows(*v, r),
{
    validate_claim(v, token_credential::peek_unverified_claim(v.assertion.as_str(), "iss"))
}

// ---------------------------------------------------------------------------
// The grant
// ---------------------------------------------------------------------------

/// An `Authorization` header presents the Basic scheme: behind leading white space stands its
/// name, in any case, and a space.
pub open spec fn basic_scheme(authorization: Seq<char>) -> bool {
    let value = text::trim_start(authorization);
    value.len() >= 6 && text::lower(value.take(6)) == "basic "@
}

/// Whether an `Authorization` header presents the Basic scheme.
pub fn is_basic_scheme(authorization: Option<&str>) -> (r: bool)
    ensures
        r == (authorization matches Some(a) && basic_scheme(a@)),
{
    match authorization {
        None => false,
        Some(value) => {
            let v: Vec<char> = text::chars_of(value);
            let n: usize = v.len();
            let mut i: usize = 0;
            assert(v@.skip(0) =~= v@);
            while i < n && text::is_white_space(v[i])
                invariant
                    n == v@.len(),
                    i <= n,
                    text::trim_start(v@) == text::trim_start(v@.skip(i as int)),
                decreases n - i,
            {
                assert(v@.skip(i as int).skip(1) =~= v@.skip(i + 1));
                i = i + 1;
            }
            assert(text::trim_start(v@) == v@.skip(i as int));
            if n - i < 6 {
                return false;
            }
            let scheme: String = text::string_of_range(&v, i, i + 6);
            assert(scheme@ =~= v@.skip(i as int).take(6));
            text::same(text::to_lower(scheme.as_str()).as_str(), "basic ")
        },
    }
}

/// Why a client was not authenticated.
#[derive(Debug, PartialEq, Eq)]
pub enum ClientAuthError {
    InvalidRequest(String),
    InvalidClient { via_basic: bool },
}

/// The client that a request presents, before it is authenticated.
#[derive(Debug, Clone, Copy, PartialEq, Eq, Structural)]
pub struct PresentedClient {
    /// It came in an `Authorization` header.
    pub via_basic: bool,
    /// Its identifier declares a scope.
    pub scoped: bool,
}

/// What came of the scope that was asked for.
#[derive(Debug, PartialEq, Eq)]
pub enum MachineScope {
    /// It is granted, as it is given here.
    Granted(Option<String>),
    /// It is one that no machine may have.
    Floor,
    /// It is none of those of the client.
    Allowlist,
    /// There is no such client.
    NoClient,
    /// What the client may have could not be read.
    Fault,
}

/// What is known of a request so far. What is absent was not done yet.
pub struct GrantRequest {
    /// The assertion in the request.
    pub assertion: Option<String>,
    /// The `Authorization` header.
    pub authorization: Option<String>,
    /// The scope that is asked for.
    pub requested_scope: Option<String>,
    /// The client that it presents; an `Err` where none can be read.
    pub presented: Option<Result<PresentedClient, ()>>,
    /// The identifier of the client, once it is authenticated.
    pub authenticated: Option<Result<String, ClientAuthError>>,
    /// Whether the client is registered for this grant.
    pub registered: Option<bool>,
    /// What came of the scope.
    pub scope: Option<MachineScope>,
    /// What came of the assertion.
    pub mapped: Option<Result<MappedFederation, JwtBearerError>>,
}

/// What comes next for a request.
#[derive(Debug, PartialEq, Eq)]
pub enum GrantStep {
    /// Read the client that it presents.
    ParseClient,
    /// Authenticate the client.
    Authenticate,
    /// Look up whether the client is registered for this grant.
    CheckRegistration(String),
    /// Look up what the client may have of what it asks for.
    ResolveScope { client_id: String, requested: Option<String> },
    /// Validate this assertion.
    Validate(String),
    /// Mint a token.
    Mint { client_id: String, scope: Option<String>, mapped: MappedFederation },
    /// Refuse it.
    Refuse(TokenError),
    /// Record the reason, and refuse it as an invalid grant.
    RefuseRecorded { client_id: String, assertion: String, reason: DiagnosticReason },
}

/// The error that the caller sees, where the request is refused.
pub open spec fn seen(step: GrantStep) -> Option<TokenError> {
    match step {
        GrantStep::Refuse(error) => Some(error),
        GrantStep::RefuseRecorded { .. } => Some(TokenError::InvalidGrant),
        _ => None,
    }
}

/// The refusal is recorded with this client, assertion and reason.
pub open spec fn recorded(
    step: GrantStep,
    client: Seq<char>,
    assertion: Seq<char>,
    reason: DiagnosticReason,
) -> bool {
    step matches GrantStep::RefuseRecorded { client_id, assertion: a, reason: why } && client_id@
        == client && a@ == assertion && why == reason
}

/// What comes next once the client is authenticated: it has to be registered for this grant, then
/// the scope has to be within policy, and only then is the assertion looked at.
pub open spec fn after_authentication(
    q: GrantRequest,
    assertion: Seq<char>,
    via_basic: bool,
    client: Seq<char>,
    step: GrantStep,
) -> bool {
    match q.registered {
        None => step matches GrantStep::CheckRegistration(id) && id@ == client,
        Some(false) => step == GrantStep::Refuse(TokenError::UnauthorizedClient),
        Some(true) => match q.scope {
            None => step matches GrantStep::ResolveScope { client_id, requested } && client_id@
                == client && text::opt_text(requested) == text::opt_text(q.requested_scope),
            Some(MachineScope::NoClient) => step == GrantStep::Refuse(
                TokenError::InvalidClient { via_basic },
            ),
            Some(MachineScope::Fault) => step == GrantStep::Refuse(TokenError::ServerError),
            Some(MachineScope::Floor) => step == GrantStep::Refuse(TokenError::InvalidScope),
            Some(MachineScope::Allowlist) => recorded(
                step,
                client,
                assertion,
                DiagnosticReason::ScopeNotAllowlisted,
            ),
            Some(MachineScope::Granted(granted)) => match q.mapped {
                None => step matches GrantStep::Validate(a) && a@ == assertion,
                Some(Err(JwtBearerError::Server)) => step == GrantStep::Refuse(
                    TokenError::ServerError,
                ),
                Some(Err(JwtBearerError::Reject(reason))) => recorded(
                    step,
                    client,
                    assertion,
                    reason,
                ),
                Some(Ok(mapped)) => step matches GrantStep::Mint { client_id, scope, mapped: m }
                    && client_id@ == client && text::opt_text(scope) == text::opt_text(granted)
                    && m.principal@ == mapped.principal@ && m.issuer@ == mapped.issuer@
                    && m.subject@ == mapped.subject@,
            },
        },
    }
}

/// What comes next for a request: it has to carry an assertion, and to present a client that is
/// authenticated; then see [`after_authentication`].
pub open spec fn proceeds(q: GrantRequest, step: GrantStep) -> bool {
    match hints::cleaned(text::opt_text(q.assertion)) {
        None => step matches GrantStep::Refuse(TokenError::InvalidRequest(m)) && m@
            == "assertion is required"@,
        Some(assertion) => match q.presented {
            None => step is ParseClient,
            Some(Err(_)) => step == GrantStep::Refuse(
                TokenError::InvalidClient {
                    via_basic: q.authorization matches Some(a) && basic_scheme(a@),
                },
            ),
            Some(Ok(presented)) => if !presented.scoped {
                step == GrantStep::Refuse(
                    TokenError::InvalidClient { via_basic: presented.via_basic },
                )
            } else {
                match q.authenticated {
                    None => step is Authenticate,
                    Some(Err(ClientAuthError::InvalidRequest(why))) => step matches GrantStep::Refuse(
                        TokenError::InvalidRequest(m),
                    ) && m@ == why@,
                    Some(Err(ClientAuthError::InvalidClient { via_basic })) => step
                        == GrantStep::Refuse(TokenError::InvalidClient { via_basic }),
                    Some(Ok(client)) => after_authentication(
                        q,
                        assertion,
                        presented.via_basic,
                        client@,
                        step,
                    ),
                }
            },
        },
    }
}

/// A copy of the reason.
fn copied_reason(reason: &DiagnosticReason) -> (r: DiagnosticReason)
    ensures
        r == *reason,
{
    match reason {
        DiagnosticReason::AssertionIssuerUntrusted => DiagnosticReason::AssertionIssuerUntrusted,
        DiagnosticReason::AssertionInvalid => DiagnosticReason::AssertionInvalid,
        DiagnosticReason::AssertionUnverified(reject) => DiagnosticReason::AssertionUnverified(
            copied(reject),
        ),
        DiagnosticReason::ReplayedJti => DiagnosticReason::ReplayedJti,
        DiagnosticReason::AssertionSubjectUnmapped => DiagnosticReason::AssertionSubjectUnmapped,
        DiagnosticReason::PrincipalNotAuthenticatable => DiagnosticReason::PrincipalNotAuthenticatable,
        DiagnosticReason::ScopeNotAllowlisted => DiagnosticReason::ScopeNotAllowlisted,
    }
}

/// The step behind [`after_authentication`].
fn authorize(q: &GrantRequest, assertion: String, via_basic: bool, client: &String) -> (r: GrantStep)
    ensures
        after_authentication(*q, assertion@, via_basic, client@, r),
{
    match q.registered {
        None => return GrantStep::CheckRegistration(client.clone()),
        Some(false) => return GrantStep::Refuse(TokenError::UnauthorizedClient),
        Some(true) => {},
    }
    let granted = match &q.scope {
        None => return GrantStep::ResolveScope {
            client_id: client.clone(),
            requested: text::clone_opt(&q.requested_scope),
        },
        Some(MachineScope::NoClient) => return GrantStep::Refuse(
            TokenError::InvalidClient { via_basic },
        ),
        Some(MachineScope::Fault) => return GrantStep::Refuse(TokenError::ServerError),
        Some(MachineScope::Floor) => return GrantStep::Refuse(TokenError::InvalidScope),
        Some(MachineScope::Allowlist) => return GrantStep::RefuseRecorded {
            client_id: client.clone(),
            assertion,
            reason: DiagnosticReason::ScopeNotAllowlisted,
        },
        Some(MachineScope::Granted(granted)) => granted,
    };
    match &q.mapped {
        None => GrantStep::Validate(assertion),
        Some(Err(JwtBearerError::Server)) => GrantStep::Refuse(TokenError::ServerError),
        Some(Err(JwtBearerError::Reject(reason))) => GrantStep::RefuseRecorded {
            client_id: client.clone(),
            assertion,
            reason: copied_reason(reason),
        },
        Some(Ok(mapped)) => GrantStep::Mint {
            client_id: client.clone(),
            scope: text::clone_opt(granted),
            mapped: MappedFederation {
                principal: mapped.principal.clone(),
                issuer: mapped.issuer.clone(),
                subject: mapped.subject.clone(),
            },
        },
    }
}

/// What comes next for a request, from what is known of it.
pub fn jwt_bearer_grant(q: &GrantRequest) -> (r: GrantStep)
    ensures
        proceeds(*q, r),
{
    let assertion = match hints::clean(hints::borrowed(&q.assertion)) {
        Some(assertion) => assertion,
        None => return GrantStep::Refuse(
            TokenError::InvalidRequest("assertion is required".to_owned()),
        ),
    };
    let presented = match &q.presented {
        None => return GrantStep::ParseClient,
        Some(Err(_)) => return GrantStep::Refuse(
            TokenError::InvalidClient {
                via_basic: is_basic_scheme(hints::borrowed(&q.authorization)),
            },
        ),
        Some(Ok(presented)) => *presented,
    };
    if !presented.scoped {
        return GrantStep::Refuse(TokenError::InvalidClient { via_basic: presented.via_basic });
    }
    match &q.authenticated {
        None => GrantStep::Authenticate,
        Some(Err(ClientAuthError::InvalidRequest(why))) => GrantStep::Refuse(
            TokenError::InvalidRequest(why.clone()),
        ),
        Some(Err(ClientAuthError::InvalidClient { via_basic })) => GrantStep::Refuse(
            TokenError::InvalidClient { via_basic: *via_basic },
        ),
        Some(Ok(client)) => authorize(q, assertion, presented.via_basic, client),
    }
}

/// What is recorded of a refusal.
#[derive(Debug, PartialEq, Eq)]
pub struct GrantDiagnostic {
    pub client_id: String,
    pub auth_method: &'static str,
    pub reason: DiagnosticReason,
    pub key_id: Option<String>,
    pub signing_alg: Option<String>,
}

/// What is recorded of a refusal, unless recording is off. The algorithm and the key are what the
/// header of the assertion claims.
pub fn record_diagnostic(
    off: bool,
    client_id: String,
    reason: DiagnosticReason,
    signing_alg: Option<String>,
    key_id: Option<String>,
) -> (r: Option<GrantDiagnostic>)
    ensures
        r == (if off {
            None::<GrantDiagnostic>
        } else {
            Some(
                GrantDiagnostic {
                    client_id,
                    auth_method: JWT_BEARER_METHOD_MARKER,
                    reason,
                    key_id,
                    signing_alg,
                },
            )
        }),
{
    if off {
        return None;
    }
    Some(
        GrantDiagnostic {
            client_id,
            auth_method: JWT_BEARER_METHOD_MARKER,
            reason,
            key_id,
            signing_alg,
        },
    )
}

// ---------------------------------------------------------------------------
// The token
// ---------------------------------------------------------------------------

/// A minted access token.
#[derive(Debug, PartialEq, Eq)]
pub enum MintedAccessToken {
    /// One that carries its claims.
    Jwt { token: String, jti: String },
    /// One that is looked up by its digest.
    Opaque {
        token: String,
        digest: String,
        jti: String,
        audiences: Vec<String>,
        expires_at_unix_micros: i64,
    },
}

impl MintedAccessToken {
    /// The token as the client gets it.
    pub open spec fn text(self) -> Seq<char> {
        match self {
            MintedAccessToken::Jwt { token, .. } => token@,
            MintedAccessToken::Opaque { token, .. } => token@,
        }
    }

    /// The token as the client gets it.
    pub fn token(&self) -> (r: &str)
        ensures
            r@ == self.text(),
    {
        match self {
            MintedAccessToken::Jwt { token, .. } => token.as_str(),
            MintedAccessToken::Opaque { token, .. } => token.as_str(),
        }
    }
}

/// What is stored of a minted token, beside the grant.
#[derive(Debug, PartialEq, Eq)]
pub enum AccessRecord {
    Jwt { jti: String },
    Opaque {
        token_digest: String,
        subject: String,
        client_id: String,
        audience: String,
        audiences: Vec<String>,
        scope: Option<String>,
        jti: String,
        expires_at_unix_micros: i64,
    },
}

/// What is stored of a minted token: of one that carries its claims the identifier, of one that
/// does not everything that is said of it later.
pub open spec fn stores(
    minted: MintedAccessToken,
    principal: Seq<char>,
    client_id: Seq<char>,
    requested_scope: Option<Seq<char>>,
    record: AccessRecord,
) -> bool {
    match minted {
        MintedAccessToken::Jwt { token, jti } => record matches AccessRecord::Jwt { jti: j } && j@
            == jti@,
        MintedAccessToken::Opaque { token, digest, jti, audiences, expires_at_unix_micros } => record
            matches AccessRecord::Opaque {
            token_digest,
            subject,
            client_id: c,
            audience,
            audiences: all,
            scope,
            jti: j,
            expires_at_unix_micros: exp,
        } && token_digest@ == digest@ && subject@ == principal && c@ == client_id
            && audience@ == (if audiences@.len() == 0 {
            Seq::empty()
        } else {
            audiences@[0]@
        }) && text::texts(all@) == text::texts(audiences@) && text::opt_text(scope)
            == requested_scope && j@ == jti@ && exp == expires_at_unix_micros,
    }
}

/// What is stored of a minted token: of one that carries its claims the identifier, of one that
/// does not everything that is said of it later. The token itself is not stored.
pub fn access_record(
    minted: &MintedAccessToken,
    principal: &str,
    client_id: &str,
    requested_scope: Option<&str>,
) -> (r: AccessRecord)
    ensures
        stores(*minted, principal@, client_id@, text::opt_str(requested_scope), r),
{
    match minted {
        MintedAccessToken::Jwt { jti, .. } => AccessRecord::Jwt { jti: jti.clone() },
        MintedAccessToken::Opaque { digest, jti, audiences, expires_at_unix_micros, .. } => {
            let audience: String = if audiences.len() == 0 {
                String::new()
            } else {
                audiences[0].clone()
            };
            AccessRecord::Opaque {
                token_digest: digest.clone(),
                subject: principal.to_owned(),
                client_id: client_id.to_owned(),
                audience,
                audiences: text::clone_texts(audiences),
                scope: match requested_scope {
                    Some(s) => Some(s.to_owned()),
                    None => None,
                },
                jti: jti.clone(),
                expires_at_unix_micros: *expires_at_unix_micros,
            }
        },
    }
}

/// The members of the response: there is no refresh token, and no ID token.
pub open spec fn response_members(
    token: Seq<char>,
    expires_in: i64,
    scope: Option<Seq<char>>,
) -> Seq<(Seq<char>, json::FieldView)> {
    seq![
        ("access_token"@, json::FieldView::Text(token)),
        ("token_type"@, json::FieldView::Text("Bearer"@)),
        ("expires_in"@, json::FieldView::Int(expires_in as int)),
    ] + json::text_field("scope"@, scope)
}

/// The members of the response, as they are written.
pub fn members(minted: &MintedAccessToken, expires_in: i64, scope: Option<&str>) -> (r: Vec<
    (String, json::Field),
>)
    ensures
        json::members_view(r@) == response_members(minted.text(), expires_in, text::opt_str(scope)),
{
    let mut v: Vec<(String, json::Field)> = Vec::new();
    json::put(&mut v, "access_token", json::Field::Text(minted.token().to_owned()));
    json::put(&mut v, "token_type", json::Field::Text("Bearer".to_owned()));
    json::put(&mut v, "expires_in", json::Field::Int(expires_in));
    match scope {
        Some(s) => json::put(&mut v, "scope", json::Field::Text(s.to_owned())),
        None => {},
    }
    assert(json::members_view(v@) =~= response_members(
        minted.text(),
        expires_in,
        text::opt_str(scope),
    ));
    v
}

/// The body of the response.
pub fn jwt_bearer_response(minted: &MintedAccessToken, expires_in: i64, scope: Option<&str>) -> (r:
    String)
    ensures
        r@ == json::json_object_text(
            response_members(minted.text(), expires_in, text::opt_str(scope)),
        ),
{
    let v = members(minted, expires_in, scope);
    json::object_text(&v)
}

/// What is known of minting so far. What is absent was not done yet; an `Err` is a step that
/// failed.
pub struct Minting {
    /// The present moment, in nanoseconds since the epoch.
    pub now: i128,
    /// The token's audience was resolved.
    pub target: Option<Result<(), ()>>,
    /// The issuer was loaded; an `Err` says what the caller sees.
    pub issuer: Option<Result<(), TokenError>>,
    /// There is a key to sign with at present.
    pub signer: bool,
    /// The client's own claims were worked out.
    pub claims: Option<Result<(), ()>>,
    /// The token, and for how many seconds it is good.
    pub minted: Option<Result<(MintedAccessToken, i64), ()>>,
    /// The identifier of the client can be read.
    pub client: bool,
    /// The grant was stored; an `Err` says what the caller sees.
    pub stored: Option<Result<(), TokenError>>,
}

/// What comes next in minting.
#[derive(Debug, PartialEq, Eq)]
pub enum MintStep {
    /// Resolve the audience, which is this client.
    ResolveTarget { client_id: String },
    /// Load the issuer.
    LoadIssuer,
    /// Work out what this client adds to a token of this grant for this subject.
    MapClaims { client_id: String, grant_type: &'static str, subject: String },
    /// Mint a token.
    Mint { subject: String, client_id: String, scope: Option<String> },
    /// Store a new grant with this record, and who vouched for it.
    Store {
        subject: String,
        client_id: String,
        created_at_unix_micros: i64,
        record: AccessRecord,
        issuer: String,
        federated_subject: String,
    },
    /// Answer with this body.
    Respond(String),
    /// Refuse.
    Refuse(TokenError),
}

/// A copy of the error.
fn copied_error(error: &TokenError) -> (r: TokenError)
    ensures
        r == *error,
{
    match error {
        TokenError::InvalidRequest(m) => TokenError::InvalidRequest(m.clone()),
        TokenError::InvalidClient { via_basic } => TokenError::InvalidClient {
            via_basic: *via_basic,
        },
        TokenError::InvalidGrant => TokenError::InvalidGrant,
        TokenError::InvalidScope => TokenError::InvalidScope,
        TokenError::UnauthorizedClient => TokenError::UnauthorizedClient,
        TokenError::ServerError => TokenError::ServerError,
    }
}

/// What comes next in minting: the audience, the issuer and its key, what the client adds, the token,
/// and the grant. The token is the principal's, for the client, with the scope that was granted;
/// the grant is stored with the issuer and the subject that vouch for the principal.
pub open spec fn mints(
    m: Minting,
    mapped: MappedFederation,
    client: Seq<char>,
    granted: Option<Seq<char>>,
    step: MintStep,
) -> bool {
    let principal = mapped.principal@;
    match m.target {
        None => step matches MintStep::ResolveTarget { client_id } && client_id@ == client,
        Some(Err(_)) => step == MintStep::Refuse(TokenError::ServerError),
        Some(Ok(_)) => match m.issuer {
            None => step is LoadIssuer,
            Some(Err(error)) => step == MintStep::Refuse(error),
            Some(Ok(_)) => if !m.signer {
                step == MintStep::Refuse(TokenError::ServerError)
            } else {
                match m.claims {
                    None => step matches MintStep::MapClaims { client_id, grant_type, subject }
                        && client_id@ == client && grant_type@ == JWT_BEARER_GRANT_TYPE@
                        && subject@ == principal,
                    Some(Err(_)) => step == MintStep::Refuse(TokenError::ServerError),
                    Some(Ok(_)) => match m.minted {
                        None => step matches MintStep::Mint { subject, client_id, scope }
                            && subject@ == principal && client_id@ == client && text::opt_text(
                            scope,
                        ) == granted,
                        Some(Err(_)) => step == MintStep::Refuse(TokenError::ServerError),
                        Some(Ok((minted, expires_in))) => if !m.client {
                            step == MintStep::Refuse(TokenError::ServerError)
                        } else {
                            match m.stored {
                                None => step matches MintStep::Store {
                                    subject,
                                    client_id,
                                    created_at_unix_micros,
                                    record,
                                    issuer,
                                    federated_subject,
                                } && subject@ == principal && client_id@ == client
                                    && created_at_unix_micros == clock::micros_of(m.now) && stores(
                                    minted,
                                    principal,
                                    client,
                                    granted,
                                    record,
                                ) && issuer@ == mapped.issuer@ && federated_subject@
                                    == mapped.subject@,
                                Some(Err(error)) => step == MintStep::Refuse(error),
                                Some(Ok(_)) => step matches MintStep::Respond(body) && body@
                                    == json::json_object_text(
                                    response_members(minted.text(), expires_in, granted),
                                ),
                            }
                        },
                    },
                }
            },
        },
    }
}

/// What comes next in minting, from what is known of it. A token goes out only once it was minted
/// and its grant was stored.
pub fn mint_and_persist(
    m: &Minting,
    mapped: &MappedFederation,
    client_id: &str,
    requested_scope: Option<&str>,
) -> (r: MintStep)
    ensures
        mints(*m, *mapped, client_id@, text::opt_str(requested_scope), r),
{
    match &m.target {
        None => return MintStep::ResolveTarget { client_id: client_id.to_owned() },
        Some(Err(_)) => return MintStep::Refuse(TokenError::ServerError),
        Some(Ok(_)) => {},
    }
    match &m.issuer {
        None => return MintStep::LoadIssuer,
        Some(Err(error)) => return MintStep::Refuse(copied_error(error)),
        Some(Ok(_)) => {},
    }
    if !m.signer {
        return MintStep::Refuse(TokenError::ServerError);
    }
    match &m.claims {
        None => return MintStep::MapClaims {
            client_id: client_id.to_owned(),
            grant_type: JWT_BEARER_GRANT_TYPE,
            subject: mapped.principal.clone(),
        },
        Some(Err(_)) => return MintStep::Refuse(TokenError::ServerError),
        Some(Ok(_)) => {},
    }
    match &m.minted {
        None => MintStep::Mint {
            subject: mapped.principal.clone(),
            client_id: client_id.to_owned(),
            scope: match requested_scope {
                Some(s) => Some(s.to_owned()),
                None => None,
            },
        },
        Some(Err(_)) => MintStep::Refuse(TokenError::ServerError),
        Some(Ok((minted, expires_in))) => {
            if !m.client {
                return MintStep::Refuse(TokenError::ServerError);
            }
            match &m.stored {
                None => MintStep::Store {
                    subject: mapped.principal.clone(),
                    client_id: client_id.to_owned(),
                    created_at_unix_micros: clock::epoch_micros(m.now),
                    record: access_record(
                        minted,
                        mapped.principal.as_str(),
                        client_id,
                        requested_scope,
                    ),
                    issuer: mapped.issuer.clone(),
                    federated_subject: mapped.subject.clone(),
                },
                Some(Err(error)) => MintStep::Refuse(copied_error(error)),
                Some(Ok(_)) => MintStep::Respond(
                    jwt_bearer_response(minted, *expires_in, requested_scope),
                ),
            }
        },
    }
}

// ---------------------------------------------------------------------------
// Laws
// ---------------------------------------------------------------------------

/// The allowlist of an issuer only narrows the audiences: what is left was shared, and what was
/// shared and is allowed is left. With nothing in common, nothing is left.
pub proof fn law_an_allowlist_never_widens(shared: Seq<Seq<char>>, allow: Seq<char>)
    ensures
        forall|a: Seq<char>| #[trigger]
            narrowed(shared, Some(allow)).contains(a) <==> shared.contains(a) && text::words(
                allow,
            ).contains(a),
        narrowed(shared, None) == shared,
        (forall|a: Seq<char>| shared.contains(a) ==> !text::words(allow).contains(a)) ==> narrowed(
            shared,
            Some(allow),
        ).len() == 0,
    decreases shared.len(),
{
    reveal(Seq::filter);
    let keep = |a: Seq<char>| text::words(allow).contains(a);
    let left = narrowed(shared, Some(allow));
    assert(left == shared.filter(keep));
    if shared.len() > 0 {
        let rest = shared.drop_last();
        law_an_allowlist_never_widens(rest, allow);
        let left_of_rest = narrowed(rest, Some(allow));
        let last = shared.last();
        assert forall|a: Seq<char>| #[trigger] left.contains(a) <==> shared.contains(a)
            && text::words(allow).contains(a) by {
            assert(left_of_rest.contains(a) <==> rest.contains(a) && text::words(allow).contains(a));
            if rest.contains(a) {
                let k = choose|k: int| 0 <= k < rest.len() && rest[k] == a;
                assert(shared[k] == a);
            }
            if shared.contains(a) && a != last {
                let k = choose|k: int| 0 <= k < shared.len() && shared[k] == a;
                assert(rest[k] == a);
            }
            if keep(last) {
                assert(left == left_of_rest.push(last));
                if left_of_rest.contains(a) {
                    let k = choose|k: int| 0 <= k < left_of_rest.len() && left_of_rest[k] == a;
                    assert(left[k] == a);
                }
                if left.contains(a) && a != last {
                    let k = choose|k: int| 0 <= k < left.len() && left[k] == a;
                    assert(left_of_rest[k] == a);
                }
                assert(left[left.len() - 1] == last);
                assert(shared[shared.len() - 1] == last);
            } else {
                assert(left == left_of_rest);
            }
        }
    }
    if left.len() > 0 {
        assert(left.contains(left[0]));
    }
}

proof fn lemma_named_are_supported(names: Seq<Seq<char>>)
    ensures
        forall|i: int|
            0 <= i < algorithms_named(names).len() ==> ASYMMETRIC_ALGS@.contains(
                #[trigger] algorithms_named(names)[i],
            ),
    decreases names.len(),
{
    if names.len() > 0 {
        lemma_named_are_supported(names.drop_last());
    }
}

/// Whatever is pinned, an assertion is only ever verified with an algorithm that is supported.
pub proof fn law_a_pin_brings_in_no_algorithm(pin: Option<Seq<char>>)
    ensures
        forall|i: int|
            0 <= i < algorithms_of(pin).len() ==> ASYMMETRIC_ALGS@.contains(
                #[trigger] algorithms_of(pin)[i],
            ),
{
    match pin {
        Some(list) => lemma_named_are_supported(text::words(list)),
        None => {},
    }
}

/// A principal comes only of an assertion that verified under an enabled issuer, with a rule for
/// its subject whose claim it carries, and is a workload or a user who may sign in. Where the
/// assertion carries a `jti`, it was not used before.
pub proof fn law_only_a_mapped_subject_gets_a_principal(v: Validation, step: ValidationStep)
    requires
        follows(v, step),
        step is Mapped,
    ensures
        v.issuer matches Some(Ok(Some(record))) && record.enabled,
        v.verified matches Some(Ok(verified)) && v.mapping matches Some(Ok(Some(mapping)))
            && gate_open(mapping, verified.claims) && (mapping.kind is Workload || (
        mapping.kind is User && v.lifecycle == Some(Ok::<bool, ()>(true)))) && (hints::cleaned(
            json::member_text(verified.claims, "jti"@),
        ) is Some ==> v.spent == Some(Ok::<JtiOutcome, ()>(JtiOutcome::Recorded)))
            && step->Mapped_0.principal@ == mapping.principal@ && step->Mapped_0.subject@
            == verified.subject->0@,
{
}

/// A token is minted and stored for the principal that the subject is mapped to, and for the client
/// that presented the assertion; what vouched for it is stored with it, and it goes out only once
/// it was stored.
pub proof fn law_a_grant_names_who_vouched(
    m: Minting,
    mapped: MappedFederation,
    client: Seq<char>,
    granted: Option<Seq<char>>,
    step: MintStep,
)
    requires
        mints(m, mapped, client, granted, step),
    ensures
        step matches MintStep::Mint { subject, client_id, .. } ==> subject@ == mapped.principal@
            && client_id@ == client,
        step matches MintStep::Store { subject, client_id, issuer, federated_subject, .. }
            ==> subject@ == mapped.principal@ && client_id@ == client && issuer@ == mapped.issuer@
            && federated_subject@ == mapped.subject@,
        step is Respond ==> m.stored matches Some(Ok(_)),
{
}

/// A scope that is out of policy is refused before the assertion is looked at, so that it does
/// not use the assertion up.
pub proof fn law_the_scope_is_settled_first(q: GrantRequest, step: GrantStep)
    requires
        proceeds(q, step),
        step is Validate || step is Mint,
    ensures
        q.scope matches Some(MachineScope::Granted(_)),
        q.registered == Some(true),
        q.authenticated matches Some(Ok(_)),
{
}

/// The caller cannot tell one refusal of an assertion from another, nor from a scope that the
/// client may not have.
pub proof fn law_refusals_look_alike(
    q: GrantRequest,
    one: DiagnosticReason,
    other: DiagnosticReason,
    first: GrantStep,
    second: GrantStep,
    third: GrantStep,
)
    requires
        proceeds(
            (GrantRequest { mapped: Some(Err(JwtBearerError::Reject(one))), ..q }),
            first,
        ),
        proceeds(
            (GrantRequest { mapped: Some(Err(JwtBearerError::Reject(other))), ..q }),
            second,
        ),
        proceeds((GrantRequest { scope: Some(MachineScope::Allowlist), ..q }), third),
        first is RefuseRecorded,
    ensures
        seen(first) == Some(TokenError::InvalidGrant),
        seen(second) == seen(first),
        seen(third) == seen(first),
{
}

/// That an assertion was used is remembered for longer than it can be accepted. A clock skew that
/// does not fit in the seconds of a moment is left out.
pub proof fn law_a_used_assertion_is_remembered(exp: i64, skew_secs: u64)
    requires
        skew_secs <= i64::MAX,
    ensures
        remembered_until(exp, skew_secs) == i64::MAX || remembered_until(exp, skew_secs) > (exp
            + skew_secs) * 1_000_000,
{
}

proof fn lemma_blank(s: Seq<char>)
    ensures
        (hints::cleaned(Some(s)) is Some) <==> (exists|k: int|
            0 <= k < s.len() && !text::white_space(#[trigger] s[k])),
{
    text::law_nothing_is_left_of_a_blank(s);
}

/// The claim that a rule asks for is that member of the assertion, as a text, with the value of the
/// rule; a rule without a value asks for an empty text, and one without a claim asks for nothing.
pub proof fn law_a_rule_asks_for_its_claim(
    mapping: SubjectMapping,
    claims: serde_json::Value,
    actual: serde_json::Value,
)
    ensures
        mapping.match_claim is None ==> gate_open(mapping, claims),
        mapping.match_claim matches Some(name) ==> {
            &&& json::json_member(claims, name@) is None ==> !gate_open(mapping, claims)
            &&& json::json_member(claims, name@) == Some(actual) && json::json_text(actual) is None
                ==> !gate_open(mapping, claims)
            &&& json::json_member(claims, name@) == Some(actual) ==> (json::json_text(
                actual,
            ) matches Some(text) ==> {
                &&& (mapping.match_value matches Some(value) ==> (gate_open(mapping, claims)
                    <==> text == value@))
                &&& mapping.match_value is None ==> (gate_open(mapping, claims) <==> text.len()
                    == 0)
            })
        },
{
    if mapping.match_claim is Some && json::json_member(claims, mapping.match_claim->0@) == Some(
        actual,
    ) && json::json_text(actual) is Some {
        let text = json::json_text(actual)->0;
        assert(text.len() == 0 ==> text =~= Seq::empty());
    }
}

/// An assertion that verified under a registered and enabled issuer, that names a subject and
/// expires, that was not used before where it carries an identifier, and for whose subject there is
/// a rule that it meets, gives the principal of the rule: at once where that is a workload, and for
/// a user of this scope once they are known to be allowed to sign in.
pub proof fn law_a_mapped_subject_gets_its_principal(
    v: Validation,
    step: ValidationStep,
    record: ExternalAssertionIssuer,
    verified: VerifiedAssertion,
    mapping: SubjectMapping,
    k: int,
)
    requires
        follows(v, step),
        token_credential::unverified_text(v.assertion@, "iss"@) is Some,
        v.issuer == Some(Ok::<Option<ExternalAssertionIssuer>, ()>(Some(record))),
        record.enabled,
        v.verified == Some(Ok::<VerifiedAssertion, AssertionReject>(verified)),
        verified.subject is Some,
        0 <= k < verified.subject->0@.len(),
        !text::white_space(verified.subject->0@[k]),
        verified.expiration is Some,
        json::json_member(verified.claims, "jti"@) is None || v.spent == Some(
            Ok::<JtiOutcome, ()>(JtiOutcome::Recorded),
        ),
        v.mapping == Some(Ok::<Option<SubjectMapping>, ()>(Some(mapping))),
        gate_open(mapping, verified.claims),
    ensures
        mapping.kind is Workload || (mapping.kind is User && v.lifecycle == Some(
            Ok::<bool, ()>(true),
        )) ==> (step matches ValidationStep::Mapped(m) && m.principal@ == mapping.principal@
            && m.issuer@ == record.issuer@ && m.subject@ == verified.subject->0@),
        mapping.kind is User && v.lifecycle is None ==> (step matches ValidationStep::ReadLifecycle(
            p,
        ) && p@ == mapping.principal@),
        mapping.kind is User && v.lifecycle == Some(Ok::<bool, ()>(false)) ==> step
            == ValidationStep::Failed(
            JwtBearerError::Reject(DiagnosticReason::PrincipalNotAuthenticatable),
        ),
        mapping.kind is User && v.lifecycle == Some(Err::<bool, ()>(())) ==> step
            == ValidationStep::Failed(JwtBearerError::Server),
        mapping.kind is ForeignUser ==> step == ValidationStep::Failed(
            JwtBearerError::Reject(DiagnosticReason::PrincipalNotAuthenticatable),
        ),
{
    lemma_blank(verified.subject->0@);
}

/// Whatever a subject is mapped to, the principal is that of the rule, and the issuer and the
/// subject that vouch for it are the registered one and the one that verified.
pub proof fn law_a_principal_is_vouched_for_by_who_signed(v: Validation, step: ValidationStep)
    requires
        follows(v, step),
        step is Mapped,
    ensures
        v.issuer matches Some(Ok(Some(record))) && record.enabled && step->Mapped_0.issuer@
            == record.issuer@,
        v.mapping matches Some(Ok(Some(mapping))) && !(mapping.kind is ForeignUser)
            && step->Mapped_0.principal@ == mapping.principal@,
        v.verified matches Some(Ok(verified)) && (verified.subject matches Some(s)
            && step->Mapped_0.subject@ == s@) && verified.expiration is Some,
{
}

/// An assertion goes its way: its issuer is looked up by the name that it claims, and is trusted
/// where it is registered and enabled; it is verified with what that issuer may use; its use is
/// recorded; and the rule for its subject is looked up under that issuer.
pub proof fn law_an_assertion_goes_its_way(v: Validation, step: ValidationStep)
    requires
        follows(v, step),
    ensures
        token_credential::unverified_text(v.assertion@, "iss"@) is None ==> step
            == ValidationStep::Failed(
            JwtBearerError::Reject(DiagnosticReason::AssertionIssuerUntrusted),
        ),
        token_credential::unverified_text(v.assertion@, "iss"@) matches Some(iss) ==> {
            &&& v.issuer is None ==> (step matches ValidationStep::FindIssuer(n) && n@ == iss)
            &&& v.issuer == Some(Err::<Option<ExternalAssertionIssuer>, ()>(())) ==> step
                == ValidationStep::Failed(JwtBearerError::Server)
            &&& v.issuer == Some(Ok::<Option<ExternalAssertionIssuer>, ()>(None)) ==> step
                == ValidationStep::Failed(
                JwtBearerError::Reject(DiagnosticReason::AssertionIssuerUntrusted),
            )
            &&& (v.issuer matches Some(Ok(Some(record))) ==> (!record.enabled ==> step
                == ValidationStep::Failed(
                JwtBearerError::Reject(DiagnosticReason::AssertionIssuerUntrusted),
            )))
            &&& (v.issuer matches Some(Ok(Some(record))) ==> (record.enabled && v.verified is None
                ==> (step matches ValidationStep::Verify {
                issuer,
                keys,
                algorithms,
                audiences,
                skew_secs,
            } && issuer@ == record.issuer@ && skew_secs == v.skew_secs && (record.audience_allow is None
                ==> text::texts(audiences@) == text::texts(v.shared_audiences@)) && (
            record.jwks matches Some(pinned) ==> (keys matches KeySource::Inline(k) && k@
                == pinned@)) && (record.jwks is None && record.jwks_uri is None
                ==> keys is Nowhere) && (record.jwks is None && v.resolver ==> (
            record.jwks_uri matches Some(uri) ==> (keys matches KeySource::Fetch { uri: u, kid }
                && u@ == uri@ && text::opt_text(kid) == text::opt_text(v.kid)))) && (
            record.jwks is None && !v.resolver ==> keys is Nowhere))))
            &&& (v.issuer matches Some(Ok(Some(record))) ==> (v.verified matches Some(Err(reject))
                ==> (record.enabled ==> step == ValidationStep::Failed(
                JwtBearerError::Reject(DiagnosticReason::AssertionUnverified(reject)),
            ))))
        },
{
}

/// Once an assertion verified, one without a subject that is not blank, or without an expiry, is
/// invalid; one with an identifier is recorded as used under its issuer, and is refused where it
/// was used before; and then the rule for its subject is looked up under its issuer.
pub proof fn law_a_verified_assertion_is_used_once(
    v: Validation,
    step: ValidationStep,
    record: ExternalAssertionIssuer,
    verified: VerifiedAssertion,
    jti: serde_json::Value,
)
    requires
        follows(v, step),
        token_credential::unverified_text(v.assertion@, "iss"@) is Some,
        v.issuer == Some(Ok::<Option<ExternalAssertionIssuer>, ()>(Some(record))),
        record.enabled,
        v.verified == Some(Ok::<VerifiedAssertion, AssertionReject>(verified)),
    ensures
        verified.subject is None || verified.expiration is None ==> step == ValidationStep::Failed(
            JwtBearerError::Reject(DiagnosticReason::AssertionInvalid),
        ),
        verified.subject matches Some(s) ==> ((forall|k: int|
            0 <= k < s@.len() ==> text::white_space(#[trigger] s@[k])) ==> step
            == ValidationStep::Failed(JwtBearerError::Reject(DiagnosticReason::AssertionInvalid))),
        verified.subject matches Some(s) ==> (verified.expiration matches Some(exp) ==> ((exists|
            k: int,
        |
            0 <= k < s@.len() && !text::white_space(#[trigger] s@[k])) ==> {
            &&& json::json_member(verified.claims, "jti"@) == Some(jti) ==> (json::json_text(
                jti,
            ) matches Some(id) ==> ((exists|k: int|
                0 <= k < id.len() && !text::white_space(#[trigger] id[k])) ==> {
                &&& v.spent is None ==> (step matches ValidationStep::SpendJti {
                    issuer,
                    jti: j,
                    expires_micros,
                } && issuer@ == record.issuer@ && j@ == text::trim(id) && (0 <= exp && exp
                    + v.skew_secs + 1 <= 9_000_000_000_000 ==> expires_micros == (exp + v.skew_secs
                    + 1) * 1_000_000))
                &&& v.spent == Some(Ok::<JtiOutcome, ()>(JtiOutcome::Replayed)) ==> step
                    == ValidationStep::Failed(
                    JwtBearerError::Reject(DiagnosticReason::ReplayedJti),
                )
                &&& v.spent == Some(Err::<JtiOutcome, ()>(())) ==> step == ValidationStep::Failed(
                    JwtBearerError::Server,
                )
            }))
            &&& json::json_member(verified.claims, "jti"@) is None || v.spent == Some(
                Ok::<JtiOutcome, ()>(JtiOutcome::Recorded),
            ) ==> {
                &&& v.mapping is None ==> (step matches ValidationStep::FindMapping {
                    issuer,
                    subject,
                } && issuer@ == record.issuer@ && subject@ == s@)
                &&& v.mapping == Some(Ok::<Option<SubjectMapping>, ()>(None)) ==> step
                    == ValidationStep::Failed(
                    JwtBearerError::Reject(DiagnosticReason::AssertionSubjectUnmapped),
                )
                &&& v.mapping == Some(Err::<Option<SubjectMapping>, ()>(())) ==> step
                    == ValidationStep::Failed(JwtBearerError::Server)
                &&& (v.mapping matches Some(Ok(Some(mapping))) ==> (!gate_open(
                    mapping,
                    verified.claims,
                ) ==> step == ValidationStep::Failed(
                    JwtBearerError::Reject(DiagnosticReason::AssertionSubjectUnmapped),
                )))
            }
        })),
{
    if verified.subject is Some {
        lemma_blank(verified.subject->0@);
    }
    if json::json_text(jti) is Some {
        lemma_blank(json::json_text(jti)->0);
    }
}

/// An issuer may sign with each algorithm that is pinned for it, and with no other; where none is
/// pinned, with all nine.
pub proof fn law_a_pinned_algorithm_is_allowed(pin: Seq<char>, alg: JwsAlgorithm)
    ensures
        algorithms_of(Some(pin)).contains(alg) <==> text::words(pin).contains(alg.name()),
        algorithms_of(None).contains(alg),
{
    lemma_named(text::words(pin), alg);
    lemma_supported(alg);
}

proof fn lemma_supported(alg: JwsAlgorithm)
    ensures
        ASYMMETRIC_ALGS@.contains(alg),
{
    let all = ASYMMETRIC_ALGS@;
    assert(all[0] is EdDsa && all[1] is Es256 && all[2] is Es384 && all[3] is Rs256 && all[4] is Rs384
        && all[5] is Rs512 && all[6] is Ps256 && all[7] is Ps384 && all[8] is Ps512);
    match alg {
        JwsAlgorithm::EdDsa => assert(all[0] == alg),
        JwsAlgorithm::Es256 => assert(all[1] == alg),
        JwsAlgorithm::Es384 => assert(all[2] == alg),
        JwsAlgorithm::Rs256 => assert(all[3] == alg),
        JwsAlgorithm::Rs384 => assert(all[4] == alg),
        JwsAlgorithm::Rs512 => assert(all[5] == alg),
        JwsAlgorithm::Ps256 => assert(all[6] == alg),
        JwsAlgorithm::Ps384 => assert(all[7] == alg),
        JwsAlgorithm::Ps512 => assert(all[8] == alg),
    }
}

proof fn lemma_named(names: Seq<Seq<char>>, alg: JwsAlgorithm)
    ensures
        algorithms_named(names).contains(alg) <==> names.contains(alg.name()),
    decreases names.len(),
{
    if names.len() > 0 {
        let rest = names.drop_last();
        let named = algorithms_named(rest);
        let all = algorithms_named(names);
        lemma_named(rest, alg);
        crate::jose::law_an_algorithm_is_known_by_its_name(alg, names.last());
        lemma_supported(alg);
        if named.contains(alg) {
            let k = choose|k: int| 0 <= k < named.len() && named[k] == alg;
            assert(all[k] == alg);
            let j = choose|j: int| 0 <= j < rest.len() && rest[j] == alg.name();
            assert(names[j] == alg.name());
        }
        if names.last() == alg.name() {
            assert(all.last() == alg);
            assert(names[names.len() - 1] == alg.name());
        }
        if all.contains(alg) && !named.contains(alg) {
            let k = choose|k: int| 0 <= k < all.len() && all[k] == alg;
            assert(all.len() == named.len() + 1);
            assert(all.last() == alg) by {
                if k < named.len() {
                    assert(named[k] == alg);
                }
            }
        }
        if names.contains(alg.name()) && names.last() != alg.name() {
            let k = choose|k: int| 0 <= k < names.len() && names[k] == alg.name();
            assert(rest[k] == alg.name());
        }
    }
}

/// The first trial that is anything but a mismatch of the audience decides, for or against; where
/// all are mismatches, that is the reason.
pub proof fn law_the_first_decisive_trial_decides<V>(outcomes: Seq<VerifyOutcome<V>>, k: int)
    requires
        0 <= k <= outcomes.len(),
        forall|i: int|
            0 <= i < k ==> #[trigger] outcomes[i] == VerifyOutcome::<V>::Refused(
                RejectReason::AudienceMismatch,
            ),
    ensures
        k == outcomes.len() ==> verdict(outcomes) == Err::<V, AssertionReject>(
            AssertionReject::Jose(RejectReason::AudienceMismatch),
        ),
        k < outcomes.len() ==> {
            &&& (outcomes[k] matches VerifyOutcome::Verified(v) ==> verdict(outcomes) == Ok::<
                V,
                AssertionReject,
            >(v))
            &&& outcomes[k] is NoPolicy ==> verdict(outcomes) == Err::<V, AssertionReject>(
                AssertionReject::NoUsableKey,
            )
            &&& (outcomes[k] matches VerifyOutcome::Refused(reason) ==> (
            !(reason is AudienceMismatch) ==> verdict(outcomes) == Err::<V, AssertionReject>(
                AssertionReject::Jose(reason),
            )))
        },
    decreases k,
{
    if k > 0 {
        let rest = outcomes.skip(1);
        assert(outcomes[0] == VerifyOutcome::<V>::Refused(RejectReason::AudienceMismatch));
        assert forall|i: int| 0 <= i < k - 1 implies #[trigger] rest[i] == VerifyOutcome::<
            V,
        >::Refused(RejectReason::AudienceMismatch) by {
            assert(rest[i] == outcomes[i + 1]);
        }
        law_the_first_decisive_trial_decides(rest, k - 1);
        if k < outcomes.len() {
            assert(rest[k - 1] == outcomes[k]);
        }
    }
}

/// A request for a token goes its way: an assertion, a client that can be read, that has a scope
/// and that is authenticated, its registration, the scope that it asks for, and the assertion; and
/// with all of these it mints for that client, with that scope, for whom the assertion is mapped to.
pub proof fn law_a_grant_goes_its_way(q: GrantRequest, step: GrantStep, assertion: Seq<char>)
    requires
        proceeds(q, step),
    ensures
        q.assertion is None ==> (step matches GrantStep::Refuse(TokenError::InvalidRequest(_))),
        q.assertion matches Some(a) ==> (text::trim(a@) == assertion && assertion.len() > 0 ==> {
            &&& q.presented is None ==> step is ParseClient
            &&& (q.presented matches Some(Err(_)) ==> (step matches GrantStep::Refuse(
                TokenError::InvalidClient { via_basic },
            ) && via_basic == (q.authorization matches Some(h) && basic_scheme(h@))))
            &&& (q.presented matches Some(Ok(p)) ==> (!p.scoped ==> step == GrantStep::Refuse(
                TokenError::InvalidClient { via_basic: p.via_basic },
            )))
            &&& (q.presented matches Some(Ok(p)) ==> (p.scoped && q.authenticated is None
                ==> step is Authenticate))
            &&& (q.presented matches Some(Ok(p)) ==> (q.authenticated matches Some(
                Err(ClientAuthError::InvalidClient { via_basic }),
            ) ==> (p.scoped ==> step == GrantStep::Refuse(
                TokenError::InvalidClient { via_basic },
            ))))
            &&& (q.presented matches Some(Ok(p)) ==> (q.authenticated matches Some(Ok(client)) ==> (
            p.scoped ==> {
                &&& q.registered is None ==> (step matches GrantStep::CheckRegistration(c) && c@
                    == client@)
                &&& q.registered == Some(false) ==> step == GrantStep::Refuse(
                    TokenError::UnauthorizedClient,
                )
                &&& q.registered == Some(true) && q.scope is None ==> (
                step matches GrantStep::ResolveScope { client_id, requested } && client_id@
                    == client@ && text::opt_text(requested) == text::opt_text(q.requested_scope))
                &&& q.registered == Some(true) && q.scope == Some(MachineScope::NoClient) ==> step
                    == GrantStep::Refuse(TokenError::InvalidClient { via_basic: p.via_basic })
                &&& q.registered == Some(true) && q.scope == Some(MachineScope::Floor) ==> step
                    == GrantStep::Refuse(TokenError::InvalidScope)
                &&& q.registered == Some(true) && q.scope == Some(MachineScope::Fault) ==> step
                    == GrantStep::Refuse(TokenError::ServerError)
                &&& q.registered == Some(true) && q.scope == Some(MachineScope::Allowlist) ==> (
                step matches GrantStep::RefuseRecorded { client_id, assertion: x, reason }
                    && client_id@ == client@ && x@ == assertion && reason
                    == DiagnosticReason::ScopeNotAllowlisted)
                &&& (q.registered == Some(true) ==> (q.scope matches Some(
                    MachineScope::Granted(granted),
                ) ==> {
                    &&& q.mapped is None ==> (step matches GrantStep::Validate(x) && x@
                        == assertion)
                    &&& (q.mapped matches Some(Err(JwtBearerError::Reject(why))) ==> (
                    step matches GrantStep::RefuseRecorded { client_id, assertion: x, reason }
                        && client_id@ == client@ && x@ == assertion && reason == why))
                    &&& q.mapped == Some(
                        Err::<MappedFederation, JwtBearerError>(JwtBearerError::Server),
                    ) ==> step == GrantStep::Refuse(TokenError::ServerError)
                    &&& (q.mapped matches Some(Ok(mapped)) ==> (step matches GrantStep::Mint {
                        client_id,
                        scope,
                        mapped: m,
                    } && client_id@ == client@ && text::opt_text(scope) == text::opt_text(granted)
                        && m.principal@ == mapped.principal@ && m.issuer@ == mapped.issuer@
                        && m.subject@ == mapped.subject@))
                }))
            })))
        }),
{
}

/// A header presents the Basic scheme where its name stands there, in whatever case and behind
/// whatever white space, with a space behind it.
pub proof fn law_basic_is_known_in_any_case(before: Seq<char>, name: Seq<char>, rest: Seq<char>)
    requires
        forall|k: int| 0 <= k < before.len() ==> text::white_space(#[trigger] before[k]),
        name.len() == 6,
        name[0] == 'B' || name[0] == 'b',
        name[1] == 'A' || name[1] == 'a',
        name[2] == 'S' || name[2] == 's',
        name[3] == 'I' || name[3] == 'i',
        name[4] == 'C' || name[4] == 'c',
        name[5] == ' ',
    ensures
        basic_scheme(before + name + rest),
    decreases before.len(),
{
    let s = before + name + rest;
    if before.len() == 0 {
        reveal_strlit("basic ");
        assert(s =~= name + rest);
        assert(text::trim_start(s) == s);
        assert(s.take(6) =~= name);
        assert(text::lower(name) =~= "basic "@);
    } else {
        let shorter = before.skip(1);
        assert forall|k: int| 0 <= k < shorter.len() implies text::white_space(
            #[trigger] shorter[k],
        ) by {
            assert(shorter[k] == before[k + 1]);
        }
        law_basic_is_known_in_any_case(shorter, name, rest);
        assert(text::white_space(before[0]));
        assert(s.skip(1) =~= shorter + name + rest);
    }
}

/// Minting goes its way and ends with the token: each step names the client and the principal, the
/// grant is stored with what is said of the token later, and the response hands out the token that
/// was minted, with its lifetime and the scope that was granted.
pub proof fn law_minting_goes_its_way(
    m: Minting,
    mapped: MappedFederation,
    client: Seq<char>,
    granted: Option<Seq<char>>,
    step: MintStep,
)
    requires
        mints(m, mapped, client, granted, step),
    ensures
        m.target is None ==> (step matches MintStep::ResolveTarget { client_id } && client_id@
            == client),
        m.target matches Some(Err(_)) ==> step == MintStep::Refuse(TokenError::ServerError),
        m.target matches Some(Ok(_)) ==> {
            &&& m.issuer is None ==> step is LoadIssuer
            &&& (m.issuer matches Some(Err(e)) ==> step == MintStep::Refuse(e))
            &&& (m.issuer matches Some(Ok(_)) ==> {
                &&& !m.signer ==> step == MintStep::Refuse(TokenError::ServerError)
                &&& m.signer && m.claims is None ==> (step matches MintStep::MapClaims {
                    client_id,
                    grant_type,
                    subject,
                } && client_id@ == client && subject@ == mapped.principal@ && grant_type@
                    == "urn:ietf:params:oauth:grant-type:jwt-bearer"@)
                &&& (m.signer ==> (m.claims matches Some(Err(_)) ==> step == MintStep::Refuse(
                    TokenError::ServerError,
                )))
                &&& (m.signer ==> (m.claims matches Some(Ok(_)) ==> {
                    &&& m.minted is None ==> (step matches MintStep::Mint {
                        subject,
                        client_id,
                        scope,
                    } && subject@ == mapped.principal@ && client_id@ == client && text::opt_text(
                        scope,
                    ) == granted)
                    &&& (m.minted matches Some(Err(_)) ==> step == MintStep::Refuse(
                        TokenError::ServerError,
                    ))
                    &&& (m.minted matches Some(Ok(out)) ==> {
                        &&& !m.client ==> step == MintStep::Refuse(TokenError::ServerError)
                        &&& m.client && m.stored is None ==> (step matches MintStep::Store {
                            subject,
                            client_id,
                            created_at_unix_micros,
                            record,
                            issuer,
                            federated_subject,
                        } && subject@ == mapped.principal@ && client_id@ == client && issuer@
                            == mapped.issuer@ && federated_subject@ == mapped.subject@ && (0
                            <= m.now <= 9_000_000_000_000_000_000_000 ==> created_at_unix_micros
                            == m.now / 1000))
                        &&& (m.client ==> (m.stored matches Some(Err(e)) ==> step
                            == MintStep::Refuse(e)))
                        &&& (m.client ==> (m.stored matches Some(Ok(_)) ==> step is Respond))
                    })
                }))
            })
        },
{
}

/// What is stored of a token that does not carry its claims is what introspection says of it later:
/// whose it is, for whom and for what, and until when; of one that does, its identifier.
pub proof fn law_a_stored_token_is_found_again(
    minted: MintedAccessToken,
    principal: Seq<char>,
    client: Seq<char>,
    granted: Option<Seq<char>>,
    record: AccessRecord,
)
    requires
        stores(minted, principal, client, granted, record),
    ensures
        minted is Jwt ==> (record matches AccessRecord::Jwt { jti } && jti@ == minted->Jwt_jti@),
        minted is Opaque ==> (record matches AccessRecord::Opaque {
            token_digest,
            subject,
            client_id,
            audience,
            audiences,
            scope,
            jti,
            expires_at_unix_micros,
        } && token_digest@ == minted->digest@ && subject@ == principal && client_id@ == client
            && text::opt_text(scope) == granted && jti@ == minted->Opaque_jti@
            && expires_at_unix_micros == minted->expires_at_unix_micros && text::texts(audiences@)
            == text::texts(minted->audiences@) && (minted->audiences@.len() > 0 ==> audience@
            == minted->audiences@[0]@)),
{
}

/// The response holds the token that was minted, as a bearer token, its lifetime, and the scope
/// where one was granted; and neither a refresh token nor an ID token.
pub proof fn law_a_response_hands_out_the_token(
    minted: MintedAccessToken,
    expires_in: i64,
    granted: Option<Seq<char>>,
)
    ensures
        ({
            let r = response_members(minted.text(), expires_in, granted);
            &&& (minted matches MintedAccessToken::Jwt { token, .. } ==> r.contains(
                ("access_token"@, json::FieldView::Text(token@)),
            ))
            &&& (minted matches MintedAccessToken::Opaque { token, .. } ==> r.contains(
                ("access_token"@, json::FieldView::Text(token@)),
            ))
            &&& r.contains(("token_type"@, json::FieldView::Text("Bearer"@)))
            &&& r.contains(("expires_in"@, json::FieldView::Int(expires_in as int)))
            &&& (granted matches Some(s) ==> r.len() == 4 && r.contains(
                ("scope"@, json::FieldView::Text(s)),
            ))
            &&& granted is None ==> r.len() == 3
        }),
{
    let r = response_members(minted.text(), expires_in, granted);
    assert(r[0] == ("access_token"@, json::FieldView::Text(minted.text())));
    assert(r[1] == ("token_type"@, json::FieldView::Text("Bearer"@)));
    assert(r[2] == ("expires_in"@, json::FieldView::Int(expires_in as int)));
    if granted is Some {
        assert(r[3] == ("scope"@, json::FieldView::Text(granted->0)));
    }
}

/// A refusal is seen as its error, and one that is recorded as an invalid grant; what is not refused
/// is seen as none.
pub proof fn law_a_recorded_refusal_is_an_invalid_grant(step: GrantStep)
    ensures
        step matches GrantStep::Refuse(error) ==> seen(step) == Some(error),
        step is RefuseRecorded ==> seen(step) == Some(TokenError::InvalidGrant),
        !(step is Refuse) && !(step is RefuseRecorded) ==> seen(step) is None,
{
}

/// A shared audience that an issuer lists stays one that it may address, at its place; one that it
/// does not list is left out; and an issuer without a list may address all of them.
pub proof fn law_a_listed_audience_may_be_addressed(
    shared: Seq<Seq<char>>,
    audience: Seq<char>,
    list: Seq<char>,
)
    ensures
        narrowed(Seq::empty(), Some(list)).len() == 0,
        text::words(list).contains(audience) ==> narrowed(shared.push(audience), Some(list))
            == narrowed(shared, Some(list)).push(audience),
        !text::words(list).contains(audience) ==> narrowed(shared.push(audience), Some(list))
            == narrowed(shared, Some(list)),
        narrowed(shared, None) == shared,
{
    reveal(Seq::filter);
    assert(shared.push(audience).drop_last() =~= shared);
    assert(shared.push(audience).last() == audience);
}

} // verus!
