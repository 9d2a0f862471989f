//! The issuer of each environment: how long its keys may be cached, which of them sign, and when
//! it is served at all.

use vstd::prelude::*;

use crate::clock;
use crate::jose;
use crate::jose::JwsAlgorithm;
use crate::scope_map;
use crate::scope_map::{KeyMap, Scope};
use crate::text;

verus! {

// ---------------------------------------------------------------------------
// The cache window
// ---------------------------------------------------------------------------

/// How long a published key set may be cached: from five to fifteen minutes.
#[derive(Debug, Clone, Copy, PartialEq, Eq)]
pub struct JwksCacheWindow {
    secs: u64,
}

/// Why a window was refused.
#[derive(Debug, Clone, Copy, PartialEq, Eq, Structural)]
#[non_exhaustive]
pub enum JwksCacheError {
    /// It lies outside the permitted range.
    OutOfRange { value: u64 },
}

impl JwksCacheError {
    /// What an operator reads.
    pub open spec fn spec_message(self) -> Seq<char> {
        match self {
            JwksCacheError::OutOfRange { value } => "JWKS cache max-age "@ + text::decimal(
                value as nat,
            ) + "s is outside the required "@ + text::decimal(JwksCacheWindow::MIN_SECS as nat)
                + "..="@ + text::decimal(JwksCacheWindow::MAX_SECS as nat) + " range"@,
        }
    }

    /// What an operator reads.
    pub fn message(self) -> (r: String)
        ensures
            r@ == self.spec_message(),
    {
        match self {
            JwksCacheError::OutOfRange { value } => {
                let mut s: String = "JWKS cache max-age ".to_owned();
                s.append(text::decimal_of(value).as_str());
                s.append("s is outside the required ");
                s.append(text::decimal_of(JwksCacheWindow::MIN_SECS).as_str());
                s.append("..=");
                s.append(text::decimal_of(JwksCacheWindow::MAX_SECS).as_str());
                s.append(" range");
                s
            },
        }
    }
}

impl JwksCacheWindow {
    /// The least number of seconds.
    pub const MIN_SECS: u64 = 300;

    /// The greatest number of seconds.
    pub const MAX_SECS: u64 = 900;

    #[verifier::type_invariant]
    spec fn in_range(self) -> bool {
        JwksCacheWindow::MIN_SECS <= self.secs <= JwksCacheWindow::MAX_SECS
    }

    /// The number of seconds.
    pub closed spec fn spec_secs(self) -> u64 {
        self.secs
    }

    /// A window of this many seconds, where that is in the permitted range.
    pub fn new(max_age_secs: u64) -> (r: Result<JwksCacheWindow, JwksCacheError>)
        ensures
            match r {
                Ok(w) => JwksCacheWindow::MIN_SECS <= max_age_secs <= JwksCacheWindow::MAX_SECS
                    && w.spec_secs() == max_age_secs,
                Err(e) => !(JwksCacheWindow::MIN_SECS <= max_age_secs <= JwksCacheWindow::MAX_SECS)
                    && e == (JwksCacheError::OutOfRange { value: max_age_secs }),
            },
    {
        if max_age_secs < JwksCacheWindow::MIN_SECS || max_age_secs > JwksCacheWindow::MAX_SECS {
            return Err(JwksCacheError::OutOfRange { value: max_age_secs });
        }
        Ok(JwksCacheWindow { secs: max_age_secs })
    }

    /// The permitted number of seconds that is nearest to this one.
    pub open spec fn nearest(max_age_secs: u64) -> u64 {
        if max_age_secs < JwksCacheWindow::MIN_SECS {
            JwksCacheWindow::MIN_SECS
        } else if max_age_secs > JwksCacheWindow::MAX_SECS {
            JwksCacheWindow::MAX_SECS
        } else {
            max_age_secs
        }
    }

    /// A window of this many seconds, or of the nearest permitted number.
    pub fn clamped(max_age_secs: u64) -> (r: JwksCacheWindow)
        ensures
            r.spec_secs() == JwksCacheWindow::nearest(max_age_secs),
    {
        let secs: u64 = if max_age_secs < JwksCacheWindow::MIN_SECS {
            JwksCacheWindow::MIN_SECS
        } else if max_age_secs > JwksCacheWindow::MAX_SECS {
            JwksCacheWindow::MAX_SECS
        } else {
            max_age_secs
        };
        JwksCacheWindow { secs }
    }

    /// The window as a span of nanoseconds.
    pub fn max_age(&self) -> (r: i128)
        ensures
            r == self.spec_secs() * 1_000_000_000,
            JwksCacheWindow::MIN_SECS <= self.spec_secs() <= JwksCacheWindow::MAX_SECS,
    {
        proof {
            use_type_invariant(self);
        }
        (self.secs as i128) * 1_000_000_000
    }

    /// The window in seconds, for the header that carries it.
    pub fn max_age_secs(&self) -> (r: u64)
        ensures
            r == self.spec_secs(),
            JwksCacheWindow::MIN_SECS <= r <= JwksCacheWindow::MAX_SECS,
    {
        proof {
            use_type_invariant(self);
        }
        self.secs
    }
}

impl Default for JwksCacheWindow {
    /// The middle of the permitted range.
    fn default() -> (r: JwksCacheWindow)
        ensures
            r.spec_secs() == 600,
    {
        JwksCacheWindow { secs: 600 }
    }
}

// ---------------------------------------------------------------------------
// Names
// ---------------------------------------------------------------------------

/// The issuer of an environment.
pub open spec fn issuer(base: Seq<char>, scope: scope_map::ScopeView) -> Seq<char> {
    text::trim_end_char(base, '/') + "/t/"@ + scope.tenant + "/e/"@ + scope.environment
}

/// The issuer of an environment.
pub fn issuer_for(issuer_base: &str, scope: &Scope) -> (r: String)
    ensures
        r@ == issuer(issuer_base@, scope@),
{
    let mut r: String = text::without_trailing(issuer_base, '/');
    r.append("/t/");
    r.append(scope.tenant.as_str());
    r.append("/e/");
    r.append(scope.environment.as_str());
    r
}

/// Where the keys of an environment are published.
pub fn jwks_uri_for(issuer_base: &str, scope: &Scope) -> (r: String)
    ensures
        r@ == issuer(issuer_base@, scope@) + "/jwks.json"@,
{
    let mut r: String = issuer_for(issuer_base, scope);
    r.append("/jwks.json");
    r
}

// ---------------------------------------------------------------------------
// Keys
// ---------------------------------------------------------------------------

/// How the material of a stored key is encoded.
#[derive(Debug, Clone, Copy, PartialEq, Eq, Structural)]
pub enum SigningKeyMaterialKind {
    Ed25519Seed,
    EcdsaPkcs8,
    RsaPkcs1Der,
}

/// How a stored key is loaded.
#[derive(Debug, Clone, Copy, PartialEq, Eq, Structural)]
pub enum KeyLoader {
    Ed25519FromSeed,
    EcdsaP256FromPkcs8,
    EcdsaP384FromPkcs8,
    RsaFromPkcs1Der(JwsAlgorithm),
}

/// Why a stored key could not be loaded.
#[derive(Debug, Clone, Copy, PartialEq, Eq, Structural)]
#[non_exhaustive]
pub enum IssuerError {
    /// The name of its algorithm is not known.
    UnknownAlgorithm,
    /// Its material is not of the kind that its algorithm needs.
    MaterialMismatch,
    /// The material was rejected.
    KeyMaterial,
}

/// The loader for material of this kind under this algorithm.
pub open spec fn loader_for(kind: SigningKeyMaterialKind, alg: JwsAlgorithm) -> Option<KeyLoader> {
    match (kind, alg) {
        (SigningKeyMaterialKind::Ed25519Seed, JwsAlgorithm::EdDsa) => Some(
            KeyLoader::Ed25519FromSeed,
        ),
        (SigningKeyMaterialKind::EcdsaPkcs8, JwsAlgorithm::Es256) => Some(
            KeyLoader::EcdsaP256FromPkcs8,
        ),
        (SigningKeyMaterialKind::EcdsaPkcs8, JwsAlgorithm::Es384) => Some(
            KeyLoader::EcdsaP384FromPkcs8,
        ),
        (SigningKeyMaterialKind::RsaPkcs1Der, alg) => if alg.spec_is_rsa() {
            Some(KeyLoader::RsaFromPkcs1Der(alg))
        } else {
            None
        },
        _ => None,
    }
}

/// How a stored key is loaded: the material must be of the kind that its algorithm needs.
pub fn load_signing_key(kind: SigningKeyMaterialKind, algorithm: &str) -> (r: Result<
    KeyLoader,
    IssuerError,
>)
    ensures
        r == (match JwsAlgorithm::of_name(algorithm@) {
            None => Err::<KeyLoader, IssuerError>(IssuerError::UnknownAlgorithm),
            Some(alg) => match loader_for(kind, alg) {
                Some(loader) => Ok(loader),
                None => Err(IssuerError::MaterialMismatch),
            },
        }),
{
    let alg: JwsAlgorithm = match JwsAlgorithm::from_jose_name(algorithm) {
        Some(alg) => alg,
        None => return Err(IssuerError::UnknownAlgorithm),
    };
    match (kind, alg) {
        (SigningKeyMaterialKind::Ed25519Seed, JwsAlgorithm::EdDsa) => Ok(
            KeyLoader::Ed25519FromSeed,
        ),
        (SigningKeyMaterialKind::EcdsaPkcs8, JwsAlgorithm::Es256) => Ok(
            KeyLoader::EcdsaP256FromPkcs8,
        ),
        (SigningKeyMaterialKind::EcdsaPkcs8, JwsAlgorithm::Es384) => Ok(
            KeyLoader::EcdsaP384FromPkcs8,
        ),
        (SigningKeyMaterialKind::RsaPkcs1Der, alg) => if alg.is_rsa() {
            Ok(KeyLoader::RsaFromPkcs1Der(alg))
        } else {
            Err(IssuerError::MaterialMismatch)
        },
        _ => Err(IssuerError::MaterialMismatch),
    }
}

/// The message for a key that could not be loaded; `detail` is that of the rejected material.
pub fn issuer_error_message(error: IssuerError, detail: &str) -> (r: String)
    ensures
        r@ == (match error {
            IssuerError::UnknownAlgorithm => "stored signing key algorithm is unknown"@,
            IssuerError::MaterialMismatch =>
                "stored signing key material kind does not match its algorithm"@,
            IssuerError::KeyMaterial => "stored signing key material rejected: "@ + detail@,
        }),
{
    match error {
        IssuerError::UnknownAlgorithm => "stored signing key algorithm is unknown".to_owned(),
        IssuerError::MaterialMismatch =>
            "stored signing key material kind does not match its algorithm".to_owned(),
        IssuerError::KeyMaterial => {
            let mut s: String = "stored signing key material rejected: ".to_owned();
            s.append(detail);
            s
        },
    }
}

/// The preferred algorithms, the default first.
pub open spec fn preference() -> Seq<JwsAlgorithm> {
    seq![JwsAlgorithm::EdDsa, JwsAlgorithm::Es256, JwsAlgorithm::Rs256]
}

/// The preferred ones among the algorithms, the default first.
pub open spec fn preferred(present: Seq<JwsAlgorithm>) -> Seq<JwsAlgorithm> {
    preference().filter(|alg: JwsAlgorithm| present.contains(alg))
}

/// `list`, and behind it those of `more` that are not in it yet.
pub open spec fn completed(list: Seq<JwsAlgorithm>, more: Seq<JwsAlgorithm>) -> Seq<JwsAlgorithm>
    decreases more.len(),
{
    if more.len() == 0 {
        list
    } else {
        let rest = completed(list, more.drop_last());
        if rest.contains(more.last()) {
            rest
        } else {
            rest.push(more.last())
        }
    }
}

/// The algorithms in the order in which an environment prefers them: the preferred ones first,
/// behind them the others as they came.
pub open spec fn ordered(present: Seq<JwsAlgorithm>) -> Seq<JwsAlgorithm> {
    completed(preferred(present), present)
}

/// The algorithms in the order in which an environment prefers them. The first of them is the
/// default, and does not depend on the order in which the keys were stored.
pub fn canonical_algorithm_order(present: &Vec<JwsAlgorithm>) -> (r: Vec<JwsAlgorithm>)
    ensures
        r@ == ordered(present@),
{
    let mut r: Vec<JwsAlgorithm> = Vec::new();
    let ghost f = |alg: JwsAlgorithm| present@.contains(alg);
    let ghost p = preference();
    proof {
        reveal(Seq::filter);
        reveal_with_fuel(Seq::filter, 5);
        let p3 = p;
        let p2 = p3.drop_last();
        let p1 = p2.drop_last();
        let p0 = p1.drop_last();
        assert(p3.last() == JwsAlgorithm::Rs256);
        assert(p2.last() == JwsAlgorithm::Es256);
        assert(p1.last() == JwsAlgorithm::EdDsa);
        assert(p0 =~= Seq::empty());
    }
    if jose::holds(present, JwsAlgorithm::EdDsa) {
        r.push(JwsAlgorithm::EdDsa);
    }
    if jose::holds(present, JwsAlgorithm::Es256) {
        r.push(JwsAlgorithm::Es256);
    }
    if jose::holds(present, JwsAlgorithm::Rs256) {
        r.push(JwsAlgorithm::Rs256);
    }
    assert(r@ =~= preferred(present@));
    let mut i: usize = 0;
    while i < present.len()
        invariant
            i <= present@.len(),
            r@ == completed(preferred(present@), present@.take(i as int)),
        decreases present@.len() - i,
    {
        assert(present@.take(i + 1).drop_last() =~= present@.take(i as int));
        if !jose::holds(&r, present[i]) {
            r.push(present[i]);
        }
        i = i + 1;
    }
    assert(present@.take(present@.len() as int) =~= present@);
    r
}

/// The algorithms that an environment can sign with: those that its policy allows and that have
/// an active key, in the order of the policy.
pub fn signable_id_token_algs(allowed: &Vec<JwsAlgorithm>, active: &Vec<JwsAlgorithm>) -> (r: Vec<
    JwsAlgorithm,
>)
    ensures
        r@ == allowed@.filter(|alg: JwsAlgorithm| active@.contains(alg)),
{
    let ghost f = |alg: JwsAlgorithm| active@.contains(alg);
    let mut r: Vec<JwsAlgorithm> = Vec::new();
    let mut i: usize = 0;
    assert(allowed@.take(0).filter(f) =~= Seq::empty()) by {
        reveal(Seq::filter);
    }
    while i < allowed.len()
        invariant
            i <= allowed@.len(),
            f == (|alg: JwsAlgorithm| active@.contains(alg)),
            r@ == allowed@.take(i as int).filter(f),
        decreases allowed@.len() - i,
    {
        proof {
            reveal(Seq::filter);
            assert(allowed@.take(i + 1).drop_last() =~= allowed@.take(i as int));
        }
        if jose::holds(active, allowed[i]) {
            r.push(allowed[i]);
        }
        i = i + 1;
    }
    assert(allowed@.take(allowed@.len() as int) =~= allowed@);
    r
}

// ---------------------------------------------------------------------------
// Loading an issuer
// ---------------------------------------------------------------------------

/// A stored key row, once it was tried: the algorithm of its key, or none where it could not be
/// loaded, and when it is activated.
#[derive(Debug, Clone, Copy, PartialEq, Eq)]
pub struct KeyRow {
    pub algorithm: Option<JwsAlgorithm>,
    pub activate_at_unix_micros: i64,
}

/// What a load from the store comes to.
#[derive(Debug, PartialEq, Eq)]
pub enum LoadOutcome<E> {
    /// The issuer of the environment.
    Loaded(E),
    /// The store answered that there is none.
    Empty,
    /// The store did not answer. The next request tries again.
    Error,
}

/// What an issuer is built from: the rows that hold its keys, with the moments of their
/// activation, and the algorithms that it may sign with, the default first.
#[derive(Debug, PartialEq, Eq)]
pub struct EntryPlan {
    pub keys: Vec<(usize, i128)>,
    pub policy: Vec<JwsAlgorithm>,
}

/// The keys among the first `n` rows, in order.
pub open spec fn keys_of(rows: Seq<KeyRow>, n: int) -> Seq<(usize, i128)>
    decreases n,
{
    if n <= 0 {
        Seq::empty()
    } else {
        let rest = keys_of(rows, n - 1);
        if rows[n - 1].algorithm is Some {
            rest.push(((n - 1) as usize, (rows[n - 1].activate_at_unix_micros * 1000) as i128))
        } else {
            rest
        }
    }
}

/// The algorithms of the keys among the first `n` rows, each once, in the order in which they
/// first occur.
pub open spec fn algorithms_of(rows: Seq<KeyRow>, n: int) -> Seq<JwsAlgorithm>
    decreases n,
{
    if n <= 0 {
        Seq::empty()
    } else {
        let rest = algorithms_of(rows, n - 1);
        match rows[n - 1].algorithm {
            Some(alg) => if rest.contains(alg) {
                rest
            } else {
                rest.push(alg)
            },
            None => rest,
        }
    }
}

/// Some row holds a key.
pub open spec fn any_key(rows: Seq<KeyRow>) -> bool {
    exists|i: int| 0 <= i < rows.len() && (#[trigger] rows[i]).algorithm is Some
}

/// What the rows of an environment come to. `rows` is absent where the store did not answer. A
/// row that could not be loaded is skipped, so that one bad row does not take its environment
/// down; where no row can be loaded there is no issuer.
pub fn load_plan(rows: Option<&Vec<KeyRow>>) -> (r: LoadOutcome<EntryPlan>)
    ensures
        match rows {
            None => r is Error,
            Some(list) => if any_key(list@) {
                r matches LoadOutcome::Loaded(plan) && plan.keys@ == keys_of(
                    list@,
                    list@.len() as int,
                ) && plan.policy@ == ordered(algorithms_of(list@, list@.len() as int))
            } else {
                r is Empty
            },
        },
{
    let list = match rows {
        Some(list) => list,
        None => return LoadOutcome::Error,
    };
    let mut keys: Vec<(usize, i128)> = Vec::new();
    let mut algorithms: Vec<JwsAlgorithm> = Vec::new();
    let mut i: usize = 0;
    while i < list.len()
        invariant
            i <= list@.len(),
            keys@ == keys_of(list@, i as int),
            algorithms@ == algorithms_of(list@, i as int),
            keys@.len() > 0 <==> exists|k: int|
                0 <= k < i && (#[trigger] list@[k]).algorithm is Some,
        decreases list@.len() - i,
    {
        match list[i].algorithm {
            Some(alg) => {
                if !jose::holds(&algorithms, alg) {
                    algorithms.push(alg);
                }
                keys.push((i, clock::system_time_from_micros(list[i].activate_at_unix_micros)));
                assert(list@[i as int].algorithm is Some);
            },
            None => {},
        }
        i = i + 1;
    }
    if keys.len() == 0 {
        return LoadOutcome::Empty;
    }
    LoadOutcome::Loaded(EntryPlan { keys, policy: canonical_algorithm_order(&algorithms) })
}

/// The issuer is complete once the guardrails of its environment were read. Where the store did
/// not answer for them the load is tried again: they are never left out.
pub fn with_guardrails<E, G>(outcome: LoadOutcome<E>, guardrails: Option<G>) -> (r: LoadOutcome<
    (E, G),
>)
    ensures
        r == (match outcome {
            LoadOutcome::Loaded(entry) => match guardrails {
                Some(g) => LoadOutcome::Loaded((entry, g)),
                None => LoadOutcome::Error,
            },
            LoadOutcome::Empty => LoadOutcome::Empty,
            LoadOutcome::Error => LoadOutcome::Error,
        }),
{
    match outcome {
        LoadOutcome::Loaded(entry) => match guardrails {
            Some(g) => LoadOutcome::Loaded((entry, g)),
            None => LoadOutcome::Error,
        },
        LoadOutcome::Empty => LoadOutcome::Empty,
        LoadOutcome::Error => LoadOutcome::Error,
    }
}

// ---------------------------------------------------------------------------
// The registry
// ---------------------------------------------------------------------------

/// The most scopes that are remembered as having no issuer.
pub const NEGATIVE_CACHE_CAP: usize = 1024;

/// What a registry remembers.
#[verifier::ext_equal]
pub struct RegistryView<E> {
    /// The issuers, with the moments at which they were loaded.
    pub entries: Map<scope_map::ScopeView, (E, i128)>,
    /// The scopes without an issuer, with the moments at which that was learnt.
    pub negatives: Map<scope_map::ScopeView, i128>,
    /// Whether there is a store to load from.
    pub store_backed: bool,
    /// How long either is believed, in nanoseconds.
    pub ttl: i128,
}

/// What was learnt at `stamped` is believed at `now`. Where the clock went back it is not.
pub open spec fn fresh(ttl: i128, stamped: i128, now: i128) -> bool {
    0 <= now - stamped < ttl
}

/// What a scope resolves to.
#[derive(Debug, PartialEq, Eq)]
pub enum Resolution<E> {
    /// To this issuer.
    Served(E),
    /// To none.
    Missing,
    /// To what a load from the store brings.
    Load,
}

/// What a scope resolves to. The fence comes before everything that is remembered; an issuer is
/// served from memory while it is fresh, and for ever where there is no store; and a scope that
/// is known to have none is not looked up again while that is fresh.
pub open spec fn resolution<E>(
    v: RegistryView<E>,
    scope: scope_map::ScopeView,
    now: i128,
    fenced: bool,
) -> Resolution<E> {
    if v.store_backed && fenced {
        Resolution::Missing
    } else if v.entries.contains_key(scope) && (!v.store_backed || fresh(
        v.ttl,
        v.entries[scope].1,
        now,
    )) {
        Resolution::Served(v.entries[scope].0)
    } else if v.negatives.contains_key(scope) && fresh(v.ttl, v.negatives[scope], now) {
        Resolution::Missing
    } else if v.store_backed {
        Resolution::Load
    } else {
        Resolution::Missing
    }
}

/// The scopes without an issuer once one more is known. A full memory is emptied for a new one.
pub open spec fn recorded(
    negatives: Map<scope_map::ScopeView, i128>,
    scope: scope_map::ScopeView,
    now: i128,
) -> Map<scope_map::ScopeView, i128> {
    if negatives.dom().len() >= NEGATIVE_CACHE_CAP && !negatives.contains_key(scope) {
        Map::empty().insert(scope, now)
    } else {
        negatives.insert(scope, now)
    }
}

/// What a registry remembers after a load.
pub open spec fn settled<E>(
    v: RegistryView<E>,
    scope: scope_map::ScopeView,
    now: i128,
    outcome: LoadOutcome<E>,
) -> RegistryView<E> {
    match outcome {
        LoadOutcome::Loaded(entry) => RegistryView {
            entries: v.entries.insert(scope, (entry, now)),
            negatives: v.negatives.remove(scope),
            ..v
        },
        LoadOutcome::Empty => RegistryView { negatives: recorded(v.negatives, scope, now), ..v },
        LoadOutcome::Error => v,
    }
}

/// The issuers of the environments, as far as they are known.
pub struct IssuerRegistry<E> {
    issuer_base: String,
    cache: JwksCacheWindow,
    entries: KeyMap<Scope, (E, i128)>,
    negatives: KeyMap<Scope, i128>,
    store_backed: bool,
    entry_ttl: i128,
}

impl<E> View for IssuerRegistry<E> {
    type V = RegistryView<E>;

    closed spec fn view(&self) -> RegistryView<E> {
        RegistryView {
            entries: self.entries@,
            negatives: self.negatives@,
            store_backed: self.store_backed,
            ttl: self.entry_ttl,
        }
    }
}

impl<E> IssuerRegistry<E> {
    /// The base of every issuer.
    pub closed spec fn base(&self) -> Seq<char> {
        self.issuer_base@
    }

    /// The window for which key sets may be cached.
    pub closed spec fn spec_cache(&self) -> JwksCacheWindow {
        self.cache
    }

    fn empty(issuer_base: &str, cache: JwksCacheWindow, store_backed: bool) -> (r: IssuerRegistry<E>)
        ensures
            r.base() == issuer_base@,
            r.spec_cache() == cache,
            r@.entries == Map::<scope_map::ScopeView, (E, i128)>::empty(),
            r@.negatives == Map::<scope_map::ScopeView, i128>::empty(),
            r@.store_backed == store_backed,
            r@.ttl == cache.spec_secs() * 1_000_000_000,
    {
        IssuerRegistry {
            issuer_base: issuer_base.to_owned(),
            cache,
            entries: KeyMap::new(),
            negatives: KeyMap::new(),
            store_backed,
            entry_ttl: cache.max_age(),
        }
    }

    /// A registry without a store: it knows what is inserted into it.
    pub fn new(issuer_base: &str, cache: JwksCacheWindow) -> (r: IssuerRegistry<E>)
        ensures
            r.base() == issuer_base@,
            r.spec_cache() == cache,
            r@.entries == Map::<scope_map::ScopeView, (E, i128)>::empty(),
            r@.negatives == Map::<scope_map::ScopeView, i128>::empty(),
            !r@.store_backed,
            r@.ttl == cache.spec_secs() * 1_000_000_000,
    {
        IssuerRegistry::empty(issuer_base, cache, false)
    }

    /// A registry that loads from a store. What it remembers is believed for the window for which
    /// key sets may be cached.
    pub fn store_backed(issuer_base: &str, cache: JwksCacheWindow) -> (r: IssuerRegistry<E>)
        ensures
            r.base() == issuer_base@,
            r.spec_cache() == cache,
            r@.entries == Map::<scope_map::ScopeView, (E, i128)>::empty(),
            r@.negatives == Map::<scope_map::ScopeView, i128>::empty(),
            r@.store_backed,
            r@.ttl == cache.spec_secs() * 1_000_000_000,
    {
        IssuerRegistry::empty(issuer_base, cache, true)
    }

    /// The same registry, believing what it remembers for this many nanoseconds.
    pub fn with_entry_ttl(self, ttl: i128) -> (r: IssuerRegistry<E>)
        ensures
            r@ == (RegistryView { ttl, ..self@ }),
            r.base() == self.base(),
            r.spec_cache() == self.spec_cache(),
    {
        let mut r = self;
        r.entry_ttl = ttl;
        r
    }

    /// Supplies the issuer of a scope.
    pub fn insert(&mut self, scope: Scope, entry: E)
        ensures
            final(self)@ == (RegistryView {
                entries: old(self)@.entries.insert(scope@, (entry, 0i128)),
                ..old(self)@
            }),
            final(self).base() == old(self).base(),
            final(self).spec_cache() == old(self).spec_cache(),
    {
        self.entries.insert(scope, (entry, 0));
    }

    /// The window for which key sets may be cached.
    pub fn cache(&self) -> (r: JwksCacheWindow)
        ensures
            r == self.spec_cache(),
    {
        self.cache
    }

    /// The issuer of an environment.
    pub fn issuer_for(&self, scope: &Scope) -> (r: String)
        ensures
            r@ == issuer(self.base(), scope@),
    {
        issuer_for(self.issuer_base.as_str(), scope)
    }

    /// Where the keys of an environment are published.
    pub fn jwks_uri_for(&self, scope: &Scope) -> (r: String)
        ensures
            r@ == issuer(self.base(), scope@) + "/jwks.json"@,
    {
        jwks_uri_for(self.issuer_base.as_str(), scope)
    }

    /// Whether what was learnt at `stamped` is still believed.
    fn is_fresh(&self, stamped: i128, now: i128) -> (r: bool)
        ensures
            r == fresh(self@.ttl, stamped, now),
    {
        match now.checked_sub(stamped) {
            Some(age) => 0 <= age && age < self.entry_ttl,
            None => false,
        }
    }

    /// The issuer of a scope as it is remembered, where it may be served.
    fn fresh_cached(&self, scope: &Scope, now: i128) -> (r: Option<&E>)
        ensures
            match r {
                Some(e) => self@.entries.contains_key(scope@) && *e == self@.entries[scope@].0 && (
                !self@.store_backed || fresh(self@.ttl, self@.entries[scope@].1, now)),
                None => !(self@.entries.contains_key(scope@) && (!self@.store_backed || fresh(
                    self@.ttl,
                    self@.entries[scope@].1,
                    now,
                ))),
            },
    {
        match self.entries.get(scope) {
            Some(cached) => if !self.store_backed || self.is_fresh(cached.1, now) {
                Some(&cached.0)
            } else {
                None
            },
            None => None,
        }
    }

    /// Whether a scope is known to have no issuer.
    fn negative_is_fresh(&self, scope: &Scope, now: i128) -> (r: bool)
        ensures
            r == (self@.negatives.contains_key(scope@) && fresh(
                self@.ttl,
                self@.negatives[scope@],
                now,
            )),
    {
        match self.negatives.get(scope) {
            Some(stamped) => self.is_fresh(*stamped, now),
            None => false,
        }
    }

    /// What a scope resolves to. `fenced` says whether the environment may not be served, and is
    /// read anew for every request; where that could not be read it is fenced.
    pub fn entry_for(&self, scope: &Scope, now: i128, fenced: bool) -> (r: Resolution<&E>)
        ensures
            match resolution(self@, scope@, now, fenced) {
                Resolution::Served(e) => r matches Resolution::Served(x) && *x == e,
                Resolution::Missing => r is Missing,
                Resolution::Load => r is Load,
            },
    {
        if self.store_backed && fenced {
            return Resolution::Missing;
        }
        match self.fresh_cached(scope, now) {
            Some(e) => return Resolution::Served(e),
            None => {},
        }
        if self.negative_is_fresh(scope, now) {
            return Resolution::Missing;
        }
        if self.store_backed {
            Resolution::Load
        } else {
            Resolution::Missing
        }
    }

    /// Remembers that a scope has no issuer. The memory is bounded: at its bound it is emptied.
    fn record_negative(&mut self, scope: Scope, now: i128)
        ensures
            final(self)@ == (RegistryView {
                negatives: recorded(old(self)@.negatives, scope@, now),
                ..old(self)@
            }),
            final(self).base() == old(self).base(),
            final(self).spec_cache() == old(self).spec_cache(),
    {
        if self.negatives.len() >= NEGATIVE_CACHE_CAP && self.negatives.get(&scope).is_none() {
            self.negatives.clear();
        }
        self.negatives.insert(scope, now);
    }

    /// Remembers an issuer, and forgets that there was none.
    fn store_positive(&mut self, scope: Scope, entry: E, now: i128)
        ensures
            final(self)@ == (RegistryView {
                entries: old(self)@.entries.insert(scope@, (entry, now)),
                negatives: old(self)@.negatives.remove(scope@),
                ..old(self)@
            }),
            final(self).base() == old(self).base(),
            final(self).spec_cache() == old(self).spec_cache(),
    {
        self.negatives.remove(&scope);
        self.entries.insert(scope, (entry, now));
    }

    /// Remembers what a load brought, and returns whether it brought an issuer.
    pub fn settle(&mut self, scope: &Scope, now: i128, outcome: LoadOutcome<E>) -> (r: bool)
        ensures
            final(self)@ == settled(old(self)@, scope@, now, outcome),
            final(self).base() == old(self).base(),
            final(self).spec_cache() == old(self).spec_cache(),
            r == (outcome is Loaded),
    {
        match outcome {
            LoadOutcome::Loaded(entry) => {
                self.store_positive(scope.copied(), entry, now);
                true
            },
            LoadOutcome::Empty => {
                self.record_negative(scope.copied(), now);
                false
            },
            LoadOutcome::Error => false,
        }
    }
}

// ---------------------------------------------------------------------------
// Laws
// ---------------------------------------------------------------------------

/// A window that is clamped is permitted, and one that is permitted is not changed by that.
pub proof fn law_clamping_brings_into_range_and_changes_nothing_there(max_age_secs: u64)
    ensures
        JwksCacheWindow::MIN_SECS <= JwksCacheWindow::nearest(max_age_secs)
            <= JwksCacheWindow::MAX_SECS,
        JwksCacheWindow::MIN_SECS <= max_age_secs <= JwksCacheWindow::MAX_SECS
            ==> JwksCacheWindow::nearest(max_age_secs) == max_age_secs,
{
}

/// A fenced environment is not served, however fresh its issuer is remembered.
pub proof fn law_a_fenced_environment_is_not_served<E>(
    v: RegistryView<E>,
    scope: scope_map::ScopeView,
    now: i128,
)
    requires
        v.store_backed,
    ensures
        resolution(v, scope, now, true) is Missing,
{
}

/// Nothing stale is served where there is a store to load from, and nothing expires where there
/// is none.
pub proof fn law_nothing_stale_is_served<E>(
    v: RegistryView<E>,
    scope: scope_map::ScopeView,
    now: i128,
    fenced: bool,
)
    ensures
        v.store_backed && resolution(v, scope, now, fenced) is Served ==> v.entries.contains_key(
            scope,
        ) && fresh(v.ttl, v.entries[scope].1, now),
        !v.store_backed && v.entries.contains_key(scope) ==> resolution(v, scope, now, fenced)
            == Resolution::Served(v.entries[scope].0),
{
}

/// What a load brought is served from then on, until it is stale or fenced, whatever was
/// remembered before: a scope that had no issuer is not held to that.
pub proof fn law_a_loaded_issuer_is_served<E>(
    v: RegistryView<E>,
    scope: scope_map::ScopeView,
    loaded: i128,
    entry: E,
    now: i128,
)
    requires
        fresh(v.ttl, loaded, now) || !v.store_backed,
    ensures
        resolution(settled(v, scope, loaded, LoadOutcome::Loaded(entry)), scope, now, false)
            == Resolution::Served(entry),
        !settled(v, scope, loaded, LoadOutcome::Loaded(entry)).negatives.contains_key(scope),
{
}

/// A store that did not answer is not remembered: the next request tries again.
pub proof fn law_a_fault_is_not_remembered<E>(
    v: RegistryView<E>,
    scope: scope_map::ScopeView,
    now: i128,
    later: i128,
)
    ensures
        settled(v, scope, now, LoadOutcome::Error) == v,
        resolution(v, scope, later, false) is Load ==> resolution(
            settled(v, scope, now, LoadOutcome::Error),
            scope,
            later,
            false,
        ) is Load,
{
}

/// A scope that was found to have no issuer is not looked up again until that is stale.
pub proof fn law_an_absence_spares_the_store<E>(
    v: RegistryView<E>,
    scope: scope_map::ScopeView,
    found: i128,
    now: i128,
)
    requires
        resolution(v, scope, now, false) is Load,
        fresh(v.ttl, found, now),
    ensures
        resolution(settled(v, scope, found, LoadOutcome::Empty), scope, now, false) is Missing,
{
}

/// The memory of absences is bounded, however many scopes are asked for.
pub proof fn law_absences_are_bounded<E>(
    v: RegistryView<E>,
    scope: scope_map::ScopeView,
    now: i128,
    outcome: LoadOutcome<E>,
)
    requires
        v.negatives.dom().finite(),
        v.negatives.dom().len() <= NEGATIVE_CACHE_CAP,
    ensures
        settled(v, scope, now, outcome).negatives.dom().finite(),
        settled(v, scope, now, outcome).negatives.dom().len() <= NEGATIVE_CACHE_CAP,
{
    let n = v.negatives;
    match outcome {
        LoadOutcome::Empty => {
            if n.dom().len() >= NEGATIVE_CACHE_CAP && !n.contains_key(scope) {
                assert(recorded(n, scope, now).dom() =~= Set::empty().insert(scope));
            } else if n.contains_key(scope) {
                assert(n.insert(scope, now).dom() =~= n.dom());
            } else {
                assert(n.insert(scope, now).dom() =~= n.dom().insert(scope));
            }
        },
        LoadOutcome::Loaded(e) => {
            assert(n.remove(scope).dom() =~= n.dom().remove(scope));
        },
        LoadOutcome::Error => {},
    }
}

proof fn lemma_completed(list: Seq<JwsAlgorithm>, more: Seq<JwsAlgorithm>)
    requires
        list.no_duplicates(),
    ensures
        completed(list, more).no_duplicates(),
        list.is_prefix_of(completed(list, more)),
        forall|alg: JwsAlgorithm|
            completed(list, more).contains(alg) <==> list.contains(alg) || more.contains(alg),
    decreases more.len(),
{
    if more.len() > 0 {
        let front = more.drop_last();
        lemma_completed(list, front);
        let rest = completed(list, front);
        let r = completed(list, more);
        assert forall|alg: JwsAlgorithm| r.contains(alg) <==> list.contains(alg) || more.contains(
            alg,
        ) by {
            assert(more =~= front.push(more.last()));
            if more.contains(alg) {
                let k = choose|k: int| 0 <= k < more.len() && more[k] == alg;
                if k < front.len() {
                    assert(front[k] == alg);
                    assert(front.contains(alg));
                }
            }
            if front.contains(alg) {
                let k = choose|k: int| 0 <= k < front.len() && front[k] == alg;
                assert(more[k] == alg);
            }
            assert(more[more.len() - 1] == more.last());
            if rest.contains(alg) {
                let k = choose|k: int| 0 <= k < rest.len() && rest[k] == alg;
                assert(r[k] == alg);
            }
            if r.contains(alg) && !rest.contains(alg) {
                let k = choose|k: int| 0 <= k < r.len() && r[k] == alg;
                if k < rest.len() {
                    assert(rest[k] == alg);
                }
                assert(alg == more.last());
            }
            if alg == more.last() && !rest.contains(alg) {
                assert(r[rest.len() as int] == alg);
            }
        }
    } else {
        assert forall|alg: JwsAlgorithm| completed(list, more).contains(alg) <==> list.contains(alg)
            || more.contains(alg) by {}
    }
}

/// Ordering the algorithms of an environment drops none, adds none and repeats none, and puts
/// the default first wherever the environment has it, in whatever order the keys came.
pub proof fn law_the_order_keeps_the_algorithms(present: Seq<JwsAlgorithm>)
    ensures
        forall|alg: JwsAlgorithm| ordered(present).contains(alg) <==> present.contains(alg),
        ordered(present).no_duplicates(),
        present.contains(JwsAlgorithm::EdDsa) ==> ordered(present).len() > 0 && ordered(
            present,
        )[0] == JwsAlgorithm::EdDsa,
{
    let f = |alg: JwsAlgorithm| present.contains(alg);
    let p = preference();
    reveal(Seq::filter);
    reveal_with_fuel(Seq::filter, 5);
    let p2 = p.drop_last();
    let p1 = p2.drop_last();
    let p0 = p1.drop_last();
    assert(p.last() == JwsAlgorithm::Rs256);
    assert(p2.last() == JwsAlgorithm::Es256);
    assert(p1.last() == JwsAlgorithm::EdDsa);
    assert(p0 =~= Seq::empty());
    let head = preferred(present);
    assert(head.no_duplicates());
    assert(present.contains(JwsAlgorithm::EdDsa) ==> head.len() > 0 && head[0]
        == JwsAlgorithm::EdDsa);
    assert forall|alg: JwsAlgorithm| head.contains(alg) implies present.contains(alg) by {}
    lemma_completed(head, present);
    if head.len() > 0 {
        assert(ordered(present)[0] == head[0]);
    }
}

/// The issuer of an environment stands under its base, with the tenant first and the environment
/// second, whether the base ends with a slash or not.
pub proof fn law_an_issuer_stands_under_its_base(base: Seq<char>, scope: scope_map::ScopeView)
    requires
        base.len() > 0 ==> base.last() != '/',
    ensures
        issuer(base, scope) == base + "/t/"@ + scope.tenant + "/e/"@ + scope.environment,
        issuer(base.push('/'), scope) == issuer(base, scope),
{
    assert(base.push('/').drop_last() =~= base);
    reveal_with_fuel(text::trim_end_char, 3);
}

/// The material of a key has to be of the kind that its algorithm needs: a seed for EdDSA, PKCS#8
/// for the two elliptic curves, and PKCS#1 for the RSA algorithms, which are loaded under their own
/// name. No other pair is loaded.
pub proof fn law_material_is_loaded_under_its_algorithm(kind: SigningKeyMaterialKind, alg: JwsAlgorithm)
    ensures
        kind is Ed25519Seed ==> loader_for(kind, alg) == (if alg is EdDsa {
            Some(KeyLoader::Ed25519FromSeed)
        } else {
            None
        }),
        kind is EcdsaPkcs8 && alg is Es256 ==> loader_for(kind, alg) == Some(
            KeyLoader::EcdsaP256FromPkcs8,
        ),
        kind is EcdsaPkcs8 && alg is Es384 ==> loader_for(kind, alg) == Some(
            KeyLoader::EcdsaP384FromPkcs8,
        ),
        kind is EcdsaPkcs8 && !(alg is Es256) && !(alg is Es384) ==> loader_for(kind, alg) is None,
        kind is RsaPkcs1Der && (alg is Rs256 || alg is Rs384 || alg is Rs512 || alg is Ps256
            || alg is Ps384 || alg is Ps512) ==> loader_for(kind, alg) == Some(
            KeyLoader::RsaFromPkcs1Der(alg),
        ),
        kind is RsaPkcs1Der && (alg is EdDsa || alg is Es256 || alg is Es384) ==> loader_for(kind, alg)
            is None,
{
}

/// EdDSA comes before ES256, that before RS256, and these before every other, in whatever order the
/// keys came.
pub proof fn law_algorithms_are_preferred_in_order(present: Seq<JwsAlgorithm>)
    ensures
        preferred(present) == (if present.contains(JwsAlgorithm::EdDsa) {
            seq![JwsAlgorithm::EdDsa]
        } else {
            Seq::empty()
        }) + (if present.contains(JwsAlgorithm::Es256) {
            seq![JwsAlgorithm::Es256]
        } else {
            Seq::empty()
        }) + (if present.contains(JwsAlgorithm::Rs256) {
            seq![JwsAlgorithm::Rs256]
        } else {
            Seq::empty()
        }),
        preferred(present).is_prefix_of(ordered(present)),
{
    reveal(Seq::filter);
    reveal_with_fuel(Seq::filter, 5);
    let p = preference();
    let p2 = p.drop_last();
    let p1 = p2.drop_last();
    let p0 = p1.drop_last();
    assert(p.last() == JwsAlgorithm::Rs256);
    assert(p2.last() == JwsAlgorithm::Es256);
    assert(p1.last() == JwsAlgorithm::EdDsa);
    assert(p0 =~= Seq::empty());
    let head = preferred(present);
    assert(head.no_duplicates());
    lemma_completed(head, present);
}

/// Behind the preferred algorithms the others stand in the order in which they first came: each is
/// put behind those before it, unless it is among them already.
pub proof fn law_the_other_algorithms_stay_in_order(
    list: Seq<JwsAlgorithm>,
    more: Seq<JwsAlgorithm>,
    next: JwsAlgorithm,
)
    ensures
        completed(list, Seq::empty()) == list,
        completed(list, more).contains(next) ==> completed(list, more.push(next)) == completed(
            list,
            more,
        ),
        !completed(list, more).contains(next) ==> completed(list, more.push(next)) == completed(
            list,
            more,
        ).push(next),
{
    assert(more.push(next).drop_last() =~= more);
}

/// Every row that could be loaded is a key, at its own place and from the moment of its activation
/// on; a row that could not be is passed over. The algorithms are those of the keys, each once.
pub proof fn law_a_row_that_can_be_loaded_is_a_key(rows: Seq<KeyRow>, n: int, i: int)
    requires
        0 <= n <= rows.len() <= usize::MAX,
        0 <= i < n,
    ensures
        rows[i].algorithm is Some ==> exists|k: int|
            0 <= k < keys_of(rows, n).len() && (#[trigger] keys_of(rows, n)[k]).0 == i && keys_of(
                rows,
                n,
            )[k].1 == rows[i].activate_at_unix_micros * 1000,
        rows[i].algorithm is None ==> forall|k: int|
            0 <= k < keys_of(rows, n).len() ==> (#[trigger] keys_of(rows, n)[k]).0 != i,
        rows[i].algorithm matches Some(alg) ==> algorithms_of(rows, n).contains(alg),
        algorithms_of(rows, n).no_duplicates(),
        forall|k: int| 0 <= k < keys_of(rows, n).len() ==> (#[trigger] keys_of(rows, n)[k]).0 < n,
    decreases n,
{
    lemma_rows(rows, n);
    if i < n - 1 {
        law_a_row_that_can_be_loaded_is_a_key(rows, n - 1, i);
        let before = keys_of(rows, n - 1);
        let all = keys_of(rows, n);
        if rows[i].algorithm is Some {
            let k = choose|k: int|
                0 <= k < before.len() && (#[trigger] before[k]).0 == i && before[k].1
                    == rows[i].activate_at_unix_micros * 1000;
            assert(all[k] == before[k]);
            let alg = rows[i].algorithm->0;
            let known = algorithms_of(rows, n - 1);
            let m = choose|m: int| 0 <= m < known.len() && known[m] == alg;
            assert(algorithms_of(rows, n)[m] == alg);
        } else {
            assert forall|k: int| 0 <= k < all.len() implies (#[trigger] all[k]).0 != i by {
                if k < before.len() {
                    assert(all[k] == before[k]);
                }
            }
        }
    } else {
        lemma_rows(rows, n - 1);
        let before = keys_of(rows, n - 1);
        let all = keys_of(rows, n);
        if rows[i].algorithm is Some {
            let micros = rows[i].activate_at_unix_micros;
            assert(all.last().0 == i && all.last().1 == micros * 1000);
            assert(all[before.len() as int] == all.last());
            let alg = rows[i].algorithm->0;
            let rest = algorithms_of(rows, n - 1);
            if !rest.contains(alg) {
                assert(algorithms_of(rows, n)[rest.len() as int] == alg);
            }
        } else {
            assert(all == before);
        }
    }
}

proof fn lemma_rows(rows: Seq<KeyRow>, n: int)
    requires
        0 <= n <= rows.len() <= usize::MAX,
    ensures
        algorithms_of(rows, n).no_duplicates(),
        forall|k: int| 0 <= k < keys_of(rows, n).len() ==> (#[trigger] keys_of(rows, n)[k]).0 < n,
    decreases n,
{
    if n > 0 {
        lemma_rows(rows, n - 1);
        let before = keys_of(rows, n - 1);
        assert forall|k: int| 0 <= k < keys_of(rows, n).len() implies (#[trigger] keys_of(rows, n)[k]).0
            < n by {
            if k < before.len() {
                assert(keys_of(rows, n)[k] == before[k]);
            }
        }
    }
}

/// What is remembered is believed from the moment at which it was learnt until its time is over, and
/// not before it.
pub proof fn law_what_is_remembered_is_believed_for_its_time(ttl: i128, stamped: i128, now: i128)
    ensures
        stamped <= now < stamped + ttl ==> fresh(ttl, stamped, now),
        now < stamped ==> !fresh(ttl, stamped, now),
        now >= stamped + ttl ==> !fresh(ttl, stamped, now),
{
}

/// A registry with a store serves an environment that is not fenced from memory while that is fresh,
/// does not look up again what is freshly known to be absent, and loads everything else. One without
/// a store never loads, and serves what was put into it.
pub proof fn law_a_registry_resolves_from_memory_first<E>(
    v: RegistryView<E>,
    scope: scope_map::ScopeView,
    now: i128,
)
    ensures
        v.store_backed && v.entries.contains_key(scope) && v.entries[scope].1 <= now
            < v.entries[scope].1 + v.ttl ==> resolution(v, scope, now, false) == Resolution::Served(
            v.entries[scope].0,
        ),
        v.store_backed && !v.entries.contains_key(scope) && v.negatives.contains_key(scope)
            && v.negatives[scope] <= now < v.negatives[scope] + v.ttl ==> resolution(v, scope, now, false)
            is Missing,
        v.store_backed && (!v.entries.contains_key(scope) || now >= v.entries[scope].1 + v.ttl) && (
        !v.negatives.contains_key(scope) || now >= v.negatives[scope] + v.ttl) ==> resolution(
            v,
            scope,
            now,
            false,
        ) is Load,
        !v.store_backed && !v.entries.contains_key(scope) ==> resolution(v, scope, now, false) is Missing,
        !v.store_backed ==> !(resolution(v, scope, now, true) is Load) && !(resolution(
            v,
            scope,
            now,
            false,
        ) is Load),
{
}

/// A load changes what is remembered of its own scope and of no other: an issuer is remembered with
/// the moment of its load, and an absence with its own, and where the memory of absences is not full
/// every other of them is kept. How long it is believed and where it comes from stay.
pub proof fn law_a_load_is_remembered_for_its_scope<E>(
    v: RegistryView<E>,
    scope: scope_map::ScopeView,
    other: scope_map::ScopeView,
    now: i128,
    entry: E,
)
    ensures
        ({
            let loaded = settled(v, scope, now, LoadOutcome::Loaded(entry));
            let empty = settled(v, scope, now, LoadOutcome::<E>::Empty);
            &&& loaded.entries.contains_key(scope) && loaded.entries[scope] == (entry, now)
            &&& !loaded.negatives.contains_key(scope)
            &&& empty.negatives.contains_key(scope) && empty.negatives[scope] == now
            &&& empty.entries == v.entries
            &&& loaded.ttl == v.ttl && empty.ttl == v.ttl
            &&& loaded.store_backed == v.store_backed && empty.store_backed == v.store_backed
            &&& other != scope ==> (loaded.entries.contains_key(other) <==> v.entries.contains_key(
                other,
            ))
            &&& other != scope && v.entries.contains_key(other) ==> loaded.entries[other]
                == v.entries[other]
            &&& other != scope ==> (loaded.negatives.contains_key(other)
                <==> v.negatives.contains_key(other))
            &&& other != scope && (v.negatives.contains_key(scope) || v.negatives.dom().len()
                < NEGATIVE_CACHE_CAP) ==> (empty.negatives.contains_key(other)
                <==> v.negatives.contains_key(other))
            &&& other != scope && v.negatives.contains_key(other) && empty.negatives.contains_key(other)
                ==> empty.negatives[other] == v.negatives[other]
        }),
{
}

/// What an operator reads of a refused window names its length and the permitted range.
pub proof fn law_a_refused_window_is_told_with_the_range(value: u64)
    ensures
        (JwksCacheError::OutOfRange { value }).spec_message() == "JWKS cache max-age "@ + text::decimal(
            value as nat,
        ) + "s is outside the required "@ + text::decimal(300) + "..="@ + text::decimal(900) + " range"@,
        value < 300 ==> JwksCacheWindow::nearest(value) == 300,
        value > 900 ==> JwksCacheWindow::nearest(value) == 900,
        300 <= value <= 900 ==> JwksCacheWindow::nearest(value) == value,
{
}

} // verus!
