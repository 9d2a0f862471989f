use ironauth_oidc::issuer::{
    canonical_algorithm_order, issuer_error_message, load_plan, load_signing_key,
    signable_id_token_algs, with_guardrails, IssuerError, IssuerRegistry, JwksCacheError,
    JwksCacheWindow, KeyLoader, KeyRow, LoadOutcome, Resolution, SigningKeyMaterialKind,
};
use ironauth_oidc::jose::{holds, JwsAlgorithm};
use ironauth_oidc::scope_map::Scope;

fn scope() -> Scope {
    Scope::new("tnt_1", "env_1")
}

fn window() -> JwksCacheWindow {
    JwksCacheWindow::clamped(300)
}

#[test]
fn a_cache_window_is_bounded() {
    assert_eq!(JwksCacheWindow::new(300).map(|w| w.max_age_secs()), Ok(300));
    match JwksCacheWindow::new(u64::MAX) {
        Err(error @ JwksCacheError::OutOfRange { value }) => {
            assert_eq!(value, u64::MAX);
            assert!(error.message().contains("18446744073709551615"));
        }
        _ => panic!("expected a refusal"),
    }
    let most = JwksCacheWindow::clamped(u64::MAX);
    assert!(JwksCacheWindow::new(most.max_age_secs()).is_ok());
    assert_eq!(window().max_age(), 300_000_000_000);
}

#[test]
fn an_issuer_is_named_by_its_scope() {
    let registry: IssuerRegistry<u8> = IssuerRegistry::new("https://op.test/", window());
    assert_eq!(
        registry.issuer_for(&scope()),
        "https://op.test/t/tnt_1/e/env_1"
    );
    assert_eq!(
        registry.jwks_uri_for(&scope()),
        format!("{}/jwks.json", registry.issuer_for(&scope()))
    );
    assert_eq!(registry.cache().max_age_secs(), 300);
}

#[test]
fn a_loaded_entry_is_served_until_it_is_stale_and_an_empty_scope_is_remembered() {
    let mut registry: IssuerRegistry<u8> =
        IssuerRegistry::store_backed("https://op.test", window()).with_entry_ttl(100);
    assert_eq!(registry.entry_for(&scope(), 0, false), Resolution::Load);
    assert!(registry.settle(&scope(), 0, LoadOutcome::Loaded(7)));
    assert_eq!(registry.entry_for(&scope(), 50, false), Resolution::Served(&7));
    assert_eq!(registry.entry_for(&scope(), 500, false), Resolution::Load);
    assert_eq!(registry.entry_for(&scope(), 50, true), Resolution::Missing);
    let empty = Scope::new("tnt_2", "env_1");
    assert!(!registry.settle(&empty, 0, LoadOutcome::Empty));
    assert_eq!(registry.entry_for(&empty, 50, false), Resolution::Missing);
    assert!(!registry.settle(&scope(), 60, LoadOutcome::Error));
}

#[test]
fn an_inserted_entry_needs_no_store() {
    let mut registry: IssuerRegistry<u8> = IssuerRegistry::new("https://op.test", window());
    assert_eq!(registry.entry_for(&scope(), 0, false), Resolution::Missing);
    registry.insert(scope(), 9);
    assert_eq!(registry.entry_for(&scope(), 0, false), Resolution::Served(&9));
}

#[test]
fn a_key_is_loaded_by_its_material_and_its_algorithm() {
    assert_eq!(
        load_signing_key(SigningKeyMaterialKind::Ed25519Seed, "EdDSA"),
        Ok(KeyLoader::Ed25519FromSeed)
    );
    assert_eq!(
        load_signing_key(SigningKeyMaterialKind::EcdsaPkcs8, "ES384"),
        Ok(KeyLoader::EcdsaP384FromPkcs8)
    );
    assert_eq!(
        load_signing_key(SigningKeyMaterialKind::RsaPkcs1Der, "PS512"),
        Ok(KeyLoader::RsaFromPkcs1Der(JwsAlgorithm::Ps512))
    );
    assert_eq!(
        load_signing_key(SigningKeyMaterialKind::RsaPkcs1Der, "ES512"),
        Err(IssuerError::UnknownAlgorithm)
    );
    assert_eq!(
        load_signing_key(SigningKeyMaterialKind::Ed25519Seed, "RS256"),
        Err(IssuerError::MaterialMismatch)
    );
    assert!(!issuer_error_message(IssuerError::KeyMaterial, "bad seed").is_empty());
}

#[test]
fn a_plan_skips_what_cannot_sign() {
    assert!(matches!(load_plan(None), LoadOutcome::Error));
    let row = |algorithm: Option<JwsAlgorithm>, at: i64| KeyRow {
        algorithm,
        activate_at_unix_micros: at,
    };
    assert!(matches!(load_plan(Some(&vec![row(None, 1)])), LoadOutcome::Empty));
    match load_plan(Some(&vec![
        row(None, 1),
        row(Some(JwsAlgorithm::Rs256), 2),
        row(Some(JwsAlgorithm::EdDsa), 3),
    ])) {
        LoadOutcome::Loaded(plan) => {
            assert_eq!(plan.keys, vec![(1, 2_000), (2, 3_000)]);
            assert_eq!(plan.policy, vec![JwsAlgorithm::EdDsa, JwsAlgorithm::Rs256]);
        }
        _ => panic!("two keys can sign"),
    }
}

#[test]
fn guardrails_that_cannot_be_read_fail_the_load() {
    assert!(matches!(
        with_guardrails(LoadOutcome::Loaded(1_u8), Some(2_u8)),
        LoadOutcome::Loaded((1, 2))
    ));
    assert!(matches!(
        with_guardrails(LoadOutcome::Loaded(1_u8), None::<u8>),
        LoadOutcome::Error
    ));
    assert!(matches!(
        with_guardrails(LoadOutcome::<u8>::Empty, Some(2_u8)),
        LoadOutcome::Empty
    ));
}

#[test]
fn algorithms_keep_one_order() {
    assert_eq!(
        canonical_algorithm_order(&vec![JwsAlgorithm::Rs256, JwsAlgorithm::EdDsa]),
        vec![JwsAlgorithm::EdDsa, JwsAlgorithm::Rs256]
    );
    assert_eq!(
        signable_id_token_algs(
            &vec![JwsAlgorithm::Es256, JwsAlgorithm::Rs256],
            &vec![JwsAlgorithm::Rs256, JwsAlgorithm::EdDsa],
        ),
        vec![JwsAlgorithm::Rs256]
    );
    assert!(holds(&vec![JwsAlgorithm::Ps256], JwsAlgorithm::Ps256));
    assert_eq!(JwsAlgorithm::from_jose_name("PS384"), Some(JwsAlgorithm::Ps384));
    assert_eq!(JwsAlgorithm::from_jose_name("none"), None);
    assert_eq!(JwsAlgorithm::Es384.jose_name(), "ES384");
    assert!(JwsAlgorithm::Ps256.is_rsa() && !JwsAlgorithm::EdDsa.is_rsa());
}
