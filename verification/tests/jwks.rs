use std::sync::Arc;

use ironauth_oidc::jwks::{
    jwks, published_keys, server_error, template_jwks, JwksAnswer, Read, TemplateCache, TemplateKey,
    TemplateName, TemplateStep,
};
use ironauth_oidc::scope_map::Scope;

fn name() -> TemplateName {
    TemplateName {
        scope: Scope::new("tnt_1", "env_1"),
        template: "api".to_owned(),
    }
}

fn key(publish: i64, expire: Option<i64>, id: u8) -> TemplateKey<u8> {
    TemplateKey {
        publish_at_unix_micros: publish,
        expire_at_unix_micros: expire,
        key: Arc::new(id),
    }
}

fn ids(keys: &[TemplateKey<u8>]) -> Vec<u8> {
    keys.iter().map(|key| *key.key).collect()
}

#[test]
fn a_key_is_published_between_its_two_moments() {
    let keys = vec![key(0, Some(10), 1), key(5, None, 2), key(20, None, 3)];
    assert_eq!(ids(&published_keys(&keys, 4)), vec![1]);
    assert_eq!(ids(&published_keys(&keys, 9)), vec![1, 2]);
    assert_eq!(ids(&published_keys(&keys, 10)), vec![2]);
}

#[test]
fn a_document_is_served_from_what_was_read_while_the_store_is_away() {
    let mut cache: TemplateCache<u8> = TemplateCache::new(100);
    assert!(matches!(
        cache.template_read(&name(), 0, 5, Read::Unreachable),
        TemplateStep::ServerError
    ));
    assert!(matches!(
        cache.template_read(&name(), 0, 5, Read::Answer(true)),
        TemplateStep::ReadKeys
    ));
    assert!(matches!(
        cache.template_read(&name(), 0, 5, Read::Answer(false)),
        TemplateStep::NotFound
    ));
    let rows = || vec![key(0, None, 1), key(50, None, 2)];
    match cache.keys_read(&name(), 0, 5, Read::Answer(rows())) {
        TemplateStep::Publish { keys, read_at, remembered } => {
            assert_eq!((ids(&keys), read_at, remembered), (vec![1], 0, false));
        }
        _ => panic!("a key is published"),
    }
    assert_eq!(
        cache.rendered(name(), rows(), 0, false, Some("doc".to_owned())),
        JwksAnswer::Document("doc".to_owned())
    );
    match cache.keys_read(&name(), 60, 55, Read::Unreachable) {
        TemplateStep::Publish { keys, read_at, remembered } => {
            assert_eq!((ids(&keys), read_at, remembered), (vec![1, 2], 0, true));
        }
        _ => panic!("what was read is still fresh"),
    }
    assert!(matches!(
        cache.keys_read(&name(), 600, 55, Read::Unreachable),
        TemplateStep::ServerError
    ));
    assert!(matches!(
        cache.keys_read(&name(), 60, 55, Read::Broken),
        TemplateStep::ServerError
    ));
    assert!(cache.fresh_template_keys(&name(), 60).is_some());
    assert!(cache.fresh_template_keys(&name(), 600).is_none());
}

#[test]
fn requests_do_not_keep_a_key_set_alive_while_the_store_is_away() {
    let mut cache: TemplateCache<u8> = TemplateCache::new(100);
    let rows = vec![key(0, None, 1)];
    let doc = || Some("doc".to_owned());
    cache.rendered(name(), rows, 0, false, doc());
    for now in [30, 60, 90] {
        match cache.template_read(&name(), now, 5, Read::Unreachable) {
            TemplateStep::Publish { keys, read_at, remembered } => {
                assert_eq!((read_at, remembered), (0, true));
                cache.rendered(name(), keys, read_at, remembered, doc());
            }
            other => panic!("expected a key set, got {other:?}"),
        }
    }
    assert!(matches!(
        cache.template_read(&name(), 100, 5, Read::Unreachable),
        TemplateStep::ServerError
    ));
}

#[test]
fn a_key_set_is_found_or_not_or_broken() {
    assert_eq!(jwks(false, None), JwksAnswer::NotFound);
    assert_eq!(jwks(true, None), JwksAnswer::NotFound);
    assert_eq!(jwks(true, Some(None)), JwksAnswer::ServerError);
    assert_eq!(
        jwks(true, Some(Some("{}".to_owned()))),
        JwksAnswer::Document("{}".to_owned())
    );
    assert_eq!(template_jwks(true, true), None);
    assert_eq!(template_jwks(false, true), Some(JwksAnswer::NotFound));
    assert_eq!(template_jwks(true, false), Some(JwksAnswer::NotFound));
    assert_eq!(server_error().status, 500);
}
