use axum::routing::{delete, get, options, post, put};
use axum::Router;
use ironauth_oidc::router::{oidc_router, Endpoint, Method, Methods, Mount, RouterSettings};

fn settings(on: bool) -> RouterSettings {
    RouterSettings {
        registration: on,
        session_management: on,
        global_token_revocation: on,
    }
}

fn paths(mounts: &[Mount]) -> Vec<&str> {
    mounts.iter().map(|mount| mount.path.as_str()).collect()
}

#[test]
fn what_is_off_is_not_served() {
    let least = oidc_router(settings(false), "/disavow");
    let most = oidc_router(settings(true), "/disavow");
    assert_eq!(least.len(), 72);
    assert_eq!(most.len(), 76);
    assert_eq!(paths(&most)[..72], paths(&least)[..]);
    for gated in [
        "/t/{tenant_id}/e/{environment_id}/connect/register",
        "/t/{tenant_id}/e/{environment_id}/connect/register/{client_id}",
        "/connect/check_session",
        "/global-token-revocation",
    ] {
        assert!(!paths(&least).contains(&gated), "{gated}");
        assert!(paths(&most).contains(&gated), "{gated}");
    }
}

#[test]
fn every_path_is_served_once() {
    let mounts = oidc_router(settings(true), "/disavow");
    let mut all = paths(&mounts);
    all.sort_unstable();
    all.dedup();
    assert_eq!(all.len(), mounts.len());
    for (i, one) in mounts.iter().enumerate() {
        for other in &mounts[i + 1..] {
            assert_ne!(one.endpoint, other.endpoint, "{} {}", one.path, other.path);
        }
    }
}

#[test]
fn each_path_has_its_own_endpoint() {
    let mounts = oidc_router(settings(true), "/disavow");
    let endpoint = |path: &str| {
        mounts
            .iter()
            .find(|mount| mount.path == path)
            .expect("served")
            .endpoint
    };
    assert_eq!(endpoint("/login"), Endpoint::Login);
    assert_eq!(endpoint("/login/mfa"), Endpoint::MfaChallenge);
    assert_eq!(endpoint("/introspect"), Endpoint::Introspect);
    assert_eq!(endpoint("/disavow"), Endpoint::Disavow);
    assert_eq!(
        endpoint("/t/{tenant_id}/e/{environment_id}/magic/consume"),
        Endpoint::MagicConsume
    );
    assert_eq!(endpoint("/connect/check_session"), Endpoint::CheckSession);
}

#[test]
fn each_endpoint_takes_its_methods() {
    let mounts = oidc_router(settings(true), "/disavow");
    let methods = |path: &str| {
        mounts
            .iter()
            .find(|mount| mount.path == path)
            .expect("served")
            .methods
    };
    assert_eq!(methods("/authorize"), Methods::GetPost);
    assert_eq!(methods("/token"), Methods::Post);
    assert_eq!(methods("/userinfo"), Methods::GetPostOptions);
    assert_eq!(methods("/disavow"), Methods::GetPost);
    assert_eq!(
        methods("/t/{tenant_id}/e/{environment_id}/magic/confirm"),
        Methods::Get
    );
    assert!(Methods::GetPutDelete.takes(Method::Delete));
    assert!(!Methods::GetPutDelete.takes(Method::Post));
    assert!(!Methods::Post.takes(Method::Get));
    assert!(Methods::GetPostOptions.takes(Method::Options));
    assert!(!Methods::GetPost.takes(Method::Put));
}

async fn nothing() {}

#[test]
fn the_endpoints_make_up_a_router() {
    let mut router: Router = Router::new();
    for mount in oidc_router(settings(true), "/disavow") {
        for method in [Method::Get, Method::Post, Method::Put, Method::Delete, Method::Options] {
            if mount.methods.takes(method) {
                let route = match method {
                    Method::Get => get(nothing),
                    Method::Post => post(nothing),
                    Method::Put => put(nothing),
                    Method::Delete => delete(nothing),
                    Method::Options => options(nothing),
                };
                router = router.route(&mount.path, route);
            }
        }
    }
    assert!(router.has_routes());
}
