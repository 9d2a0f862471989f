//! The decision logic of an OpenID Provider, verified.
#![allow(unused_imports)]

pub mod authn;
pub mod clock;
pub mod flow;
pub mod forward_auth;
pub mod forward_auth_rules;
pub mod forward_auth_route;
pub mod funnel;
pub mod global_revocation;
pub mod hashing_pool;
pub mod headers;
pub mod hints;
pub mod identity_chaining;
pub mod interaction;
pub mod introspection;
pub mod invitations;
pub mod issuer;
pub mod jose;
pub mod json;
pub mod jwks;
pub mod jwt_bearer;
pub mod login;
pub mod logout;
pub mod magic_link;
pub mod mds3_sync;
pub mod pattern;
pub mod reply;
pub mod router;
pub mod rules;
pub mod scope_map;
pub mod step_up;
pub mod text;
pub mod token_credential;
pub mod util;
