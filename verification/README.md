# ironauth-oidc

The decisions of an OpenID Connect provider, as a verified library: what a login, a logout, a magic
link, an invitation, a token introspection, a revocation, an assertion grant or a forward
authentication check comes to, and why.

Every function states in `requires` and `ensures` what it does, and Verus proves it. What holds
across functions stands as a public proof function whose name begins with `law_`, at the end of the
module that it is about.

## Layout

- `src/`: the library. A handler that waits for the store or for another service is a function from
  what is known so far to the next step: the request is a struct of facts, each of them absent until
  it was looked up, and the step says what to look up next or what to answer.
- `tests/`: the library on concrete values.
- `app/`: what runs the library: HTTP, the pages, the metrics, the threads of the hashing pool and
  the traits behind which the store, the clock and the key material stand.

## What is believed without proof

A handful of functions call an outside crate and state what it returns: compiling and matching a
regular expression (`src/pattern.rs`), reading and writing JSON (`src/json.rs`), base64url
(`src/token_credential.rs`), SHA-256 (`src/mds3_sync.rs`), and two functions of the standard library
(`src/text.rs`). Each says in its documentation what it claims.
