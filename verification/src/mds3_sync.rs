//! The sync of the FIDO metadata: what a fetched and verified statement comes to.
//!
//! The statement is anchored at a root that is compiled in and never fetched. Without one the
//! sync refuses to run.

use vstd::prelude::*;
use vstd::utf8::*;

use crate::clock;
use crate::text;

verus! {

/// The compiled-in root of the metadata. It is empty until the certificate is shipped, so that
/// nothing is anchored by accident.
pub fn pinned_fido_root_der() -> (r: &'static [u8])
    ensures
        r@.len() == 0,
{
    &[]
}

/// The SHA-256 digest of a sequence of bytes: what `sha2::Sha256::digest` returns.
pub uninterp spec fn sha256(bytes: Seq<u8>) -> Seq<u8>;

/// `sha2::Sha256::digest`: the SHA-256 digest, which has 32 bytes.
#[verifier::external_body]
fn sha256_digest(raw: &[u8]) -> (r: Vec<u8>)
    ensures
        r@ == sha256(raw@),
        r@.len() == 32,
{
    <sha2::Sha256 as sha2::Digest>::digest(raw).to_vec()
}

/// The SHA-256 digest of the raw bytes of a statement, by which an identical one is recognised.
pub fn digest_blob(raw: &[u8]) -> (r: Vec<u8>)
    ensures
        r@ == sha256(raw@),
        r@.len() == 32,
{
    sha256_digest(raw)
}

/// Why a sync failed.
#[derive(Debug, PartialEq, Eq)]
pub enum SyncError {
    /// No root is compiled in.
    NoPinnedRoot,
    /// The statement could not be fetched.
    Fetch,
    /// What was fetched is not text.
    NotText,
    /// The statement does not verify against the root, for this reason.
    Verify(String),
    /// The verified statement could not be cached.
    Store,
}

/// Whether a sync may run: not without a root.
pub fn sync_may_run(pinned_root_der: &[u8]) -> (r: Result<(), SyncError>)
    ensures
        r == (if pinned_root_der@.len() == 0 {
            Err::<(), SyncError>(SyncError::NoPinnedRoot)
        } else {
            Ok(())
        }),
{
    if pinned_root_der.len() == 0 {
        Err(SyncError::NoPinnedRoot)
    } else {
        Ok(())
    }
}

/// The text of the statement in a response: `response` is its status and its body, where there
/// was one.
pub fn fetched_text(response: Option<(u16, Vec<u8>)>) -> (r: Result<String, SyncError>)
    ensures
        match response {
            Some((status, body)) => if !(200 <= status <= 299) {
                r == Err::<String, SyncError>(SyncError::Fetch)
            } else {
                match text::utf8_text(body@) {
                    Some(t) => r matches Ok(s) && s@ == t,
                    None => r == Err::<String, SyncError>(SyncError::NotText),
                }
            },
            None => r == Err::<String, SyncError>(SyncError::Fetch),
        },
{
    match response {
        Some((status, body)) => {
            if !(200 <= status && status <= 299) {
                return Err(SyncError::Fetch);
            }
            match text::text_of_bytes(body) {
                Some(s) => Ok(s),
                None => Err(SyncError::NotText),
            }
        },
        None => Err(SyncError::Fetch),
    }
}

/// What is cached of a verified statement.
#[derive(Debug, PartialEq, Eq)]
pub struct CachedBlob {
    /// Its sequence number.
    pub no: i64,
    /// When the next one is due, in microseconds.
    pub next_update_micros: i64,
    /// The digest of its raw bytes.
    pub digest: Vec<u8>,
    /// When it was fetched and verified, in microseconds.
    pub now_micros: i64,
}

/// What is cached of a verified statement with this number and this time of the next one.
pub fn cached_blob(no: i64, next_update: i64, raw: &[u8], now_micros: i64) -> (r: CachedBlob)
    ensures
        r.no == no,
        r.next_update_micros == clock::saturated(next_update * 1_000_000),
        r.digest@ == sha256(raw@),
        r.now_micros == now_micros,
{
    CachedBlob {
        no,
        next_update_micros: clock::micros_of_secs(next_update),
        digest: digest_blob(raw),
        now_micros,
    }
}

/// What is known of a sync. What is absent was not done yet.
pub struct Sync {
    /// The status and the body of the response, where there was one.
    pub response: Option<Option<(u16, Vec<u8>)>>,
    /// When it was fetched, in microseconds.
    pub now_micros: i64,
    /// The number of the statement and when the next one is due, or why it does not verify.
    pub verified: Option<Result<(i64, i64), String>>,
    /// The statement was cached.
    pub stored: Option<bool>,
}

/// What comes next for a sync.
#[derive(Debug, PartialEq, Eq)]
pub enum SyncStep {
    /// Fetch the statement.
    Fetch,
    /// Verify this text, at this second.
    Verify { blob: String, now_unix: i64 },
    /// Cache this.
    Store(CachedBlob),
    /// The statement of this number is cached.
    Done(i64),
    /// It failed.
    Failed(SyncError),
}

/// What comes next for a sync: without a root nothing is fetched, what does not verify is not
/// cached, and the number of the statement is returned once it is cached.
pub open spec fn sync_follows(s: Sync, root: Seq<u8>, step: SyncStep) -> bool {
    if root.len() == 0 {
        step == SyncStep::Failed(SyncError::NoPinnedRoot)
    } else {
        match s.response {
            None => step is Fetch,
            Some(None) => step == SyncStep::Failed(SyncError::Fetch),
            Some(Some((status, body))) => if !(200 <= status <= 299) {
                step == SyncStep::Failed(SyncError::Fetch)
            } else {
                match text::utf8_text(body@) {
                    None => step == SyncStep::Failed(SyncError::NotText),
                    Some(t) => match s.verified {
                        None => step matches SyncStep::Verify { blob, now_unix } && blob@ == t
                            && now_unix == truncated_secs(s.now_micros),
                        Some(Err(why)) => step matches SyncStep::Failed(SyncError::Verify(w)) && w@
                            == why@,
                        Some(Ok((no, next_update))) => match s.stored {
                            None => step matches SyncStep::Store(blob) && blob.no == no
                                && blob.next_update_micros == clock::saturated(
                                next_update * 1_000_000,
                            ) && blob.digest@ == sha256(body@) && blob.now_micros == s.now_micros,
                            Some(false) => step == SyncStep::Failed(SyncError::Store),
                            Some(true) => step == SyncStep::Done(no),
                        },
                    },
                }
            },
        }
    }
}

/// The seconds in a number of microseconds, rounded towards zero.
pub open spec fn truncated_secs(micros: i64) -> int {
    if micros >= 0 {
        micros as int / 1_000_000
    } else {
        -((-micros) as int / 1_000_000)
    }
}

/// The seconds in a number of microseconds, rounded towards zero.
fn unix_secs(micros: i64) -> (r: i64)
    ensures
        r == truncated_secs(micros),
{
    if micros >= 0 {
        micros / 1_000_000
    } else if micros == i64::MIN {
        -9_223_372_036_854
    } else {
        -((-micros) / 1_000_000)
    }
}

/// What comes next for a sync, from what is known of it.
pub fn sync(s: &Sync, pinned_root_der: &[u8]) -> (r: SyncStep)
    ensures
        sync_follows(*s, pinned_root_der@, r),
{
    match sync_may_run(pinned_root_der) {
        Ok(_) => {},
        Err(error) => return SyncStep::Failed(error),
    }
    let (status, body) = match &s.response {
        None => return SyncStep::Fetch,
        Some(None) => return SyncStep::Failed(SyncError::Fetch),
        Some(Some((status, body))) => (*status, body),
    };
    let copy: Vec<u8> = body.clone();
    assert(copy@ =~= body@);
    let blob = match fetched_text(Some((status, copy))) {
        Ok(blob) => blob,
        Err(error) => return SyncStep::Failed(error),
    };
    match &s.verified {
        None => SyncStep::Verify { blob, now_unix: unix_secs(s.now_micros) },
        Some(Err(why)) => SyncStep::Failed(SyncError::Verify(why.clone())),
        Some(Ok((no, next_update))) => match s.stored {
            None => SyncStep::Store(cached_blob(*no, *next_update, body.as_slice(), s.now_micros)),
            Some(false) => SyncStep::Failed(SyncError::Store),
            Some(true) => SyncStep::Done(*no),
        },
    }
}

// ---------------------------------------------------------------------------
// Laws
// ---------------------------------------------------------------------------

/// Nothing is fetched, verified or cached without a root, and nothing is cached that did not
/// verify.
pub proof fn law_only_what_verifies_is_cached(s: Sync, root: Seq<u8>, step: SyncStep)
    requires
        sync_follows(s, root, step),
    ensures
        root.len() == 0 ==> step is Failed,
        step is Store || step is Done ==> (s.verified matches Some(Ok(_))),
{
}

/// A sync takes its steps in order. With a root the statement is fetched; a response of another
/// status than from 200 to 299, and none at all, is a failure to fetch; and a body that is no text is
/// one too, of its own kind. The text is verified at the second of the fetch.
pub proof fn law_a_statement_is_fetched_and_verified(s: Sync, root: Seq<u8>, step: SyncStep)
    requires
        sync_follows(s, root, step),
    ensures
        root.len() == 0 ==> step == SyncStep::Failed(SyncError::NoPinnedRoot),
        root.len() > 0 && s.response is None ==> step is Fetch,
        root.len() > 0 && (s.response matches Some(None)) ==> step == SyncStep::Failed(SyncError::Fetch),
        root.len() > 0 ==> (s.response matches Some(Some((status, body))) ==> (status < 200 || status
            > 299 ==> step == SyncStep::Failed(SyncError::Fetch))),
        root.len() > 0 ==> (s.response matches Some(Some((status, body))) ==> (200 <= status <= 299 && !(
        text::utf8_text(body@) is Some) ==> step == SyncStep::Failed(SyncError::NotText))),
        root.len() > 0 && s.verified is None ==> (s.response matches Some(Some((status, body))) ==> (200
            <= status <= 299 ==> (text::utf8_text(body@) matches Some(t) ==> (
        step matches SyncStep::Verify { blob, now_unix } && blob@ == t && (s.now_micros >= 0 ==> now_unix
            * 1_000_000 <= s.now_micros < (now_unix + 1) * 1_000_000))))),
{
}

/// A statement that does not verify fails for that reason. One that does is cached with its number,
/// when the next one is due, the digest of the very bytes that were fetched, and the time of the
/// fetch; and once it is cached its number is what the sync comes to.
pub proof fn law_a_verified_statement_is_cached(
    s: Sync,
    root: Seq<u8>,
    status: u16,
    body: Vec<u8>,
    step: SyncStep,
)
    requires
        sync_follows(s, root, step),
        root.len() > 0,
        s.response == Some(Some((status, body))),
        200 <= status <= 299,
        text::utf8_text(body@) is Some,
    ensures
        s.verified matches Some(Err(why)) ==> (step matches SyncStep::Failed(SyncError::Verify(w)) && w@
            == why@),
        s.verified matches Some(Ok((no, next_update))) ==> {
            &&& s.stored is None ==> (step matches SyncStep::Store(blob) && blob.no == no
                && blob.digest@ == sha256(body@) && blob.now_micros == s.now_micros && (i64::MIN
                <= next_update * 1_000_000 <= i64::MAX ==> blob.next_update_micros == next_update
                * 1_000_000) && (next_update * 1_000_000 > i64::MAX ==> blob.next_update_micros
                == i64::MAX) && (next_update * 1_000_000 < i64::MIN ==> blob.next_update_micros
                == i64::MIN))
            &&& s.stored == Some(false) ==> step == SyncStep::Failed(SyncError::Store)
            &&& s.stored == Some(true) ==> step == SyncStep::Done(no)
        },
{
}

} // verus!
