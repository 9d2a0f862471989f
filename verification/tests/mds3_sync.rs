use ironauth_oidc::mds3_sync::{
    cached_blob, digest_blob, fetched_text, pinned_fido_root_der, sync, sync_may_run, Sync,
    SyncError, SyncStep,
};

#[test]
fn digest_is_sha256() {
    let d = digest_blob(b"");
    assert_eq!(d.len(), 32);
    assert_eq!(d[0], 0xe3);
    assert_eq!(d[31], 0x55);
}

#[test]
fn an_empty_pinned_root_is_a_fail_closed_no_op_marker() {
    assert!(pinned_fido_root_der().is_empty());
}

#[test]
fn a_sync_without_a_root_does_not_run() {
    assert_eq!(sync_may_run(pinned_fido_root_der()), Err(SyncError::NoPinnedRoot));
    assert_eq!(sync_may_run(&[0x30]), Ok(()));
}

#[test]
fn only_a_successful_text_is_fetched() {
    assert_eq!(fetched_text(None), Err(SyncError::Fetch));
    assert_eq!(fetched_text(Some((503, b"x".to_vec()))), Err(SyncError::Fetch));
    assert_eq!(fetched_text(Some((200, vec![0xff, 0xfe]))), Err(SyncError::NotText));
    assert_eq!(fetched_text(Some((200, b"blob".to_vec()))), Ok("blob".to_owned()));
}

#[test]
fn a_blob_is_kept_with_its_digest_and_its_next_update() {
    let blob = cached_blob(7, 12, b"abc", 99);
    assert_eq!(blob.no, 7);
    assert_eq!(blob.next_update_micros, 12_000_000);
    assert_eq!(blob.digest[0], 0xba);
    assert_eq!(blob.digest[31], 0xad);
    assert_eq!(blob.now_micros, 99);
}

#[test]
fn a_sync_fetches_verifies_and_caches() {
    let root = [0x30];
    let mut state = Sync {
        response: None,
        now_micros: -1_500_000,
        verified: None,
        stored: None,
    };
    assert_eq!(sync(&state, &[]), SyncStep::Failed(SyncError::NoPinnedRoot));
    assert_eq!(sync(&state, &root), SyncStep::Fetch);
    state.response = Some(None);
    assert_eq!(sync(&state, &root), SyncStep::Failed(SyncError::Fetch));
    state.response = Some(Some((200, b"abc".to_vec())));
    assert_eq!(
        sync(&state, &root),
        SyncStep::Verify { blob: "abc".to_owned(), now_unix: -1 }
    );
    state.verified = Some(Err("expired".to_owned()));
    assert_eq!(
        sync(&state, &root),
        SyncStep::Failed(SyncError::Verify("expired".to_owned()))
    );
    state.verified = Some(Ok((7, 12)));
    assert_eq!(
        sync(&state, &root),
        SyncStep::Store(cached_blob(7, 12, b"abc", -1_500_000))
    );
    state.stored = Some(false);
    assert_eq!(sync(&state, &root), SyncStep::Failed(SyncError::Store));
    state.stored = Some(true);
    assert_eq!(sync(&state, &root), SyncStep::Done(7));
}
