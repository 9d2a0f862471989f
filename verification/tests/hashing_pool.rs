use ironauth_oidc::hashing_pool::{
    admission, enqueue, hash_reply, next_step, system_key, verify_reply, Bounds, FairQueue,
    HashRejection, RateLimitSnapshot, WorkerStep, SHED_GLOBAL, SHED_PER_ENVIRONMENT,
    SHED_PER_TENANT, SHED_SHUTDOWN,
};

#[test]
fn the_bounds_grow_with_the_depth() {
    let bounds = Bounds::from_depth(4);
    assert_eq!((bounds.per_env, bounds.per_tenant, bounds.global), (4, 32, 64));
    assert_eq!(Bounds::from_depth(0).per_env, 1);
    assert_eq!(Bounds::from_depth(usize::MAX).global, usize::MAX);
}

fn bounds() -> Bounds {
    Bounds {
        per_env: 2,
        per_tenant: 3,
        global: 4,
    }
}

#[test]
fn each_bound_sheds_for_its_own_reason() {
    let mut queue: FairQueue<u32> = FairQueue::new();
    assert_eq!(queue.push("a", "x", 1, bounds()), Ok(1));
    assert_eq!(queue.push("a", "x", 2, bounds()), Ok(2));
    assert_eq!(queue.push("a", "x", 3, bounds()), Err(SHED_PER_ENVIRONMENT));
    assert_eq!(queue.push("a", "y", 3, bounds()), Ok(3));
    assert_eq!(queue.push("a", "z", 4, bounds()), Err(SHED_PER_TENANT));
    assert_eq!(queue.push("b", "x", 4, bounds()), Ok(4));
    assert_eq!(queue.push("c", "x", 5, bounds()), Err(SHED_GLOBAL));
    assert_eq!(queue.len(), 4);
}

#[test]
fn tenants_take_turns_and_each_is_served_in_order() {
    let mut queue: FairQueue<u32> = FairQueue::new();
    let wide = Bounds::from_depth(8);
    for job in 1..=3 {
        assert!(queue.push("a", "x", job, wide).is_ok());
    }
    assert!(queue.push("b", "x", 10, wide).is_ok());
    assert!(queue.push("c", "x", 20, wide).is_ok());
    let mut order = Vec::new();
    while let Some(job) = queue.pop() {
        order.push(job);
    }
    assert_eq!(order, vec![1, 10, 20, 2, 3]);
    assert_eq!(queue.len(), 0);
}

#[test]
fn a_tenant_that_keeps_submitting_holds_nobody_up() {
    let mut queue: FairQueue<u32> = FairQueue::new();
    let wide = Bounds::from_depth(8);
    assert!(queue.push("a", "x", 1, wide).is_ok());
    assert!(queue.push("a", "x", 2, wide).is_ok());
    assert!(queue.push("b", "x", 10, wide).is_ok());
    assert!(queue.push("b", "x", 11, wide).is_ok());
    assert_eq!(queue.pop(), Some(1));
    assert!(queue.push("a", "x", 3, wide).is_ok());
    assert_eq!(queue.pop(), Some(10));
    assert!(queue.push("c", "x", 20, wide).is_ok());
    assert!(queue.push("a", "x", 4, wide).is_ok());
    assert_eq!(queue.pop(), Some(2));
    assert!(queue.push("a", "x", 5, wide).is_ok());
    assert_eq!(queue.pop(), Some(11));
    assert_eq!(queue.pop(), Some(20));
    for job in [3, 4, 5] {
        assert_eq!(queue.pop(), Some(job));
    }
    assert_eq!(queue.pop(), None);
}

#[test]
fn a_worker_drains_the_queue_before_it_leaves() {
    let mut queue: FairQueue<u32> = FairQueue::new();
    assert_eq!(next_step(&mut queue, false), WorkerStep::Wait);
    assert_eq!(enqueue(&mut queue, false, "a", "x", 7, bounds()), Ok(1));
    assert_eq!(enqueue(&mut queue, true, "a", "x", 8, bounds()), Err(SHED_SHUTDOWN));
    assert_eq!(next_step(&mut queue, true), WorkerStep::Run(7, 0));
    assert_eq!(next_step(&mut queue, true), WorkerStep::Exit);
}

#[test]
fn a_rejection_says_what_to_do() {
    let overloaded = HashRejection::Overloaded(RateLimitSnapshot {
        headers: vec![("retry-after".to_owned(), "3".to_owned())],
        block_set_cookie: Some("block=1".to_owned()),
    })
    .to_response();
    assert_eq!(overloaded.status, 429);
    assert!(overloaded
        .headers
        .contains(&("retry-after".to_owned(), "3".to_owned())));
    assert!(overloaded
        .headers
        .contains(&("set-cookie".to_owned(), "block=1".to_owned())));
    assert_eq!(HashRejection::PoolExhausted.to_response().status, 503);
    assert_eq!(HashRejection::Unavailable.to_response().status, 500);
}

#[test]
fn a_reply_that_never_comes_is_no_verdict() {
    assert_eq!(admission(None), Ok(()));
    assert!(matches!(
        admission(Some(RateLimitSnapshot { headers: Vec::new(), block_set_cookie: None })),
        Err(HashRejection::Overloaded(_))
    ));
    assert_eq!(hash_reply(Some(Some("phc".to_owned()))), Ok("phc".to_owned()));
    assert_eq!(hash_reply(Some(None)), Err(HashRejection::Unavailable));
    assert_eq!(hash_reply(None), Err(HashRejection::Unavailable));
    assert_eq!(verify_reply(Some(false)), Ok(false));
    assert_eq!(verify_reply(None), Err(HashRejection::Unavailable));
}

#[test]
fn the_system_has_a_key_of_its_own() {
    let (tenant, environment) = system_key();
    assert_eq!(tenant, environment);
}
