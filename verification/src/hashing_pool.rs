//! The admission-controlled hashing pool: its fair queue, its bounds and its refusals.
//!
//! Password hashing is the costliest thing an identity provider does, so the pool that does it
//! bounds what one tenant can ask of it. Jobs wait in one sub-queue per `(tenant, environment)`
//! and the workers serve the sub-queues in turn, one job at a time. Three bounds shed a
//! submission: the depth of its sub-queue, the depth of its tenant over all environments, and
//! the depth of the whole queue. The second is derived to lie below the third, so one tenant can
//! never fill the queue out from under another.

use std::collections::VecDeque;

use vstd::prelude::*;

use crate::reply;
use crate::reply::Reply;
use crate::text;

verus! {

/// How many sub-queue depths the whole queue holds.
pub const GLOBAL_BACKSTOP_FANOUT: usize = 16;

/// How many sub-queue depths one tenant may occupy over all of its environments.
pub const PER_TENANT_AGGREGATE_FANOUT: usize = 8;

/// The submitting tenant's depth, over all of its environments, is at its bound.
pub const SHED_PER_TENANT: &'static str = "per_tenant_queue_full";

/// The sub-queue of the submitting `(tenant, environment)` is at its bound.
pub const SHED_PER_ENVIRONMENT: &'static str = "per_environment_queue_full";

/// The whole queue is at its bound.
pub const SHED_GLOBAL: &'static str = "global_backstop_full";

/// The pool no longer accepts work.
pub const SHED_SHUTDOWN: &'static str = "shutting_down";

// ---------------------------------------------------------------------------
// The model
// ---------------------------------------------------------------------------

/// One sub-queue: whose it is, and the jobs that wait in it, the oldest first.
#[verifier::ext_equal]
pub struct SubView<T> {
    pub tenant: Seq<char>,
    pub environment: Seq<char>,
    pub jobs: Seq<T>,
}

/// The sum of `f` over the sub-queues in `s`.
pub open spec fn sum<T>(s: Seq<SubView<T>>, f: spec_fn(SubView<T>) -> nat) -> nat
    decreases s.len(),
{
    if s.len() == 0 {
        0
    } else {
        sum(s.drop_last(), f) + f(s.last())
    }
}

/// The number of jobs of a sub-queue.
pub open spec fn depth<T>() -> spec_fn(SubView<T>) -> nat {
    |x: SubView<T>| x.jobs.len()
}

/// The number of jobs of a sub-queue that is one of `tenant`, and zero for any other.
pub open spec fn depth_for<T>(tenant: Seq<char>) -> spec_fn(SubView<T>) -> nat {
    |x: SubView<T>|
        if x.tenant == tenant {
            x.jobs.len()
        } else {
            0
        }
}

/// How many jobs wait in the whole queue.
pub open spec fn total<T>(s: Seq<SubView<T>>) -> nat {
    sum(s, depth())
}

/// How many jobs of `tenant` wait, over all of its environments.
pub open spec fn tenant_depth<T>(s: Seq<SubView<T>>, tenant: Seq<char>) -> nat {
    sum(s, depth_for(tenant))
}

/// The sub-queue at `i` is the one of `(tenant, environment)`.
pub open spec fn is_sub<T>(s: Seq<SubView<T>>, i: int, tenant: Seq<char>, environment: Seq<char>) -> bool {
    0 <= i < s.len() && s[i].tenant == tenant && s[i].environment == environment
}

/// Some sub-queue is the one of `(tenant, environment)`.
pub open spec fn has_sub<T>(s: Seq<SubView<T>>, tenant: Seq<char>, environment: Seq<char>) -> bool {
    exists|i: int| #[trigger] is_sub(s, i, tenant, environment)
}

/// The jobs that wait for `(tenant, environment)`, the oldest first.
pub open spec fn jobs_of<T>(s: Seq<SubView<T>>, tenant: Seq<char>, environment: Seq<char>) -> Seq<T> {
    if has_sub(s, tenant, environment) {
        s[choose|i: int| #[trigger] is_sub(s, i, tenant, environment)].jobs
    } else {
        Seq::empty()
    }
}

/// Every `(tenant, environment)` with waiting work is scheduled exactly once, and none without.
pub open spec fn scheduled<T>(s: Seq<SubView<T>>) -> bool {
    &&& forall|i: int| 0 <= i < s.len() ==> #[trigger] s[i].jobs.len() > 0
    &&& forall|i: int, j: int|
        0 <= i < j < s.len() ==> !(#[trigger] s[i].tenant == #[trigger] s[j].tenant
            && s[i].environment == s[j].environment)
}

/// The queue after `job` was submitted for `(tenant, environment)`: at the end of its sub-queue
/// where there is one, else in a new sub-queue at the end of the schedule.
pub open spec fn pushed<T>(s: Seq<SubView<T>>, tenant: Seq<char>, environment: Seq<char>, job: T) -> Seq<
    SubView<T>,
> {
    if has_sub(s, tenant, environment) {
        let i = choose|i: int| #[trigger] is_sub(s, i, tenant, environment);
        s.update(i, SubView { tenant, environment, jobs: s[i].jobs.push(job) })
    } else {
        s.push(SubView { tenant, environment, jobs: seq![job] })
    }
}

/// The queue after the first sub-queue of the schedule was served once: it goes to the end of the
/// schedule with the jobs it has left, or leaves it when none is left.
pub open spec fn popped<T>(s: Seq<SubView<T>>) -> Seq<SubView<T>> {
    if s.len() == 0 {
        s
    } else if s[0].jobs.len() == 1 {
        s.skip(1)
    } else {
        s.skip(1).push(
            SubView {
                tenant: s[0].tenant,
                environment: s[0].environment,
                jobs: s[0].jobs.skip(1),
            },
        )
    }
}

/// Why a submission for `(tenant, environment)` is shed, if it is: the bounds are tried in this
/// order.
pub open spec fn shed<T>(
    s: Seq<SubView<T>>,
    tenant: Seq<char>,
    environment: Seq<char>,
    bounds: Bounds,
) -> Option<Seq<char>> {
    if jobs_of(s, tenant, environment).len() >= bounds.per_env {
        Some(SHED_PER_ENVIRONMENT@)
    } else if tenant_depth(s, tenant) >= bounds.per_tenant {
        Some(SHED_PER_TENANT@)
    } else if total(s) >= bounds.global {
        Some(SHED_GLOBAL@)
    } else {
        None
    }
}

// ---------------------------------------------------------------------------
// Sums over the schedule
// ---------------------------------------------------------------------------

proof fn lemma_sum_update<T>(s: Seq<SubView<T>>, i: int, x: SubView<T>, f: spec_fn(SubView<T>) -> nat)
    requires
        0 <= i < s.len(),
    ensures
        sum(s.update(i, x), f) == sum(s, f) - f(s[i]) + f(x),
        sum(s, f) >= f(s[i]),
    decreases s.len(),
{
    if i == s.len() - 1 {
        assert(s.update(i, x).drop_last() =~= s.drop_last());
    } else {
        assert(s.update(i, x).drop_last() =~= s.drop_last().update(i, x));
        lemma_sum_update(s.drop_last(), i, x, f);
    }
}

proof fn lemma_sum_push<T>(s: Seq<SubView<T>>, x: SubView<T>, f: spec_fn(SubView<T>) -> nat)
    ensures
        sum(s.push(x), f) == sum(s, f) + f(x),
{
    assert(s.push(x).drop_last() =~= s);
}

proof fn lemma_sum_skip<T>(s: Seq<SubView<T>>, f: spec_fn(SubView<T>) -> nat)
    requires
        s.len() > 0,
    ensures
        sum(s, f) == f(s[0]) + sum(s.skip(1), f),
    decreases s.len(),
{
    if s.len() == 1 {
        assert(s.drop_last() =~= Seq::empty());
        assert(s.skip(1) =~= Seq::empty());
    } else {
        assert(s.skip(1).drop_last() =~= s.drop_last().skip(1));
        lemma_sum_skip(s.drop_last(), f);
    }
}

proof fn lemma_sum_at_most<T>(
    s: Seq<SubView<T>>,
    f: spec_fn(SubView<T>) -> nat,
    g: spec_fn(SubView<T>) -> nat,
)
    requires
        forall|i: int| 0 <= i < s.len() ==> f(#[trigger] s[i]) <= g(s[i]),
    ensures
        sum(s, f) <= sum(s, g),
    decreases s.len(),
{
    if s.len() > 0 {
        assert forall|i: int| 0 <= i < s.drop_last().len() implies f(#[trigger] s.drop_last()[i])
            <= g(s.drop_last()[i]) by {
            assert(s.drop_last()[i] == s[i]);
        }
        lemma_sum_at_most(s.drop_last(), f, g);
    }
}

/// The place of a sub-queue in the schedule is unique.
proof fn lemma_sub_unique<T>(s: Seq<SubView<T>>, tenant: Seq<char>, environment: Seq<char>, i: int)
    requires
        scheduled(s),
        is_sub(s, i, tenant, environment),
    ensures
        has_sub(s, tenant, environment),
        i == (choose|k: int| #[trigger] is_sub(s, k, tenant, environment)),
        jobs_of(s, tenant, environment) == s[i].jobs,
{
    let k = choose|k: int| #[trigger] is_sub(s, k, tenant, environment);
    assert(is_sub(s, k, tenant, environment));
    if k < i {
        assert(s[k].tenant == s[i].tenant);
    } else if i < k {
        assert(s[i].tenant == s[k].tenant);
    }
}

/// What a submission does to the schedule and to the depths.
proof fn lemma_pushed<T>(s: Seq<SubView<T>>, tenant: Seq<char>, environment: Seq<char>, job: T)
    requires
        scheduled(s),
    ensures
        scheduled(pushed(s, tenant, environment, job)),
        total(pushed(s, tenant, environment, job)) == total(s) + 1,
        forall|t: Seq<char>| #[trigger]
            tenant_depth(pushed(s, tenant, environment, job), t) == tenant_depth(s, t) + (if t
                == tenant {
                1nat
            } else {
                0nat
            }),
{
    let r = pushed(s, tenant, environment, job);
    if has_sub(s, tenant, environment) {
        let i = choose|i: int| #[trigger] is_sub(s, i, tenant, environment);
        let x = SubView { tenant, environment, jobs: s[i].jobs.push(job) };
        lemma_sum_update(s, i, x, depth());
        assert forall|t: Seq<char>| #[trigger] tenant_depth(r, t) == tenant_depth(s, t) + (if t
            == tenant {
            1nat
        } else {
            0nat
        }) by {
            lemma_sum_update(s, i, x, depth_for(t));
        }
    } else {
        let x = SubView { tenant, environment, jobs: seq![job] };
        lemma_sum_push(s, x, depth());
        assert forall|t: Seq<char>| #[trigger] tenant_depth(r, t) == tenant_depth(s, t) + (if t
            == tenant {
            1nat
        } else {
            0nat
        }) by {
            lemma_sum_push(s, x, depth_for(t));
        }
        assert forall|i: int, j: int| 0 <= i < j < r.len() implies !(#[trigger] r[i].tenant
            == #[trigger] r[j].tenant && r[i].environment == r[j].environment) by {
            if j == s.len() && r[i].tenant == r[j].tenant && r[i].environment
                == r[j].environment {
                assert(is_sub(s, i, tenant, environment));
            }
        }
    }
}

/// What serving the first sub-queue does to the schedule and to the depths.
proof fn lemma_popped<T>(s: Seq<SubView<T>>)
    requires
        scheduled(s),
        s.len() > 0,
    ensures
        scheduled(popped(s)),
        total(s) == total(popped(s)) + 1,
        forall|t: Seq<char>| #[trigger]
            tenant_depth(s, t) == tenant_depth(popped(s), t) + (if t == s[0].tenant {
                1nat
            } else {
                0nat
            }),
{
    let r = popped(s);
    let x = SubView {
        tenant: s[0].tenant,
        environment: s[0].environment,
        jobs: s[0].jobs.skip(1),
    };
    lemma_sum_skip(s, depth());
    lemma_sum_push(s.skip(1), x, depth());
    assert forall|t: Seq<char>| #[trigger] tenant_depth(s, t) == tenant_depth(r, t) + (if t
        == s[0].tenant {
        1nat
    } else {
        0nat
    }) by {
        lemma_sum_skip(s, depth_for(t));
        lemma_sum_push(s.skip(1), x, depth_for(t));
    }
    assert forall|i: int| 0 <= i < r.len() implies #[trigger] r[i].jobs.len() > 0 by {
        if i < s.len() - 1 {
            assert(r[i] == s[i + 1]);
        }
    }
    assert forall|i: int, j: int| 0 <= i < j < r.len() implies !(#[trigger] r[i].tenant
        == #[trigger] r[j].tenant && r[i].environment == r[j].environment) by {
        assert(r[i] == s[i + 1]);
        if j < s.len() - 1 {
            assert(r[j] == s[j + 1]);
            assert(!(s[i + 1].tenant == s[j + 1].tenant && s[i + 1].environment == s[j
                + 1].environment));
        } else {
            assert(!(s[0].tenant == s[i + 1].tenant && s[0].environment == s[i + 1].environment));
        }
    }
}

// ---------------------------------------------------------------------------
// Bounds
// ---------------------------------------------------------------------------

/// The three bounds on waiting jobs.
#[derive(Debug, Clone, Copy, PartialEq, Eq)]
pub struct Bounds {
    /// The most jobs one sub-queue may have waiting.
    pub per_env: usize,
    /// The most jobs one tenant may have waiting, over all of its environments.
    pub per_tenant: usize,
    /// The most jobs that may wait in all.
    pub global: usize,
}

/// `a * b`, or the largest `usize` where that does not fit.
pub open spec fn saturated_product(a: int, b: int) -> int {
    if a * b > usize::MAX {
        usize::MAX as int
    } else {
        a * b
    }
}

/// The bounds of a pool whose sub-queues hold `max_queue_depth` jobs, at least one.
pub open spec fn bounds_for(max_queue_depth: usize) -> Bounds {
    let per_env = if max_queue_depth == 0 {
        1usize
    } else {
        max_queue_depth
    };
    Bounds {
        per_env,
        per_tenant: saturated_product(per_env as int, PER_TENANT_AGGREGATE_FANOUT as int) as usize,
        global: saturated_product(per_env as int, GLOBAL_BACKSTOP_FANOUT as int) as usize,
    }
}

impl Bounds {
    /// The bounds of a pool whose sub-queues hold `max_queue_depth` jobs, at least one.
    pub fn from_depth(max_queue_depth: usize) -> (b: Bounds)
        ensures
            b == bounds_for(max_queue_depth),
    {
        let per_env: usize = if max_queue_depth == 0 {
            1
        } else {
            max_queue_depth
        };
        let per_tenant: usize = match per_env.checked_mul(PER_TENANT_AGGREGATE_FANOUT) {
            Some(n) => n,
            None => usize::MAX,
        };
        let global: usize = match per_env.checked_mul(GLOBAL_BACKSTOP_FANOUT) {
            Some(n) => n,
            None => usize::MAX,
        };
        Bounds { per_env, per_tenant, global }
    }
}

// ---------------------------------------------------------------------------
// The queue
// ---------------------------------------------------------------------------

/// One sub-queue of admitted jobs.
struct Sub<T> {
    tenant: String,
    environment: String,
    jobs: VecDeque<T>,
}

impl<T> Sub<T> {
    spec fn view(&self) -> SubView<T> {
        SubView { tenant: self.tenant@, environment: self.environment@, jobs: self.jobs@ }
    }
}

spec fn views<T>(s: Seq<Sub<T>>) -> Seq<SubView<T>> {
    s.map_values(|x: Sub<T>| x.view())
}

/// The counters hold one entry for each tenant with waiting work, and none for another.
spec fn counts<T>(totals: Seq<(String, usize)>, s: Seq<SubView<T>>) -> bool {
    &&& forall|i: int|
        0 <= i < totals.len() ==> (#[trigger] totals[i]).1 > 0 && totals[i].1 == tenant_depth(
            s,
            totals[i].0@,
        )
    &&& forall|i: int, j: int|
        0 <= i < j < totals.len() ==> (#[trigger] totals[i]).0@ != (#[trigger] totals[j]).0@
    &&& forall|t: Seq<char>|
        #[trigger] tenant_depth(s, t) > 0 ==> exists|i: int|
            0 <= i < totals.len() && (#[trigger] totals[i]).0@ == t
}

/// The counters after one more job of `tenant`: its entry is one higher, or is new with one.
proof fn lemma_counts_up<T>(
    totals: Seq<(String, usize)>,
    after: Seq<(String, usize)>,
    s: Seq<SubView<T>>,
    r: Seq<SubView<T>>,
    tenant: Seq<char>,
)
    requires
        counts(totals, s),
        forall|t: Seq<char>| #[trigger]
            tenant_depth(r, t) == tenant_depth(s, t) + (if t == tenant {
                1nat
            } else {
                0nat
            }),
        ({
            ||| exists|i: int|
                0 <= i < totals.len() && (#[trigger] totals[i]).0@ == tenant && after.len()
                    == totals.len() && after =~= totals.update(i, after[i]) && after[i].0
                    == totals[i].0 && after[i].1 == totals[i].1 + 1
            ||| (forall|k: int| 0 <= k < totals.len() ==> (#[trigger] totals[k]).0@ != tenant)
                && after.len() == totals.len() + 1 && after =~= totals.push(after.last())
                && after.last().0@ == tenant && after.last().1 == 1
        }),
    ensures
        counts(after, r),
{
    assert forall|k: int| 0 <= k < totals.len() implies (#[trigger] after[k]).0@ == totals[k].0@ by {}
    assert forall|t: Seq<char>| #[trigger] tenant_depth(r, t) > 0 implies exists|i: int|
        0 <= i < after.len() && (#[trigger] after[i]).0@ == t by {
        if tenant_depth(s, t) > 0 {
            let k = choose|k: int| 0 <= k < totals.len() && (#[trigger] totals[k]).0@ == t;
            assert(after[k].0@ == t);
        } else {
            assert(t == tenant);
            if after.len() == totals.len() {
                let i = choose|i: int|
                    0 <= i < totals.len() && (#[trigger] totals[i]).0@ == tenant;
                assert(totals[i].1 > 0);
            } else {
                assert(after[after.len() - 1].0@ == t);
            }
        }
    }
    if after.len() == totals.len() + 1 {
        assert(tenant_depth(s, tenant) == 0);
    }
}

/// The counters after one job of `tenant` less: its entry is one lower, or is gone.
proof fn lemma_counts_down<T>(
    totals: Seq<(String, usize)>,
    after: Seq<(String, usize)>,
    s: Seq<SubView<T>>,
    r: Seq<SubView<T>>,
    tenant: Seq<char>,
)
    requires
        counts(totals, s),
        forall|t: Seq<char>| #[trigger]
            tenant_depth(s, t) == tenant_depth(r, t) + (if t == tenant {
                1nat
            } else {
                0nat
            }),
        exists|i: int|
            0 <= i < totals.len() && (#[trigger] totals[i]).0@ == tenant && (if totals[i].1 == 1 {
                after =~= totals.remove(i)
            } else {
                after =~= totals.update(i, after[i]) && after[i].0 == totals[i].0 && after[i].1
                    == totals[i].1 - 1
            }),
    ensures
        counts(after, r),
{
    let i = choose|i: int|
        0 <= i < totals.len() && (#[trigger] totals[i]).0@ == tenant && (if totals[i].1 == 1 {
            after =~= totals.remove(i)
        } else {
            after =~= totals.update(i, after[i]) && after[i].0 == totals[i].0 && after[i].1
                == totals[i].1 - 1
        });
    assert(tenant_depth(s, totals[i].0@) == totals[i].1);
    assert(tenant_depth(r, tenant) == totals[i].1 - 1);
    if totals[i].1 == 1 {
        assert forall|k: int| 0 <= k < after.len() implies (#[trigger] after[k]).1 > 0
            && after[k].1 == tenant_depth(r, after[k].0@) by {
            let m = if k < i {
                k
            } else {
                k + 1
            };
            assert(after[k] == totals[m]);
            assert(totals[m].0@ != tenant);
            assert(tenant_depth(s, totals[m].0@) == tenant_depth(r, totals[m].0@));
        }
        assert forall|k: int, l: int| 0 <= k < l < after.len() implies (#[trigger] after[k]).0@ != (
        #[trigger] after[l]).0@ by {
            let m = if k < i {
                k
            } else {
                k + 1
            };
            let n = if l < i {
                l
            } else {
                l + 1
            };
            assert(after[k] == totals[m] && after[l] == totals[n]);
        }
        assert forall|t: Seq<char>| #[trigger] tenant_depth(r, t) > 0 implies exists|k: int|
            0 <= k < after.len() && (#[trigger] after[k]).0@ == t by {
            assert(tenant_depth(s, t) > 0);
            let m = choose|m: int| 0 <= m < totals.len() && (#[trigger] totals[m]).0@ == t;
            let k = if m < i {
                m
            } else {
                m - 1
            };
            assert(after[k] == totals[m]);
        }
    } else {
        assert forall|k: int| 0 <= k < after.len() implies (#[trigger] after[k]).1 > 0
            && after[k].1 == tenant_depth(r, after[k].0@) by {
            assert(tenant_depth(s, totals[k].0@) == totals[k].1);
            if k != i {
                assert(totals[k].0@ != tenant);
            }
        }
        assert forall|t: Seq<char>| #[trigger] tenant_depth(r, t) > 0 implies exists|k: int|
            0 <= k < after.len() && (#[trigger] after[k]).0@ == t by {
            assert(tenant_depth(s, t) > 0);
            let m = choose|m: int| 0 <= m < totals.len() && (#[trigger] totals[m]).0@ == t;
            assert(after[m].0@ == t);
        }
    }
}

/// The fair queue: one sub-queue per `(tenant, environment)` with waiting work, in the order in
/// which the workers will serve them.
pub struct FairQueue<T> {
    order: Vec<Sub<T>>,
    tenant_totals: Vec<(String, usize)>,
    total: usize,
}

impl<T> FairQueue<T> {
    /// The sub-queues, in the order in which they will be served.
    pub closed spec fn view(&self) -> Seq<SubView<T>> {
        views(self.order@)
    }

    /// Every sub-queue with work is scheduled exactly once, and the counters agree with the jobs
    /// that wait.
    pub closed spec fn wf(&self) -> bool {
        &&& scheduled(self@)
        &&& self.total == total(self@)
        &&& counts(self.tenant_totals@, self@)
    }

    /// A well-formed queue is scheduled as [`scheduled`] says.
    pub proof fn law_a_well_formed_queue_is_scheduled(&self)
        requires
            self.wf(),
        ensures
            scheduled(self@),
    {
    }

    /// A queue with no jobs.
    pub fn new() -> (q: Self)
        ensures
            q.wf(),
            q@ == Seq::<SubView<T>>::empty(),
    {
        let q = FairQueue { order: Vec::new(), tenant_totals: Vec::new(), total: 0 };
        assert(q@ =~= Seq::<SubView<T>>::empty());
        q
    }

    /// How many jobs wait in all.
    pub fn len(&self) -> (n: usize)
        requires
            self.wf(),
        ensures
            n == total(self@),
    {
        self.total
    }

    /// The place of the sub-queue of `(tenant, environment)` in the schedule.
    fn find(&self, tenant: &str, environment: &str) -> (r: Option<usize>)
        ensures
            match r {
                Some(i) => is_sub(self@, i as int, tenant@, environment@),
                None => !has_sub(self@, tenant@, environment@),
            },
    {
        let mut i: usize = 0;
        while i < self.order.len()
            invariant
                i <= self.order@.len(),
                forall|k: int| 0 <= k < i ==> !(#[trigger] is_sub(self@, k, tenant@, environment@)),
            decreases self.order@.len() - i,
        {
            if text::same(self.order[i].tenant.as_str(), tenant) && text::same(
                self.order[i].environment.as_str(),
                environment,
            ) {
                return Some(i);
            }
            i = i + 1;
        }
        None
    }

    /// The place of the counter of `tenant`.
    fn find_total(&self, tenant: &str) -> (r: Option<usize>)
        ensures
            match r {
                Some(i) => i < self.tenant_totals@.len() && self.tenant_totals@[i as int].0@
                    == tenant@,
                None => forall|k: int|
                    0 <= k < self.tenant_totals@.len() ==> (#[trigger] self.tenant_totals@[k]).0@
                        != tenant@,
            },
    {
        let mut i: usize = 0;
        while i < self.tenant_totals.len()
            invariant
                i <= self.tenant_totals@.len(),
                forall|k: int|
                    0 <= k < i ==> (#[trigger] self.tenant_totals@[k]).0@ != tenant@,
            decreases self.tenant_totals@.len() - i,
        {
            if text::same(self.tenant_totals[i].0.as_str(), tenant) {
                return Some(i);
            }
            i = i + 1;
        }
        None
    }

    /// Puts `job` into the sub-queue of `(tenant, environment)`, unless a bound sheds it. On
    /// success the number of waiting jobs is returned, on a shed the reason, and then the queue
    /// is as it was.
    pub fn push(&mut self, tenant: &str, environment: &str, job: T, bounds: Bounds) -> (r: Result<
        usize,
        &'static str,
    >)
        requires
            old(self).wf(),
        ensures
            final(self).wf(),
            match r {
                Ok(n) => {
                    &&& shed(old(self)@, tenant@, environment@, bounds) is None
                    &&& final(self)@ == pushed(old(self)@, tenant@, environment@, job)
                    &&& n == total(final(self)@)
                },
                Err(reason) => {
                    &&& shed(old(self)@, tenant@, environment@, bounds) == Some(reason@)
                    &&& final(self)@ == old(self)@
                },
            },
    {
        let ghost before = self@;
        let place = self.find(tenant, environment);
        let sub_len: usize = match place {
            Some(i) => {
                proof {
                    lemma_sub_unique(before, tenant@, environment@, i as int);
                }
                self.order[i].jobs.len()
            },
            None => 0,
        };
        if sub_len >= bounds.per_env {
            return Err(SHED_PER_ENVIRONMENT);
        }
        let counter = self.find_total(tenant);
        let tenant_total: usize = match counter {
            Some(i) => self.tenant_totals[i].1,
            None => 0,
        };
        assert(tenant_total == tenant_depth(before, tenant@));
        if tenant_total >= bounds.per_tenant {
            return Err(SHED_PER_TENANT);
        }
        if self.total >= bounds.global {
            return Err(SHED_GLOBAL);
        }
        proof {
            lemma_pushed(before, tenant@, environment@, job);
        }
        let ghost after = pushed(before, tenant@, environment@, job);
        match place {
            Some(i) => {
                self.order[i].jobs.push_back(job);
            },
            None => {
                let mut jobs: VecDeque<T> = VecDeque::new();
                jobs.push_back(job);
                assert(jobs@ =~= seq![job]);
                self.order.push(
                    Sub { tenant: tenant.to_owned(), environment: environment.to_owned(), jobs },
                );
            },
        }
        assert(self@ =~= after);
        self.total = self.total + 1;
        let ghost totals = self.tenant_totals@;
        match counter {
            Some(i) => {
                let n: usize = self.tenant_totals[i].1;
                self.tenant_totals[i].1 = n + 1;
            },
            None => {
                self.tenant_totals.push((tenant.to_owned(), 1));
            },
        }
        proof {
            lemma_counts_up(totals, self.tenant_totals@, before, after, tenant@);
        }
        Ok(self.total)
    }

    /// Takes the oldest job of the first sub-queue of the schedule, and sends that sub-queue to
    /// the end of it. `None` when no job waits.
    pub fn pop(&mut self) -> (r: Option<T>)
        requires
            old(self).wf(),
        ensures
            final(self).wf(),
            final(self)@ == popped(old(self)@),
            match r {
                Some(job) => total(old(self)@) > 0 && old(self)@.len() > 0 && job == old(
                    self,
                )@[0].jobs[0],
                None => total(old(self)@) == 0 && old(self)@.len() == 0,
            },
    {
        if self.order.len() == 0 {
            return None;
        }
        let ghost before = self@;
        proof {
            lemma_popped(before);
            assert(before[0].jobs.len() > 0);
        }
        let mut sub = self.order.remove(0);
        let ghost first = sub.view();
        assert(first == before[0]);
        let job = sub.jobs.pop_front();
        let tenant: String = sub.tenant.clone();
        assert(sub.jobs@ =~= first.jobs.skip(1));
        if sub.jobs.len() > 0 {
            self.order.push(sub);
        }
        assert(self@ =~= popped(before));
        assert(self.total == total(before));
        self.total = self.total - 1;
        assert(tenant_depth(before, tenant@) > 0);
        let ghost totals = self.tenant_totals@;
        match self.find_total(tenant.as_str()) {
            Some(i) => {
                let n: usize = self.tenant_totals[i].1;
                if n == 1 {
                    self.tenant_totals.remove(i);
                } else {
                    self.tenant_totals[i].1 = n - 1;
                }
            },
            None => {},
        }
        proof {
            lemma_counts_down(totals, self.tenant_totals@, before, popped(before), tenant@);
        }
        job
    }
}

// ---------------------------------------------------------------------------
// Submitting and serving
// ---------------------------------------------------------------------------

/// The key of internal jobs, which belong to no tenant.
pub fn system_key() -> (k: (String, String))
    ensures
        k.0@ == Seq::<char>::empty(),
        k.1@ == Seq::<char>::empty(),
{
    (String::new(), String::new())
}

/// Submits a job to a pool that may be shutting down: such a pool accepts nothing.
pub fn enqueue<T>(
    queue: &mut FairQueue<T>,
    shutdown: bool,
    tenant: &str,
    environment: &str,
    job: T,
    bounds: Bounds,
) -> (r: Result<usize, &'static str>)
    requires
        old(queue).wf(),
    ensures
        final(queue).wf(),
        match r {
            Ok(n) => {
                &&& !shutdown
                &&& shed(old(queue)@, tenant@, environment@, bounds) is None
                &&& final(queue)@ == pushed(old(queue)@, tenant@, environment@, job)
                &&& n == total(final(queue)@)
            },
            Err(reason) => {
                &&& final(queue)@ == old(queue)@
                &&& if shutdown {
                    reason@ == SHED_SHUTDOWN@
                } else {
                    shed(old(queue)@, tenant@, environment@, bounds) == Some(reason@)
                }
            },
        },
{
    if shutdown {
        return Err(SHED_SHUTDOWN);
    }
    queue.push(tenant, environment, job, bounds)
}

/// What a worker does next.
#[derive(Debug, PartialEq, Eq)]
pub enum WorkerStep<T> {
    /// Run this job; so many wait behind it.
    Run(T, usize),
    /// Wait until a job comes or the pool shuts down.
    Wait,
    /// Leave.
    Exit,
}

/// The next step of a worker: a waiting job comes before everything, so a pool that shuts down
/// is drained before a worker leaves it.
pub fn next_step<T>(queue: &mut FairQueue<T>, shutdown: bool) -> (r: WorkerStep<T>)
    requires
        old(queue).wf(),
    ensures
        final(queue).wf(),
        final(queue)@ == popped(old(queue)@),
        match r {
            WorkerStep::Run(job, depth) => {
                &&& old(queue)@.len() > 0
                &&& job == old(queue)@[0].jobs[0]
                &&& depth == total(popped(old(queue)@))
            },
            WorkerStep::Wait => old(queue)@.len() == 0 && !shutdown,
            WorkerStep::Exit => old(queue)@.len() == 0 && shutdown,
        },
{
    match queue.pop() {
        Some(job) => WorkerStep::Run(job, queue.len()),
        None => if shutdown {
            WorkerStep::Exit
        } else {
            WorkerStep::Wait
        },
    }
}

// ---------------------------------------------------------------------------
// Refusals
// ---------------------------------------------------------------------------

/// What the quota layer says of a tenant that is over its share.
#[derive(Debug, Clone, PartialEq, Eq)]
pub struct RateLimitSnapshot {
    /// The rate-limit headers.
    pub headers: Vec<(String, String)>,
    /// The cookie that carries the block signal, if there is one.
    pub block_set_cookie: Option<String>,
}

/// Why a hashing request could not be served. The pool never hashes inline instead.
#[derive(Debug, Clone, PartialEq, Eq)]
pub enum HashRejection {
    /// The tenant is over its fair share.
    Overloaded(RateLimitSnapshot),
    /// A bound of the queue shed the submission.
    PoolExhausted,
    /// The pool could not complete the operation.
    Unavailable,
}

/// The body for a tenant over its share.
pub const OVERLOADED_BODY: &'static str = "{\"error\":\"rate_limited\",\"error_description\":\"the tenant password-hashing quota was exceeded; retry after the indicated delay\"}";

/// The body for a full pool.
pub const EXHAUSTED_BODY: &'static str = "{\"error\":\"hashing_overloaded\",\"error_description\":\"the hashing pool is saturated; retry shortly\"}";

/// The body for a pool that failed.
pub const UNAVAILABLE_BODY: &'static str = "{\"error\":\"server_error\",\"error_description\":\"the password hashing pool could not complete the request\"}";

impl HashRejection {
    /// The response, as [`to_response`](Self::to_response) gives it.
    pub open spec fn response(&self) -> reply::ReplyView {
        match self {
            HashRejection::Overloaded(snapshot) => reply::ReplyView {
                status: 429,
                headers: seq![("content-type"@, "application/json"@)] + reply::pairs(
                    snapshot.headers@,
                ) + match snapshot.block_set_cookie {
                    Some(cookie) => seq![("set-cookie"@, cookie@)],
                    None => Seq::empty(),
                },
                body: OVERLOADED_BODY@,
            },
            HashRejection::PoolExhausted => reply::ReplyView {
                status: 503,
                headers: seq![("content-type"@, "application/json"@), ("retry-after"@, "1"@)],
                body: EXHAUSTED_BODY@,
            },
            HashRejection::Unavailable => reply::ReplyView {
                status: 500,
                headers: seq![("content-type"@, "application/json"@)],
                body: UNAVAILABLE_BODY@,
            },
        }
    }

    /// The response for this rejection: a `429` with the quota layer's headers and its block
    /// signal, a `503` to be retried, or a `500`.
    pub fn to_response(&self) -> (r: Reply)
        ensures
            r@ == self.response(),
    {
        match self {
            HashRejection::Overloaded(snapshot) => {
                let mut headers = reply::content_type("application/json");
                let mut i: usize = 0;
                let ghost given = reply::pairs(snapshot.headers@);
                let ghost kind = seq![("content-type"@, "application/json"@)];
                while i < snapshot.headers.len()
                    invariant
                        i <= snapshot.headers@.len(),
                        given == reply::pairs(snapshot.headers@),
                        reply::pairs(headers@) == kind + given.take(i as int),
                    decreases snapshot.headers@.len() - i,
                {
                    reply::add_header(
                        &mut headers,
                        snapshot.headers[i].0.as_str(),
                        snapshot.headers[i].1.as_str(),
                    );
                    assert(kind + given.take(i + 1) =~= (kind + given.take(i as int)).push(
                        given[i as int],
                    ));
                    i = i + 1;
                }
                assert(given.take(given.len() as int) =~= given);
                match &snapshot.block_set_cookie {
                    Some(cookie) => {
                        reply::add_header(&mut headers, "set-cookie", cookie.as_str());
                        assert((kind + given).push(("set-cookie"@, cookie@)) =~= kind + given
                            + seq![("set-cookie"@, cookie@)]);
                    },
                    None => {
                        assert(kind + given =~= kind + given + Seq::empty());
                    },
                }
                Reply { status: 429, headers, body: OVERLOADED_BODY.to_owned() }
            },
            HashRejection::PoolExhausted => {
                let mut headers = reply::content_type("application/json");
                reply::add_header(&mut headers, "retry-after", "1");
                assert(reply::pairs(headers@) =~= seq![
                    ("content-type"@, "application/json"@),
                    ("retry-after"@, "1"@),
                ]);
                Reply { status: 503, headers, body: EXHAUSTED_BODY.to_owned() }
            },
            HashRejection::Unavailable => Reply {
                status: 500,
                headers: reply::content_type("application/json"),
                body: UNAVAILABLE_BODY.to_owned(),
            },
        }
    }
}

/// Whether a request may go on to the queue: the quota layer refuses with its snapshot, and a
/// pool without a quota layer admits everything.
pub fn admission(denied: Option<RateLimitSnapshot>) -> (r: Result<(), HashRejection>)
    ensures
        r == (match denied {
            Some(snapshot) => Err::<(), HashRejection>(HashRejection::Overloaded(snapshot)),
            None => Ok(()),
        }),
{
    match denied {
        Some(snapshot) => Err(HashRejection::Overloaded(snapshot)),
        None => Ok(()),
    }
}

/// What the caller of `hash` gets from the worker's reply: `None` is a worker that never
/// answered, and `Some(None)` one that could not hash.
pub fn hash_reply(reply: Option<Option<String>>) -> (r: Result<String, HashRejection>)
    ensures
        r == (match reply {
            Some(Some(hash)) => Ok::<String, HashRejection>(hash),
            _ => Err(HashRejection::Unavailable),
        }),
{
    match reply {
        Some(Some(hash)) => Ok(hash),
        _ => Err(HashRejection::Unavailable),
    }
}

/// What the caller of `verify` gets from the worker's reply: `None` is a worker that never
/// answered.
pub fn verify_reply(reply: Option<bool>) -> (r: Result<bool, HashRejection>)
    ensures
        r == (match reply {
            Some(verdict) => Ok::<bool, HashRejection>(verdict),
            None => Err(HashRejection::Unavailable),
        }),
{
    match reply {
        Some(verdict) => Ok(verdict),
        None => Err(HashRejection::Unavailable),
    }
}

/// Where a diagnostics job ran.
#[derive(Debug, Clone, Copy, PartialEq, Eq)]
pub struct ThreadDiagnostics {
    /// Whether it ran on a worker thread of the pool.
    pub on_hash_worker: bool,
    /// Whether a tokio runtime was present there.
    pub tokio_runtime_present: bool,
}

// ---------------------------------------------------------------------------
// Laws
// ---------------------------------------------------------------------------

/// No tenant, no sub-queue and not the queue as a whole is over its bound.
pub open spec fn bounded<T>(s: Seq<SubView<T>>, bounds: Bounds) -> bool {
    &&& forall|i: int| 0 <= i < s.len() ==> #[trigger] s[i].jobs.len() <= bounds.per_env
    &&& forall|t: Seq<char>| #[trigger] tenant_depth(s, t) <= bounds.per_tenant
    &&& total(s) <= bounds.global
}

/// All jobs that wait are those of `tenant`.
pub open spec fn only_jobs_of<T>(s: Seq<SubView<T>>, tenant: Seq<char>) -> bool {
    forall|i: int| 0 <= i < s.len() ==> #[trigger] s[i].tenant == tenant
}

/// A queue that is within its bounds stays within them: whatever is submitted and admitted, and
/// whatever is served.
pub proof fn law_bounds_are_kept<T>(
    s: Seq<SubView<T>>,
    tenant: Seq<char>,
    environment: Seq<char>,
    job: T,
    bounds: Bounds,
)
    requires
        scheduled(s),
        bounded(s, bounds),
    ensures
        bounded(popped(s), bounds),
        shed(s, tenant, environment, bounds) is None ==> bounded(
            pushed(s, tenant, environment, job),
            bounds,
        ),
{
    if s.len() > 0 {
        lemma_popped(s);
        assert forall|i: int| 0 <= i < popped(s).len() implies #[trigger] popped(s)[i].jobs.len()
            <= bounds.per_env by {
            if i < s.len() - 1 {
                assert(popped(s)[i] == s[i + 1]);
            } else {
                assert(s[0].jobs.len() <= bounds.per_env);
            }
        }
        assert forall|t: Seq<char>| #[trigger] tenant_depth(popped(s), t) <= bounds.per_tenant by {
            assert(tenant_depth(s, t) <= bounds.per_tenant);
        }
    }
    if shed(s, tenant, environment, bounds) is None {
        let r = pushed(s, tenant, environment, job);
        lemma_pushed(s, tenant, environment, job);
        assert forall|t: Seq<char>| #[trigger] tenant_depth(r, t) <= bounds.per_tenant by {
            assert(tenant_depth(s, t) <= bounds.per_tenant);
        }
    }
}

/// The bound of one tenant lies below the bound of the whole queue, wherever the depths asked
/// for do not exceed what a `usize` counts.
pub proof fn law_tenant_bound_lies_below_the_backstop(max_queue_depth: usize)
    requires
        max_queue_depth * PER_TENANT_AGGREGATE_FANOUT <= usize::MAX,
    ensures
        bounds_for(max_queue_depth).per_tenant < bounds_for(max_queue_depth).global,
        bounds_for(max_queue_depth).per_env > 0,
        bounds_for(max_queue_depth).per_tenant > 0,
{
}

proof fn lemma_only_jobs_of<T>(s: Seq<SubView<T>>, tenant: Seq<char>)
    requires
        only_jobs_of(s, tenant),
    ensures
        total(s) == tenant_depth(s, tenant),
        forall|t: Seq<char>| t != tenant ==> #[trigger] tenant_depth(s, t) == 0,
    decreases s.len(),
{
    if s.len() > 0 {
        assert forall|i: int| 0 <= i < s.drop_last().len() implies #[trigger] s.drop_last()[i].tenant
            == tenant by {
            assert(s.drop_last()[i] == s[i]);
        }
        lemma_only_jobs_of(s.drop_last(), tenant);
        assert(s.last().tenant == tenant);
        assert forall|t: Seq<char>| t != tenant implies #[trigger] tenant_depth(s, t) == 0 by {
            assert(tenant_depth(s.drop_last(), t) == 0);
        }
    }
}

/// One tenant alone, over however many of its environments, never fills the queue.
pub proof fn law_one_tenant_never_fills_the_backstop<T>(
    s: Seq<SubView<T>>,
    tenant: Seq<char>,
    bounds: Bounds,
)
    requires
        bounded(s, bounds),
        only_jobs_of(s, tenant),
        bounds.per_tenant < bounds.global,
    ensures
        total(s) < bounds.global,
{
    lemma_only_jobs_of(s, tenant);
    assert(tenant_depth(s, tenant) <= bounds.per_tenant);
}

/// A tenant with nothing waiting is admitted, however much another tenant has waiting.
pub proof fn law_an_idle_tenant_is_admitted<T>(
    s: Seq<SubView<T>>,
    noisy: Seq<char>,
    idle: Seq<char>,
    environment: Seq<char>,
    bounds: Bounds,
)
    requires
        scheduled(s),
        bounded(s, bounds),
        only_jobs_of(s, noisy),
        idle != noisy,
        bounds.per_tenant < bounds.global,
        bounds.per_env > 0,
        bounds.per_tenant > 0,
    ensures
        shed(s, idle, environment, bounds) is None,
{
    law_one_tenant_never_fills_the_backstop(s, noisy, bounds);
    lemma_only_jobs_of(s, noisy);
    if has_sub(s, idle, environment) {
        let i = choose|i: int| #[trigger] is_sub(s, i, idle, environment);
        assert(s[i].tenant == noisy);
    }
}

/// A submission is shed for the whole queue's sake only when more than one tenant has jobs
/// waiting.
pub proof fn law_the_backstop_sheds_only_under_many_tenants<T>(
    s: Seq<SubView<T>>,
    tenant: Seq<char>,
    environment: Seq<char>,
    bounds: Bounds,
    other: Seq<char>,
)
    requires
        bounded(s, bounds),
        bounds.per_tenant < bounds.global,
        shed(s, tenant, environment, bounds) == Some(SHED_GLOBAL@),
    ensures
        !only_jobs_of(s, other),
{
    reveal_strlit("per_tenant_queue_full");
    reveal_strlit("per_environment_queue_full");
    reveal_strlit("global_backstop_full");
    if only_jobs_of(s, other) {
        law_one_tenant_never_fills_the_backstop(s, other, bounds);
        assert(SHED_GLOBAL@.len() != SHED_PER_TENANT@.len());
        assert(SHED_GLOBAL@.len() != SHED_PER_ENVIRONMENT@.len());
    }
}

/// The jobs of one `(tenant, environment)` are served in the order in which they were submitted:
/// a submission goes behind all of them, and serving takes the first of them; the jobs of every
/// other one stay as they were.
pub proof fn law_first_in_first_out<T>(
    s: Seq<SubView<T>>,
    tenant: Seq<char>,
    environment: Seq<char>,
    job: T,
    other: Seq<char>,
    other_environment: Seq<char>,
)
    requires
        scheduled(s),
    ensures
        jobs_of(pushed(s, tenant, environment, job), tenant, environment) == jobs_of(
            s,
            tenant,
            environment,
        ).push(job),
        (other != tenant || other_environment != environment) ==> jobs_of(
            pushed(s, tenant, environment, job),
            other,
            other_environment,
        ) == jobs_of(s, other, other_environment),
        s.len() > 0 ==> jobs_of(popped(s), s[0].tenant, s[0].environment) == jobs_of(
            s,
            s[0].tenant,
            s[0].environment,
        ).skip(1),
        s.len() > 0 && (other != s[0].tenant || other_environment != s[0].environment) ==> jobs_of(
            popped(s),
            other,
            other_environment,
        ) == jobs_of(s, other, other_environment),
{
    let r = pushed(s, tenant, environment, job);
    lemma_pushed(s, tenant, environment, job);
    if has_sub(s, tenant, environment) {
        let i = choose|i: int| #[trigger] is_sub(s, i, tenant, environment);
        lemma_sub_unique(s, tenant, environment, i);
        assert(is_sub(r, i, tenant, environment));
        lemma_sub_unique(r, tenant, environment, i);
    } else {
        assert(is_sub(r, s.len() as int, tenant, environment));
        lemma_sub_unique(r, tenant, environment, s.len() as int);
        assert(seq![job] =~= Seq::empty().push(job));
    }
    if other != tenant || other_environment != environment {
        if has_sub(s, other, other_environment) {
            let i = choose|i: int| #[trigger] is_sub(s, i, other, other_environment);
            assert(is_sub(r, i, other, other_environment));
            lemma_sub_unique(r, other, other_environment, i);
        } else if has_sub(r, other, other_environment) {
            let i = choose|i: int| #[trigger] is_sub(r, i, other, other_environment);
            assert(is_sub(s, i, other, other_environment));
        }
    }
    if s.len() > 0 {
        let p = popped(s);
        let n = s.len() as int;
        lemma_popped(s);
        assert(s[0].jobs.len() > 0);
        assert(is_sub(s, 0, s[0].tenant, s[0].environment));
        lemma_sub_unique(s, s[0].tenant, s[0].environment, 0);
        if s[0].jobs.len() == 1 {
            assert(s[0].jobs.skip(1) =~= Seq::empty());
            if has_sub(p, s[0].tenant, s[0].environment) {
                let i = choose|i: int| #[trigger] is_sub(p, i, s[0].tenant, s[0].environment);
                assert(is_sub(s, i + 1, s[0].tenant, s[0].environment));
                assert(s[0].tenant == s[i + 1].tenant);
            }
        } else {
            assert(is_sub(p, n - 1, s[0].tenant, s[0].environment));
            lemma_sub_unique(p, s[0].tenant, s[0].environment, n - 1);
        }
        if other != s[0].tenant || other_environment != s[0].environment {
            if has_sub(s, other, other_environment) {
                let i = choose|i: int| #[trigger] is_sub(s, i, other, other_environment);
                assert(is_sub(p, i - 1, other, other_environment));
                lemma_sub_unique(p, other, other_environment, i - 1);
            } else if has_sub(p, other, other_environment) {
                let i = choose|i: int| #[trigger] is_sub(p, i, other, other_environment);
                assert(is_sub(s, i + 1, other, other_environment));
            }
        }
    }
}

/// The queue after it was served `n` times.
pub open spec fn served<T>(s: Seq<SubView<T>>, n: nat) -> Seq<SubView<T>>
    decreases n,
{
    if n == 0 {
        s
    } else {
        served(popped(s), (n - 1) as nat)
    }
}

/// However long the sub-queues before it are, the sub-queue at place `i` of the schedule is
/// first after `i` servings: each of them delays it by one job only.
pub proof fn law_round_robin<T>(s: Seq<SubView<T>>, i: nat)
    requires
        scheduled(s),
        i < s.len(),
    ensures
        served(s, i).len() > 0,
        served(s, i)[0] == s[i as int],
    decreases i,
{
    if i > 0 {
        lemma_popped(s);
        law_round_robin(popped(s), (i - 1) as nat);
        assert(popped(s)[i - 1] == s[i as int]);
    }
}

/// A submission leaves every sub-queue at its place in the schedule.
pub proof fn law_a_submission_overtakes_nothing<T>(
    s: Seq<SubView<T>>,
    tenant: Seq<char>,
    environment: Seq<char>,
    job: T,
    i: int,
)
    requires
        scheduled(s),
        0 <= i < s.len(),
    ensures
        pushed(s, tenant, environment, job).len() >= s.len(),
        pushed(s, tenant, environment, job)[i].tenant == s[i].tenant,
        pushed(s, tenant, environment, job)[i].environment == s[i].environment,
        s[i].jobs.is_prefix_of(pushed(s, tenant, environment, job)[i].jobs),
{
}

/// What happens to a queue.
pub enum QueueEvent<T> {
    /// A job is accepted for `(tenant, environment)`.
    Submitted { tenant: Seq<char>, environment: Seq<char>, job: T },
    /// The first sub-queue of the schedule is served.
    Served,
}

/// The queue after one event.
pub open spec fn moved<T>(s: Seq<SubView<T>>, event: QueueEvent<T>) -> Seq<SubView<T>> {
    match event {
        QueueEvent::Submitted { tenant, environment, job } => pushed(s, tenant, environment, job),
        QueueEvent::Served => popped(s),
    }
}

/// The queue after these events, in their order.
pub open spec fn after<T>(s: Seq<SubView<T>>, events: Seq<QueueEvent<T>>) -> Seq<SubView<T>>
    decreases events.len(),
{
    if events.len() == 0 {
        s
    } else {
        moved(after(s, events.drop_last()), events.last())
    }
}

/// The event at `k` serves the sub-queue of `(tenant, environment)`.
pub open spec fn serves<T>(
    s: Seq<SubView<T>>,
    events: Seq<QueueEvent<T>>,
    k: int,
    tenant: Seq<char>,
    environment: Seq<char>,
) -> bool {
    0 <= k < events.len() && events[k] is Served && is_sub(
        after(s, events.take(k)),
        0,
        tenant,
        environment,
    )
}

/// The jobs that these events submit for `(tenant, environment)`, in their order.
pub open spec fn submitted_for<T>(
    events: Seq<QueueEvent<T>>,
    tenant: Seq<char>,
    environment: Seq<char>,
) -> Seq<T>
    decreases events.len(),
{
    if events.len() == 0 {
        Seq::empty()
    } else {
        let before = submitted_for(events.drop_last(), tenant, environment);
        match events.last() {
            QueueEvent::Submitted { tenant: t, environment: e, job } => if t == tenant && e
                == environment {
                before.push(job)
            } else {
                before
            },
            QueueEvent::Served => before,
        }
    }
}

/// The jobs that these events take from the sub-queue of `(tenant, environment)`, in their order.
pub open spec fn served_for<T>(
    s: Seq<SubView<T>>,
    events: Seq<QueueEvent<T>>,
    tenant: Seq<char>,
    environment: Seq<char>,
) -> Seq<T>
    decreases events.len(),
{
    if events.len() == 0 {
        Seq::empty()
    } else {
        let queue = after(s, events.drop_last());
        let before = served_for(s, events.drop_last(), tenant, environment);
        if events.last() is Served && is_sub(queue, 0, tenant, environment) {
            before.push(queue[0].jobs[0])
        } else {
            before
        }
    }
}

/// A queue stays scheduled, whatever happens to it.
pub proof fn law_a_queue_stays_scheduled<T>(s: Seq<SubView<T>>, events: Seq<QueueEvent<T>>)
    requires
        scheduled(s),
    ensures
        scheduled(after(s, events)),
    decreases events.len(),
{
    if events.len() > 0 {
        let queue = after(s, events.drop_last());
        law_a_queue_stays_scheduled(s, events.drop_last());
        match events.last() {
            QueueEvent::Submitted { tenant, environment, job } => {
                lemma_pushed(queue, tenant, environment, job);
            },
            QueueEvent::Served => {
                if queue.len() > 0 {
                    lemma_popped(queue);
                }
            },
        }
    }
}

/// However submissions and servings take turns, the jobs of one `(tenant, environment)` come out
/// in the order in which they were submitted, each of them once: those that were served and those
/// that still wait are together those that waited at first and those that were submitted.
pub proof fn law_every_job_is_served_once_and_in_order<T>(
    s: Seq<SubView<T>>,
    events: Seq<QueueEvent<T>>,
    tenant: Seq<char>,
    environment: Seq<char>,
)
    requires
        scheduled(s),
    ensures
        served_for(s, events, tenant, environment) + jobs_of(
            after(s, events),
            tenant,
            environment,
        ) == jobs_of(s, tenant, environment) + submitted_for(events, tenant, environment),
    decreases events.len(),
{
    let waiting = jobs_of(s, tenant, environment);
    if events.len() == 0 {
        assert(Seq::<T>::empty() + waiting =~= waiting + Seq::<T>::empty());
    } else {
        let front = events.drop_last();
        let queue = after(s, front);
        let done = served_for(s, front, tenant, environment);
        let given = submitted_for(front, tenant, environment);
        let left = jobs_of(queue, tenant, environment);
        law_a_queue_stays_scheduled(s, front);
        law_every_job_is_served_once_and_in_order(s, front, tenant, environment);
        match events.last() {
            QueueEvent::Submitted { tenant: t, environment: e, job } => {
                law_first_in_first_out(queue, t, e, job, tenant, environment);
                assert(done + left.push(job) =~= (done + left).push(job));
                assert(waiting + given.push(job) =~= (waiting + given).push(job));
            },
            QueueEvent::Served => {
                if queue.len() > 0 {
                    let job = queue[0].jobs[0];
                    law_first_in_first_out(queue, tenant, environment, job, tenant, environment);
                    if is_sub(queue, 0, tenant, environment) {
                        lemma_sub_unique(queue, tenant, environment, 0);
                        assert(done.push(left[0]) + left.skip(1) =~= done + left);
                    }
                }
            },
        }
    }
}

/// The sub-queue of `(other, other_environment)` waits, and comes before the one of
/// `(tenant, environment)` in the schedule.
spec fn ahead<T>(
    s: Seq<SubView<T>>,
    other: Seq<char>,
    other_environment: Seq<char>,
    tenant: Seq<char>,
    environment: Seq<char>,
) -> bool {
    &&& has_sub(s, other, other_environment)
    &&& forall|i: int, j: int|
        #[trigger] is_sub(s, i, other, other_environment) && #[trigger] is_sub(
            s,
            j,
            tenant,
            environment,
        ) ==> i < j
}

/// A serving of `(tenant, environment)` puts every other sub-queue that waits before it.
proof fn lemma_served_goes_behind<T>(
    s: Seq<SubView<T>>,
    other: Seq<char>,
    other_environment: Seq<char>,
    tenant: Seq<char>,
    environment: Seq<char>,
)
    requires
        scheduled(s),
        is_sub(s, 0, tenant, environment),
        has_sub(s, other, other_environment),
        other != tenant || other_environment != environment,
    ensures
        ahead(popped(s), other, other_environment, tenant, environment),
{
    let p = popped(s);
    let n = s.len() as int;
    lemma_popped(s);
    let k = choose|k: int| #[trigger] is_sub(s, k, other, other_environment);
    assert(k > 0);
    assert(p[k - 1] == s[k]);
    assert(is_sub(p, k - 1, other, other_environment));
    assert forall|i: int, j: int|
        #[trigger] is_sub(p, i, other, other_environment) && #[trigger] is_sub(
            p,
            j,
            tenant,
            environment,
        ) implies i < j by {
        if j < n - 1 {
            assert(p[j] == s[j + 1]);
            assert(s[0].tenant == s[j + 1].tenant);
        }
    }
}

/// While it is not served, a sub-queue stays before another.
proof fn lemma_ahead_is_kept<T>(
    s: Seq<SubView<T>>,
    event: QueueEvent<T>,
    other: Seq<char>,
    other_environment: Seq<char>,
    tenant: Seq<char>,
    environment: Seq<char>,
)
    requires
        scheduled(s),
        ahead(s, other, other_environment, tenant, environment),
        other != tenant || other_environment != environment,
        event is Served ==> !is_sub(s, 0, other, other_environment),
    ensures
        ahead(moved(s, event), other, other_environment, tenant, environment),
{
    let r = moved(s, event);
    let n = s.len() as int;
    let k = choose|k: int| #[trigger] is_sub(s, k, other, other_environment);
    match event {
        QueueEvent::Submitted { tenant: t, environment: e, job } => {
            lemma_pushed(s, t, e, job);
            assert(is_sub(r, k, other, other_environment));
            assert forall|i: int, j: int|
                #[trigger] is_sub(r, i, other, other_environment) && #[trigger] is_sub(
                    r,
                    j,
                    tenant,
                    environment,
                ) implies i < j by {
                lemma_sub_unique(r, other, other_environment, k);
                lemma_sub_unique(r, other, other_environment, i);
                if j < n {
                    assert(is_sub(s, j, tenant, environment));
                }
            }
        },
        QueueEvent::Served => {
            lemma_popped(s);
            assert(k > 0);
            assert(r[k - 1] == s[k]);
            assert(is_sub(r, k - 1, other, other_environment));
            assert forall|i: int, j: int|
                #[trigger] is_sub(r, i, other, other_environment) && #[trigger] is_sub(
                    r,
                    j,
                    tenant,
                    environment,
                ) implies i < j by {
                lemma_sub_unique(r, other, other_environment, k - 1);
                lemma_sub_unique(r, other, other_environment, i);
                if j < n - 1 {
                    assert(r[j] == s[j + 1]);
                    assert(is_sub(s, j + 1, tenant, environment));
                }
            }
        },
    }
}

/// From one serving of `(tenant, environment)` on, a sub-queue that waited then is before it until
/// it is served.
proof fn lemma_ahead_until_served<T>(
    s: Seq<SubView<T>>,
    events: Seq<QueueEvent<T>>,
    first: int,
    k: int,
    other: Seq<char>,
    other_environment: Seq<char>,
    tenant: Seq<char>,
    environment: Seq<char>,
)
    requires
        scheduled(s),
        serves(s, events, first, tenant, environment),
        first < k <= events.len(),
        has_sub(after(s, events.take(first)), other, other_environment),
        other != tenant || other_environment != environment,
        forall|c: int|
            first < c < k ==> !#[trigger] serves(s, events, c, other, other_environment),
    ensures
        ahead(after(s, events.take(k)), other, other_environment, tenant, environment),
    decreases k,
{
    let queue = after(s, events.take(k - 1));
    law_a_queue_stays_scheduled(s, events.take(k - 1));
    assert(events.take(k).drop_last() =~= events.take(k - 1));
    assert(events.take(k).last() == events[k - 1]);
    if k == first + 1 {
        lemma_served_goes_behind(queue, other, other_environment, tenant, environment);
    } else {
        lemma_ahead_until_served(
            s,
            events,
            first,
            k - 1,
            other,
            other_environment,
            tenant,
            environment,
        );
        assert(!serves(s, events, k - 1, other, other_environment));
        lemma_ahead_is_kept(
            queue,
            events[k - 1],
            other,
            other_environment,
            tenant,
            environment,
        );
    }
}

/// However submissions and servings take turns, between two servings of one
/// `(tenant, environment)` every other one that had work at the first of them is served. So no
/// backlog holds up another by more than one job.
pub proof fn law_no_backlog_holds_up_another<T>(
    s: Seq<SubView<T>>,
    events: Seq<QueueEvent<T>>,
    first: int,
    second: int,
    tenant: Seq<char>,
    environment: Seq<char>,
    other: Seq<char>,
    other_environment: Seq<char>,
)
    requires
        scheduled(s),
        first < second,
        serves(s, events, first, tenant, environment),
        serves(s, events, second, tenant, environment),
        jobs_of(after(s, events.take(first)), other, other_environment).len() > 0,
        other != tenant || other_environment != environment,
    ensures
        exists|c: int|
            first < c < second && #[trigger] serves(s, events, c, other, other_environment),
{
    if forall|c: int|
        first < c < second ==> !#[trigger] serves(s, events, c, other, other_environment) {
        lemma_ahead_until_served(
            s,
            events,
            first,
            second,
            other,
            other_environment,
            tenant,
            environment,
        );
        let queue = after(s, events.take(second));
        let i = choose|i: int| #[trigger] is_sub(queue, i, other, other_environment);
        assert(is_sub(queue, i, other, other_environment) && is_sub(queue, 0, tenant, environment));
    }
}

/// A submission is shed for the first bound that is reached: that of its own sub-queue, that of its
/// tenant over all environments, and that of the whole queue. Where none is reached it is accepted.
pub proof fn law_a_submission_is_shed_for_the_first_bound<T>(
    s: Seq<SubView<T>>,
    tenant: Seq<char>,
    environment: Seq<char>,
    bounds: Bounds,
)
    ensures
        ({
            let own = jobs_of(s, tenant, environment).len();
            &&& own >= bounds.per_env ==> shed(s, tenant, environment, bounds) == Some(
                "per_environment_queue_full"@,
            )
            &&& own < bounds.per_env && tenant_depth(s, tenant) >= bounds.per_tenant ==> shed(
                s,
                tenant,
                environment,
                bounds,
            ) == Some("per_tenant_queue_full"@)
            &&& own < bounds.per_env && tenant_depth(s, tenant) < bounds.per_tenant && total(s)
                >= bounds.global ==> shed(s, tenant, environment, bounds) == Some(
                "global_backstop_full"@,
            )
            &&& own < bounds.per_env && tenant_depth(s, tenant) < bounds.per_tenant && total(s)
                < bounds.global ==> shed(s, tenant, environment, bounds) is None
        }),
{
}

/// The depth of a tenant counts the jobs of its own sub-queues, in whatever environment, and the
/// depth of the queue counts all of them.
pub proof fn law_a_tenant_is_charged_for_its_own_jobs<T>(
    s: Seq<SubView<T>>,
    next: SubView<T>,
    tenant: Seq<char>,
)
    ensures
        total(Seq::<SubView<T>>::empty()) == 0,
        tenant_depth(Seq::<SubView<T>>::empty(), tenant) == 0,
        total(s.push(next)) == total(s) + next.jobs.len(),
        next.tenant == tenant ==> tenant_depth(s.push(next), tenant) == tenant_depth(s, tenant)
            + next.jobs.len(),
        next.tenant != tenant ==> tenant_depth(s.push(next), tenant) == tenant_depth(s, tenant),
{
    lemma_sum_push(s, next, depth());
    lemma_sum_push(s, next, depth_for(tenant));
}

/// A tenant may have eight sub-queues' worth of jobs waiting, and the queue sixteen; a depth of
/// nothing is a depth of one.
pub proof fn law_the_bounds_grow_with_the_depth(max_queue_depth: usize)
    ensures
        max_queue_depth > 0 ==> bounds_for(max_queue_depth).per_env == max_queue_depth,
        bounds_for(0).per_env == 1 && bounds_for(0).per_tenant == 8 && bounds_for(0).global == 16,
        0 < max_queue_depth && max_queue_depth * 8 <= usize::MAX ==> bounds_for(
            max_queue_depth,
        ).per_tenant == max_queue_depth * 8,
        0 < max_queue_depth && max_queue_depth * 16 <= usize::MAX ==> bounds_for(
            max_queue_depth,
        ).global == max_queue_depth * 16,
        max_queue_depth * 8 > usize::MAX ==> bounds_for(max_queue_depth).per_tenant == usize::MAX,
        max_queue_depth * 16 > usize::MAX ==> bounds_for(max_queue_depth).global == usize::MAX,
{
}

/// A job of a sub-queue that waits already joins it, at its end, and one of another begins a
/// sub-queue at the end of the schedule. The sub-queue that was served goes to the end of the
/// schedule with what it has left, and leaves it where nothing is.
pub proof fn law_a_schedule_turns<T>(
    s: Seq<SubView<T>>,
    tenant: Seq<char>,
    environment: Seq<char>,
    job: T,
)
    requires
        scheduled(s),
    ensures
        (forall|i: int|
            0 <= i < s.len() ==> (#[trigger] s[i]).tenant != tenant || s[i].environment != environment)
            ==> pushed(s, tenant, environment, job) == s.push(
            (SubView { tenant, environment, jobs: seq![job] }),
        ),
        forall|i: int|
            0 <= i < s.len() && (#[trigger] s[i]).tenant == tenant && s[i].environment == environment
                ==> pushed(s, tenant, environment, job) == s.update(
                i,
                (SubView { tenant, environment, jobs: s[i].jobs.push(job) }),
            ),
        s.len() > 0 && s[0].jobs.len() == 1 ==> popped(s) == s.skip(1),
        s.len() > 0 && s[0].jobs.len() > 1 ==> popped(s).len() == s.len() && popped(s).last().tenant
            == s[0].tenant && popped(s).last().environment == s[0].environment && popped(s).last().jobs
            == s[0].jobs.skip(1) && popped(s).drop_last() == s.skip(1),
        popped(Seq::<SubView<T>>::empty()).len() == 0,
{
    if forall|i: int|
        0 <= i < s.len() ==> (#[trigger] s[i]).tenant != tenant || s[i].environment != environment {
        if has_sub(s, tenant, environment) {
            let i = choose|i: int| #[trigger] is_sub(s, i, tenant, environment);
            assert(s[i].tenant == tenant);
        }
    }
    assert forall|i: int|
        0 <= i < s.len() && (#[trigger] s[i]).tenant == tenant && s[i].environment
            == environment implies pushed(s, tenant, environment, job) == s.update(
        i,
        (SubView { tenant, environment, jobs: s[i].jobs.push(job) }),
    ) by {
        assert(is_sub(s, i, tenant, environment));
        lemma_sub_unique(s, tenant, environment, i);
    }
    if s.len() > 0 && s[0].jobs.len() > 1 {
        assert(popped(s).drop_last() =~= s.skip(1));
    }
}

/// A tenant over its share is told so with every header of the quota layer and its signal; a full
/// pool asks to be tried again; and a pool that failed says that the server did. None of them is a
/// success.
pub proof fn law_a_rejection_is_told_as_what_it_is(snapshot: RateLimitSnapshot, i: int)
    ensures
        HashRejection::Overloaded(snapshot).response().status == 429,
        HashRejection::Overloaded(snapshot).response().headers[0] == (
            "content-type"@,
            "application/json"@,
        ),
        0 <= i < snapshot.headers@.len() ==> HashRejection::Overloaded(snapshot).response().headers[1
            + i] == (snapshot.headers@[i].0@, snapshot.headers@[i].1@),
        snapshot.block_set_cookie matches Some(cookie) ==> HashRejection::Overloaded(
            snapshot,
        ).response().headers.last() == ("set-cookie"@, cookie@),
        HashRejection::Overloaded(snapshot).response().headers.len() == 1 + snapshot.headers@.len() + (
        if snapshot.block_set_cookie is Some {
            1int
        } else {
            0
        }),
        HashRejection::PoolExhausted.response().status == 503,
        HashRejection::PoolExhausted.response().headers.contains(("retry-after"@, "1"@)),
        HashRejection::Unavailable.response().status == 500,
{
    assert(HashRejection::PoolExhausted.response().headers[1] == ("retry-after"@, "1"@));
}

} // verus!
