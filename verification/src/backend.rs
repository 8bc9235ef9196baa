//! Backends and their health: a backend is marked unhealthy once its failure
//! count exceeds the configured failure threshold, and healthy again after
//! the configured number of consecutive successes (or once successes have
//! brought its failure count back to zero).

use std::time::Duration;
use vstd::prelude::*;

verus! {

/// What `Duration::from_secs` returns for a number of seconds.
pub uninterp spec fn duration_of_secs(secs: u64) -> Duration;

/// Calls `std::time::Duration::from_secs`; the result is named
/// `duration_of_secs(secs)`, so two calls with the same count give the same
/// duration. The function never panics.
#[verifier::external_body]
fn duration_from_secs(secs: u64) -> (d: Duration)
    ensures
        d == duration_of_secs(secs),
{
    Duration::from_secs(secs)
}

/// A backend server.
#[derive(Clone, Debug)]
pub struct Backend {
    /// The backend's address (`host:port`).
    pub addr: String,
    /// Whether the backend is currently considered healthy.
    pub healthy: bool,
    /// How many failures are currently held against the backend.
    pub failure_count: u32,
}

/// Health check settings.
#[derive(Clone, Copy, Debug)]
pub struct HealthCheckConfig {
    /// Once the failure count exceeds this value the backend is unhealthy.
    pub failure_threshold: u32,
    /// After this many consecutive successes an unhealthy backend is healthy
    /// again.
    pub recovery_threshold: u32,
    /// Time allowed for a health check.
    pub check_timeout: Duration,
}

impl Default for HealthCheckConfig {
    fn default() -> (c: Self)
        ensures
            c.failure_threshold == 3,
            c.recovery_threshold == 2,
            c.check_timeout == duration_of_secs(5),
    {
        HealthCheckConfig {
            failure_threshold: 3,
            recovery_threshold: 2,
            check_timeout: duration_from_secs(5),
        }
    }
}

/// `i` is the first position of `s` whose backend has address `addr`.
pub open spec fn is_first_match(s: Seq<Backend>, addr: Seq<char>, i: int) -> bool {
    &&& 0 <= i < s.len()
    &&& s[i].addr@ == addr
    &&& forall|j: int| 0 <= j < i ==> s[j].addr@ != addr
}

/// The position of the first backend with address `addr`, if there is one.
pub open spec fn find_backend(s: Seq<Backend>, addr: Seq<char>) -> Option<int> {
    if exists|i: int| is_first_match(s, addr, i) {
        Some(choose|i: int| is_first_match(s, addr, i))
    } else {
        None
    }
}

/// A backend after one more failure: the count goes up by one and the backend
/// turns unhealthy once the count exceeds `threshold`.
pub open spec fn failure_applied(b: Backend, threshold: u32) -> Backend {
    Backend {
        addr: b.addr,
        healthy: b.healthy && b.failure_count + 1 <= threshold,
        failure_count: (b.failure_count + 1) as u32,
    }
}

/// A run of consecutive successes after one more success (it stays at the
/// largest `u32` once there).
pub open spec fn next_streak(streak: u32) -> u32 {
    if streak < u32::MAX {
        (streak + 1) as u32
    } else {
        streak
    }
}

/// A backend after one success, `streak` being the run of consecutive
/// successes before it: the count goes down by one (not below zero), and the
/// backend turns healthy once the run reaches `recovery` or the count is
/// zero.
pub open spec fn success_applied(b: Backend, streak: u32, recovery: u32) -> Backend {
    let count: u32 = if b.failure_count > 0 { (b.failure_count - 1) as u32 } else { 0 };
    Backend {
        addr: b.addr,
        healthy: b.healthy || next_streak(streak) >= recovery || count == 0,
        failure_count: count,
    }
}

/// The backends after a failure of `addr` is recorded.
pub open spec fn record_failure_spec(s: Seq<Backend>, addr: Seq<char>, threshold: u32) -> Seq<
    Backend,
> {
    match find_backend(s, addr) {
        Some(i) => s.update(i, failure_applied(s[i], threshold)),
        None => s,
    }
}

/// The runs of consecutive successes after a failure of `addr`: its run
/// starts over.
pub open spec fn streaks_after_failure(st: Seq<u32>, s: Seq<Backend>, addr: Seq<char>) -> Seq<u32> {
    match find_backend(s, addr) {
        Some(i) => st.update(i, 0),
        None => st,
    }
}

/// The backends after a success of `addr` is recorded, `st` being the runs
/// of consecutive successes.
pub open spec fn record_success_spec(
    s: Seq<Backend>,
    st: Seq<u32>,
    addr: Seq<char>,
    recovery: u32,
) -> Seq<Backend> {
    match find_backend(s, addr) {
        Some(i) => s.update(i, success_applied(s[i], st[i], recovery)),
        None => s,
    }
}

/// The runs of consecutive successes after a success of `addr`: its run
/// grows by one.
pub open spec fn streaks_after_success(st: Seq<u32>, s: Seq<Backend>, addr: Seq<char>) -> Seq<u32> {
    match find_backend(s, addr) {
        Some(i) => st.update(i, next_streak(st[i])),
        None => st,
    }
}

/// The run of consecutive successes of `addr`; zero for an unknown address.
pub open spec fn streak_spec(s: Seq<Backend>, st: Seq<u32>, addr: Seq<char>) -> u32 {
    match find_backend(s, addr) {
        Some(i) => st[i],
        None => 0,
    }
}

/// Whether `addr` is healthy: the first backend with that address decides;
/// an unknown address is not healthy.
pub open spec fn is_healthy_spec(s: Seq<Backend>, addr: Seq<char>) -> bool {
    match find_backend(s, addr) {
        Some(i) => s[i].healthy,
        None => false,
    }
}

/// The failure count of `addr`; zero for an unknown address.
pub open spec fn failure_count_spec(s: Seq<Backend>, addr: Seq<char>) -> u32 {
    match find_backend(s, addr) {
        Some(i) => s[i].failure_count,
        None => 0,
    }
}

/// The health invariant of one backend: an unhealthy backend has at least
/// one failure held against it.
pub open spec fn backend_consistent(b: Backend) -> bool {
    !b.healthy ==> b.failure_count > 0
}

/// The backends as given to `BackendManager::new`: healthy, with no failures.
pub open spec fn fresh_backends(addrs: Seq<String>) -> Seq<Backend> {
    Seq::new(
        addrs.len(),
        |i: int| Backend { addr: addrs[i], healthy: true, failure_count: 0 },
    )
}

/// There is at most one first match.
pub proof fn lemma_first_match_unique(s: Seq<Backend>, addr: Seq<char>, i: int, k: int)
    requires
        is_first_match(s, addr, i),
        is_first_match(s, addr, k),
    ensures
        i == k,
{
}

/// The first match found by a scan is the one `find_backend` names.
pub proof fn lemma_find_backend_is(s: Seq<Backend>, addr: Seq<char>, i: int)
    requires
        is_first_match(s, addr, i),
    ensures
        find_backend(s, addr) == Some(i),
{
    let k = choose|k: int| is_first_match(s, addr, k);
    lemma_first_match_unique(s, addr, i, k);
}

/// With no backend of that address, `find_backend` finds none.
pub proof fn lemma_find_backend_none(s: Seq<Backend>, addr: Seq<char>)
    requires
        forall|j: int| 0 <= j < s.len() ==> s[j].addr@ != addr,
    ensures
        find_backend(s, addr) == None::<int>,
{
}

/// The backends after `n` failures of `addr` in a row.
pub open spec fn repeated_failures(s: Seq<Backend>, addr: Seq<char>, threshold: u32, n: nat) -> Seq<
    Backend,
>
    decreases n,
{
    if n == 0 {
        s
    } else {
        record_failure_spec(repeated_failures(s, addr, threshold, (n - 1) as nat), addr, threshold)
    }
}

/// The backends and runs of consecutive successes after `n` successes of
/// `addr` in a row.
pub open spec fn repeated_successes(
    s: Seq<Backend>,
    st: Seq<u32>,
    addr: Seq<char>,
    recovery: u32,
    n: nat,
) -> (Seq<Backend>, Seq<u32>)
    decreases n,
{
    if n == 0 {
        (s, st)
    } else {
        let prev = repeated_successes(s, st, addr, recovery, (n - 1) as nat);
        (
            record_success_spec(prev.0, prev.1, addr, recovery),
            streaks_after_success(prev.1, prev.0, addr),
        )
    }
}

/// Replacing a backend by one with the same address keeps every lookup on
/// the same position.
pub proof fn lemma_find_backend_after_update(s: Seq<Backend>, addr: Seq<char>, i: int, b: Backend)
    requires
        find_backend(s, addr) == Some(i),
        b.addr@ == s[i].addr@,
    ensures
        find_backend(s.update(i, b), addr) == Some(i),
{
    let k = choose|k: int| is_first_match(s, addr, k);
    assert(is_first_match(s, addr, k));
    lemma_first_match_unique(s, addr, i, k);
    lemma_find_backend_is(s.update(i, b), addr, i);
}

/// Recording a failure and then a success of the same backend gives back
/// its failure count.
pub proof fn lemma_success_undoes_failure_count(
    s: Seq<Backend>,
    st: Seq<u32>,
    addr: Seq<char>,
    threshold: u32,
    recovery: u32,
)
    requires
        failure_count_spec(s, addr) < u32::MAX,
        st.len() == s.len(),
    ensures
        failure_count_spec(
            record_success_spec(
                record_failure_spec(s, addr, threshold),
                streaks_after_failure(st, s, addr),
                addr,
                recovery,
            ),
            addr,
        ) == failure_count_spec(s, addr),
{
    match find_backend(s, addr) {
        Some(i) => {
            let s1 = record_failure_spec(s, addr, threshold);
            let st1 = streaks_after_failure(st, s, addr);
            lemma_find_backend_after_update(s, addr, i, failure_applied(s[i], threshold));
            lemma_find_backend_after_update(s1, addr, i, success_applied(s1[i], st1[i], recovery));
        },
        None => {},
    }
}

/// Failure threshold: starting from a healthy backend with no failures, `n`
/// failures in a row leave a failure count of `n`, and the backend stays
/// healthy exactly while `n` does not exceed the threshold.
pub proof fn lemma_failures_reach_threshold(
    s: Seq<Backend>,
    addr: Seq<char>,
    threshold: u32,
    n: nat,
)
    requires
        find_backend(s, addr) is Some,
        is_healthy_spec(s, addr),
        failure_count_spec(s, addr) == 0,
        n < u32::MAX,
    ensures
        find_backend(repeated_failures(s, addr, threshold, n), addr) == find_backend(s, addr),
        failure_count_spec(repeated_failures(s, addr, threshold, n), addr) == n,
        is_healthy_spec(repeated_failures(s, addr, threshold, n), addr) == (n <= threshold),
    decreases n,
{
    let i = find_backend(s, addr)->0;
    if n > 0 {
        lemma_failures_reach_threshold(s, addr, threshold, (n - 1) as nat);
        let prev = repeated_failures(s, addr, threshold, (n - 1) as nat);
        lemma_find_backend_after_update(prev, addr, i, failure_applied(prev[i], threshold));
    }
}

/// Recovery: a backend whose run of successes starts over (as it does after
/// any failure) and which has `c` failures held against it has `c - n`
/// after `n` successes in a row (never below zero), and is healthy after
/// them exactly when it was healthy before, or the `n` successes reach the
/// recovery threshold, or they bring the count down to zero.
pub proof fn lemma_successes_recover(
    s: Seq<Backend>,
    st: Seq<u32>,
    addr: Seq<char>,
    recovery: u32,
    n: nat,
)
    requires
        find_backend(s, addr) is Some,
        st.len() == s.len(),
        streak_spec(s, st, addr) == 0,
        !is_healthy_spec(s, addr) ==> failure_count_spec(s, addr) > 0,
        n < u32::MAX,
    ensures
        repeated_successes(s, st, addr, recovery, n).1.len() == s.len(),
        find_backend(repeated_successes(s, st, addr, recovery, n).0, addr) == find_backend(s, addr),
        streak_spec(
            repeated_successes(s, st, addr, recovery, n).0,
            repeated_successes(s, st, addr, recovery, n).1,
            addr,
        ) == n,
        failure_count_spec(repeated_successes(s, st, addr, recovery, n).0, addr) == (if n
            <= failure_count_spec(s, addr) {
            failure_count_spec(s, addr) - n
        } else {
            0
        }),
        is_healthy_spec(repeated_successes(s, st, addr, recovery, n).0, addr) == (is_healthy_spec(
            s,
            addr,
        ) || (n >= 1 && n >= recovery) || n >= failure_count_spec(s, addr)),
    decreases n,
{
    let i = find_backend(s, addr)->0;
    if n > 0 {
        lemma_successes_recover(s, st, addr, recovery, (n - 1) as nat);
        let prev = repeated_successes(s, st, addr, recovery, (n - 1) as nat);
        lemma_find_backend_after_update(
            prev.0,
            addr,
            i,
            success_applied(prev.0[i], prev.1[i], recovery),
        );
    }
}

/// One failure: the failure count of a known backend goes up by exactly one;
/// a backend left healthy has a count within the failure threshold, so a
/// failure that takes the count past the threshold always leaves it
/// unhealthy, whatever came before; an unhealthy backend stays unhealthy;
/// and a healthy one whose new count is within the threshold stays healthy.
pub proof fn lemma_failure_law(s: Seq<Backend>, addr: Seq<char>, threshold: u32)
    requires
        find_backend(s, addr) is Some,
        failure_count_spec(s, addr) < u32::MAX,
    ensures
        failure_count_spec(record_failure_spec(s, addr, threshold), addr) == failure_count_spec(
            s,
            addr,
        ) + 1,
        is_healthy_spec(record_failure_spec(s, addr, threshold), addr) ==> failure_count_spec(
            record_failure_spec(s, addr, threshold),
            addr,
        ) <= threshold,
        failure_count_spec(s, addr) + 1 > threshold ==> !is_healthy_spec(
            record_failure_spec(s, addr, threshold),
            addr,
        ),
        !is_healthy_spec(s, addr) ==> !is_healthy_spec(record_failure_spec(s, addr, threshold), addr),
        is_healthy_spec(s, addr) && failure_count_spec(s, addr) + 1 <= threshold ==> is_healthy_spec(
            record_failure_spec(s, addr, threshold),
            addr,
        ),
{
    let i = find_backend(s, addr)->0;
    lemma_find_backend_after_update(s, addr, i, failure_applied(s[i], threshold));
}

/// Recording an outcome for one address leaves what every other address
/// reports unchanged.
pub proof fn lemma_records_are_local(
    s: Seq<Backend>,
    st: Seq<u32>,
    addr: Seq<char>,
    other: Seq<char>,
    threshold: u32,
    recovery: u32,
)
    requires
        addr != other,
        st.len() == s.len(),
    ensures
        is_healthy_spec(record_failure_spec(s, addr, threshold), other) == is_healthy_spec(s, other),
        failure_count_spec(record_failure_spec(s, addr, threshold), other) == failure_count_spec(
            s,
            other,
        ),
        is_healthy_spec(record_success_spec(s, st, addr, recovery), other) == is_healthy_spec(
            s,
            other,
        ),
        failure_count_spec(record_success_spec(s, st, addr, recovery), other) == failure_count_spec(
            s,
            other,
        ),
{
    match find_backend(s, addr) {
        Some(i) => {
            lemma_same_lookups_after_update(s, other, i, failure_applied(s[i], threshold));
            lemma_same_lookups_after_update(s, other, i, success_applied(s[i], st[i], recovery));
        },
        None => {},
    }
}

/// Replacing a backend whose address is not `other` by one with the same
/// address changes nothing that a lookup of `other` sees.
proof fn lemma_same_lookups_after_update(s: Seq<Backend>, other: Seq<char>, i: int, b: Backend)
    requires
        0 <= i < s.len(),
        s[i].addr@ == b.addr@,
        s[i].addr@ != other,
    ensures
        find_backend(s.update(i, b), other) == find_backend(s, other),
        match find_backend(s, other) {
            Some(k) => s.update(i, b)[k] == s[k],
            None => true,
        },
{
    let t = s.update(i, b);
    assert forall|j: int| 0 <= j < s.len() implies #[trigger] t[j].addr@ == s[j].addr@ by {}
    if exists|k: int| is_first_match(s, other, k) {
        let k = choose|k: int| is_first_match(s, other, k);
        assert(is_first_match(t, other, k));
        lemma_find_backend_is(t, other, k);
    } else {
        assert forall|k: int| !is_first_match(t, other, k) by {
            if is_first_match(t, other, k) {
                assert forall|j: int| 0 <= j < k implies s[j].addr@ != other by {
                    assert(t[j].addr@ == s[j].addr@);
                }
                assert(t[k].addr@ == s[k].addr@);
                assert(is_first_match(s, other, k));
            }
        }
    }
}

/// Tracks the health of a list of backends.
pub struct BackendManager {
    backends: Vec<Backend>,
    success_streaks: Vec<u32>,
    health_check_config: HealthCheckConfig,
}

impl View for BackendManager {
    type V = Seq<Backend>;

    closed spec fn view(&self) -> Seq<Backend> {
        self.backends@
    }
}

impl BackendManager {
    /// The health check settings in force.
    pub closed spec fn config(&self) -> HealthCheckConfig {
        self.health_check_config
    }

    /// For each backend, in order, its current run of consecutive successes.
    pub closed spec fn streaks(&self) -> Seq<u32> {
        self.success_streaks@
    }

    /// The failure threshold in force.
    pub open spec fn threshold(&self) -> u32 {
        self.config().failure_threshold
    }

    /// The recovery threshold in force.
    pub open spec fn recovery(&self) -> u32 {
        self.config().recovery_threshold
    }

    /// Well-formedness: one run of successes per backend, and every backend
    /// consistent.
    pub closed spec fn wf(&self) -> bool {
        &&& self.success_streaks@.len() == self.backends@.len()
        &&& forall|i: int|
            0 <= i < self.backends@.len() ==> backend_consistent(#[trigger] self.backends@[i])
    }

    /// The lengths agree for a well-formed manager.
    pub proof fn lemma_wf_lengths(&self)
        requires
            self.wf(),
        ensures
            self.streaks().len() == self@.len(),
    {
    }

    /// Creates a manager over `addrs`, every backend healthy with no
    /// failures, under the default health check settings.
    pub fn new(addrs: Vec<String>) -> (m: Self)
        ensures
            m.wf(),
            m@ == fresh_backends(addrs@),
            m.streaks() == Seq::new(addrs@.len(), |i: int| 0u32),
            m.config().failure_threshold == 3,
            m.config().recovery_threshold == 2,
            m.config().check_timeout == duration_of_secs(5),
    {
        let mut backends: Vec<Backend> = Vec::new();
        let mut success_streaks: Vec<u32> = Vec::new();
        let mut i: usize = 0;
        while i < addrs.len()
            invariant
                i <= addrs.len(),
                backends@ == fresh_backends(addrs@).take(i as int),
                success_streaks@ == Seq::new(i as nat, |k: int| 0u32),
            decreases addrs.len() - i,
        {
            backends.push(Backend { addr: addrs[i].clone(), healthy: true, failure_count: 0 });
            success_streaks.push(0);
            i = i + 1;
            assert(backends@ =~= fresh_backends(addrs@).take(i as int));
            assert(success_streaks@ =~= Seq::new(i as nat, |k: int| 0u32));
        }
        assert(backends@ =~= fresh_backends(addrs@));
        BackendManager {
            backends,
            success_streaks,
            health_check_config: HealthCheckConfig::default(),
        }
    }

    /// The position of the first backend with address `addr`.
    fn position_of(&self, addr: &str) -> (r: Option<usize>)
        ensures
            match r {
                Some(i) => find_backend(self@, addr@) == Some(i as int),
                None => find_backend(self@, addr@) == None::<int>,
            },
    {
        let key = addr.to_owned();
        let mut i: usize = 0;
        while i < self.backends.len()
            invariant
                i <= self.backends@.len(),
                key@ == addr@,
                forall|j: int| 0 <= j < i ==> self.backends@[j].addr@ != addr@,
            decreases self.backends.len() - i,
        {
            if self.backends[i].addr == key {
                proof {
                    lemma_find_backend_is(self@, addr@, i as int);
                }
                return Some(i);
            }
            i = i + 1;
        }
        proof {
            lemma_find_backend_none(self@, addr@);
        }
        None
    }

    /// Every backend, in order.
    pub fn get_all_backends(&self) -> (r: Vec<Backend>)
        ensures
            r@ == self@,
    {
        let mut out: Vec<Backend> = Vec::new();
        let mut i: usize = 0;
        while i < self.backends.len()
            invariant
                i <= self.backends@.len(),
                out@ == self.backends@.take(i as int),
            decreases self.backends.len() - i,
        {
            let b = &self.backends[i];
            out.push(Backend { addr: b.addr.clone(), healthy: b.healthy, failure_count: b.failure_count });
            i = i + 1;
            assert(out@ =~= self.backends@.take(i as int));
        }
        assert(out@ =~= self.backends@);
        out
    }

    /// The healthy backends, in order.
    pub fn get_healthy_backends(&self) -> (r: Vec<Backend>)
        ensures
            r@ == self@.filter(|b: Backend| b.healthy),
    {
        let ghost pred = |b: Backend| b.healthy;
        let mut out: Vec<Backend> = Vec::new();
        let mut i: usize = 0;
        while i < self.backends.len()
            invariant
                i <= self.backends@.len(),
                pred == (|b: Backend| b.healthy),
                out@ == self.backends@.take(i as int).filter(pred),
            decreases self.backends.len() - i,
        {
            let b = &self.backends[i];
            proof {
                assert(self.backends@.take(i + 1) =~= self.backends@.take(i as int).push(*b));
                self.backends@.take(i as int).lemma_filter_push(*b, pred);
            }
            if b.healthy {
                out.push(Backend { addr: b.addr.clone(), healthy: b.healthy, failure_count: b.failure_count });
            }
            i = i + 1;
        }
        assert(self.backends@.take(self.backends@.len() as int) =~= self.backends@);
        out
    }

    /// Records a failure of `addr`: its failure count goes up by one, its
    /// run of successes starts over, and it is marked unhealthy once the
    /// count exceeds the failure threshold. An unknown address changes
    /// nothing.
    pub fn record_failure(&mut self, addr: &str)
        requires
            old(self).wf(),
            failure_count_spec(old(self)@, addr@) < u32::MAX,
        ensures
            final(self).wf(),
            final(self).config() == old(self).config(),
            final(self)@ == record_failure_spec(old(self)@, addr@, old(self).threshold()),
            final(self).streaks() == streaks_after_failure(old(self).streaks(), old(self)@, addr@),
    {
        match self.position_of(addr) {
            Some(i) => {
                let count = self.backends[i].failure_count + 1;
                let mut healthy = self.backends[i].healthy;
                if count > self.health_check_config.failure_threshold {
                    if healthy {
                        healthy = false;
                    }
                }
                let updated = Backend { addr: self.backends[i].addr.clone(), healthy, failure_count: count };
                proof {
                    assert(updated == failure_applied(self.backends@[i as int], self.health_check_config.failure_threshold));
                }
                self.backends.set(i, updated);
                self.success_streaks.set(i, 0);
                proof {
                    assert forall|j: int| 0 <= j < self.backends@.len() implies backend_consistent(
                        #[trigger] self.backends@[j],
                    ) by {
                        if j != i as int {
                            assert(self.backends@[j] == old(self).backends@[j]);
                        }
                    }
                }
            },
            None => {},
        }
    }

    /// Records a success of `addr`: its failure count goes down by one (not
    /// below zero), its run of successes grows by one, and it is marked
    /// healthy once the run reaches the recovery threshold or the count is
    /// zero. An unknown address changes nothing.
    pub fn record_success(&mut self, addr: &str)
        requires
            old(self).wf(),
        ensures
            final(self).wf(),
            final(self).config() == old(self).config(),
            final(self)@ == record_success_spec(
                old(self)@,
                old(self).streaks(),
                addr@,
                old(self).recovery(),
            ),
            final(self).streaks() == streaks_after_success(old(self).streaks(), old(self)@, addr@),
    {
        match self.position_of(addr) {
            Some(i) => {
                let mut count = self.backends[i].failure_count;
                if count > 0 {
                    count = count - 1;
                }
                let mut streak = self.success_streaks[i];
                if streak < u32::MAX {
                    streak = streak + 1;
                }
                let mut healthy = self.backends[i].healthy;
                if !healthy && (streak >= self.health_check_config.recovery_threshold || count == 0) {
                    healthy = true;
                }
                let updated = Backend { addr: self.backends[i].addr.clone(), healthy, failure_count: count };
                proof {
                    assert(updated == success_applied(
                        self.backends@[i as int],
                        self.success_streaks@[i as int],
                        self.health_check_config.recovery_threshold,
                    ));
                }
                self.backends.set(i, updated);
                self.success_streaks.set(i, streak);
                proof {
                    assert forall|j: int| 0 <= j < self.backends@.len() implies backend_consistent(
                        #[trigger] self.backends@[j],
                    ) by {
                        if j != i as int {
                            assert(self.backends@[j] == old(self).backends@[j]);
                        }
                    }
                }
            },
            None => {},
        }
    }

    /// Whether `addr` is healthy; an unknown address is not.
    pub fn is_healthy(&self, addr: &str) -> (b: bool)
        ensures
            b == is_healthy_spec(self@, addr@),
    {
        match self.position_of(addr) {
            Some(i) => self.backends[i].healthy,
            None => false,
        }
    }

    /// The failure count of `addr`; zero for an unknown address.
    pub fn get_failure_count(&self, addr: &str) -> (c: u32)
        ensures
            c == failure_count_spec(self@, addr@),
    {
        match self.position_of(addr) {
            Some(i) => self.backends[i].failure_count,
            None => 0,
        }
    }
}

} // verus!
