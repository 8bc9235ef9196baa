//! Failover: backends are tried in order, unhealthy ones are skipped, a
//! backend that fails to connect is marked unhealthy and the next one is
//! tried, and the first one that connects is selected.
//!
//! Connecting is I/O, so selection is a step machine: the caller performs
//! each `Connect` step and hands the outcome back to `after_attempt`.

use crate::backend::Backend;
use crate::error::RoutingError;
use crate::keyed::StrMap;
use vstd::prelude::*;

verus! {

/// The health an address has in a status map: unknown addresses are
/// healthy.
pub open spec fn health_in(m: Map<Seq<char>, bool>, addr: Seq<char>) -> bool {
    if m.contains_key(addr) {
        m[addr]
    } else {
        true
    }
}

/// Records the last known health of each backend address.
pub struct HealthChecker {
    health_status: StrMap<bool>,
}

impl View for HealthChecker {
    type V = Map<Seq<char>, bool>;

    closed spec fn view(&self) -> Map<Seq<char>, bool> {
        self.health_status@
    }
}

impl HealthChecker {
    /// Well-formedness of the records.
    pub closed spec fn wf(&self) -> bool {
        self.health_status.wf()
    }

    /// A checker that knows no backend yet, so every backend is healthy.
    pub fn new() -> (c: Self)
        ensures
            c.wf(),
            c@ == Map::<Seq<char>, bool>::empty(),
    {
        HealthChecker { health_status: StrMap::new() }
    }

    /// Whether `addr` is healthy; an address never recorded is.
    pub fn is_healthy(&self, addr: &str) -> (b: bool)
        requires
            self.wf(),
        ensures
            b == health_in(self@, addr@),
    {
        match self.health_status.get(addr) {
            Some(h) => h,
            None => true,
        }
    }

    /// Marks `addr` unhealthy.
    pub fn record_failure(&mut self, addr: &str)
        requires
            old(self).wf(),
        ensures
            final(self).wf(),
            final(self)@ == old(self)@.insert(addr@, false),
    {
        self.health_status.insert(addr, false);
    }

    /// Marks `addr` healthy.
    pub fn record_success(&mut self, addr: &str)
        requires
            old(self).wf(),
        ensures
            final(self).wf(),
            final(self)@ == old(self)@.insert(addr@, true),
    {
        self.health_status.insert(addr, true);
    }
}

impl Default for HealthChecker {
    fn default() -> (c: Self)
        ensures
            c.wf(),
            c@ == Map::<Seq<char>, bool>::empty(),
    {
        Self::new()
    }
}

/// The health records after a sequence of recorded outcomes, each an
/// address with `true` for a success and `false` for a failure, starting
/// from `m`.
pub open spec fn replay_outcomes(m: Map<Seq<char>, bool>, outcomes: Seq<(Seq<char>, bool)>) -> Map<
    Seq<char>,
    bool,
>
    decreases outcomes.len(),
{
    if outcomes.len() == 0 {
        m
    } else {
        replay_outcomes(m, outcomes.drop_last()).insert(outcomes.last().0, outcomes.last().1)
    }
}

/// The health of `addr` after a sequence of outcomes: the last outcome that
/// names it, and healthy when none does.
pub open spec fn last_outcome(outcomes: Seq<(Seq<char>, bool)>, addr: Seq<char>) -> bool
    decreases outcomes.len(),
{
    if outcomes.len() == 0 {
        true
    } else if outcomes.last().0 == addr {
        outcomes.last().1
    } else {
        last_outcome(outcomes.drop_last(), addr)
    }
}

/// Starting from a new checker, after any sequence of `record_success` and
/// `record_failure` calls an address is healthy exactly when the last call
/// naming it was a success, or when no call named it; calls naming other
/// addresses do not matter.
pub proof fn lemma_health_is_last_outcome(outcomes: Seq<(Seq<char>, bool)>, addr: Seq<char>)
    ensures
        health_in(replay_outcomes(Map::empty(), outcomes), addr) == last_outcome(outcomes, addr),
    decreases outcomes.len(),
{
    if outcomes.len() > 0 {
        lemma_health_is_last_outcome(outcomes.drop_last(), addr);
    }
}

/// One more recorded outcome extends the replay: what `record_success` and
/// `record_failure` do to a checker is what `replay_outcomes` does with one
/// more outcome.
pub proof fn lemma_replay_push(
    m: Map<Seq<char>, bool>,
    outcomes: Seq<(Seq<char>, bool)>,
    addr: Seq<char>,
    healthy: bool,
)
    ensures
        replay_outcomes(m, outcomes.push((addr, healthy))) == replay_outcomes(m, outcomes).insert(
            addr,
            healthy,
        ),
{
    assert(outcomes.push((addr, healthy)).drop_last() =~= outcomes);
}

/// The result of trying to select a backend.
pub type BackendSelectionResult = Result<Backend, RoutingError>;

/// Turns the outcome of a connection attempt into a selection result.
pub fn connect_outcome(addr: &str, connected: bool) -> (r: BackendSelectionResult)
    ensures
        match r {
            Ok(b) => connected && b.addr@ == addr@ && b.healthy && b.failure_count == 0,
            Err(e) => !connected && (e matches RoutingError::BackendConnectionFailed(a) && a@
                == addr@),
        },
{
    if connected {
        Ok(Backend { addr: addr.to_owned(), healthy: true, failure_count: 0 })
    } else {
        Err(RoutingError::BackendConnectionFailed(addr.to_owned()))
    }
}

/// `i` is the first position at or after `from` whose address is healthy.
pub open spec fn is_next_candidate(
    addrs: Seq<Seq<char>>,
    m: Map<Seq<char>, bool>,
    from: int,
    i: int,
) -> bool {
    &&& from <= i < addrs.len()
    &&& health_in(m, addrs[i])
    &&& forall|j: int| from <= j < i ==> !health_in(m, #[trigger] addrs[j])
}

/// The next backend to try, at or after `from`.
pub open spec fn next_candidate(addrs: Seq<Seq<char>>, m: Map<Seq<char>, bool>, from: int) -> Option<
    int,
> {
    if exists|i: int| is_next_candidate(addrs, m, from, i) {
        Some(choose|i: int| is_next_candidate(addrs, m, from, i))
    } else {
        None
    }
}

/// One step of a selection.
pub enum FailoverStep {
    /// Try to connect to the backend at this position, with this address.
    Connect { index: usize, addr: String },
    /// The selection is over, with this result.
    Done(BackendSelectionResult),
}

/// The step taken when the search resumes at `from`: connect to the next
/// healthy backend, or give up with `NoAvailableBackend` when none is left.
pub open spec fn is_step_from(
    step: FailoverStep,
    addrs: Seq<Seq<char>>,
    m: Map<Seq<char>, bool>,
    from: int,
) -> bool {
    match step {
        FailoverStep::Connect { index, addr } => next_candidate(addrs, m, from) == Some(
            index as int,
        ) && addr@ == addrs[index as int],
        FailoverStep::Done(r) => next_candidate(addrs, m, from) == None::<int> && r matches Err(
            RoutingError::NoAvailableBackend,
        ),
    }
}

/// There is at most one next candidate.
pub proof fn lemma_next_candidate_unique(
    addrs: Seq<Seq<char>>,
    m: Map<Seq<char>, bool>,
    from: int,
    i: int,
    k: int,
)
    requires
        is_next_candidate(addrs, m, from, i),
        is_next_candidate(addrs, m, from, k),
    ensures
        i == k,
{
    if i < k {
        assert(!health_in(m, addrs[i]));
    } else if k < i {
        assert(!health_in(m, addrs[k]));
    }
}

/// Tries a list of backends in order.
pub struct FailoverStrategy {
    backends: Vec<String>,
    health_checker: HealthChecker,
}

impl FailoverStrategy {
    /// The backend addresses, in the order they are tried.
    pub closed spec fn addrs(&self) -> Seq<Seq<char>> {
        self.backends@.map_values(|s: String| s@)
    }

    /// The recorded health of the backends.
    pub closed spec fn health(&self) -> Map<Seq<char>, bool> {
        self.health_checker@
    }

    /// Well-formedness of the health records.
    pub closed spec fn wf(&self) -> bool {
        self.health_checker.wf()
    }

    /// A strategy over `backends`, all of them healthy.
    pub fn new(backends: Vec<String>) -> (f: Self)
        ensures
            f.wf(),
            f.addrs() == backends@.map_values(|s: String| s@),
            f.health() == Map::<Seq<char>, bool>::empty(),
    {
        FailoverStrategy { backends, health_checker: HealthChecker::new() }
    }

    /// The number of backends.
    pub fn len(&self) -> (n: usize)
        ensures
            n == self.addrs().len(),
    {
        self.backends.len()
    }

    /// Whether `addr` is recorded healthy.
    pub fn is_healthy(&self, addr: &str) -> (b: bool)
        requires
            self.wf(),
        ensures
            b == health_in(self.health(), addr@),
    {
        self.health_checker.is_healthy(addr)
    }

    /// Marks `addr` unhealthy, as when a request to it failed after it was
    /// selected: no later selection step names it.
    pub fn record_failure(&mut self, addr: &str)
        requires
            old(self).wf(),
        ensures
            final(self).wf(),
            final(self).addrs() == old(self).addrs(),
            final(self).health() == old(self).health().insert(addr@, false),
            forall|a: Seq<char>|
                !health_in(old(self).health(), a) ==> !health_in(#[trigger] final(self).health(), a),
    {
        self.health_checker.record_failure(addr);
    }

    /// The step taken when the search resumes at position `from`: connect to
    /// the next healthy backend at or after it, or give up when none is
    /// left.
    pub fn step_from(&self, from: usize) -> (step: FailoverStep)
        requires
            self.wf(),
        ensures
            is_step_from(step, self.addrs(), self.health(), from as int),
    {
        let ghost addrs = self.addrs();
        let ghost m = self.health();
        let mut i: usize = from;
        while i < self.backends.len()
            invariant
                self.wf(),
                from <= i,
                addrs == self.addrs(),
                m == self.health(),
                addrs.len() == self.backends@.len(),
                forall|j: int| from <= j < i ==> !health_in(m, #[trigger] addrs[j]),
            decreases self.backends.len() - i,
        {
            let addr = self.backends[i].as_str();
            if self.health_checker.is_healthy(addr) {
                proof {
                    assert(addrs[i as int] == addr@);
                    assert(is_next_candidate(addrs, m, from as int, i as int));
                    let k = choose|k: int| is_next_candidate(addrs, m, from as int, k);
                    lemma_next_candidate_unique(addrs, m, from as int, i as int, k);
                }
                return FailoverStep::Connect { index: i, addr: self.backends[i].clone() };
            }
            i = i + 1;
        }
        proof {
            assert forall|k: int| !is_next_candidate(addrs, m, from as int, k) by {
                if is_next_candidate(addrs, m, from as int, k) {
                    assert(!health_in(m, addrs[k]));
                }
            }
        }
        FailoverStep::Done(Err(RoutingError::NoAvailableBackend))
    }

    /// The first step of a selection: connect to the first healthy backend,
    /// or give up when there is none.
    pub fn begin_selection(&self) -> (step: FailoverStep)
        requires
            self.wf(),
        ensures
            is_step_from(step, self.addrs(), self.health(), 0),
    {
        self.step_from(0)
    }

    /// Takes the outcome of the attempt on the backend at `index`. A success
    /// ends the selection with the connected backend and marks it healthy,
    /// unless it was recorded unhealthy meanwhile, which it then stays; a
    /// failure marks it unhealthy and moves on to the next healthy backend
    /// after it. An address recorded unhealthy stays so.
    pub fn after_attempt(&mut self, index: usize, attempt: BackendSelectionResult) -> (step:
        FailoverStep)
        requires
            old(self).wf(),
            index < old(self).addrs().len(),
        ensures
            final(self).wf(),
            final(self).addrs() == old(self).addrs(),
            forall|a: Seq<char>|
                !health_in(old(self).health(), a) ==> !health_in(#[trigger] final(self).health(), a),
            final(self).health() == match attempt {
                Ok(_) => if health_in(old(self).health(), old(self).addrs()[index as int]) {
                    old(self).health().insert(old(self).addrs()[index as int], true)
                } else {
                    old(self).health()
                },
                Err(_) => old(self).health().insert(old(self).addrs()[index as int], false),
            },
            match attempt {
                Ok(b) => step matches FailoverStep::Done(Ok(s)) && s == b,
                Err(_) => is_step_from(
                    step,
                    final(self).addrs(),
                    final(self).health(),
                    index + 1,
                ),
            },
    {
        match attempt {
            Ok(backend) => {
                let addr = self.backends[index].as_str();
                if self.health_checker.is_healthy(addr) {
                    self.health_checker.record_success(addr);
                }
                FailoverStep::Done(Ok(backend))
            },
            Err(_) => {
                assert(self.addrs().len() == self.backends@.len());
                let n = self.backends.len();
                assert(index < n);
                let addr = self.backends[index].as_str();
                self.health_checker.record_failure(addr);
                self.step_from(index + 1)
            },
        }
    }
}

/// A connection step only ever names a backend that is healthy at the time,
/// and every backend it passes over on the way is unhealthy.
pub proof fn lemma_connect_only_healthy(
    step: FailoverStep,
    addrs: Seq<Seq<char>>,
    m: Map<Seq<char>, bool>,
    from: int,
)
    requires
        is_step_from(step, addrs, m, from),
    ensures
        step matches FailoverStep::Connect { index, addr } ==> {
            &&& health_in(m, addr@)
            &&& from <= index < addrs.len()
            &&& forall|j: int| from <= j < index ==> !health_in(m, #[trigger] addrs[j])
        },
        step is Done ==> forall|j: int| from <= j < addrs.len() ==> !health_in(m, #[trigger] addrs[j]),
{
    match step {
        FailoverStep::Connect { index, addr } => {
            let k = choose|k: int| is_next_candidate(addrs, m, from, k);
            assert(is_next_candidate(addrs, m, from, k));
        },
        FailoverStep::Done(_) => {
            assert forall|j: int| from <= j < addrs.len() implies !health_in(m, #[trigger] addrs[j]) by {
                if health_in(m, addrs[j]) {
                    if exists|k: int| from <= k < j && health_in(m, addrs[k]) {
                        lemma_first_healthy_exists(addrs, m, from, j);
                    } else {
                        assert(is_next_candidate(addrs, m, from, j));
                    }
                }
            }
        },
    }
}

/// If some backend at or after `from` is healthy, there is a first one.
proof fn lemma_first_healthy_exists(addrs: Seq<Seq<char>>, m: Map<Seq<char>, bool>, from: int, j: int)
    requires
        from <= j < addrs.len(),
        health_in(m, addrs[j]),
    ensures
        exists|i: int| is_next_candidate(addrs, m, from, i),
    decreases j - from,
{
    if exists|k: int| from <= k < j && health_in(m, #[trigger] addrs[k]) {
        let k = choose|k: int| from <= k < j && health_in(m, #[trigger] addrs[k]);
        lemma_first_healthy_exists(addrs, m, from, k);
    } else {
        assert(is_next_candidate(addrs, m, from, j));
    }
}

/// An address recorded unhealthy is never named by a connection step: once a
/// backend has failed, every later selection passes over it.
pub proof fn lemma_unhealthy_never_named(
    step: FailoverStep,
    addrs: Seq<Seq<char>>,
    m: Map<Seq<char>, bool>,
    from: int,
    a: Seq<char>,
)
    requires
        is_step_from(step, addrs, m, from),
        !health_in(m, a),
    ensures
        step matches FailoverStep::Connect { index, addr } ==> addr@ != a && addrs[index as int]
            != a,
{
    lemma_connect_only_healthy(step, addrs, m, from);
}

/// A failure recorded for an address keeps every later selection off it:
/// whatever position a selection resumes at, its step never names that
/// address.
pub proof fn lemma_recorded_failure_avoided(
    step: FailoverStep,
    addrs: Seq<Seq<char>>,
    m: Map<Seq<char>, bool>,
    failed: Seq<char>,
    from: int,
)
    requires
        is_step_from(step, addrs, m.insert(failed, false), from),
    ensures
        step matches FailoverStep::Connect { index, addr } ==> addr@ != failed && addrs[index as int]
            != failed,
{
    lemma_unhealthy_never_named(step, addrs, m.insert(failed, false), from, failed);
}

/// A failed attempt marks exactly the attempted backend unhealthy; every
/// other address keeps its recorded health, and the failed backend is not
/// named again by the step that follows.
pub proof fn lemma_failure_marks_only_attempted(
    addrs: Seq<Seq<char>>,
    m: Map<Seq<char>, bool>,
    index: int,
    other: Seq<char>,
)
    requires
        0 <= index < addrs.len(),
        other != addrs[index],
    ensures
        !health_in(m.insert(addrs[index], false), addrs[index]),
        health_in(m.insert(addrs[index], false), other) == health_in(m, other),
        health_in(m.insert(addrs[index], true), addrs[index]),
        health_in(m.insert(addrs[index], true), other) == health_in(m, other),
{
}

/// What a whole selection resumed at `from` ends with, when the attempt on
/// the backend at position `i` connects exactly if `connects(i)`: the
/// health records after it, and the position of the selected backend. Each
/// healthy backend in turn is tried; one that fails is marked unhealthy,
/// the first that connects is marked healthy and selected.
pub open spec fn selection_from(
    addrs: Seq<Seq<char>>,
    m: Map<Seq<char>, bool>,
    from: int,
    connects: spec_fn(int) -> bool,
) -> (Map<Seq<char>, bool>, Option<int>)
    decreases addrs.len() - from,
{
    if from < 0 || from >= addrs.len() {
        (m, None)
    } else if !health_in(m, addrs[from]) {
        selection_from(addrs, m, from + 1, connects)
    } else if connects(from) {
        (m.insert(addrs[from], true), Some(from))
    } else {
        selection_from(addrs, m.insert(addrs[from], false), from + 1, connects)
    }
}

/// Passing over unhealthy backends does not change what a selection ends
/// with.
proof fn lemma_skip_unhealthy(
    addrs: Seq<Seq<char>>,
    m: Map<Seq<char>, bool>,
    from: int,
    to: int,
    connects: spec_fn(int) -> bool,
)
    requires
        0 <= from <= to <= addrs.len(),
        forall|j: int| from <= j < to ==> !health_in(m, #[trigger] addrs[j]),
    ensures
        selection_from(addrs, m, from, connects) == selection_from(addrs, m, to, connects),
    decreases to - from,
{
    if from < to {
        assert(!health_in(m, addrs[from]));
        lemma_skip_unhealthy(addrs, m, from + 1, to, connects);
    }
}

/// The steps of the machine carry out `selection_from`: a `Done` step ends
/// it with nothing selected and the records unchanged, and a `Connect` step
/// names the backend whose attempt decides it, as `after_attempt` then
/// records.
pub proof fn lemma_failover_steps_follow_selection(
    step: FailoverStep,
    addrs: Seq<Seq<char>>,
    m: Map<Seq<char>, bool>,
    from: int,
    connects: spec_fn(int) -> bool,
)
    requires
        0 <= from,
        is_step_from(step, addrs, m, from),
    ensures
        step is Done ==> selection_from(addrs, m, from, connects) == (m, None::<int>),
        step matches FailoverStep::Connect { index, addr } ==> selection_from(
            addrs,
            m,
            from,
            connects,
        ) == (if connects(index as int) {
            (m.insert(addrs[index as int], true), Some(index as int))
        } else {
            selection_from(addrs, m.insert(addrs[index as int], false), index + 1, connects)
        }),
{
    lemma_connect_only_healthy(step, addrs, m, from);
    match step {
        FailoverStep::Connect { index, addr } => {
            lemma_skip_unhealthy(addrs, m, from, index as int, connects);
        },
        FailoverStep::Done(_) => {
            if from < addrs.len() {
                lemma_skip_unhealthy(addrs, m, from, addrs.len() as int, connects);
            }
        },
    }
}

} // verus!
