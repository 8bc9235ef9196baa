//! Per-model concurrency limits: each model may hold at most `default_limit`
//! permits at once; a request that finds them all taken is refused.
//!
//! The layer is a ledger of permits held per model. A permit is returned by
//! handing it to `release` once the request it guards has ended.

use crate::keyed::StrMap;
use vstd::prelude::*;

verus! {

/// The message with which a request over the limit is refused.
pub open spec fn limit_exceeded_message() -> Seq<char> {
    "Concurrency limit exceeded"@
}

/// A permit to run one request of a model.
pub struct ConcurrencyPermit {
    model: String,
}

impl ConcurrencyPermit {
    /// The model the permit was granted for.
    pub closed spec fn model_spec(&self) -> Seq<char> {
        self.model@
    }

    /// The model the permit was granted for.
    pub fn model(&self) -> (m: &str)
        ensures
            m@ == self.model_spec(),
    {
        self.model.as_str()
    }
}

/// Holds the permit of a request while it runs.
pub struct ConcurrencyContext {
    /// The permit, if one was granted.
    pub permit: Option<ConcurrencyPermit>,
}

/// How many permits of `model` are held, given the ledger `m`.
pub open spec fn held_in(m: Map<Seq<char>, usize>, model: Seq<char>) -> nat {
    if m.contains_key(model) {
        m[model] as nat
    } else {
        0
    }
}

/// Limits how many requests of each model run at once.
pub struct ConcurrencyLimitLayer {
    held: StrMap<usize>,
    default_limit: usize,
}

impl ConcurrencyLimitLayer {
    /// The number of permits held for each model seen so far.
    pub closed spec fn ledger(&self) -> Map<Seq<char>, usize> {
        self.held@
    }

    /// The number of permits each model may hold at once.
    pub closed spec fn limit(&self) -> usize {
        self.default_limit
    }

    /// The permits of `model` that are held now.
    pub open spec fn held(&self, model: Seq<char>) -> nat {
        held_in(self.ledger(), model)
    }

    /// The permits of `model` that may still be granted.
    pub open spec fn available(&self, model: Seq<char>) -> int {
        self.limit() - self.held(model)
    }

    /// Well-formedness: no model holds more permits than the limit.
    pub closed spec fn wf(&self) -> bool {
        &&& self.held.wf()
        &&& forall|k: Seq<char>| #[trigger]
            self.held@.contains_key(k) ==> self.held@[k] <= self.default_limit
    }

    /// A layer under which every model may run `default_limit` requests at
    /// once.
    pub fn new(default_limit: usize) -> (l: Self)
        ensures
            l.wf(),
            l.limit() == default_limit,
            l.ledger() == Map::<Seq<char>, usize>::empty(),
    {
        ConcurrencyLimitLayer { held: StrMap::new(), default_limit }
    }

    /// Grants a permit for `model` when fewer than the limit are held, and
    /// refuses otherwise with "Concurrency limit exceeded".
    pub fn acquire(&mut self, model: &str) -> (r: Result<ConcurrencyPermit, &'static str>)
        requires
            old(self).wf(),
        ensures
            final(self).wf(),
            final(self).limit() == old(self).limit(),
            old(self).held(model@) < old(self).limit() ==> (r matches Ok(p) && p.model_spec()
                == model@ && final(self).ledger() == old(self).ledger().insert(
                model@,
                (old(self).held(model@) + 1) as usize,
            )),
            old(self).held(model@) >= old(self).limit() ==> (r matches Err(e) && e@
                == limit_exceeded_message() && final(self).ledger() == old(self).ledger()),
    {
        proof {
            reveal_strlit("Concurrency limit exceeded");
        }
        let held: usize = match self.held.get(model) {
            Some(n) => n,
            None => 0,
        };
        if held < self.default_limit {
            self.held.insert(model, held + 1);
            Ok(ConcurrencyPermit { model: model.to_owned() })
        } else {
            Err("Concurrency limit exceeded")
        }
    }

    /// Returns a permit, so that another request of its model may run.
    pub fn release(&mut self, permit: ConcurrencyPermit)
        requires
            old(self).wf(),
            old(self).held(permit.model_spec()) > 0,
        ensures
            final(self).wf(),
            final(self).limit() == old(self).limit(),
            final(self).ledger() == old(self).ledger().insert(
                permit.model_spec(),
                (old(self).held(permit.model_spec()) - 1) as usize,
            ),
    {
        let model = permit.model.as_str();
        let held: usize = match self.held.get(model) {
            Some(n) => n,
            None => 0,
        };
        self.held.insert(model, held - 1);
    }

    /// How many more permits `model` may be granted now.
    pub fn available_permits(&self, model: &str) -> (n: usize)
        requires
            self.wf(),
        ensures
            n == self.available(model@),
    {
        let held: usize = match self.held.get(model) {
            Some(n) => n,
            None => 0,
        };
        self.default_limit - held
    }
}

impl Default for ConcurrencyLimitLayer {
    fn default() -> (l: Self)
        ensures
            l.wf(),
            l.limit() == 10,
            l.ledger() == Map::<Seq<char>, usize>::empty(),
    {
        Self::new(10)
    }
}

/// The limit holds for every model at all times: granting never takes a
/// model past it, so at most `limit` permits of a model are held at once.
pub proof fn lemma_held_within_limit(l: ConcurrencyLimitLayer, model: Seq<char>)
    requires
        l.wf(),
    ensures
        l.held(model) <= l.limit(),
        0 <= l.available(model) <= l.limit(),
{
}

/// Granting a permit and returning it leaves every model's count as it was.
pub proof fn lemma_release_undoes_acquire(m: Map<Seq<char>, usize>, model: Seq<char>, other: Seq<char>)
    requires
        held_in(m, model) + 1 <= usize::MAX,
    ensures
        held_in(
            m.insert(model, (held_in(m, model) + 1) as usize).insert(
                model,
                (held_in(m.insert(model, (held_in(m, model) + 1) as usize), model) - 1) as usize,
            ),
            other,
        ) == held_in(m, other),
{
}

} // verus!
