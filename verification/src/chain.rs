//! The strategy chain: routing plugins are asked in order, the first one
//! that selects a backend wins, and when every plugin fails the chain fails
//! with `NoAvailableBackend`.
//!
//! Asking a plugin may await I/O, so the chain is a step machine: the caller
//! runs each `Run` step and hands the plugin's answer to `after_plugin`.

use crate::error::RoutingError;
use crate::failover::BackendSelectionResult;
use vstd::prelude::*;

verus! {

/// What routing knows about a request.
#[derive(Clone, Debug)]
pub struct RoutingContext {
    /// The requested model.
    pub model: String,
    /// The request path.
    pub path: String,
    /// The protocol the response must be in.
    pub target_protocol: String,
}

impl RoutingContext {
    /// A context from its three parts.
    pub fn new(model: String, path: String, target_protocol: String) -> (c: Self)
        ensures
            c.model == model,
            c.path == path,
            c.target_protocol == target_protocol,
    {
        RoutingContext { model, path, target_protocol }
    }
}

/// One step of running the chain.
pub enum ChainStep {
    /// Ask the plugin at this position.
    Run(usize),
    /// The chain is over, with this result.
    Done(BackendSelectionResult),
}

/// The step taken when the chain reaches position `from` of `len` plugins.
pub open spec fn chain_step_at(len: int, from: int, step: ChainStep) -> bool {
    if from < len {
        step matches ChainStep::Run(i) && i == from
    } else {
        step matches ChainStep::Done(Err(RoutingError::NoAvailableBackend))
    }
}

/// The step taken after the plugin at `index` answered `answer`.
pub open spec fn chain_step_after(
    len: int,
    index: int,
    answer: BackendSelectionResult,
    step: ChainStep,
) -> bool {
    match answer {
        Ok(b) => step matches ChainStep::Done(Ok(s)) && s == b,
        Err(_) => chain_step_at(len, index + 1, step),
    }
}

/// Asks a list of routing plugins in order.
pub struct ChainExecutor<P> {
    plugins: Vec<P>,
}

impl<P> View for ChainExecutor<P> {
    type V = Seq<P>;

    closed spec fn view(&self) -> Seq<P> {
        self.plugins@
    }
}

impl<P> ChainExecutor<P> {
    /// A chain of `plugins`, asked in this order.
    pub fn new(plugins: Vec<P>) -> (c: Self)
        ensures
            c@ == plugins@,
    {
        ChainExecutor { plugins }
    }

    /// Appends a plugin, asked after all the others.
    pub fn add_plugin(&mut self, plugin: P)
        ensures
            final(self)@ == old(self)@.push(plugin),
    {
        self.plugins.push(plugin);
    }

    /// The number of plugins.
    pub fn len(&self) -> (n: usize)
        ensures
            n == self@.len(),
    {
        self.plugins.len()
    }

    /// The plugin at position `i`.
    pub fn plugin(&self, i: usize) -> (p: &P)
        requires
            i < self@.len(),
        ensures
            *p == self@[i as int],
    {
        &self.plugins[i]
    }

    /// The first step: ask the first plugin, or fail at once with
    /// `NoAvailableBackend` when there is none.
    pub fn begin(&self) -> (step: ChainStep)
        ensures
            chain_step_at(self@.len() as int, 0, step),
    {
        if self.plugins.len() > 0 {
            ChainStep::Run(0)
        } else {
            ChainStep::Done(Err(RoutingError::NoAvailableBackend))
        }
    }

    /// The step after the plugin at `index` answered: its backend ends the
    /// chain; its failure moves on to the next plugin, or ends the chain with
    /// `NoAvailableBackend` when it was the last.
    pub fn after_plugin(&self, index: usize, answer: BackendSelectionResult) -> (step: ChainStep)
        requires
            index < self@.len(),
        ensures
            chain_step_after(self@.len() as int, index as int, answer, step),
    {
        match answer {
            Ok(b) => ChainStep::Done(Ok(b)),
            Err(_) => {
                let n = self.plugins.len();
                if index + 1 < n {
                    ChainStep::Run(index + 1)
                } else {
                    ChainStep::Done(Err(RoutingError::NoAvailableBackend))
                }
            },
        }
    }
}

/// `i` is the first plugin whose answer is a backend.
pub open spec fn is_first_success(answers: Seq<BackendSelectionResult>, i: int) -> bool {
    &&& 0 <= i < answers.len()
    &&& answers[i] is Ok
    &&& forall|j: int| 0 <= j < i ==> answers[j] is Err
}

/// What a chain whose plugins answer `answers` yields: the first backend
/// selected, or `NoAvailableBackend` when every plugin fails.
pub open spec fn chain_result(answers: Seq<BackendSelectionResult>) -> BackendSelectionResult {
    if exists|i: int| is_first_success(answers, i) {
        answers[choose|i: int| is_first_success(answers, i)]
    } else {
        Err(RoutingError::NoAvailableBackend)
    }
}

/// The result the step machine ends with when resumed at `from`, each
/// plugin answering as in `answers`.
pub open spec fn run_from(answers: Seq<BackendSelectionResult>, from: int) -> BackendSelectionResult
    decreases answers.len() - from,
{
    if from >= answers.len() || from < 0 {
        Err(RoutingError::NoAvailableBackend)
    } else {
        match answers[from] {
            Ok(b) => Ok(b),
            Err(_) => run_from(answers, from + 1),
        }
    }
}

/// Each step keeps the machine on course to `run_from`: when the plugin at
/// `i` has answered, the next step either ends with `run_from(answers, i)`
/// or asks plugin `i + 1`, from which `run_from` gives the same result.
pub proof fn lemma_step_after_follows_run(
    answers: Seq<BackendSelectionResult>,
    i: int,
    next: ChainStep,
)
    requires
        0 <= i < answers.len(),
        chain_step_after(answers.len() as int, i, answers[i], next),
    ensures
        next matches ChainStep::Done(r) ==> r == run_from(answers, i),
        next matches ChainStep::Run(j) ==> j == i + 1 && run_from(answers, j as int) == run_from(
            answers,
            i,
        ),
{
    assert(run_from(answers, i) == match answers[i] {
        Ok(b) => Ok(b),
        Err(_) => run_from(answers, i + 1),
    });
    if answers[i] is Err && i + 1 >= answers.len() {
        assert(run_from(answers, i + 1) == Err::<crate::backend::Backend, RoutingError>(
            RoutingError::NoAvailableBackend,
        ));
    }
}

/// The first step of the machine ends with `run_from(answers, 0)` when
/// there is no plugin, and otherwise asks plugin 0.
pub proof fn lemma_begin_follows_run(answers: Seq<BackendSelectionResult>, step: ChainStep)
    requires
        chain_step_at(answers.len() as int, 0, step),
    ensures
        step matches ChainStep::Done(r) ==> r == run_from(answers, 0),
        step matches ChainStep::Run(i) ==> i == 0,
{
}

/// The chain yields the first plugin's backend, in order, and
/// `NoAvailableBackend` when no plugin selects one.
pub proof fn lemma_chain_first_success(answers: Seq<BackendSelectionResult>, from: int)
    requires
        0 <= from <= answers.len(),
        forall|j: int| 0 <= j < from ==> answers[j] is Err,
    ensures
        run_from(answers, from) == chain_result(answers),
    decreases answers.len() - from,
{
    if from < answers.len() {
        if answers[from] is Ok {
            assert(is_first_success(answers, from));
            let k = choose|k: int| is_first_success(answers, k);
            if k < from {
                assert(answers[k] is Err);
            } else if from < k {
                assert(answers[from] is Err);
            }
        } else {
            lemma_chain_first_success(answers, from + 1);
        }
    } else {
        assert forall|k: int| !is_first_success(answers, k) by {
            if is_first_success(answers, k) {
                assert(answers[k] is Err);
            }
        }
    }
}

} // verus!
