use vstd::prelude::*;

verus! {

/// How a supervisor answers every failure reported to it.
#[derive(Debug, Clone, Copy, PartialEq, Eq, Structural)]
pub enum SupervisionStrategy {
    /// Tear the failing actor down and register it anew.
    Restart,
    /// Take no action: the actor's task loop goes on.
    Ignore,
    /// Hand the failure to the caller's own supervisor.
    Escalate,
}

/// A policy object that turns a failure report into a directive. The strategy
/// is fixed when the supervisor is built and applies to every actor alike.
pub struct Supervisor {
    strategy: SupervisionStrategy,
}

impl Supervisor {
    /// The strategy this supervisor applies.
    pub closed spec fn spec_strategy(&self) -> SupervisionStrategy {
        self.strategy
    }

    pub fn new(strategy: SupervisionStrategy) -> (r: Self)
        ensures
            r.spec_strategy() == strategy,
    {
        Supervisor { strategy }
    }

    pub fn strategy(&self) -> (r: SupervisionStrategy)
        ensures
            r == self.spec_strategy(),
    {
        self.strategy
    }

    /// The directive for a failure of `actor_name` with `error`: the configured
    /// strategy, whatever the actor and the error are.
    pub fn handle_failure(&self, actor_name: &str, error: &str) -> (r: SupervisionStrategy)
        ensures
            r == self.spec_strategy(),
    {
        match self.strategy {
            SupervisionStrategy::Restart => SupervisionStrategy::Restart,
            SupervisionStrategy::Ignore => SupervisionStrategy::Ignore,
            SupervisionStrategy::Escalate => SupervisionStrategy::Escalate,
        }
    }
}

} // verus!
