use vstd::prelude::*;

verus! {

/// The identity of a running virtual machine, as the 128 bits of its UUID.
#[derive(Clone, Copy, Debug, PartialEq, Eq, Structural)]
pub struct VmId {
    pub value: u128,
}

/// Seconds between two samples of the identity in polling mode.
pub const POLL_PERIOD_SECS: u64 = 5;

/// Seconds a listener-serving unit waits after a failure before it retries.
pub const RETRY_PAUSE_SECS: u64 = 1;

/// Consecutive listener failures after which the process gives up.
pub const MAX_STRIKES: u8 = 3;

/// Status the process exits with when a listener-serving unit gives up.
pub const FATAL_EXIT_CODE: i32 = 1;

/// What the supervisor asks of the listener after a sample.
#[derive(Clone, Copy, Debug, PartialEq, Eq, Structural)]
pub enum ListenerAction {
    /// The identity did not change: leave everything as it is.
    Keep,
    /// Nothing is bound: start a listener-serving unit for this identity.
    Start(VmId),
    /// Abort the bound unit at once, then start one for this identity.
    Restart(VmId),
    /// Abort the bound unit at once and stay unbound.
    Stop,
}

/// The action for a new sample, given the identity whose listener is bound.
pub open spec fn listener_action(bound: Option<VmId>, sample: Option<VmId>) -> ListenerAction {
    if sample == bound {
        ListenerAction::Keep
    } else {
        match (bound, sample) {
            (None, Some(id)) => ListenerAction::Start(id),
            (Some(_), Some(id)) => ListenerAction::Restart(id),
            _ => ListenerAction::Stop,
        }
    }
}

/// At most one listener is ever bound: a unit is started only when none is
/// bound, an old one is aborted before any other is started, and nothing
/// happens when the identity repeats.
pub proof fn lemma_one_listener(bound: Option<VmId>, sample: Option<VmId>)
    ensures
        listener_action(bound, sample) == ListenerAction::Keep <==> sample == bound,
        listener_action(bound, sample) matches ListenerAction::Start(id) ==> bound is None
            && sample == Some(id),
        listener_action(bound, sample) matches ListenerAction::Restart(id) ==> bound is Some
            && sample == Some(id) && bound != sample,
        listener_action(bound, sample) == ListenerAction::Stop ==> bound is Some && sample is None,
{
}

/// Tracks the identity of the virtual machine and the one listener bound to it.
pub struct IdentitySupervisor {
    bound: Option<VmId>,
}

impl IdentitySupervisor {
    /// The identity whose listener is bound; `None` when unbound.
    pub closed spec fn bound(&self) -> Option<VmId> {
        self.bound
    }

    pub fn new() -> (r: IdentitySupervisor)
        ensures
            r.bound() == None::<VmId>,
    {
        IdentitySupervisor { bound: None }
    }

    pub fn bound_identity(&self) -> (r: Option<VmId>)
        ensures
            r == self.bound(),
    {
        self.bound
    }

    /// Takes a new sample of the identity. A listener is started, aborted or
    /// replaced only when the sample differs from the bound identity, and
    /// afterwards the bound identity is the sample.
    pub fn observe(&mut self, sample: Option<VmId>) -> (r: ListenerAction)
        ensures
            r == listener_action(old(self).bound(), sample),
            final(self).bound() == sample,
    {
        let prev = self.bound;
        self.bound = sample;
        if sample == prev {
            ListenerAction::Keep
        } else {
            match (prev, sample) {
                (None, Some(id)) => ListenerAction::Start(id),
                (Some(_), Some(id)) => ListenerAction::Restart(id),
                _ => ListenerAction::Stop,
            }
        }
    }
}

/// What a listener-serving unit does after a bind or accept failure.
#[derive(Clone, Copy, Debug, PartialEq, Eq, Structural)]
pub enum UnitAction {
    /// Pause, then bind again and serve.
    Retry,
    /// Terminate the whole process with this status.
    Exit(i32),
}

/// Counts the consecutive listener-level failures of one serving unit.
pub struct ServeUnit {
    strikes: u8,
}

impl ServeUnit {
    pub closed spec fn strikes(&self) -> nat {
        self.strikes as nat
    }

    pub closed spec fn wf(&self) -> bool {
        self.strikes <= MAX_STRIKES
    }

    pub fn new() -> (r: ServeUnit)
        ensures
            r.wf(),
            r.strikes() == 0,
    {
        ServeUnit { strikes: 0 }
    }

    pub fn strike_count(&self) -> (r: u8)
        ensures
            r as nat == self.strikes(),
    {
        self.strikes
    }

    /// Records a bind or accept failure. The unit retries after the first
    /// and second consecutive failure and gives up on the third.
    pub fn on_failure(&mut self) -> (r: UnitAction)
        requires
            old(self).wf(),
        ensures
            final(self).wf(),
            final(self).strikes() == if old(self).strikes() < MAX_STRIKES {
                old(self).strikes() + 1
            } else {
                MAX_STRIKES as nat
            },
            r == (if final(self).strikes() >= MAX_STRIKES {
                UnitAction::Exit(FATAL_EXIT_CODE)
            } else {
                UnitAction::Retry
            }),
    {
        if self.strikes < MAX_STRIKES {
            self.strikes = self.strikes + 1;
        }
        if self.strikes >= MAX_STRIKES {
            UnitAction::Exit(FATAL_EXIT_CODE)
        } else {
            UnitAction::Retry
        }
    }

    /// Records that the listener accepted a connection: the failures before
    /// are not consecutive with any later one.
    pub fn on_accepted(&mut self)
        ensures
            final(self).wf(),
            final(self).strikes() == 0,
    {
        self.strikes = 0;
    }
}

} // verus!
