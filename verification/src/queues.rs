//! The queues between the stages of a tick. Each stage drains the queue
//! before it whole, so nothing is handled twice and nothing waits for a
//! later tick.

use vstd::prelude::*;

use crate::events::S1;
use crate::events::S2;
use crate::events::S3;

verus! {

/// What waits in the three queues.
pub struct Posted<P> {
    /// Events for the Act stage.
    pub act: Seq<S1<P>>,
    /// Events for the Identify stage.
    pub identify: Seq<S2>,
    /// Events for the Assimilate stage.
    pub assimilate: Seq<S3<P>>,
}

impl<P> Posted<P> {
    /// Nothing waits in any queue.
    pub open spec fn drained(self) -> bool {
        self.act.len() == 0 && self.identify.len() == 0 && self.assimilate.len() == 0
    }

    /// The queues after the Act stage has sent `sent` to the Identify stage.
    pub open spec fn with_requests(self, sent: Seq<S2>) -> Posted<P> {
        Posted { identify: self.identify + sent, ..self }
    }

    /// The queues after the Identify stage has taken what waited for it.
    pub open spec fn after_identify(self) -> Posted<P> {
        Posted { identify: Seq::empty(), ..self }
    }
}

/// The queues of one simulation.
pub struct StageQueues<P> {
    act: Vec<S1<P>>,
    identify: Vec<S2>,
    assimilate: Vec<S3<P>>,
}

impl<P> View for StageQueues<P> {
    type V = Posted<P>;

    closed spec fn view(&self) -> Posted<P> {
        Posted { act: self.act@, identify: self.identify@, assimilate: self.assimilate@ }
    }
}

impl<P> StageQueues<P> {
    /// Empty queues.
    pub fn new() -> (queues: StageQueues<P>)
        ensures
            queues@.drained(),
    {
        StageQueues { act: Vec::new(), identify: Vec::new(), assimilate: Vec::new() }
    }

    /// Whether nothing waits in any queue.
    pub fn is_drained(&self) -> (yes: bool)
        ensures
            yes == self@.drained(),
    {
        self.act.len() == 0 && self.identify.len() == 0 && self.assimilate.len() == 0
    }

    /// Sends an event to the Act stage.
    pub fn send_act(&mut self, event: S1<P>)
        ensures
            final(self)@ == (Posted { act: old(self)@.act.push(event), ..old(self)@ }),
    {
        self.act.push(event);
    }

    /// Sends an event to the Identify stage.
    pub fn send_identify(&mut self, event: S2)
        ensures
            final(self)@ == old(self)@.with_requests(seq![event]),
    {
        self.identify.push(event);
        assert(self.identify@ =~= old(self).identify@ + seq![event]);
    }

    /// Sends an event to the Assimilate stage.
    pub fn send_assimilate(&mut self, event: S3<P>)
        ensures
            final(self)@ == (Posted {
                assimilate: old(self)@.assimilate.push(event),
                ..old(self)@
            }),
    {
        self.assimilate.push(event);
    }

    /// Hands the Act stage all that waits for it, in the order sent.
    pub fn take_act(&mut self) -> (events: Vec<S1<P>>)
        ensures
            events@ == old(self)@.act,
            final(self)@ == (Posted { act: Seq::empty(), ..old(self)@ }),
    {
        let mut events: Vec<S1<P>> = Vec::new();
        core::mem::swap(&mut events, &mut self.act);
        events
    }

    /// Hands the Identify stage all that waits for it, in the order sent.
    pub fn take_identify(&mut self) -> (events: Vec<S2>)
        ensures
            events@ == old(self)@.identify,
            final(self)@ == old(self)@.after_identify(),
    {
        let mut events: Vec<S2> = Vec::new();
        core::mem::swap(&mut events, &mut self.identify);
        events
    }

    /// Hands the Assimilate stage all that waits for it, in the order sent.
    pub fn take_assimilate(&mut self) -> (events: Vec<S3<P>>)
        ensures
            events@ == old(self)@.assimilate,
            final(self)@ == (Posted { assimilate: Seq::empty(), ..old(self)@ }),
    {
        let mut events: Vec<S3<P>> = Vec::new();
        core::mem::swap(&mut events, &mut self.assimilate);
        events
    }
}

/// In a tick that starts with no request waiting, the Identify stage sees
/// exactly the requests that the Act stage sent in that tick, in their
/// order, and leaves none of them for a later tick.
pub proof fn identify_sees_this_tick_only<P>(start: Posted<P>, sent: Seq<S2>)
    requires
        start.identify.len() == 0,
    ensures
        start.with_requests(sent).identify == sent,
        start.with_requests(sent).after_identify().identify.len() == 0,
{
    assert(start.identify + sent =~= sent);
}

/// Over two ticks in a row, what the Act stage sent in the first tick is
/// not seen again by the Identify stage in the second.
pub proof fn no_request_crosses_ticks<P>(start: Posted<P>, first: Seq<S2>, second: Seq<S2>)
    requires
        start.identify.len() == 0,
    ensures
        start.with_requests(first).after_identify().with_requests(second).identify == second,
{
    assert(Seq::<S2>::empty() + second =~= second);
}

} // verus!
