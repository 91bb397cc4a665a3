//! The subscriber side of the event fanout: what a change stream does with
//! each outcome of receiving from the broadcast channel.
use vstd::prelude::*;
use crate::route::RouteChange;

verus! {

/// One outcome of receiving from the broadcast channel.
#[derive(Debug, Clone, Copy, PartialEq, Eq, Structural)]
pub enum Delivery {
    /// The next event.
    Event(RouteChange),
    /// The subscriber fell behind and this many events were dropped.
    Lagged(u64),
    /// Every sender is gone.
    Closed,
}

/// What the stream does next.
#[derive(Debug, Clone, Copy, PartialEq, Eq, Structural)]
pub enum Step {
    /// Hand this event to the subscriber.
    Yield(RouteChange),
    /// Receive again.
    Skip,
    /// End the stream.
    Stop,
}

pub open spec fn step_of(d: Delivery) -> Step {
    match d {
        Delivery::Event(e) => Step::Yield(e),
        Delivery::Lagged(_) => Step::Skip,
        Delivery::Closed => Step::Stop,
    }
}

/// Events are passed on, a lag is skipped silently, and a closed channel
/// ends the stream.
pub fn next_step(d: Delivery) -> (r: Step)
    ensures
        r == step_of(d),
{
    match d {
        Delivery::Event(e) => Step::Yield(e),
        Delivery::Lagged(_) => Step::Skip,
        Delivery::Closed => Step::Stop,
    }
}

/// The events a stream yields for a run of deliveries.
pub open spec fn stream_of(ds: Seq<Delivery>) -> Seq<RouteChange>
    decreases ds.len(),
{
    if ds.len() == 0 {
        seq![]
    } else {
        match step_of(ds[0]) {
            Step::Yield(e) => seq![e] + stream_of(ds.drop_first()),
            Step::Skip => stream_of(ds.drop_first()),
            Step::Stop => seq![],
        }
    }
}

/// A lag never ends the stream nor yields anything: the events before it
/// and the events after it follow each other, none repeated and none out
/// of order.
pub proof fn lemma_lag_splices(a: Seq<Delivery>, n: u64, b: Seq<Delivery>)
    requires
        forall|i: int| 0 <= i < a.len() ==> !(#[trigger] a[i] is Closed),
    ensures
        stream_of(a + seq![Delivery::Lagged(n)] + b) == stream_of(a) + stream_of(b),
    decreases a.len(),
{
    let all = a + seq![Delivery::Lagged(n)] + b;
    if a.len() == 0 {
        assert(all.drop_first() =~= b);
        assert(stream_of(a) + stream_of(b) =~= stream_of(b));
    } else {
        assert(all.drop_first() =~= a.drop_first() + seq![Delivery::Lagged(n)] + b);
        assert forall|i: int| 0 <= i < a.drop_first().len() implies !(
        #[trigger] a.drop_first()[i] is Closed) by {
            assert(a.drop_first()[i] == a[i + 1]);
        }
        lemma_lag_splices(a.drop_first(), n, b);
        assert(all[0] == a[0]);
        assert(!(a[0] is Closed));
        match step_of(a[0]) {
            Step::Yield(e) => {
                assert(seq![e] + (stream_of(a.drop_first()) + stream_of(b)) =~= (seq![e]
                    + stream_of(a.drop_first())) + stream_of(b));
            },
            _ => {},
        }
    }
}

} // verus!
