use vstd::prelude::*;

use crate::errors::Error;
use crate::protocol::{deck_step, interpret_id_reply, interpret_init_reply, DM2Deck, DM2DJ};
use crate::record::Beat;
use crate::record::Record;
use crate::registry::{roster_as_ints, Registry, RegistryView};

verus! {

/// The facade callers hold: every public operation becomes a keeper command,
/// and the matching reply becomes the typed result or error.
///
/// Here the facade drives the keeper step directly, so the command/reply
/// pairing is verified end to end; a concurrent runtime routes the same
/// commands over channels to a keeper thread and interprets the same replies.
pub struct TheDJ {
    registry: Registry,
    reporting: bool,
    sinks: Vec<u64>,
}

/// The decision taken on one tick of [`TheDJ`]'s wait-for-actives loop.
#[derive(Clone, Copy, Debug, PartialEq, Eq, Structural)]
pub enum PollStep {
    /// The running maximum has reached the target: the wait succeeds now.
    Ready,
    /// The deadline has passed: the wait fails with [`Error::DeadlineExceeded`].
    Expired,
    /// Keep waiting, carrying the updated running maximum to the next tick.
    Wait(usize),
}

/// The running maximum of observed active counts after one observation; an
/// observation of `None` (a failed active-roster query) leaves it unchanged.
pub open spec fn poll_updated_count(running_count: usize, observed: Option<usize>) -> usize {
    match observed {
        Option::Some(n) => if n >= running_count {
            n
        } else {
            running_count
        },
        Option::None => running_count,
    }
}

/// What one tick of the wait loop decides: deadline first, then the updated
/// running maximum against the target.
pub open spec fn spec_poll_step(
    count: usize,
    running_count: usize,
    observed: Option<usize>,
    timed_out: bool,
) -> PollStep {
    if timed_out {
        PollStep::Expired
    } else if poll_updated_count(running_count, observed) >= count {
        PollStep::Ready
    } else {
        PollStep::Wait(poll_updated_count(running_count, observed))
    }
}

/// One tick of the wait-for-actives loop, as a pure decision.
///
/// The caller owns the clock: it passes whether the deadline has passed and
/// what the active-roster query observed (`None` for a failed query), and it
/// sleeps between ticks. The running maximum only ever grows within a wait:
/// success is "best ever observed", not "currently observed".
pub fn block_poll_step(
    count: usize,
    running_count: usize,
    observed: Option<usize>,
    timed_out: bool,
) -> (step: PollStep)
    ensures
        step == spec_poll_step(count, running_count, observed, timed_out),
{
    if timed_out {
        return PollStep::Expired;
    }
    let updated = match observed {
        Some(n) => if n >= running_count {
            n
        } else {
            running_count
        },
        None => running_count,
    };
    if updated >= count {
        PollStep::Ready
    } else {
        PollStep::Wait(updated)
    }
}

/// Once the running maximum has reached the target, the very next tick
/// succeeds whatever is observed then: a later drop in the active count
/// cannot undo a reached target.
pub proof fn lemma_poll_ready_is_stable(count: usize, running_count: usize, observed: Option<usize>)
    requires
        running_count >= count,
    ensures
        spec_poll_step(count, running_count, observed, false) == PollStep::Ready,
{
}

/// The running maximum never decreases, whatever one tick observes.
pub proof fn lemma_poll_count_monotone(running_count: usize, observed: Option<usize>)
    ensures
        poll_updated_count(running_count, observed) >= running_count,
{
}

/// Once the deadline has passed, the tick reports expiry whatever was
/// observed: the wait returns [`Error::DeadlineExceeded`] and stops.
pub proof fn lemma_poll_deadline_expires(
    count: usize,
    running_count: usize,
    observed: Option<usize>,
)
    ensures
        spec_poll_step(count, running_count, observed, true) == PollStep::Expired,
{
}

impl TheDJ {
    /// The registry as this facade sees it.
    pub closed spec fn reg(&self) -> RegistryView {
        self.registry@
    }

    /// Whether a reporter was started alongside the keeper.
    pub closed spec fn reporting_enabled(&self) -> bool {
        self.reporting
    }

    /// The sink tokens registered with the reporter, in registration order:
    /// the order snapshots are delivered in.
    pub closed spec fn sink_tokens(&self) -> Seq<u64> {
        self.sinks@
    }

    /// The facade's registry is well-formed.
    pub open spec fn wf(&self) -> bool {
        self.reg().wf()
    }

    /// Starts the system without reporting: constructs the keeper's registry
    /// and completes the startup handshake before returning the facade.
    pub fn init() -> (result: Result<TheDJ, Error>)
        ensures
            result matches Ok(dj) && dj.wf() && dj.reg().is_empty() && dj.reg().next_id == 0
                && !dj.reporting_enabled() && dj.sink_tokens().len() == 0,
    {
        Self::init_core(false)
    }

    /// Starts the system with reporting: as [`TheDJ::init`], and sink
    /// registrations will be accepted.
    pub fn init_with_reporting() -> (result: Result<TheDJ, Error>)
        ensures
            result matches Ok(dj) && dj.wf() && dj.reg().is_empty() && dj.reg().next_id == 0
                && dj.reporting_enabled() && dj.sink_tokens().len() == 0,
    {
        Self::init_core(true)
    }

    fn init_core(should_report: bool) -> (result: Result<TheDJ, Error>)
        ensures
            result matches Ok(dj) && dj.wf() && dj.reg().is_empty() && dj.reg().next_id == 0
                && dj.reporting_enabled() == should_report && dj.sink_tokens().len() == 0,
    {
        let mut registry = Registry::new();
        let reply = deck_step(&mut registry, DM2Deck::Init);
        match interpret_init_reply(reply) {
            Ok(_view) => Ok(TheDJ { registry, reporting: should_report, sinks: Vec::new() }),
            Err(e) => Err(e),
        }
    }

    /// Registers a unit under `name` and hands back the [`Beat`] addressing
    /// its record. An empty `name` is rejected with
    /// [`Error::ValidationFailed`] before anything changes.
    pub fn spin_new(&mut self, name: String) -> (result: Result<Beat, Error>)
        requires
            old(self).wf(),
            name@.len() != 0 ==> old(self).reg().next_id < i32::MAX,
        ensures
            final(self).wf(),
            final(self).reporting_enabled() == old(self).reporting_enabled(),
            final(self).sink_tokens() == old(self).sink_tokens(),
            name@.len() == 0 ==> final(self).reg() == old(self).reg() && result == Err::<
                Beat,
                Error,
            >(Error::ValidationFailed),
            name@.len() != 0 ==> {
                &&& final(self).reg() =~~= old(self).reg().register(name@)
                &&& result matches Ok(beat) && beat.id as int == old(self).reg().next_id
                    && final(self).reg().contains_id(beat.id as int)
            },
    {
        let reply = deck_step(&mut self.registry, DM2Deck::Registration(name));
        match interpret_id_reply(reply) {
            Ok(id) => {
                proof {
                    crate::registry::lemma_register_allocates_fresh(old(self).reg(), name@);
                }
                Ok(Beat { id })
            },
            Err(e) => Err(e),
        }
    }

    /// Deregisters `id`: its record is removed if present. Removing an absent
    /// id is not an error at this layer, and no reply is awaited.
    pub fn unregister(&mut self, id: i32) -> (result: Result<(), Error>)
        requires
            old(self).wf(),
        ensures
            final(self).wf(),
            final(self).reporting_enabled() == old(self).reporting_enabled(),
            final(self).sink_tokens() == old(self).sink_tokens(),
            final(self).reg() =~~= old(self).reg().deregister(id as int),
            result == Ok::<(), Error>(()),
    {
        let _ = deck_step(&mut self.registry, DM2Deck::Deregistration(id));
        Ok(())
    }

    /// Emits one heartbeat addressed to `id`: the event is appended to that
    /// record's history by the keeper, the only writer. A heartbeat for an
    /// absent id changes nothing, and no reply is awaited.
    pub fn heartbeat(&mut self, id: i32, event: u64) -> (result: Result<(), Error>)
        requires
            old(self).wf(),
        ensures
            final(self).wf(),
            final(self).reporting_enabled() == old(self).reporting_enabled(),
            final(self).sink_tokens() == old(self).sink_tokens(),
            final(self).reg() =~~= old(self).reg().appended(id as int, event),
            result == Ok::<(), Error>(()),
    {
        let _ = deck_step(&mut self.registry, DM2Deck::Heartbeat(id, event));
        Ok(())
    }

    /// Reads the roster once, then deregisters every id on it.
    ///
    /// The list is snapshotted at the start and the removals are issued one
    /// by one, so the operation is not atomic: under concurrent registration
    /// a unit registered meanwhile may survive. On an empty registry the
    /// initial roster read fails and that error is returned unchanged.
    #[verifier::loop_isolation(false)]
    pub fn clear_all(&mut self) -> (result: Result<(), Error>)
        requires
            old(self).wf(),
        ensures
            final(self).wf(),
            final(self).reporting_enabled() == old(self).reporting_enabled(),
            final(self).sink_tokens() == old(self).sink_tokens(),
            old(self).reg().is_empty() ==> final(self).reg() == old(self).reg() && result == Err::<
                (),
                Error,
            >(Error::EmptyResult),
            !old(self).reg().is_empty() ==> (result == Ok::<(), Error>(())
                && final(self).reg().is_empty()
                && final(self).reg().next_id == old(self).reg().next_id),
    {
        let roster = match self.get_roster() {
            Ok(roster) => roster,
            Err(e) => {
                return Err(e);
            },
        };
        let ghost pre = self.reg();
        let n: usize = roster.len();
        proof {
            assert(roster_as_ints(roster@).len() == pre.ids().len());
            assert forall|k: int|
                0 <= k < n implies roster@[k] as int == (#[trigger] pre.records[k]).id by {
                assert(roster_as_ints(roster@)[k] == pre.ids()[k]);
            }
            assert(self.reg().records =~~= pre.records.subrange(0, n as int));
        }
        let mut i: usize = 0;
        while i < n
            invariant
                self.wf(),
                pre.wf(),
                i <= n,
                n == pre.records.len(),
                self.reporting == old(self).reporting,
                self.sinks == old(self).sinks,
                roster@.len() == n,
                forall|k: int| 0 <= k < n ==> roster@[k] as int == (#[trigger] pre.records[k]).id,
                self.reg().next_id == pre.next_id,
                self.reg().records =~~= pre.records.subrange(i as int, n as int),
            decreases n - i,
        {
            let ghost remaining = self.reg().records;
            let _ = deck_step(&mut self.registry, DM2Deck::Deregistration(roster[i]));
            proof {
                assert(remaining[0].id == roster@[i as int] as int);
                assert forall|k: int|
                    0 <= k < remaining.len() && k != 0 implies (#[trigger] remaining[k]).id
                    != roster@[i as int] as int by {
                    assert(remaining[k] == pre.records[i + k]);
                    assert(pre.records[i as int].id < pre.records[i + k].id);
                }
                crate::registry::lemma_remove_id_single(remaining, roster@[i as int] as int, 0);
                assert(remaining.remove(0) =~= pre.records.subrange(i + 1, n as int));
                assert(self.reg().records =~~= pre.records.subrange(i + 1, n as int));
            }
            i = i + 1;
        }
        proof {
            assert(self.reg().records.len() == 0);
        }
        Ok(())
    }

    /// Looks `id` up directly against the registry view — no keeper
    /// round-trip — and hands back a copy of its record, or
    /// [`Error::NotFound`] for an absent id.
    pub fn get_record(&self, id: i32) -> (result: Result<Record, Error>)
        requires
            self.wf(),
        ensures
            self.reg().contains_id(id as int) ==> (result matches Ok(record) && record@
                == self.reg().record_of(id as int)),
            !self.reg().contains_id(id as int) ==> result == Err::<Record, Error>(Error::NotFound),
    {
        self.registry.get_record(id)
    }

    /// Every registered id, in registration order — a direct read. An empty
    /// registry is reported as [`Error::EmptyResult`], not as an empty list.
    pub fn get_roster(&self) -> (result: Result<Vec<i32>, Error>)
        ensures
            self.reg().is_empty() ==> result == Err::<Vec<i32>, Error>(Error::EmptyResult),
            !self.reg().is_empty() ==> (result matches Ok(roster) && roster_as_ints(roster@)
                =~= self.reg().ids()),
    {
        self.registry.roster()
    }

    /// The ids whose records are active — history non-empty — in
    /// registration order; [`Error::EmptyResult`] when none is.
    pub fn get_roster_actives(&self) -> (result: Result<Vec<i32>, Error>)
        ensures
            self.reg().active_ids().len() == 0 ==> result == Err::<Vec<i32>, Error>(
                Error::EmptyResult,
            ),
            self.reg().active_ids().len() != 0 ==> (result matches Ok(roster)
                && roster_as_ints(roster@) =~= self.reg().active_ids()),
    {
        self.registry.roster_actives()
    }

    /// Registers an output sink with the reporter, by its token; snapshots
    /// are later delivered in registration order. When the system was started
    /// without reporting there is no reporter to receive the registration and
    /// the send fails with [`Error::SendFailed`].
    pub fn add_report(&mut self, sink: u64) -> (result: Result<(), Error>)
        ensures
            final(self).reg() == old(self).reg(),
            final(self).reporting_enabled() == old(self).reporting_enabled(),
            old(self).reporting_enabled() ==> (result == Ok::<(), Error>(())
                && final(self).sink_tokens() =~= old(self).sink_tokens().push(sink)),
            !old(self).reporting_enabled() ==> (result == Err::<(), Error>(Error::SendFailed)
                && final(self).sink_tokens() == old(self).sink_tokens()),
    {
        if !self.reporting {
            return Err(Error::SendFailed);
        }
        self.sinks.push(sink);
        Ok(())
    }
}

} // verus!
