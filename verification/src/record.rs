use vstd::prelude::*;

verus! {

/// Mathematical image of a [`Record`]: its id, label and heartbeat history.
#[verifier::ext_equal]
pub struct RecordView {
    pub id: int,
    pub name: Seq<char>,
    pub history: Seq<u64>,
}

impl RecordView {
    /// A record is active once its history holds at least one heartbeat.
    pub open spec fn is_active(self) -> bool {
        self.history.len() > 0
    }

    /// A well-formed record carries a non-empty label.
    pub open spec fn wf(self) -> bool {
        self.name.len() > 0
    }
}

/// One registered, trackable unit: a unique id assigned at registration, the
/// caller-supplied label, and the append-only sequence of heartbeat events.
///
/// Only the keeper mutates a record; readers see consistent snapshots.
#[derive(Debug)]
pub struct Record {
    pub id: i32,
    pub name: String,
    pub history: Vec<u64>,
}

impl View for Record {
    type V = RecordView;

    open spec fn view(&self) -> RecordView {
        RecordView { id: self.id as int, name: self.name@, history: self.history@ }
    }
}

impl Record {
    /// Whether this record has produced at least one heartbeat.
    pub fn is_active(&self) -> (active: bool)
        ensures
            active == self@.is_active(),
    {
        self.history.len() > 0
    }

    /// An independent copy of this record, for handing snapshots to readers.
    pub fn duplicate(&self) -> (copy: Record)
        ensures
            copy@ == self@,
    {
        let mut history: Vec<u64> = Vec::new();
        let mut i: usize = 0;
        while i < self.history.len()
            invariant
                i <= self.history@.len(),
                history@ == self.history@.subrange(0, i as int),
            decreases self.history@.len() - i,
        {
            history.push(self.history[i]);
            proof {
                assert(self.history@.subrange(0, i + 1)
                    =~= self.history@.subrange(0, i as int).push(self.history@[i as int]));
            }
            i = i + 1;
        }
        proof {
            assert(history@ =~= self.history@);
        }
        Record { id: self.id, name: self.name.clone(), history }
    }
}

/// The caller-held handle returned by registration: a capability to address
/// one record by its id. It does not own the record.
///
/// A concurrent runtime pairs the handle with a clone of the keeper's command
/// channel so that its holder can emit further heartbeats directly.
#[derive(Clone, Copy, Debug, PartialEq, Eq, Structural)]
pub struct Beat {
    pub id: i32,
}

} // verus!
