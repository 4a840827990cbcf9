use vstd::prelude::*;

use crate::errors::Error;
use crate::record::{Record, RecordView};

verus! {

/// The ids of the active records in `records`, in record order.
pub open spec fn active_ids_of(records: Seq<RecordView>) -> Seq<int>
    decreases records.len(),
{
    if records.len() == 0 {
        Seq::empty()
    } else if records.last().is_active() {
        active_ids_of(records.drop_last()).push(records.last().id)
    } else {
        active_ids_of(records.drop_last())
    }
}

/// `records` with every record of the given id removed, order kept.
pub open spec fn remove_id_from(records: Seq<RecordView>, id: int) -> Seq<RecordView>
    decreases records.len(),
{
    if records.len() == 0 {
        Seq::empty()
    } else if records.last().id == id {
        remove_id_from(records.drop_last(), id)
    } else {
        remove_id_from(records.drop_last(), id).push(records.last())
    }
}

/// A roster, as handed to callers, read as a sequence of mathematical
/// integers.
pub open spec fn roster_as_ints(roster: Seq<i32>) -> Seq<int> {
    roster.map_values(|id: i32| id as int)
}

/// Mathematical image of the [`Registry`]: the record sequence in insertion
/// order, and the id the next registration will be assigned.
#[verifier::ext_equal]
pub struct RegistryView {
    pub records: Seq<RecordView>,
    pub next_id: int,
}

impl RegistryView {
    /// Ids are allocated in strictly increasing order and never reused, so a
    /// well-formed registry's records are sorted by id, every id is below the
    /// allocation cursor, and every record carries a non-empty label.
    pub open spec fn wf(self) -> bool {
        &&& forall|i: int, j: int|
            0 <= i < j < self.records.len() ==> self.records[i].id < self.records[j].id
        &&& forall|i: int| 0 <= i < self.records.len() ==> (#[trigger] self.records[i]).id < self.next_id
        &&& forall|i: int| 0 <= i < self.records.len() ==> (#[trigger] self.records[i]).wf()
        &&& 0 <= self.next_id
    }

    /// All registered ids, in record order: what the roster lists.
    pub open spec fn ids(self) -> Seq<int> {
        self.records.map_values(|r: RecordView| r.id)
    }

    /// The ids of the records whose history is non-empty, in record order.
    pub open spec fn active_ids(self) -> Seq<int> {
        active_ids_of(self.records)
    }

    /// Whether some record carries the given id.
    pub open spec fn contains_id(self, id: int) -> bool {
        exists|i: int| 0 <= i < self.records.len() && (#[trigger] self.records[i]).id == id
    }

    /// The position of the record carrying the given id.
    pub open spec fn index_of(self, id: int) -> int {
        choose|i: int| 0 <= i < self.records.len() && (#[trigger] self.records[i]).id == id
    }

    /// The record carrying the given id.
    pub open spec fn record_of(self, id: int) -> RecordView {
        self.records[self.index_of(id)]
    }

    /// Whether nothing is registered.
    pub open spec fn is_empty(self) -> bool {
        self.records.len() == 0
    }

    /// The registry after a successful registration under `name`: an
    /// empty-history record appended under the allocation cursor, and the
    /// cursor advanced.
    pub open spec fn register(self, name: Seq<char>) -> RegistryView {
        RegistryView {
            records: self.records.push(
                RecordView { id: self.next_id, name, history: Seq::empty() },
            ),
            next_id: self.next_id + 1,
        }
    }

    /// The registry after deregistration of `id`: the record gone if it was
    /// present, everything else untouched. Ids are never reallocated.
    pub open spec fn deregister(self, id: int) -> RegistryView {
        RegistryView { records: remove_id_from(self.records, id), next_id: self.next_id }
    }

    /// The registry after a heartbeat addressed to `id`: the event appended
    /// to that record's history; a heartbeat for an absent id changes nothing.
    pub open spec fn appended(self, id: int, event: u64) -> RegistryView {
        RegistryView {
            records: self.records.map_values(
                |r: RecordView|
                    if r.id == id {
                        RecordView { id: r.id, name: r.name, history: r.history.push(event) }
                    } else {
                        r
                    },
            ),
            next_id: self.next_id,
        }
    }

    /// What a roster query returns: every registered id, or [`Error::EmptyResult`]
    /// when nothing is registered — an empty roster is an error, not an empty list.
    pub open spec fn roster_result(self) -> Result<Seq<int>, Error> {
        if self.is_empty() {
            Err(Error::EmptyResult)
        } else {
            Ok(self.ids())
        }
    }

    /// What an active-roster query returns: the ids of the active records, or
    /// [`Error::EmptyResult`] when none is active.
    pub open spec fn actives_result(self) -> Result<Seq<int>, Error> {
        if self.active_ids().len() == 0 {
            Err(Error::EmptyResult)
        } else {
            Ok(self.active_ids())
        }
    }

    /// What a single-record query returns: the record, or [`Error::NotFound`]
    /// for an absent id.
    pub open spec fn record_result(self, id: int) -> Result<RecordView, Error> {
        if self.contains_id(id) {
            Ok(self.record_of(id))
        } else {
            Err(Error::NotFound)
        }
    }
}

/// The canonical record map: id-keyed, owned and mutated by exactly one
/// keeper, read by everyone else through consistent snapshots.
///
/// Records are kept in insertion order, which by monotonic id allocation is
/// strictly increasing id order.
#[derive(Debug)]
pub struct Registry {
    records: Vec<Record>,
    next_id: i32,
}

impl View for Registry {
    type V = RegistryView;

    closed spec fn view(&self) -> RegistryView {
        RegistryView {
            records: self.records@.map_values(|r: Record| r@),
            next_id: self.next_id as int,
        }
    }
}

impl Registry {
    /// A fresh, empty registry whose first allocated id will be 0.
    pub fn new() -> (registry: Registry)
        ensures
            registry@.wf(),
            registry@.is_empty(),
            registry@.next_id == 0,
    {
        Registry { records: Vec::new(), next_id: 0 }
    }

    /// Whether the id space is spent: ids are allocated monotonically and
    /// never reused, so after the largest id no registration can be accepted
    /// for the rest of the process lifetime. Callers test this before asking
    /// for a registration.
    pub fn at_id_capacity(&self) -> (full: bool)
        ensures
            full == (self@.next_id == i32::MAX),
    {
        self.next_id == i32::MAX
    }

    /// Registers a unit under `name`: allocates the next id, inserts an
    /// empty-history record for it and returns the id. An empty `name` is
    /// rejected outright and nothing changes.
    pub fn register(&mut self, name: String) -> (result: Result<i32, Error>)
        requires
            old(self)@.wf(),
            name@.len() != 0 ==> old(self)@.next_id < i32::MAX,
        ensures
            final(self)@.wf(),
            name@.len() == 0 ==> final(self)@ == old(self)@ && result == Err::<i32, Error>(
                Error::ValidationFailed,
            ),
            name@.len() != 0 ==> {
                &&& final(self)@ =~~= old(self)@.register(name@)
                &&& result matches Ok(id) && id as int == old(self)@.next_id
            },
    {
        if name.as_str().is_empty() {
            return Err(Error::ValidationFailed);
        }
        let id: i32 = self.next_id;
        self.next_id = self.next_id + 1;
        let record = Record { id, name, history: Vec::new() };
        self.records.push(record);
        proof {
            let pre = old(self)@;
            let post = self@;
            assert(post.records =~= pre.records.push(
                RecordView { id: pre.next_id, name: name@, history: Seq::empty() },
            ));
            assert(post =~~= pre.register(name@));
            assert forall|i: int, j: int|
                0 <= i < j < post.records.len() implies post.records[i].id < post.records[j].id by {
                if j < pre.records.len() as int {
                } else {
                    assert(post.records[j].id == pre.next_id);
                }
            }
            assert(post.wf());
        }
        Ok(id)
    }

    /// Deregisters `id`: removes its record if present; removing an absent id
    /// changes nothing and is not an error.
    #[verifier::loop_isolation(false)]
    pub fn deregister(&mut self, id: i32)
        requires
            old(self)@.wf(),
        ensures
            final(self)@.wf(),
            final(self)@ =~~= old(self)@.deregister(id as int),
    {
        let ghost pre = self@;
        let mut i: usize = 0;
        while i < self.records.len()
            invariant
                self@ == pre,
                pre.wf(),
                i <= pre.records.len(),
                forall|k: int| 0 <= k < i ==> (#[trigger] pre.records[k]).id != id as int,
            decreases pre.records.len() - i,
        {
            if self.records[i].id == id {
                self.records.remove(i);
                proof {
                    lemma_remove_id_single(pre.records, id as int, i as int);
                    assert(self@.records =~= pre.records.remove(i as int));
                    assert(self@ =~~= pre.deregister(id as int));
                    lemma_remove_preserves_wf(pre, id as int);
                }
                return ;
            }
            i = i + 1;
        }
        proof {
            lemma_remove_id_absent(pre.records, id as int);
            assert(self@ =~~= pre.deregister(id as int));
        }
    }

    /// Routes a heartbeat to the record carrying `id`, appending `event` to
    /// its history; a heartbeat for an absent id changes nothing.
    #[verifier::loop_isolation(false)]
    pub fn append_event(&mut self, id: i32, event: u64)
        requires
            old(self)@.wf(),
        ensures
            final(self)@.wf(),
            final(self)@ =~~= old(self)@.appended(id as int, event),
    {
        let ghost pre = self@;
        let mut i: usize = 0;
        while i < self.records.len()
            invariant
                self@ == pre,
                pre.wf(),
                i <= pre.records.len(),
                forall|k: int| 0 <= k < i ==> (#[trigger] pre.records[k]).id != id as int,
            decreases pre.records.len() - i,
        {
            if self.records[i].id == id {
                let mut record = self.records.remove(i);
                record.history.push(event);
                self.records.insert(i, record);
                proof {
                    assert(self@.records =~= pre.records.update(
                        i as int,
                        RecordView {
                            id: pre.records[i as int].id,
                            name: pre.records[i as int].name,
                            history: pre.records[i as int].history.push(event),
                        },
                    ));
                    assert forall|k: int|
                        0 <= k < pre.records.len() implies self@.records[k]
                        == pre.appended(id as int, event).records[k] by {
                        if k != i as int {
                            assert(pre.records[k].id != id as int);
                        }
                    }
                    assert(self@ =~~= pre.appended(id as int, event));
                    assert(self@.wf());
                }
                return ;
            }
            i = i + 1;
        }
        proof {
            assert forall|k: int|
                0 <= k < pre.records.len() implies self@.records[k]
                == pre.appended(id as int, event).records[k] by {
                assert(pre.records[k].id != id as int);
            }
            assert(self@ =~~= pre.appended(id as int, event));
        }
    }

    /// Looks up `id` directly against this view of the registry and hands back
    /// a copy of its record, or [`Error::NotFound`] for an absent id.
    #[verifier::loop_isolation(false)]
    pub fn get_record(&self, id: i32) -> (result: Result<Record, Error>)
        requires
            self@.wf(),
        ensures
            self@.contains_id(id as int) ==> (result matches Ok(record)
                && record@ == self@.record_of(id as int)),
            !self@.contains_id(id as int) ==> result == Err::<Record, Error>(Error::NotFound),
            result matches Ok(record) ==> self@.record_result(id as int) == Ok::<
                RecordView,
                Error,
            >(record@),
    {
        let mut i: usize = 0;
        while i < self.records.len()
            invariant
                self@.wf(),
                i <= self@.records.len(),
                forall|k: int| 0 <= k < i ==> (#[trigger] self@.records[k]).id != id as int,
            decreases self@.records.len() - i,
        {
            if self.records[i].id == id {
                let record = self.records[i].duplicate();
                proof {
                    assert(self@.records[i as int].id == id as int);
                    assert(self@.contains_id(id as int));
                    let found = self@.index_of(id as int);
                    assert(0 <= found < self@.records.len() && self@.records[found].id == id as int);
                    if found < i as int {
                        assert(self@.records[found].id != id as int);
                    } else if found > i as int {
                        assert(self@.records[i as int].id < self@.records[found].id);
                    }
                    assert(found == i as int);
                }
                return Ok(record);
            }
            i = i + 1;
        }
        Err(Error::NotFound)
    }

    /// Every registered id, in record order; [`Error::EmptyResult`] when the
    /// registry is empty.
    #[verifier::loop_isolation(false)]
    pub fn roster(&self) -> (result: Result<Vec<i32>, Error>)
        ensures
            self@.is_empty() ==> result == Err::<Vec<i32>, Error>(Error::EmptyResult),
            !self@.is_empty() ==> (result matches Ok(roster) && roster_as_ints(roster@)
                =~= self@.ids()),
    {
        let mut roster: Vec<i32> = Vec::new();
        let mut i: usize = 0;
        while i < self.records.len()
            invariant
                i <= self@.records.len(),
                roster@.len() == i,
                forall|k: int| 0 <= k < i ==> roster@[k] as int == (#[trigger] self@.records[k]).id,
            decreases self@.records.len() - i,
        {
            roster.push(self.records[i].id);
            i = i + 1;
        }
        if roster.is_empty() {
            return Err(Error::EmptyResult);
        }
        proof {
            assert(roster_as_ints(roster@) =~= self@.ids());
        }
        Ok(roster)
    }

    /// The ids of the records whose history is non-empty, in record order;
    /// [`Error::EmptyResult`] when no record is active.
    #[verifier::loop_isolation(false)]
    pub fn roster_actives(&self) -> (result: Result<Vec<i32>, Error>)
        ensures
            self@.active_ids().len() == 0 ==> result == Err::<Vec<i32>, Error>(Error::EmptyResult),
            self@.active_ids().len() != 0 ==> (result matches Ok(roster) && roster_as_ints(roster@)
                =~= self@.active_ids()),
    {
        let mut roster: Vec<i32> = Vec::new();
        let mut i: usize = 0;
        while i < self.records.len()
            invariant
                i <= self@.records.len(),
                roster_as_ints(roster@) =~= active_ids_of(self@.records.subrange(0, i as int)),
            decreases self@.records.len() - i,
        {
            let ghost before = self@.records.subrange(0, i as int);
            if self.records[i].is_active() {
                roster.push(self.records[i].id);
            }
            proof {
                let after = self@.records.subrange(0, i + 1);
                assert(after.drop_last() =~= before);
                assert(after.last() == self@.records[i as int]);
                assert(roster_as_ints(roster@) =~= active_ids_of(after));
            }
            i = i + 1;
        }
        proof {
            assert(self@.records.subrange(0, self@.records.len() as int) =~= self@.records);
        }
        if roster.is_empty() {
            return Err(Error::EmptyResult);
        }
        Ok(roster)
    }

    /// An independent copy of the whole registry: the consistent snapshot the
    /// keeper publishes to readers and the reporter hands to its sinks.
    #[verifier::loop_isolation(false)]
    pub fn snapshot(&self) -> (copy: Registry)
        ensures
            copy@ == self@,
    {
        let mut records: Vec<Record> = Vec::new();
        let mut i: usize = 0;
        while i < self.records.len()
            invariant
                i <= self@.records.len(),
                records@.len() == i,
                forall|k: int| 0 <= k < i ==> (#[trigger] records@[k])@ == self@.records[k],
            decreases self@.records.len() - i,
        {
            records.push(self.records[i].duplicate());
            i = i + 1;
        }
        let copy = Registry { records, next_id: self.next_id };
        proof {
            assert forall|k: int|
                0 <= k < self@.records.len() implies copy@.records[k] == self@.records[k] by {
                assert(copy@.records[k] == records@[k]@);
            }
            assert(copy@.records =~= self@.records);
            assert(copy@ =~~= self@);
        }
        copy
    }
}

/// An id is held by some record exactly when the roster lists it: what
/// membership in the registry means for a roster query.
pub proof fn lemma_contains_iff_roster(registry: RegistryView, id: int)
    ensures
        registry.contains_id(id) <==> registry.ids().contains(id),
{
    if registry.contains_id(id) {
        let i = choose|i: int|
            0 <= i < registry.records.len() && (#[trigger] registry.records[i]).id == id;
        assert(registry.ids()[i] == id);
    }
    if registry.ids().contains(id) {
        let i = choose|i: int| 0 <= i < registry.ids().len() && registry.ids()[i] == id;
        assert(registry.records[i].id == id);
    }
}

/// Registration allocates a fresh id: the allocation cursor's value was held
/// by no record, the new record holds it, and the cursor strictly advances —
/// so any sequence of registrations through the sole writer yields pairwise
/// distinct ids.
pub proof fn lemma_register_allocates_fresh(registry: RegistryView, name: Seq<char>)
    requires
        registry.wf(),
    ensures
        !registry.contains_id(registry.next_id),
        registry.register(name).contains_id(registry.next_id),
        registry.register(name).next_id == registry.next_id + 1,
{
    let post = registry.register(name);
    assert(post.records[registry.records.len() as int].id == registry.next_id);
}

/// A well-formed registry holds no id twice: distinct roster positions list
/// distinct ids.
pub proof fn lemma_ids_distinct(registry: RegistryView, i: int, j: int)
    requires
        registry.wf(),
        0 <= i < j < registry.ids().len(),
    ensures
        registry.ids()[i] != registry.ids()[j],
{
    assert(registry.records[i].id < registry.records[j].id);
}

/// Registration under a non-empty name puts the new id on the roster: the
/// roster query on the new state succeeds and lists the assigned id.
pub proof fn lemma_registered_id_in_roster(registry: RegistryView, name: Seq<char>)
    requires
        registry.wf(),
        name.len() != 0,
    ensures
        registry.register(name).wf(),
        registry.register(name).roster_result() matches Ok(roster) && roster.contains(
            registry.next_id,
        ),
{
    let post = registry.register(name);
    let last = registry.records.len() as int;
    assert(post.records[last].id == registry.next_id);
    assert forall|i: int, j: int|
        0 <= i < j < post.records.len() implies post.records[i].id < post.records[j].id by {
        if j == last {
            assert(post.records[i] == registry.records[i]);
        }
    }
    assert(post.wf());
    assert(post.ids()[last] == registry.next_id);
    assert(post.ids().contains(registry.next_id));
}

/// After deregistration of an id, that id is gone: a record query for it is
/// owed [`Error::NotFound`] and no roster position lists it.
pub proof fn lemma_deregister_removes(registry: RegistryView, id: int)
    requires
        registry.wf(),
    ensures
        registry.deregister(id).wf(),
        !registry.deregister(id).contains_id(id),
        !registry.deregister(id).ids().contains(id),
        registry.deregister(id).record_result(id) == Err::<RecordView, Error>(Error::NotFound),
{
    lemma_remove_preserves_wf(registry, id);
    lemma_remove_id_membership(registry.records, id);
    lemma_contains_iff_roster(registry.deregister(id), id);
}

/// An id is listed by the active roster exactly when a record holds it and
/// that record's history is non-empty.
pub proof fn lemma_active_ids_membership(records: Seq<RecordView>, id: int)
    ensures
        active_ids_of(records).contains(id) <==> exists|k: int|
            0 <= k < records.len() && (#[trigger] records[k]).id == id && records[k].is_active(),
    decreases records.len(),
{
    if records.len() > 0 {
        lemma_active_ids_membership(records.drop_last(), id);
        let prefix = active_ids_of(records.drop_last());
        if active_ids_of(records).contains(id) {
            if records.last().is_active() && records.last().id == id {
                assert(records[records.len() - 1].id == id);
            } else {
                assert(prefix.contains(id)) by {
                    let p = choose|p: int|
                        0 <= p < active_ids_of(records).len() && active_ids_of(records)[p] == id;
                    if records.last().is_active() {
                        assert(p < prefix.len());
                        assert(prefix[p] == id);
                    }
                }
                let k = choose|k: int|
                    0 <= k < records.drop_last().len() && (#[trigger] records.drop_last()[k]).id
                        == id && records.drop_last()[k].is_active();
                assert(records[k].id == id && records[k].is_active());
            }
        }
        if exists|k: int|
            0 <= k < records.len() && (#[trigger] records[k]).id == id && records[k].is_active() {
            let k = choose|k: int|
                0 <= k < records.len() && (#[trigger] records[k]).id == id
                    && records[k].is_active();
            if k == records.len() - 1 {
                assert(active_ids_of(records).last() == id);
            } else {
                assert(records.drop_last()[k].id == id && records.drop_last()[k].is_active());
                assert(prefix.contains(id));
                let p = choose|p: int| 0 <= p < prefix.len() && prefix[p] == id;
                assert(active_ids_of(records)[p] == id);
            }
        }
    }
}

/// A freshly registered record is not yet active: its history is empty, so
/// registration leaves the active roster exactly as it was and the new id is
/// not on it.
pub proof fn lemma_fresh_registration_inactive(registry: RegistryView, name: Seq<char>)
    requires
        registry.wf(),
    ensures
        registry.register(name).active_ids() =~= registry.active_ids(),
        !registry.register(name).active_ids().contains(registry.next_id),
{
    let post = registry.register(name);
    assert(post.records.drop_last() =~= registry.records);
    assert(!post.records.last().is_active());
    assert(post.active_ids() =~= registry.active_ids());
    lemma_active_ids_membership(registry.records, registry.next_id);
    if registry.active_ids().contains(registry.next_id) {
        let k = choose|k: int|
            0 <= k < registry.records.len() && (#[trigger] registry.records[k]).id
                == registry.next_id && registry.records[k].is_active();
        assert(registry.records[k].id < registry.next_id);
    }
}

/// An empty registry's roster query is owed [`Error::EmptyResult`]: clearing
/// every record and asking for the roster right away fails with that kind.
pub proof fn lemma_empty_roster_is_error(registry: RegistryView)
    requires
        registry.is_empty(),
    ensures
        registry.roster_result() == Err::<Seq<int>, Error>(Error::EmptyResult),
{
}

/// Removing an id that occurs nowhere in `records` changes nothing.
proof fn lemma_remove_id_absent(records: Seq<RecordView>, id: int)
    requires
        forall|k: int| 0 <= k < records.len() ==> (#[trigger] records[k]).id != id,
    ensures
        remove_id_from(records, id) =~= records,
    decreases records.len(),
{
    if records.len() > 0 {
        lemma_remove_id_absent(records.drop_last(), id);
        assert(remove_id_from(records, id) =~= records.drop_last().push(records.last()));
        assert(records.drop_last().push(records.last()) =~= records);
    }
}

/// When `j` is the only position holding `id`, removing the id is removing
/// that one record.
pub(crate) proof fn lemma_remove_id_single(records: Seq<RecordView>, id: int, j: int)
    requires
        0 <= j < records.len(),
        records[j].id == id,
        forall|k: int| 0 <= k < records.len() && k != j ==> (#[trigger] records[k]).id != id,
    ensures
        remove_id_from(records, id) =~= records.remove(j),
    decreases records.len(),
{
    if j == records.len() - 1 {
        lemma_remove_id_absent(records.drop_last(), id);
        assert(records.remove(j) =~= records.drop_last());
    } else {
        lemma_remove_id_single(records.drop_last(), id, j);
        assert(records.last().id != id);
        assert(remove_id_from(records, id) =~= records.drop_last().remove(j).push(records.last()));
        assert(records.drop_last().remove(j).push(records.last()) =~= records.remove(j));
    }
}

/// Deregistration preserves well-formedness: it keeps a subsequence of the
/// records, in order.
proof fn lemma_remove_preserves_wf(registry: RegistryView, id: int)
    requires
        registry.wf(),
    ensures
        registry.deregister(id).wf(),
{
    lemma_remove_id_membership(registry.records, id);
    let kept = remove_id_from(registry.records, id);
    assert forall|i: int, j: int| 0 <= i < j < kept.len() implies kept[i].id < kept[j].id by {
        lemma_remove_id_order(registry.records, id, i, j);
    }
    assert forall|i: int| 0 <= i < kept.len() implies (#[trigger] kept[i]).id < registry.next_id by {
        assert(registry.records.contains(kept[i]));
        let k = choose|k: int| 0 <= k < registry.records.len() && registry.records[k] == kept[i];
        assert(registry.records[k].id < registry.next_id);
    }
    assert forall|i: int| 0 <= i < kept.len() implies (#[trigger] kept[i]).wf() by {
        assert(registry.records.contains(kept[i]));
        let k = choose|k: int| 0 <= k < registry.records.len() && registry.records[k] == kept[i];
        assert(registry.records[k].wf());
    }
}

/// Every record that survives the removal of an id stood in the input
/// sequence, and none of the survivors carries the removed id.
proof fn lemma_remove_id_membership(records: Seq<RecordView>, id: int)
    ensures
        forall|i: int|
            0 <= i < remove_id_from(records, id).len() ==> records.contains(
                #[trigger] remove_id_from(records, id)[i],
            ),
        forall|i: int|
            0 <= i < remove_id_from(records, id).len() ==> (#[trigger] remove_id_from(records, id)[i]).id
                != id,
    decreases records.len(),
{
    if records.len() > 0 {
        lemma_remove_id_membership(records.drop_last(), id);
        let kept = remove_id_from(records, id);
        let prefix = remove_id_from(records.drop_last(), id);
        assert forall|i: int|
            0 <= i < kept.len() implies records.contains(#[trigger] kept[i]) && kept[i].id
            != id by {
            if records.last().id != id && i == prefix.len() {
                assert(kept[i] == records.last());
                assert(records[records.len() - 1] == records.last());
                assert(records.contains(records.last()));
            } else {
                assert(kept[i] == prefix[i]);
                assert(records.drop_last().contains(prefix[i]));
                let k = choose|k: int|
                    0 <= k < records.drop_last().len() && records.drop_last()[k] == prefix[i];
                assert(records[k] == prefix[i]);
                assert(records.contains(prefix[i]));
            }
        }
    }
}

/// Survivors of a removal keep their relative order, hence their sortedness.
proof fn lemma_remove_id_order(records: Seq<RecordView>, id: int, i: int, j: int)
    requires
        forall|a: int, b: int| 0 <= a < b < records.len() ==> records[a].id < records[b].id,
        0 <= i < j < remove_id_from(records, id).len(),
    ensures
        remove_id_from(records, id)[i].id < remove_id_from(records, id)[j].id,
    decreases records.len(),
{
    if records.len() > 0 {
        let kept = remove_id_from(records, id);
        let prefix = remove_id_from(records.drop_last(), id);
        lemma_remove_id_membership(records.drop_last(), id);
        if records.last().id == id {
            lemma_remove_id_order(records.drop_last(), id, i, j);
        } else {
            if j < prefix.len() {
                lemma_remove_id_order(records.drop_last(), id, i, j);
            } else {
                assert(kept[j] == records.last());
                assert(records.drop_last().contains(prefix[i]));
                let k = choose|k: int|
                    0 <= k < records.drop_last().len() && records.drop_last()[k] == prefix[i];
                assert(records[k] == prefix[i]);
                assert(records[k].id < records.last().id);
            }
        }
    }
}

} // verus!
