//! The split-tagged dataset store: writing a full labeled run and reading it
//! back by split.
//!
//! The store keeps at most one committed snapshot, the two splits in
//! insertion order, and at most one pending snapshot that a writer is
//! filling.  Commit is a discrete step: nothing of a pending write is
//! visible to a reader until `commit`, and a writer that never commits
//! leaves the previously committed snapshot untouched.  A run writes the
//! whole dataset anew: opening the writer starts from empty, so a commit
//! replaces the prior snapshot wholesale.  The backing persistence (a
//! database file) lives outside the library; this model is the contract it
//! is held to.

use std::collections::HashMap;
use vstd::prelude::*;

use crate::data_structs::TrimmedTrack;

verus! {

broadcast use vstd::std_specs::hash::group_hash_axioms;

/// Split tag of a persisted record: labeled tracks train, the rest test.
#[derive(Clone, Copy, PartialEq, Eq, Structural, Debug)]
pub enum Split {
    Train,
    Test,
}

/// Why a write run failed.
#[derive(Clone, Copy, PartialEq, Eq, Structural, Debug)]
pub enum WriteError {
    /// The record list and the label list were not index-aligned.
    PreconditionViolated,
}

/// Why opening a split for reading failed.
#[derive(Clone, Copy, PartialEq, Eq, Structural, Debug)]
pub enum DatasetError {
    /// The store holds no committed snapshot.
    SplitNotFound,
}

/// The split that a label assignment maps a record to.
pub open spec fn split_of(label: Option<u32>) -> Split {
    if label is Some {
        Split::Train
    } else {
        Split::Test
    }
}

impl Split {
    /// The split's tag in the persistent store.
    pub fn tag(self) -> (r: &'static str)
        ensures
            self is Train ==> r@ == "train"@,
            self is Test ==> r@ == "test"@,
    {
        match self {
            Split::Train => "train",
            Split::Test => "test",
        }
    }
}

/// The split that a label assignment maps a record to, decided at run time.
pub fn split_for_label(label: Option<u32>) -> (r: Split)
    ensures
        r == split_of(label),
{
    match label {
        Some(_) => Split::Train,
        None => Split::Test,
    }
}

/// One stored item: a flattened track and its category index — the assigned
/// 1-based category for a train record, 0 for an unlabeled test record.
#[derive(PartialEq, Debug)]
pub struct TrackClassificationItem {
    pub track: TrimmedTrack,
    pub label: usize,
}

impl TrackClassificationItem {
    pub fn new(track: TrimmedTrack, label: usize) -> (r: Self)
        ensures
            r.track == track,
            r.label == label,
    {
        TrackClassificationItem { track, label }
    }
}

/// The item stored for a record and its label.
pub open spec fn entry_of(track: TrimmedTrack, label: Option<u32>) -> TrackClassificationItem {
    TrackClassificationItem {
        track,
        label: match label {
            Some(c) => c as usize,
            None => 0,
        },
    }
}

/// The items of one split, in insertion order, for an index-aligned run of
/// records and labels.
pub open spec fn split_items(
    records: Seq<TrimmedTrack>,
    labels: Seq<Option<u32>>,
    split: Split,
) -> Seq<TrackClassificationItem>
    decreases records.len(),
{
    if records.len() == 0 || labels.len() == 0 {
        Seq::empty()
    } else {
        let rest = split_items(records.drop_last(), labels.drop_last(), split);
        if split_of(labels.last()) == split {
            rest.push(entry_of(records.last(), labels.last()))
        } else {
            rest
        }
    }
}

/// The number of assigned labels.
pub open spec fn count_labeled(labels: Seq<Option<u32>>) -> int
    decreases labels.len(),
{
    if labels.len() == 0 {
        0
    } else {
        count_labeled(labels.drop_last()) + if labels.last() is Some {
            1int
        } else {
            0int
        }
    }
}

/// The in-memory model of the persistent split store.
pub struct SplitStore {
    committed_valid: bool,
    committed_train: Vec<TrackClassificationItem>,
    committed_test: Vec<TrackClassificationItem>,
    writer_open: bool,
    pending_train: Vec<TrackClassificationItem>,
    pending_test: Vec<TrackClassificationItem>,
}

impl SplitStore {
    /// Whether the store holds a committed snapshot.
    pub closed spec fn is_committed(self) -> bool {
        self.committed_valid
    }

    /// The committed train split, in insertion order.
    pub closed spec fn committed_train(self) -> Seq<TrackClassificationItem> {
        self.committed_train@
    }

    /// The committed test split, in insertion order.
    pub closed spec fn committed_test(self) -> Seq<TrackClassificationItem> {
        self.committed_test@
    }

    /// Whether a writer is open (a pending snapshot is being filled).
    pub closed spec fn writer_open(self) -> bool {
        self.writer_open
    }

    /// The pending train split.
    pub closed spec fn pending_train(self) -> Seq<TrackClassificationItem> {
        self.pending_train@
    }

    /// The pending test split.
    pub closed spec fn pending_test(self) -> Seq<TrackClassificationItem> {
        self.pending_test@
    }

    /// A store with nothing committed and no writer open.
    pub fn new() -> (s: Self)
        ensures
            !s.is_committed(),
            !s.writer_open(),
    {
        SplitStore {
            committed_valid: false,
            committed_train: Vec::new(),
            committed_test: Vec::new(),
            writer_open: false,
            pending_train: Vec::new(),
            pending_test: Vec::new(),
        }
    }

    /// Opens the store for a full overwrite: a fresh, empty pending
    /// snapshot.  What was committed before stays untouched and readable.
    pub fn open_writer(&mut self)
        ensures
            final(self).writer_open(),
            final(self).pending_train() == Seq::<TrackClassificationItem>::empty(),
            final(self).pending_test() == Seq::<TrackClassificationItem>::empty(),
            final(self).is_committed() == old(self).is_committed(),
            final(self).committed_train() == old(self).committed_train(),
            final(self).committed_test() == old(self).committed_test(),
    {
        self.writer_open = true;
        self.pending_train = Vec::new();
        self.pending_test = Vec::new();
    }

    /// Appends one item to the pending snapshot under its split.  Nothing
    /// committed changes.
    pub fn write_entry(&mut self, split: Split, item: TrackClassificationItem)
        requires
            old(self).writer_open(),
        ensures
            final(self).writer_open(),
            split is Train ==> final(self).pending_train() == old(self).pending_train().push(
                item,
            ) && final(self).pending_test() == old(self).pending_test(),
            split is Test ==> final(self).pending_test() == old(self).pending_test().push(item)
                && final(self).pending_train() == old(self).pending_train(),
            final(self).is_committed() == old(self).is_committed(),
            final(self).committed_train() == old(self).committed_train(),
            final(self).committed_test() == old(self).committed_test(),
    {
        match split {
            Split::Train => self.pending_train.push(item),
            Split::Test => self.pending_test.push(item),
        }
    }

    /// Drops an open writer without committing: the pending snapshot is
    /// discarded and what was committed before stays as it was.
    pub fn abort_writer(&mut self)
        ensures
            !final(self).writer_open(),
            final(self).is_committed() == old(self).is_committed(),
            final(self).committed_train() == old(self).committed_train(),
            final(self).committed_test() == old(self).committed_test(),
    {
        self.writer_open = false;
        self.pending_train = Vec::new();
        self.pending_test = Vec::new();
    }

    /// Commits the pending snapshot: in one discrete step it replaces
    /// whatever was committed before, and the writer is closed.
    pub fn commit(&mut self)
        requires
            old(self).writer_open(),
        ensures
            !final(self).writer_open(),
            final(self).is_committed(),
            final(self).committed_train() == old(self).pending_train(),
            final(self).committed_test() == old(self).pending_test(),
    {
        core::mem::swap(&mut self.committed_train, &mut self.pending_train);
        core::mem::swap(&mut self.committed_test, &mut self.pending_test);
        self.committed_valid = true;
        self.writer_open = false;
        self.pending_train = Vec::new();
        self.pending_test = Vec::new();
    }
}

/// One step of the write loop: taking record `i` into its split extends
/// exactly that split's item sequence.
proof fn lemma_split_items_step(
    records: Seq<TrimmedTrack>,
    labels: Seq<Option<u32>>,
    i: int,
    split: Split,
)
    requires
        records.len() == labels.len(),
        0 <= i < records.len(),
    ensures
        split_items(records.take(i + 1), labels.take(i + 1), split) == if split_of(labels[i])
            == split {
            split_items(records.take(i), labels.take(i), split).push(
                entry_of(records[i], labels[i]),
            )
        } else {
            split_items(records.take(i), labels.take(i), split)
        },
{
    assert(records.take(i + 1).drop_last() =~= records.take(i));
    assert(labels.take(i + 1).drop_last() =~= labels.take(i));
    assert(records.take(i + 1).last() == records[i]);
    assert(labels.take(i + 1).last() == labels[i]);
}

/// Writes one full run into the store: every record under the split its
/// label decides, then one commit.  Fails, changing nothing, exactly when
/// the record list and the label list are not index-aligned.
#[verifier::loop_isolation(false)]
pub fn write_to_db(
    store: &mut SplitStore,
    motherlist: Vec<TrimmedTrack>,
    labels: &Vec<Option<u32>>,
) -> (r: Result<(), WriteError>)
    ensures
        r is Ok <==> motherlist@.len() == labels@.len(),
        r matches Err(e) ==> e == WriteError::PreconditionViolated && *final(store) == *old(
            store,
        ),
        r is Ok ==> {
            &&& final(store).is_committed()
            &&& !final(store).writer_open()
            &&& final(store).committed_train() == split_items(motherlist@, labels@, Split::Train)
            &&& final(store).committed_test() == split_items(motherlist@, labels@, Split::Test)
        },
{
    if motherlist.len() != labels.len() {
        return Err(WriteError::PreconditionViolated);
    }
    let ghost records_in = motherlist@;
    store.open_writer();
    let mut records = motherlist;
    let mut i: usize = 0;
    while records.len() > 0
        invariant
            store.writer_open(),
            store.is_committed() == old(store).is_committed(),
            store.committed_train() == old(store).committed_train(),
            store.committed_test() == old(store).committed_test(),
            i + records@.len() == records_in.len(),
            records@ == records_in.skip(i as int),
            store.pending_train() == split_items(
                records_in.take(i as int),
                labels@.take(i as int),
                Split::Train,
            ),
            store.pending_test() == split_items(
                records_in.take(i as int),
                labels@.take(i as int),
                Split::Test,
            ),
        decreases records@.len(),
    {
        let track = records.remove(0);
        proof {
            assert(track == records_in[i as int]);
            assert(records_in.skip(i as int).remove(0) =~= records_in.skip(i as int + 1));
        }
        let label = labels[i];
        let split = match label {
            Some(_) => Split::Train,
            None => Split::Test,
        };
        let item = match label {
            Some(c) => TrackClassificationItem::new(track, c as usize),
            None => TrackClassificationItem::new(track, 0),
        };
        proof {
            lemma_split_items_step(records_in, labels@, i as int, Split::Train);
            lemma_split_items_step(records_in, labels@, i as int, Split::Test);
        }
        store.write_entry(split, item);
        i = i + 1;
    }
    proof {
        assert(records_in.take(records_in.len() as int) =~= records_in);
        assert(labels@.take(records_in.len() as int) =~= labels@);
    }
    store.commit();
    Ok(())
}

/// Law: split correctness.  For an index-aligned run, the record at index
/// `i` lands in the train split exactly when its label is set, and in the
/// test split exactly when it is not — its stored item is a member of that
/// split's sequence and of no other.
pub proof fn lemma_split_correctness(
    records: Seq<TrimmedTrack>,
    labels: Seq<Option<u32>>,
    i: int,
)
    requires
        records.len() == labels.len(),
        0 <= i < records.len(),
    ensures
        labels[i] is Some <==> split_of(labels[i]) is Train,
        split_items(records, labels, split_of(labels[i])).contains(
            entry_of(records[i], labels[i]),
        ),
    decreases records.len(),
{
    if i == records.len() - 1 {
        let rest = split_items(records.drop_last(), labels.drop_last(), split_of(labels[i]));
        assert(split_items(records, labels, split_of(labels[i])) == rest.push(
            entry_of(records[i], labels[i]),
        ));
        assert(rest.push(entry_of(records[i], labels[i])).last() == entry_of(
            records[i],
            labels[i],
        ));
    } else {
        lemma_split_correctness(records.drop_last(), labels.drop_last(), i);
        assert(records.drop_last()[i] == records[i]);
        assert(labels.drop_last()[i] == labels[i]);
        let split = split_of(labels[i]);
        let rest = split_items(records.drop_last(), labels.drop_last(), split);
        assert(rest.contains(entry_of(records[i], labels[i])));
        if split_of(labels.last()) == split {
            let j = choose|j: int| 0 <= j < rest.len() && rest[j] == entry_of(
                records[i],
                labels[i],
            );
            assert(rest.push(entry_of(records.last(), labels.last()))[j] == rest[j]);
        }
    }
}

/// Law: the splits hold nothing else.  Every item of a split's sequence is
/// the stored entry of some record of the run whose label put it in that
/// split.
pub proof fn lemma_split_items_sources(
    records: Seq<TrimmedTrack>,
    labels: Seq<Option<u32>>,
    split: Split,
)
    requires
        records.len() == labels.len(),
    ensures
        forall|j: int|
            #![trigger split_items(records, labels, split)[j]]
            0 <= j < split_items(records, labels, split).len() ==> exists|i: int|
                0 <= i < records.len() && split_of(labels[i]) == split && split_items(
                    records,
                    labels,
                    split,
                )[j] == #[trigger] entry_of(records[i], labels[i]),
    decreases records.len(),
{
    if records.len() > 0 {
        lemma_split_items_sources(records.drop_last(), labels.drop_last(), split);
        let rest = split_items(records.drop_last(), labels.drop_last(), split);
        let last: int = records.len() - 1;
        assert forall|j: int|
            #![trigger split_items(records, labels, split)[j]]
            0 <= j < split_items(records, labels, split).len() implies exists|i: int|
            0 <= i < records.len() && split_of(labels[i]) == split && split_items(
                records,
                labels,
                split,
            )[j] == #[trigger] entry_of(records[i], labels[i]) by {
            if j < rest.len() {
                assert(split_items(records.drop_last(), labels.drop_last(), split)[j] == rest[j]);
                let i = choose|i: int|
                    0 <= i < records.drop_last().len() && split_of(labels.drop_last()[i]) == split
                        && split_items(records.drop_last(), labels.drop_last(), split)[j]
                        == #[trigger] entry_of(records.drop_last()[i], labels.drop_last()[i]);
                assert(records.drop_last()[i] == records[i]);
                assert(labels.drop_last()[i] == labels[i]);
                assert(split_items(records, labels, split)[j] == entry_of(records[i], labels[i]));
            } else {
                assert(split_of(labels.last()) == split);
                assert(split_items(records, labels, split)[j] == entry_of(
                    records[last],
                    labels[last],
                ));
            }
        }
    }
}

/// Law: every record lands in exactly one split: the train split holds one
/// item per assigned label and the two splits together hold one item per
/// record.
pub proof fn lemma_split_partition(records: Seq<TrimmedTrack>, labels: Seq<Option<u32>>)
    requires
        records.len() == labels.len(),
    ensures
        split_items(records, labels, Split::Train).len() == count_labeled(labels),
        split_items(records, labels, Split::Train).len() + split_items(
            records,
            labels,
            Split::Test,
        ).len() == records.len(),
    decreases records.len(),
{
    if records.len() > 0 {
        lemma_split_partition(records.drop_last(), labels.drop_last());
    }
}

/// Read access to one split of a committed store snapshot: random access by
/// dense index plus the item count.
pub struct TrackClassificationDatasetStruct<'a> {
    items: &'a Vec<TrackClassificationItem>,
}

/// The consumer-facing contract of a split dataset: random access by dense
/// index, the item count, and category-map helpers.
pub trait TrackClassificationDatasetTrait {
    /// The items of the opened split, in insertion order.
    spec fn view_items(&self) -> Seq<TrackClassificationItem>;

    /// The item at `index`: `Some` exactly for a dense index below the item
    /// count.
    fn get(&self, index: usize) -> (r: Option<&TrackClassificationItem>)
        ensures
            index < self.view_items().len() ==> r == Some(&self.view_items()[index as int]),
            index >= self.view_items().len() ==> r is None,
    ;

    /// The number of items in the opened split.
    fn len(&self) -> (n: usize)
        ensures
            n == self.view_items().len(),
    ;

    /// How many classes the given category map names.
    fn number_of_classes(&self, map: HashMap<usize, String>) -> (n: usize)
        ensures
            n == map@.dom().len(),
    ;

    /// The name of the class with the given label in the category map.
    fn class_name(&self, label: usize, map: HashMap<usize, String>) -> (name: String)
        requires
            map@.contains_key(label),
        ensures
            name == map@[label],
    ;
}

impl<'a> TrackClassificationDatasetStruct<'a> {
    /// Opens one split of the store for reading.  Fails with `SplitNotFound`
    /// exactly when the store holds no committed snapshot.
    pub fn new(store: &'a SplitStore, split: Split) -> (r: Result<Self, DatasetError>)
        ensures
            r is Ok <==> store.is_committed(),
            r matches Err(e) ==> e == DatasetError::SplitNotFound,
            r matches Ok(d) ==> d.view_items() == if split is Train {
                store.committed_train()
            } else {
                store.committed_test()
            },
    {
        if !store.has_committed() {
            return Err(DatasetError::SplitNotFound);
        }
        match split {
            Split::Train => Ok(TrackClassificationDatasetStruct {
                items: store.committed_train_items(),
            }),
            Split::Test => Ok(TrackClassificationDatasetStruct {
                items: store.committed_test_items(),
            }),
        }
    }

    /// The train split of the store.
    pub fn train(store: &'a SplitStore) -> (r: Result<Self, DatasetError>)
        ensures
            r is Ok <==> store.is_committed(),
            r matches Err(e) ==> e == DatasetError::SplitNotFound,
            r matches Ok(d) ==> d.view_items() == store.committed_train(),
    {
        Self::new(store, Split::Train)
    }

    /// The test split of the store.
    pub fn test(store: &'a SplitStore) -> (r: Result<Self, DatasetError>)
        ensures
            r is Ok <==> store.is_committed(),
            r matches Err(e) ==> e == DatasetError::SplitNotFound,
            r matches Ok(d) ==> d.view_items() == store.committed_test(),
    {
        Self::new(store, Split::Test)
    }
}

impl SplitStore {
    /// Whether the store holds a committed snapshot, decided at run time.
    pub fn has_committed(&self) -> (r: bool)
        ensures
            r == self.is_committed(),
    {
        self.committed_valid
    }

    /// The committed train items, for read access.
    fn committed_train_items(&self) -> (r: &Vec<TrackClassificationItem>)
        requires
            self.is_committed(),
        ensures
            r@ == self.committed_train(),
    {
        &self.committed_train
    }

    /// The committed test items, for read access.
    fn committed_test_items(&self) -> (r: &Vec<TrackClassificationItem>)
        requires
            self.is_committed(),
        ensures
            r@ == self.committed_test(),
    {
        &self.committed_test
    }
}

impl<'a> TrackClassificationDatasetTrait for TrackClassificationDatasetStruct<'a> {
    closed spec fn view_items(&self) -> Seq<TrackClassificationItem> {
        self.items@
    }

    fn get(&self, index: usize) -> (r: Option<&TrackClassificationItem>) {
        if index < self.items.len() {
            Some(&self.items[index])
        } else {
            None
        }
    }

    fn len(&self) -> (n: usize) {
        self.items.len()
    }

    fn number_of_classes(&self, map: HashMap<usize, String>) -> (n: usize) {
        map.len()
    }

    fn class_name(&self, label: usize, map: HashMap<usize, String>) -> (name: String) {
        match map.get(&label) {
            Some(x) => x.clone(),
            None => unreached(),
        }
    }
}

} // verus!
