//! The label collector: an interactive, randomized, resumable session that
//! assigns at most one category to each track of the motherlist.
//!
//! The session is a state machine over three phases.  During setup the
//! category names are collected; a stop input freezes them and puts the
//! tracks into a fresh random presentation order; during labeling each
//! presented track receives either a category index in `[1, N]`, which
//! labels it, or the stop sentinel `0`, which ends the session and leaves
//! every unseen track unlabeled.  Out-of-range input changes nothing and is
//! re-prompted by the caller.  Console plumbing lives outside the library;
//! the session consumes already-parsed values.

use vstd::prelude::*;
use vstd::seq_lib::group_to_multiset_ensures;

verus! {

/// Phase of a labeling session.
#[derive(Clone, Copy, PartialEq, Eq, Structural, Debug)]
pub enum SessionPhase {
    /// Category names are being collected.
    Setup,
    /// Tracks are presented one at a time for labeling.
    Labeling,
    /// The session is over; the assignment is final.
    Done,
}

/// What one labeling input did.
#[derive(Clone, Copy, PartialEq, Eq, Structural, Debug)]
pub enum SubmitOutcome {
    /// The input was out of range; nothing changed and the same track is
    /// presented again.
    Rejected,
    /// The given category was assigned to the track at the given original
    /// index.
    Assigned { track_index: usize, category: u32 },
    /// The stop sentinel ended the session.
    Stopped,
}

/// `order` lists each of the track indices `0..n` exactly once.
pub open spec fn is_index_permutation(order: Seq<usize>, n: int) -> bool {
    &&& order.len() == n
    &&& forall|i: int| 0 <= i < order.len() ==> (#[trigger] order[i]) < n
    &&& order.no_duplicates()
}

/// No track has a label yet.
pub open spec fn all_unset(labels: Seq<Option<u32>>) -> bool {
    forall|i: int| 0 <= i < labels.len() ==> (#[trigger] labels[i]) is None
}

/// Every assigned label is a category index in `[1, ncat]`.
pub open spec fn labels_valid(labels: Seq<Option<u32>>, ncat: int) -> bool {
    forall|i: int|
        0 <= i < labels.len() && (#[trigger] labels[i]) is Some ==> 1 <= labels[i]->Some_0 <= ncat
}

/// Relies on rand's SliceRandom::shuffle with the thread-local generator:
/// the slice is permuted in place.  Whatever order comes back, every element
/// is kept with its multiplicity.
#[verifier::external_body]
fn shuffle_in_place(v: &mut Vec<usize>)
    ensures
        final(v)@.to_multiset() == old(v)@.to_multiset(),
{
    rand::seq::SliceRandom::shuffle(v.as_mut_slice(), &mut rand::rng());
}

/// A sequence with the same element multiplicities as an index permutation
/// is itself an index permutation.
proof fn lemma_permutation_from_multiset(a: Seq<usize>, b: Seq<usize>, n: int)
    requires
        is_index_permutation(a, n),
        a.to_multiset() == b.to_multiset(),
    ensures
        is_index_permutation(b, n),
{
    broadcast use group_to_multiset_ensures;

    assert(b.len() == n) by {
        assert(a.to_multiset().len() == a.len());
        assert(b.to_multiset().len() == b.len());
    }
    assert forall|i: int| 0 <= i < b.len() implies (#[trigger] b[i]) < n by {
        assert(b.contains(b[i]));
        assert(b.to_multiset().count(b[i]) > 0);
        assert(a.contains(b[i]));
        let j = choose|j: int| 0 <= j < a.len() && a[j] == b[i];
        assert(a[j] < n);
    }
    a.lemma_multiset_has_no_duplicates();
    assert forall|x: usize| b.to_multiset().contains(x) implies b.to_multiset().count(x) == 1 by {
        assert(a.to_multiset().count(x) > 0);
        assert(a.contains(x));
    }
    b.lemma_multiset_has_no_duplicates_conv();
}

/// A fresh random presentation order for `n` tracks: the indices `0..n`,
/// shuffled.
pub fn shuffled_indices(n: usize) -> (order: Vec<usize>)
    ensures
        is_index_permutation(order@, n as int),
{
    let mut order: Vec<usize> = Vec::new();
    let mut i: usize = 0;
    while i < n
        invariant
            i <= n,
            order@.len() == i,
            forall|j: int| 0 <= j < i ==> order@[j] == j,
        decreases n - i,
    {
        order.push(i);
        i = i + 1;
    }
    assert(is_index_permutation(order@, n as int));
    let ghost identity = order@;
    shuffle_in_place(&mut order);
    proof {
        lemma_permutation_from_multiset(identity, order@, n as int);
    }
    order
}

/// One labeling session: the collected category names, the randomized
/// presentation order, the cursor into it, and the assignment built so far.
pub struct LabelSession {
    phase: SessionPhase,
    categories: Vec<String>,
    order: Vec<usize>,
    pos: usize,
    labels: Vec<Option<u32>>,
}

impl LabelSession {
    /// The phase the session is in.
    pub closed spec fn phase(self) -> SessionPhase {
        self.phase
    }

    /// The category names collected so far (fixed once labeling starts).
    pub closed spec fn categories(self) -> Seq<String> {
        self.categories@
    }

    /// The presentation order (empty during setup).
    pub closed spec fn order(self) -> Seq<usize> {
        self.order@
    }

    /// How many tracks have been presented and resolved.
    pub closed spec fn pos(self) -> int {
        self.pos as int
    }

    /// The assignment so far: one optional category index per track index.
    pub closed spec fn labels(self) -> Seq<Option<u32>> {
        self.labels@
    }

    /// The number of tracks of the session.
    pub open spec fn track_count(self) -> int {
        self.labels().len() as int
    }

    /// The session invariant.
    pub open spec fn wf(self) -> bool {
        &&& self.categories().len() <= u32::MAX
        &&& labels_valid(self.labels(), self.categories().len() as int)
        &&& 0 <= self.pos() <= self.order().len()
        &&& (self.phase() is Setup ==> self.order().len() == 0 && self.pos() == 0 && all_unset(
            self.labels(),
        ))
        &&& (!(self.phase() is Setup) ==> is_index_permutation(
            self.order(),
            self.track_count(),
        ))
        &&& (self.phase() is Labeling ==> self.pos() < self.order().len())
        &&& (forall|k: int|
            self.pos() <= k < self.order().len() ==> self.labels()[(
            #[trigger] self.order()[k]) as int] is None)
    }

    /// Opens a session over `track_count` tracks, ready to collect category
    /// names; no track has a label.
    pub fn new(track_count: usize) -> (s: Self)
        ensures
            s.wf(),
            s.phase() is Setup,
            s.track_count() == track_count,
            s.categories().len() == 0,
            all_unset(s.labels()),
    {
        let mut labels: Vec<Option<u32>> = Vec::new();
        let mut i: usize = 0;
        while i < track_count
            invariant
                i <= track_count,
                labels@.len() == i,
                all_unset(labels@),
            decreases track_count - i,
        {
            labels.push(None);
            i = i + 1;
        }
        LabelSession {
            phase: SessionPhase::Setup,
            categories: Vec::new(),
            order: Vec::new(),
            pos: 0,
            labels,
        }
    }

    /// The number of categories collected so far.
    pub fn category_count(&self) -> (n: usize)
        ensures
            n == self.categories().len(),
    {
        self.categories.len()
    }

    /// The collected category names, for presentation.
    pub fn category_names(&self) -> (names: &Vec<String>)
        ensures
            names@ == self.categories(),
    {
        &self.categories
    }

    /// Records one category name during setup.  The name is kept even when
    /// it repeats an earlier one; the result reports the repetition so the
    /// caller can flag it.
    pub fn add_category(&mut self, name: String) -> (duplicate: bool)
        requires
            old(self).wf(),
            old(self).phase() is Setup,
            old(self).categories().len() < u32::MAX,
        ensures
            final(self).wf(),
            final(self).phase() is Setup,
            final(self).categories() == old(self).categories().push(name),
            duplicate <==> exists|i: int|
                0 <= i < old(self).categories().len() && (#[trigger] old(
                    self,
                ).categories()[i])@ == name@,
            final(self).labels() == old(self).labels(),
            final(self).order() == old(self).order(),
            final(self).pos() == old(self).pos(),
    {
        let mut duplicate = false;
        let mut i: usize = 0;
        while i < self.categories.len()
            invariant
                i <= self.categories@.len(),
                duplicate <==> exists|j: int|
                    0 <= j < i && (#[trigger] self.categories@[j])@ == name@,
            decreases self.categories@.len() - i,
        {
            if self.categories[i] == name {
                duplicate = true;
            }
            i = i + 1;
        }
        self.categories.push(name);
        duplicate
    }

    /// Ends setup with a caller-supplied presentation order, for replaying a
    /// session deterministically; the order must list every track index
    /// exactly once.  The category list is fixed from here on.
    pub fn start_labeling_with_order(&mut self, order: Vec<usize>)
        requires
            old(self).wf(),
            old(self).phase() is Setup,
            is_index_permutation(order@, old(self).track_count()),
        ensures
            final(self).wf(),
            final(self).categories() == old(self).categories(),
            final(self).labels() == old(self).labels(),
            final(self).order() == order@,
            final(self).pos() == 0,
            final(self).phase() is Done <==> old(self).track_count() == 0,
            final(self).phase() is Labeling <==> old(self).track_count() > 0,
    {
        let done = order.len() == 0;
        self.order = order;
        self.pos = 0;
        self.phase = if done {
            SessionPhase::Done
        } else {
            SessionPhase::Labeling
        };
    }

    /// Ends setup: the category list becomes fixed and the tracks are put
    /// into a fresh random presentation order, each appearing exactly once.
    pub fn finish_setup(&mut self)
        requires
            old(self).wf(),
            old(self).phase() is Setup,
        ensures
            final(self).wf(),
            final(self).categories() == old(self).categories(),
            final(self).labels() == old(self).labels(),
            is_index_permutation(final(self).order(), final(self).track_count()),
            final(self).pos() == 0,
            final(self).phase() is Done <==> old(self).track_count() == 0,
            final(self).phase() is Labeling <==> old(self).track_count() > 0,
    {
        let order = shuffled_indices(self.labels.len());
        self.start_labeling_with_order(order);
    }

    /// Whether the session is over.
    pub fn is_done(&self) -> (r: bool)
        ensures
            r == (self.phase() is Done),
    {
        match self.phase {
            SessionPhase::Done => true,
            _ => false,
        }
    }

    /// The original index of the track currently presented for labeling.
    pub fn current_track(&self) -> (r: Option<usize>)
        requires
            self.wf(),
        ensures
            self.phase() is Labeling ==> r == Some(self.order()[self.pos()]),
            !(self.phase() is Labeling) ==> r is None,
    {
        match self.phase {
            SessionPhase::Labeling => Some(self.order[self.pos]),
            _ => None,
        }
    }

    /// Feeds one parsed labeling input for the currently presented track.
    /// `0` stops the session; a value in `[1, N]` assigns that category to
    /// the presented track and moves on; anything else is rejected and
    /// changes nothing.  A label, once set, is never changed or cleared.
    pub fn submit(&mut self, input: i64) -> (outcome: SubmitOutcome)
        requires
            old(self).wf(),
            old(self).phase() is Labeling,
        ensures
            final(self).wf(),
            final(self).categories() == old(self).categories(),
            final(self).order() == old(self).order(),
            final(self).track_count() == old(self).track_count(),
            outcome is Rejected <==> (input < 0 || input > old(self).categories().len()),
            outcome is Rejected ==> final(self).labels() == old(self).labels() && final(self).pos() == old(self).pos() && final(self).phase() is Labeling,
            input == 0 ==> outcome is Stopped && final(self).phase() is Done && final(self).labels() == old(self).labels() && final(self).pos() == old(self).pos(),
            1 <= input <= old(self).categories().len() ==> {
                let tr = old(self).order()[old(self).pos()] as int;
                &&& outcome == (SubmitOutcome::Assigned {
                    track_index: old(self).order()[old(self).pos()],
                    category: input as u32,
                })
                &&& final(self).labels() == old(self).labels().update(tr, Some(input as u32))
                &&& final(self).pos() == old(self).pos() + 1
                &&& (final(self).phase() is Done <==> old(self).pos() + 1 == old(
                    self,
                ).order().len())
                &&& (final(self).phase() is Labeling <==> old(self).pos() + 1 < old(
                    self,
                ).order().len())
            },
            forall|i: int|
                0 <= i < old(self).labels().len() && (#[trigger] old(self).labels()[i]) is Some
                    ==> final(self).labels()[i] == old(self).labels()[i],
    {
        if input < 0 {
            return SubmitOutcome::Rejected;
        }
        if input == 0 {
            self.phase = SessionPhase::Done;
            return SubmitOutcome::Stopped;
        }
        let k = input as u64;
        if k > self.categories.len() as u64 {
            return SubmitOutcome::Rejected;
        }
        let category: u32 = k as u32;
        let track_index = self.order[self.pos];
        self.labels.set(track_index, Some(category));
        let n = self.order.len();
        self.pos = self.pos + 1;
        if self.pos == n {
            self.phase = SessionPhase::Done;
        }
        SubmitOutcome::Assigned { track_index, category }
    }

    /// The final assignment: for every track index its category, or `None`
    /// for every track the user never confirmed a category for.  Every
    /// assigned index lies in `[1, number of categories]`.
    pub fn into_labels(self) -> (labels: Vec<Option<u32>>)
        requires
            self.wf(),
            self.phase() is Done,
        ensures
            labels@ == self.labels(),
            labels@.len() == self.track_count(),
            labels_valid(labels@, self.categories().len() as int),
    {
        self.labels
    }
}

/// Law: no track index is ever assigned twice in one session.  The track
/// currently presented for labeling — the only one `submit` can assign —
/// never carries a label yet; every track behind the cursor is still
/// unlabeled.
pub proof fn lemma_presented_track_unlabeled(s: LabelSession)
    requires
        s.wf(),
        s.phase() is Labeling,
    ensures
        s.labels()[s.order()[s.pos()] as int] is None,
{
    assert(s.labels()[(s.order()[s.pos()]) as int] is None);
}

} // verus!
