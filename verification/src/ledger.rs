//! The record store: an append-only ledger of votes, held in memory.
//!
//! It offers the three things the rest of the crate asks of a store: append a
//! vote, delete every vote older than a cutoff, and count the votes per
//! classifier over the five trailing windows.

use vstd::prelude::*;

use crate::time::Instant;

verus! {

/// One vote: when it was cast and the yes/no mark it carries.
#[derive(Clone, Copy, Debug, PartialEq, Eq, Hash)]
pub struct Vote {
    pub timestamp: Instant,
    pub classifier: bool,
}

/// One line of the grouped count: a classifier and, for each trailing window,
/// how many votes with that classifier fall into it. A window without such a
/// vote has no number at all.
#[derive(Clone, Copy, Debug, PartialEq, Eq, Hash)]
pub struct GroupedCount {
    pub classifier: bool,
    pub within_24: Option<i64>,
    pub within_12: Option<i64>,
    pub within_6: Option<i64>,
    pub within_3: Option<i64>,
    pub within_1: Option<i64>,
}

/// Why the store could not carry out an operation.
#[derive(Clone, Debug, PartialEq, Eq)]
pub enum StorageFailure {
    /// The store was closed.
    Closed,
    /// The store holds as many votes as it may.
    Full,
    /// A store outside this crate failed; the text is its own account.
    Backend(String),
}

impl StorageFailure {
    /// The failure in words.
    pub open spec fn message_view(&self) -> Seq<char> {
        match self {
            StorageFailure::Closed => "store closed"@,
            StorageFailure::Full => "store full"@,
            StorageFailure::Backend(account) => account@,
        }
    }

    /// The failure in words; for a store outside this crate, its own account.
    pub fn message(&self) -> (text: String)
        ensures
            text@ == self.message_view(),
    {
        match self {
            StorageFailure::Closed => "store closed".to_owned(),
            StorageFailure::Full => "store full".to_owned(),
            StorageFailure::Backend(account) => account.clone(),
        }
    }
}

/// Nanoseconds in one hour.
pub const HOUR_NANOS: i128 = 3_600_000_000_000;

/// The votes that a sweep with the given cutoff leaves in place: those cast
/// at the cutoff or later. The cutoff counts nanoseconds since the epoch.
pub open spec fn survives(cutoff: int) -> spec_fn(Vote) -> bool {
    |vote: Vote| vote.timestamp@ >= cutoff
}

/// What is left of `votes` after every vote older than `cutoff` is deleted.
pub open spec fn swept(votes: Seq<Vote>, cutoff: int) -> Seq<Vote> {
    votes.filter(survives(cutoff))
}

/// How an attempt to append a vote ends: refused by a closed ledger, refused
/// by one that already holds `capacity` votes, accepted otherwise.
pub open spec fn insert_outcome(open: bool, held: nat, capacity: nat) -> Result<(), StorageFailure> {
    if !open {
        Err(StorageFailure::Closed)
    } else if held >= capacity {
        Err(StorageFailure::Full)
    } else {
        Ok(())
    }
}

/// The length of a window of `hours` hours, in nanoseconds.
pub open spec fn window(hours: int) -> int {
    hours * HOUR_NANOS
}

/// The votes that a count from `boundary` on takes in for `classifier`: those
/// that carry the classifier and were cast at the boundary or later.
pub open spec fn counted(boundary: int, classifier: bool) -> spec_fn(Vote) -> bool {
    |vote: Vote| vote.classifier == classifier && vote.timestamp@ >= boundary
}

/// How many of `votes` carry `classifier` and were cast at `boundary` or later.
pub open spec fn count_since(votes: Seq<Vote>, boundary: int, classifier: bool) -> nat {
    votes.filter(counted(boundary, classifier)).len()
}

/// Whether any of `votes` carries `classifier`.
pub open spec fn has_classifier(votes: Seq<Vote>, classifier: bool) -> bool {
    exists|i: int| 0 <= i < votes.len() && (#[trigger] votes[i]).classifier == classifier
}

/// A count as the grouped count gives it: no number where nothing was counted.
pub open spec fn nullable(count: nat) -> Option<i64> {
    if count == 0 {
        None
    } else {
        Some(count as i64)
    }
}

/// The line of the grouped count for `classifier`, with the windows measured
/// back from `now`.
pub open spec fn group_of(votes: Seq<Vote>, now: int, classifier: bool) -> GroupedCount {
    GroupedCount {
        classifier,
        within_24: nullable(count_since(votes, now - window(24), classifier)),
        within_12: nullable(count_since(votes, now - window(12), classifier)),
        within_6: nullable(count_since(votes, now - window(6), classifier)),
        within_3: nullable(count_since(votes, now - window(3), classifier)),
        within_1: nullable(count_since(votes, now - window(1), classifier)),
    }
}

/// The grouped count of `votes` at `now`: one line for each classifier that
/// some vote carries, `false` before `true`.
pub open spec fn grouped(votes: Seq<Vote>, now: int) -> Seq<GroupedCount> {
    let no = if has_classifier(votes, false) {
        seq![group_of(votes, now, false)]
    } else {
        Seq::<GroupedCount>::empty()
    };
    let yes = if has_classifier(votes, true) {
        seq![group_of(votes, now, true)]
    } else {
        Seq::<GroupedCount>::empty()
    };
    no + yes
}

/// The votes, oldest submission first, and the bounds of the store.
#[derive(Debug)]
pub struct Ledger {
    votes: Vec<Vote>,
    capacity: u32,
    open: bool,
}

impl View for Ledger {
    type V = Seq<Vote>;

    closed spec fn view(&self) -> Seq<Vote> {
        self.votes@
    }
}

impl Ledger {
    /// The ledger's invariant: it holds no more votes than its capacity.
    pub closed spec fn wf(&self) -> bool {
        self.votes@.len() <= self.capacity
    }

    /// What the invariant says, for those who cannot look inside.
    pub proof fn lemma_wf(&self)
        requires
            self.wf(),
        ensures
            self@.len() <= self.capacity(),
    {
    }

    /// What [`Ledger::capacity`] returns.
    pub closed spec fn spec_capacity(&self) -> u32 {
        self.capacity
    }

    /// What [`Ledger::is_open`] returns.
    pub closed spec fn spec_is_open(&self) -> bool {
        self.open
    }

    /// The number of votes the ledger may hold at once.
    #[verifier::when_used_as_spec(spec_capacity)]
    pub fn capacity(&self) -> (capacity: u32)
        ensures
            capacity == self.capacity(),
    {
        self.capacity
    }

    /// Whether the ledger still answers.
    #[verifier::when_used_as_spec(spec_is_open)]
    pub fn is_open(&self) -> (open: bool)
        ensures
            open == self.is_open(),
    {
        self.open
    }

    /// The votes held, oldest submission first.
    pub fn votes(&self) -> (votes: &Vec<Vote>)
        ensures
            votes@ == self@,
    {
        &self.votes
    }

    /// An empty, open ledger for at most `capacity` votes.
    pub fn new(capacity: u32) -> (ledger: Ledger)
        ensures
            ledger.wf(),
            ledger@ == Seq::<Vote>::empty(),
            ledger.capacity() == capacity,
            ledger.is_open(),
    {
        Ledger { votes: Vec::new(), capacity, open: true }
    }

    /// Closes the ledger: from now on every operation fails with
    /// [`StorageFailure::Closed`]. The votes stay as they are.
    pub fn close(&mut self)
        requires
            old(self).wf(),
        ensures
            final(self).wf(),
            !final(self).is_open(),
            final(self)@ == old(self)@,
            final(self).capacity() == old(self).capacity(),
    {
        self.open = false;
    }

    /// The number of votes held.
    pub fn len(&self) -> (n: usize)
        ensures
            n == self@.len(),
    {
        self.votes.len()
    }

    /// Appends one vote. Nothing is deduplicated: the same vote submitted
    /// twice is held twice.
    ///
    /// Fails, and leaves the ledger as it was, when the ledger is closed or
    /// already full.
    pub fn insert(&mut self, timestamp: Instant, classifier: bool) -> (outcome: Result<
        (),
        StorageFailure,
    >)
        requires
            old(self).wf(),
        ensures
            final(self).wf(),
            final(self).capacity() == old(self).capacity(),
            final(self).is_open() == old(self).is_open(),
            outcome == insert_outcome(
                old(self).is_open(),
                old(self)@.len(),
                old(self).capacity() as nat,
            ),
            outcome is Ok ==> final(self)@ == old(self)@.push(Vote { timestamp, classifier }),
            outcome is Err ==> final(self)@ == old(self)@,
    {
        if !self.open {
            return Err(StorageFailure::Closed);
        }
        if self.votes.len() >= self.capacity as usize {
            return Err(StorageFailure::Full);
        }
        self.votes.push(Vote { timestamp, classifier });
        Ok(())
    }

    /// Deletes every vote cast before `cutoff`, given in nanoseconds since
    /// the epoch; the votes that stay keep their order.
    ///
    /// Fails, and leaves the ledger as it was, when the ledger is closed.
    pub fn delete_before(&mut self, cutoff: i128) -> (outcome: Result<(), StorageFailure>)
        requires
            old(self).wf(),
        ensures
            final(self).wf(),
            final(self).capacity() == old(self).capacity(),
            final(self).is_open() == old(self).is_open(),
            old(self).is_open() ==> outcome is Ok && final(self)@ == swept(old(self)@, cutoff as int),
            old(self).is_open() ==> forall|i: int|
                0 <= i < final(self)@.len() ==> (#[trigger] final(self)@[i]).timestamp@ >= cutoff,
            !old(self).is_open() ==> outcome == Err::<(), StorageFailure>(StorageFailure::Closed)
                && final(self)@ == old(self)@,
    {
        if !self.open {
            return Err(StorageFailure::Closed);
        }
        let mut kept: Vec<Vote> = Vec::new();
        let mut i: usize = 0;
        while i < self.votes.len()
            invariant
                i <= self.votes@.len(),
                kept@ == swept(self.votes@.take(i as int), cutoff as int),
            decreases self.votes@.len() - i,
        {
            let vote: Vote = self.votes[i];
            proof {
                let seen = self.votes@.take(i as int);
                assert(self.votes@.take(i + 1) == seen.push(vote));
                seen.lemma_filter_push(vote, survives(cutoff as int));
            }
            if vote.timestamp.total_nanos() >= cutoff {
                kept.push(vote);
            }
            i = i + 1;
        }
        proof {
            assert(self.votes@.take(i as int) == self.votes@);
            lemma_swept_retains(self.votes@, cutoff as int);
        }
        self.votes = kept;
        Ok(())
    }

    /// Counts the votes per classifier over the 24, 12, 6, 3 and 1 hours that
    /// end at `now`, in one pass over the ledger.
    ///
    /// Fails when the ledger is closed, and only then.
    pub fn grouped_counts(&self, now: Instant) -> (outcome: Result<
        Vec<GroupedCount>,
        StorageFailure,
    >)
        requires
            self.wf(),
        ensures
            self.is_open() ==> outcome is Ok,
            !self.is_open() ==> outcome == Err::<Vec<GroupedCount>, StorageFailure>(
                StorageFailure::Closed,
            ),
            outcome matches Ok(lines) ==> lines@ == grouped(self@, now@),
    {
        if !self.open {
            return Err(StorageFailure::Closed);
        }
        let end: i128 = now.total_nanos();
        let mut yes: Running = Running::start();
        let mut no: Running = Running::start();
        let mut i: usize = 0;
        proof {
            assert(self.votes@.take(0) =~= Seq::<Vote>::empty());
        }
        while i < self.votes.len()
            invariant
                i <= self.votes@.len(),
                self.votes@.len() <= u32::MAX,
                end == now@,
                yes.tallies(self.votes@.take(i as int), now@, true),
                no.tallies(self.votes@.take(i as int), now@, false),
            decreases self.votes@.len() - i,
        {
            let vote: Vote = self.votes[i];
            let ghost seen = self.votes@.take(i as int);
            proof {
                assert(self.votes@.take(i + 1) == seen.push(vote));
            }
            if vote.classifier {
                yes.take_in(vote.timestamp.total_nanos(), end, Ghost(seen), Ghost(vote));
                proof {
                    no.pass_by(seen, vote, now@, false);
                }
            } else {
                no.take_in(vote.timestamp.total_nanos(), end, Ghost(seen), Ghost(vote));
                proof {
                    yes.pass_by(seen, vote, now@, true);
                }
            }
            i = i + 1;
        }
        proof {
            assert(self.votes@.take(i as int) == self.votes@);
        }
        let mut lines: Vec<GroupedCount> = Vec::new();
        if no.seen {
            lines.push(no.line(false, Ghost(self.votes@), Ghost(now@)));
        }
        if yes.seen {
            lines.push(yes.line(true, Ghost(self.votes@), Ghost(now@)));
        }
        proof {
            assert(lines@ =~= grouped(self.votes@, now@));
        }
        Ok(lines)
    }
}

/// The running counts for one classifier while the ledger is walked.
struct Running {
    seen: bool,
    within_24: i64,
    within_12: i64,
    within_6: i64,
    within_3: i64,
    within_1: i64,
}

impl Running {
    /// The counts are those of `votes` for `classifier` at `now`.
    spec fn tallies(self, votes: Seq<Vote>, now: int, classifier: bool) -> bool {
        &&& self.seen == has_classifier(votes, classifier)
        &&& self.within_24 == count_since(votes, now - window(24), classifier)
        &&& self.within_12 == count_since(votes, now - window(12), classifier)
        &&& self.within_6 == count_since(votes, now - window(6), classifier)
        &&& self.within_3 == count_since(votes, now - window(3), classifier)
        &&& self.within_1 == count_since(votes, now - window(1), classifier)
    }

    fn start() -> (running: Running)
        ensures
            forall|now: int, classifier: bool|
                running.tallies(Seq::<Vote>::empty(), now, classifier),
    {
        proof {
            reveal(Seq::filter);
        }
        Running { seen: false, within_24: 0, within_12: 0, within_6: 0, within_3: 0, within_1: 0 }
    }

    /// Takes in a vote that carries this classifier and was cast at `cast`.
    fn take_in(
        &mut self,
        cast: i128,
        now: i128,
        Ghost(votes): Ghost<Seq<Vote>>,
        Ghost(vote): Ghost<Vote>,
    )
        requires
            old(self).tallies(votes, now as int, vote.classifier),
            vote.timestamp@ == cast,
            votes.len() < u32::MAX,
            i64::MIN * 1_000_000_000 <= now <= i64::MAX * 1_000_000_000 + u32::MAX,
        ensures
            final(self).tallies(votes.push(vote), now as int, vote.classifier),
    {
        proof {
            lemma_has_classifier_push(votes, vote, vote.classifier);
            lemma_count_push(votes, vote, now - window(24), vote.classifier);
            lemma_count_push(votes, vote, now - window(12), vote.classifier);
            lemma_count_push(votes, vote, now - window(6), vote.classifier);
            lemma_count_push(votes, vote, now - window(3), vote.classifier);
            lemma_count_push(votes, vote, now - window(1), vote.classifier);
            lemma_count_bounded(votes, now - window(24), vote.classifier);
            lemma_count_bounded(votes, now - window(12), vote.classifier);
            lemma_count_bounded(votes, now - window(6), vote.classifier);
            lemma_count_bounded(votes, now - window(3), vote.classifier);
            lemma_count_bounded(votes, now - window(1), vote.classifier);
        }
        self.seen = true;
        if cast >= now - 24 * HOUR_NANOS {
            self.within_24 = self.within_24 + 1;
        }
        if cast >= now - 12 * HOUR_NANOS {
            self.within_12 = self.within_12 + 1;
        }
        if cast >= now - 6 * HOUR_NANOS {
            self.within_6 = self.within_6 + 1;
        }
        if cast >= now - 3 * HOUR_NANOS {
            self.within_3 = self.within_3 + 1;
        }
        if cast >= now - HOUR_NANOS {
            self.within_1 = self.within_1 + 1;
        }
    }

    /// Leaves the counts alone for a vote that carries the other classifier.
    proof fn pass_by(self, votes: Seq<Vote>, vote: Vote, now: int, classifier: bool)
        requires
            self.tallies(votes, now, classifier),
            vote.classifier != classifier,
        ensures
            self.tallies(votes.push(vote), now, classifier),
    {
        lemma_has_classifier_push(votes, vote, classifier);
        lemma_count_push(votes, vote, now - window(24), classifier);
        lemma_count_push(votes, vote, now - window(12), classifier);
        lemma_count_push(votes, vote, now - window(6), classifier);
        lemma_count_push(votes, vote, now - window(3), classifier);
        lemma_count_push(votes, vote, now - window(1), classifier);
    }

    /// The line of the grouped count that these counts make.
    fn line(&self, classifier: bool, Ghost(votes): Ghost<Seq<Vote>>, Ghost(now): Ghost<int>) -> (line:
        GroupedCount)
        requires
            self.tallies(votes, now, classifier),
        ensures
            line == group_of(votes, now, classifier),
    {
        GroupedCount {
            classifier,
            within_24: to_nullable(self.within_24),
            within_12: to_nullable(self.within_12),
            within_6: to_nullable(self.within_6),
            within_3: to_nullable(self.within_3),
            within_1: to_nullable(self.within_1),
        }
    }
}

/// A count as the grouped count gives it.
fn to_nullable(count: i64) -> (answer: Option<i64>)
    requires
        count >= 0,
    ensures
        answer == nullable(count as nat),
{
    if count == 0 {
        None
    } else {
        Some(count)
    }
}

/// Counts never exceed the number of votes.
pub proof fn lemma_count_bounded(votes: Seq<Vote>, boundary: int, classifier: bool)
    ensures
        count_since(votes, boundary, classifier) <= votes.len(),
{
    votes.lemma_filter_len(counted(boundary, classifier));
}

/// One more vote raises a count by one if the count takes it in, and leaves it
/// alone otherwise.
pub proof fn lemma_count_push(votes: Seq<Vote>, vote: Vote, boundary: int, classifier: bool)
    ensures
        count_since(votes.push(vote), boundary, classifier) == count_since(
            votes,
            boundary,
            classifier,
        ) + if vote.classifier == classifier && vote.timestamp@ >= boundary {
            1int
        } else {
            0int
        },
{
    votes.lemma_filter_len_push(counted(boundary, classifier), vote);
}

/// A classifier is present after one more vote if it was before or the new
/// vote carries it.
pub proof fn lemma_has_classifier_push(votes: Seq<Vote>, vote: Vote, classifier: bool)
    ensures
        has_classifier(votes.push(vote), classifier) == (has_classifier(votes, classifier)
            || vote.classifier == classifier),
{
    let more = votes.push(vote);
    if has_classifier(votes, classifier) {
        let i = choose|i: int| 0 <= i < votes.len() && (#[trigger] votes[i]).classifier == classifier;
        assert(more[i].classifier == classifier);
    }
    if vote.classifier == classifier {
        assert(more[votes.len() as int].classifier == classifier);
    }
    if has_classifier(more, classifier) {
        let i = choose|i: int| 0 <= i < more.len() && (#[trigger] more[i]).classifier == classifier;
        if i < votes.len() {
            assert(votes[i].classifier == classifier);
        }
    }
}

/// After a sweep no vote older than the cutoff is left, and the votes that
/// are left were there before.
pub proof fn lemma_swept_retains(votes: Seq<Vote>, cutoff: int)
    ensures
        swept(votes, cutoff).len() <= votes.len(),
        forall|i: int|
            0 <= i < swept(votes, cutoff).len() ==> (#[trigger] swept(
                votes,
                cutoff,
            )[i]).timestamp@ >= cutoff,
        forall|i: int|
            0 <= i < swept(votes, cutoff).len() ==> votes.contains(#[trigger] swept(votes, cutoff)[i]),
{
    let left = swept(votes, cutoff);
    votes.lemma_filter_len(survives(cutoff));
    assert forall|i: int| 0 <= i < left.len() implies (#[trigger] left[i]).timestamp@ >= cutoff
        && votes.contains(left[i]) by {
        votes.lemma_filter_pred(survives(cutoff), i);
        assert(left.contains(left[i]));
        votes.lemma_filter_contains_rev(survives(cutoff), left[i]);
    }
}

/// What a count finds after a sweep: the votes it would have found before,
/// less those cast before the cutoff. A vote older than the cutoff is out of
/// reach of every count, whatever its boundary.
pub proof fn lemma_count_swept(votes: Seq<Vote>, cutoff: int, boundary: int, classifier: bool)
    ensures
        count_since(swept(votes, cutoff), boundary, classifier) == count_since(
            votes,
            if boundary >= cutoff {
                boundary
            } else {
                cutoff
            },
            classifier,
        ),
    decreases votes.len(),
{
    let later = if boundary >= cutoff {
        boundary
    } else {
        cutoff
    };
    if votes.len() == 0 {
        reveal(Seq::filter);
    } else {
        let rest = votes.drop_last();
        let vote = votes.last();
        assert(votes == rest.push(vote));
        lemma_count_swept(rest, cutoff, boundary, classifier);
        rest.lemma_filter_push(vote, survives(cutoff));
        lemma_count_push(rest, vote, later, classifier);
        if vote.timestamp@ >= cutoff {
            lemma_count_push(swept(rest, cutoff), vote, boundary, classifier);
        }
    }
}

/// A second sweep with the same cutoff finds nothing to delete.
pub proof fn lemma_swept_twice(votes: Seq<Vote>, cutoff: int)
    ensures
        swept(swept(votes, cutoff), cutoff) == swept(votes, cutoff),
    decreases votes.len(),
{
    if votes.len() == 0 {
        reveal(Seq::filter);
    } else {
        let rest = votes.drop_last();
        let vote = votes.last();
        assert(votes == rest.push(vote));
        lemma_swept_twice(rest, cutoff);
        rest.lemma_filter_push(vote, survives(cutoff));
        if vote.timestamp@ >= cutoff {
            swept(rest, cutoff).lemma_filter_push(vote, survives(cutoff));
        }
    }
}

} // verus!
