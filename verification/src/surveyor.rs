//! The window aggregator: records votes and tallies them over the last
//! 1, 3, 6, 12 and 24 hours.

use vstd::prelude::*;

use crate::ledger::{
    count_since, group_of, grouped, has_classifier, lemma_count_bounded, lemma_count_push,
    insert_outcome, window, GroupedCount, Ledger, StorageFailure, Vote,
};
use crate::time::Instant;

verus! {

/// The yes and no counts of one window.
#[derive(Clone, Copy, Debug, Hash, Eq, PartialEq)]
pub struct Question<I> {
    pub yes: I,
    pub no: I,
}

/// The counts of the five trailing windows.
#[derive(Clone, Copy, Debug, Hash, Eq, PartialEq)]
pub struct Summary<I> {
    pub last_24_hours: Question<I>,
    pub last_12_hours: Question<I>,
    pub last_6_hours: Question<I>,
    pub last_3_hours: Question<I>,
    pub last_hour: Question<I>,
}

impl<I> Question<I> {
    /// Whether both counts are what `I::default()` may return.
    pub open spec fn is_default(self) -> bool where I: Default {
        &&& call_ensures(I::default, (), self.yes)
        &&& call_ensures(I::default, (), self.no)
    }

    /// The question with the count for yes, or the one for no, replaced by
    /// `answer`.
    pub open spec fn answered(self, yes: bool, answer: I) -> Question<I> {
        if yes {
            Question { yes: answer, no: self.no }
        } else {
            Question { yes: self.yes, no: answer }
        }
    }

    /// Replaces the count for yes, or the one for no, by `answer`.
    pub fn set_answer(&mut self, yes: bool, answer: I)
        ensures
            *final(self) == old(self).answered(yes, answer),
    {
        if yes {
            self.yes = answer;
        } else {
            self.no = answer;
        }
    }
}

impl<I: Default> Default for Question<I> {
    fn default() -> (question: Self)
        ensures
            question.is_default(),
    {
        Question { yes: I::default(), no: I::default() }
    }
}

impl<I: Default> Default for Summary<I> {
    fn default() -> (summary: Self)
        ensures
            summary.is_default(),
    {
        Summary {
            last_24_hours: Question::default(),
            last_12_hours: Question::default(),
            last_6_hours: Question::default(),
            last_3_hours: Question::default(),
            last_hour: Question::default(),
        }
    }
}

impl<I> Summary<I> where I: Default {
    /// Whether every count is what `I::default()` may return.
    pub open spec fn is_default(self) -> bool {
        &&& self.last_24_hours.is_default()
        &&& self.last_12_hours.is_default()
        &&& self.last_6_hours.is_default()
        &&& self.last_3_hours.is_default()
        &&& self.last_hour.is_default()
    }

    /// A summary with every count at its default; for integers, at zero.
    pub fn new() -> (summary: Self)
        ensures
            summary.is_default(),
    {
        Self::default()
    }
}

impl View for Question<i64> {
    type V = Question<int>;

    open spec fn view(&self) -> Question<int> {
        Question { yes: self.yes as int, no: self.no as int }
    }
}

impl View for Summary<i64> {
    type V = Summary<int>;

    open spec fn view(&self) -> Summary<int> {
        Summary {
            last_24_hours: self.last_24_hours@,
            last_12_hours: self.last_12_hours@,
            last_6_hours: self.last_6_hours@,
            last_3_hours: self.last_3_hours@,
            last_hour: self.last_hour@,
        }
    }
}

impl Summary<int> {
    /// The summary with the counts for the line's classifier replaced by
    /// those of the line, zero where the line has no number.
    pub open spec fn overwritten(self, line: GroupedCount) -> Summary<int> {
        Summary {
            last_24_hours: self.last_24_hours.answered(line.classifier, answer(line.within_24)),
            last_12_hours: self.last_12_hours.answered(line.classifier, answer(line.within_12)),
            last_6_hours: self.last_6_hours.answered(line.classifier, answer(line.within_6)),
            last_3_hours: self.last_3_hours.answered(line.classifier, answer(line.within_3)),
            last_hour: self.last_hour.answered(line.classifier, answer(line.within_1)),
        }
    }

    /// Each window counts at least as much as the shorter ones, for yes and
    /// for no.
    pub open spec fn nested(self) -> bool {
        &&& self.last_hour.yes <= self.last_3_hours.yes <= self.last_6_hours.yes
            <= self.last_12_hours.yes <= self.last_24_hours.yes
        &&& self.last_hour.no <= self.last_3_hours.no <= self.last_6_hours.no
            <= self.last_12_hours.no <= self.last_24_hours.no
    }
}

/// The yes and no counts of the window that reaches `hours` hours back from
/// `now`.
pub open spec fn question_of(votes: Seq<Vote>, now: int, hours: int) -> Question<int> {
    Question {
        yes: count_since(votes, now - window(hours), true) as int,
        no: count_since(votes, now - window(hours), false) as int,
    }
}

/// The summary of `votes` at `now`: for each window and each classifier, the
/// number of votes with that classifier cast no earlier than the window's
/// length before `now`.
pub open spec fn tally(votes: Seq<Vote>, now: int) -> Summary<int> {
    Summary {
        last_24_hours: question_of(votes, now, 24),
        last_12_hours: question_of(votes, now, 12),
        last_6_hours: question_of(votes, now, 6),
        last_3_hours: question_of(votes, now, 3),
        last_hour: question_of(votes, now, 1),
    }
}

/// A count read off a line of the grouped count: zero where the line has no
/// number.
pub open spec fn answer(count: Option<i64>) -> int {
    match count {
        Some(n) => n as int,
        None => 0,
    }
}

/// The last of `lines` that carries `classifier`, if there is one.
pub open spec fn latest(lines: Seq<GroupedCount>, classifier: bool) -> Option<GroupedCount>
    decreases lines.len(),
{
    if lines.len() == 0 {
        None
    } else if lines.last().classifier == classifier {
        Some(lines.last())
    } else {
        latest(lines.drop_last(), classifier)
    }
}

/// The five counts that `lines` give for `classifier`, longest window first:
/// those of the last line that carries it, and zeros when no line does.
pub open spec fn answers(lines: Seq<GroupedCount>, classifier: bool) -> (int, int, int, int, int) {
    match latest(lines, classifier) {
        Some(line) => (
            answer(line.within_24),
            answer(line.within_12),
            answer(line.within_6),
            answer(line.within_3),
            answer(line.within_1),
        ),
        None => (0, 0, 0, 0, 0),
    }
}

/// The summary that the lines of a grouped count make.
pub open spec fn summarized(lines: Seq<GroupedCount>) -> Summary<int> {
    let yes = answers(lines, true);
    let no = answers(lines, false);
    Summary {
        last_24_hours: Question { yes: yes.0, no: no.0 },
        last_12_hours: Question { yes: yes.1, no: no.1 },
        last_6_hours: Question { yes: yes.2, no: no.2 },
        last_3_hours: Question { yes: yes.3, no: no.3 },
        last_hour: Question { yes: yes.4, no: no.4 },
    }
}

/// Taking in one more line overwrites the counts of its classifier.
pub proof fn lemma_summarized_push(lines: Seq<GroupedCount>, line: GroupedCount)
    ensures
        summarized(lines.push(line)) == summarized(lines).overwritten(line),
{
    let more = lines.push(line);
    assert(more.drop_last() == lines);
    assert(more.last() == line);
}

impl Summary<i64> {
    /// Writes the counts of one line over those the summary holds for the
    /// line's classifier; a count the line lacks is written as zero.
    pub fn record(&mut self, line: &GroupedCount)
        ensures
            final(self)@ == old(self)@.overwritten(*line),
    {
        let yes: bool = line.classifier;
        self.last_24_hours.set_answer(yes, line.within_24.unwrap_or(0));
        self.last_12_hours.set_answer(yes, line.within_12.unwrap_or(0));
        self.last_6_hours.set_answer(yes, line.within_6.unwrap_or(0));
        self.last_3_hours.set_answer(yes, line.within_3.unwrap_or(0));
        self.last_hour.set_answer(yes, line.within_1.unwrap_or(0));
    }

    /// Folds the lines of a grouped count into a summary, starting from zeros:
    /// each line sets the five counts of its classifier, so where several
    /// lines carry one classifier the last of them stands.
    pub fn summarize(lines: &Vec<GroupedCount>) -> (summary: Summary<i64>)
        ensures
            summary@ == summarized(lines@),
    {
        let mut summary: Summary<i64> = Summary::new();
        let mut i: usize = 0;
        proof {
            assert(lines@.take(0) =~= Seq::<GroupedCount>::empty());
        }
        while i < lines.len()
            invariant
                i <= lines@.len(),
                summary@ == summarized(lines@.take(i as int)),
            decreases lines@.len() - i,
        {
            proof {
                assert(lines@.take(i + 1) == lines@.take(i as int).push(lines@[i as int]));
                lemma_summarized_push(lines@.take(i as int), lines@[i as int]);
            }
            summary.record(&lines[i]);
            i = i + 1;
        }
        proof {
            assert(lines@.take(i as int) == lines@);
        }
        summary
    }
}

/// A count that starts earlier takes in at least as much.
pub proof fn lemma_count_monotone(votes: Seq<Vote>, earlier: int, later: int, classifier: bool)
    requires
        earlier <= later,
    ensures
        count_since(votes, later, classifier) <= count_since(votes, earlier, classifier),
    decreases votes.len(),
{
    if votes.len() == 0 {
        lemma_count_bounded(votes, later, classifier);
    } else {
        let rest = votes.drop_last();
        assert(votes == rest.push(votes.last()));
        lemma_count_monotone(rest, earlier, later, classifier);
        lemma_count_push(rest, votes.last(), earlier, classifier);
        lemma_count_push(rest, votes.last(), later, classifier);
    }
}

/// The windows are nested: whatever the votes and the instant of evaluation,
/// the last hour counts no more than the last 3 hours, those no more than the
/// last 6, then 12, then 24, for yes and for no alike.
pub proof fn lemma_tally_nested(votes: Seq<Vote>, now: int)
    ensures
        tally(votes, now).nested(),
{
    lemma_count_monotone(votes, now - window(3), now - window(1), true);
    lemma_count_monotone(votes, now - window(6), now - window(3), true);
    lemma_count_monotone(votes, now - window(12), now - window(6), true);
    lemma_count_monotone(votes, now - window(24), now - window(12), true);
    lemma_count_monotone(votes, now - window(3), now - window(1), false);
    lemma_count_monotone(votes, now - window(6), now - window(3), false);
    lemma_count_monotone(votes, now - window(12), now - window(6), false);
    lemma_count_monotone(votes, now - window(24), now - window(12), false);
}

/// Where no vote carries a classifier, every count for it is zero.
pub proof fn lemma_count_absent(votes: Seq<Vote>, boundary: int, classifier: bool)
    requires
        !has_classifier(votes, classifier),
    ensures
        count_since(votes, boundary, classifier) == 0,
    decreases votes.len(),
{
    if votes.len() == 0 {
        lemma_count_bounded(votes, boundary, classifier);
    } else {
        let rest = votes.drop_last();
        assert(votes == rest.push(votes.last()));
        assert(votes[votes.len() - 1].classifier != classifier);
        assert(!has_classifier(rest, classifier)) by {
            if has_classifier(rest, classifier) {
                let i = choose|i: int|
                    0 <= i < rest.len() && (#[trigger] rest[i]).classifier == classifier;
                assert(votes[i].classifier == classifier);
            }
        }
        lemma_count_absent(rest, boundary, classifier);
        lemma_count_push(rest, votes.last(), boundary, classifier);
    }
}

/// Folding the grouped count gives the tally: the summary made from the lines
/// that the ledger reports holds, for each window and classifier, the number
/// of votes that fall into it.
pub proof fn lemma_grouped_summarized(votes: Seq<Vote>, now: int)
    requires
        votes.len() <= i64::MAX,
    ensures
        summarized(grouped(votes, now)) == tally(votes, now),
{
    let lines = grouped(votes, now);
    assert forall|classifier: bool|
        #![trigger answers(lines, classifier)]
        answers(lines, classifier) == (
            count_since(votes, now - window(24), classifier) as int,
            count_since(votes, now - window(12), classifier) as int,
            count_since(votes, now - window(6), classifier) as int,
            count_since(votes, now - window(3), classifier) as int,
            count_since(votes, now - window(1), classifier) as int,
        ) by {
        lemma_count_bounded(votes, now - window(24), classifier);
        lemma_count_bounded(votes, now - window(12), classifier);
        lemma_count_bounded(votes, now - window(6), classifier);
        lemma_count_bounded(votes, now - window(3), classifier);
        lemma_count_bounded(votes, now - window(1), classifier);
        if has_classifier(votes, classifier) {
            lemma_latest_of_grouped(votes, now, classifier);
        } else {
            lemma_latest_of_grouped(votes, now, classifier);
            lemma_count_absent(votes, now - window(24), classifier);
            lemma_count_absent(votes, now - window(12), classifier);
            lemma_count_absent(votes, now - window(6), classifier);
            lemma_count_absent(votes, now - window(3), classifier);
            lemma_count_absent(votes, now - window(1), classifier);
        }
    }
    assert(answers(lines, true).0 == count_since(votes, now - window(24), true));
    assert(answers(lines, false).0 == count_since(votes, now - window(24), false));
}

/// The grouped count holds the line of a classifier exactly when some vote
/// carries it.
proof fn lemma_latest_of_grouped(votes: Seq<Vote>, now: int, classifier: bool)
    ensures
        latest(grouped(votes, now), classifier) == if has_classifier(votes, classifier) {
            Some(group_of(votes, now, classifier))
        } else {
            None::<GroupedCount>
        },
{
    let lines = grouped(votes, now);
    reveal_with_fuel(latest, 3);
    if lines.len() == 2 {
        assert(lines.drop_last().len() == 1);
        assert(lines.drop_last().last() == lines[0]);
        assert(lines.drop_last().drop_last().len() == 0);
    } else if lines.len() == 1 {
        assert(lines.drop_last().len() == 0);
    }
}

/// The votes after `times` submissions of the same `vote`, one after the
/// other: `votes`, followed by that many copies of it.
pub open spec fn resubmitted(votes: Seq<Vote>, vote: Vote, times: nat) -> Seq<Vote>
    decreases times,
{
    if times == 0 {
        votes
    } else {
        resubmitted(votes, vote, (times - 1) as nat).push(vote)
    }
}

/// Counts are kept under duplicates. Submitting the same vote `times` times
/// raises by exactly `times` every count that takes the vote in (its
/// classifier, and a window that reaches back to its timestamp), and changes
/// no other count.
pub proof fn lemma_duplicates_counted(
    votes: Seq<Vote>,
    vote: Vote,
    times: nat,
    boundary: int,
    classifier: bool,
)
    ensures
        count_since(resubmitted(votes, vote, times), boundary, classifier) == count_since(
            votes,
            boundary,
            classifier,
        ) + if vote.classifier == classifier && vote.timestamp@ >= boundary {
            times as int
        } else {
            0int
        },
    decreases times,
{
    if times > 0 {
        let before = resubmitted(votes, vote, (times - 1) as nat);
        lemma_duplicates_counted(votes, vote, (times - 1) as nat, boundary, classifier);
        lemma_count_push(before, vote, boundary, classifier);
    }
}

/// The aggregator. It keeps nothing of its own: the votes live in the ledger
/// it is handed.
#[derive(Debug)]
pub struct Surveyor {}

impl Surveyor {
    /// An aggregator, ready for any ledger.
    pub fn new() -> (surveyor: Surveyor) {
        Surveyor {  }
    }

    /// Records one vote cast at `now`. Votes are never merged: the same
    /// instant and mark submitted twice are held, and counted, twice.
    ///
    /// Fails when the ledger is closed or full; the ledger is then as before.
    pub fn submit(&self, ledger: &mut Ledger, now: Instant, monday_status: bool) -> (outcome:
        Result<(), StorageFailure>)
        requires
            old(ledger).wf(),
        ensures
            final(ledger).wf(),
            final(ledger).capacity() == old(ledger).capacity(),
            final(ledger).is_open() == old(ledger).is_open(),
            outcome == insert_outcome(
                old(ledger).is_open(),
                old(ledger)@.len(),
                old(ledger).capacity() as nat,
            ),
            outcome is Ok ==> final(ledger)@ == old(ledger)@.push(
                Vote { timestamp: now, classifier: monday_status },
            ),
            outcome is Err ==> final(ledger)@ == old(ledger)@,
    {
        ledger.insert(now, monday_status)
    }

    /// Counts, for each of the five windows that end at `now`, the votes for
    /// yes and the votes for no that fall into it. A window without votes
    /// counts zero.
    ///
    /// Fails when the ledger is closed, and only then.
    pub fn summary(&self, ledger: &Ledger, now: Instant) -> (outcome: Result<
        Summary<i64>,
        StorageFailure,
    >)
        requires
            ledger.wf(),
        ensures
            ledger.is_open() ==> outcome is Ok,
            !ledger.is_open() ==> outcome == Err::<Summary<i64>, StorageFailure>(
                StorageFailure::Closed,
            ),
            outcome matches Ok(summary) ==> summary@ == tally(ledger@, now@) && summary@.nested(),
    {
        match ledger.grouped_counts(now) {
            Ok(lines) => {
                proof {
                    ledger.lemma_wf();
                    lemma_grouped_summarized(ledger@, now@);
                    lemma_tally_nested(ledger@, now@);
                }
                Ok(Summary::summarize(&lines))
            },
            Err(failure) => Err(failure),
        }
    }
}

} // verus!
