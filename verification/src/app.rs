//! The coordinator: it lets the sweeper run ahead of every submission and
//! every summary, and reports which of the two parts failed.

use vstd::prelude::*;

use crate::cleaner::{cutoff_at, debounced, Cleaner, CleanerError};
use crate::ledger::{
    count_since, lemma_count_swept, lemma_swept_retains, lemma_swept_twice, insert_outcome, swept,
    Ledger, StorageFailure, Vote,
};
use crate::surveyor::{tally, Summary, Surveyor};
use crate::time::{Instant, Span};

verus! {

/// The two settings, fixed when the coordinator is made.
#[derive(Clone, Copy, Debug, Hash, Eq, PartialEq)]
pub struct AppConfig {
    /// The retention horizon: the age from which a vote may be deleted.
    pub clean_before: Span,
    /// The sweep interval: the least distance between two sweeps.
    pub clean_timeout: Span,
}

impl Default for AppConfig {
    fn default() -> (config: AppConfig)
        ensures
            config == (AppConfig {
                clean_before: Span { secs: 0, nanos: 0 },
                clean_timeout: Span { secs: 0, nanos: 0 },
            }),
    {
        AppConfig { clean_before: Span::seconds(0), clean_timeout: Span::seconds(0) }
    }
}

/// The part that failed, and why.
#[derive(Clone, Debug, PartialEq, Eq)]
pub enum AppError {
    /// The sweeper failed; the vote data were not touched.
    Cleaner(CleanerError),
    /// The aggregator failed, after the sweeper had its chance.
    Surveyor(StorageFailure),
}

impl AppError {
    /// The error in words.
    pub open spec fn message_view(&self) -> Seq<char> {
        match self {
            AppError::Cleaner(inner) => "cleaner: "@ + inner.message_view(),
            AppError::Surveyor(inner) => "surveyor: "@ + inner.message_view(),
        }
    }

    /// The error in words: the part that failed, a colon, and its error.
    pub fn message(&self) -> (text: String)
        ensures
            text@ == self.message_view(),
    {
        match self {
            AppError::Cleaner(inner) => {
                let mut text: String = "cleaner: ".to_owned();
                let account: String = inner.message();
                text.append(account.as_str());
                text
            },
            AppError::Surveyor(inner) => {
                let mut text: String = "surveyor: ".to_owned();
                let account: String = inner.message();
                text.append(account.as_str());
                text
            },
        }
    }
}

/// The coordinator, with the ledger it works on.
#[derive(Debug)]
pub struct App {
    ledger: Ledger,
    cleaner: Cleaner,
    surveyor: Surveyor,
}

/// All that the coordinator's behaviour depends on.
pub struct AppState {
    /// The votes held, oldest submission first.
    pub votes: Seq<Vote>,
    /// The instant of the last sweep that went through, if there was one.
    pub last_clean: Option<Instant>,
    pub config: AppConfig,
    /// The number of votes the ledger may hold at once.
    pub capacity: nat,
    /// Whether the ledger still answers.
    pub open: bool,
}

impl AppState {
    /// Whether the sweeper, given its chance at `now`, sweeps.
    pub open spec fn sweeps(self, now: Instant) -> bool {
        self.open && !debounced(self.last_clean, self.config.clean_timeout, now)
    }

    /// Whether the sweeper, given its chance at `now`, fails.
    pub open spec fn clean_fails(self, now: Instant) -> bool {
        !self.open && !debounced(self.last_clean, self.config.clean_timeout, now)
    }

    /// The state after the sweeper had its chance at `now`.
    pub open spec fn cleaned(self, now: Instant) -> AppState {
        if self.sweeps(now) {
            AppState {
                votes: swept(self.votes, cutoff_at(self.config.clean_before, now)),
                last_clean: Some(now),
                ..self
            }
        } else {
            self
        }
    }

    /// How a submission at `now` ends.
    pub open spec fn submit_result(self, now: Instant) -> Result<(), AppError> {
        if self.clean_fails(now) {
            Err(AppError::Cleaner(CleanerError::LibSql(StorageFailure::Closed)))
        } else {
            match insert_outcome(self.open, self.cleaned(now).votes.len(), self.capacity) {
                Ok(_) => Ok(()),
                Err(failure) => Err(AppError::Surveyor(failure)),
            }
        }
    }

    /// The state after a submission at `now`: the sweeper had its chance, and
    /// the vote was appended if the submission went through.
    pub open spec fn submitted(self, now: Instant, monday_status: bool) -> AppState {
        let cleaned = self.cleaned(now);
        if self.submit_result(now) is Ok {
            AppState {
                votes: cleaned.votes.push(Vote { timestamp: now, classifier: monday_status }),
                ..cleaned
            }
        } else {
            cleaned
        }
    }

    /// What a request for the summary at `now` returns: the tally of the votes
    /// that the sweeper left.
    pub open spec fn summary_result(self, now: Instant) -> Result<Summary<int>, AppError> {
        if self.clean_fails(now) {
            Err(AppError::Cleaner(CleanerError::LibSql(StorageFailure::Closed)))
        } else if !self.open {
            Err(AppError::Surveyor(StorageFailure::Closed))
        } else {
            Ok(tally(self.cleaned(now).votes, now@))
        }
    }
}

impl View for App {
    type V = AppState;

    closed spec fn view(&self) -> AppState {
        AppState {
            votes: self.ledger@,
            last_clean: self.cleaner.last_clean(),
            config: AppConfig {
                clean_before: self.cleaner.clean_before(),
                clean_timeout: self.cleaner.clean_timeout(),
            },
            capacity: self.ledger.capacity() as nat,
            open: self.ledger.is_open(),
        }
    }
}

impl App {
    /// The coordinator's invariant: that of its ledger.
    pub closed spec fn wf(&self) -> bool {
        self.ledger.wf()
    }

    /// A coordinator over `ledger` that has not swept yet.
    pub fn new(ledger: Ledger, config: AppConfig) -> (app: App)
        requires
            ledger.wf(),
        ensures
            app.wf(),
            app@ == (AppState {
                votes: ledger@,
                last_clean: None,
                config,
                capacity: ledger.capacity() as nat,
                open: ledger.is_open(),
            }),
    {
        let cleaner = Cleaner::new(config.clean_before, config.clean_timeout);
        let surveyor = Surveyor::new();
        App { ledger, cleaner, surveyor }
    }

    /// The ledger, to look at.
    pub fn ledger(&self) -> (ledger: &Ledger)
        requires
            self.wf(),
        ensures
            ledger.wf(),
            ledger@ == self@.votes,
            ledger.capacity() == self@.capacity,
            ledger.is_open() == self@.open,
    {
        &self.ledger
    }

    /// The sweeper, to look at.
    pub fn cleaner(&self) -> (cleaner: &Cleaner)
        ensures
            cleaner.last_clean() == self@.last_clean,
            cleaner.clean_before() == self@.config.clean_before,
            cleaner.clean_timeout() == self@.config.clean_timeout,
    {
        &self.cleaner
    }

    /// Closes the ledger: from now on the store fails whenever it is asked.
    pub fn close(&mut self)
        requires
            old(self).wf(),
        ensures
            final(self).wf(),
            final(self)@ == (AppState { open: false, ..old(self)@ }),
    {
        self.ledger.close();
    }

    /// Lets the sweeper run at `now`, then records one vote cast at `now`.
    ///
    /// Fails with the sweeper's error when the sweeper fails; the vote is then
    /// not recorded. Fails with the aggregator's error when the vote cannot be
    /// recorded; what the sweeper did stands.
    pub fn submit(&mut self, now: Instant, monday_status: bool) -> (outcome: Result<(), AppError>)
        requires
            old(self).wf(),
        ensures
            final(self).wf(),
            final(self)@ == old(self)@.submitted(now, monday_status),
            outcome is Ok <==> old(self)@.submit_result(now) is Ok,
            outcome matches Err(error) ==> old(self)@.submit_result(now) == Err::<(), AppError>(
                error,
            ),
    {
        match self.cleaner.queue_clean(&mut self.ledger, now) {
            Ok(_) => {},
            Err(error) => {
                return Err(AppError::Cleaner(error));
            },
        }
        match self.surveyor.submit(&mut self.ledger, now, monday_status) {
            Ok(_) => Ok(()),
            Err(failure) => Err(AppError::Surveyor(failure)),
        }
    }

    /// Lets the sweeper run at `now`, then counts the votes that are left,
    /// over the five windows that end at `now`.
    ///
    /// Fails with the sweeper's error when the sweeper fails, and with the
    /// aggregator's when the count cannot be had.
    pub fn summary(&mut self, now: Instant) -> (outcome: Result<Summary<i64>, AppError>)
        requires
            old(self).wf(),
        ensures
            final(self).wf(),
            final(self)@ == old(self)@.cleaned(now),
            match outcome {
                Ok(summary) => old(self)@.summary_result(now) == Ok::<Summary<int>, AppError>(
                    summary@,
                ) && summary@.nested(),
                Err(error) => old(self)@.summary_result(now) == Err::<Summary<int>, AppError>(error),
            },
    {
        match self.cleaner.queue_clean(&mut self.ledger, now) {
            Ok(_) => {},
            Err(error) => {
                return Err(AppError::Cleaner(error));
            },
        }
        match self.surveyor.summary(&self.ledger, now) {
            Ok(summary) => Ok(summary),
            Err(failure) => Err(AppError::Surveyor(failure)),
        }
    }
}

/// Debounce, for the coordinator. Take two calls, submissions or summaries,
/// at `first` and at `second`, with `second` less than the sweep interval
/// after `first`. If the sweeper swept in the first call, it does nothing in
/// the second: it issues no delete, however old the votes are, it does not
/// fail, and it leaves the state as it found it. The same holds if it did not
/// sweep in the first call and `second` is still within the interval of the
/// sweep before.
pub proof fn lemma_debounce(state: AppState, first: Instant, second: Instant)
    requires
        second@ - first@ < state.config.clean_timeout@,
        state.sweeps(first) || debounced(state.last_clean, state.config.clean_timeout, second),
    ensures
        !state.cleaned(first).sweeps(second),
        !state.cleaned(first).clean_fails(second),
        state.cleaned(first).cleaned(second) == state.cleaned(first),
        forall|monday_status: bool|
            !(#[trigger] state.submitted(first, monday_status)).sweeps(second) && !state.submitted(
                first,
                monday_status,
            ).clean_fails(second),
{
}

/// Retention. After a call at `now` that swept, no vote cast before the
/// cutoff, `now` less the retention horizon, is left, and so none is within
/// reach of a summary: a count from any boundary on finds what it would have
/// found before the sweep from the later of the boundary and the cutoff on.
pub proof fn lemma_retention(state: AppState, now: Instant, boundary: int, classifier: bool)
    requires
        state.sweeps(now),
    ensures
        forall|i: int|
            0 <= i < state.cleaned(now).votes.len() ==> (#[trigger] state.cleaned(
                now,
            ).votes[i]).timestamp@ >= cutoff_at(state.config.clean_before, now),
        count_since(state.cleaned(now).votes, boundary, classifier) == count_since(
            state.votes,
            if boundary >= cutoff_at(state.config.clean_before, now) {
                boundary
            } else {
                cutoff_at(state.config.clean_before, now)
            },
            classifier,
        ),
{
    let cutoff = cutoff_at(state.config.clean_before, now);
    lemma_swept_retains(state.votes, cutoff);
    lemma_count_swept(state.votes, cutoff, boundary, classifier);
}

/// The summary is idempotent. Asked twice in a row at the same `now`, with no
/// submission in between, the coordinator returns the same result twice, and
/// the second request changes nothing.
pub proof fn lemma_summary_idempotent(state: AppState, now: Instant)
    ensures
        state.cleaned(now).summary_result(now) == state.summary_result(now),
        state.cleaned(now).cleaned(now) == state.cleaned(now),
{
    lemma_swept_twice(state.votes, cutoff_at(state.config.clean_before, now));
}

} // verus!
