//! The retention sweeper: deletes the votes that outlived the retention
//! horizon, but no more often than once per sweep interval.

use std::sync::PoisonError;
use vstd::prelude::*;
use vstd::std_specs::convert::FromSpecImpl;

use crate::ledger::{swept, Ledger, StorageFailure};
use crate::time::{Instant, Span};

verus! {

/// `std::sync::PoisonError`: the error of a lock whose holder panicked. Nothing
/// is said of what it holds.
#[verifier::external_type_specification]
#[verifier::external_body]
#[verifier::reject_recursive_types(T)]
pub struct ExPoisonError<T>(PoisonError<T>);

/// Why a call of the sweeper failed.
#[derive(Clone, Debug, PartialEq, Eq)]
pub enum CleanerError {
    /// The guard around the sweeper's state is broken.
    Poisoned,
    /// The store could not carry out the delete.
    LibSql(StorageFailure),
}

impl<T> From<PoisonError<T>> for CleanerError {
    fn from(_error: PoisonError<T>) -> (error: Self) {
        Self::Poisoned
    }
}

impl<T> FromSpecImpl<PoisonError<T>> for CleanerError {
    open spec fn obeys_from_spec() -> bool {
        true
    }

    open spec fn from_spec(_error: PoisonError<T>) -> Self {
        CleanerError::Poisoned
    }
}

impl CleanerError {
    /// The error in words.
    pub open spec fn message_view(&self) -> Seq<char> {
        match self {
            CleanerError::Poisoned => "lock poisoned"@,
            CleanerError::LibSql(inner) => "libsql: "@ + inner.message_view(),
        }
    }

    /// The error in words: `lock poisoned`, or `libsql: ` and the failure of
    /// the store.
    pub fn message(&self) -> (text: String)
        ensures
            text@ == self.message_view(),
    {
        match self {
            CleanerError::Poisoned => "lock poisoned".to_owned(),
            CleanerError::LibSql(inner) => {
                let mut text: String = "libsql: ".to_owned();
                let account: String = inner.message();
                text.append(account.as_str());
                text
            },
        }
    }
}

/// The sweeper: its two settings and the instant of the last sweep.
#[derive(Debug)]
pub struct Cleaner {
    clean_before: Span,
    clean_timeout: Span,
    last_clean: Option<Instant>,
}

/// Whether a sweep asked for at `now` is withheld: one has run, and less than
/// the sweep interval lies between it and `now`.
pub open spec fn debounced(last_clean: Option<Instant>, clean_timeout: Span, now: Instant) -> bool {
    match last_clean {
        Some(last) => now@ - last@ < clean_timeout@,
        None => false,
    }
}

/// The cutoff of a sweep at `now`, in nanoseconds since the epoch: votes cast
/// before it have outlived the retention horizon.
pub open spec fn cutoff_at(clean_before: Span, now: Instant) -> int {
    now@ - clean_before@
}

impl Cleaner {
    /// What [`Cleaner::clean_before`] returns.
    pub closed spec fn spec_clean_before(&self) -> Span {
        self.clean_before
    }

    /// What [`Cleaner::clean_timeout`] returns.
    pub closed spec fn spec_clean_timeout(&self) -> Span {
        self.clean_timeout
    }

    /// What [`Cleaner::last_clean`] returns.
    pub closed spec fn spec_last_clean(&self) -> Option<Instant> {
        self.last_clean
    }

    /// The retention horizon: the age from which a vote may be deleted.
    #[verifier::when_used_as_spec(spec_clean_before)]
    pub fn clean_before(&self) -> (span: Span)
        ensures
            span == self.clean_before(),
    {
        self.clean_before
    }

    /// The sweep interval: the least distance between two sweeps.
    #[verifier::when_used_as_spec(spec_clean_timeout)]
    pub fn clean_timeout(&self) -> (span: Span)
        ensures
            span == self.clean_timeout(),
    {
        self.clean_timeout
    }

    /// The instant of the last sweep that went through, if there was one.
    #[verifier::when_used_as_spec(spec_last_clean)]
    pub fn last_clean(&self) -> (last: Option<Instant>)
        ensures
            last == self.last_clean(),
    {
        self.last_clean
    }

    /// Whether a call at `now` sweeps a store that is open or not: it is not
    /// withheld, and the store answers.
    pub open spec fn sweeps(&self, open: bool, now: Instant) -> bool {
        open && !debounced(self.last_clean(), self.clean_timeout(), now)
    }

    /// Whether a call at `now` fails on a store that is open or not: it is not
    /// withheld, and the store does not answer.
    pub open spec fn fails(&self, open: bool, now: Instant) -> bool {
        !open && !debounced(self.last_clean(), self.clean_timeout(), now)
    }

    /// A sweeper that has not swept yet, so that its first call sweeps.
    pub fn new(clean_before: Span, clean_timeout: Span) -> (cleaner: Cleaner)
        ensures
            cleaner.clean_before() == clean_before,
            cleaner.clean_timeout() == clean_timeout,
            cleaner.last_clean() is None,
    {
        Cleaner { clean_before, clean_timeout, last_clean: None }
    }

    /// Decides what a call at `now` has to do: nothing, when it is withheld,
    /// or a delete of the votes cast before the cutoff that is returned, in
    /// nanoseconds since the epoch. The store is not touched, and neither is
    /// the sweeper.
    pub fn plan(&self, now: Instant) -> (cutoff: Option<i128>)
        ensures
            match cutoff {
                Some(at) => !debounced(self.last_clean(), self.clean_timeout(), now) && at
                    == cutoff_at(self.clean_before(), now),
                None => debounced(self.last_clean(), self.clean_timeout(), now),
            },
    {
        if let Some(last) = self.last_clean {
            if now.total_nanos() - last.total_nanos() < self.clean_timeout.total_nanos() {
                return None;
            }
        }
        Some(now.total_nanos() - self.clean_before.total_nanos())
    }

    /// Takes note of how the delete of a sweep at `now` ended. After a delete
    /// that went through, `now` is the instant of the last sweep, whether or
    /// not a vote was deleted. After one that failed nothing is noted, so that
    /// the next call tries again, and the failure is handed on.
    pub fn conclude(&mut self, now: Instant, deleted: Result<(), StorageFailure>) -> (outcome:
        Result<(), CleanerError>)
        ensures
            final(self).clean_before() == old(self).clean_before(),
            final(self).clean_timeout() == old(self).clean_timeout(),
            match deleted {
                Ok(_) => outcome is Ok && final(self).last_clean() == Some(now),
                Err(failure) => outcome == Err::<(), CleanerError>(CleanerError::LibSql(failure))
                    && final(self).last_clean() == old(self).last_clean(),
            },
    {
        match deleted {
            Ok(_) => {
                self.last_clean = Some(now);
                Ok(())
            },
            Err(failure) => Err(CleanerError::LibSql(failure)),
        }
    }

    /// Deletes the votes cast before `cutoff` and notes `now` as the instant
    /// of the sweep, if the delete went through.
    fn remove_before(&mut self, ledger: &mut Ledger, cutoff: i128, now: Instant) -> (outcome:
        Result<(), CleanerError>)
        requires
            old(ledger).wf(),
        ensures
            final(ledger).wf(),
            final(ledger).capacity() == old(ledger).capacity(),
            final(ledger).is_open() == old(ledger).is_open(),
            final(self).clean_before() == old(self).clean_before(),
            final(self).clean_timeout() == old(self).clean_timeout(),
            old(ledger).is_open() ==> outcome is Ok && final(self).last_clean() == Some(now)
                && final(ledger)@ == swept(old(ledger)@, cutoff as int),
            !old(ledger).is_open() ==> outcome == Err::<(), CleanerError>(
                CleanerError::LibSql(StorageFailure::Closed),
            ) && final(self).last_clean() == old(self).last_clean() && final(ledger)@ == old(
                ledger,
            )@,
    {
        let deleted = ledger.delete_before(cutoff);
        self.conclude(now, deleted)
    }

    /// Gives the sweeper its chance at `now`.
    ///
    /// A call that comes less than the sweep interval after the last sweep
    /// does nothing and succeeds, without touching the store. Any other call
    /// deletes the votes cast before `now` less the retention horizon, and then
    /// notes `now` as the instant of the last sweep.
    ///
    /// Fails when the delete fails, that is on a closed ledger; nothing has
    /// changed then, and the next call sweeps again.
    pub fn queue_clean(&mut self, ledger: &mut Ledger, now: Instant) -> (outcome: Result<
        (),
        CleanerError,
    >)
        requires
            old(ledger).wf(),
        ensures
            final(ledger).wf(),
            final(ledger).capacity() == old(ledger).capacity(),
            final(ledger).is_open() == old(ledger).is_open(),
            final(self).clean_before() == old(self).clean_before(),
            final(self).clean_timeout() == old(self).clean_timeout(),
            final(self).last_clean() == if old(self).sweeps(old(ledger).is_open(), now) {
                Some(now)
            } else {
                old(self).last_clean()
            },
            final(ledger)@ == if old(self).sweeps(old(ledger).is_open(), now) {
                swept(old(ledger)@, cutoff_at(old(self).clean_before(), now))
            } else {
                old(ledger)@
            },
            old(self).fails(old(ledger).is_open(), now) ==> outcome == Err::<(), CleanerError>(
                CleanerError::LibSql(StorageFailure::Closed),
            ),
            !old(self).fails(old(ledger).is_open(), now) ==> outcome is Ok,
    {
        match self.plan(now) {
            Some(cutoff) => self.remove_before(ledger, cutoff, now),
            None => Ok(()),
        }
    }
}

/// Debounce. Take two calls of [`Cleaner::queue_clean`], at `first` and at
/// `second`, with `second` less than the sweep interval after `first`; `after`
/// is the sweeper as the first call leaves it. If the first call swept, the
/// second is withheld: it issues no delete, however old the votes are, it
/// cannot fail, and it changes nothing. The same holds if the first call did
/// not sweep and `second` is still within the interval of the sweep before.
///
/// Left out is the case in which the first call did not sweep, being
/// withheld itself or failing on its delete, and the interval since the sweep
/// before it, if there was one, has run out at `second`: the second call then
/// is due.
pub proof fn lemma_debounce(
    cleaner: Cleaner,
    after: Cleaner,
    open: bool,
    first: Instant,
    second: Instant,
)
    requires
        after.clean_timeout() == cleaner.clean_timeout(),
        after.last_clean() == if cleaner.sweeps(open, first) {
            Some(first)
        } else {
            cleaner.last_clean()
        },
        second@ - first@ < cleaner.clean_timeout()@,
        cleaner.sweeps(open, first) || debounced(
            cleaner.last_clean(),
            cleaner.clean_timeout(),
            second,
        ),
    ensures
        debounced(after.last_clean(), after.clean_timeout(), second),
        forall|open_then: bool|
            !(#[trigger] after.sweeps(open_then, second)) && !after.fails(open_then, second),
{
}

} // verus!
