use backend::app::{App, AppConfig, AppError};
use backend::cleaner::CleanerError;
use backend::ledger::{Ledger, StorageFailure};
use backend::surveyor::{Question, Summary};
use backend::time::{Instant, Span};
use chrono::{DateTime, Local, TimeDelta};

fn default_now() -> DateTime<Local> {
    DateTime::parse_from_rfc3339("2020-01-10T00:00:00.000Z").unwrap().into()
}

fn instant(at: DateTime<Local>) -> Instant {
    Instant::new(at.timestamp(), at.timestamp_subsec_nanos())
}

fn span(delta: TimeDelta) -> Span {
    Span { secs: delta.num_seconds(), nanos: delta.subsec_nanos() }
}

fn counts(yes: i64, no: i64) -> Question<i64> {
    Question { yes, no }
}

#[test]
fn test_app_submit() {
    let config = AppConfig {
        clean_before: span(TimeDelta::hours(24)),
        clean_timeout: span(TimeDelta::seconds(60)),
    };

    let ledger = Ledger::new(u32::MAX);
    let mut app = App::new(ledger, config);

    let now = default_now();
    for i in 0..=30 {
        app.submit(instant(now - TimeDelta::hours(i)), true).expect("submit");
        app.submit(instant(now - TimeDelta::hours(i)), false).expect("submit");
    }

    let summary = app.summary(instant(now)).expect("summary");
    assert_eq!(Summary {
        last_24_hours: Question {
            yes: 25,
            no: 25,
        },
        last_12_hours: Question {
            yes: 13,
            no: 13,
        },
        last_6_hours: Question {
            yes: 7,
            no: 7,
        },
        last_3_hours: Question {
            yes: 4,
            no: 4,
        },
        last_hour: Question {
            yes: 2,
            no: 2,
        },
    }, summary);
}

#[test]
fn test_app_keep_duplicates() {
    let config = AppConfig {
        clean_before: span(TimeDelta::hours(24)),
        clean_timeout: span(TimeDelta::seconds(60)),
    };

    let ledger = Ledger::new(u32::MAX);
    let mut app = App::new(ledger, config);

    let now = default_now();
    for i in 0..=30 {
        app.submit(instant(now - TimeDelta::hours(i)), true).expect("submit");
        app.submit(instant(now - TimeDelta::hours(i)), true).expect("submit");
        app.submit(instant(now - TimeDelta::hours(i)), false).expect("submit");
        app.submit(instant(now - TimeDelta::hours(i)), false).expect("submit");
        app.submit(instant(now - TimeDelta::hours(i)), false).expect("submit");
    }

    let summary = app.summary(instant(now)).expect("summary");
    assert_eq!(Summary {
        last_24_hours: Question {
            yes: 25 * 2,
            no: 25 * 3,
        },
        last_12_hours: Question {
            yes: 13 * 2,
            no: 13 * 3,
        },
        last_6_hours: Question {
            yes: 7 * 2,
            no: 7 * 3,
        },
        last_3_hours: Question {
            yes: 4 * 2,
            no: 4 * 3,
        },
        last_hour: Question {
            yes: 2 * 2,
            no: 2 * 3,
        },
    }, summary);
}

#[test]
fn test_app_clean() {
    let config = AppConfig {
        clean_before: span(TimeDelta::hours(5)),
        clean_timeout: span(TimeDelta::seconds(0)),
    };

    let ledger = Ledger::new(u32::MAX);
    let mut app = App::new(ledger, config);

    let now = default_now();
    for i in -30..=0 {
        app.submit(instant(now + TimeDelta::hours(i)), true).expect("submit");
        app.submit(instant(now + TimeDelta::hours(i)), false).expect("submit");
    }

    let summary = app.summary(instant(now)).expect("summary");
    assert_eq!(Summary {
        last_24_hours: Question {
            yes: 6,
            no: 6,
        },
        last_12_hours: Question {
            yes: 6,
            no: 6,
        },
        last_6_hours: Question {
            yes: 6,
            no: 6,
        },
        last_3_hours: Question {
            yes: 4,
            no: 4,
        },
        last_hour: Question {
            yes: 2,
            no: 2,
        },
    }, summary);
    assert_eq!(app.ledger().len(), 12);
}

#[test]
fn app_summary_of_nothing_is_all_zero() {
    let mut app = App::new(Ledger::new(8), AppConfig::default());
    let summary = app.summary(instant(default_now())).expect("summary");
    assert_eq!(summary, Summary {
        last_24_hours: counts(0, 0),
        last_12_hours: counts(0, 0),
        last_6_hours: counts(0, 0),
        last_3_hours: counts(0, 0),
        last_hour: counts(0, 0),
    });
}

#[test]
fn app_summary_twice_gives_the_same() {
    let config = AppConfig {
        clean_before: span(TimeDelta::hours(5)),
        clean_timeout: span(TimeDelta::seconds(0)),
    };
    let mut app = App::new(Ledger::new(100), config);
    let now = default_now();
    for i in 0..=10 {
        app.submit(instant(now - TimeDelta::hours(10 - i)), i % 3 == 0).expect("submit");
    }
    let first = app.summary(instant(now)).expect("summary");
    let held = app.ledger().len();
    let second = app.summary(instant(now)).expect("summary");
    assert_eq!(first, second);
    assert_eq!(app.ledger().len(), held);
    assert_eq!(first.last_24_hours, counts(2, 4));
}

#[test]
fn app_summary_windows_are_nested() {
    let config = AppConfig {
        clean_before: span(TimeDelta::hours(48)),
        clean_timeout: span(TimeDelta::seconds(60)),
    };
    let mut app = App::new(Ledger::new(1000), config);
    let now = default_now();
    for i in 0..200 {
        let at = now - TimeDelta::minutes(i * 11);
        app.submit(instant(at), i % 2 == 0).expect("submit");
    }
    let summary = app.summary(instant(now)).expect("summary");
    assert!(summary.last_hour.yes <= summary.last_3_hours.yes);
    assert!(summary.last_3_hours.yes <= summary.last_6_hours.yes);
    assert!(summary.last_6_hours.yes <= summary.last_12_hours.yes);
    assert!(summary.last_12_hours.yes <= summary.last_24_hours.yes);
    assert!(summary.last_hour.no <= summary.last_3_hours.no);
    assert!(summary.last_3_hours.no <= summary.last_6_hours.no);
    assert!(summary.last_6_hours.no <= summary.last_12_hours.no);
    assert!(summary.last_12_hours.no <= summary.last_24_hours.no);
    assert_eq!(summary.last_hour, counts(3, 3));
}

#[test]
fn app_window_takes_in_its_boundary() {
    let config = AppConfig {
        clean_before: span(TimeDelta::hours(48)),
        clean_timeout: span(TimeDelta::seconds(60)),
    };
    let mut app = App::new(Ledger::new(10), config);
    let now = default_now();
    app.submit(instant(now - TimeDelta::hours(1)), true).expect("submit");
    app.submit(instant(now - TimeDelta::hours(1) - TimeDelta::nanoseconds(1)), true).expect("submit");
    let summary = app.summary(instant(now)).expect("summary");
    assert_eq!(summary.last_hour, counts(1, 0));
    assert_eq!(summary.last_3_hours, counts(2, 0));
}

#[test]
fn app_sweep_is_debounced() {
    let config = AppConfig {
        clean_before: span(TimeDelta::hours(1)),
        clean_timeout: span(TimeDelta::seconds(60)),
    };
    let mut app = App::new(Ledger::new(10), config);
    let now = default_now();
    // The first call sweeps, at `now`.
    app.submit(instant(now), true).expect("submit");
    assert_eq!(app.cleaner().last_clean(), Some(instant(now)));
    // A vote far older than the horizon, 59 s later: the sweep is withheld.
    let soon = now + TimeDelta::seconds(59);
    app.submit(instant(now - TimeDelta::hours(20)), false).expect("submit");
    let summary = app.summary(instant(soon)).expect("summary");
    assert_eq!(app.ledger().len(), 2);
    assert_eq!(app.cleaner().last_clean(), Some(instant(now)));
    assert_eq!(summary.last_24_hours, counts(1, 1));
    // One second more and the sweep runs.
    let later = now + TimeDelta::seconds(60);
    let summary = app.summary(instant(later)).expect("summary");
    assert_eq!(app.ledger().len(), 1);
    assert_eq!(app.cleaner().last_clean(), Some(instant(later)));
    assert_eq!(summary.last_24_hours, counts(1, 0));
}

#[test]
fn app_sweep_keeps_the_vote_at_the_cutoff() {
    let config = AppConfig {
        clean_before: span(TimeDelta::hours(5)),
        clean_timeout: span(TimeDelta::seconds(0)),
    };
    let mut app = App::new(Ledger::new(10), config);
    let now = default_now();
    let cutoff = now - TimeDelta::hours(5);
    app.submit(instant(cutoff - TimeDelta::nanoseconds(1)), true).expect("submit");
    app.submit(instant(cutoff), false).expect("submit");
    app.summary(instant(now)).expect("summary");
    let votes = app.ledger().votes();
    assert_eq!(votes.len(), 1);
    assert_eq!(votes[0].timestamp, instant(cutoff));
    assert!(!votes[0].classifier);
}

#[test]
fn app_submit_to_a_full_ledger_fails_after_the_sweep() {
    let config = AppConfig {
        clean_before: span(TimeDelta::hours(1)),
        clean_timeout: span(TimeDelta::seconds(0)),
    };
    let mut app = App::new(Ledger::new(2), config);
    let now = default_now();
    app.submit(instant(now - TimeDelta::hours(3)), true).expect("submit");
    app.submit(instant(now - TimeDelta::hours(2)), true).expect("submit");
    // Both are swept at `now - 30 min`, so there is room again.
    app.submit(instant(now - TimeDelta::minutes(30)), true).expect("submit");
    app.submit(instant(now - TimeDelta::minutes(20)), false).expect("submit");
    let outcome = app.submit(instant(now), true);
    assert_eq!(outcome, Err(AppError::Surveyor(StorageFailure::Full)));
    assert_eq!(app.ledger().len(), 2);
    assert_eq!(app.cleaner().last_clean(), Some(instant(now)));
}

#[test]
fn app_on_a_closed_ledger_fails_in_the_cleaner() {
    let config = AppConfig {
        clean_before: span(TimeDelta::hours(1)),
        clean_timeout: span(TimeDelta::seconds(60)),
    };
    let mut ledger = Ledger::new(4);
    ledger.close();
    let mut app = App::new(ledger, config);
    let now = instant(default_now());
    let error = AppError::Cleaner(CleanerError::LibSql(StorageFailure::Closed));
    assert_eq!(app.submit(now, true), Err(error.clone()));
    assert_eq!(app.summary(now), Err(error));
    // Nothing was noted, so the next call tries again.
    assert_eq!(app.cleaner().last_clean(), None);
}

#[test]
fn app_closed_while_debounced_fails_in_the_surveyor() {
    let config = AppConfig {
        clean_before: span(TimeDelta::hours(1)),
        clean_timeout: span(TimeDelta::seconds(60)),
    };
    let mut app = App::new(Ledger::new(4), config);
    let now = instant(default_now());
    app.submit(now, true).expect("submit");
    app.close();
    let error = AppError::Surveyor(StorageFailure::Closed);
    assert_eq!(app.submit(now, false), Err(error.clone()));
    assert_eq!(app.summary(now), Err(error));
    assert_eq!(app.ledger().len(), 1);
}

#[test]
fn app_error_messages() {
    let cleaner = AppError::Cleaner(CleanerError::Poisoned);
    assert_eq!(cleaner.message(), "cleaner: lock poisoned");
    let store = AppError::Cleaner(CleanerError::LibSql(StorageFailure::Closed));
    assert_eq!(store.message(), "cleaner: libsql: store closed");
    let surveyor = AppError::Surveyor(StorageFailure::Backend("no such table".to_string()));
    assert_eq!(surveyor.message(), "surveyor: no such table");
    assert_eq!(AppError::Surveyor(StorageFailure::Full).message(), "surveyor: store full");
}

#[test]
fn app_config_default_is_zero() {
    let config = AppConfig::default();
    assert_eq!(config.clean_before, Span { secs: 0, nanos: 0 });
    assert_eq!(config.clean_timeout, Span { secs: 0, nanos: 0 });
}
