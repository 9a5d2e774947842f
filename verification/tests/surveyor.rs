use backend::ledger::{GroupedCount, Ledger, StorageFailure};
use backend::surveyor::{Question, Summary, Surveyor};
use backend::time::Instant;

const HOUR: i64 = 3600;

fn at(secs: i64) -> Instant {
    Instant::new(secs, 0)
}

fn counts(yes: i64, no: i64) -> Question<i64> {
    Question { yes, no }
}

fn line(classifier: bool, within: [Option<i64>; 5]) -> GroupedCount {
    GroupedCount {
        classifier,
        within_24: within[0],
        within_12: within[1],
        within_6: within[2],
        within_3: within[3],
        within_1: within[4],
    }
}

#[test]
fn question_set_answer_sets_one_side() {
    let mut question = Question { yes: 1, no: 2 };
    question.set_answer(true, 10);
    assert_eq!(question, Question { yes: 10, no: 2 });
    question.set_answer(false, 20);
    assert_eq!(question, Question { yes: 10, no: 20 });
}

#[test]
fn question_default_is_the_default_of_its_counts() {
    assert_eq!(Question::<u8>::default(), Question { yes: 0, no: 0 });
    assert_eq!(Question::<String>::default(), Question { yes: String::new(), no: String::new() });
}

#[test]
fn summary_new_is_all_zero() {
    let summary: Summary<i64> = Summary::new();
    assert_eq!(summary, Summary {
        last_24_hours: counts(0, 0),
        last_12_hours: counts(0, 0),
        last_6_hours: counts(0, 0),
        last_3_hours: counts(0, 0),
        last_hour: counts(0, 0),
    });
    assert_eq!(Summary::<u32>::new(), Summary::<u32>::default());
}

#[test]
fn summary_record_overwrites_one_classifier() {
    let mut summary: Summary<i64> = Summary::new();
    summary.record(&line(true, [Some(5), Some(4), Some(3), None, None]));
    summary.record(&line(false, [Some(9), None, None, None, None]));
    assert_eq!(summary, Summary {
        last_24_hours: counts(5, 9),
        last_12_hours: counts(4, 0),
        last_6_hours: counts(3, 0),
        last_3_hours: counts(0, 0),
        last_hour: counts(0, 0),
    });
    summary.record(&line(true, [None, None, None, None, Some(1)]));
    assert_eq!(summary, Summary {
        last_24_hours: counts(0, 9),
        last_12_hours: counts(0, 0),
        last_6_hours: counts(0, 0),
        last_3_hours: counts(0, 0),
        last_hour: counts(1, 0),
    });
}

#[test]
fn summarize_no_lines_is_all_zero() {
    assert_eq!(Summary::summarize(&vec![]), Summary::new());
}

#[test]
fn summarize_last_line_of_a_classifier_stands() {
    let lines = vec![
        line(true, [Some(1), Some(1), Some(1), Some(1), Some(1)]),
        line(false, [Some(8), Some(7), Some(6), Some(5), Some(4)]),
        line(true, [Some(30), Some(20), None, Some(-2), Some(i64::MAX)]),
    ];
    assert_eq!(Summary::summarize(&lines), Summary {
        last_24_hours: counts(30, 8),
        last_12_hours: counts(20, 7),
        last_6_hours: counts(0, 6),
        last_3_hours: counts(-2, 5),
        last_hour: counts(i64::MAX, 4),
    });
}

#[test]
fn surveyor_submit_appends() {
    let surveyor = Surveyor::new();
    let mut ledger = Ledger::new(2);
    surveyor.submit(&mut ledger, at(5), true).expect("submit");
    surveyor.submit(&mut ledger, at(5), true).expect("submit");
    assert_eq!(ledger.len(), 2);
    assert_eq!(surveyor.submit(&mut ledger, at(6), true), Err(StorageFailure::Full));
    assert_eq!(ledger.len(), 2);
    ledger.close();
    assert_eq!(surveyor.submit(&mut ledger, at(6), true), Err(StorageFailure::Closed));
}

#[test]
fn surveyor_summary_counts_each_window() {
    let surveyor = Surveyor::new();
    let mut ledger = Ledger::new(100);
    let now = 500 * HOUR;
    for hours in 0..=30 {
        surveyor.submit(&mut ledger, at(now - hours * HOUR), true).expect("submit");
        if hours % 2 == 1 {
            surveyor.submit(&mut ledger, at(now - hours * HOUR), false).expect("submit");
        }
    }
    let summary = surveyor.summary(&ledger, at(now)).expect("summary");
    assert_eq!(summary, Summary {
        last_24_hours: counts(25, 12),
        last_12_hours: counts(13, 6),
        last_6_hours: counts(7, 3),
        last_3_hours: counts(4, 2),
        last_hour: counts(2, 1),
    });
}

#[test]
fn surveyor_summary_counts_votes_after_now() {
    let surveyor = Surveyor::new();
    let mut ledger = Ledger::new(100);
    surveyor.submit(&mut ledger, at(1_000_000), false).expect("submit");
    let summary = surveyor.summary(&ledger, at(0)).expect("summary");
    assert_eq!(summary.last_hour, counts(0, 1));
    assert_eq!(summary.last_24_hours, counts(0, 1));
}

#[test]
fn surveyor_summary_of_one_classifier_leaves_the_other_at_zero() {
    let surveyor = Surveyor::new();
    let mut ledger = Ledger::new(100);
    surveyor.submit(&mut ledger, at(100 * HOUR), true).expect("submit");
    surveyor.submit(&mut ledger, at(95 * HOUR), true).expect("submit");
    let summary = surveyor.summary(&ledger, at(100 * HOUR)).expect("summary");
    assert_eq!(summary, Summary {
        last_24_hours: counts(2, 0),
        last_12_hours: counts(2, 0),
        last_6_hours: counts(2, 0),
        last_3_hours: counts(1, 0),
        last_hour: counts(1, 0),
    });
}

#[test]
fn surveyor_duplicates_raise_the_counts_that_take_them_in() {
    let surveyor = Surveyor::new();
    let mut ledger = Ledger::new(100);
    let now = 100 * HOUR;
    surveyor.submit(&mut ledger, at(now), false).expect("submit");
    surveyor.submit(&mut ledger, at(now - 20 * HOUR), true).expect("submit");
    let before = surveyor.summary(&ledger, at(now)).expect("summary");
    for _ in 0..7 {
        surveyor.submit(&mut ledger, at(now - 4 * HOUR), true).expect("submit");
    }
    let after = surveyor.summary(&ledger, at(now)).expect("summary");
    assert_eq!(after.last_24_hours, counts(before.last_24_hours.yes + 7, before.last_24_hours.no));
    assert_eq!(after.last_12_hours, counts(before.last_12_hours.yes + 7, before.last_12_hours.no));
    assert_eq!(after.last_6_hours, counts(before.last_6_hours.yes + 7, before.last_6_hours.no));
    assert_eq!(after.last_3_hours, before.last_3_hours);
    assert_eq!(after.last_hour, before.last_hour);
    assert_eq!(after.last_24_hours, counts(8, 1));
}

#[test]
fn surveyor_summary_fails_on_a_closed_ledger() {
    let surveyor = Surveyor::new();
    let mut ledger = Ledger::new(100);
    ledger.close();
    assert_eq!(surveyor.summary(&ledger, at(0)), Err(StorageFailure::Closed));
}
