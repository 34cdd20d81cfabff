use db_copier::fanout::{drain, FanOut, WORKER_LIMIT};
use db_copier::model::DbError;

#[test]
fn worker_limit_is_four() {
    assert_eq!(WORKER_LIMIT, 4);
}

#[test]
fn ten_jobs_never_run_more_than_four_at_once() {
    let mut ctl = FanOut::new(10);
    let mut running: Vec<usize> = Vec::new();
    let mut started: Vec<usize> = Vec::new();
    let mut peak = 0;
    while !ctl.is_drained() {
        while let Some(i) = ctl.admit_next() {
            running.push(i);
            started.push(i);
            assert!(ctl.running() <= 4);
        }
        assert_eq!(ctl.running(), running.len());
        peak = peak.max(running.len());
        let done = running.remove(running.len() / 2);
        let result = if done == 3 || done == 7 {
            Err(DbError::Query(format!("table {} failed", done)))
        } else {
            Ok(())
        };
        ctl.finish(result);
    }
    assert_eq!(peak, 4);
    assert_eq!(started, (0..10).collect::<Vec<_>>());
    assert!(ctl.outcome().is_err());
}

#[test]
fn fifth_job_waits_for_a_free_worker() {
    let mut ctl = FanOut::new(10);
    for i in 0..4 {
        assert_eq!(ctl.admit_next(), Some(i));
    }
    assert_eq!(ctl.admit_next(), None);
    ctl.finish(Ok(()));
    assert_eq!(ctl.admit_next(), Some(4));
    assert_eq!(ctl.admit_next(), None);
}

#[test]
fn outcome_is_the_first_error_seen() {
    let mut ctl = FanOut::new(3);
    ctl.admit_next();
    ctl.admit_next();
    ctl.admit_next();
    ctl.finish(Ok(()));
    assert_eq!(ctl.outcome(), Ok(()));
    ctl.finish(Err(DbError::Query("first".into())));
    ctl.finish(Err(DbError::Connection("second".into())));
    assert!(ctl.is_drained());
    assert_eq!(ctl.outcome(), Err(DbError::Query("first".into())));
}

#[test]
fn fan_out_over_no_jobs_is_drained_and_succeeds() {
    let mut ctl = FanOut::new(0);
    assert!(ctl.is_drained());
    assert_eq!(ctl.admit_next(), None);
    assert_eq!(ctl.outcome(), Ok(()));
}

#[test]
fn finish_without_a_running_job_moves_no_counter() {
    let mut ctl = FanOut::new(2);
    ctl.finish(Ok(()));
    assert_eq!(ctl.running(), 0);
    assert!(!ctl.is_drained());
    assert_eq!(ctl.admit_next(), Some(0));
}

#[test]
fn drain_gives_the_first_error_in_finishing_order() {
    assert_eq!(drain(&vec![]), Ok(()));
    assert_eq!(drain(&vec![Ok(()), Ok(())]), Ok(()));
    let results = vec![
        Ok(()),
        Err(DbError::Query("seven".into())),
        Ok(()),
        Err(DbError::Query("three".into())),
    ];
    assert_eq!(drain(&results), Err(DbError::Query("seven".into())));
}
