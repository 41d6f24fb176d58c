use trk::{EventKind, OpError, Session, Timesheet};

fn sheet_at(start: u64) -> Timesheet {
    Timesheet::init(Some("tester".to_string()), None, start).expect("a name was given")
}

#[test]
fn events_strictly_increasing_rejects_stale_timestamp() {
    let mut s = Session::new(100);
    assert_eq!(s.push_event_at(150, None, EventKind::Note), Ok(()));
    assert_eq!(s.push_event_at(200, None, EventKind::Note), Ok(()));
    // equal to the last event's timestamp: refused, log unchanged
    assert_eq!(
        s.push_event_at(200, None, EventKind::Note),
        Err(OpError::InvalidTimestamp)
    );
    // before the last event's timestamp: refused, log unchanged
    assert_eq!(
        s.push_event_at(151, None, EventKind::Note),
        Err(OpError::InvalidTimestamp)
    );
    assert_eq!(s.events.len(), 2);
    assert!(s.events[0].timestamp < s.events[1].timestamp);
}

#[test]
fn first_event_must_be_after_session_start() {
    let mut s = Session::new(100);
    assert_eq!(
        s.push_event_at(100, None, EventKind::Note),
        Err(OpError::InvalidTimestamp)
    );
    assert!(s.events.is_empty());
    assert_eq!(s.push_event_at(101, None, EventKind::Note), Ok(()));
}

#[test]
fn pause_after_pause_fails_and_leaves_log_unchanged() {
    let mut s = Session::new(100);
    assert_eq!(s.push_event_at(150, None, EventKind::Pause), Ok(()));
    assert_eq!(
        s.push_event_at(160, None, EventKind::Pause),
        Err(OpError::AlreadyPaused)
    );
    assert_eq!(s.events.len(), 1);
    assert_eq!(s.end, 151);
}

#[test]
fn resume_without_open_pause_fails_and_leaves_log_unchanged() {
    let mut s = Session::new(100);
    assert_eq!(
        s.push_event_at(150, None, EventKind::Resume),
        Err(OpError::NotPaused)
    );
    assert!(s.events.is_empty());
    assert_eq!(s.push_event_at(150, None, EventKind::Pause), Ok(()));
    assert_eq!(s.push_event_at(160, None, EventKind::Resume), Ok(()));
    // a second resume without an intervening pause
    assert_eq!(
        s.push_event_at(170, None, EventKind::Resume),
        Err(OpError::NotPaused)
    );
    assert_eq!(s.events.len(), 2);
}

#[test]
fn pause_time_counts_only_closed_intervals() {
    let mut s = Session::new(50);
    assert_eq!(s.push_event_at(100, None, EventKind::Pause), Ok(()));
    assert_eq!(s.push_event_at(150, None, EventKind::Resume), Ok(()));
    assert_eq!(s.pause_time(), 50);
    // an open trailing pause contributes nothing
    assert_eq!(s.push_event_at(300, None, EventKind::Pause), Ok(()));
    assert_eq!(s.pause_time(), 50);
}

#[test]
fn working_time_is_span_minus_pause_time() {
    let mut s = Session::new(100);
    assert_eq!(s.push_event_at(200, None, EventKind::Pause), Ok(()));
    assert_eq!(s.push_event_at(260, None, EventKind::Resume), Ok(()));
    assert_eq!(s.push_event_at(300, Some("n".to_string()), EventKind::Note), Ok(()));
    assert_eq!(s.end, 301);
    assert_eq!(s.pause_time(), 60);
    assert_eq!(s.working_time(), s.end - s.start - s.pause_time());
    assert_eq!(s.working_time(), 141);
    assert_eq!(s.finalize_at(400), Ok(()));
    assert_eq!(s.working_time(), s.end - s.start - s.pause_time());
}

#[test]
fn note_while_paused_merges_into_open_pause() {
    let mut s = Session::new(100);
    assert_eq!(
        s.push_event_at(150, Some("lunch".to_string()), EventKind::Pause),
        Ok(())
    );
    assert_eq!(
        s.push_event_at(160, Some("errand".to_string()), EventKind::Note),
        Ok(())
    );
    // event count unchanged, note content grown
    assert_eq!(s.events.len(), 1);
    assert_eq!(s.events[0].note.as_deref(), Some("lunch<br>errand"));
    assert_eq!(s.events[0].timestamp, 150);
    assert!(matches!(s.events[0].kind, EventKind::Pause));
}

#[test]
fn note_while_paused_creates_note_when_pause_has_none() {
    let mut s = Session::new(100);
    assert_eq!(s.push_event_at(150, None, EventKind::Pause), Ok(()));
    assert_eq!(
        s.push_event_at(160, Some("errand".to_string()), EventKind::Note),
        Ok(())
    );
    assert_eq!(s.events.len(), 1);
    assert_eq!(s.events[0].note.as_deref(), Some("errand"));
}

#[test]
fn note_while_running_appends_standalone_event() {
    let mut s = Session::new(100);
    assert_eq!(
        s.push_event_at(150, Some("hello".to_string()), EventKind::Note),
        Ok(())
    );
    assert_eq!(s.events.len(), 1);
    assert!(matches!(s.events[0].kind, EventKind::Note));
    assert_eq!(s.events[0].note.as_deref(), Some("hello"));
}

#[test]
fn commit_while_paused_inserts_exactly_one_synthetic_resume() {
    let mut s = Session::new(100);
    assert_eq!(s.push_event_at(150, None, EventKind::Pause), Ok(()));
    assert_eq!(
        s.push_event_at(
            200,
            Some("fix".to_string()),
            EventKind::Commit { hash: "abc123".to_string() }
        ),
        Ok(())
    );
    assert_eq!(s.events.len(), 3);
    assert!(matches!(s.events[1].kind, EventKind::Resume));
    assert_eq!(s.events[1].timestamp, 200);
    match &s.events[2].kind {
        EventKind::Commit { hash } => assert_eq!(hash, "abc123"),
        _ => panic!("expected a commit event"),
    }
    assert_eq!(s.events[2].timestamp, 201);
    assert_eq!(s.end, 202);
}

#[test]
fn commit_while_running_appends_single_event() {
    let mut s = Session::new(100);
    assert_eq!(
        s.push_event_at(
            150,
            Some("msg".to_string()),
            EventKind::Commit { hash: "beef".to_string() }
        ),
        Ok(())
    );
    assert_eq!(s.events.len(), 1);
    assert_eq!(s.events[0].timestamp, 150);
    assert_eq!(s.end, 151);
}

#[test]
fn push_on_finalized_session_fails() {
    let mut s = Session::new(100);
    assert_eq!(s.finalize_at(200), Ok(()));
    assert_eq!(
        s.push_event_at(300, None, EventKind::Note),
        Err(OpError::NotRunning)
    );
    assert!(s.events.is_empty());
}

#[test]
fn finalize_closes_open_pause_with_resume() {
    let mut s = Session::new(100);
    assert_eq!(s.push_event_at(150, None, EventKind::Pause), Ok(()));
    assert_eq!(s.finalize_at(200), Ok(()));
    assert!(!s.is_running());
    assert_eq!(s.events.len(), 2);
    assert!(matches!(s.events[1].kind, EventKind::Resume));
    assert_eq!(s.events[1].timestamp, 200);
    assert_eq!(s.end, 201);
    assert_eq!(s.pause_time(), 50);
}

#[test]
fn finalize_twice_is_a_no_op() {
    let mut s = Session::new(100);
    assert_eq!(s.push_event_at(150, None, EventKind::Note), Ok(()));
    assert_eq!(s.finalize_at(200), Ok(()));
    let end = s.end;
    let n = s.events.len();
    assert_eq!(s.finalize_at(900), Ok(()));
    assert_eq!(s.end, end);
    assert_eq!(s.events.len(), n);
    assert!(!s.is_running());
}

#[test]
fn finalize_with_stale_timestamp_is_fatal() {
    let mut s = Session::new(100);
    assert_eq!(s.push_event_at(150, None, EventKind::Note), Ok(()));
    assert_eq!(s.finalize_at(150), Err(OpError::FatalTimestamp));
    assert!(s.is_running());
    assert_eq!(s.events.len(), 1);
    assert!(OpError::FatalTimestamp.is_fatal());
    assert!(!OpError::NotPaused.is_fatal());
}

#[test]
fn add_branch_deduplicates_and_ignores_finalized() {
    let mut s = Session::new(100);
    s.add_branch("main".to_string());
    s.add_branch("feature".to_string());
    s.add_branch("main".to_string());
    assert_eq!(s.branches, vec!["main".to_string(), "feature".to_string()]);
    assert_eq!(s.finalize_at(200), Ok(()));
    s.add_branch("late".to_string());
    assert_eq!(s.branches.len(), 2);
}

#[test]
fn new_session_fails_while_prior_runs_and_succeeds_after_finalize() {
    let mut t = sheet_at(10);
    assert_eq!(t.new_session_at(100), Ok(()));
    assert_eq!(t.new_session_at(200), Err(OpError::LastSessionRunning));
    assert_eq!(t.sessions.len(), 1);
    assert_eq!(t.end_session_at(150), Ok(()));
    assert_eq!(t.new_session_at(200), Ok(()));
    assert_eq!(t.sessions.len(), 2);
}

#[test]
fn new_session_timestamp_must_exceed_previous_end() {
    let mut t = sheet_at(100);
    // not after the sheet start
    assert_eq!(t.new_session_at(100), Err(OpError::FatalTimestamp));
    assert!(t.sessions.is_empty());
    assert_eq!(t.new_session_at(200), Ok(()));
    assert_eq!(t.end_session_at(300), Ok(()));
    // not after the previous session's end (301)
    assert_eq!(t.new_session_at(301), Err(OpError::FatalTimestamp));
    assert_eq!(t.new_session_at(302), Ok(()));
}

#[test]
fn sheet_operations_without_session_report_no_session() {
    let mut t = sheet_at(10);
    assert_eq!(t.pause(Some(100), None), Err(OpError::NoSession));
    assert_eq!(t.resume(Some(100)), Err(OpError::NoSession));
    assert_eq!(t.note(Some(100), "x".to_string()), Err(OpError::NoSession));
    assert_eq!(t.end_session(Some(100)), Err(OpError::NoSession));
    assert!(t.sessions.is_empty());
}

#[test]
fn sheet_pause_resume_delegate_to_last_session() {
    let mut t = sheet_at(10);
    assert_eq!(t.new_session(Some(100)), Ok(()));
    assert_eq!(t.pause(Some(150), Some("break".to_string())), Ok(()));
    assert_eq!(t.pause(Some(160), None), Err(OpError::AlreadyPaused));
    assert_eq!(t.resume(Some(200)), Ok(()));
    assert_eq!(t.note(Some(250), "back".to_string()), Ok(()));
    let s = t.get_last_session().unwrap();
    assert_eq!(s.events.len(), 3);
    assert_eq!(t.pause_time(), 50);
}

#[test]
fn add_commit_opens_exactly_one_session_when_none_exists() {
    let mut t = sheet_at(10);
    assert_eq!(
        t.add_commit_at(100, "abc".to_string(), "message".to_string()),
        Ok(())
    );
    assert_eq!(t.sessions.len(), 1);
    let s = &t.sessions[0];
    assert!(s.is_running());
    assert_eq!(s.start, 100);
    assert_eq!(s.events.len(), 1);
    match &s.events[0].kind {
        EventKind::Commit { hash } => assert_eq!(hash, "abc"),
        _ => panic!("expected a commit event"),
    }
    assert_eq!(s.events[0].note.as_deref(), Some("message"));
}

#[test]
fn add_commit_opens_one_session_when_last_is_finalized() {
    let mut t = sheet_at(10);
    assert_eq!(t.new_session_at(100), Ok(()));
    assert_eq!(t.end_session_at(200), Ok(()));
    assert_eq!(
        t.add_commit_at(300, "def".to_string(), "second".to_string()),
        Ok(())
    );
    assert_eq!(t.sessions.len(), 2);
    assert!(t.sessions[1].is_running());
}

#[test]
fn add_commit_into_running_session_uses_given_time() {
    let mut t = sheet_at(10);
    assert_eq!(t.new_session_at(100), Ok(()));
    assert_eq!(
        t.add_commit_at(150, "aaa".to_string(), "m".to_string()),
        Ok(())
    );
    assert_eq!(t.sessions.len(), 1);
    assert_eq!(t.sessions[0].events.len(), 1);
    assert_eq!(t.sessions[0].events[0].timestamp, 150);
}

#[test]
fn add_commit_with_clock_lands_in_fresh_sheet() {
    // the clock is far past the sheet start, so recording succeeds
    let mut t = sheet_at(10);
    assert_eq!(t.add_commit("c0ffee".to_string(), "msg".to_string()), Ok(()));
    assert_eq!(t.sessions.len(), 1);
    assert_eq!(t.sessions[0].events.len(), 1);
    assert!(matches!(
        t.sessions[0].events[0].kind,
        EventKind::Commit { .. }
    ));
}

#[test]
fn sheet_times_sum_over_sessions() {
    let mut t = sheet_at(10);
    assert_eq!(t.new_session_at(100), Ok(()));
    assert_eq!(t.pause(Some(110), None), Ok(()));
    assert_eq!(t.resume(Some(130)), Ok(()));
    assert_eq!(t.end_session_at(200), Ok(()));
    assert_eq!(t.new_session_at(300), Ok(()));
    assert_eq!(t.pause(Some(310), None), Ok(()));
    assert_eq!(t.resume(Some(340)), Ok(()));
    assert_eq!(t.end_session_at(400), Ok(()));
    assert_eq!(t.pause_time(), 20 + 30);
    // session spans are 101 and 101 seconds; minus pauses
    assert_eq!(t.working_time(), (201 - 100 - 20) + (401 - 300 - 30));
    assert_eq!(
        t.working_time(),
        t.sessions[0].working_time() + t.sessions[1].working_time()
    );
}

#[test]
fn init_prefers_given_name_over_vcs_name() {
    let t = Timesheet::init(Some("alice".to_string()), Some("bob".to_string()), 10).unwrap();
    assert_eq!(t.user, "alice");
    assert!(t.show_commits);
    assert_eq!(t.repo, "");
    assert_eq!(t.start, 10);
    assert_eq!(t.end, 11);
    let t2 = Timesheet::init(None, Some("bob".to_string()), 10).unwrap();
    assert_eq!(t2.user, "bob");
    assert!(Timesheet::init(None, None, 10).is_none());
}

#[test]
fn toggle_and_repo_settings() {
    let mut t = sheet_at(10);
    t.toggle_show_git_info(false);
    assert!(!t.show_commits);
    t.toggle_show_git_info(true);
    assert!(t.show_commits);
    t.set_repo_url("https://example.invalid/repo.git".to_string());
    assert_eq!(t.repo, "https://example.invalid/repo.git");
}

#[test]
fn get_seconds_returns_a_recent_epoch_time() {
    let now = trk::get_seconds();
    // well after 2001-09-09 in Unix seconds
    assert!(now > 1_000_000_000);
}

#[test]
fn check_wf_accepts_built_state_and_rejects_corrupt_state() {
    let mut t = sheet_at(10);
    assert_eq!(t.new_session_at(100), Ok(()));
    assert_eq!(t.pause(Some(150), None), Ok(()));
    assert!(t.check_wf());
    assert!(t.sessions[0].check_wf());
    // a log whose timestamps do not increase is rejected
    let mut bad = Session::new(100);
    bad.push_event_at(150, None, EventKind::Note).unwrap();
    bad.events[0].timestamp = 90;
    assert!(!bad.check_wf());
    // a resume without an open pause is rejected
    let mut bad2 = Session::new(100);
    bad2.push_event_at(150, None, EventKind::Note).unwrap();
    bad2.events[0].kind = EventKind::Resume;
    assert!(!bad2.check_wf());
    // overlapping sessions are rejected
    t.end_session_at(200).unwrap();
    let mut t2 = t;
    t2.new_session_at(300).unwrap();
    t2.sessions[1].start = 150;
    assert!(!t2.check_wf());
}

#[test]
fn clocked_session_lifecycle_on_fresh_sheet() {
    // the clock lies far past the sheet start, so opening succeeds
    let mut t = sheet_at(10);
    assert_eq!(t.new_session(None), Ok(()));
    assert_eq!(t.sessions.len(), 1);
    assert!(t.sessions[0].is_running());
    assert_eq!(t.new_session(None), Err(OpError::LastSessionRunning));
    // a timestamp beyond any clock value closes the session
    assert_eq!(t.end_session(Some(u64::MAX - 1)), Ok(()));
    assert!(!t.sessions[0].is_running());
    // ending again changes nothing, whatever the clock now reads
    let end = t.sessions[0].end;
    assert_eq!(t.end_session(None), Ok(()));
    assert_eq!(t.sessions[0].end, end);
}

#[test]
fn working_time_identity_after_mixed_operations() {
    let mut t = sheet_at(10);
    assert_eq!(t.new_session_at(100), Ok(()));
    assert_eq!(t.pause(Some(120), Some("p".to_string())), Ok(()));
    assert_eq!(t.note(Some(130), "while paused".to_string()), Ok(()));
    assert_eq!(t.resume(Some(140)), Ok(()));
    assert_eq!(
        t.add_commit_at(160, "fff".to_string(), "work".to_string()),
        Ok(())
    );
    assert_eq!(t.pause(Some(170), None), Ok(()));
    assert_eq!(t.end_session_at(200), Ok(()));
    let s = &t.sessions[0];
    assert_eq!(s.working_time(), s.end - s.start - s.pause_time());
    // pause intervals: 120..140 and 170..200 (closed by finalization)
    assert_eq!(s.pause_time(), 20 + 30);
    assert_eq!(s.end, 201);
    assert_eq!(s.working_time(), 101 - 50);
}

#[test]
fn update_end_rederives_span_from_log() {
    let mut s = Session::new(100);
    assert_eq!(s.push_event_at(150, None, EventKind::Note), Ok(()));
    assert_eq!(s.finalize_at(500), Ok(()));
    assert_eq!(s.end, 501);
    // the span shrinks back to one past the last event
    s.update_end();
    assert_eq!(s.end, 151);
    // with an empty log the span is untouched
    let mut fresh = Session::new(100);
    fresh.update_end();
    assert_eq!(fresh.end, 101);
}
