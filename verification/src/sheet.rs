use vstd::prelude::*;

use crate::clock::get_seconds;
use crate::duration::{dec_seq, dec_string, elapsed, hms_seq, sec_to_hms_string};
use crate::errors::OpError;
use crate::event::{Event, EventKind};
use crate::session::{spec_pause_time, Session};

verus! {

/// The root of the tracked state: sheet-level metadata plus the ordered,
/// append-only list of sessions. Every operation acts on the last session;
/// a new session may only be appended once the previous one is finalized.
pub struct Timesheet {
    /// Seconds since the epoch at which tracking began.
    pub start: u64,
    /// Informational sheet-level end, set at creation.
    pub end: u64,
    /// The owner's display name.
    pub user: String,
    /// Display preference: whether reports show commit details.
    pub show_commits: bool,
    /// Free-text repository identifier.
    pub repo: String,
    /// Ordered list of sessions; only the last may still be running.
    pub sessions: Vec<Session>,
}

/// Every session is well-formed.
pub open spec fn sessions_wf(sessions: Seq<Session>) -> bool {
    forall|i: int| 0 <= i < sessions.len() ==> (#[trigger] sessions[i]).wf()
}

/// Sessions occupy disjoint, strictly increasing spans: each starts
/// strictly after the previous one ended (and after `sheet_start`).
pub open spec fn sessions_ordered(sessions: Seq<Session>, sheet_start: int) -> bool {
    &&& (sessions.len() > 0 ==> sheet_start < sessions[0].start)
    &&& forall|i: int, j: int|
        #![trigger sessions[i], sessions[j]]
        0 <= i && j == i + 1 && j < sessions.len() ==> sessions[i].end < sessions[j].start
}

/// All sessions but the last are finalized.
pub open spec fn only_last_running(sessions: Seq<Session>) -> bool {
    forall|i: int| 0 <= i < sessions.len() - 1 ==> !(#[trigger] sessions[i]).running
}

/// Total closed pause time over all sessions.
pub open spec fn spec_sheet_pause_time(sessions: Seq<Session>) -> int
    decreases sessions.len(),
{
    if sessions.len() == 0 {
        0
    } else {
        spec_sheet_pause_time(sessions.drop_last()) + spec_pause_time(sessions.last().events@)
    }
}

/// Total working time over all sessions: each session's span minus its
/// closed pause time.
pub open spec fn spec_sheet_working_time(sessions: Seq<Session>) -> int
    decreases sessions.len(),
{
    if sessions.len() == 0 {
        0
    } else {
        spec_sheet_working_time(sessions.drop_last()) + (sessions.last().end
            - sessions.last().start - spec_pause_time(sessions.last().events@))
    }
}

/// The sheet-level metadata is untouched by an operation.
pub open spec fn meta_unchanged(pre: Timesheet, post: Timesheet) -> bool {
    &&& post.start == pre.start
    &&& post.end == pre.end
    &&& post.user == pre.user
    &&& post.show_commits == pre.show_commits
    &&& post.repo == pre.repo
}

impl Timesheet {
    /// Well-formedness: sessions are well-formed, occupy disjoint
    /// increasing spans after the sheet start, and only the last may run.
    pub open spec fn wf(self) -> bool {
        &&& self.start < self.end
        &&& sessions_wf(self.sessions@)
        &&& sessions_ordered(self.sessions@, self.start as int)
        &&& only_last_running(self.sessions@)
    }

    /// A timestamp at which a new session may begin: strictly after the
    /// last session's end (or the sheet start), with room for the
    /// session's initial one-second span.
    pub open spec fn valid_session_ts(self, ts: u64) -> bool {
        &&& ts < u64::MAX
        &&& if self.sessions@.len() == 0 {
            self.start < ts
        } else {
            self.sessions@.last().end < ts
        }
    }

    /// Whether [`Timesheet::new_session_at`] accepts or refuses: refused
    /// while the last session still runs, and fatally on a timestamp not
    /// strictly after the last session's end.
    pub open spec fn new_session_outcome(self, ts: u64) -> Result<(), OpError> {
        if self.sessions@.len() > 0 && self.sessions@.last().running {
            Err(OpError::LastSessionRunning)
        } else if !self.valid_session_ts(ts) {
            Err(OpError::FatalTimestamp)
        } else {
            Ok(())
        }
    }

    /// The session that [`Timesheet::add_commit_at`] opens when none is
    /// running: started at `ts`, holding exactly the commit, recorded one
    /// second later.
    pub open spec fn fresh_commit_session(
        post: Session,
        ts: u64,
        hash: String,
        message: String,
    ) -> bool {
        &&& post.start == ts
        &&& post.end == ts + 2
        &&& post.running
        &&& post.branches@.len() == 0
        &&& post.events@ == seq![
            Event {
                timestamp: (ts + 1) as u64,
                note: Some(message),
                kind: EventKind::Commit { hash: hash },
            },
        ]
    }

    /// Creates a sheet at `timestamp` owned by `author_name`, or by
    /// `vcs_author` (the name the version-control system reports) when no
    /// name was given. With neither name available nothing is created.
    pub fn init(author_name: Option<String>, vcs_author: Option<String>, timestamp: u64) -> (r:
        Option<Timesheet>)
        requires
            timestamp < u64::MAX,
        ensures
            r is Some <==> (author_name is Some || vcs_author is Some),
            r matches Some(sheet) ==> {
                &&& sheet.wf()
                &&& sheet.start == timestamp
                &&& sheet.end == timestamp + 1
                &&& sheet.show_commits == true
                &&& sheet.repo@ == Seq::<char>::empty()
                &&& sheet.sessions@.len() == 0
                &&& (author_name matches Some(n) ==> sheet.user == n)
                &&& (author_name is None ==> (vcs_author matches Some(g) ==> sheet.user == g))
            },
    {
        let user = match author_name {
            Some(n) => n,
            None => match vcs_author {
                Some(g) => g,
                None => {
                    return None;
                },
            },
        };
        Some(
            Timesheet {
                start: timestamp,
                end: timestamp + 1,
                user,
                show_commits: true,
                repo: String::new(),
                sessions: Vec::new(),
            },
        )
    }

    /// The last session, if any.
    pub fn get_last_session(&self) -> (r: Option<&Session>)
        ensures
            self.sessions@.len() == 0 ==> r is None,
            self.sessions@.len() > 0 ==> (r matches Some(s) && *s == self.sessions@.last()),
    {
        let n = self.sessions.len();
        if n == 0 {
            None
        } else {
            Some(&self.sessions[n - 1])
        }
    }

    /// Appends a fresh running session starting at `timestamp`; see
    /// [`Timesheet::new_session_outcome`] for when this is refused. A
    /// refused operation leaves the sheet unchanged.
    pub fn new_session_at(&mut self, timestamp: u64) -> (r: Result<(), OpError>)
        requires
            old(self).wf(),
        ensures
            final(self).wf(),
            meta_unchanged(*old(self), *final(self)),
            r == old(self).new_session_outcome(timestamp),
            r is Err ==> final(self).sessions@ == old(self).sessions@,
            r is Ok ==> {
                &&& final(self).sessions@.len() == old(self).sessions@.len() + 1
                &&& final(self).sessions@.drop_last() == old(self).sessions@
                &&& final(self).sessions@.last().start == timestamp
                &&& final(self).sessions@.last().end == timestamp + 1
                &&& final(self).sessions@.last().running
                &&& final(self).sessions@.last().events@.len() == 0
                &&& final(self).sessions@.last().branches@.len() == 0
            },
    {
        let n = self.sessions.len();
        if n > 0 && self.sessions[n - 1].is_running() {
            return Err(OpError::LastSessionRunning);
        }
        let valid = if n == 0 {
            timestamp > self.start
        } else {
            timestamp > self.sessions[n - 1].end
        };
        if !(valid && timestamp < u64::MAX) {
            return Err(OpError::FatalTimestamp);
        }
        self.sessions.push(Session::new(timestamp));
        proof {
            assert(self.sessions@.drop_last() =~= old(self).sessions@);
            assert forall|i: int| 0 <= i < self.sessions@.len() implies (
            #[trigger] self.sessions@[i]).wf() by {
                if i < n {
                    assert(old(self).sessions@[i].wf());
                }
            }
            assert forall|i: int| 0 <= i < self.sessions@.len() - 1 implies !(
            #[trigger] self.sessions@[i]).running by {
                if i < n - 1 {
                    assert(!old(self).sessions@[i].running);
                }
            }
        }
        Ok(())
    }

    /// Appends a fresh running session, at the given timestamp or at the
    /// current clock time; see [`Timesheet::new_session_at`].
    pub fn new_session(&mut self, timestamp: Option<u64>) -> (r: Result<(), OpError>)
        requires
            old(self).wf(),
        ensures
            final(self).wf(),
            meta_unchanged(*old(self), *final(self)),
            r is Err ==> final(self).sessions@ == old(self).sessions@,
            old(self).sessions@.len() > 0 && old(self).sessions@.last().running ==> r == Err::<
                (),
                OpError,
            >(OpError::LastSessionRunning),
            r is Ok ==> {
                &&& final(self).sessions@.len() == old(self).sessions@.len() + 1
                &&& final(self).sessions@.drop_last() == old(self).sessions@
                &&& final(self).sessions@.last().running
                &&& final(self).sessions@.last().events@.len() == 0
                &&& final(self).sessions@.last().branches@.len() == 0
                &&& old(self).valid_session_ts(final(self).sessions@.last().start)
                &&& final(self).sessions@.last().end == final(self).sessions@.last().start + 1
            },
            timestamp matches Some(ts) ==> r == old(self).new_session_outcome(ts),
            timestamp matches Some(ts) ==> (r is Ok ==> final(self).sessions@.last().start == ts),
    {
        match timestamp {
            Some(ts) => self.new_session_at(ts),
            None => {
                let now = get_seconds();
                self.new_session_at(now)
            },
        }
    }

    /// Finalizes the last session at `timestamp`: a no-op when it is
    /// already finalized, refused fatally on a timestamp not strictly
    /// after its log, refused when there is no session at all.
    pub fn end_session_at(&mut self, timestamp: u64) -> (r: Result<(), OpError>)
        requires
            old(self).wf(),
        ensures
            final(self).wf(),
            meta_unchanged(*old(self), *final(self)),
            r is Err ==> final(self).sessions@ == old(self).sessions@,
            old(self).sessions@.len() == 0 ==> r == Err::<(), OpError>(OpError::NoSession),
            old(self).sessions@.len() > 0 ==> {
                &&& final(self).sessions@.len() == old(self).sessions@.len()
                &&& final(self).sessions@.drop_last() == old(self).sessions@.drop_last()
                &&& (!old(self).sessions@.last().running ==> r is Ok && final(self).sessions@
                    == old(self).sessions@)
                &&& (old(self).sessions@.last().running && !old(self).sessions@.last().valid_ts(
                    timestamp,
                ) ==> r == Err::<(), OpError>(OpError::FatalTimestamp))
                &&& (old(self).sessions@.last().running && old(self).sessions@.last().valid_ts(
                    timestamp,
                ) ==> r is Ok && Session::finalize_post(
                    old(self).sessions@.last(),
                    final(self).sessions@.last(),
                    timestamp,
                ))
            },
    {
        let n = self.sessions.len();
        if n == 0 {
            return Err(OpError::NoSession);
        }
        let s = &mut self.sessions[n - 1];
        let r = s.finalize_at(timestamp);
        proof {
            assert(self.sessions@ =~= old(self).sessions@.update(
                n - 1,
                self.sessions@.last(),
            ));
            assert(self.sessions@.drop_last() =~= old(self).sessions@.drop_last());
            if !old(self).sessions@.last().running || (old(self).sessions@.last().running
                && !old(self).sessions@.last().valid_ts(timestamp)) {
                assert(self.sessions@ =~= old(self).sessions@);
            }
            assert forall|i: int| 0 <= i < self.sessions@.len() implies (
            #[trigger] self.sessions@[i]).wf() by {
                if i < n - 1 {
                    assert(self.sessions@[i] == old(self).sessions@[i]);
                    assert(old(self).sessions@[i].wf());
                }
            }
        }
        r
    }

    /// Finalizes the last session, at the given timestamp or at the
    /// current clock time; see [`Timesheet::end_session_at`].
    pub fn end_session(&mut self, timestamp: Option<u64>) -> (r: Result<(), OpError>)
        requires
            old(self).wf(),
        ensures
            final(self).wf(),
            meta_unchanged(*old(self), *final(self)),
            r is Err ==> final(self).sessions@ == old(self).sessions@,
            old(self).sessions@.len() == 0 ==> r == Err::<(), OpError>(OpError::NoSession),
            old(self).sessions@.len() > 0 ==> {
                &&& final(self).sessions@.len() == old(self).sessions@.len()
                &&& final(self).sessions@.drop_last() == old(self).sessions@.drop_last()
                &&& (!old(self).sessions@.last().running ==> r is Ok && final(self).sessions@
                    == old(self).sessions@)
                &&& (r is Ok && old(self).sessions@.last().running ==> exists|ts: u64|
                    old(self).sessions@.last().valid_ts(ts) && #[trigger] Session::finalize_post(
                        old(self).sessions@.last(),
                        final(self).sessions@.last(),
                        ts,
                    ))
            },
            timestamp matches Some(ts) ==> (old(self).sessions@.len() > 0
                && old(self).sessions@.last().running && !old(self).sessions@.last().valid_ts(ts)
                ==> r == Err::<(), OpError>(OpError::FatalTimestamp)),
    {
        match timestamp {
            Some(ts) => self.end_session_at(ts),
            None => {
                let now = get_seconds();
                self.end_session_at(now)
            },
        }
    }

    /// Records one event at `timestamp` in the last session; refused with
    /// `NoSession` when the sheet is empty, otherwise exactly as
    /// [`Session::push_event_at`].
    fn push_to_last(&mut self, timestamp: u64, note: Option<String>, kind: EventKind) -> (r:
        Result<(), OpError>)
        requires
            old(self).wf(),
        ensures
            final(self).wf(),
            meta_unchanged(*old(self), *final(self)),
            r is Err ==> final(self).sessions@ == old(self).sessions@,
            old(self).sessions@.len() == 0 ==> r == Err::<(), OpError>(OpError::NoSession),
            old(self).sessions@.len() > 0 ==> {
                &&& r == old(self).sessions@.last().push_outcome(timestamp, kind)
                &&& final(self).sessions@.len() == old(self).sessions@.len()
                &&& final(self).sessions@.drop_last() == old(self).sessions@.drop_last()
                &&& Session::push_post(
                    old(self).sessions@.last(),
                    final(self).sessions@.last(),
                    timestamp,
                    note,
                    kind,
                )
            },
    {
        let n = self.sessions.len();
        if n == 0 {
            return Err(OpError::NoSession);
        }
        let s = &mut self.sessions[n - 1];
        let r = s.push_event_at(timestamp, note, kind);
        proof {
            assert(self.sessions@ =~= old(self).sessions@.update(
                n - 1,
                self.sessions@.last(),
            ));
            assert(self.sessions@.drop_last() =~= old(self).sessions@.drop_last());
            if r is Err {
                assert(self.sessions@ =~= old(self).sessions@);
            }
            assert forall|i: int| 0 <= i < self.sessions@.len() implies (
            #[trigger] self.sessions@[i]).wf() by {
                if i < n - 1 {
                    assert(self.sessions@[i] == old(self).sessions@[i]);
                    assert(old(self).sessions@[i].wf());
                }
            }
        }
        r
    }

    /// Opens a pause in the last session, at the given timestamp or at
    /// the current clock time.
    pub fn pause(&mut self, timestamp: Option<u64>, note: Option<String>) -> (r: Result<
        (),
        OpError,
    >)
        requires
            old(self).wf(),
        ensures
            final(self).wf(),
            meta_unchanged(*old(self), *final(self)),
            r is Err ==> final(self).sessions@ == old(self).sessions@,
            old(self).sessions@.len() == 0 ==> r == Err::<(), OpError>(OpError::NoSession),
            old(self).sessions@.len() > 0 ==> {
                &&& final(self).sessions@.len() == old(self).sessions@.len()
                &&& final(self).sessions@.drop_last() == old(self).sessions@.drop_last()
                &&& exists|ts: u64|
                    r == old(self).sessions@.last().push_outcome(ts, EventKind::Pause)
                        && #[trigger] Session::push_post(
                        old(self).sessions@.last(),
                        final(self).sessions@.last(),
                        ts,
                        note,
                        EventKind::Pause,
                    )
            },
            timestamp matches Some(ts) ==> (old(self).sessions@.len() > 0
                ==> r == old(self).sessions@.last().push_outcome(ts, EventKind::Pause)
                && Session::push_post(
                old(self).sessions@.last(),
                final(self).sessions@.last(),
                ts,
                note,
                EventKind::Pause,
            )),
    {
        let ts = match timestamp {
            Some(ts) => ts,
            None => get_seconds(),
        };
        self.push_to_last(ts, note, EventKind::Pause)
    }

    /// Closes the open pause in the last session, at the given timestamp
    /// or at the current clock time.
    pub fn resume(&mut self, timestamp: Option<u64>) -> (r: Result<(), OpError>)
        requires
            old(self).wf(),
        ensures
            final(self).wf(),
            meta_unchanged(*old(self), *final(self)),
            r is Err ==> final(self).sessions@ == old(self).sessions@,
            old(self).sessions@.len() == 0 ==> r == Err::<(), OpError>(OpError::NoSession),
            old(self).sessions@.len() > 0 ==> {
                &&& final(self).sessions@.len() == old(self).sessions@.len()
                &&& final(self).sessions@.drop_last() == old(self).sessions@.drop_last()
                &&& exists|ts: u64|
                    r == old(self).sessions@.last().push_outcome(ts, EventKind::Resume)
                        && #[trigger] Session::push_post(
                        old(self).sessions@.last(),
                        final(self).sessions@.last(),
                        ts,
                        None,
                        EventKind::Resume,
                    )
            },
            timestamp matches Some(ts) ==> (old(self).sessions@.len() > 0
                ==> r == old(self).sessions@.last().push_outcome(ts, EventKind::Resume)
                && Session::push_post(
                old(self).sessions@.last(),
                final(self).sessions@.last(),
                ts,
                None,
                EventKind::Resume,
            )),
    {
        let ts = match timestamp {
            Some(ts) => ts,
            None => get_seconds(),
        };
        self.push_to_last(ts, None, EventKind::Resume)
    }

    /// Records a note in the last session, at the given timestamp or at
    /// the current clock time: merged into the open pause while paused,
    /// appended as its own event otherwise.
    pub fn note(&mut self, timestamp: Option<u64>, note_text: String) -> (r: Result<(), OpError>)
        requires
            old(self).wf(),
        ensures
            final(self).wf(),
            meta_unchanged(*old(self), *final(self)),
            r is Err ==> final(self).sessions@ == old(self).sessions@,
            old(self).sessions@.len() == 0 ==> r == Err::<(), OpError>(OpError::NoSession),
            old(self).sessions@.len() > 0 ==> {
                &&& final(self).sessions@.len() == old(self).sessions@.len()
                &&& final(self).sessions@.drop_last() == old(self).sessions@.drop_last()
                &&& exists|ts: u64|
                    r == old(self).sessions@.last().push_outcome(ts, EventKind::Note)
                        && #[trigger] Session::push_post(
                        old(self).sessions@.last(),
                        final(self).sessions@.last(),
                        ts,
                        Some(note_text),
                        EventKind::Note,
                    )
            },
            timestamp matches Some(ts) ==> (old(self).sessions@.len() > 0
                ==> r == old(self).sessions@.last().push_outcome(ts, EventKind::Note)
                && Session::push_post(
                old(self).sessions@.last(),
                final(self).sessions@.last(),
                ts,
                Some(note_text),
                EventKind::Note,
            )),
    {
        let ts = match timestamp {
            Some(ts) => ts,
            None => get_seconds(),
        };
        self.push_to_last(ts, Some(note_text), EventKind::Note)
    }

    /// Records a commit at `timestamp`: when no session is running a
    /// fresh one is opened at `timestamp` first and the commit lands one
    /// second later; otherwise the commit goes to the running session as
    /// [`Session::push_event_at`] records it.
    pub fn add_commit_at(&mut self, timestamp: u64, hash: String, message: String) -> (r: Result<
        (),
        OpError,
    >)
        requires
            old(self).wf(),
        ensures
            final(self).wf(),
            meta_unchanged(*old(self), *final(self)),
            r is Err ==> final(self).sessions@ == old(self).sessions@,
            (old(self).sessions@.len() == 0 || !old(self).sessions@.last().running) ==> {
                &&& (r is Ok <==> (old(self).valid_session_ts(timestamp) && timestamp < u64::MAX
                    - 1))
                &&& (r is Err ==> r == Err::<(), OpError>(OpError::FatalTimestamp))
                &&& (r is Ok ==> final(self).sessions@.len() == old(self).sessions@.len() + 1
                    && final(self).sessions@.drop_last() == old(self).sessions@
                    && Timesheet::fresh_commit_session(
                    final(self).sessions@.last(),
                    timestamp,
                    hash,
                    message,
                ))
            },
            (old(self).sessions@.len() > 0 && old(self).sessions@.last().running) ==> {
                &&& r == old(self).sessions@.last().push_outcome(
                    timestamp,
                    EventKind::Commit { hash: hash },
                )
                &&& final(self).sessions@.len() == old(self).sessions@.len()
                &&& final(self).sessions@.drop_last() == old(self).sessions@.drop_last()
                &&& Session::push_post(
                    old(self).sessions@.last(),
                    final(self).sessions@.last(),
                    timestamp,
                    Some(message),
                    EventKind::Commit { hash: hash },
                )
            },
    {
        let n = self.sessions.len();
        let need_new = if n == 0 {
            true
        } else {
            !self.sessions[n - 1].is_running()
        };
        if need_new {
            if timestamp >= u64::MAX - 1 {
                return Err(OpError::FatalTimestamp);
            }
            let r1 = self.new_session_at(timestamp);
            if r1.is_err() {
                return r1;
            }
            let m = self.sessions.len();
            let s = &mut self.sessions[m - 1];
            let r2 = s.push_event_at(timestamp + 1, Some(message), EventKind::Commit { hash });
            proof {
                assert(r2 is Ok);
                assert(self.sessions@ =~= old(self).sessions@.push(self.sessions@.last()));
                assert(self.sessions@.drop_last() =~= old(self).sessions@);
                assert(self.sessions@.last().events@ =~= seq![
                    Event {
                        timestamp: (timestamp + 1) as u64,
                        note: Some(message),
                        kind: EventKind::Commit { hash: hash },
                    },
                ]);
                assert forall|i: int| 0 <= i < self.sessions@.len() implies (
                #[trigger] self.sessions@[i]).wf() by {
                    if i < n {
                        assert(old(self).sessions@[i].wf());
                    }
                }
                assert forall|i: int| 0 <= i < self.sessions@.len() - 1 implies !(
                #[trigger] self.sessions@[i]).running by {
                    if i < n - 1 {
                        assert(!old(self).sessions@[i].running);
                    }
                }
            }
            Ok(())
        } else {
            self.push_to_last(timestamp, Some(message), EventKind::Commit { hash })
        }
    }

    /// Records a commit at the current clock time; see
    /// [`Timesheet::add_commit_at`]. Commits deliberately take no explicit
    /// timestamp: they are pinned to the moment of recording.
    pub fn add_commit(&mut self, hash: String, message: String) -> (r: Result<(), OpError>)
        requires
            old(self).wf(),
        ensures
            final(self).wf(),
            meta_unchanged(*old(self), *final(self)),
            r is Err ==> final(self).sessions@ == old(self).sessions@,
            (old(self).sessions@.len() == 0 || !old(self).sessions@.last().running) && r is Ok
                ==> {
                &&& final(self).sessions@.len() == old(self).sessions@.len() + 1
                &&& final(self).sessions@.drop_last() == old(self).sessions@
                &&& exists|ts: u64| #[trigger] Timesheet::fresh_commit_session(
                    final(self).sessions@.last(),
                    ts,
                    hash,
                    message,
                )
            },
            (old(self).sessions@.len() > 0 && old(self).sessions@.last().running) ==> {
                &&& final(self).sessions@.len() == old(self).sessions@.len()
                &&& final(self).sessions@.drop_last() == old(self).sessions@.drop_last()
                &&& exists|ts: u64|
                    r == old(self).sessions@.last().push_outcome(
                        ts,
                        EventKind::Commit { hash: hash },
                    ) && #[trigger] Session::push_post(
                        old(self).sessions@.last(),
                        final(self).sessions@.last(),
                        ts,
                        Some(message),
                        EventKind::Commit { hash: hash },
                    )
            },
    {
        let now = get_seconds();
        self.add_commit_at(now, hash, message)
    }

    /// Records `name` as a branch touched by the last session: a no-op
    /// when there is no session or it is no longer running.
    pub fn add_branch(&mut self, name: String)
        requires
            old(self).wf(),
        ensures
            final(self).wf(),
            meta_unchanged(*old(self), *final(self)),
            old(self).sessions@.len() == 0 ==> final(self).sessions@ == old(self).sessions@,
            old(self).sessions@.len() > 0 ==> {
                &&& final(self).sessions@.len() == old(self).sessions@.len()
                &&& final(self).sessions@.drop_last() == old(self).sessions@.drop_last()
                &&& Session::add_branch_post(
                    old(self).sessions@.last(),
                    final(self).sessions@.last(),
                    name,
                )
            },
    {
        let n = self.sessions.len();
        if n == 0 {
            return ;
        }
        let s = &mut self.sessions[n - 1];
        s.add_branch(name);
        proof {
            assert(self.sessions@ =~= old(self).sessions@.update(
                n - 1,
                self.sessions@.last(),
            ));
            assert(self.sessions@.drop_last() =~= old(self).sessions@.drop_last());
            assert forall|i: int| 0 <= i < self.sessions@.len() implies (
            #[trigger] self.sessions@[i]).wf() by {
                if i < n - 1 {
                    assert(self.sessions@[i] == old(self).sessions@[i]);
                    assert(old(self).sessions@[i].wf());
                }
            }
        }
    }

    /// Toggles whether reports show commit details.
    pub fn toggle_show_git_info(&mut self, setting: bool)
        requires
            old(self).wf(),
        ensures
            final(self).wf(),
            final(self).show_commits == setting,
            final(self).start == old(self).start,
            final(self).end == old(self).end,
            final(self).user == old(self).user,
            final(self).repo == old(self).repo,
            final(self).sessions == old(self).sessions,
    {
        self.show_commits = setting;
    }

    /// Sets the repository identifier.
    pub fn set_repo_url(&mut self, repo: String)
        requires
            old(self).wf(),
        ensures
            final(self).wf(),
            final(self).repo == repo,
            final(self).start == old(self).start,
            final(self).end == old(self).end,
            final(self).user == old(self).user,
            final(self).show_commits == old(self).show_commits,
            final(self).sessions == old(self).sessions,
    {
        self.repo = repo;
    }

    /// Decides [`Timesheet::wf`] at run time: used to validate a sheet
    /// rebuilt from outside the crate (a persisted file) before it is
    /// trusted.
    pub fn check_wf(&self) -> (r: bool)
        ensures
            r == self.wf(),
    {
        if !(self.start < self.end) {
            return false;
        }
        let n = self.sessions.len();
        if n > 0 && !(self.sessions[0].start > self.start) {
            return false;
        }
        let mut i: usize = 0;
        while i < n
            invariant
                0 <= i <= n,
                n == self.sessions@.len(),
                forall|k: int| 0 <= k < i ==> (#[trigger] self.sessions@[k]).wf(),
                forall|a: int, b: int|
                    #![trigger self.sessions@[a], self.sessions@[b]]
                    0 <= a && b == a + 1 && b < i ==> self.sessions@[a].end
                        < self.sessions@[b].start,
                forall|k: int| 0 <= k < i - 1 ==> !(#[trigger] self.sessions@[k]).running,
            decreases n - i,
        {
            if !self.sessions[i].check_wf() {
                return false;
            }
            if i > 0 {
                if !(self.sessions[i - 1].end < self.sessions[i].start) {
                    return false;
                }
                if self.sessions[i - 1].is_running() {
                    return false;
                }
            }
            i += 1;
        }
        true
    }

    /// The text of [`Timesheet::timesheet_status_at`]: how long the sheet
    /// has run, then the session count and the last session's status.
    pub open spec fn timesheet_status_seq(self, now: u64) -> Seq<char> {
        "Sheet running for "@ + hms_seq(elapsed(now, self.start)) + "\n"@ + (
        if self.sessions@.len() == 0 {
            "No sessions yet.\n"@
        } else {
            dec_seq(self.sessions@.len() as nat) + " session(s) so far.\nLast session:\n"@
                + self.sessions@.last().status_seq(now)
        })
    }

    /// Renders the sheet's status as of time `now`; the exact text is
    /// [`Timesheet::timesheet_status_seq`].
    pub fn timesheet_status_at(&self, now: u64) -> (r: String)
        ensures
            r@ == self.timesheet_status_seq(now),
    {
        let mut s = String::from_str("Sheet running for ");
        let since_start: u64 = if now >= self.start {
            now - self.start
        } else {
            0
        };
        let d = sec_to_hms_string(since_start);
        s.append(d.as_str());
        s.append("\n");
        let n = self.sessions.len();
        if n == 0 {
            s.append("No sessions yet.\n");
        } else {
            let c = dec_string(n as u64);
            s.append(c.as_str());
            s.append(" session(s) so far.\nLast session:\n");
            let last = self.sessions[n - 1].status_at(now);
            s.append(last.as_str());
        }
        proof {
            assert(s@ =~= self.timesheet_status_seq(now));
        }
        s
    }

    /// Renders the sheet's status as of the current clock time; see
    /// [`Timesheet::timesheet_status_at`].
    pub fn timesheet_status(&self) -> (r: String)
        ensures
            exists|now: u64| r@ == #[trigger] self.timesheet_status_seq(now),
    {
        let now = get_seconds();
        let r = self.timesheet_status_at(now);
        proof {
            assert(r@ == self.timesheet_status_seq(now));
        }
        r
    }

    /// The text of [`Timesheet::last_session_status_at`]: the last
    /// session's status, or a note that no session exists yet.
    pub open spec fn last_session_status_seq(self, now: u64) -> Seq<char> {
        if self.sessions@.len() == 0 {
            "No session yet."@
        } else {
            self.sessions@.last().status_seq(now)
        }
    }

    /// Renders the last session's status as of time `now`; the exact text
    /// is [`Timesheet::last_session_status_seq`].
    pub fn last_session_status_at(&self, now: u64) -> (r: String)
        ensures
            r@ == self.last_session_status_seq(now),
    {
        let n = self.sessions.len();
        if n == 0 {
            String::from_str("No session yet.")
        } else {
            self.sessions[n - 1].status_at(now)
        }
    }

    /// Renders the last session's status as of the current clock time;
    /// see [`Timesheet::last_session_status_at`].
    pub fn last_session_status(&self) -> (r: String)
        ensures
            exists|now: u64| r@ == #[trigger] self.last_session_status_seq(now),
    {
        let now = get_seconds();
        let r = self.last_session_status_at(now);
        proof {
            assert(r@ == self.last_session_status_seq(now));
        }
        r
    }

    /// Total closed pause time over all sessions, computed freshly from
    /// the logs.
    pub fn pause_time(&self) -> (r: u64)
        requires
            self.wf(),
        ensures
            r as int == spec_sheet_pause_time(self.sessions@),
    {
        let n = self.sessions.len();
        let mut acc: u64 = 0;
        let mut i: usize = 0;
        proof {
            assert(self.sessions@.take(0) =~= Seq::<Session>::empty());
        }
        while i < n
            invariant
                0 <= i <= n,
                n == self.sessions@.len(),
                self.wf(),
                acc as int == spec_sheet_pause_time(self.sessions@.take(i as int)),
                i == 0 ==> acc == 0,
                i > 0 ==> acc <= self.sessions@[i - 1].end,
            decreases n - i,
        {
            proof {
                assert(self.sessions@[i as int].wf());
                assert(self.sessions@.take(i as int + 1).drop_last() =~= self.sessions@.take(
                    i as int,
                ));
                assert(self.sessions@.take(i as int + 1).last() == self.sessions@[i as int]);
                if i > 0 {
                    assert(self.sessions@[i as int - 1].end < self.sessions@[i as int].start);
                }
            }
            let s = &self.sessions[i];
            let pt = s.pause_time();
            acc = acc + pt;
            i += 1;
        }
        proof {
            assert(self.sessions@.take(n as int) =~= self.sessions@);
        }
        acc
    }

    /// Total working time over all sessions: each session's span minus
    /// its closed pause time, computed freshly from the logs.
    pub fn working_time(&self) -> (r: u64)
        requires
            self.wf(),
        ensures
            r as int == spec_sheet_working_time(self.sessions@),
    {
        let n = self.sessions.len();
        let mut acc: u64 = 0;
        let mut i: usize = 0;
        proof {
            assert(self.sessions@.take(0) =~= Seq::<Session>::empty());
        }
        while i < n
            invariant
                0 <= i <= n,
                n == self.sessions@.len(),
                self.wf(),
                acc as int == spec_sheet_working_time(self.sessions@.take(i as int)),
                i == 0 ==> acc == 0,
                i > 0 ==> acc <= self.sessions@[i - 1].end,
            decreases n - i,
        {
            proof {
                assert(self.sessions@[i as int].wf());
                assert(self.sessions@.take(i as int + 1).drop_last() =~= self.sessions@.take(
                    i as int,
                ));
                assert(self.sessions@.take(i as int + 1).last() == self.sessions@[i as int]);
                if i > 0 {
                    assert(self.sessions@[i as int - 1].end < self.sessions@[i as int].start);
                }
            }
            let s = &self.sessions[i];
            let wt = s.working_time();
            acc = acc + wt;
            i += 1;
        }
        proof {
            assert(self.sessions@.take(n as int) =~= self.sessions@);
        }
        acc
    }
}

} // verus!
