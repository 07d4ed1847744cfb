//! One session with the encoding engine, as a state machine.
//!
//! The engine is opened over the data units, asked for one stereo frame at
//! a time until it has given all it announced, and closed. A [`Session`]
//! holds what has happened so far and says what to ask next; whoever drives
//! the engine hands each answer to [`Session::advance`]. The session is
//! closed on every path on which it was opened, before any result comes out.
use vstd::prelude::*;
use crate::error::check_syro_status;
use crate::error::EngineStatus;
use crate::error::SyroError;
use crate::unit::DataUnit;
use crate::unit::DataUnitView;

verus! {

/// How far a session has come.
#[derive(Clone, Copy, Debug, PartialEq, Eq, Structural)]
pub enum Phase {
    /// The data units are collected; the engine is not open yet.
    Submitted,
    /// The engine is open and still owes frames.
    Draining,
    /// No more frames will be asked for; the engine is still open.
    Closing,
}

/// What to ask of the engine next.
#[derive(Clone, Copy, Debug, PartialEq, Eq, Structural)]
pub enum Request {
    /// Open the engine over the session's data units.
    Open,
    /// Ask for one stereo frame.
    Pull,
    /// Close the engine.
    Close,
}

/// What the engine answered.
#[derive(Clone, Copy, Debug, PartialEq, Eq, Structural)]
pub enum Reply {
    /// The answer to [`Request::Open`], with the number of frames that the
    /// engine will give.
    Opened { status: EngineStatus, frame_count: u32 },
    /// The answer to [`Request::Pull`], with the frame as the engine left
    /// it.
    Pulled { status: EngineStatus, left: i16, right: i16 },
    /// The answer to [`Request::Close`].
    Closed { status: EngineStatus },
}

/// Whether a status lets the draining go on: a frame was given, or the
/// engine had none ready.
pub open spec fn benign(status: EngineStatus) -> bool {
    status == EngineStatus::Success || status == EngineStatus::NoData
}

/// A session as plain values.
pub struct SessionView {
    pub phase: Phase,
    pub units: Seq<DataUnitView>,
    /// The number of frames that the engine announced.
    pub frame_count: nat,
    /// The samples pulled so far, left and right in turn.
    pub frames: Seq<i16>,
    /// The status that ended the draining early, if one did.
    pub failure: Option<EngineStatus>,
}

/// Where a session stands after an answer, as plain values.
pub enum ProgressView {
    Pending(SessionView),
    Finished(Result<Seq<i16>, SyroError>),
}

impl SessionView {
    /// The session that is about to open the engine over `units`.
    pub open spec fn submitted(units: Seq<DataUnitView>) -> SessionView {
        SessionView {
            phase: Phase::Submitted,
            units,
            frame_count: 0,
            frames: Seq::empty(),
            failure: None,
        }
    }

    /// What holds of every session: there is something to send; before the
    /// engine is open nothing was pulled; while draining, whole frames were
    /// pulled and fewer than announced; when closing, either all announced
    /// frames are there or a status other than the benign ones ended the
    /// draining.
    pub open spec fn wf(self) -> bool {
        &&& self.units.len() > 0
        &&& match self.phase {
            Phase::Submitted => self.frames.len() == 0 && self.failure is None && self.frame_count
                == 0,
            Phase::Draining => self.failure is None && self.frames.len() % 2 == 0
                && self.frames.len() < 2 * self.frame_count,
            Phase::Closing => match self.failure {
                Some(status) => !benign(status),
                None => self.frames.len() == 2 * self.frame_count,
            },
        }
    }

    /// What to ask of the engine next.
    pub open spec fn request(self) -> Request {
        match self.phase {
            Phase::Submitted => Request::Open,
            Phase::Draining => Request::Pull,
            Phase::Closing => Request::Close,
        }
    }

    /// The session after the engine was opened and announced `frame_count`
    /// frames.
    pub open spec fn opened(self, frame_count: u32) -> SessionView {
        SessionView {
            phase: if frame_count == 0 {
                Phase::Closing
            } else {
                Phase::Draining
            },
            frame_count: frame_count as nat,
            ..self
        }
    }

    /// The session after one more frame was pulled.
    pub open spec fn pulled(self, left: i16, right: i16) -> SessionView {
        let frames = self.frames.push(left).push(right);
        SessionView {
            phase: if frames.len() == 2 * self.frame_count {
                Phase::Closing
            } else {
                Phase::Draining
            },
            frames,
            ..self
        }
    }

    /// The session after a pull failed with `status`.
    pub open spec fn failed(self, status: EngineStatus) -> SessionView {
        SessionView { phase: Phase::Closing, failure: Some(status), ..self }
    }

    /// What comes out once the engine is closed: the error of the closing
    /// if it failed, else the error that ended the draining if there was
    /// one, else the frames.
    pub open spec fn outcome(self, status: EngineStatus) -> Result<Seq<i16>, SyroError> {
        if status != EngineStatus::Success {
            Err(SyroError::SyroStatus { status })
        } else {
            match self.failure {
                Some(failure) => Err(SyroError::SyroStatus { status: failure }),
                None => Ok(self.frames),
            }
        }
    }

    /// The session after the engine's answer `reply`.
    ///
    /// - An engine that does not open ends the session with its status.
    /// - A pull that gives a frame, or reports that none is ready, adds the
    ///   frame's two samples; with the last announced frame the draining is
    ///   over. Any other status ends the draining at once.
    /// - The closing ends the session, see [`Self::outcome`].
    /// - An answer to a question that was not asked changes nothing.
    pub open spec fn step(self, reply: Reply) -> ProgressView {
        match (self.phase, reply) {
            (Phase::Submitted, Reply::Opened { status, frame_count }) => {
                if status == EngineStatus::Success {
                    ProgressView::Pending(self.opened(frame_count))
                } else {
                    ProgressView::Finished(Err(SyroError::SyroStatus { status }))
                }
            },
            (Phase::Draining, Reply::Pulled { status, left, right }) => {
                if benign(status) {
                    ProgressView::Pending(self.pulled(left, right))
                } else {
                    ProgressView::Pending(self.failed(status))
                }
            },
            (Phase::Closing, Reply::Closed { status }) => ProgressView::Finished(
                self.outcome(status),
            ),
            _ => ProgressView::Pending(self),
        }
    }
}

/// Where a session stands after a run of answers, each handed to
/// [`SessionView::step`] in turn; once finished it stays finished.
pub open spec fn run(start: ProgressView, replies: Seq<Reply>) -> ProgressView
    decreases replies.len(),
{
    if replies.len() == 0 {
        start
    } else {
        match run(start, replies.drop_last()) {
            ProgressView::Pending(session) => session.step(replies.last()),
            ProgressView::Finished(result) => ProgressView::Finished(result),
        }
    }
}

/// Whether every answer in `pulls` is a pull with a benign status.
pub open spec fn all_benign_pulls(pulls: Seq<Reply>) -> bool {
    forall|i: int|
        0 <= i < pulls.len() ==> match #[trigger] pulls[i] {
            Reply::Pulled { status, .. } => benign(status),
            _ => false,
        }
}

/// The samples of a run of pulls, left and right in turn.
pub open spec fn samples_of(pulls: Seq<Reply>) -> Seq<i16>
    decreases pulls.len(),
{
    if pulls.len() == 0 {
        Seq::empty()
    } else {
        match pulls.last() {
            Reply::Pulled { left, right, .. } => samples_of(pulls.drop_last()).push(left).push(
                right,
            ),
            _ => samples_of(pulls.drop_last()),
        }
    }
}

/// A session in progress.
#[derive(Debug)]
pub struct Session {
    phase: Phase,
    units: Vec<DataUnit>,
    frame_count: u32,
    pulled: u32,
    buffer: Vec<i16>,
    failure: Option<EngineStatus>,
}

/// Where a session stands after an answer of the engine.
#[derive(Debug)]
pub enum Progress {
    /// The session goes on.
    Pending(Session),
    /// The session is over, with the PCM samples or the error.
    Finished(Result<Vec<i16>, SyroError>),
}

impl View for Session {
    type V = SessionView;

    closed spec fn view(&self) -> SessionView {
        SessionView {
            phase: self.phase,
            units: Seq::new(self.units@.len(), |i: int| self.units@[i]@),
            frame_count: self.frame_count as nat,
            frames: self.buffer@,
            failure: self.failure,
        }
    }
}

impl View for Progress {
    type V = ProgressView;

    open spec fn view(&self) -> ProgressView {
        match self {
            Progress::Pending(session) => ProgressView::Pending(session@),
            Progress::Finished(Ok(samples)) => ProgressView::Finished(Ok(samples@)),
            Progress::Finished(Err(e)) => ProgressView::Finished(Err(*e)),
        }
    }
}

impl Session {
    #[verifier::type_invariant]
    closed spec fn inv(self) -> bool {
        &&& self@.wf()
        &&& self.buffer@.len() == 2 * self.pulled
        &&& self.pulled <= self.frame_count
    }

    /// A session that is about to open the engine over `units`, of which
    /// there must be at least one.
    pub(crate) fn new(units: Vec<DataUnit>) -> (r: Self)
        requires
            units@.len() > 0,
        ensures
            r@ == SessionView::submitted(Seq::new(units@.len(), |i: int| units@[i]@)),
            r@.wf(),
    {
        Self {
            phase: Phase::Submitted,
            units,
            frame_count: 0,
            pulled: 0,
            buffer: Vec::new(),
            failure: None,
        }
    }

    /// What to ask of the engine next.
    pub fn request(&self) -> (r: Request)
        ensures
            r == self@.request(),
    {
        match self.phase {
            Phase::Submitted => Request::Open,
            Phase::Draining => Request::Pull,
            Phase::Closing => Request::Close,
        }
    }

    /// The data units to open the engine over, in the order in which it is
    /// to get them.
    pub fn units(&self) -> (r: &Vec<DataUnit>)
        ensures
            r@.len() == self@.units.len(),
            forall|i: int| 0 <= i < r@.len() ==> (#[trigger] r@[i])@ == self@.units[i],
    {
        &self.units
    }

    /// Takes the engine's answer and says where the session stands then:
    /// exactly what [`SessionView::step`] says.
    pub fn advance(self, reply: Reply) -> (r: Progress)
        ensures
            r@ == self@.step(reply),
            r matches Progress::Pending(session) ==> session@.wf(),
    {
        proof {
            use_type_invariant(&self);
        }
        match (self.phase, reply) {
            (Phase::Submitted, Reply::Opened { status, frame_count }) => {
                match check_syro_status(status) {
                    Ok(()) => Progress::Pending(
                        Session {
                            phase: if frame_count == 0 {
                                Phase::Closing
                            } else {
                                Phase::Draining
                            },
                            units: self.units,
                            frame_count,
                            pulled: 0,
                            buffer: self.buffer,
                            failure: None,
                        },
                    ),
                    Err(e) => Progress::Finished(Err(e)),
                }
            },
            (Phase::Draining, Reply::Pulled { status, left, right }) => {
                if status == EngineStatus::NoData || status == EngineStatus::Success {
                    let mut buffer = self.buffer;
                    buffer.push(left);
                    buffer.push(right);
                    let pulled = self.pulled + 1;
                    Progress::Pending(
                        Session {
                            phase: if pulled == self.frame_count {
                                Phase::Closing
                            } else {
                                Phase::Draining
                            },
                            units: self.units,
                            frame_count: self.frame_count,
                            pulled,
                            buffer,
                            failure: None,
                        },
                    )
                } else {
                    Progress::Pending(
                        Session {
                            phase: Phase::Closing,
                            units: self.units,
                            frame_count: self.frame_count,
                            pulled: self.pulled,
                            buffer: self.buffer,
                            failure: Some(status),
                        },
                    )
                }
            },
            (Phase::Closing, Reply::Closed { status }) => {
                match check_syro_status(status) {
                    Ok(()) => match self.failure {
                        Some(failure) => Progress::Finished(
                            Err(SyroError::SyroStatus { status: failure }),
                        ),
                        None => Progress::Finished(Ok(self.buffer)),
                    },
                    Err(e) => Progress::Finished(Err(e)),
                }
            },
            _ => Progress::Pending(self),
        }
    }
}

/// Whether `reply` says that the engine did not open.
pub open spec fn failed_open(reply: Reply) -> bool {
    match reply {
        Reply::Opened { status, .. } => status != EngineStatus::Success,
        _ => false,
    }
}

/// Whether `reply` is a pull with a status that ends the draining.
pub open spec fn fatal_pull(reply: Reply) -> bool {
    match reply {
        Reply::Pulled { status, .. } => !benign(status),
        _ => false,
    }
}

/// A result only ever comes out of a session whose engine is not open:
/// either the engine refused to open, or the session was asked to close it
/// and got the answer to that. In particular a pull that fails gives no
/// result yet, it only turns the session to closing. A session that goes on
/// stays well formed.
pub proof fn lemma_closed_before_result(session: SessionView, reply: Reply)
    requires
        session.wf(),
    ensures
        session.step(reply) is Finished <==> (session.phase == Phase::Submitted && failed_open(
            reply,
        )) || (session.phase == Phase::Closing && reply is Closed),
        session.step(reply) matches ProgressView::Pending(next) ==> next.wf(),
        session.phase == Phase::Draining && fatal_pull(reply) ==> session.step(reply)
            == ProgressView::Pending(session.failed(reply->Pulled_status)),
        session.failed(reply->Pulled_status).request() == Request::Close,
{
}

/// Pulls that give a frame or report that none is ready never end the
/// draining early: as long as no more are made than frames are still owed,
/// the session goes on, each pull has added its two samples, and the
/// session turns to closing exactly when the last announced frame is in.
pub proof fn lemma_benign_pulls(session: SessionView, pulls: Seq<Reply>)
    requires
        session.wf(),
        session.phase == Phase::Draining,
        all_benign_pulls(pulls),
        session.frames.len() + 2 * pulls.len() <= 2 * session.frame_count,
    ensures
        run(ProgressView::Pending(session), pulls) == ProgressView::Pending(
            SessionView {
                phase: if session.frames.len() + 2 * pulls.len() == 2 * session.frame_count {
                    Phase::Closing
                } else {
                    Phase::Draining
                },
                frames: session.frames + samples_of(pulls),
                ..session
            },
        ),
        samples_of(pulls).len() == 2 * pulls.len(),
    decreases pulls.len(),
{
    if pulls.len() > 0 {
        let front = pulls.drop_last();
        assert(all_benign_pulls(front));
        lemma_benign_pulls(session, front);
    }
}

/// A whole session in which the engine opens, every pull gives a frame or
/// reports that none is ready, and the closing succeeds: after exactly as
/// many pulls as frames were announced, and the closing, the samples of all
/// pulls come out, two for each announced frame.
pub proof fn lemma_whole_run(units: Seq<DataUnitView>, frame_count: u32, pulls: Seq<Reply>)
    requires
        units.len() > 0,
        all_benign_pulls(pulls),
        pulls.len() == frame_count,
    ensures
        run(
            ProgressView::Pending(SessionView::submitted(units)),
            seq![Reply::Opened { status: EngineStatus::Success, frame_count }] + pulls + seq![
                Reply::Closed { status: EngineStatus::Success },
            ],
        ) == ProgressView::Finished(Ok(samples_of(pulls))),
        samples_of(pulls).len() == 2 * frame_count,
{
    let start = SessionView::submitted(units);
    let open = Reply::Opened { status: EngineStatus::Success, frame_count };
    let close = Reply::Closed { status: EngineStatus::Success };
    let opened = start.opened(frame_count);
    lemma_run_first(ProgressView::Pending(start), open, pulls);
    let all = seq![open] + pulls + seq![close];
    assert(all.drop_last() =~= seq![open] + pulls);
    if frame_count > 0 {
        lemma_benign_pulls(opened, pulls);
    }
}

/// A run can be taken apart at its first answer.
pub proof fn lemma_run_first(start: ProgressView, first: Reply, rest: Seq<Reply>)
    ensures
        run(start, seq![first] + rest) == run(run(start, seq![first]), rest),
        run(start, seq![first]) == match start {
            ProgressView::Pending(session) => session.step(first),
            ProgressView::Finished(result) => ProgressView::Finished(result),
        },
    decreases rest.len(),
{
    assert(run(start, seq![first].drop_last()) == start);
    if rest.len() > 0 {
        lemma_run_first(start, first, rest.drop_last());
        assert((seq![first] + rest).drop_last() =~= seq![first] + rest.drop_last());
    }
}

} // verus!
