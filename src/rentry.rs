use vstd::prelude::*;
use crate::unit_base::UnitType;

verus! {

/// The runtime queue that a last frame of kind `Queue` was working on.
#[derive(Clone, Copy, Debug, PartialEq, Eq, Structural)]
pub enum ReliLastQue {
    Load,
    TargetDeps,
    GcJob,
    GcUnit,
    Clean,
    CgRealize,
    StartWhenUpheld,
    StopWhenBound,
    StopWhenUnneeded,
    Dbus,
}

/// The code under which a queue is journaled.
pub open spec fn spec_que_code(q: ReliLastQue) -> u32 {
    match q {
        ReliLastQue::Load => 0,
        ReliLastQue::TargetDeps => 1,
        ReliLastQue::GcJob => 2,
        ReliLastQue::GcUnit => 3,
        ReliLastQue::Clean => 4,
        ReliLastQue::CgRealize => 5,
        ReliLastQue::StartWhenUpheld => 6,
        ReliLastQue::StopWhenBound => 7,
        ReliLastQue::StopWhenUnneeded => 8,
        ReliLastQue::Dbus => 9,
    }
}

impl ReliLastQue {
    /// The code under which the queue is journaled.
    pub fn code(&self) -> (c: u32)
        ensures
            c == spec_que_code(*self),
    {
        match *self {
            ReliLastQue::Load => 0,
            ReliLastQue::TargetDeps => 1,
            ReliLastQue::GcJob => 2,
            ReliLastQue::GcUnit => 3,
            ReliLastQue::Clean => 4,
            ReliLastQue::CgRealize => 5,
            ReliLastQue::StartWhenUpheld => 6,
            ReliLastQue::StopWhenBound => 7,
            ReliLastQue::StopWhenUnneeded => 8,
            ReliLastQue::Dbus => 9,
        }
    }

    /// The queue journaled under `value`; a code above 9 is returned as the
    /// error.
    pub fn try_from(value: u32) -> (r: Result<ReliLastQue, u32>)
        ensures
            value <= 9 ==> r is Ok && spec_que_code(r->Ok_0) == value,
            value > 9 ==> r == Err::<ReliLastQue, u32>(value),
    {
        match value {
            0 => Ok(ReliLastQue::Load),
            1 => Ok(ReliLastQue::TargetDeps),
            2 => Ok(ReliLastQue::GcJob),
            3 => Ok(ReliLastQue::GcUnit),
            4 => Ok(ReliLastQue::Clean),
            5 => Ok(ReliLastQue::CgRealize),
            6 => Ok(ReliLastQue::StartWhenUpheld),
            7 => Ok(ReliLastQue::StopWhenBound),
            8 => Ok(ReliLastQue::StopWhenUnneeded),
            9 => Ok(ReliLastQue::Dbus),
            v => Err(v),
        }
    }
}

/// Each queue has its own code, at most 9; so `try_from` of a queue's
/// `code` gives the queue back.
pub proof fn lemma_que_code_round_trip(q: ReliLastQue, q2: ReliLastQue)
    ensures
        spec_que_code(q) <= 9,
        spec_que_code(q2) == spec_que_code(q) ==> q2 == q,
{
}

/// The kind of step that the last frame records.
#[derive(Clone, Copy, Debug, PartialEq, Eq, Structural)]
pub enum ReliLastFrame {
    Queue,
    JobManager,
    SigChld,
    CgEvent,
    Notify,
    SubManager,
    ManagerOp,
    CmdOp,
    Other,
}

/// The code under which a frame kind is journaled.
pub open spec fn spec_frame_code(f: ReliLastFrame) -> u32 {
    match f {
        ReliLastFrame::Queue => 0,
        ReliLastFrame::JobManager => 1,
        ReliLastFrame::SigChld => 2,
        ReliLastFrame::CgEvent => 3,
        ReliLastFrame::Notify => 4,
        ReliLastFrame::SubManager => 5,
        ReliLastFrame::ManagerOp => 6,
        ReliLastFrame::CmdOp => 7,
        ReliLastFrame::Other => 8,
    }
}

impl ReliLastFrame {
    /// The code under which the frame kind is journaled.
    pub fn code(&self) -> (c: u32)
        ensures
            c == spec_frame_code(*self),
    {
        match *self {
            ReliLastFrame::Queue => 0,
            ReliLastFrame::JobManager => 1,
            ReliLastFrame::SigChld => 2,
            ReliLastFrame::CgEvent => 3,
            ReliLastFrame::Notify => 4,
            ReliLastFrame::SubManager => 5,
            ReliLastFrame::ManagerOp => 6,
            ReliLastFrame::CmdOp => 7,
            ReliLastFrame::Other => 8,
        }
    }

    /// The frame kind journaled under `value`; a code above 8 is returned as
    /// the error.
    pub fn try_from(value: u32) -> (r: Result<ReliLastFrame, u32>)
        ensures
            value <= 8 ==> r is Ok && spec_frame_code(r->Ok_0) == value,
            value > 8 ==> r == Err::<ReliLastFrame, u32>(value),
    {
        match value {
            0 => Ok(ReliLastFrame::Queue),
            1 => Ok(ReliLastFrame::JobManager),
            2 => Ok(ReliLastFrame::SigChld),
            3 => Ok(ReliLastFrame::CgEvent),
            4 => Ok(ReliLastFrame::Notify),
            5 => Ok(ReliLastFrame::SubManager),
            6 => Ok(ReliLastFrame::ManagerOp),
            7 => Ok(ReliLastFrame::CmdOp),
            8 => Ok(ReliLastFrame::Other),
            v => Err(v),
        }
    }
}

/// The code under which a unit type is journaled.
pub open spec fn spec_type_code(t: UnitType) -> u32 {
    match t {
        UnitType::UnitService => 0,
        UnitType::UnitSocket => 1,
        UnitType::UnitTarget => 2,
        UnitType::UnitMount => 3,
        UnitType::UnitTypeInvalid => 4,
    }
}

/// The unit type journaled under `code`; `None` for a code that names no
/// valid type.
pub fn unit_type_from_code(code: u32) -> (r: Option<UnitType>)
    ensures
        code <= 3 ==> r is Some && spec_type_code(r->Some_0) == code,
        code > 3 ==> r is None,
{
    match code {
        0 => Some(UnitType::UnitService),
        1 => Some(UnitType::UnitSocket),
        2 => Some(UnitType::UnitTarget),
        3 => Some(UnitType::UnitMount),
        _ => None,
    }
}

/// The component that completes or rolls back an interrupted step.
#[derive(Clone, Copy, Debug, PartialEq, Eq, Structural)]
pub enum Compensator {
    /// The runtime queues.
    RuntimeQueue,
    /// The job engine.
    JobEngine,
    /// The child reaper.
    Sigchld,
    /// The notify listener.
    NotifyListener,
    /// The manager of sub-units of this type, for this unit.
    SubManager(UnitType),
    /// Nothing to do.
    Nothing,
}

/// Who compensates the last frame `(frame, unit type, unit index)` that a
/// restart finds, and `has_unit` says whether the frame names a unit. An
/// unknown frame code, a cgroup event and the remaining kinds need nothing;
/// a sub-manager frame needs a valid unit type and a unit.
pub fn compensator_of(frame: u32, utype: Option<u32>, has_unit: bool) -> (c: Compensator)
    ensures
        frame == 0 ==> c == Compensator::RuntimeQueue,
        frame == 1 ==> c == Compensator::JobEngine,
        frame == 2 ==> c == Compensator::Sigchld,
        frame == 4 ==> c == Compensator::NotifyListener,
        frame == 5 ==> c == (match utype {
            Some(t) => if t <= 3 && has_unit {
                Compensator::SubManager(
                    match t {
                        0 => UnitType::UnitService,
                        1 => UnitType::UnitSocket,
                        2 => UnitType::UnitTarget,
                        _ => UnitType::UnitMount,
                    },
                )
            } else {
                Compensator::Nothing
            },
            None => Compensator::Nothing,
        }),
        frame == 3 || frame > 5 ==> c == Compensator::Nothing,
{
    match ReliLastFrame::try_from(frame) {
        Ok(ReliLastFrame::Queue) => Compensator::RuntimeQueue,
        Ok(ReliLastFrame::JobManager) => Compensator::JobEngine,
        Ok(ReliLastFrame::SigChld) => Compensator::Sigchld,
        Ok(ReliLastFrame::Notify) => Compensator::NotifyListener,
        Ok(ReliLastFrame::SubManager) => {
            if !has_unit {
                return Compensator::Nothing;
            }
            match utype {
                Some(t) => match unit_type_from_code(t) {
                    Some(ut) => Compensator::SubManager(ut),
                    None => Compensator::Nothing,
                },
                None => Compensator::Nothing,
            }
        },
        _ => Compensator::Nothing,
    }
}

/// The last-frame marker of the journal: set before a step, cleared after.
pub struct LastFrame {
    frame: Option<(u32, Option<u32>, Option<u32>)>,
}

impl View for LastFrame {
    type V = Option<(u32, Option<u32>, Option<u32>)>;

    closed spec fn view(&self) -> Option<(u32, Option<u32>, Option<u32>)> {
        self.frame
    }
}

impl LastFrame {
    /// No step in progress.
    pub fn new() -> (r: LastFrame)
        ensures
            r@ is None,
    {
        LastFrame { frame: None }
    }

    /// Records that the step `(frame, sub, unit)` begins.
    pub fn set_last_frame(&mut self, frame: ReliLastFrame, sub: Option<u32>, unit: Option<u32>)
        ensures
            final(self)@ == Some((spec_frame_code(frame), sub, unit)),
    {
        self.frame = Some((frame.code(), sub, unit));
    }

    /// Records that the step finished.
    pub fn clear_last_frame(&mut self)
        ensures
            final(self)@ is None,
    {
        self.frame = None;
    }

    /// The step in progress, if any.
    pub fn last_frame(&self) -> (r: Option<(u32, Option<u32>, Option<u32>)>)
        ensures
            r == self@,
    {
        self.frame
    }
}

} // verus!
