//! The timed sessions of a project's phases, as they are stored, and what
//! is decided about them here: the time that each phase is given, and
//! when a session counts as expired.

use vstd::prelude::*;

verus! {

/// A stored timed session of one phase of a project.
#[derive(Debug, Clone)]
pub struct ShotClockSession {
    pub id: String,
    pub project_id: String,
    pub phase_number: i32,
    pub allocated_time_seconds: i64,
    pub bonus_time_seconds: i64,
    pub time_remaining_seconds: i64,
    pub status: String,
    pub started_at: String,
    pub completed_at: Option<String>,
    pub locked_until: Option<String>,
}

/// The seconds that each phase is given; an hour for a number that names
/// no phase.
pub open spec fn allocation_of(phase: int) -> int {
    if phase == 0 {
        900
    } else if phase == 1 {
        1800
    } else if phase == 2 {
        2700
    } else if phase == 3 {
        1800
    } else if phase == 4 {
        3600
    } else if phase == 5 {
        2700
    } else if phase == 6 {
        5400
    } else if phase == 7 {
        28800
    } else if phase == 8 {
        10800
    } else if phase == 9 {
        7200
    } else if phase == 10 {
        10800
    } else if phase == 11 {
        3600
    } else if phase == 12 {
        10800
    } else {
        3600
    }
}

/// The status of a session with this much time left.
pub open spec fn status_of(time_remaining_seconds: int) -> Seq<char> {
    if time_remaining_seconds <= 0 {
        "expired"@
    } else {
        "active"@
    }
}

/// The seconds that a phase is given.
pub fn default_allocation(phase_number: i32) -> (seconds: i64)
    ensures
        seconds == allocation_of(phase_number as int),
{
    if phase_number == 0 {
        900
    } else if phase_number == 1 {
        1800
    } else if phase_number == 2 {
        2700
    } else if phase_number == 3 {
        1800
    } else if phase_number == 4 {
        3600
    } else if phase_number == 5 {
        2700
    } else if phase_number == 6 {
        5400
    } else if phase_number == 7 {
        28800
    } else if phase_number == 8 {
        10800
    } else if phase_number == 9 {
        7200
    } else if phase_number == 10 {
        10800
    } else if phase_number == 11 {
        3600
    } else if phase_number == 12 {
        10800
    } else {
        3600
    }
}

/// The status that goes with the time that a session has left: expired
/// once none is left.
pub fn clock_status(time_remaining_seconds: i64) -> (status: String)
    ensures
        status@ == status_of(time_remaining_seconds as int),
{
    if time_remaining_seconds <= 0 {
        "expired".to_owned()
    } else {
        "active".to_owned()
    }
}

/// The session with which a phase's clock starts: active, with the
/// phase's whole time left and no bonus.
pub fn new_session(id: String, project_id: String, phase_number: i32, started_at: String) -> (s:
    ShotClockSession)
    ensures
        s.id == id,
        s.project_id == project_id,
        s.phase_number == phase_number,
        s.allocated_time_seconds == allocation_of(phase_number as int),
        s.bonus_time_seconds == 0,
        s.time_remaining_seconds == allocation_of(phase_number as int),
        s.status@ == "active"@,
        s.started_at == started_at,
        s.completed_at is None,
        s.locked_until is None,
{
    let allocated = default_allocation(phase_number);
    ShotClockSession {
        id,
        project_id,
        phase_number,
        allocated_time_seconds: allocated,
        bonus_time_seconds: 0,
        time_remaining_seconds: allocated,
        status: "active".to_owned(),
        started_at,
        completed_at: None,
        locked_until: None,
    }
}

} // verus!
