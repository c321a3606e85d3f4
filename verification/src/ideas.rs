//! Ideas, as they are stored, and what is decided about them here: the
//! slug of a name, and which time stamp a change of status sets.

use vstd::prelude::*;
use crate::projects::slug_of;
use crate::text::str_eq;

verus! {

/// A stored idea.
#[derive(Debug, Clone)]
pub struct Idea {
    pub id: String,
    pub name: String,
    pub slug: String,
    pub problem_statement: Option<String>,
    pub proposed_solution: Option<String>,
    pub source: Option<String>,
    pub status: String,
    pub audit_result: Option<String>,
    pub created_at: String,
    pub audited_at: Option<String>,
    pub activated_at: Option<String>,
    pub project_id: Option<String>,
}

/// What is given to create an idea.
#[derive(Debug)]
pub struct CreateIdeaInput {
    pub name: String,
    pub problem_statement: Option<String>,
    pub proposed_solution: Option<String>,
    pub source: Option<String>,
}

/// The time stamp that a change of status sets.
#[derive(Debug, Clone, Copy, PartialEq, Eq, Structural)]
pub enum StatusStamp {
    /// The idea became active: the time of activation is set.
    Activated,
    /// The idea was audited: the time of the audit is set.
    Audited,
    /// No time stamp is set.
    Unstamped,
}

/// The time stamp that each status sets.
pub open spec fn stamp_of(status: Seq<char>) -> StatusStamp {
    if status == "active"@ {
        StatusStamp::Activated
    } else if status == "audited"@ {
        StatusStamp::Audited
    } else {
        StatusStamp::Unstamped
    }
}

/// The slug of an idea's name.
pub fn slugify(name: &str) -> (slug: String)
    ensures
        slug@ == slug_of(name@),
{
    crate::projects::slugify(name)
}

/// Which time stamp a change to `status` sets.
pub fn status_stamp(status: &str) -> (stamp: StatusStamp)
    ensures
        stamp == stamp_of(status@),
{
    if str_eq(status, "active") {
        StatusStamp::Activated
    } else if str_eq(status, "audited") {
        StatusStamp::Audited
    } else {
        StatusStamp::Unstamped
    }
}

} // verus!
