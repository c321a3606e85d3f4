//! The versioned procedure documents, as they are stored, and the table of
//! the documents that every installation starts with.

use vstd::prelude::*;
use crate::projects::{phase_name, phase_name_of};

verus! {

/// A stored version of a procedure document.
#[derive(Debug, Clone)]
pub struct SOP {
    pub id: String,
    pub sop_number: i32,
    pub version: String,
    pub name: String,
    pub phase: String,
    pub content: String,
    pub is_active: bool,
    pub tags: Option<String>,
    pub created_at: String,
    pub archived_at: Option<String>,
}

/// What is given to create a version of a procedure document.
#[derive(Debug)]
pub struct CreateSOPInput {
    pub sop_number: i32,
    pub version: String,
    pub name: String,
    pub phase: String,
    pub content: String,
    pub tags: Option<Vec<String>>,
}

/// One row of the table of default documents.
pub struct DefaultSop {
    pub number: i32,
    pub name: String,
    pub stage: String,
}

/// The stage of work that each phase belongs to.
pub open spec fn stage_of(phase: int) -> Seq<char> {
    if phase <= 3 {
        "ideation"@
    } else if phase == 4 {
        "design"@
    } else if phase <= 6 {
        "setup"@
    } else if phase <= 8 {
        "build"@
    } else if phase <= 10 {
        "launch"@
    } else {
        "post_launch"@
    }
}

/// The stage of work that a phase belongs to.
pub fn stage(phase: i32) -> (s: String)
    ensures
        s@ == stage_of(phase as int),
{
    let text = if phase <= 3 {
        "ideation"
    } else if phase == 4 {
        "design"
    } else if phase <= 6 {
        "setup"
    } else if phase <= 8 {
        "build"
    } else if phase <= 10 {
        "launch"
    } else {
        "post_launch"
    };
    text.to_owned()
}

/// The documents that every installation starts with: one for each of the
/// thirteen phases, in order, with the phase's name and stage.
pub fn default_sops() -> (table: Vec<DefaultSop>)
    ensures
        table.len() == 13,
        forall|i: int|
            0 <= i < 13 ==> {
                &&& (#[trigger] table[i]).number == i
                &&& table[i].name@ == phase_name_of(i)
                &&& table[i].stage@ == stage_of(i)
            },
{
    let mut table: Vec<DefaultSop> = Vec::new();
    let mut i: i32 = 0;
    while i < 13
        invariant
            0 <= i <= 13,
            table.len() == i,
            forall|k: int|
                0 <= k < i ==> {
                    &&& (#[trigger] table[k]).number == k
                    &&& table[k].name@ == phase_name_of(k)
                    &&& table[k].stage@ == stage_of(k)
                },
        decreases 13 - i,
    {
        table.push(DefaultSop { number: i, name: phase_name(i), stage: stage(i) });
        i += 1;
    }
    table
}

/// Whether only the active versions are listed: as asked, and all of them
/// where nothing is asked.
pub fn lists_active_only(active_only: Option<bool>) -> (r: bool)
    ensures
        r == (active_only == Some(true)),
{
    match active_only {
        Some(b) => b,
        None => false,
    }
}

} // verus!
