//! Projects and their roadmaps, as they are stored, and what is decided
//! about them here: the slug of a name, the roadmap that a new project
//! starts with, and when a roadmap item counts as completed.

use vstd::prelude::*;
use crate::text::{
    chars_of,
    join,
    join_with,
    lowercase,
    lowercase_of,
    slice_chars,
    str_eq,
    string_of,
    vec_views,
};

verus! {

/// A stored project.
#[derive(Debug, Clone)]
pub struct Project {
    pub id: String,
    pub name: String,
    pub slug: String,
    pub local_path: Option<String>,
    pub github_url: Option<String>,
    pub current_phase: i32,
    pub status_report: Option<String>,
    pub last_analyzed: Option<String>,
    pub created_at: String,
}

/// What is given to create a project.
#[derive(Debug)]
pub struct CreateProjectInput {
    pub name: String,
    pub local_path: Option<String>,
    pub github_url: Option<String>,
}

/// One checkpoint of a project's roadmap.
#[derive(Debug)]
pub struct RoadmapItem {
    pub id: String,
    pub project_id: String,
    pub sop_number: i32,
    pub sop_name: String,
    pub status: String,
    pub ai_notes: Option<String>,
    pub completed_at: Option<String>,
}

/// Whether a character is a letter or a digit, as Unicode classes them.
pub uninterp spec fn is_alphanumeric_char(c: char) -> bool;

/// `char::is_alphanumeric`: Unicode's classes of letters and numbers are
/// not spelled out here; the answer is known only by name.
#[verifier::external_body]
fn alphanumeric(c: char) -> (r: bool)
    ensures
        r == is_alphanumeric_char(c),
{
    c.is_alphanumeric()
}

/// The number of phases of the procedure.
pub open spec fn phase_count() -> nat {
    13
}

/// The name of each phase of the procedure.
pub open spec fn phase_name_of(phase: int) -> Seq<char> {
    if phase == 0 {
        "Idea Intake"@
    } else if phase == 1 {
        "Quick Validation"@
    } else if phase == 2 {
        "MVP Scope Lock"@
    } else if phase == 3 {
        "Revenue Model Lock"@
    } else if phase == 4 {
        "Design Brief"@
    } else if phase == 5 {
        "Project Setup"@
    } else if phase == 6 {
        "Infrastructure"@
    } else if phase == 7 {
        "Development"@
    } else if phase == 8 {
        "Testing & QA"@
    } else if phase == 9 {
        "Pre-Ship Checklist"@
    } else if phase == 10 {
        "Launch Day"@
    } else if phase == 11 {
        "Post-Launch Monitoring"@
    } else if phase == 12 {
        "Marketing Activation"@
    } else {
        "Unknown"@
    }
}

/// The name of a phase; `Unknown` for a number that names none.
pub fn phase_name(phase: i32) -> (name: String)
    ensures
        name@ == phase_name_of(phase as int),
{
    let text = if phase == 0 {
        "Idea Intake"
    } else if phase == 1 {
        "Quick Validation"
    } else if phase == 2 {
        "MVP Scope Lock"
    } else if phase == 3 {
        "Revenue Model Lock"
    } else if phase == 4 {
        "Design Brief"
    } else if phase == 5 {
        "Project Setup"
    } else if phase == 6 {
        "Infrastructure"
    } else if phase == 7 {
        "Development"
    } else if phase == 8 {
        "Testing & QA"
    } else if phase == 9 {
        "Pre-Ship Checklist"
    } else if phase == 10 {
        "Launch Day"
    } else if phase == 11 {
        "Post-Launch Monitoring"
    } else if phase == 12 {
        "Marketing Activation"
    } else {
        "Unknown"
    };
    text.to_owned()
}

/// The words of `t` that remain to be produced when the current word began
/// at `start` and scanning has reached `pos`. A word is a longest run of
/// characters that are marked in `keep`.
pub open spec fn words_from(t: Seq<char>, keep: Seq<bool>, start: int, pos: int) -> Seq<Seq<char>>
    decreases t.len() - pos,
{
    if pos >= t.len() {
        if start < t.len() {
            seq![t.subrange(start, t.len() as int)]
        } else {
            Seq::empty()
        }
    } else if pos < keep.len() && keep[pos] {
        words_from(t, keep, start, pos + 1)
    } else if start < pos {
        seq![t.subrange(start, pos)] + words_from(t, keep, pos + 1, pos + 1)
    } else {
        words_from(t, keep, pos + 1, pos + 1)
    }
}

/// The words of `t` under the marks `keep`, joined by hyphens.
pub open spec fn slug_with(t: Seq<char>, keep: Seq<bool>) -> Seq<char> {
    join_with(words_from(t, keep, 0, 0), seq!['-'])
}

/// For each character, whether it is a letter or a digit.
pub open spec fn alphanumeric_marks(t: Seq<char>) -> Seq<bool> {
    Seq::new(t.len(), |i: int| is_alphanumeric_char(t[i]))
}

/// The slug of a name: its lower-case form cut into its runs of letters
/// and digits, joined by single hyphens.
pub open spec fn slug_of(name: Seq<char>) -> Seq<char> {
    slug_with(lowercase_of(name), alphanumeric_marks(lowercase_of(name)))
}

/// Joins by hyphens the runs of `t` whose characters are marked in `keep`;
/// a character without a mark counts as not marked.
pub fn slug_from(t: &Vec<char>, keep: &Vec<bool>) -> (slug: Vec<char>)
    ensures
        slug@ == slug_with(t@, keep@),
{
    let mut words: Vec<Vec<char>> = Vec::new();
    let mut start: usize = 0;
    let mut pos: usize = 0;
    assert(vec_views(words@) =~= Seq::<Seq<char>>::empty());
    while pos < t.len()
        invariant
            start <= pos <= t.len(),
            vec_views(words@) + words_from(t@, keep@, start as int, pos as int) == words_from(
                t@,
                keep@,
                0,
                0,
            ),
        decreases t.len() - pos,
    {
        if pos < keep.len() && keep[pos] {
            pos += 1;
        } else {
            if start < pos {
                let word = slice_chars(t, start, pos);
                let ghost before = vec_views(words@);
                words.push(word);
                assert(vec_views(words@) =~= before + seq![word@]);
                assert(vec_views(words@) + words_from(t@, keep@, pos + 1, pos + 1) =~= before
                    + words_from(t@, keep@, start as int, pos as int));
            }
            pos += 1;
            start = pos;
        }
    }
    if start < t.len() {
        let word = slice_chars(t, start, t.len());
        let ghost before = vec_views(words@);
        words.push(word);
        assert(vec_views(words@) =~= before + seq![word@]);
    } else {
        assert(vec_views(words@) + Seq::<Seq<char>>::empty() =~= vec_views(words@));
    }
    let mut hyphen: Vec<char> = Vec::new();
    hyphen.push('-');
    assert(hyphen@ =~= seq!['-']);
    join(&words, &hyphen)
}

/// The slug of a name.
pub fn slugify(name: &str) -> (slug: String)
    ensures
        slug@ == slug_of(name@),
{
    let lowered = lowercase(name);
    let t = chars_of(lowered.as_str());
    let mut keep: Vec<bool> = Vec::new();
    let mut i: usize = 0;
    while i < t.len()
        invariant
            i <= t.len(),
            keep@ == alphanumeric_marks(t@).take(i as int),
        decreases t.len() - i,
    {
        keep.push(alphanumeric(t[i]));
        assert(keep@ =~= alphanumeric_marks(t@).take(i + 1));
        i += 1;
    }
    assert(alphanumeric_marks(t@).take(t.len() as int) =~= alphanumeric_marks(t@));
    let slug = slug_from(&t, &keep);
    string_of(&slug)
}

/// The project that is stored for an input: with the slug of its name, in
/// the first phase, not yet analyzed.
pub fn new_project(id: String, input: CreateProjectInput, created_at: String) -> (p: Project)
    ensures
        p.id == id,
        p.name == input.name,
        p.slug@ == slug_of(input.name@),
        p.local_path == input.local_path,
        p.github_url == input.github_url,
        p.current_phase == 0,
        p.status_report is None,
        p.last_analyzed is None,
        p.created_at == created_at,
{
    let slug = slugify(input.name.as_str());
    Project {
        id,
        name: input.name,
        slug,
        local_path: input.local_path,
        github_url: input.github_url,
        current_phase: 0,
        status_report: None,
        last_analyzed: None,
        created_at,
    }
}

/// The roadmap that a new project starts with: one pending item for each
/// phase, in order, with the identifiers given. Where fewer than thirteen
/// identifiers are given, the roadmap has an item for each of them.
pub fn initial_roadmap(project_id: &str, item_ids: Vec<String>) -> (items: Vec<RoadmapItem>)
    ensures
        items.len() == if item_ids.len() <= phase_count() {
            item_ids.len() as nat
        } else {
            phase_count()
        },
        forall|i: int|
            0 <= i < items.len() ==> {
                &&& (#[trigger] items[i]).id == item_ids[i]
                &&& items[i].project_id@ == project_id@
                &&& items[i].sop_number == i
                &&& items[i].sop_name@ == phase_name_of(i)
                &&& items[i].status@ == "pending"@
                &&& items[i].ai_notes is None
                &&& items[i].completed_at is None
            },
{
    let mut items: Vec<RoadmapItem> = Vec::new();
    let mut i: usize = 0;
    while i < item_ids.len() && i < 13
        invariant
            i <= item_ids.len(),
            i <= 13,
            items.len() == i,
            forall|k: int|
                0 <= k < i ==> {
                    &&& (#[trigger] items[k]).id == item_ids[k]
                    &&& items[k].project_id@ == project_id@
                    &&& items[k].sop_number == k
                    &&& items[k].sop_name@ == phase_name_of(k)
                    &&& items[k].status@ == "pending"@
                    &&& items[k].ai_notes is None
                    &&& items[k].completed_at is None
                },
        decreases item_ids.len() - i,
    {
        let number = i as i32;
        items.push(
            RoadmapItem {
                id: item_ids[i].clone(),
                project_id: project_id.to_owned(),
                sop_number: number,
                sop_name: phase_name(number),
                status: "pending".to_owned(),
                ai_notes: None,
                completed_at: None,
            },
        );
        i += 1;
    }
    items
}

/// When a roadmap item counts as completed: at `now` where its new status
/// is `complete`, and not at all otherwise.
pub fn completion_time(status: &str, now: String) -> (at: Option<String>)
    ensures
        status@ == "complete"@ ==> at == Some(now),
        status@ != "complete"@ ==> at is None,
{
    if str_eq(status, "complete") {
        Some(now)
    } else {
        None
    }
}

} // verus!
