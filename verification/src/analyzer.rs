//! The project analyzer: what is concluded about a project from what was
//! found in its directory. Finding it is the caller's part.

use vstd::prelude::*;
use vstd::string::StringExecFns;
use crate::errors::concat;
use crate::projects::{phase_name, phase_name_of};
use crate::search::name_of;
use crate::text::{
    char_marks,
    chars_of,
    contains,
    decimal,
    decimal_of,
    find_char,
    has_prefix,
    has_suffix,
    index_from,
    is_substring,
    join_strings,
    join_with,
    lines_of,
    push_chars,
    slice_chars,
    split_lines,
    starts_with,
    str_contains,
    str_ends_with,
    str_eq,
    str_starts_with,
    string_of,
    strip_char,
    stripped,
    text_view,
    trim,
    trimmed,
    vec_views,
    views,
};
use crate::walk::{chain, entry_views, EntryView, WalkEntry};

verus! {

/// What was concluded about a project.
#[derive(Debug, Clone)]
pub struct ProjectAnalysis {
    pub project_path: String,
    pub tech_stack: Vec<String>,
    pub frameworks: Vec<String>,
    pub has_git: bool,
    pub has_tests: bool,
    pub has_ci: bool,
    pub has_env_example: bool,
    pub file_count: usize,
    pub directory_structure: Vec<String>,
    pub detected_services: Vec<String>,
    pub package_json: Option<PackageJsonInfo>,
    pub cargo_toml: Option<CargoTomlInfo>,
    pub recommendations: Vec<String>,
    pub sop_progress: SopProgress,
}

/// What a project's `package.json` declares.
#[derive(Debug, Clone)]
pub struct PackageJsonInfo {
    pub name: Option<String>,
    pub dependencies: Vec<String>,
    pub dev_dependencies: Vec<String>,
    pub scripts: Vec<String>,
}

/// What a project's `Cargo.toml` declares.
#[derive(Debug, Clone)]
pub struct CargoTomlInfo {
    pub name: Option<String>,
    pub dependencies: Vec<String>,
}

/// How far a project has come in the procedure, and what shows it.
#[derive(Debug, Clone)]
pub struct SopProgress {
    pub estimated_phase: i32,
    pub phase_name: String,
    pub evidence: Vec<String>,
}

/// The item alone where the condition holds, and nothing where not.
pub open spec fn when(condition: bool, item: Seq<char>) -> Seq<Seq<char>> {
    if condition {
        seq![item]
    } else {
        Seq::empty()
    }
}

/// One of the texts contains `fragment`.
pub open spec fn any_contains(texts: Seq<Seq<char>>, fragment: Seq<char>) -> bool {
    exists|i: int| 0 <= i < texts.len() && is_substring(fragment, #[trigger] texts[i])
}

/// The technologies that the marker files found in a project stand for.
pub open spec fn tech_of(present: Seq<Seq<char>>) -> Seq<Seq<char>> {
    when(present.contains("package.json"@), "Node.js"@) + when(
        present.contains("Cargo.toml"@),
        "Rust"@,
    ) + when(
        present.contains("requirements.txt"@) || present.contains("pyproject.toml"@),
        "Python"@,
    ) + when(present.contains("go.mod"@), "Go"@)
}

/// The frameworks that the marker files found in a project stand for.
pub open spec fn frameworks_of(present: Seq<Seq<char>>) -> Seq<Seq<char>> {
    when(
        present.contains("next.config.js"@) || present.contains("next.config.ts"@)
            || present.contains("next.config.mjs"@),
        "Next.js"@,
    ) + when(present.contains("src-tauri"@), "Tauri"@) + when(
        present.contains("tailwind.config.js"@) || present.contains("tailwind.config.ts"@)
            || present.contains("postcss.config.mjs"@),
        "Tailwind CSS"@,
    ) + when(present.contains("drizzle.config.ts"@), "Drizzle ORM"@) + when(
        present.contains("prisma"@),
        "Prisma"@,
    )
}

/// The services that a `package.json` text hints at.
pub open spec fn package_services(content: Seq<char>) -> Seq<Seq<char>> {
    when(is_substring("@clerk"@, content), "Clerk (Auth)"@) + when(
        is_substring("stripe"@, content),
        "Stripe (Payments)"@,
    ) + when(is_substring("@sentry"@, content), "Sentry (Error Tracking)"@) + when(
        is_substring("@upstash"@, content),
        "Upstash"@,
    ) + when(
        is_substring("@neondatabase"@, content) || is_substring("neon"@, content),
        "Neon (PostgreSQL)"@,
    ) + when(is_substring("@vercel"@, content), "Vercel"@)
}

/// The services known after the text of one environment file was read:
/// those known before, and those that the file hints at. The
/// authentication and payment services are added once only, and a plain
/// database only where no service known so far names one.
pub open spec fn env_services(known: Seq<Seq<char>>, content: Seq<char>) -> Seq<Seq<char>> {
    let a = known + when(
        is_substring("CLERK"@, content) && !known.contains("Clerk (Auth)"@),
        "Clerk (Auth)"@,
    );
    let b = a + when(
        is_substring("STRIPE"@, content) && !a.contains("Stripe (Payments)"@),
        "Stripe (Payments)"@,
    );
    let c = b + when(
        is_substring("DATABASE_URL"@, content) && !any_contains(b, "PostgreSQL"@),
        "PostgreSQL"@,
    );
    let d = c + when(is_substring("ANTHROPIC"@, content), "Anthropic (AI)"@);
    d + when(is_substring("OPENAI"@, content), "OpenAI"@)
}

/// The services known after the first `upto` environment files; a file
/// that could not be read adds nothing.
pub open spec fn services_upto(
    known: Seq<Seq<char>>,
    env_files: Seq<Option<String>>,
    upto: nat,
) -> Seq<Seq<char>>
    decreases upto,
{
    if upto == 0 || upto > env_files.len() {
        known
    } else {
        let before = services_upto(known, env_files, (upto - 1) as nat);
        match env_files[upto - 1] {
            Some(content) => env_services(before, content@),
            None => before,
        }
    }
}

/// The services that a project uses, as its `package.json` and its
/// environment files hint.
pub open spec fn services_of(package_json: Option<String>, env_files: Seq<Option<String>>) -> Seq<
    Seq<char>,
> {
    services_upto(
        match package_json {
            Some(content) => package_services(content@),
            None => Seq::empty(),
        },
        env_files,
        env_files.len(),
    )
}

/// What counts for the estimate of a project's phase.
pub struct ProgressFacts {
    pub has_tech: bool,
    pub services: Seq<Seq<char>>,
    pub file_count: nat,
    pub has_tests: bool,
    pub has_ci: bool,
    pub has_env_example: bool,
}

/// What counts of an analysis for the estimate of the phase.
pub open spec fn facts_of(a: ProjectAnalysis) -> ProgressFacts {
    ProgressFacts {
        has_tech: a.tech_stack@.len() > 0,
        services: views(a.detected_services@),
        file_count: a.file_count as nat,
        has_tests: a.has_tests,
        has_ci: a.has_ci,
        has_env_example: a.has_env_example,
    }
}

/// The phase that a project is estimated to be in: the furthest one for
/// which there is evidence.
pub open spec fn phase_of(f: ProgressFacts) -> int {
    if f.has_ci && f.has_env_example {
        9
    } else if f.has_tests {
        8
    } else if f.file_count > 20 {
        7
    } else if f.services.len() > 0 {
        6
    } else if f.has_tech {
        5
    } else {
        0
    }
}

/// The evidence for the estimate, in the order of the phases.
pub open spec fn evidence_of(f: ProgressFacts) -> Seq<Seq<char>> {
    when(f.has_tech, "Project scaffolded with tech stack"@) + when(
        f.services.len() > 0,
        "Services configured: "@ + join_with(f.services, ", "@),
    ) + when(f.file_count > 20, decimal_of(f.file_count) + " files in project"@) + when(
        f.has_tests,
        "Test files detected"@,
    ) + when(f.has_ci && f.has_env_example, "CI/CD and env documentation present"@)
}

/// What counts for the recommendations.
pub struct AdviceFacts {
    pub has_env_example: bool,
    pub has_tests: bool,
    pub has_ci: bool,
    pub services: Seq<Seq<char>>,
}

/// What is recommended for a project, most basic first.
pub open spec fn advice_of(f: AdviceFacts) -> Seq<Seq<char>> {
    when(
        !f.has_env_example,
        "Add .env.example file to document required environment variables"@,
    ) + when(!f.has_tests, "Add tests to ensure code quality before shipping"@) + when(
        !f.has_ci,
        "Set up CI/CD pipeline (GitHub Actions, Vercel) for automated deployments"@,
    ) + when(
        !any_contains(f.services, "Auth"@),
        "Consider adding authentication (Clerk recommended)"@,
    ) + when(
        !any_contains(f.services, "Payments"@),
        "Set up payment processing (Stripe) for monetization"@,
    ) + when(
        !any_contains(f.services, "Error"@),
        "Add error tracking (Sentry) for production monitoring"@,
    )
}

/// Appends `item` where the condition holds.
fn push_when(list: &mut Vec<String>, condition: bool, item: &str)
    ensures
        views(final(list)@) == views(old(list)@) + when(condition, item@),
{
    if condition {
        list.push(item.to_owned());
        assert(views(list@) =~= views(old(list)@) + seq![item@]);
    } else {
        assert(views(list@) =~= views(old(list)@) + Seq::<Seq<char>>::empty());
    }
}

/// Whether one of the texts is `name`.
pub fn listed(names: &Vec<String>, name: &str) -> (r: bool)
    ensures
        r == views(names@).contains(name@),
{
    let mut i: usize = 0;
    while i < names.len()
        invariant
            i <= names.len(),
            forall|k: int| 0 <= k < i ==> views(names@)[k] != name@,
        decreases names.len() - i,
    {
        if str_eq(names[i].as_str(), name) {
            assert(views(names@)[i as int] == name@);
            return true;
        }
        i += 1;
    }
    false
}

/// Whether one of the texts contains `fragment`.
pub fn any_mentions(texts: &Vec<String>, fragment: &str) -> (r: bool)
    ensures
        r == any_contains(views(texts@), fragment@),
{
    let mut i: usize = 0;
    while i < texts.len()
        invariant
            i <= texts.len(),
            forall|k: int| 0 <= k < i ==> !is_substring(fragment@, #[trigger] views(texts@)[k]),
        decreases texts.len() - i,
    {
        if str_contains(texts[i].as_str(), fragment) {
            assert(is_substring(fragment@, views(texts@)[i as int]));
            return true;
        }
        i += 1;
    }
    false
}

/// The technologies and the frameworks of a project, from the names of
/// the marker files and directories that were found in it.
pub fn detect_tech_stack(present: &Vec<String>) -> (r: (Vec<String>, Vec<String>))
    ensures
        views(r.0@) == tech_of(views(present@)),
        views(r.1@) == frameworks_of(views(present@)),
{
    let mut tech: Vec<String> = Vec::new();
    let mut frameworks: Vec<String> = Vec::new();
    assert(views(tech@) =~= Seq::<Seq<char>>::empty());
    assert(views(frameworks@) =~= Seq::<Seq<char>>::empty());
    push_when(&mut tech, listed(present, "package.json"), "Node.js");
    push_when(&mut tech, listed(present, "Cargo.toml"), "Rust");
    push_when(
        &mut tech,
        listed(present, "requirements.txt") || listed(present, "pyproject.toml"),
        "Python",
    );
    push_when(&mut tech, listed(present, "go.mod"), "Go");
    assert(views(tech@) =~= tech_of(views(present@)));
    push_when(
        &mut frameworks,
        listed(present, "next.config.js") || listed(present, "next.config.ts") || listed(
            present,
            "next.config.mjs",
        ),
        "Next.js",
    );
    push_when(&mut frameworks, listed(present, "src-tauri"), "Tauri");
    push_when(
        &mut frameworks,
        listed(present, "tailwind.config.js") || listed(present, "tailwind.config.ts") || listed(
            present,
            "postcss.config.mjs",
        ),
        "Tailwind CSS",
    );
    push_when(&mut frameworks, listed(present, "drizzle.config.ts"), "Drizzle ORM");
    push_when(&mut frameworks, listed(present, "prisma"), "Prisma");
    assert(views(frameworks@) =~= frameworks_of(views(present@)));
    (tech, frameworks)
}

/// Adds the services that one environment file hints at.
fn add_env_services(services: &mut Vec<String>, content: &str)
    ensures
        views(final(services)@) == env_services(views(old(services)@), content@),
{
    let clerk = str_contains(content, "CLERK") && !listed(services, "Clerk (Auth)");
    push_when(services, clerk, "Clerk (Auth)");
    let stripe = str_contains(content, "STRIPE") && !listed(services, "Stripe (Payments)");
    push_when(services, stripe, "Stripe (Payments)");
    let database = str_contains(content, "DATABASE_URL") && !any_mentions(services, "PostgreSQL");
    push_when(services, database, "PostgreSQL");
    push_when(services, str_contains(content, "ANTHROPIC"), "Anthropic (AI)");
    push_when(services, str_contains(content, "OPENAI"), "OpenAI");
}

/// The services that a project uses, from the text of its `package.json`
/// and the texts of its environment files, each `None` where the file
/// could not be read.
pub fn detect_services(package_json: &Option<String>, env_files: &Vec<Option<String>>) -> (services:
    Vec<String>)
    ensures
        views(services@) == services_of(*package_json, env_files@),
{
    let mut services: Vec<String> = Vec::new();
    assert(views(services@) =~= Seq::<Seq<char>>::empty());
    match package_json {
        Some(content) => {
            let c = content.as_str();
            push_when(&mut services, str_contains(c, "@clerk"), "Clerk (Auth)");
            push_when(&mut services, str_contains(c, "stripe"), "Stripe (Payments)");
            push_when(&mut services, str_contains(c, "@sentry"), "Sentry (Error Tracking)");
            push_when(&mut services, str_contains(c, "@upstash"), "Upstash");
            push_when(
                &mut services,
                str_contains(c, "@neondatabase") || str_contains(c, "neon"),
                "Neon (PostgreSQL)",
            );
            push_when(&mut services, str_contains(c, "@vercel"), "Vercel");
            assert(views(services@) =~= package_services(content@));
        },
        None => {},
    }
    let ghost known = views(services@);
    let mut i: usize = 0;
    while i < env_files.len()
        invariant
            i <= env_files.len(),
            views(services@) == services_upto(known, env_files@, i as nat),
        decreases env_files.len() - i,
    {
        match &env_files[i] {
            Some(content) => {
                add_env_services(&mut services, content.as_str());
            },
            None => {},
        }
        i += 1;
    }
    services
}

/// Estimates the phase of the procedure that a project is in, with the
/// evidence for it.
pub fn estimate_sop_phase(analysis: &ProjectAnalysis) -> (progress: SopProgress)
    ensures
        progress.estimated_phase == phase_of(facts_of(*analysis)),
        progress.phase_name@ == phase_name_of(phase_of(facts_of(*analysis))),
        views(progress.evidence@) == evidence_of(facts_of(*analysis)),
{
    let ghost f = facts_of(*analysis);
    let mut evidence: Vec<String> = Vec::new();
    let mut phase: i32 = 0;
    assert(views(evidence@) =~= Seq::<Seq<char>>::empty());
    let has_tech = analysis.tech_stack.len() > 0;
    if has_tech {
        phase = 5;
    }
    push_when(&mut evidence, has_tech, "Project scaffolded with tech stack");
    let has_services = analysis.detected_services.len() > 0;
    assert(views(analysis.detected_services@).len() == analysis.detected_services.len());
    if has_services {
        phase = 6;
    }
    let joined = join_strings(&analysis.detected_services, ", ");
    let configured = concat("Services configured: ", joined.as_str());
    push_when(&mut evidence, has_services, configured.as_str());
    let many_files = analysis.file_count > 20;
    if many_files {
        phase = 7;
    }
    let mut counted = String::new();
    let digits = decimal(analysis.file_count as u64);
    push_chars(&mut counted, &digits);
    counted.append(" files in project");
    assert(counted@ =~= decimal_of(f.file_count) + " files in project"@);
    push_when(&mut evidence, many_files, counted.as_str());
    if analysis.has_tests {
        phase = 8;
    }
    push_when(&mut evidence, analysis.has_tests, "Test files detected");
    let documented = analysis.has_ci && analysis.has_env_example;
    if documented {
        phase = 9;
    }
    push_when(&mut evidence, documented, "CI/CD and env documentation present");
    assert(views(evidence@) =~= evidence_of(f));
    SopProgress { estimated_phase: phase, phase_name: phase_name(phase), evidence }
}

/// What counts of an analysis for the recommendations.
pub open spec fn advice_facts(a: ProjectAnalysis) -> AdviceFacts {
    AdviceFacts {
        has_env_example: a.has_env_example,
        has_tests: a.has_tests,
        has_ci: a.has_ci,
        services: views(a.detected_services@),
    }
}

/// What is recommended for a project: whatever of environment
/// documentation, tests, automated deployment, authentication, payments
/// and error tracking it still lacks.
pub fn generate_recommendations(analysis: &ProjectAnalysis) -> (recs: Vec<String>)
    ensures
        views(recs@) == advice_of(advice_facts(*analysis)),
{
    let mut recs: Vec<String> = Vec::new();
    assert(views(recs@) =~= Seq::<Seq<char>>::empty());
    push_when(
        &mut recs,
        !analysis.has_env_example,
        "Add .env.example file to document required environment variables",
    );
    push_when(&mut recs, !analysis.has_tests, "Add tests to ensure code quality before shipping");
    push_when(
        &mut recs,
        !analysis.has_ci,
        "Set up CI/CD pipeline (GitHub Actions, Vercel) for automated deployments",
    );
    push_when(
        &mut recs,
        !any_mentions(&analysis.detected_services, "Auth"),
        "Consider adding authentication (Clerk recommended)",
    );
    push_when(
        &mut recs,
        !any_mentions(&analysis.detected_services, "Payments"),
        "Set up payment processing (Stripe) for monetization",
    );
    push_when(
        &mut recs,
        !any_mentions(&analysis.detected_services, "Error"),
        "Add error tracking (Sentry) for production monitoring",
    );
    assert(views(recs@) =~= advice_of(advice_facts(*analysis)));
    recs
}

/// One entry directly inside the project directory.
pub struct TopEntry {
    pub name: String,
    pub is_dir: bool,
}

/// What was found in a project directory.
pub struct ProjectFacts {
    /// The directory's own name.
    pub root_name: String,
    /// Which of the marker files and directories exist, by their paths
    /// below the project directory.
    pub present: Vec<String>,
    /// The text of `package.json`, where it could be read.
    pub package_json: Option<String>,
    /// What `package.json` declares, where it could be read and parsed.
    pub package_info: Option<PackageJsonInfo>,
    /// The text of `Cargo.toml`, where it could be read.
    pub cargo_toml: Option<String>,
    /// The texts of `.env`, `.env.example` and `.env.local`, in this
    /// order, each where it could be read.
    pub env_files: Vec<Option<String>>,
    /// The entries of a walk down to three levels, nothing left out.
    pub shallow_walk: Vec<WalkEntry>,
    /// The entries of a walk of the whole tree.
    pub walk: Vec<WalkEntry>,
    /// The entries directly inside the directory.
    pub top_level: Vec<TopEntry>,
}

/// The files and directories whose presence in a project directory tells
/// something about the project, by their paths below it.
pub open spec fn marker_names() -> Seq<Seq<char>> {
    seq![
        "package.json"@,
        "Cargo.toml"@,
        "requirements.txt"@,
        "pyproject.toml"@,
        "go.mod"@,
        "next.config.js"@,
        "next.config.ts"@,
        "next.config.mjs"@,
        "src-tauri"@,
        "tailwind.config.js"@,
        "tailwind.config.ts"@,
        "postcss.config.mjs"@,
        "drizzle.config.ts"@,
        "prisma"@,
        ".git"@,
        ".env.example"@,
        "tests"@,
        "__tests__"@,
        "test"@,
        ".github/workflows"@,
        "vercel.json"@,
        ".gitlab-ci.yml"@,
    ]
}

/// The environment files that are read for hints at services, in the
/// order in which they are read.
pub open spec fn env_file_names() -> Seq<Seq<char>> {
    seq![".env"@, ".env.example"@, ".env.local"@]
}

/// The paths whose presence is to be looked for in a project directory.
pub fn markers() -> (names: Vec<String>)
    ensures
        views(names@) == marker_names(),
{
    let mut names: Vec<String> = Vec::new();
    names.push("package.json".to_owned());
    names.push("Cargo.toml".to_owned());
    names.push("requirements.txt".to_owned());
    names.push("pyproject.toml".to_owned());
    names.push("go.mod".to_owned());
    names.push("next.config.js".to_owned());
    names.push("next.config.ts".to_owned());
    names.push("next.config.mjs".to_owned());
    names.push("src-tauri".to_owned());
    names.push("tailwind.config.js".to_owned());
    names.push("tailwind.config.ts".to_owned());
    names.push("postcss.config.mjs".to_owned());
    names.push("drizzle.config.ts".to_owned());
    names.push("prisma".to_owned());
    names.push(".git".to_owned());
    names.push(".env.example".to_owned());
    names.push("tests".to_owned());
    names.push("__tests__".to_owned());
    names.push("test".to_owned());
    names.push(".github/workflows".to_owned());
    names.push("vercel.json".to_owned());
    names.push(".gitlab-ci.yml".to_owned());
    assert(views(names@) =~= marker_names());
    names
}

/// The names of the environment files that are to be read.
pub fn env_files() -> (names: Vec<String>)
    ensures
        views(names@) == env_file_names(),
{
    let mut names: Vec<String> = Vec::new();
    names.push(".env".to_owned());
    names.push(".env.example".to_owned());
    names.push(".env.local".to_owned());
    assert(views(names@) =~= env_file_names());
    names
}

/// The name is that of a test file.
pub open spec fn is_test_name(name: Seq<char>) -> bool {
    ||| has_suffix(name, ".test.ts"@)
    ||| has_suffix(name, ".test.tsx"@)
    ||| has_suffix(name, ".spec.ts"@)
    ||| has_suffix(name, "_test.rs"@)
}

/// One of the entries down to three levels has the name of a test file.
pub open spec fn has_test_file(entries: Seq<EntryView>, root_name: Seq<char>) -> bool {
    exists|i: int|
        0 <= i < entries.len() && (#[trigger] entries[i]).components.len() <= 3 && is_test_name(
            name_of(root_name, entries[i]),
        )
}

/// The name begins like something that is not counted among a project's
/// files: dependency caches, version-control data and build output.
pub open spec fn is_uncounted_name(name: Seq<char>) -> bool {
    ||| has_prefix(name, "node_modules"@)
    ||| has_prefix(name, ".git"@)
    ||| has_prefix(name, "target"@)
    ||| has_prefix(name, ".next"@)
    ||| has_prefix(name, "out"@)
}

/// The entry counts as one of the project's files: it is a regular file,
/// and neither its own name nor that of a directory above it, the project
/// directory included, begins like an uncounted one.
pub open spec fn is_counted(e: EntryView, root_name: Seq<char>) -> bool {
    e.is_file && forall|i: int|
        0 <= i < chain(root_name, e.components).len() ==> !is_uncounted_name(
            #[trigger] chain(root_name, e.components)[i],
        )
}

/// The number of counted files among the first `upto` entries.
pub open spec fn counted_upto(entries: Seq<EntryView>, root_name: Seq<char>, upto: nat) -> nat
    decreases upto,
{
    if upto == 0 || upto > entries.len() {
        0
    } else {
        counted_upto(entries, root_name, (upto - 1) as nat) + if is_counted(
            entries[upto - 1],
            root_name,
        ) {
            1nat
        } else {
            0nat
        }
    }
}

/// How an entry of the project directory is shown: a directory with a
/// slash after its name.
pub open spec fn label_of(e: TopEntry) -> Seq<char> {
    if e.is_dir {
        e.name@ + "/"@
    } else {
        e.name@
    }
}

/// The labels of the first `upto` entries of the project directory that
/// are shown: all but version-control data and the dependency cache.
pub open spec fn structure_upto(top: Seq<TopEntry>, upto: nat) -> Seq<Seq<char>>
    decreases upto,
{
    if upto == 0 || upto > top.len() {
        Seq::empty()
    } else {
        let label = label_of(top[upto - 1]);
        structure_upto(top, (upto - 1) as nat) + when(
            !has_prefix(label, ".git"@) && label != "node_modules/"@,
            label,
        )
    }
}

/// The index of the first line at or after `from` that begins with
/// `name`, or the number of lines.
pub open spec fn name_line(lines: Seq<Seq<char>>, from: int) -> int
    decreases lines.len() - from,
{
    if from >= lines.len() {
        lines.len() as int
    } else if has_prefix(lines[from], "name"@) {
        from
    } else {
        name_line(lines, from + 1)
    }
}

/// The value that a line gives after its first equals sign: what stands
/// up to the next equals sign, without the white space around it and then
/// without the double quotes around it. A line without an equals sign gives
/// none.
pub open spec fn value_of(line: Seq<char>) -> Option<Seq<char>> {
    let p = index_from(line, '=', 0);
    if p >= line.len() {
        None
    } else {
        let q = index_from(line, '=', p + 1);
        let inner = trimmed(line.subrange(p + 1, q));
        Some(stripped(inner, char_marks(inner, '"')))
    }
}

/// The package name that a `Cargo.toml` declares: the value of its first
/// line that begins with `name`.
pub open spec fn cargo_name_of(lines: Seq<Seq<char>>) -> Option<Seq<char>> {
    let i = name_line(lines, 0);
    if i >= lines.len() {
        None
    } else {
        value_of(lines[i])
    }
}

/// The index of the first line at or after `from` that contains the
/// heading of the dependencies, or the number of lines.
pub open spec fn section_line(lines: Seq<Seq<char>>, from: int) -> int
    decreases lines.len() - from,
{
    if from >= lines.len() {
        lines.len() as int
    } else if is_substring("[dependencies]"@, lines[from]) {
        from
    } else {
        section_line(lines, from + 1)
    }
}

/// The key that a line declares: what stands before its first equals
/// sign, without the white space around it.
pub open spec fn key_of(line: Seq<char>) -> Seq<char> {
    trimmed(line.subrange(0, index_from(line, '=', 0)))
}

/// The keys declared from line `pos` on, up to the next heading: one for
/// each line with an equals sign and a key before it.
pub open spec fn keys_from(lines: Seq<Seq<char>>, pos: int) -> Seq<Seq<char>>
    decreases lines.len() - pos,
{
    if pos < 0 || pos >= lines.len() {
        Seq::empty()
    } else if lines[pos].len() > 0 && lines[pos][0] == '[' {
        Seq::empty()
    } else {
        when(
            index_from(lines[pos], '=', 0) < lines[pos].len() && key_of(lines[pos]).len() > 0,
            key_of(lines[pos]),
        ) + keys_from(lines, pos + 1)
    }
}

/// The dependencies that a `Cargo.toml` declares: the keys under its
/// first heading of dependencies.
pub open spec fn cargo_dependencies_of(lines: Seq<Seq<char>>) -> Seq<Seq<char>> {
    keys_from(lines, section_line(lines, 0) + 1)
}

/// Whether the name is that of a test file.
pub fn test_name(name: &str) -> (r: bool)
    ensures
        r == is_test_name(name@),
{
    str_ends_with(name, ".test.ts") || str_ends_with(name, ".test.tsx") || str_ends_with(
        name,
        ".spec.ts",
    ) || str_ends_with(name, "_test.rs")
}

/// Whether a name begins like something that is not counted.
pub fn uncounted_name(name: &str) -> (r: bool)
    ensures
        r == is_uncounted_name(name@),
{
    str_starts_with(name, "node_modules") || str_starts_with(name, ".git") || str_starts_with(
        name,
        "target",
    ) || str_starts_with(name, ".next") || str_starts_with(name, "out")
}

/// Whether one of the entries down to three levels is a test file.
fn finds_test_file(entries: &Vec<WalkEntry>, root_name: &str) -> (r: bool)
    ensures
        r == has_test_file(entry_views(entries@), root_name@),
{
    let ghost ev = entry_views(entries@);
    let mut i: usize = 0;
    while i < entries.len()
        invariant
            i <= entries.len(),
            ev == entry_views(entries@),
            forall|k: int|
                0 <= k < i ==> !((#[trigger] ev[k]).components.len() <= 3 && is_test_name(
                    name_of(root_name@, ev[k]),
                )),
        decreases entries.len() - i,
    {
        let entry = &entries[i];
        assert(ev[i as int] == entry@);
        let n = entry.components.len();
        if n <= 3 {
            let found = if n > 0 {
                assert(views(entry.components@).last() == entry.components@[n - 1]@);
                test_name(entry.components[n - 1].as_str())
            } else {
                test_name(root_name)
            };
            if found {
                return true;
            }
        }
        i += 1;
    }
    false
}

/// Whether an entry counts as one of the project's files.
fn counted(entry: &WalkEntry, root_name: &str) -> (r: bool)
    ensures
        r == is_counted(entry@, root_name@),
{
    let ghost names = chain(root_name@, entry@.components);
    if !entry.is_file {
        return false;
    }
    if uncounted_name(root_name) {
        assert(is_uncounted_name(names[0]));
        return false;
    }
    let mut i: usize = 0;
    while i < entry.components.len()
        invariant
            i <= entry.components.len(),
            names == chain(root_name@, entry@.components),
            forall|k: int| 0 <= k < i + 1 ==> !is_uncounted_name(#[trigger] names[k]),
        decreases entry.components.len() - i,
    {
        assert(names[i + 1] == entry.components@[i as int]@);
        if uncounted_name(entry.components[i].as_str()) {
            return false;
        }
        i += 1;
    }
    true
}

/// The number of the project's files among the entries of a walk.
fn count_files(entries: &Vec<WalkEntry>, root_name: &str) -> (n: usize)
    ensures
        n == counted_upto(entry_views(entries@), root_name@, entries@.len()),
{
    let ghost ev = entry_views(entries@);
    let mut n: usize = 0;
    let mut i: usize = 0;
    while i < entries.len()
        invariant
            i <= entries.len(),
            ev == entry_views(entries@),
            n <= i,
            n == counted_upto(ev, root_name@, i as nat),
        decreases entries.len() - i,
    {
        assert(ev[i as int] == entries[i as int]@);
        if counted(&entries[i], root_name) {
            n += 1;
        }
        i += 1;
    }
    n
}

/// The labels of the entries of the project directory that are shown.
fn directory_structure(top: &Vec<TopEntry>) -> (shown: Vec<String>)
    ensures
        views(shown@) == structure_upto(top@, top@.len()),
{
    let mut shown: Vec<String> = Vec::new();
    let mut i: usize = 0;
    assert(views(shown@) =~= Seq::<Seq<char>>::empty());
    while i < top.len()
        invariant
            i <= top.len(),
            views(shown@) == structure_upto(top@, i as nat),
        decreases top.len() - i,
    {
        let entry = &top[i];
        let label = if entry.is_dir {
            concat(entry.name.as_str(), "/")
        } else {
            entry.name.clone()
        };
        let keep = !str_starts_with(label.as_str(), ".git") && !str_eq(
            label.as_str(),
            "node_modules/",
        );
        let ghost before = views(shown@);
        if keep {
            shown.push(label);
            assert(views(shown@) =~= before + seq![label@]);
        } else {
            assert(views(shown@) =~= before + Seq::<Seq<char>>::empty());
        }
        i += 1;
    }
    shown
}

/// The value that a line gives after its first equals sign.
fn line_value(line: &Vec<char>) -> (r: Option<Vec<char>>)
    ensures
        match r {
            Some(v) => value_of(line@) == Some(v@),
            None => value_of(line@) is None,
        },
{
    let p = find_char(line, '=', 0);
    if p >= line.len() {
        return None;
    }
    let q = find_char(line, '=', p + 1);
    let between = slice_chars(line, p + 1, q);
    let inner = trim(&between);
    Some(strip_char(&inner, '"'))
}

/// The package name that the lines of a `Cargo.toml` declare.
fn cargo_name(lines: &Vec<Vec<char>>) -> (r: Option<String>)
    ensures
        text_view(r) == cargo_name_of(vec_views(lines@)),
{
    let ghost lv = vec_views(lines@);
    let key = chars_of("name");
    let mut i: usize = 0;
    while i < lines.len()
        invariant
            i <= lines.len(),
            lv == vec_views(lines@),
            key@ == "name"@,
            name_line(lv, 0) == name_line(lv, i as int),
        decreases lines.len() - i,
    {
        assert(lv[i as int] == lines[i as int]@);
        if starts_with(&lines[i], &key) {
            return match line_value(&lines[i]) {
                Some(v) => Some(string_of(&v)),
                None => None,
            };
        }
        i += 1;
    }
    None
}

/// The dependencies that the lines of a `Cargo.toml` declare.
fn cargo_dependencies(lines: &Vec<Vec<char>>) -> (deps: Vec<String>)
    ensures
        views(deps@) == cargo_dependencies_of(vec_views(lines@)),
{
    let ghost lv = vec_views(lines@);
    let heading = chars_of("[dependencies]");
    let mut start: usize = 0;
    let mut searching = true;
    while searching && start < lines.len()
        invariant
            start <= lines.len(),
            lv == vec_views(lines@),
            heading@ == "[dependencies]"@,
            section_line(lv, 0) == section_line(lv, start as int),
            !searching ==> start < lines.len() && is_substring("[dependencies]"@, lv[start as int]),
        decreases
            lines.len() - start + if searching {
                1int
            } else {
                0int
            },
    {
        assert(lv[start as int] == lines[start as int]@);
        if contains(&lines[start], &heading) {
            searching = false;
        } else {
            start += 1;
        }
    }
    let mut deps: Vec<String> = Vec::new();
    assert(views(deps@) =~= Seq::<Seq<char>>::empty());
    if start >= lines.len() {
        return deps;
    }
    let mut pos: usize = start + 1;
    let mut open = true;
    while open && pos < lines.len()
        invariant
            pos <= lines.len(),
            lv == vec_views(lines@),
            open ==> views(deps@) + keys_from(lv, pos as int) == cargo_dependencies_of(lv),
            !open ==> views(deps@) == cargo_dependencies_of(lv),
        decreases
            lines.len() - pos + if open {
                1int
            } else {
                0int
            },
    {
        let line = &lines[pos];
        assert(lv[pos as int] == line@);
        if line.len() > 0 && line[0] == '[' {
            open = false;
            assert(views(deps@) + Seq::<Seq<char>>::empty() =~= views(deps@));
        } else {
            let p = find_char(line, '=', 0);
            let ghost before = views(deps@);
            if p < line.len() {
                let head = slice_chars(line, 0, p);
                let key = trim(&head);
                if key.len() > 0 {
                    let name = string_of(&key);
                    deps.push(name);
                    assert(views(deps@) =~= before + seq![key@]);
                    assert(views(deps@) + keys_from(lv, pos + 1) =~= before + keys_from(
                        lv,
                        pos as int,
                    ));
                } else {
                    assert(before + keys_from(lv, pos + 1) =~= before + keys_from(lv, pos as int));
                }
            } else {
                assert(before + keys_from(lv, pos + 1) =~= before + keys_from(lv, pos as int));
            }
            pos += 1;
        }
    }
    proof {
        if open {
            assert(views(deps@) + Seq::<Seq<char>>::empty() =~= views(deps@));
        }
    }
    deps
}

/// Reads what a `Cargo.toml` declares: the package's name and the names
/// of its dependencies.
pub fn parse_cargo_toml(content: &str) -> (info: CargoTomlInfo)
    ensures
        text_view(info.name) == cargo_name_of(lines_of(content@)),
        views(info.dependencies@) == cargo_dependencies_of(lines_of(content@)),
{
    let chars = chars_of(content);
    let lines = split_lines(&chars);
    CargoTomlInfo { name: cargo_name(&lines), dependencies: cargo_dependencies(&lines) }
}

/// Why a path cannot be analyzed, if it cannot: it has to exist and to be
/// a directory.
pub fn check_project_dir(path: &str, exists: bool, is_dir: bool) -> (r: Result<(), String>)
    ensures
        match r {
            Ok(_) => exists && is_dir,
            Err(msg) => if !exists {
                msg@ == "Path does not exist: "@ + path@
            } else {
                !is_dir && msg@ == "Path is not a directory: "@ + path@
            },
        },
{
    if !exists {
        Err(concat("Path does not exist: ", path))
    } else if !is_dir {
        Err(concat("Path is not a directory: ", path))
    } else {
        Ok(())
    }
}

/// Draws the conclusions about a project from what was found in its
/// directory.
pub fn analyze_project(path: String, facts: ProjectFacts) -> (a: ProjectAnalysis)
    ensures
        a.project_path == path,
        views(a.tech_stack@) == tech_of(views(facts.present@)),
        views(a.frameworks@) == frameworks_of(views(facts.present@)),
        a.has_git == views(facts.present@).contains(".git"@),
        a.has_env_example == views(facts.present@).contains(".env.example"@),
        a.has_tests == (views(facts.present@).contains("tests"@) || views(
            facts.present@,
        ).contains("__tests__"@) || views(facts.present@).contains("test"@) || has_test_file(
            entry_views(facts.shallow_walk@),
            facts.root_name@,
        )),
        a.has_ci == (views(facts.present@).contains(".github/workflows"@) || views(
            facts.present@,
        ).contains("vercel.json"@) || views(facts.present@).contains(".gitlab-ci.yml"@)),
        a.file_count == counted_upto(
            entry_views(facts.walk@),
            facts.root_name@,
            facts.walk@.len(),
        ),
        views(a.directory_structure@) == structure_upto(facts.top_level@, facts.top_level@.len()),
        views(a.detected_services@) == services_of(facts.package_json, facts.env_files@),
        a.package_json == facts.package_info,
        match facts.cargo_toml {
            Some(text) => a.cargo_toml matches Some(info) && text_view(info.name) == cargo_name_of(
                lines_of(text@),
            ) && views(info.dependencies@) == cargo_dependencies_of(lines_of(text@)),
            None => a.cargo_toml is None,
        },
        a.sop_progress.estimated_phase == phase_of(facts_of(a)),
        a.sop_progress.phase_name@ == phase_name_of(phase_of(facts_of(a))),
        views(a.sop_progress.evidence@) == evidence_of(facts_of(a)),
        views(a.recommendations@) == advice_of(advice_facts(a)),
{
    let (tech_stack, frameworks) = detect_tech_stack(&facts.present);
    let detected_services = detect_services(&facts.package_json, &facts.env_files);
    let has_git = listed(&facts.present, ".git");
    let has_env_example = listed(&facts.present, ".env.example");
    let has_tests = listed(&facts.present, "tests") || listed(&facts.present, "__tests__")
        || listed(&facts.present, "test") || finds_test_file(
        &facts.shallow_walk,
        facts.root_name.as_str(),
    );
    let has_ci = listed(&facts.present, ".github/workflows") || listed(
        &facts.present,
        "vercel.json",
    ) || listed(&facts.present, ".gitlab-ci.yml");
    let file_count = count_files(&facts.walk, facts.root_name.as_str());
    let structure = directory_structure(&facts.top_level);
    let cargo_toml = match &facts.cargo_toml {
        Some(text) => Some(parse_cargo_toml(text.as_str())),
        None => None,
    };
    let draft = ProjectAnalysis {
        project_path: path,
        tech_stack,
        frameworks,
        has_git,
        has_tests,
        has_ci,
        has_env_example,
        file_count,
        directory_structure: structure,
        detected_services,
        package_json: facts.package_info,
        cargo_toml,
        recommendations: Vec::new(),
        sop_progress: SopProgress {
            estimated_phase: 0,
            phase_name: "Unknown".to_owned(),
            evidence: Vec::new(),
        },
    };
    let sop_progress = estimate_sop_phase(&draft);
    let recommendations = generate_recommendations(&draft);
    ProjectAnalysis {
        project_path: draft.project_path,
        tech_stack: draft.tech_stack,
        frameworks: draft.frameworks,
        has_git: draft.has_git,
        has_tests: draft.has_tests,
        has_ci: draft.has_ci,
        has_env_example: draft.has_env_example,
        file_count: draft.file_count,
        directory_structure: draft.directory_structure,
        detected_services: draft.detected_services,
        package_json: draft.package_json,
        cargo_toml: draft.cargo_toml,
        recommendations,
        sop_progress,
    }
}

} // verus!
