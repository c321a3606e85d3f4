use launchpad::analyzer::{
    analyze_project, any_mentions, check_project_dir, detect_services, detect_tech_stack, estimate_sop_phase,
    generate_recommendations, listed, parse_cargo_toml, test_name, uncounted_name, PackageJsonInfo, ProjectAnalysis,
    ProjectFacts, SopProgress, TopEntry,
};
use launchpad::chat::{conversation_title, wants_title};
use launchpad::credentials::{
    api_key_answer, delete_credential, deletion_outcome, get_credential, has_credential, read_failure,
    read_outcome, storage_failure, storage_outcome, store_credential, CredentialError, StoreFault,
    SERVICE_NAME,
};
use launchpad::ideas::{status_stamp, StatusStamp};
use launchpad::projects::{completion_time, initial_roadmap, new_project, phase_name, slug_from, slugify, CreateProjectInput};
use launchpad::settings::{apply_setting, is_secret_key, setting_route, wants_migration, AppSettings, SettingRoute};
use launchpad::shot_clock::{clock_status, default_allocation, new_session};
use launchpad::sops::{default_sops, lists_active_only, stage};
use launchpad::text::{strip_char, strip_marked, trim};
use launchpad::walk::WalkEntry;

fn strings(items: &[&str]) -> Vec<String> {
    items.iter().map(|s| s.to_string()).collect()
}

#[test]
fn slugs() {
    assert_eq!(slugify("My Cool App"), "my-cool-app");
    assert_eq!(slugify("  Hello,   World!  "), "hello-world");
    assert_eq!(slugify("already-a-slug"), "already-a-slug");
    assert_eq!(slugify("--x--"), "x");
    assert_eq!(slugify(""), "");
    assert_eq!(slugify("!!!"), "");
    assert_eq!(slugify("Ünïcödé Näme 42"), "ünïcödé-näme-42");
    assert_eq!(slugify("a_b.c"), "a-b-c");
    assert_eq!(launchpad::ideas::slugify("Idea #1"), "idea-1");
    let t: Vec<char> = "ab cd".chars().collect();
    assert_eq!(slug_from(&t, &vec![true, true, false, true, true]), "ab-cd".chars().collect::<Vec<_>>());
    assert_eq!(slug_from(&t, &vec![true, false, true, true, true]), "a- cd".chars().collect::<Vec<_>>());
    assert_eq!(slug_from(&t, &vec![true, true]), "ab".chars().collect::<Vec<_>>());
}

#[test]
fn new_projects_and_roadmaps() {
    let input = CreateProjectInput {
        name: "Launch Pad".to_string(),
        local_path: Some("/p".to_string()),
        github_url: None,
    };
    let p = new_project("id-1".to_string(), input, "2024-01-01".to_string());
    assert_eq!(p.slug, "launch-pad");
    assert_eq!(p.name, "Launch Pad");
    assert_eq!(p.current_phase, 0);
    assert_eq!(p.local_path.as_deref(), Some("/p"));
    assert!(p.status_report.is_none() && p.last_analyzed.is_none() && p.github_url.is_none());
    let ids: Vec<String> = (0..13).map(|i| format!("item-{}", i)).collect();
    let roadmap = initial_roadmap("id-1", ids);
    assert_eq!(roadmap.len(), 13);
    assert_eq!(roadmap[0].sop_name, "Idea Intake");
    assert_eq!(roadmap[12].sop_name, "Marketing Activation");
    assert_eq!(roadmap[7].sop_number, 7);
    assert_eq!(roadmap[7].id, "item-7");
    assert!(roadmap.iter().all(|r| r.status == "pending" && r.project_id == "id-1" && r.completed_at.is_none()));
    assert_eq!(initial_roadmap("x", strings(&["a", "b"])).len(), 2);
    assert_eq!(initial_roadmap("x", (0..20).map(|i| i.to_string()).collect()).len(), 13);
    assert_eq!(phase_name(8), "Testing & QA");
    assert_eq!(phase_name(13), "Unknown");
    assert_eq!(phase_name(-1), "Unknown");
    assert_eq!(completion_time("complete", "t".to_string()), Some("t".to_string()));
    assert_eq!(completion_time("pending", "t".to_string()), None);
}

#[test]
fn titles() {
    assert_eq!(conversation_title("short"), "short");
    let fifty = "x".repeat(50);
    assert_eq!(conversation_title(&fifty), fifty);
    let long = "y".repeat(51);
    assert_eq!(conversation_title(&long), format!("{}...", "y".repeat(50)));
    let accents = "é".repeat(30);
    assert_eq!(conversation_title(&accents), format!("{}...", accents));
    assert!(wants_title("user", false));
    assert!(!wants_title("user", true));
    assert!(!wants_title("assistant", false));
}

#[test]
fn shot_clocks() {
    let expected = [900, 1800, 2700, 1800, 3600, 2700, 5400, 28800, 10800, 7200, 10800, 3600, 10800];
    for (phase, seconds) in expected.iter().enumerate() {
        assert_eq!(default_allocation(phase as i32), *seconds);
    }
    assert_eq!(default_allocation(13), 3600);
    assert_eq!(default_allocation(-5), 3600);
    assert_eq!(clock_status(0), "expired");
    assert_eq!(clock_status(-3), "expired");
    assert_eq!(clock_status(1), "active");
    let s = new_session("s".to_string(), "p".to_string(), 7, "now".to_string());
    assert_eq!(s.allocated_time_seconds, 28800);
    assert_eq!(s.time_remaining_seconds, 28800);
    assert_eq!(s.bonus_time_seconds, 0);
    assert_eq!(s.status, "active");
    assert!(s.completed_at.is_none() && s.locked_until.is_none());
}

#[test]
fn default_documents_and_stamps() {
    let table = default_sops();
    assert_eq!(table.len(), 13);
    let rows: Vec<(i32, &str, &str)> = table.iter().map(|r| (r.number, r.name.as_str(), r.stage.as_str())).collect();
    assert_eq!(rows[0], (0, "Idea Intake", "ideation"));
    assert_eq!(rows[3], (3, "Revenue Model Lock", "ideation"));
    assert_eq!(rows[4], (4, "Design Brief", "design"));
    assert_eq!(rows[6], (6, "Infrastructure", "setup"));
    assert_eq!(rows[8], (8, "Testing & QA", "build"));
    assert_eq!(rows[10], (10, "Launch Day", "launch"));
    assert_eq!(rows[12], (12, "Marketing Activation", "post_launch"));
    assert_eq!(stage(5), "setup");
    assert!(lists_active_only(Some(true)));
    assert!(!lists_active_only(Some(false)));
    assert!(!lists_active_only(None));
    assert_eq!(status_stamp("active"), StatusStamp::Activated);
    assert_eq!(status_stamp("audited"), StatusStamp::Audited);
    assert_eq!(status_stamp("pending"), StatusStamp::Unstamped);
}

#[test]
fn settings_routes() {
    let d = AppSettings::default();
    assert_eq!(d.theme, "system");
    assert!(d.auto_analyze);
    assert!(d.anthropic_api_key.is_none());
    assert!(is_secret_key("anthropic_api_key"));
    assert!(!is_secret_key("theme"));
    assert_eq!(setting_route("anthropic_api_key", "sk"), SettingRoute::StoreSecret);
    assert_eq!(setting_route("anthropic_api_key", ""), SettingRoute::DeleteSecret);
    assert_eq!(setting_route("theme", ""), SettingRoute::StoreRow);
    assert!(wants_migration("k"));
    assert!(!wants_migration(""));
    let s = apply_setting(AppSettings::default(), "theme", "dark".to_string());
    assert_eq!(s.theme, "dark");
    let s = apply_setting(s, "auto_analyze", "false".to_string());
    assert!(!s.auto_analyze);
    let s = apply_setting(s, "auto_analyze", "true".to_string());
    assert!(s.auto_analyze);
    let s = apply_setting(s, "auto_analyze", "TRUE".to_string());
    assert!(!s.auto_analyze);
    let s = apply_setting(s, "anthropic_api_key", "leak".to_string());
    assert!(s.anthropic_api_key.is_none());
    assert_eq!(s.theme, "dark");
}

#[test]
fn credential_failures_are_reported() {
    assert_eq!(CredentialError::NotFound.message(), "Credential not found");
    assert_eq!(CredentialError::StorageError("locked".to_string()).message(), "Storage error: locked");
    let fault = |no_entry: bool| StoreFault { no_entry, text: "what the store said".to_string() };
    assert!(matches!(read_failure(fault(true)), CredentialError::NotFound));
    assert!(matches!(read_failure(fault(false)), CredentialError::StorageError(m) if m == "what the store said"));
    assert!(matches!(storage_failure(fault(true)), CredentialError::StorageError(m) if m == "what the store said"));
    assert_eq!(SERVICE_NAME, "launchpad");
    assert!(matches!(storage_outcome(Ok(7u8)), Ok(7)));
    assert!(matches!(storage_outcome::<()>(Err(fault(true))), Err(CredentialError::StorageError(m)) if m == "what the store said"));
    assert!(matches!(storage_outcome::<()>(Err(fault(false))), Err(CredentialError::StorageError(_))));
    assert!(matches!(read_outcome(Ok("sk".to_string())), Ok(v) if v == "sk"));
    assert!(matches!(read_outcome(Err(fault(true))), Err(CredentialError::NotFound)));
    assert!(matches!(read_outcome(Err(fault(false))), Err(CredentialError::StorageError(m)) if m == "what the store said"));
    assert!(deletion_outcome(Ok(())).is_ok());
    assert!(deletion_outcome(Err(fault(true))).is_ok());
    assert!(matches!(deletion_outcome(Err(fault(false))), Err(CredentialError::StorageError(_))));
    assert_eq!(api_key_answer(Ok("sk".to_string())), Ok(Some("sk".to_string())));
    assert_eq!(api_key_answer(Err(CredentialError::NotFound)), Ok(None));
    assert_eq!(
        api_key_answer(Err(CredentialError::StorageError("x".to_string()))),
        Err("Storage error: x".to_string())
    );
}

#[test]
fn credential_store_round_trip_reports_no_false_errors() {
    let key = "launchpad-test-key";
    match store_credential(key, "secret") {
        Ok(()) => {}
        Err(e) => assert!(matches!(e, CredentialError::StorageError(_))),
    }
    match get_credential(key) {
        Ok(value) => {
            assert_eq!(value, "secret");
            assert!(has_credential(key));
        }
        Err(_) => {}
    }
    match delete_credential(key) {
        Ok(()) => {}
        Err(e) => assert!(matches!(e, CredentialError::StorageError(_))),
    }
}

fn analysis() -> ProjectAnalysis {
    ProjectAnalysis {
        project_path: "/p".to_string(),
        tech_stack: vec![],
        frameworks: vec![],
        has_git: false,
        has_tests: false,
        has_ci: false,
        has_env_example: false,
        file_count: 0,
        directory_structure: vec![],
        detected_services: vec![],
        package_json: None,
        cargo_toml: None,
        recommendations: vec![],
        sop_progress: SopProgress { estimated_phase: 0, phase_name: "Unknown".to_string(), evidence: vec![] },
    }
}

#[test]
fn phases_are_estimated_from_evidence() {
    let p = estimate_sop_phase(&analysis());
    assert_eq!((p.estimated_phase, p.phase_name.as_str()), (0, "Idea Intake"));
    assert!(p.evidence.is_empty());
    let mut a = analysis();
    a.tech_stack = strings(&["Rust"]);
    let p = estimate_sop_phase(&a);
    assert_eq!((p.estimated_phase, p.phase_name.as_str()), (5, "Project Setup"));
    assert_eq!(p.evidence, strings(&["Project scaffolded with tech stack"]));
    a.detected_services = strings(&["Clerk (Auth)", "Stripe (Payments)"]);
    a.file_count = 21;
    let p = estimate_sop_phase(&a);
    assert_eq!((p.estimated_phase, p.phase_name.as_str()), (7, "Development"));
    assert_eq!(
        p.evidence,
        strings(&[
            "Project scaffolded with tech stack",
            "Services configured: Clerk (Auth), Stripe (Payments)",
            "21 files in project"
        ])
    );
    a.file_count = 20;
    assert_eq!(estimate_sop_phase(&a).estimated_phase, 6);
    a.has_ci = true;
    assert_eq!(estimate_sop_phase(&a).estimated_phase, 6);
    a.has_env_example = true;
    let p = estimate_sop_phase(&a);
    assert_eq!((p.estimated_phase, p.phase_name.as_str()), (9, "Pre-Ship Checklist"));
    assert_eq!(p.evidence.last().unwrap(), "CI/CD and env documentation present");
    let mut only_tests = analysis();
    only_tests.has_tests = true;
    let p = estimate_sop_phase(&only_tests);
    assert_eq!((p.estimated_phase, p.phase_name.as_str()), (8, "Testing & QA"));
    assert_eq!(p.evidence, strings(&["Test files detected"]));
}

#[test]
fn recommendations_name_what_is_missing() {
    assert_eq!(generate_recommendations(&analysis()).len(), 6);
    let mut a = analysis();
    a.has_env_example = true;
    a.has_tests = true;
    a.has_ci = true;
    a.detected_services = strings(&["Clerk (Auth)", "Sentry (Error Tracking)"]);
    assert_eq!(generate_recommendations(&a), strings(&["Set up payment processing (Stripe) for monetization"]));
    a.detected_services = strings(&["Stripe (Payments)"]);
    assert_eq!(
        generate_recommendations(&a),
        strings(&[
            "Consider adding authentication (Clerk recommended)",
            "Add error tracking (Sentry) for production monitoring"
        ])
    );
    assert_eq!(generate_recommendations(&analysis())[0], "Add .env.example file to document required environment variables");
    assert!(any_mentions(&strings(&["a", "xAuthx"]), "Auth"));
    assert!(!any_mentions(&strings(&["auth"]), "Auth"));
    assert!(listed(&strings(&["a", "b"]), "b"));
    assert!(!listed(&strings(&["a", "b"]), "ab"));
}

#[test]
fn stacks_and_services_are_detected() {
    let (tech, frameworks) = detect_tech_stack(&strings(&["package.json", "pyproject.toml", "next.config.mjs", "prisma", "src-tauri"]));
    assert_eq!(tech, strings(&["Node.js", "Python"]));
    assert_eq!(frameworks, strings(&["Next.js", "Tauri", "Prisma"]));
    let (tech, frameworks) = detect_tech_stack(&strings(&["Cargo.toml", "go.mod", "requirements.txt", "tailwind.config.ts", "drizzle.config.ts"]));
    assert_eq!(tech, strings(&["Rust", "Python", "Go"]));
    assert_eq!(frameworks, strings(&["Tailwind CSS", "Drizzle ORM"]));
    assert_eq!(detect_tech_stack(&vec![]), (vec![], vec![]));
    let package = Some(r#"{"dependencies":{"@clerk/nextjs":"1","stripe":"2","@neondatabase/serverless":"3"}}"#.to_string());
    let env = vec![
        Some("CLERK_KEY=1\nSTRIPE_KEY=2\nDATABASE_URL=x\nOPENAI_KEY=3\n".to_string()),
        None,
        Some("ANTHROPIC_API_KEY=4\nOPENAI_KEY=5\n".to_string()),
    ];
    assert_eq!(
        detect_services(&package, &env),
        strings(&["Clerk (Auth)", "Stripe (Payments)", "Neon (PostgreSQL)", "OpenAI", "Anthropic (AI)", "OpenAI"])
    );
    assert_eq!(
        detect_services(&None, &vec![Some("DATABASE_URL=1 CLERK STRIPE".to_string())]),
        strings(&["Clerk (Auth)", "Stripe (Payments)", "PostgreSQL"])
    );
    assert_eq!(
        detect_services(&Some("@sentry @upstash @vercel neon".to_string()), &vec![]),
        strings(&["Sentry (Error Tracking)", "Upstash", "Neon (PostgreSQL)", "Vercel"])
    );
    assert!(detect_services(&None, &vec![None, None, None]).is_empty());
}

#[test]
fn cargo_manifests_are_read() {
    let text = "[package]\nname = \"launchpad\"\nversion = \"0.1.0\"\n\n[dependencies]\nserde = { version = \"1\" }\n# note\n  tauri   = \"2\"\n = \"x\"\nplain\n[dev-dependencies]\ntempfile = \"3\"\n";
    let info = parse_cargo_toml(text);
    assert_eq!(info.name.as_deref(), Some("launchpad"));
    assert_eq!(info.dependencies, strings(&["serde", "tauri"]));
    let none = parse_cargo_toml("[workspace]\nmembers = []\n");
    assert_eq!(none.name, None);
    assert!(none.dependencies.is_empty());
    assert_eq!(parse_cargo_toml("name\n").name, None);
    assert_eq!(parse_cargo_toml("name = a = b\n").name.as_deref(), Some("a"));
    assert_eq!(parse_cargo_toml("name=  \"\"quoted\"\"  ").name.as_deref(), Some("quoted"));
    assert_eq!(parse_cargo_toml("x\n[dependencies] # here\na=1\nb = 2").dependencies, strings(&["a", "b"]));
    let v = |s: &str| s.chars().collect::<Vec<char>>();
    assert_eq!(trim(&v(" \t a b \n")), v("a b"));
    assert_eq!(trim(&v("\u{a0}\u{2003}x\u{3000}")), v("x"));
    assert_eq!(trim(&v("   ")), v(""));
    assert_eq!(strip_char(&v("\"\"a\"b\""), '"'), v("a\"b"));
    assert_eq!(strip_marked(&v("abc"), &vec![true]), v("bc"));
    assert_eq!(strip_marked(&v("abc"), &vec![true, true, true, true]), v(""));
}

fn walk_file(path: &str) -> WalkEntry {
    WalkEntry {
        components: path.split('/').filter(|p| !p.is_empty()).map(String::from).collect(),
        is_dir: false,
        is_file: true,
        size: Some(1),
        content: None,
    }
}

fn walk_dir(path: &str) -> WalkEntry {
    WalkEntry { is_dir: true, is_file: false, ..walk_file(path) }
}

#[test]
fn projects_are_analyzed() {
    let walk = vec![
        walk_dir(""),
        walk_file("Cargo.toml"),
        walk_dir("src"),
        walk_file("src/main.rs"),
        walk_file("src/parser_test.rs"),
        walk_dir("target"),
        walk_file("target/out.bin"),
        walk_file("outline.md"),
        walk_file(".gitignore"),
        walk_dir("dist"),
        walk_file("dist/bundle.js"),
    ];
    let facts = ProjectFacts {
        root_name: "project".to_string(),
        present: strings(&["Cargo.toml", ".git", ".env.example", "vercel.json"]),
        package_json: None,
        package_info: Some(PackageJsonInfo { name: Some("web".to_string()), dependencies: vec![], dev_dependencies: vec![], scripts: strings(&["dev"]) }),
        cargo_toml: Some("name = \"demo\"\n[dependencies]\nserde = \"1\"\n".to_string()),
        env_files: vec![None, Some("STRIPE_SECRET=1".to_string()), None],
        shallow_walk: walk.clone_entries(),
        walk,
        top_level: vec![
            TopEntry { name: "src".to_string(), is_dir: true },
            TopEntry { name: ".git".to_string(), is_dir: true },
            TopEntry { name: ".gitignore".to_string(), is_dir: false },
            TopEntry { name: "node_modules".to_string(), is_dir: true },
            TopEntry { name: "node_modules".to_string(), is_dir: false },
            TopEntry { name: "Cargo.toml".to_string(), is_dir: false },
        ],
    };
    let a = analyze_project("/home/user/project".to_string(), facts);
    assert_eq!(a.project_path, "/home/user/project");
    assert_eq!(a.tech_stack, strings(&["Rust"]));
    assert!(a.frameworks.is_empty());
    assert!(a.has_git && a.has_env_example && a.has_ci && a.has_tests);
    assert_eq!(a.file_count, 4);
    assert_eq!(a.directory_structure, strings(&["src/", "node_modules", "Cargo.toml"]));
    assert_eq!(a.detected_services, strings(&["Stripe (Payments)"]));
    assert_eq!(a.package_json.unwrap().scripts, strings(&["dev"]));
    let cargo = a.cargo_toml.unwrap();
    assert_eq!(cargo.name.as_deref(), Some("demo"));
    assert_eq!(cargo.dependencies, strings(&["serde"]));
    assert_eq!(a.sop_progress.estimated_phase, 9);
    assert_eq!(a.sop_progress.phase_name, "Pre-Ship Checklist");
    assert_eq!(a.sop_progress.evidence.len(), 4);
    assert_eq!(
        a.recommendations,
        strings(&[
            "Consider adding authentication (Clerk recommended)",
            "Add error tracking (Sentry) for production monitoring"
        ])
    );
    assert!(test_name("a.test.ts") && test_name("b.spec.ts") && test_name("c.test.tsx") && test_name("d_test.rs"));
    assert!(!test_name("test.rs") && !test_name("a.test.js"));
    assert!(uncounted_name("out") && uncounted_name(".github") && !uncounted_name("dist"));
    assert_eq!(check_project_dir("/nowhere", false, false), Err("Path does not exist: /nowhere".to_string()));
    assert_eq!(check_project_dir("/file", true, false), Err("Path is not a directory: /file".to_string()));
    assert_eq!(check_project_dir("/dir", true, true), Ok(()));
    assert_eq!(launchpad::analyzer::markers().len(), 22);
    assert!(launchpad::analyzer::markers().contains(&".github/workflows".to_string()));
    assert_eq!(launchpad::analyzer::env_files(), strings(&[".env", ".env.example", ".env.local"]));
}

trait CloneEntries {
    fn clone_entries(&self) -> Vec<WalkEntry>;
}

impl CloneEntries for Vec<WalkEntry> {
    fn clone_entries(&self) -> Vec<WalkEntry> {
        self.iter()
            .map(|e| WalkEntry {
                components: e.components.clone(),
                is_dir: e.is_dir,
                is_file: e.is_file,
                size: e.size,
                content: e.content.clone(),
            })
            .collect()
    }
}
