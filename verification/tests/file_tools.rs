use launchpad::errors::ToolError;
use launchpad::listing::{list_files, select_entries, FileSearchResult};
use launchpad::paths::{validate_path, CanonicalPath, ValidatedPath};
use launchpad::reader::{check_readable, read_file, snapshot};
use launchpad::search::{grep_files, hits_in_file, hits_in_lines, search_entry, search_goes_on, GrepResult};
use launchpad::tree::{build_tree, get_directory_tree, TreeNode};
use launchpad::walk::{ignored_dir, ignored_prefix, pruned, WalkEntry};

fn base(text: &str) -> ValidatedPath {
    let components: Vec<String> =
        std::iter::once("/".to_string()).chain(text.split('/').filter(|p| !p.is_empty()).map(String::from)).collect();
    validate_path(text, Some(CanonicalPath { text: text.to_string(), components })).unwrap()
}

fn dir(path: &str) -> WalkEntry {
    WalkEntry {
        components: path.split('/').filter(|p| !p.is_empty()).map(String::from).collect(),
        is_dir: true,
        is_file: false,
        size: Some(4096),
        content: None,
    }
}

fn file(path: &str, content: &str) -> WalkEntry {
    WalkEntry {
        components: path.split('/').filter(|p| !p.is_empty()).map(String::from).collect(),
        is_dir: false,
        is_file: true,
        size: Some(content.len() as u64),
        content: Some(content.to_string()),
    }
}

fn paths(items: &[FileSearchResult]) -> Vec<String> {
    items.iter().map(|i| i.path.clone()).collect()
}

fn project_walk() -> Vec<WalkEntry> {
    vec![
        dir(""),
        dir("src"),
        file("src/a.ts", "const a = 1;\n"),
        file("src/b.ts", "const b = 2;\n"),
        dir("node_modules"),
        file("node_modules/x.js", "module.exports = 1;\n"),
    ]
}

#[test]
fn lists_typescript_files_of_a_project() {
    let found = list_files(&base("/home/user/project"), &project_walk(), Some("*.ts".to_string()), Some(2));
    assert_eq!(paths(&found), vec!["src/a.ts".to_string(), "src/b.ts".to_string()]);
    assert!(found.iter().all(|f| !f.is_directory));
    assert_eq!(found[0].size, Some(13));
}

#[test]
fn list_without_pattern_skips_base_and_ignored_directories() {
    let found = list_files(&base("/home/user/project"), &project_walk(), None, None);
    assert_eq!(paths(&found), vec!["src".to_string(), "src/a.ts".to_string(), "src/b.ts".to_string()]);
    assert!(found[0].is_directory);
    assert_eq!(found[0].size, None);
}

#[test]
fn list_respects_depth() {
    let walk = vec![dir(""), dir("a"), dir("a/b"), dir("a/b/c"), file("a/b/c/deep.txt", "x"), file("top.txt", "y")];
    let b = base("/p");
    assert_eq!(paths(&list_files(&b, &walk, None, Some(1))), vec!["a".to_string(), "top.txt".to_string()]);
    assert_eq!(paths(&list_files(&b, &walk, None, None)).len(), 4);
    assert_eq!(paths(&list_files(&b, &walk, None, Some(4))).len(), 5);
    assert!(list_files(&b, &walk, None, Some(0)).is_empty());
}

#[test]
fn list_is_capped_at_one_hundred() {
    let mut walk = vec![dir("")];
    for i in 0..250 {
        walk.push(file(&format!("f{}.txt", i), "x"));
    }
    let found = list_files(&base("/p"), &walk, None, None);
    assert_eq!(found.len(), 100);
    assert_eq!(found[0].path, "f0.txt");
    assert_eq!(found[99].path, "f99.txt");
}

#[test]
fn cap_applies_after_filtering() {
    let mut walk = vec![dir("")];
    for i in 0..150 {
        walk.push(file(&format!("skip{}.md", i), "x"));
    }
    for i in 0..120 {
        walk.push(file(&format!("keep{}.rs", i), "x"));
    }
    let found = list_files(&base("/p"), &walk, Some("*.rs".to_string()), None);
    assert_eq!(found.len(), 100);
    assert!(found.iter().all(|f| f.path.ends_with(".rs")));
}

#[test]
fn invalid_pattern_filters_nothing() {
    let found = list_files(&base("/home/user/project"), &project_walk(), Some("[".to_string()), None);
    assert_eq!(found.len(), 3);
}

#[test]
fn pattern_matches_path_or_bare_name() {
    let walk = vec![dir(""), dir("src"), file("src/main.rs", "x"), file("lib.rs", "y")];
    let b = base("/p");
    assert_eq!(paths(&list_files(&b, &walk, Some("src/*".to_string()), None)), vec!["src/main.rs".to_string()]);
    assert_eq!(paths(&list_files(&b, &walk, Some("main.rs".to_string()), None)), vec!["src/main.rs".to_string()]);
    assert_eq!(paths(&list_files(&b, &walk, Some("src".to_string()), None)), vec!["src".to_string()]);
}

#[test]
fn ignored_names_prune_directories_only() {
    let walk = vec![
        dir(""),
        dir(".git"),
        file(".git/config", "x"),
        file(".gitignore", "target\n"),
        dir("target"),
        file("target/debug.log", "x"),
        dir("dist-old"),
        file("dist-old/a.js", "x"),
        dir("output"),
        dir(".next"),
        file("outline.md", "x"),
    ];
    let found = list_files(&base("/p"), &walk, None, None);
    assert_eq!(paths(&found), vec![".gitignore".to_string(), "outline.md".to_string()]);
    assert!(ignored_prefix("node_modules_old"));
    assert!(!ignored_prefix("src"));
    assert!(ignored_dir("target", true));
    assert!(!ignored_dir("target", false));
    assert!(pruned("proj", &file("out/a.txt", "x")));
    assert!(!pruned("proj", &file("src/out.txt", "x")));
    assert!(pruned("target", &file("a.txt", "x")));
}

#[test]
fn ignored_base_lists_nothing() {
    let found = list_files(&base("/home/user/target"), &project_walk(), None, None);
    assert!(found.is_empty());
}

#[test]
fn select_entries_takes_verdicts_as_given() {
    let walk = project_walk();
    let passes = vec![true, false, true, false, true, true];
    let found = select_entries(&base("/p"), &walk, &passes, 3);
    assert_eq!(paths(&found), vec!["src/a.ts".to_string()]);
    let short = select_entries(&base("/p"), &walk, &vec![true, true], 3);
    assert_eq!(paths(&short), vec!["src".to_string()]);
}

fn numbered_lines(n: usize) -> String {
    (1..=n).map(|i| format!("line {}", i)).collect::<Vec<_>>().join("\n")
}

#[test]
fn reads_first_five_hundred_of_six_hundred_lines() {
    let text = numbered_lines(600);
    let r = read_file(&base("/p/big.txt"), true, text.len() as u64, Ok(text), Some(500)).unwrap();
    assert!(r.truncated);
    assert_eq!(r.line_count, 600);
    assert_eq!(r.content.lines().count(), 500);
    assert_eq!(r.content, numbered_lines(500));
    assert_eq!(r.path, "/p/big.txt");
}

#[test]
fn read_within_cap_returns_everything() {
    let text = "a\nb\nc\n".to_string();
    let r = read_file(&base("/p/f"), true, 6, Ok(text.clone()), Some(3)).unwrap();
    assert!(!r.truncated);
    assert_eq!(r.line_count, 3);
    assert_eq!(r.content, text);
    let cut = read_file(&base("/p/f"), true, 6, Ok(text), Some(2)).unwrap();
    assert!(cut.truncated);
    assert_eq!(cut.line_count, 3);
    assert_eq!(cut.content, "a\nb");
}

#[test]
fn read_defaults_to_five_hundred_lines() {
    let text = numbered_lines(501);
    let r = read_file(&base("/p/f"), true, 10, Ok(text), None).unwrap();
    assert!(r.truncated);
    assert_eq!(r.content.lines().count(), 500);
    let exact = read_file(&base("/p/f"), true, 10, Ok(numbered_lines(500)), None).unwrap();
    assert!(!exact.truncated);
}

#[test]
fn read_counts_lines_as_the_standard_library_does() {
    for text in ["", "\n", "a", "a\n", "a\r\nb\r\n", "a\n\nb", "a\r", "\r\n\r\n", "x\ny\r"] {
        let s = snapshot("p".to_string(), text.to_string(), 1000);
        assert_eq!(s.line_count, text.lines().count(), "{:?}", text);
        assert_eq!(s.content, text);
    }
    let s = snapshot("p".to_string(), "a\r\nb\r\nc".to_string(), 2);
    assert_eq!(s.content, "a\nb");
    assert_eq!(s.line_count, 3);
    let zero = snapshot("p".to_string(), "a\nb".to_string(), 0);
    assert!(zero.truncated);
    assert_eq!(zero.content, "");
}

#[test]
fn read_refuses_directories_large_files_and_unreadable_files() {
    let p = base("/p/f");
    assert_eq!(read_file(&p, false, 10, Ok("x".to_string()), None).err(), Some(ToolError::NotAFile));
    assert_eq!(read_file(&p, true, 1_000_001, Ok("x".to_string()), None).err(), Some(ToolError::TooLarge));
    assert!(read_file(&p, true, 1_000_000, Ok("x".to_string()), None).is_ok());
    assert_eq!(
        read_file(&p, true, 10, Err("invalid utf-8".to_string()), None).err(),
        Some(ToolError::ReadError("invalid utf-8".to_string()))
    );
    assert_eq!(read_file(&p, false, 2_000_000, Err("e".to_string()), None).err(), Some(ToolError::NotAFile));
    assert_eq!(check_readable(true, 5).ok(), Some(()));
    assert_eq!(check_readable(false, 5).err(), Some(ToolError::NotAFile));
}

fn hit(file: &str, line_number: usize, line_content: &str) -> GrepResult {
    GrepResult { file: file.to_string(), line_number, line_content: line_content.to_string() }
}

#[test]
fn grep_is_case_insensitive_and_numbers_lines_from_one() {
    let walk = vec![dir(""), dir("src"), file("src/a.ts", "import X\nlet y = 1;\nIMPORT z\n"), file("b.md", "nothing\n")];
    let found = grep_files(&base("/p"), &walk, "Import".to_string(), None, None);
    assert_eq!(found, vec![hit("src/a.ts", 1, "import X"), hit("src/a.ts", 3, "IMPORT z")]);
}

#[test]
fn grep_stops_at_max_results_across_files() {
    let walk = vec![dir(""), file("a.txt", "x\nx\nx\n"), file("b.txt", "x\nx\n")];
    let b = base("/p");
    let four = grep_files(&b, &walk, "x".to_string(), None, Some(4));
    assert_eq!(four, vec![hit("a.txt", 1, "x"), hit("a.txt", 2, "x"), hit("a.txt", 3, "x"), hit("b.txt", 1, "x")]);
    assert_eq!(grep_files(&b, &walk, "x".to_string(), None, None).len(), 5);
    assert!(grep_files(&b, &walk, "x".to_string(), None, Some(0)).is_empty());
    let mut many = vec![dir("")];
    many.push(file("big.txt", &"match\n".repeat(80)));
    assert_eq!(grep_files(&b, &many, "match".to_string(), None, None).len(), 50);
}

#[test]
fn grep_cuts_lines_to_two_hundred_characters() {
    let long = format!("{}needle{}", "é".repeat(150), "z".repeat(300));
    let walk = vec![dir(""), file("a.txt", &long)];
    let found = grep_files(&base("/p"), &walk, "NEEDLE".to_string(), None, None);
    assert_eq!(found.len(), 1);
    assert_eq!(found[0].line_content.chars().count(), 200);
    assert_eq!(found[0].line_content, long.chars().take(200).collect::<String>());
}

#[test]
fn grep_skips_what_it_must() {
    let mut large = file("large.txt", "needle");
    large.size = Some(500_001);
    let mut at_limit = file("limit.txt", "needle");
    at_limit.size = Some(500_000);
    let mut unreadable = file("binary.bin", "");
    unreadable.content = None;
    let mut unknown_size = file("nosize.txt", "needle");
    unknown_size.size = None;
    let walk = vec![
        dir(""),
        large,
        at_limit,
        unreadable,
        unknown_size,
        dir("node_modules"),
        file("node_modules/lib.js", "needle"),
        dir("needle-dir"),
        file("a/b/c/d/e/f/g/h/i/j.txt", "needle"),
        file("a/b/c/d/e/f/g/h/i/j/k.txt", "needle"),
    ];
    let found = grep_files(&base("/p"), &walk, "needle".to_string(), None, None);
    let files: Vec<&str> = found.iter().map(|h| h.file.as_str()).collect();
    assert_eq!(files, vec!["limit.txt", "nosize.txt", "a/b/c/d/e/f/g/h/i/j.txt"]);
}

#[test]
fn grep_filters_files_by_name() {
    let walk = vec![dir(""), dir("src"), file("src/a.ts", "pending"), file("src/b.rs", "pending"), file("c.ts", "pending")];
    let b = base("/p");
    let found = grep_files(&b, &walk, "PENDING".to_string(), Some("*.ts".to_string()), None);
    assert_eq!(found, vec![hit("src/a.ts", 1, "pending"), hit("c.ts", 1, "pending")]);
    let by_path = grep_files(&b, &walk, "pending".to_string(), Some("src/*".to_string()), None);
    assert!(by_path.is_empty());
    let invalid = grep_files(&b, &walk, "pending".to_string(), Some("[".to_string()), None);
    assert_eq!(invalid.len(), 3);
}

#[test]
fn grep_of_a_single_file_base() {
    let walk = vec![file("", "alpha\nbeta\n")];
    let found = grep_files(&base("/p/notes.txt"), &walk, "BETA".to_string(), Some("*.txt".to_string()), None);
    assert_eq!(found, vec![hit("", 2, "beta")]);
    let other = grep_files(&base("/p/notes.txt"), &walk, "beta".to_string(), Some("*.md".to_string()), None);
    assert!(other.is_empty());
}

#[test]
fn search_by_steps_gives_what_the_whole_search_gives() {
    let walk = vec![dir(""), file("a.txt", "x\nx\nx\n"), dir("src"), file("src/b.txt", "x\nX\n"), file("c.md", "x")];
    let b = base("/p");
    for max in [None, Some(0), Some(1), Some(3), Some(4), Some(5), Some(9)] {
        let mut found = Vec::new();
        let mut read = 0;
        for entry in &walk {
            if !search_goes_on(&found, max) {
                break;
            }
            read += 1;
            found = search_entry(&b, found, entry, "X", &Some("*.txt".to_string()), max);
        }
        assert_eq!(found, grep_files(&b, &walk, "X".to_string(), Some("*.txt".to_string()), max), "{:?}", max);
        if max == Some(3) {
            assert_eq!(read, 2);
        }
        if max == Some(0) {
            assert_eq!(read, 0);
        }
    }
    let over = search_entry(&b, vec![hit("q", 1, "x"), hit("q", 2, "x")], &file("a.txt", "x"), "x", &None, Some(1));
    assert_eq!(over, vec![hit("q", 1, "x")]);
}

#[test]
fn entry_that_is_directory_and_file_at_once_has_no_size() {
    let mut odd = dir("both");
    odd.is_file = true;
    odd.content = Some("needle".to_string());
    let walk = vec![dir(""), odd];
    let found = list_files(&base("/p"), &walk, None, None);
    assert_eq!(found.len(), 1);
    assert!(found[0].is_directory);
    assert_eq!(found[0].size, None);
    assert!(grep_files(&base("/p"), &walk, "needle".to_string(), None, None).is_empty());
}

#[test]
fn hits_follow_the_lowered_lines_given() {
    let lines: Vec<Vec<char>> = vec!["One".chars().collect(), "Two".chars().collect(), "Three".chars().collect()];
    let lowered: Vec<Vec<char>> = vec!["one".chars().collect(), "xxx".chars().collect(), "three".chars().collect()];
    let needle: Vec<char> = "e".chars().collect();
    let found = hits_in_lines("f", &lines, &lowered, &needle, 10);
    assert_eq!(found, vec![hit("f", 1, "One"), hit("f", 3, "Three")]);
    assert_eq!(hits_in_lines("f", &lines, &lowered, &needle, 1), vec![hit("f", 1, "One")]);
    let unicode = hits_in_file("f", "STRASSE\nÄpfel\n", &"äp".chars().collect(), 5);
    assert_eq!(unicode, vec![hit("f", 2, "Äpfel")]);
}

fn leaf(name: &str) -> TreeNode {
    TreeNode { name: name.to_string(), is_dir: false, children: vec![] }
}

fn branch(name: &str, children: Vec<TreeNode>) -> TreeNode {
    TreeNode { name: name.to_string(), is_dir: true, children }
}

#[test]
fn tree_draws_directories_first_then_by_name() {
    let children = vec![
        leaf("zeta.txt"),
        branch("src", vec![leaf("main.rs"), branch("bin", vec![leaf("cli.rs")]), leaf("Lib.rs")]),
        leaf("Cargo.toml"),
        branch("node_modules", vec![leaf("x.js")]),
        branch("docs", vec![]),
    ];
    let tree = get_directory_tree(&base("/home/user/project"), true, children, None);
    let expected = "\
└── project/
    ├── docs/
    ├── src/
    │   ├── bin/
    │   │   └── cli.rs
    │   ├── Lib.rs
    │   └── main.rs
    ├── Cargo.toml
    └── zeta.txt
";
    assert_eq!(tree, expected);
}

#[test]
fn tree_stops_at_max_depth() {
    let make = || vec![branch("a", vec![branch("b", vec![leaf("c.txt")])]), leaf("top.txt")];
    let b = base("/p/root");
    assert_eq!(get_directory_tree(&b, true, make(), Some(0)), "└── root/\n");
    assert_eq!(get_directory_tree(&b, true, make(), Some(1)), "└── root/\n    ├── a/\n    └── top.txt\n");
    assert_eq!(
        get_directory_tree(&b, true, make(), Some(2)),
        "└── root/\n    ├── a/\n    │   └── b/\n    └── top.txt\n"
    );
    assert_eq!(
        get_directory_tree(&b, true, make(), Some(3)),
        "└── root/\n    ├── a/\n    │   └── b/\n    │       └── c.txt\n    └── top.txt\n"
    );
}

#[test]
fn tree_is_the_same_for_any_order_of_reading() {
    let one = vec![leaf("b"), branch("d", vec![leaf("y"), leaf("x")]), leaf("a"), branch("c", vec![])];
    let two = vec![branch("c", vec![]), leaf("a"), leaf("b"), branch("d", vec![leaf("x"), leaf("y")])];
    let b = base("/p/root");
    let first = get_directory_tree(&b, true, one, None);
    assert_eq!(first, get_directory_tree(&b, true, two, None));
    assert_eq!(first, "└── root/\n    ├── c/\n    ├── d/\n    │   ├── x\n    │   └── y\n    ├── a\n    └── b\n");
}

#[test]
fn tree_of_ignored_or_plain_file_base() {
    assert_eq!(get_directory_tree(&base("/p/target"), true, vec![leaf("x")], None), "");
    assert_eq!(get_directory_tree(&base("/p/notes.txt"), false, vec![], None), "└── notes.txt\n");
    assert_eq!(get_directory_tree(&base("/p/target.txt"), false, vec![], None), "└── target.txt\n");
}

#[test]
fn build_tree_appends_with_prefix_and_connector() {
    let mut out = String::from(">");
    let node = branch("dir", vec![leaf("f")]);
    build_tree(&node, "| ", 1, &mut out, false);
    assert_eq!(out, ">| ├── dir/\n| │   └── f\n");
}
