use peek::tree::{classify, join_path, plan_level, shows_entry, Category, DirEntry, Glob, TreeOptions};
use peek::walk::{Action, Walk};

fn entry(name: &str, is_dir: bool) -> DirEntry {
    DirEntry { name: name.to_string(), is_dir }
}

fn opts(show_all: bool, max_depth: Option<usize>, pattern: Option<&str>) -> TreeOptions {
    TreeOptions { show_all, max_depth, pattern: pattern.map(|p| Glob::new(p).unwrap()) }
}

/// A directory tree held in memory: each path maps to its listing.
fn listing(path: &str) -> Vec<DirEntry> {
    match path {
        "." => vec![entry("d.txt", false), entry("a", true)],
        "./a" => vec![entry("c.log", false), entry("b.txt", false)],
        _ => Vec::new(),
    }
}

fn render(o: &TreeOptions, list: &dyn Fn(&str) -> Vec<DirEntry>) -> Vec<String> {
    render_with_depths(o, list).into_iter().map(|(l, _)| l).collect()
}

fn render_with_depths(o: &TreeOptions, list: &dyn Fn(&str) -> Vec<DirEntry>) -> Vec<(String, usize)> {
    let mut out = Vec::new();
    let mut walk = Walk::new(".");
    loop {
        match walk.next() {
            Action::List { path } => walk.listed(o, Some(list(&path))),
            Action::Print { lead, name, depth, .. } => out.push((format!("{}{}", lead, name), depth)),
            Action::Done => break,
        }
    }
    out
}

#[test]
fn pattern_keeps_matching_descendants() {
    let o = opts(false, None, Some("*.txt"));
    let lines = render(&o, &listing);
    assert_eq!(lines, vec!["│   └── b.txt".to_string(), "└── d.txt".to_string()]);
    assert!(lines.iter().all(|l| !l.contains("c.log")));
}

#[test]
fn full_tree_without_pattern() {
    let o = opts(false, None, None);
    let lines = render(&o, &listing);
    assert_eq!(
        lines,
        vec![
            "├── a".to_string(),
            "│   ├── b.txt".to_string(),
            "│   └── c.log".to_string(),
            "└── d.txt".to_string(),
        ]
    );
}

#[test]
fn depth_zero_lists_only_top_level() {
    let o = opts(false, Some(0), None);
    let lines = render(&o, &listing);
    assert_eq!(lines, vec!["├── a".to_string(), "└── d.txt".to_string()]);
}

#[test]
fn depth_one_reaches_grandchildren() {
    let o = opts(false, Some(1), None);
    assert_eq!(render(&o, &listing).len(), 4);
}

fn deep(path: &str) -> Vec<DirEntry> {
    match path {
        "." => vec![entry("x", true), entry("y", false)],
        "./x" => vec![entry("z", true)],
        "./x/z" => vec![entry("w", false)],
        _ => Vec::new(),
    }
}

#[test]
fn prefix_grows_one_unit_per_level() {
    let o = opts(false, None, None);
    let lines = render(&o, &deep);
    assert_eq!(
        lines,
        vec![
            "├── x".to_string(),
            "│   └── z".to_string(),
            "│       └── w".to_string(),
            "└── y".to_string(),
        ]
    );
    let depths: Vec<usize> = render_with_depths(&o, &deep).into_iter().map(|(_, d)| d).collect();
    assert_eq!(depths, vec![0, 1, 2, 0]);
    for (l, d) in lines.iter().zip(depths) {
        assert_eq!(l.chars().count(), 4 * (d + 1) + 1);
    }
}

#[test]
fn hidden_entries_are_skipped_and_do_not_take_the_last_slot() {
    let o = opts(false, None, None);
    let steps = plan_level(&o, ".", &Vec::new(), vec![entry(".git", true), entry("b", false), entry("a", false)]);
    assert_eq!(steps.len(), 3);
    assert_eq!(steps[0].name, ".git");
    assert!(steps[0].lead.is_none());
    assert!(!steps[0].descend);
    assert_eq!(steps[1].lead.as_deref(), Some("├── "));
    assert_eq!(steps[2].lead.as_deref(), Some("└── "));
}

#[test]
fn show_all_includes_dotfiles() {
    let o = opts(true, None, None);
    let steps = plan_level(&o, ".", &Vec::new(), vec![entry(".git", true), entry("a", false)]);
    assert_eq!(steps[0].lead.as_deref(), Some("├── "));
    assert!(steps[0].descend);
    assert_eq!(steps[0].path, "./.git");
    assert_eq!(steps[0].rails, vec![true]);
    assert_eq!(steps[1].lead.as_deref(), Some("└── "));
}

#[test]
fn last_visible_line_gets_last_glyph_before_excluded_sibling() {
    let o = opts(false, None, Some("*.txt"));
    let steps = plan_level(&o, ".", &vec![false], vec![entry("a.txt", false), entry("z", true), entry("q.log", false)]);
    assert_eq!(steps[0].name, "a.txt");
    assert_eq!(steps[0].lead.as_deref(), Some("    └── "));
    assert!(steps[1].lead.is_none());
    assert!(steps[2].lead.is_none());
    assert_eq!(steps[2].name, "z");
    assert!(steps[2].descend);
    assert_eq!(steps[2].rails, vec![false, false]);
}

#[test]
fn sorting_is_case_sensitive() {
    let o = opts(false, None, None);
    let steps = plan_level(&o, ".", &Vec::new(), vec![entry("b", false), entry("B", false), entry("a", false)]);
    let names: Vec<&str> = steps.iter().map(|s| s.name.as_str()).collect();
    assert_eq!(names, vec!["B", "a", "b"]);
}

#[test]
fn empty_directory_has_no_steps() {
    let o = opts(false, None, None);
    assert!(plan_level(&o, ".", &Vec::new(), Vec::new()).is_empty());
}

#[test]
fn invalid_pattern_does_not_compile() {
    assert!(Glob::new("[").is_none());
    assert!(Glob::new("***").is_none());
    assert!(Glob::new("*.rs").is_some());
}

#[test]
fn filter_predicate() {
    let g = Glob::new("*.rs");
    assert!(shows_entry("main.rs", "./main.rs", false, &g));
    assert!(!shows_entry("main.c", "./main.c", false, &g));
    assert!(!shows_entry(".x.rs", "./.x.rs", false, &g));
    assert!(shows_entry(".x.rs", "./.x.rs", true, &g));
    assert!(shows_entry("any", "./any", false, &None));
}

#[test]
fn paths_join_with_one_separator() {
    assert_eq!(join_path(".", "a"), "./a");
    assert_eq!(join_path("/", "a"), "/a");
    assert_eq!(join_path("", "a"), "a");
}

#[test]
fn categories() {
    assert_eq!(classify(true, "src.rs"), Category::Directory);
    assert_eq!(classify(false, "lib.rs"), Category::Source);
    assert_eq!(classify(false, ".rs"), Category::Plain);
    assert_eq!(classify(false, "notes.txt"), Category::Plain);
}

#[test]
fn unreadable_directory_is_left_out() {
    let o = opts(false, None, None);
    let mut walk = Walk::new(".");
    let mut lines = Vec::new();
    loop {
        match walk.next() {
            Action::List { path } => {
                let listing = if path == "./x" { None } else { Some(deep(&path)) };
                walk.listed(&o, listing);
            }
            Action::Print { lead, name, .. } => lines.push(format!("{}{}", lead, name)),
            Action::Done => break,
        }
    }
    assert_eq!(lines, vec!["├── x".to_string(), "└── y".to_string()]);
}

#[test]
fn unreadable_root_prints_nothing() {
    let o = opts(false, None, None);
    let mut walk = Walk::new(".");
    assert!(matches!(walk.next(), Action::List { .. }));
    walk.listed(&o, None);
    assert!(matches!(walk.next(), Action::Done));
}
