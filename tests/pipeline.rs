use gitignore_downloader::cache::{ttl_seconds, usable_cached_types, CachedTypes};
use gitignore_downloader::listing::{entry_name, listing_result, template_names};
use gitignore_downloader::names::{
    built_in_flag, capitalize_with, normalize_all, normalize_type, select_choice, template_from_response,
    template_source, template_url, TemplateSource,
};
use gitignore_downloader::templates::{FetchError, Template};
use gitignore_downloader::writer::{plan_append, render_templates};
use std::time::{Duration, SystemTime, UNIX_EPOCH};

fn two_templates() -> Vec<Template> {
    vec![
        Template {
            name: "Rust".to_string(),
            content: "target/\n".to_string(),
        },
        Template {
            name: "Node".to_string(),
            content: "node_modules/\n".to_string(),
        },
    ]
}

#[test]
fn normalizes_simple_type() {
    assert_eq!(normalize_type("rust".into()), "Rust");
    assert_eq!(normalize_type("Rust".into()), "Rust");
}

#[test]
fn preserves_flags() {
    assert_eq!(normalize_type("--macos".into()), "--macos");
    assert!(built_in_flag("--macos").is_some());
    assert!(built_in_flag("--locks").is_some());
    assert!(built_in_flag("--nope").is_none());
}

#[test]
fn cache_staleness_checks() {
    let cached = CachedTypes {
        fetched_at: SystemTime::now()
            .duration_since(UNIX_EPOCH)
            .unwrap()
            .as_secs(),
        types: vec![],
    };
    assert!(cached.is_fresh(Duration::from_secs(10)));

    let stale = CachedTypes {
        fetched_at: 0,
        types: vec![],
    };
    assert!(!stale.is_fresh(Duration::from_secs(1)));
}

#[test]
fn write_templates_overwrites_file() {
    let templates = two_templates();
    let written = render_templates(&templates);
    let expected = "\
# --- Rust ---\n\
target/\n\n\
# --- Node ---\n\
node_modules/\n\n";
    assert_eq!(written, expected);
}

#[test]
fn write_templates_appends_and_skips_duplicates() {
    let existing = "Existing\ntarget/\n".to_string();
    let templates = two_templates();
    let plan = plan_append(&existing, true, &templates);
    let written = format!("{}{}", existing, plan.text);
    let expected = "Existing\ntarget/\n\n# --- Node ---\nnode_modules/\n\n";
    assert_eq!(written, expected);
    assert_eq!(plan.skipped, vec![true, false]);
}

#[test]
fn normalizes_non_ascii_and_empty() {
    assert_eq!(normalize_type("élan".into()), "Élan");
    assert_eq!(normalize_type("".into()), "");
    assert_eq!(normalize_type("-x".into()), "-x");
    assert_eq!(normalize_type("go".into()), "Go");
    assert_eq!(
        normalize_all(vec!["node".to_string(), "--locks".to_string()]),
        vec!["Node".to_string(), "--locks".to_string()]
    );
}

#[test]
fn capitalize_with_given_upper_case() {
    assert_eq!(capitalize_with("straße".into(), "S"), "Straße");
    assert_eq!(capitalize_with("ßx".into(), "SS"), "SSx");
    assert_eq!(capitalize_with("--locks".into(), "X"), "--locks");
    assert_eq!(capitalize_with("".into(), "X"), "");
    assert_eq!(normalize_type("ßx".into()), "SSx");
}

#[test]
fn built_in_flag_contents() {
    assert_eq!(
        built_in_flag("--macos").unwrap(),
        "# Desktop Service Store Mac\n.DS_Store\n"
    );
    assert_eq!(
        built_in_flag("--locks").unwrap(),
        "# Lock Files\npackage-lock.json\nyarn.lock\n"
    );
    assert!(built_in_flag("--MACOS").is_none());
    assert!(built_in_flag("").is_none());
}

#[test]
fn freshness_at_given_times() {
    let c = CachedTypes {
        fetched_at: 100,
        types: vec!["Rust".to_string()],
    };
    assert!(c.is_fresh_at(100, 0, 0, 0));
    assert!(c.is_fresh_at(110, 0, 10, 0));
    assert!(!c.is_fresh_at(110, 500_000_000, 10, 0));
    assert!(c.is_fresh_at(110, 500_000_000, 10, 500_000_000));
    assert!(!c.is_fresh_at(111, 0, 10, 0));
    assert_eq!(ttl_seconds(1440), 86400);
    assert_eq!(ttl_seconds(u64::MAX), u64::MAX);
}

#[test]
fn entry_stamped_in_the_future_is_fresh() {
    let c = CachedTypes {
        fetched_at: 100,
        types: vec![],
    };
    assert!(c.is_fresh_at(99, 0, 10, 0));
    assert!(c.is_fresh_at(0, 0, 0, 0));
    let ahead = CachedTypes {
        fetched_at: SystemTime::now()
            .duration_since(UNIX_EPOCH)
            .unwrap()
            .as_secs()
            + 3600,
        types: vec![],
    };
    assert!(ahead.is_fresh(Duration::from_secs(1)));
}

#[test]
fn cached_types_used_only_when_fresh_and_allowed() {
    let make = || CachedTypes {
        fetched_at: 1000,
        types: vec!["C".to_string(), "Go".to_string()],
    };
    assert_eq!(
        usable_cached_types(false, Some(make()), 1005, 0, 10),
        Some(vec!["C".to_string(), "Go".to_string()])
    );
    assert_eq!(usable_cached_types(true, Some(make()), 1005, 0, 10), None);
    assert_eq!(usable_cached_types(false, Some(make()), 1010, 1, 10), None);
    assert_eq!(usable_cached_types(false, None, 1005, 0, 10), None);
}

#[test]
fn directory_listing_filtered_sorted_deduplicated() {
    let entries: Vec<String> = vec![
        "Rust.gitignore",
        "README.md",
        "Go.gitignore",
        ".gitignore",
        "Rust.gitignore",
        "Global",
        "C.gitignore.gitignore",
        "Ada.gitignore",
    ]
    .into_iter()
    .map(String::from)
    .collect();
    let names = template_names(&entries);
    assert_eq!(names, vec!["Ada", "C.gitignore", "Go", "Rust"]);
    assert_eq!(template_names(&vec![]), Vec::<String>::new());
}

#[test]
fn entry_names_strip_suffix() {
    assert_eq!(entry_name(&"Node.gitignore".to_string()), Some("Node".to_string()));
    assert_eq!(entry_name(&"Node.gitignorex".to_string()), None);
    assert_eq!(
        entry_name(&".gitignore.gitignore".to_string()),
        Some(".gitignore".to_string())
    );
    assert_eq!(entry_name(&".gitignore".to_string()), None);
}

#[test]
fn listing_status_errors() {
    let entries = vec!["Zig.gitignore".to_string(), "Ada.gitignore".to_string()];
    match listing_result(200, &entries) {
        Ok(names) => assert_eq!(names, vec!["Ada", "Zig"]),
        Err(_) => panic!("expected names"),
    }
    match listing_result(404, &entries) {
        Err(FetchError::ListingStatus { status }) => assert_eq!(status, 404),
        _ => panic!("expected a status error"),
    }
}

#[test]
fn template_sources_and_urls() {
    assert_eq!(
        template_url(&"Rust".to_string()),
        "https://raw.githubusercontent.com/github/gitignore/master/Rust.gitignore"
    );
    match template_source(&"--macos".to_string()) {
        TemplateSource::BuiltIn(t) => {
            assert_eq!(t.name, "--macos");
            assert_eq!(t.content, "# Desktop Service Store Mac\n.DS_Store\n");
        }
        TemplateSource::Remote(_) => panic!("expected a built-in"),
    }
    match template_source(&"Node".to_string()) {
        TemplateSource::Remote(url) => assert_eq!(
            url,
            "https://raw.githubusercontent.com/github/gitignore/master/Node.gitignore"
        ),
        TemplateSource::BuiltIn(_) => panic!("expected a request"),
    }
}

#[test]
fn template_responses() {
    let ok = template_from_response(&"Rust".to_string(), 200, "target/\n".to_string());
    match ok {
        Ok(t) => {
            assert_eq!(t.name, "Rust");
            assert_eq!(t.content, "target/\n");
        }
        Err(_) => panic!("expected a template"),
    }
    match template_from_response(&"Nope".to_string(), 404, String::new()) {
        Err(FetchError::TemplateStatus { name, status }) => {
            assert_eq!(name, "Nope");
            assert_eq!(status, 404);
        }
        _ => panic!("expected a status error"),
    }
}

#[test]
fn selection_in_and_out_of_range() {
    let types = vec!["Ada".to_string(), "Go".to_string()];
    assert_eq!(select_choice(&types, 1).ok(), Some("Go".to_string()));
    match select_choice(&types, 2) {
        Err(FetchError::SelectionOutOfRange { index, len }) => {
            assert_eq!(index, 2);
            assert_eq!(len, 2);
        }
        _ => panic!("expected an out-of-range error"),
    }
}

#[test]
fn render_adds_missing_newline() {
    let templates = vec![Template::new("A".to_string(), "x".to_string())];
    assert_eq!(render_templates(&templates), "# --- A ---\nx\n\n");
    assert_eq!(render_templates(&vec![]), "");
}

#[test]
fn append_to_empty_file_separates_only_later_sections() {
    let plan = plan_append(&String::new(), false, &two_templates());
    assert_eq!(
        plan.text,
        "# --- Rust ---\ntarget/\n\n\n# --- Node ---\nnode_modules/\n\n"
    );
    assert_eq!(plan.skipped, vec![false, false]);
}

#[test]
fn append_twice_adds_once() {
    let templates = two_templates();
    let first = plan_append(&"Existing\n".to_string(), true, &templates);
    let once = format!("Existing\n{}", first.text);
    let second = plan_append(&once, !once.is_empty(), &templates);
    assert_eq!(second.text, "");
    assert_eq!(second.skipped, vec![true, true]);
}

#[test]
fn append_does_not_see_its_own_output() {
    let templates = vec![
        Template::new("A".to_string(), "same\n".to_string()),
        Template::new("B".to_string(), "same\n".to_string()),
    ];
    let plan = plan_append(&"other\n".to_string(), true, &templates);
    assert_eq!(
        plan.text,
        "\n# --- A ---\nsame\n\n\n# --- B ---\nsame\n\n"
    );
}
