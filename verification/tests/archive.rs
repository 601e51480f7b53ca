use std::io::{Cursor, Write};

use devc::cache::listed_template_names;
use devc::fetcher::{extraction_plan, last_path_segment, plan_extraction, ArchiveEntry, EntryAction};
use devc::password::{charset, password_from_draws};
use devc::versions::{get_version_options, version_prompt, VersionPrompt};
use devc::merger::ConfigMerger;
use devc::tui::get_step_context;

fn s(x: &str) -> String {
    x.to_string()
}

fn archive() -> Vec<u8> {
    let mut w = zip::ZipWriter::new(Cursor::new(Vec::new()));
    let opts = zip::write::FileOptions::default().compression_method(zip::CompressionMethod::Stored);
    w.add_directory("devcontainers-master/templates/nodejs/", opts).unwrap();
    w.start_file("devcontainers-master/templates/nodejs/Dockerfile", opts).unwrap();
    w.write_all(b"FROM node\n").unwrap();
    w.start_file("devcontainers-master/README.md", opts).unwrap();
    w.write_all(b"readme").unwrap();
    w.finish().unwrap().into_inner()
}

#[test]
fn extraction_plan_reads_the_archive() {
    let plan = extraction_plan(&archive()).unwrap();
    assert!(plan.complete);
    let plan = plan.items;
    assert_eq!(plan.len(), 3);
    match &plan[0].0 {
        EntryAction::CreateDir(d) => assert_eq!(d, "nodejs/"),
        _ => panic!("expected a folder"),
    }
    match &plan[1].0 {
        EntryAction::WriteFile(f) => assert_eq!(f, "nodejs/Dockerfile"),
        _ => panic!("expected a file"),
    }
    assert_eq!(plan[1].1, b"FROM node\n".to_vec());
    assert!(matches!(plan[2].0, EntryAction::Skip));
    assert_eq!(plan[2].1, b"readme".to_vec());
}

#[test]
fn extraction_plan_refuses_what_is_not_an_archive() {
    assert!(extraction_plan(b"not a zip").is_none());
    assert!(extraction_plan(&[]).is_none());
}

#[test]
fn plan_extraction_keeps_order_and_data() {
    let entries = vec![
        ArchiveEntry {
            enclosed: Some(s("devcontainers-master/templates/go/.devcontainer/devcontainer.json")),
            name: s("devcontainers-master/templates/go/.devcontainer/devcontainer.json"),
            data: Some(vec![1, 2, 3]),
        },
        ArchiveEntry { enclosed: None, name: s("../evil"), data: Some(vec![9]) },
        ArchiveEntry { enclosed: Some(s("devcontainers-master/x.bin")), name: s("devcontainers-master/x.bin"), data: None },
    ];
    let plan = plan_extraction(entries, true);
    assert!(plan.complete);
    assert_eq!(plan.items.len(), 3);
    assert!(matches!(&plan.items[0].0, EntryAction::WriteFile(f) if f == "go/.devcontainer/devcontainer.json"));
    assert_eq!(plan.items[0].1, vec![1, 2, 3]);
    assert!(matches!(plan.items[1].0, EntryAction::Skip));
    assert!(matches!(plan.items[2].0, EntryAction::Skip));
    assert!(plan.items[2].1.is_empty());
}

#[test]
fn unreadable_template_file_stops_extraction() {
    let entries = vec![
        ArchiveEntry {
            enclosed: Some(s("devcontainers-master/templates/go/")),
            name: s("devcontainers-master/templates/go/"),
            data: Some(vec![]),
        },
        ArchiveEntry {
            enclosed: Some(s("devcontainers-master/templates/go/Dockerfile")),
            name: s("devcontainers-master/templates/go/Dockerfile"),
            data: None,
        },
        ArchiveEntry {
            enclosed: Some(s("devcontainers-master/templates/go/README.md")),
            name: s("devcontainers-master/templates/go/README.md"),
            data: Some(vec![1]),
        },
    ];
    let plan = plan_extraction(entries, true);
    assert!(!plan.complete);
    assert_eq!(plan.items.len(), 1);
    assert!(matches!(&plan.items[0].0, EntryAction::CreateDir(d) if d == "go/"));
    let plan = plan_extraction(vec![], false);
    assert!(!plan.complete);
    assert!(plan.items.is_empty());
}

#[test]
fn last_path_segment_is_after_the_last_slash() {
    assert_eq!(last_path_segment("/SamitoX4/devcontainers/releases/tag/v1.2.0"), "v1.2.0");
    assert_eq!(last_path_segment("/"), "");
    assert_eq!(last_path_segment("plain"), "plain");
    assert_eq!(last_path_segment("/a/b/"), "");
}

#[test]
fn passwords_spell_the_draws() {
    assert_eq!(password_from_draws(b"aB3!"), "aB3!");
    assert_eq!(password_from_draws(&[]), "");
    let set = charset();
    let draws = vec![set[0], set[61], set[52]];
    assert_eq!(password_from_draws(&draws), "A90");
}

#[test]
fn version_prompts_follow_the_argument() {
    let chosen = vec![(s("ANDROID_API_LEVEL"), s("35"))];
    match version_prompt("BUILD_TOOLS_VERSION", "33.0.0", &chosen) {
        VersionPrompt::Single { options, default_index } => {
            assert_eq!(options.len(), 4);
            assert_eq!(default_index, 2);
        }
        _ => panic!("expected a menu"),
    }
    match version_prompt("NODE_MAJOR_VERSION", "20", &vec![]) {
        VersionPrompt::Multi { options, preselected, suggested } => {
            assert_eq!(options, vec![s("18"), s("20"), s("22")]);
            assert_eq!(preselected, vec![false, true, false]);
            assert_eq!(suggested, "20");
        }
        _ => panic!("expected a multiple choice"),
    }
    match version_prompt("MY_TOOL", "1.0", &vec![]) {
        VersionPrompt::Typed { suggested } => assert_eq!(suggested, "1.0"),
        _ => panic!("expected a typed answer"),
    }
    match version_prompt("KOTLIN_VERSION", "9.9", &vec![]) {
        VersionPrompt::Single { default_index, .. } => assert_eq!(default_index, 0),
        _ => panic!("expected a menu"),
    }
}

#[test]
fn every_api_level_has_build_tools_and_lists_are_distinct() {
    let api = get_version_options("ANDROID_API_LEVEL").unwrap();
    let build = get_version_options("BUILD_TOOLS_VERSION").unwrap();
    for a in &api {
        assert!(build.contains(&format!("{}.0.0", a)));
    }
    for name in ["NDK_VERSION", "KOTLIN_VERSION", "GO_VERSION", "FLUTTER_BRANCH", "CMAKE_VERSION"] {
        let o = get_version_options(name).unwrap();
        assert!(!o.is_empty());
        for i in 0..o.len() {
            for j in (i + 1)..o.len() {
                assert_ne!(o[i], o[j]);
            }
        }
    }
}

#[test]
fn nested_templates_are_listed_by_path() {
    assert_eq!(listed_template_names("nodejs", true, &vec![]), vec![s("nodejs")]);
    assert_eq!(listed_template_names("misc", false, &vec![]), vec![s("misc")]);
    assert_eq!(
        listed_template_names("android", false, &vec![s("kotlin-native"), s("ndk")]),
        vec![s("android/kotlin-native"), s("android/ndk")]
    );
}

#[test]
fn escaped_strings_hold_no_control_characters() {
    let e = ConfigMerger::escape_string("a\u{0}b\u{1f}c\u{7f}\n\t");
    assert!(!e.chars().any(|c| c.is_control()));
    assert_eq!(e, "a\\u{0000}b\\u{001f}c\\u{007f}\\n\\t");
}

#[test]
fn keys_find_their_help_anywhere_in_a_step() {
    assert_eq!(get_step_context("Ayuda: Privilegios sudo"), get_step_context("Privilegios sudo"));
    assert_eq!(get_step_context("Privilegios sudo").map(|v| v.len()), Some(3));
    assert_eq!(get_step_context("Contraseña de developer"), None);
}
