use std::path::PathBuf;

use devc::cache::{templates_need_download, CacheConfig, CacheManager, GitConfig};
use devc::copier::TemplateCopier;
use devc::credentials::{credentials_file_name, CredentialsFile};
use devc::fetcher::{archive_entry_action, version_from_release_page, version_from_tag, EntryAction};
use devc::flow::{
    check_password, choose_git_value, config_needs_prompt, credentials_to_show,
    get_template_description, is_help_request, menu_choice, passwords_match, resolve_identity,
    save_choice, trimmed, trimmed_answer, GitValue, PasswordCheck, SaveChoice,
};
use devc::security::get_security_defaults;
use devc::tui::{frame_rows, get_step_context, help_box_layout, help_content, FrameRows, HelpBoxLayout};

fn s(x: &str) -> String {
    x.to_string()
}

fn manager(loaded: Option<CacheConfig>) -> CacheManager {
    CacheManager::new(
        PathBuf::from("/home/u/.devc"),
        PathBuf::from("/home/u/.devc/cache/templates"),
        PathBuf::from("/home/u/.devc/config.json"),
        loaded,
    )
}

#[test]
fn cache_starts_from_default_config() {
    let c = manager(None);
    assert_eq!(c.config().templates_version, "0.0.0");
    assert_eq!(c.config().last_check, "never");
    assert_eq!(c.get_git_config().name, None);
    assert_eq!(c.templates_dir(), &PathBuf::from("/home/u/.devc/cache/templates"));
    assert_eq!(c.config_path(), &PathBuf::from("/home/u/.devc/config.json"));
}

#[test]
fn saved_git_identity_reads_back() {
    let loaded = CacheConfig {
        templates_version: s("1.4.0"),
        last_check: s("never"),
        git: GitConfig::default(),
    };
    let mut c = manager(Some(loaded));
    c.save_git_config("Ann", "ann@x.io");
    assert_eq!(c.get_git_config().name, Some(s("Ann")));
    assert_eq!(c.get_git_config().email, Some(s("ann@x.io")));
    assert_eq!(c.config().templates_version, "1.4.0");
    assert!(c.update_available("1.5.0"));
    assert!(!c.update_available("1.4.0"));
}

#[test]
fn available_templates_are_sorted_and_filtered() {
    let names = vec![s("rust"), s(".git"), s("nodejs"), s("target"), s("android"), s("go")];
    assert_eq!(
        CacheManager::get_available_templates(names),
        vec![s("android"), s("go"), s("nodejs"), s("rust")]
    );
    assert!(CacheManager::get_available_templates(vec![]).is_empty());
    assert_eq!(
        CacheManager::get_available_templates(vec![s("b"), s("B"), s("a"), s("b")]),
        vec![s("B"), s("a"), s("b"), s("b")]
    );
}

#[test]
fn templates_download_unless_cached() {
    assert!(templates_need_download(false, false));
    assert!(!templates_need_download(true, false));
    assert!(templates_need_download(true, true));
}

#[test]
fn template_entry_is_the_first_matching_folder() {
    let entries = vec![
        (s("templates"), true),
        (s("java"), false),
        (s("java"), true),
        (s("java"), true),
    ];
    assert_eq!(TemplateCopier::find_template_entry(&entries, "java"), Some(2));
    assert_eq!(TemplateCopier::find_template_entry(&entries, "go"), None);
}

#[test]
fn credentials_file_records_the_settings() {
    let mut sec = get_security_defaults("python");
    sec.remote_password = s("pw-user");
    sec.container_password = s("pw-root");
    let c = CredentialsFile::new("proj", "python", &sec);
    assert_eq!(c.project, "proj");
    assert_eq!(c.template, "python");
    assert_eq!(c.mode, "developer");
    assert_eq!(c.remote_user, "developer");
    assert_eq!(c.remote_password, "pw-user");
    assert_eq!(c.container_password, "pw-root");
}

#[test]
fn credentials_file_name_keeps_only_alphanumerics() {
    assert_eq!(credentials_file_name("my project!"), "my_project_.json");
    assert_eq!(credentials_file_name("Año-2"), "Año_2.json");
    assert_eq!(credentials_file_name(""), ".json");
}

#[test]
fn tag_versions_lose_their_leading_v() {
    assert_eq!(version_from_tag("v1.2.3"), "1.2.3");
    assert_eq!(version_from_tag("vv2"), "2");
    assert_eq!(version_from_tag("1.0"), "1.0");
    assert_eq!(version_from_tag("latest"), "latest");
    assert_eq!(version_from_tag(&version_from_tag("vvv7")), "7");
}

#[test]
fn release_page_names_the_version() {
    let page = "<a href=\"/o/r/releases/tag/v2.1.0\">x</a> release/tag/v9\"";
    assert_eq!(version_from_release_page(page), "9");
    assert_eq!(version_from_release_page("see release/tag/v3.0.1\" and release/tag/v4\""), "3.0.1");
    assert_eq!(version_from_release_page("no tags here"), "0.0.0");
    assert_eq!(version_from_release_page("release/tag/v5 without quote"), "0.0.0");
}

#[test]
fn archive_entries_under_templates_are_extracted() {
    let p = "devcontainers-master/templates/";
    assert!(matches!(archive_entry_action(None, "x"), EntryAction::Skip));
    assert!(matches!(archive_entry_action(Some("devcontainers-master/README.md"), "devcontainers-master/README.md"), EntryAction::Skip));
    assert!(matches!(archive_entry_action(Some(p), p), EntryAction::Skip));
    match archive_entry_action(Some("devcontainers-master/templates/nodejs"), "devcontainers-master/templates/nodejs/") {
        EntryAction::CreateDir(d) => assert_eq!(d, "nodejs"),
        _ => panic!("expected a folder"),
    }
    match archive_entry_action(
        Some("devcontainers-master/templates/nodejs/.devcontainer/Dockerfile"),
        "devcontainers-master/templates/nodejs/.devcontainer/Dockerfile",
    ) {
        EntryAction::WriteFile(f) => assert_eq!(f, "nodejs/.devcontainer/Dockerfile"),
        _ => panic!("expected a file"),
    }
}

#[test]
fn step_context_and_help_content() {
    let ctx = get_step_context("Nombre del proyecto").unwrap();
    assert_eq!(ctx.len(), 2);
    assert_eq!(ctx[1], "Por defecto se sugiere el nombre del directorio actual.");
    assert_eq!(get_step_context("Contraseña de alice").map(|v| v.len()), None);
    assert_eq!(get_step_context("Usuario de desarrollo extra").map(|v| v.len()), Some(3));
    assert_eq!(get_step_context("Otro paso"), None);
    assert_eq!(help_content("Otro paso"), vec![s("No hay información adicional para este paso.")]);
}

#[test]
fn help_box_is_centred_and_clamped() {
    let lines = help_content("Nombre del proyecto");
    assert_eq!(
        help_box_layout(&lines, 30, 100),
        HelpBoxLayout { width: 63, height: 6, row: 12, col: 18 }
    );
    assert_eq!(
        help_box_layout(&lines, 4, 60),
        HelpBoxLayout { width: 52, height: 6, row: 0, col: 4 }
    );
    assert_eq!(
        help_box_layout(&vec![s("short")], 10, 48),
        HelpBoxLayout { width: 40, height: 5, row: 2, col: 4 }
    );
}

#[test]
fn frame_rows_follow_the_terminal_height() {
    assert_eq!(frame_rows(40), FrameRows { prompt: 7, footer: 37, cleanup: 38 });
    assert_eq!(frame_rows(10), FrameRows { prompt: 5, footer: 7, cleanup: 8 });
    assert_eq!(frame_rows(1), FrameRows { prompt: 0, footer: 0, cleanup: 0 });
}

#[test]
fn answers_are_trimmed() {
    assert_eq!(trimmed("  a b \n"), "a b");
    assert_eq!(trimmed_answer("  x "), Some(s("x")));
    assert_eq!(trimmed_answer(" \t"), None);
    assert!(is_help_request(" ?help "));
    assert!(!is_help_request("help"));
    assert_eq!(menu_choice(3, 3), None);
    assert_eq!(menu_choice(1, 3), Some(1));
}

#[test]
fn git_values_prefer_flags_then_saved() {
    assert!(matches!(choose_git_value(Some("F"), &Some(s("S"))), GitValue::Given(v) if v == "F"));
    assert!(matches!(choose_git_value(None, &Some(s("S"))), GitValue::Saved(v) if v == "S"));
    assert!(matches!(choose_git_value(None, &None), GitValue::Ask));
}

#[test]
fn config_identity_is_completed_from_saved_values() {
    let saved = GitConfig { name: Some(s("Old")), email: Some(s("old@x.io")) };
    let empty = GitConfig::default();
    assert!(config_needs_prompt(None, None, &empty));
    assert!(!config_needs_prompt(Some("n"), None, &empty));
    assert!(!config_needs_prompt(None, None, &saved));
    assert_eq!(
        resolve_identity(Some(s("New")), None, &saved),
        Some((s("New"), s("old@x.io")))
    );
    assert_eq!(resolve_identity(None, None, &saved), Some((s("Old"), s("old@x.io"))));
    assert_eq!(resolve_identity(Some(s("New")), None, &empty), None);
}

#[test]
fn typed_passwords_are_checked() {
    assert_eq!(check_password(""), PasswordCheck::Generate);
    assert_eq!(check_password("abc"), PasswordCheck::TooShort);
    assert_eq!(check_password("ñññ"), PasswordCheck::Confirm);
    assert_eq!(check_password("abcdef"), PasswordCheck::Confirm);
    assert!(passwords_match("abcdef", "abcdef"));
    assert!(!passwords_match("abcdef", "abcdeg"));
}

#[test]
fn save_credentials_flag_decides_the_path() {
    assert!(matches!(save_choice(None), SaveChoice::Ask));
    assert!(matches!(save_choice(Some("")), SaveChoice::Skip));
    assert!(matches!(save_choice(Some("default")), SaveChoice::DefaultPath));
    assert!(matches!(save_choice(Some("/tmp/c.json")), SaveChoice::Path(p) if p == "/tmp/c.json"));
}

#[test]
fn credentials_are_shown_when_a_password_was_generated() {
    let mut sec = get_security_defaults("python");
    sec.remote_password = s("u");
    sec.container_password = s("r");
    assert_eq!(credentials_to_show(&sec, true, true), None);
    assert_eq!(
        credentials_to_show(&sec, true, false),
        Some(vec![
            (s("Usuario de desarrollo"), s("developer")),
            (s("Contraseña de desarrollo"), s("u")),
            (s("Contraseña de root"), s("r")),
        ])
    );
    let mut root = get_security_defaults("android/x");
    root.container_password = s("r");
    assert_eq!(
        credentials_to_show(&root, false, false),
        Some(vec![(s("Contraseña de root"), s("r"))])
    );
}

#[test]
fn template_description_uses_the_document_name() {
    assert_eq!(get_template_description(Some("{\"name\": \"Node.js\"}"), "nodejs"), "Node.js");
    assert_eq!(
        get_template_description(Some("{\"name\": 3}"), "nodejs"),
        "Development container template (nodejs)"
    );
    assert_eq!(
        get_template_description(Some("not json"), "go"),
        "Development container template (go)"
    );
    assert_eq!(get_template_description(None, "go"), "Development container template (go)");
}
