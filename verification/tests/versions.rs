use devc::versions::{
    apply_custom_versions, apply_custom_versions_to_config_files, get_version_options,
    join_picked, option_default_index, option_position, parse_dockerfile_args,
    suggested_version, typed_version, uses_multi_select,
};

fn s(x: &str) -> String {
    x.to_string()
}

fn pairs(v: &[(&str, &str)]) -> Vec<(String, String)> {
    v.iter().map(|(a, b)| (s(a), s(b))).collect()
}

const DOCKERFILE: &str = "FROM node:20\n  ARG NODE_MAJOR_VERSION = 20 \nARG USERNAME=${REMOTE_USER}\nARG NOVALUE\nRUN echo hi\r\nARG JAVA_VERSION=17\n";

#[test]
fn parse_dockerfile_args_reads_arg_lines() {
    let args = parse_dockerfile_args(DOCKERFILE);
    assert_eq!(args, pairs(&[("NODE_MAJOR_VERSION", "20"), ("JAVA_VERSION", "17")]));
    assert!(parse_dockerfile_args("").is_empty());
    assert!(parse_dockerfile_args("RUN x=1\n").is_empty());
}

#[test]
fn version_options_are_known_for_common_args() {
    assert_eq!(get_version_options("JAVA_VERSION"), Some(vec![s("17"), s("21")]));
    assert_eq!(
        get_version_options("NODE_MAJOR_VERSION"),
        Some(vec![s("18"), s("20"), s("22")])
    );
    assert_eq!(get_version_options("KOTLIN_VERSION").map(|v| v.len()), Some(5));
    assert_eq!(
        get_version_options("CMDLINE_TOOLS_VERSION"),
        Some(vec![s("7302050_latest"), s("10406996_latest")])
    );
    assert_eq!(get_version_options("UNKNOWN_ARG"), None);
}

#[test]
fn build_tools_follow_the_chosen_api_level() {
    let chosen = pairs(&[("ANDROID_API_LEVEL", "34"), ("NDK_VERSION", "x")]);
    assert_eq!(suggested_version("BUILD_TOOLS_VERSION", "33.0.0", &chosen), "34.0.0");
    assert_eq!(suggested_version("BUILD_TOOLS_VERSION", "33.0.0", &vec![]), "33.0.0");
    assert_eq!(suggested_version("NDK_VERSION", "26", &chosen), "26");
    let twice = pairs(&[("ANDROID_API_LEVEL", "34"), ("ANDROID_API_LEVEL", "36")]);
    assert_eq!(suggested_version("BUILD_TOOLS_VERSION", "33.0.0", &twice), "36.0.0");
}

#[test]
fn preselected_entry_prefers_suggestion_then_default() {
    let opts = vec![s("33"), s("34"), s("35")];
    assert_eq!(option_position(&opts, "35"), Some(2));
    assert_eq!(option_position(&opts, "36"), None);
    assert_eq!(option_default_index(&opts, "34", "33"), 1);
    assert_eq!(option_default_index(&opts, "99", "35"), 2);
    assert_eq!(option_default_index(&opts, "99", "98"), 0);
}

#[test]
fn multi_select_joins_picks_with_commas() {
    let opts = vec![s("18"), s("20"), s("22")];
    assert_eq!(join_picked(&opts, &vec![0, 2], "20"), "18,22");
    assert_eq!(join_picked(&opts, &vec![1], "20"), "20");
    assert_eq!(join_picked(&opts, &vec![], "20"), "20");
    assert!(uses_multi_select("NODE_MAJOR_VERSION"));
    assert!(!uses_multi_select("JAVA_VERSION"));
}

#[test]
fn typed_version_trims_or_keeps_suggestion() {
    assert_eq!(typed_version("  1.2  ", "9"), "1.2");
    assert_eq!(typed_version(" \t ", "9"), "9");
    assert_eq!(typed_version("", "9"), "9");
}

#[test]
fn apply_custom_versions_rewrites_chosen_args() {
    let args = pairs(&[("JAVA_VERSION", "21"), ("NODE_MAJOR_VERSION", "22")]);
    let out = apply_custom_versions(DOCKERFILE, &args);
    assert_eq!(
        out,
        "FROM node:20\n  ARG NODE_MAJOR_VERSION =22\nARG USERNAME=${REMOTE_USER}\nARG NOVALUE\nRUN echo hi\nARG JAVA_VERSION=21"
    );
}

#[test]
fn apply_custom_versions_without_choices_only_joins_lines() {
    assert_eq!(apply_custom_versions("a\r\nb\n", &vec![]), "a\nb");
    assert_eq!(apply_custom_versions("", &vec![]), "");
}

#[test]
fn java_version_updates_devcontainer_json() {
    let json = "{\"java.home\": \"/usr/lib/jvm/java-17-openjdk-amd64\", \"rt\": \"JavaSE-17\"}";
    let out = apply_custom_versions_to_config_files(json, &pairs(&[("JAVA_VERSION", "21")]));
    assert_eq!(
        out,
        Some(s("{\"java.home\": \"/usr/lib/jvm/java-21-openjdk-amd64\", \"rt\": \"JavaSE-21\"}"))
    );
    assert_eq!(
        apply_custom_versions_to_config_files(json, &pairs(&[("NODE_MAJOR_VERSION", "20")])),
        None
    );
}
