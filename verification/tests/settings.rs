use devc::password::{charset, generate, generate_12};
use devc::security::{
    asks_shared_network, build_security_config, get_security_defaults, network_mode_at,
    network_mode_index, security_mode_at, security_mode_index, sudo_mode_at, sudo_mode_index,
    SecurityAnswers, SecurityConfig, SecurityFlags, SecurityQuestion, SecurityStep,
};

fn s(x: &str) -> String {
    x.to_string()
}

fn no_flags() -> SecurityFlags {
    SecurityFlags {
        mode: None,
        remote_user: None,
        remote_password: None,
        container_password: None,
        sudo_mode: None,
        network_mode: None,
    }
}

fn no_answers() -> SecurityAnswers {
    SecurityAnswers {
        network: None,
        mode: None,
        root_password: None,
        remote_user: None,
        passwords: None,
        sudo_mode: None,
    }
}

fn is_password(p: &str, len: usize) -> bool {
    let set = charset();
    p.chars().count() == len && p.bytes().all(|b| set.contains(&b) && b.is_ascii_alphanumeric())
}

fn done(step: SecurityStep) -> SecurityConfig {
    match step {
        SecurityStep::Done(c) => c,
        SecurityStep::Ask(q) => panic!("unexpected question {:?}", q),
    }
}

fn asked(step: SecurityStep) -> SecurityQuestion {
    match step {
        SecurityStep::Ask(q) => q,
        SecurityStep::Done(c) => panic!("unexpected settings {:?}", c),
    }
}

#[test]
fn charset_has_letters_and_digits() {
    let set = charset();
    assert_eq!(set.len(), 62);
    assert_eq!(set[0], b'A');
    assert_eq!(set[26], b'a');
    assert_eq!(set[52], b'0');
    assert_eq!(set[61], b'9');
    assert!(set.iter().all(|b| b.is_ascii_alphanumeric()));
}

#[test]
fn generated_passwords_have_the_asked_length() {
    let p = generate_12();
    assert!(is_password(&p, 12));
    assert!(is_password(&generate(30), 30));
    assert_eq!(generate(0), "");
}

#[test]
fn defaults_for_android_run_as_root() {
    let d = get_security_defaults("android/kotlin");
    assert_eq!(d.mode, "root");
    assert_eq!(d.remote_user, "root");
    assert_eq!(d.container_user, None);
    assert_eq!(d.sudo_mode, "none");
    assert_eq!(d.network_mode, "bridge");
    assert_eq!(d.network_name, None);
    assert!(is_password(&d.remote_password, 12));
    assert!(is_password(&d.container_password, 12));
}

#[test]
fn defaults_for_node_use_the_node_user() {
    let d = get_security_defaults("nodejs");
    assert_eq!(d.mode, "developer");
    assert_eq!(d.remote_user, "node");
    assert_eq!(d.container_user, Some(s("node")));
    assert_eq!(d.sudo_mode, "nopasswd");
    let d = get_security_defaults("android/react-native");
    assert_eq!(d.mode, "root");
}

#[test]
fn defaults_for_other_templates_use_a_developer() {
    let d = get_security_defaults("python");
    assert_eq!(d.mode, "developer");
    assert_eq!(d.remote_user, "developer");
    assert_eq!(d.container_user, Some(s("developer")));
    assert_eq!(d.sudo_mode, "nopasswd");
    let d = SecurityConfig::default();
    assert_eq!(d.remote_user, "developer");
    assert!(is_password(&d.container_password, 12));
}

#[test]
fn network_is_asked_first() {
    let q = asked(build_security_config("python", &no_flags(), &no_answers()));
    assert_eq!(q, SecurityQuestion::NetworkMode { default: s("bridge") });
}

#[test]
fn mode_flag_settles_everything() {
    let mut f = no_flags();
    f.mode = Some(s("SECURE"));
    f.network_mode = Some(s("Host"));
    f.remote_password = Some(s("secret1"));
    let c = done(build_security_config("python", &f, &no_answers()));
    assert_eq!(c.mode, "secure");
    assert_eq!(c.remote_user, "developer");
    assert_eq!(c.container_user, Some(s("developer")));
    assert_eq!(c.remote_password, "secret1");
    assert!(is_password(&c.container_password, 12));
    assert_eq!(c.sudo_mode, "none");
    assert_eq!(c.network_mode, "host");
    assert_eq!(c.network_name, None);
}

#[test]
fn root_mode_flag_runs_as_root() {
    let mut f = no_flags();
    f.mode = Some(s("root"));
    f.network_mode = Some(s("none"));
    f.sudo_mode = Some(s("Password"));
    let c = done(build_security_config("nodejs", &f, &no_answers()));
    assert_eq!(c.remote_user, "root");
    assert_eq!(c.container_user, None);
    assert_eq!(c.sudo_mode, "password");
}

#[test]
fn custom_mode_flag_keeps_template_sudo() {
    let mut f = no_flags();
    f.mode = Some(s("custom"));
    f.remote_user = Some(s("me"));
    f.network_mode = Some(s("bridge"));
    let c = done(build_security_config("android/java", &f, &no_answers()));
    assert_eq!(c.remote_user, "me");
    assert_eq!(c.container_user, Some(s("me")));
    assert_eq!(c.sudo_mode, "none");
}

#[test]
fn interactive_root_asks_for_root_password() {
    let mut a = no_answers();
    a.network = Some((s("bridge"), Some(s("shared_net"))));
    let q = asked(build_security_config("android/java", &no_flags(), &a));
    assert_eq!(q, SecurityQuestion::SecurityMode { default: s("root") });
    a.mode = Some(s("root"));
    let q = asked(build_security_config("android/java", &no_flags(), &a));
    assert_eq!(q, SecurityQuestion::RootPassword);
    a.root_password = Some(s("rootpw1"));
    let c = done(build_security_config("android/java", &no_flags(), &a));
    assert_eq!(c.mode, "root");
    assert_eq!(c.remote_user, "root");
    assert_eq!(c.container_user, None);
    assert_eq!(c.remote_password, "rootpw1");
    assert_eq!(c.container_password, "rootpw1");
    assert_eq!(c.sudo_mode, "none");
    assert_eq!(c.network_name, Some(s("shared_net")));
}

#[test]
fn interactive_developer_asks_user_passwords_and_sudo() {
    let mut a = no_answers();
    a.network = Some((s("host"), None));
    a.mode = Some(s("secure"));
    let q = asked(build_security_config("nodejs", &no_flags(), &a));
    assert_eq!(q, SecurityQuestion::RemoteUser { default: s("node") });
    a.remote_user = Some(s("alice"));
    let q = asked(build_security_config("nodejs", &no_flags(), &a));
    assert_eq!(q, SecurityQuestion::Passwords { remote_user: s("alice") });
    a.passwords = Some((s("userpw1"), s("rootpw1")));
    let q = asked(build_security_config("nodejs", &no_flags(), &a));
    assert_eq!(q, SecurityQuestion::SudoMode { default: s("none") });
    a.sudo_mode = Some(s("password"));
    let c = done(build_security_config("nodejs", &no_flags(), &a));
    assert_eq!(c.mode, "secure");
    assert_eq!(c.remote_user, "alice");
    assert_eq!(c.container_user, Some(s("alice")));
    assert_eq!(c.remote_password, "userpw1");
    assert_eq!(c.container_password, "rootpw1");
    assert_eq!(c.sudo_mode, "password");
    assert_eq!(c.network_mode, "host");
}

#[test]
fn password_flags_skip_the_password_question() {
    let mut f = no_flags();
    f.remote_password = Some(s("u1u1u1"));
    f.container_password = Some(s("r1r1r1"));
    f.sudo_mode = Some(s("NOPASSWD"));
    let mut a = no_answers();
    a.network = Some((s("bridge"), None));
    a.mode = Some(s("developer"));
    a.remote_user = Some(s("bob"));
    let c = done(build_security_config("python", &f, &a));
    assert_eq!(c.remote_password, "u1u1u1");
    assert_eq!(c.container_password, "r1r1r1");
    assert_eq!(c.sudo_mode, "nopasswd");
}

#[test]
fn menu_positions_round_trip() {
    assert_eq!(security_mode_index("developer"), 0);
    assert_eq!(security_mode_index("root"), 2);
    assert_eq!(security_mode_index("custom"), 0);
    assert_eq!(security_mode_at(security_mode_index("secure")), "secure");
    assert_eq!(security_mode_at(3), "custom");
    assert_eq!(security_mode_at(9), "developer");
    assert_eq!(sudo_mode_index("none"), 2);
    assert_eq!(sudo_mode_at(sudo_mode_index("password")), "password");
    assert_eq!(sudo_mode_at(5), "nopasswd");
    assert_eq!(network_mode_index("host"), 1);
    assert_eq!(network_mode_index("weird"), 0);
    assert_eq!(network_mode_at(network_mode_index("none")), "none");
    assert_eq!(network_mode_at(3), "bridge");
}

#[test]
fn only_bridge_asks_for_a_shared_network() {
    assert!(asks_shared_network("bridge"));
    assert!(!asks_shared_network("host"));
    assert!(!asks_shared_network("Bridge"));
}
