//! Users, passwords, sudo and network settings of the generated container.
//!
//! Building the settings alternates questions to the user with decisions.
//! The decisions are here: [`build_security_config`] looks at the command-line
//! flags and at the answers given so far, and either names the next question
//! or gives the finished settings.
use vstd::prelude::*;

use crate::password::{generate_12, is_generated};
use crate::text::{owned, lowercase_of, starts_with, str_eq, str_starts_with, to_lowercase};

verus! {

/// The security settings of a container.
#[derive(Debug, Clone)]
pub struct SecurityConfig {
    /// `developer`, `secure`, `root` or `custom`.
    pub mode: String,
    /// The user VS Code connects as.
    pub remote_user: String,
    /// The user the container runs as; none for root.
    pub container_user: Option<String>,
    /// The password of the remote user.
    pub remote_password: String,
    /// The password of root.
    pub container_password: String,
    /// `nopasswd`, `password` or `none`.
    pub sudo_mode: String,
    /// `bridge`, `host` or `none`.
    pub network_mode: String,
    /// An external shared network to join (bridge only).
    pub network_name: Option<String>,
}

/// The view of an optional string.
pub open spec fn opt_str(o: Option<String>) -> Option<Seq<char>> {
    match o {
        Some(s) => Some(s@),
        None => None,
    }
}

/// The settings as plain values. A password that is `None` here stands for
/// one that is generated.
pub struct SecuritySpec {
    pub mode: Seq<char>,
    pub remote_user: Seq<char>,
    pub container_user: Option<Seq<char>>,
    pub remote_password: Option<Seq<char>>,
    pub container_password: Option<Seq<char>>,
    pub sudo_mode: Seq<char>,
    pub network_mode: Seq<char>,
    pub network_name: Option<Seq<char>>,
}

/// A password meets its description: the given one, or a generated one.
pub open spec fn password_meets(p: Seq<char>, wanted: Option<Seq<char>>) -> bool {
    match wanted {
        Some(w) => p == w,
        None => is_generated(p, 12),
    }
}

impl SecurityConfig {
    /// The settings meet a description.
    pub open spec fn meets(&self, s: SecuritySpec) -> bool {
        &&& self.mode@ == s.mode
        &&& self.remote_user@ == s.remote_user
        &&& opt_str(self.container_user) == s.container_user
        &&& password_meets(self.remote_password@, s.remote_password)
        &&& password_meets(self.container_password@, s.container_password)
        &&& self.sudo_mode@ == s.sudo_mode
        &&& self.network_mode@ == s.network_mode
        &&& opt_str(self.network_name) == s.network_name
    }
}

impl Default for SecurityConfig {
    /// The developer profile with generated passwords.
    fn default() -> (r: Self)
        ensures
            r.meets(
                SecuritySpec {
                    mode: "developer"@,
                    remote_user: "developer"@,
                    container_user: Some("developer"@),
                    remote_password: None,
                    container_password: None,
                    sudo_mode: "nopasswd"@,
                    network_mode: "bridge"@,
                    network_name: None,
                },
            ),
    {
        SecurityConfig {
            mode: owned("developer"),
            remote_user: owned("developer"),
            container_user: Some(owned("developer")),
            remote_password: generate_12(),
            container_password: generate_12(),
            sudo_mode: owned("nopasswd"),
            network_mode: owned("bridge"),
            network_name: None,
        }
    }
}

// ---------------------------------------------------------------------------
// Defaults of a template
// ---------------------------------------------------------------------------

/// Templates of the Android stack run as root.
pub open spec fn is_android(template: Seq<char>) -> bool {
    starts_with(template, "android/"@)
}

/// The default security mode of a template.
pub open spec fn default_mode(template: Seq<char>) -> Seq<char> {
    if is_android(template) {
        "root"@
    } else {
        "developer"@
    }
}

/// The default remote user of a template.
pub open spec fn default_remote_user(template: Seq<char>) -> Seq<char> {
    if is_android(template) {
        "root"@
    } else if template == "nodejs"@ || template == "android/react-native"@ {
        "node"@
    } else {
        "developer"@
    }
}

/// The default sudo mode of a template.
pub open spec fn default_sudo(template: Seq<char>) -> Seq<char> {
    if is_android(template) {
        "none"@
    } else {
        "nopasswd"@
    }
}

/// The default settings of a template (passwords generated).
pub open spec fn defaults_spec(template: Seq<char>) -> SecuritySpec {
    SecuritySpec {
        mode: default_mode(template),
        remote_user: default_remote_user(template),
        container_user: if is_android(template) {
            None
        } else {
            Some(default_remote_user(template))
        },
        remote_password: None,
        container_password: None,
        sudo_mode: default_sudo(template),
        network_mode: "bridge"@,
        network_name: None,
    }
}

/// The default settings of a template: Android templates run as root
/// without sudo; `nodejs` uses the `node` user; all others a `developer`
/// user with password-less sudo. Passwords are generated.
pub fn get_security_defaults(template: &str) -> (r: SecurityConfig)
    ensures
        r.meets(defaults_spec(template@)),
{
    if str_starts_with(template, "android/") {
        SecurityConfig {
            mode: owned("root"),
            remote_user: owned("root"),
            container_user: None,
            remote_password: generate_12(),
            container_password: generate_12(),
            sudo_mode: owned("none"),
            network_mode: owned("bridge"),
            network_name: None,
        }
    } else if str_eq(template, "nodejs") || str_eq(template, "android/react-native") {
        SecurityConfig {
            mode: owned("developer"),
            remote_user: owned("node"),
            container_user: Some(owned("node")),
            remote_password: generate_12(),
            container_password: generate_12(),
            sudo_mode: owned("nopasswd"),
            network_mode: owned("bridge"),
            network_name: None,
        }
    } else {
        SecurityConfig {
            mode: owned("developer"),
            remote_user: owned("developer"),
            container_user: Some(owned("developer")),
            remote_password: generate_12(),
            container_password: generate_12(),
            sudo_mode: owned("nopasswd"),
            network_mode: owned("bridge"),
            network_name: None,
        }
    }
}

// ---------------------------------------------------------------------------
// Building the settings
// ---------------------------------------------------------------------------

/// The settings given on the command line.
pub struct SecurityFlags {
    pub mode: Option<String>,
    pub remote_user: Option<String>,
    pub remote_password: Option<String>,
    pub container_password: Option<String>,
    pub sudo_mode: Option<String>,
    pub network_mode: Option<String>,
}

/// The answers the user gave so far.
pub struct SecurityAnswers {
    /// The network mode and the shared network, if any.
    pub network: Option<(String, Option<String>)>,
    pub mode: Option<String>,
    pub root_password: Option<String>,
    pub remote_user: Option<String>,
    /// The remote user's password and root's password.
    pub passwords: Option<(String, String)>,
    pub sudo_mode: Option<String>,
}

/// What to ask the user next.
#[derive(Debug, PartialEq, Eq)]
pub enum SecurityQuestion {
    /// The network mode (then, for bridge, the shared network).
    NetworkMode { default: String },
    /// The security profile.
    SecurityMode { default: String },
    /// The password of root in root mode.
    RootPassword,
    /// The user VS Code connects as.
    RemoteUser { default: String },
    /// Whether to set passwords, and which, for the remote user and root.
    Passwords { remote_user: String },
    /// The sudo mode.
    SudoMode { default: String },
}

/// The next step of building the settings.
pub enum SecurityStep {
    Ask(SecurityQuestion),
    Done(SecurityConfig),
}

/// A question as plain values.
pub enum QuestionSpec {
    NetworkMode(Seq<char>),
    SecurityMode(Seq<char>),
    RootPassword,
    RemoteUser(Seq<char>),
    Passwords(Seq<char>),
    SudoMode(Seq<char>),
}

/// A step as plain values.
pub enum StepSpec {
    Ask(QuestionSpec),
    Done(SecuritySpec),
}

impl SecurityQuestion {
    /// The question as plain values.
    pub open spec fn spec(&self) -> QuestionSpec {
        match self {
            SecurityQuestion::NetworkMode { default } => QuestionSpec::NetworkMode(default@),
            SecurityQuestion::SecurityMode { default } => QuestionSpec::SecurityMode(default@),
            SecurityQuestion::RootPassword => QuestionSpec::RootPassword,
            SecurityQuestion::RemoteUser { default } => QuestionSpec::RemoteUser(default@),
            SecurityQuestion::Passwords { remote_user } => QuestionSpec::Passwords(remote_user@),
            SecurityQuestion::SudoMode { default } => QuestionSpec::SudoMode(default@),
        }
    }
}

/// A step meets its description.
pub open spec fn step_meets(step: SecurityStep, s: StepSpec) -> bool {
    match (step, s) {
        (SecurityStep::Ask(q), StepSpec::Ask(qs)) => q.spec() == qs,
        (SecurityStep::Done(c), StepSpec::Done(cs)) => c.meets(cs),
        _ => false,
    }
}

/// The view of an optional pair of strings.
pub open spec fn opt_pair(o: Option<(String, String)>) -> Option<(Seq<char>, Seq<char>)> {
    match o {
        Some(p) => Some((p.0@, p.1@)),
        None => None,
    }
}

/// The network settings: the flag (in lower case, no shared network) or the
/// answer.
pub open spec fn network_of(f: SecurityFlags, a: SecurityAnswers) -> Option<
    (Seq<char>, Option<Seq<char>>),
> {
    match f.network_mode {
        Some(nm) => Some((lowercase_of(nm@), None)),
        None => match a.network {
            Some(n) => Some((n.0@, opt_str(n.1))),
            None => None,
        },
    }
}

/// The sudo mode that follows from a mode given on the command line.
pub open spec fn flag_mode_sudo(mode: Seq<char>, template: Seq<char>) -> Seq<char> {
    if mode == "developer"@ {
        "nopasswd"@
    } else if mode == "secure"@ || mode == "root"@ {
        "none"@
    } else {
        default_sudo(template)
    }
}

/// The sudo mode offered first for a mode chosen interactively.
pub open spec fn interactive_sudo_default(mode: Seq<char>, template: Seq<char>) -> Seq<char> {
    if mode == "developer"@ {
        "nopasswd"@
    } else if mode == "secure"@ {
        "none"@
    } else {
        default_sudo(template)
    }
}

/// The settings when the mode is given on the command line: every other flag
/// is used when present, and otherwise follows from the mode and the
/// template's defaults; missing passwords are generated.
pub open spec fn from_flags_spec(
    template: Seq<char>,
    f: SecurityFlags,
    network: (Seq<char>, Option<Seq<char>>),
) -> SecuritySpec {
    let mode = lowercase_of(f.mode->0@);
    let remote_user = match f.remote_user {
        Some(u) => u@,
        None => if mode == "root"@ {
            "root"@
        } else {
            default_remote_user(template)
        },
    };
    SecuritySpec {
        mode,
        remote_user,
        container_user: if mode == "root"@ {
            None
        } else {
            Some(remote_user)
        },
        remote_password: opt_str(f.remote_password),
        container_password: opt_str(f.container_password),
        sudo_mode: match f.sudo_mode {
            Some(s) => lowercase_of(s@),
            None => flag_mode_sudo(mode, template),
        },
        network_mode: network.0,
        network_name: network.1,
    }
}

/// The next step: the network is settled first; a mode on the command line
/// settles everything else; otherwise the mode is asked; root mode needs only
/// root's password; other modes need the remote user, the passwords (unless
/// both are flags) and the sudo mode, each taken from its flag when present.
pub open spec fn next_step(template: Seq<char>, f: SecurityFlags, a: SecurityAnswers) -> StepSpec {
    match network_of(f, a) {
        None => StepSpec::Ask(QuestionSpec::NetworkMode("bridge"@)),
        Some(network) => if f.mode is Some {
            StepSpec::Done(from_flags_spec(template, f, network))
        } else {
            match a.mode {
                None => StepSpec::Ask(QuestionSpec::SecurityMode(default_mode(template))),
                Some(mode) => if mode@ == "root"@ {
                    match (f.container_password, a.root_password) {
                        (Some(p), _) => StepSpec::Done(root_spec(p@, network)),
                        (None, Some(p)) => StepSpec::Done(root_spec(p@, network)),
                        (None, None) => StepSpec::Ask(QuestionSpec::RootPassword),
                    }
                } else {
                    user_step(template, mode@, f, a, network)
                },
            }
        },
    }
}

/// The settings in root mode: everything runs as root, both passwords are
/// root's password, and there is no sudo.
pub open spec fn root_spec(password: Seq<char>, network: (Seq<char>, Option<Seq<char>>)) -> SecuritySpec {
    SecuritySpec {
        mode: "root"@,
        remote_user: "root"@,
        container_user: None,
        remote_password: Some(password),
        container_password: Some(password),
        sudo_mode: "none"@,
        network_mode: network.0,
        network_name: network.1,
    }
}

/// The next step in a mode other than root.
pub open spec fn user_step(
    template: Seq<char>,
    mode: Seq<char>,
    f: SecurityFlags,
    a: SecurityAnswers,
    network: (Seq<char>, Option<Seq<char>>),
) -> StepSpec {
    let user = match f.remote_user {
        Some(u) => Some(u@),
        None => opt_str(a.remote_user),
    };
    let passwords = match (f.remote_password, f.container_password) {
        (Some(r), Some(c)) => Some((r@, c@)),
        _ => opt_pair(a.passwords),
    };
    let sudo = match f.sudo_mode {
        Some(s) => Some(lowercase_of(s@)),
        None => opt_str(a.sudo_mode),
    };
    match user {
        None => StepSpec::Ask(QuestionSpec::RemoteUser(default_remote_user(template))),
        Some(u) => match passwords {
            None => StepSpec::Ask(QuestionSpec::Passwords(u)),
            Some(p) => match sudo {
                None => StepSpec::Ask(
                    QuestionSpec::SudoMode(interactive_sudo_default(mode, template)),
                ),
                Some(s) => StepSpec::Done(
                    SecuritySpec {
                        mode,
                        remote_user: u,
                        container_user: Some(u),
                        remote_password: Some(p.0),
                        container_password: Some(p.1),
                        sudo_mode: s,
                        network_mode: network.0,
                        network_name: network.1,
                    },
                ),
            },
        },
    }
}

fn clone_opt(o: &Option<String>) -> (r: Option<String>)
    ensures
        opt_str(r) == opt_str(*o),
{
    match o {
        Some(s) => Some(s.clone()),
        None => None,
    }
}

fn password_or_generated(o: &Option<String>) -> (r: String)
    ensures
        password_meets(r@, opt_str(*o)),
{
    match o {
        Some(p) => p.clone(),
        None => generate_12(),
    }
}

/// The settings when the mode is given on the command line.
fn security_from_flags(
    template: &str,
    flags: &SecurityFlags,
    network_mode: String,
    network_name: Option<String>,
) -> (r: SecurityConfig)
    requires
        flags.mode is Some,
    ensures
        r.meets(from_flags_spec(template@, *flags, (network_mode@, opt_str(network_name)))),
{
    let defaults = get_security_defaults(template);
    let mode = match &flags.mode {
        Some(m) => to_lowercase(m.as_str()),
        None => owned(""),
    };
    let is_root = str_eq(mode.as_str(), "root");
    let remote_user = match &flags.remote_user {
        Some(u) => u.clone(),
        None => if is_root {
            owned("root")
        } else {
            defaults.remote_user.clone()
        },
    };
    let container_user = if is_root {
        None
    } else {
        Some(remote_user.clone())
    };
    let remote_password = password_or_generated(&flags.remote_password);
    let container_password = password_or_generated(&flags.container_password);
    let sudo_mode = match &flags.sudo_mode {
        Some(s) => to_lowercase(s.as_str()),
        None => if str_eq(mode.as_str(), "developer") {
            owned("nopasswd")
        } else if str_eq(mode.as_str(), "secure") || is_root {
            owned("none")
        } else {
            defaults.sudo_mode.clone()
        },
    };
    SecurityConfig {
        mode,
        remote_user,
        container_user,
        remote_password,
        container_password,
        sudo_mode,
        network_mode,
        network_name,
    }
}

/// A shared network is only ever answered together with the bridge network.
pub open spec fn network_answer_ok(a: SecurityAnswers) -> bool {
    match a.network {
        Some(n) => n.1 is Some ==> n.0@ == "bridge"@,
        None => true,
    }
}

/// The next step of building the security settings of a template, from the
/// command-line flags and the answers given so far (see `next_step`). The
/// network answer names a shared network only for the bridge network, as the
/// network question asks for one only then.
pub fn build_security_config(template: &str, flags: &SecurityFlags, answers: &SecurityAnswers) -> (r:
    SecurityStep)
    requires
        network_answer_ok(*answers),
    ensures
        step_meets(r, next_step(template@, *flags, *answers)),
{
    let (network_mode, network_name) = match &flags.network_mode {
        Some(nm) => (to_lowercase(nm.as_str()), None),
        None => match &answers.network {
            Some(n) => (n.0.clone(), clone_opt(&n.1)),
            None => {
                return SecurityStep::Ask(SecurityQuestion::NetworkMode { default: owned("bridge") });
            },
        },
    };
    if flags.mode.is_some() {
        return SecurityStep::Done(security_from_flags(template, flags, network_mode, network_name));
    }
    let mode = match &answers.mode {
        Some(m) => m.clone(),
        None => {
            let defaults = get_security_defaults(template);
            return SecurityStep::Ask(SecurityQuestion::SecurityMode { default: defaults.mode });
        },
    };
    if str_eq(mode.as_str(), "root") {
        let password = match (&flags.container_password, &answers.root_password) {
            (Some(p), _) => p.clone(),
            (None, Some(p)) => p.clone(),
            (None, None) => {
                return SecurityStep::Ask(SecurityQuestion::RootPassword);
            },
        };
        return SecurityStep::Done(
            SecurityConfig {
                mode,
                remote_user: owned("root"),
                container_user: None,
                remote_password: password.clone(),
                container_password: password,
                sudo_mode: owned("none"),
                network_mode,
                network_name,
            },
        );
    }
    let remote_user = match (&flags.remote_user, &answers.remote_user) {
        (Some(u), _) => u.clone(),
        (None, Some(u)) => u.clone(),
        (None, None) => {
            let defaults = get_security_defaults(template);
            return SecurityStep::Ask(SecurityQuestion::RemoteUser { default: defaults.remote_user });
        },
    };
    let (remote_password, container_password) = match (
        &flags.remote_password,
        &flags.container_password,
        &answers.passwords,
    ) {
        (Some(r), Some(c), _) => (r.clone(), c.clone()),
        (_, _, Some(p)) => (p.0.clone(), p.1.clone()),
        _ => {
            return SecurityStep::Ask(SecurityQuestion::Passwords { remote_user });
        },
    };
    let sudo_mode = match (&flags.sudo_mode, &answers.sudo_mode) {
        (Some(s), _) => to_lowercase(s.as_str()),
        (None, Some(s)) => s.clone(),
        (None, None) => {
            let defaults = get_security_defaults(template);
            let default = if str_eq(mode.as_str(), "developer") {
                owned("nopasswd")
            } else if str_eq(mode.as_str(), "secure") {
                owned("none")
            } else {
                defaults.sudo_mode
            };
            return SecurityStep::Ask(SecurityQuestion::SudoMode { default });
        },
    };
    let container_user = Some(remote_user.clone());
    SecurityStep::Done(
        SecurityConfig {
            mode,
            remote_user,
            container_user,
            remote_password,
            container_password,
            sudo_mode,
            network_mode,
            network_name,
        },
    )
}

// ---------------------------------------------------------------------------
// Choices offered in the menus
// ---------------------------------------------------------------------------

/// The security modes of the menu, in menu order.
pub open spec fn security_modes() -> Seq<Seq<char>> {
    seq!["developer"@, "secure"@, "root"@, "custom"@]
}

/// The sudo modes of the menu, in menu order.
pub open spec fn sudo_modes() -> Seq<Seq<char>> {
    seq!["nopasswd"@, "password"@, "none"@]
}

/// The network modes of the menu, in menu order.
pub open spec fn network_modes() -> Seq<Seq<char>> {
    seq!["bridge"@, "host"@, "none"@]
}

/// The menu entry of a value: its position, or the first entry when it is
/// not offered.
pub open spec fn menu_index(options: Seq<Seq<char>>, value: Seq<char>) -> nat {
    if options.len() > 0 && options[0] == value {
        0
    } else if options.len() > 1 && options[1] == value {
        1
    } else if options.len() > 2 && options[2] == value {
        2
    } else {
        0
    }
}

/// The value of a menu entry; the help entry and anything beyond map to the
/// first value.
pub open spec fn menu_value(options: Seq<Seq<char>>, index: int) -> Seq<char> {
    if 0 <= index < options.len() {
        options[index]
    } else {
        options[0]
    }
}

/// The entry preselected in the security menu for a default mode (only the
/// first three modes are looked up).
pub fn security_mode_index(default: &str) -> (r: usize)
    ensures
        r == menu_index(security_modes().take(3), default@),
{
    if str_eq(default, "developer") {
        0
    } else if str_eq(default, "secure") {
        1
    } else if str_eq(default, "root") {
        2
    } else {
        0
    }
}

/// The security mode chosen in the menu.
pub fn security_mode_at(index: usize) -> (r: String)
    ensures
        r@ == menu_value(security_modes(), index as int),
{
    match index {
        0 => owned("developer"),
        1 => owned("secure"),
        2 => owned("root"),
        3 => owned("custom"),
        _ => owned("developer"),
    }
}

/// The entry preselected in the sudo menu.
pub fn sudo_mode_index(default: &str) -> (r: usize)
    ensures
        r == menu_index(sudo_modes(), default@),
{
    if str_eq(default, "nopasswd") {
        0
    } else if str_eq(default, "password") {
        1
    } else if str_eq(default, "none") {
        2
    } else {
        0
    }
}

/// The sudo mode chosen in the menu.
pub fn sudo_mode_at(index: usize) -> (r: String)
    ensures
        r@ == menu_value(sudo_modes(), index as int),
{
    match index {
        0 => owned("nopasswd"),
        1 => owned("password"),
        2 => owned("none"),
        _ => owned("nopasswd"),
    }
}

/// The entry preselected in the network menu.
pub fn network_mode_index(default: &str) -> (r: usize)
    ensures
        r == menu_index(network_modes(), default@),
{
    if str_eq(default, "bridge") {
        0
    } else if str_eq(default, "host") {
        1
    } else if str_eq(default, "none") {
        2
    } else {
        0
    }
}

/// The network mode chosen in the menu.
pub fn network_mode_at(index: usize) -> (r: String)
    ensures
        r@ == menu_value(network_modes(), index as int),
{
    match index {
        0 => owned("bridge"),
        1 => owned("host"),
        2 => owned("none"),
        _ => owned("bridge"),
    }
}

/// Only the bridge network can join an external shared network.
pub fn asks_shared_network(network_mode: &str) -> (r: bool)
    ensures
        r == (network_mode@ == "bridge"@),
{
    str_eq(network_mode, "bridge")
}

// ---------------------------------------------------------------------------
// Laws
// ---------------------------------------------------------------------------

/// Whatever the flags and answers, finished settings run the container as
/// the remote user, except in root mode, where there is no container user;
/// and a shared network comes only with the bridge network.
pub proof fn lemma_container_user_follows_mode(template: Seq<char>, f: SecurityFlags, a: SecurityAnswers)
    requires
        network_answer_ok(a),
    ensures
        next_step(template, f, a) matches StepSpec::Done(s) ==> {
            &&& s.mode == "root"@ ==> s.container_user is None
            &&& s.mode != "root"@ ==> s.container_user == Some(s.remote_user)
            &&& s.network_name is Some ==> s.network_mode == "bridge"@
        },
{
}

/// When root mode is chosen interactively, everything runs as root and the
/// remote user's password is root's password.
pub proof fn lemma_interactive_root_shares_password(
    template: Seq<char>,
    f: SecurityFlags,
    a: SecurityAnswers,
)
    requires
        f.mode is None,
        a.mode matches Some(m) && m@ == "root"@,
    ensures
        next_step(template, f, a) matches StepSpec::Done(s) ==> {
            &&& s.remote_user == "root"@
            &&& s.container_user is None
            &&& s.remote_password == s.container_password
            &&& s.sudo_mode == "none"@
        },
{
}

/// The entry preselected for a value offered in a menu shows that value
/// again when it is chosen.
pub proof fn lemma_menu_round_trip(m: Seq<char>)
    ensures
        security_modes().take(3).contains(m) ==> menu_value(
            security_modes(),
            menu_index(security_modes().take(3), m) as int,
        ) == m,
        sudo_modes().contains(m) ==> menu_value(sudo_modes(), menu_index(sudo_modes(), m) as int)
            == m,
        network_modes().contains(m) ==> menu_value(
            network_modes(),
            menu_index(network_modes(), m) as int,
        ) == m,
{
    if security_modes().take(3).contains(m) {
        let i = choose|i: int| 0 <= i < 3 && security_modes().take(3)[i] == m;
        assert(security_modes().take(3)[i] == security_modes()[i]);
    }
}

/// With the mode on the command line and no sudo flag, the sudo mode follows
/// the mode (compared in lower case): password-less sudo for `developer`, no
/// sudo for `secure` and `root`, and for any other mode the template's
/// default: none for Android templates, password-less otherwise.
pub proof fn lemma_mode_flag_sets_sudo(template: Seq<char>, f: SecurityFlags, a: SecurityAnswers)
    requires
        f.mode is Some,
        f.sudo_mode is None,
        f.network_mode is Some || a.network is Some,
    ensures
        next_step(template, f, a) is Done,
        lowercase_of(f.mode->0@) == "developer"@ ==> next_step(template, f, a)->Done_0.sudo_mode
            == "nopasswd"@,
        lowercase_of(f.mode->0@) == "secure"@ || lowercase_of(f.mode->0@) == "root"@
            ==> next_step(template, f, a)->Done_0.sudo_mode == "none"@,
        lowercase_of(f.mode->0@) != "developer"@ && lowercase_of(f.mode->0@) != "secure"@
            && lowercase_of(f.mode->0@) != "root"@ ==> next_step(template, f, a)->Done_0.sudo_mode
            == if starts_with(template, "android/"@) {
            "none"@
        } else {
            "nopasswd"@
        },
{
    reveal_strlit("developer");
    reveal_strlit("secure");
    reveal_strlit("root");
    assert("secure"@.len() != "developer"@.len() && "root"@.len() != "developer"@.len());
    let network = network_of(f, a)->0;
    assert(network_of(f, a) is Some);
    assert(next_step(template, f, a) == StepSpec::Done(from_flags_spec(template, f, network)));
    let m = lowercase_of(f.mode->0@);
    assert(from_flags_spec(template, f, network).sudo_mode == flag_mode_sudo(m, template));
}

} // verus!
