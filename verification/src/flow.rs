//! The decisions of the interactive commands: which value wins, when to
//! ask, and what an answer means. The questions themselves are asked by the
//! caller, which hands the answers back here.
use vstd::prelude::*;

use crate::cache::{opt_view, GitConfig};
use crate::json::{find_member, first_index, json_parsed, lemma_object_model, parse_json, Json, JsonValue};
use crate::security::SecurityConfig;
use crate::text::{chars_of, owned, push_str, str_eq, string_of, trim_chars, trim_ws};
use crate::tui::byte_len;

verus! {

// ---------------------------------------------------------------------------
// Answers typed by the user
// ---------------------------------------------------------------------------

/// A typed answer without surrounding white space (`str::trim`).
pub fn trimmed(input: &str) -> (r: String)
    ensures
        r@ == trim_ws(input@),
{
    let cs = chars_of(input);
    let t = trim_chars(cs.as_slice());
    string_of(t.as_slice())
}

/// A typed answer without surrounding white space, or `None` when nothing
/// but white space was typed.
pub fn trimmed_answer(input: &str) -> (r: Option<String>)
    ensures
        match r {
            Some(s) => s@ == trim_ws(input@) && s@.len() > 0,
            None => trim_ws(input@).len() == 0,
        },
{
    let t = trimmed(input);
    if t.as_str().is_empty() {
        None
    } else {
        Some(t)
    }
}

/// Whether a typed answer asks for the help box: `?help`, white space aside.
pub fn is_help_request(input: &str) -> (r: bool)
    ensures
        r == (trim_ws(input@) == "?help"@),
{
    let t = trimmed(input);
    str_eq(t.as_str(), "?help")
}

/// A choice in a menu whose last item, after `option_count` options, opens
/// the help box: `None` for the help item, else the chosen option.
pub fn menu_choice(selection: usize, option_count: usize) -> (r: Option<usize>)
    ensures
        selection == option_count ==> r is None,
        selection != option_count ==> r == Some(selection),
{
    if selection == option_count {
        None
    } else {
        Some(selection)
    }
}

// ---------------------------------------------------------------------------
// The Git identity
// ---------------------------------------------------------------------------

/// Where a Git value comes from.
pub enum GitValue {
    /// Given on the command line.
    Given(String),
    /// Saved in the configuration.
    Saved(String),
    /// To be asked.
    Ask,
}

/// The Git name or e-mail for a new container: the flag wins, then the
/// saved value; with neither it is asked.
pub fn choose_git_value(flag: Option<&str>, saved: &Option<String>) -> (r: GitValue)
    ensures
        match flag {
            Some(f) => r matches GitValue::Given(v) && v@ == f@,
            None => match saved {
                Some(s) => r matches GitValue::Saved(v) && v@ == s@,
                None => r is Ask,
            },
        },
{
    match flag {
        Some(f) => GitValue::Given(owned(f)),
        None => match saved {
            Some(s) => GitValue::Saved(s.clone()),
            None => GitValue::Ask,
        },
    }
}

/// Whether `devc config` asks for the identity: no flag is given and no name
/// is saved.
pub fn config_needs_prompt(name_flag: Option<&str>, email_flag: Option<&str>, current: &GitConfig) -> (r:
    bool)
    ensures
        r == (name_flag is None && email_flag is None && current.name is None),
{
    name_flag.is_none() && email_flag.is_none() && current.name.is_none()
}

/// The identity to save: each value given, or else the saved one; `None`
/// unless both a name and an e-mail are known. With no values given this is
/// the saved identity, as `devc config --show` prints it.
pub fn resolve_identity(name: Option<String>, email: Option<String>, current: &GitConfig) -> (r:
    Option<(String, String)>)
    ensures
        ({
            let n = match name {
                Some(v) => Some(v@),
                None => opt_view(current.name),
            };
            let m = match email {
                Some(v) => Some(v@),
                None => opt_view(current.email),
            };
            match r {
                Some(p) => n == Some(p.0@) && m == Some(p.1@),
                None => n is None || m is None,
            }
        }),
{
    let n = match name {
        Some(v) => Some(v),
        None => current.name.clone(),
    };
    let m = match email {
        Some(v) => Some(v),
        None => current.email.clone(),
    };
    match (n, m) {
        (Some(a), Some(b)) => Some((a, b)),
        _ => None,
    }
}

// ---------------------------------------------------------------------------
// Passwords typed by the user
// ---------------------------------------------------------------------------

/// What a typed password leads to.
#[derive(Debug, PartialEq, Eq, Structural)]
pub enum PasswordCheck {
    /// Nothing was typed: a password is generated.
    Generate,
    /// Shorter than six bytes: asked again.
    TooShort,
    /// Long enough: to be typed a second time.
    Confirm,
}

/// What a typed password leads to: an empty one is generated, one shorter
/// than six bytes (UTF-8) is refused, any other is to be confirmed.
pub fn check_password(entered: &str) -> (r: PasswordCheck)
    ensures
        entered@.len() == 0 ==> r == PasswordCheck::Generate,
        entered@.len() > 0 && byte_len(entered@) < 6 ==> r == PasswordCheck::TooShort,
        entered@.len() > 0 && byte_len(entered@) >= 6 ==> r == PasswordCheck::Confirm,
{
    if entered.is_empty() {
        PasswordCheck::Generate
    } else if entered.len() < 6 {
        PasswordCheck::TooShort
    } else {
        PasswordCheck::Confirm
    }
}

/// Whether the confirmation repeats the password.
pub fn passwords_match(entered: &str, confirmation: &str) -> (r: bool)
    ensures
        r == (entered@ == confirmation@),
{
    str_eq(entered, confirmation)
}

// ---------------------------------------------------------------------------
// Credentials after generation
// ---------------------------------------------------------------------------

/// Whether and where the credentials are saved, from `--save-credentials`.
#[derive(Debug)]
pub enum SaveChoice {
    /// Not saved (an empty flag).
    Skip,
    /// No flag: the user is asked.
    Ask,
    /// `default`: the default path of the project.
    DefaultPath,
    /// Any other value: that path.
    Path(String),
}

/// What `--save-credentials` asks for: nothing when it is empty, the default
/// path for `default`, else the path given; without the flag the user is asked.
pub fn save_choice(flag: Option<&str>) -> (r: SaveChoice)
    ensures
        match flag {
            None => r is Ask,
            Some(f) => if f@.len() == 0 {
                r is Skip
            } else if f@ == "default"@ {
                r is DefaultPath
            } else {
                r matches SaveChoice::Path(p) && p@ == f@
            },
        },
{
    match flag {
        None => SaveChoice::Ask,
        Some(f) => if f.is_empty() {
            SaveChoice::Skip
        } else if str_eq(f, "default") {
            SaveChoice::DefaultPath
        } else {
            SaveChoice::Path(owned(f))
        },
    }
}

/// The labelled values shown after a container is generated.
pub open spec fn credential_lines(mode: Seq<char>, user: Seq<char>, user_password: Seq<char>, root_password: Seq<char>) -> Seq<(Seq<char>, Seq<char>)> {
    (if mode == "root"@ {
        Seq::empty()
    } else {
        seq![("Usuario de desarrollo"@, user), ("Contraseña de desarrollo"@, user_password)]
    }) + seq![("Contraseña de root"@, root_password)]
}

/// The credentials to show after generation, as label and value: shown only
/// when a password was generated (not both given as flags); the development
/// user and password are left out in root mode.
pub fn credentials_to_show(
    security: &SecurityConfig,
    remote_password_given: bool,
    container_password_given: bool,
) -> (r: Option<Vec<(String, String)>>)
    ensures
        remote_password_given && container_password_given ==> r is None,
        !(remote_password_given && container_password_given) ==> (r matches Some(v)
            && v@.map_values(|p: (String, String)| (p.0@, p.1@)) == credential_lines(
            security.mode@,
            security.remote_user@,
            security.remote_password@,
            security.container_password@,
        )),
{
    if remote_password_given && container_password_given {
        return None;
    }
    let mut v: Vec<(String, String)> = Vec::new();
    if !str_eq(security.mode.as_str(), "root") {
        v.push((owned("Usuario de desarrollo"), security.remote_user.clone()));
        v.push((owned("Contraseña de desarrollo"), security.remote_password.clone()));
    }
    v.push((owned("Contraseña de root"), security.container_password.clone()));
    assert(v@.map_values(|p: (String, String)| (p.0@, p.1@)) =~= credential_lines(
        security.mode@,
        security.remote_user@,
        security.remote_password@,
        security.container_password@,
    ));
    Some(v)
}

// ---------------------------------------------------------------------------
// Template descriptions
// ---------------------------------------------------------------------------

/// The fallback description of a template.
pub open spec fn default_description(template: Seq<char>) -> Seq<char> {
    "Development container template ("@ + template + ")"@
}

/// The description of a template: the `name` of its document when that is a
/// string, else the fallback.
pub open spec fn description_spec(doc: Option<Json>, template: Seq<char>) -> Seq<char> {
    match doc {
        Some(Json::Object(e)) => match first_index(e, "name"@) {
            Some(i) => match e[i].1 {
                Json::Str(s) => s,
                _ => default_description(template),
            },
            None => default_description(template),
        },
        _ => default_description(template),
    }
}

/// The description of a template from its `devcontainer.json` as read, or
/// `None` when it could not be read (see `description_spec`).
pub fn get_template_description(content: Option<&str>, template: &str) -> (r: String)
    ensures
        r@ == description_spec(
            match content {
                Some(t) => json_parsed(t@),
                None => None,
            },
            template@,
        ),
{
    let doc = match content {
        Some(t) => parse_json(t),
        None => None,
    };
    description_of(&doc, template)
}

/// The description of a template from its parsed document (see
/// `description_spec`).
pub fn description_of(doc: &Option<JsonValue>, template: &str) -> (r: String)
    ensures
        r@ == description_spec(
            match doc {
                Some(v) => Some(v@),
                None => None,
            },
            template@,
        ),
{
    match doc {
        Some(JsonValue::Object(e)) => {
            proof {
                lemma_object_model(*e);
            }
            match find_member(e, "name") {
                Some(i) => match &e[i].1 {
                    JsonValue::String(s) => {
                        return s.clone();
                    },
                    _ => {},
                },
                None => {},
            }
        },
        _ => {},
    }
    let mut out = owned("Development container template (");
    push_str(&mut out, template);
    push_str(&mut out, ")");
    out
}

} // verus!
