//! The credentials file that can be saved after a container is generated.
//!
//! The record written to the file and the file's name are built here; where
//! the file goes and how it is written is left to the caller.
use vstd::prelude::*;

use crate::security::SecurityConfig;
use crate::text::{is_alphanumeric, is_alphanumeric_char, push_char, push_str};

verus! {

/// What the credentials file holds.
#[derive(Debug)]
pub struct CredentialsFile {
    pub project: String,
    pub template: String,
    pub mode: String,
    pub remote_user: String,
    pub remote_password: String,
    pub container_password: String,
}

impl CredentialsFile {
    /// The credentials of a project generated from a template with the given
    /// security settings.
    pub fn new(project_name: &str, template: &str, security: &SecurityConfig) -> (r: Self)
        ensures
            r.project@ == project_name@,
            r.template@ == template@,
            r.mode@ == security.mode@,
            r.remote_user@ == security.remote_user@,
            r.remote_password@ == security.remote_password@,
            r.container_password@ == security.container_password@,
    {
        CredentialsFile {
            project: project_name.to_string(),
            template: template.to_string(),
            mode: security.mode.clone(),
            remote_user: security.remote_user.clone(),
            remote_password: security.remote_password.clone(),
            container_password: security.container_password.clone(),
        }
    }
}

/// A character kept in a file name, or `_` in its place.
pub open spec fn file_name_char(c: char) -> char {
    if is_alphanumeric_char(c) {
        c
    } else {
        '_'
    }
}

/// A project name with every character that is not alphanumeric replaced by
/// `_`.
pub open spec fn sanitized(name: Seq<char>) -> Seq<char> {
    name.map_values(|c: char| file_name_char(c))
}

/// The name of a project's credentials file: `<sanitized project>.json`.
pub open spec fn credentials_name(project: Seq<char>) -> Seq<char> {
    sanitized(project) + ".json"@
}

/// The name of the credentials file of a project (see `credentials_name`).
pub fn credentials_file_name(project_name: &str) -> (r: String)
    ensures
        r@ == credentials_name(project_name@),
{
    let mut out = String::new();
    let ghost cs = project_name@;
    for c in it: project_name.chars()
        invariant
            it.seq() == cs,
            out@ == sanitized(cs.take(it.index() as int)),
    {
        let ghost k = it.index();
        if is_alphanumeric(c) {
            push_char(&mut out, c);
        } else {
            push_char(&mut out, '_');
        }
        proof {
            assert(cs.take(k + 1) == cs.take(k as int).push(cs[k as int]));
            assert(sanitized(cs.take(k + 1)) =~= sanitized(cs.take(k as int)).push(
                file_name_char(cs[k as int]),
            ));
        }
    }
    assert(cs.take(cs.len() as int) == cs);
    push_str(&mut out, ".json");
    out
}

/// Every character of a credentials file name before `.json` is alphanumeric
/// or `_`, and there is one for each character of the project name.
pub proof fn lemma_credentials_name_chars(project: Seq<char>)
    ensures
        credentials_name(project).len() == project.len() + 5,
        forall|i: int|
            0 <= i < project.len() ==> {
                let c = #[trigger] credentials_name(project)[i];
                c == project[i] && is_alphanumeric_char(c) || c == '_' && !is_alphanumeric_char(
                    project[i],
                )
            },
        credentials_name(project).subrange(project.len() as int, project.len() + 5int) == ".json"@,
{
    reveal_strlit(".json");
    let r = credentials_name(project);
    assert(r.subrange(project.len() as int, project.len() + 5int) =~= ".json"@);
}

} // verus!
