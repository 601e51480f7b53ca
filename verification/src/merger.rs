//! Personalising a copied template: the project name and the Git identity go
//! into `devcontainer.json`, which is then written with its well-known
//! members first; the project name also goes into `docker-compose.yml`.
use vstd::prelude::*;

use crate::field_order::{field_order_spec, lemma_field_order_distinct, FieldOrder};
use crate::json::{
    deeper, find_member, first_index, json_parsed, parse_json, lemma_first_index,
    lemma_first_index_spec, lemma_insert_member_lookup, lemma_insert_member_sorted, keys_sorted, lookup, insert_member, insert_member_exec, is_first_index,
    lemma_members_update, lemma_object_body_step, lemma_object_model, members_model, model,
    object_body, render, spaces, write_json, write_member, Json, JsonValue,
};
use crate::text::{
    contains_seq, lemma_lex_irreflexive, lemma_replaced_absent, lex_lt, owned, chars_of, escape_chars, escaped, lowercase_of, push_chars, push_str,
    replace_str, replaced, str_eq, string_of, to_lowercase,
};

verus! {

/// Writes the project's settings into a copied template.
pub struct ConfigMerger;

/// What was found of `.devcontainer/devcontainer.json`.
pub enum DevcontainerJson {
    /// There is no such file.
    Missing,
    /// The file is not JSON.
    Unparsable,
    /// The file's document.
    Parsed(JsonValue),
}

/// Why a template cannot be personalised.
#[derive(Debug, PartialEq, Eq, Structural)]
pub enum MergeError {
    /// The template has no `.devcontainer` folder.
    DevcontainerDirMissing,
    /// `devcontainer.json` could not be parsed.
    InvalidDevcontainerJson,
}

impl MergeError {
    /// The message shown for the error.
    pub fn message(&self) -> (r: String)
        ensures
            r@ == match self {
                MergeError::DevcontainerDirMissing => "Invalid template: .devcontainer folder not found"@,
                MergeError::InvalidDevcontainerJson => "Failed to parse devcontainer.json"@,
            },
    {
        match self {
            MergeError::DevcontainerDirMissing => owned("Invalid template: .devcontainer folder not found"),
            MergeError::InvalidDevcontainerJson => owned("Failed to parse devcontainer.json"),
        }
    }
}

/// The view of an optional string.
pub open spec fn opt_view(o: Option<&str>) -> Option<Seq<char>> {
    match o {
        Some(s) => Some(s@),
        None => None,
    }
}

// ---------------------------------------------------------------------------
// Settings
// ---------------------------------------------------------------------------

/// The environment members that carry the Git identity, added to `env`.
pub open spec fn with_git_env(env: Seq<(Seq<char>, Json)>, name: Seq<char>, email: Seq<char>) -> Seq<
    (Seq<char>, Json),
> {
    insert_member(
        insert_member(env, "GIT_USER_NAME"@, Json::Str(name)),
        "GIT_USER_EMAIL"@,
        Json::Str(email),
    )
}

/// The title of the container of a project.
pub open spec fn container_title(project: Seq<char>) -> Seq<char> {
    project + " DevContainer"@
}

/// The members after the project's title replaced an existing `name`.
pub open spec fn with_title(e: Seq<(Seq<char>, Json)>, project: Seq<char>) -> Seq<(Seq<char>, Json)> {
    match first_index(e, "name"@) {
        Some(i) => e.update(i, (e[i].0, Json::Str(container_title(project)))),
        None => e,
    }
}

/// The members after the Git identity went into `containerEnv`: into the
/// existing object if there is one (nothing happens if `containerEnv` holds
/// something else), or into a new `containerEnv`. Without both a name and an
/// e-mail nothing changes.
pub open spec fn with_git_identity(
    e: Seq<(Seq<char>, Json)>,
    git_name: Option<Seq<char>>,
    git_email: Option<Seq<char>>,
) -> Seq<(Seq<char>, Json)> {
    match (git_name, git_email) {
        (Some(n), Some(m)) => match first_index(e, "containerEnv"@) {
            Some(i) => match e[i].1 {
                Json::Object(env) => e.update(i, (e[i].0, Json::Object(with_git_env(env, n, m)))),
                _ => e,
            },
            None => insert_member(
                e,
                "containerEnv"@,
                Json::Object(with_git_env(Seq::empty(), n, m)),
            ),
        },
        _ => e,
    }
}

/// The document with the project's settings: only an object changes.
pub open spec fn devcontainer_settings(
    doc: Json,
    project: Seq<char>,
    git_name: Option<Seq<char>>,
    git_email: Option<Seq<char>>,
) -> Json {
    match doc {
        Json::Object(e) => Json::Object(
            with_git_identity(with_title(e, project), git_name, git_email),
        ),
        _ => doc,
    }
}

// ---------------------------------------------------------------------------
// Ordered writing
// ---------------------------------------------------------------------------

/// Whether a key is one of the well-known member names.
pub open spec fn is_known_field(k: Seq<char>) -> bool {
    field_order_spec().contains(k)
}

/// The members named by the first `n` well-known names, in that order.
pub open spec fn known_members(e: Seq<(Seq<char>, Json)>, n: nat) -> Seq<(Seq<char>, Json)>
    decreases n,
{
    if n == 0 {
        Seq::empty()
    } else {
        known_members(e, (n - 1) as nat) + match first_index(e, field_order_spec()[n - 1]) {
            Some(i) => seq![e[i]],
            None => Seq::empty(),
        }
    }
}

/// The members among the first `n` whose names are not well known, in order.
pub open spec fn other_members(e: Seq<(Seq<char>, Json)>, n: nat) -> Seq<(Seq<char>, Json)>
    decreases n,
{
    if n == 0 || n > e.len() {
        Seq::empty()
    } else {
        other_members(e, (n - 1) as nat) + if is_known_field(e[n - 1].0) {
            Seq::empty()
        } else {
            seq![e[n - 1]]
        }
    }
}

/// The members in writing order: the well-known ones in their fixed order,
/// then all others in the object's order.
pub open spec fn ordered_members(e: Seq<(Seq<char>, Json)>) -> Seq<(Seq<char>, Json)> {
    known_members(e, field_order_spec().len()) + other_members(e, e.len())
}

/// The text of `devcontainer.json`: an object's members in writing order,
/// one per line, and a final newline.
pub open spec fn ordered_text(v: Json) -> Seq<char> {
    match v {
        Json::Object(e) => seq!['{', '\n'] + object_body(
            ordered_members(e),
            ordered_members(e).len(),
            Seq::empty(),
        ) + seq!['\n', '}', '\n'],
        _ => render(v, Seq::empty()) + seq!['\n'],
    }
}

/// The members at the given positions.
pub open spec fn picked(m: Seq<(Seq<char>, Json)>, idx: Seq<usize>) -> Seq<(Seq<char>, Json)> {
    idx.map_values(|i: usize| m[i as int])
}

/// Whether `key` is one of the names in `order`.
fn order_contains(order: &[&str], key: &String) -> (r: bool)
    requires
        order@.len() == field_order_spec().len(),
        forall|i: int| 0 <= i < order@.len() ==> #[trigger] order@[i]@ == field_order_spec()[i],
    ensures
        r == is_known_field(key@),
{
    let mut j: usize = 0;
    while j < order.len()
        invariant
            j <= order@.len(),
            order@.len() == field_order_spec().len(),
            forall|i: int| 0 <= i < order@.len() ==> #[trigger] order@[i]@ == field_order_spec()[i],
            forall|i: int| 0 <= i < j ==> field_order_spec()[i] != key@,
        decreases order.len() - j,
    {
        if str_eq(order[j], key.as_str()) {
            assert(field_order_spec()[j as int] == key@);
            return true;
        }
        j += 1;
    }
    false
}

impl ConfigMerger {
    /// Escapes a string for a JSON string literal (see `escaped`).
    pub fn escape_string(s: &str) -> (r: String)
        ensures
            r@ == escaped(s@),
    {
        let sc = chars_of(s);
        let e = escape_chars(sc.as_slice());
        string_of(e.as_slice())
    }

    /// Appends the text of a value at indentation level `indent`.
    pub fn write_value(output: &mut String, value: &JsonValue, indent: usize)
        ensures
            final(output)@ == old(output)@ + render(value@, spaces(indent as nat)),
    {
        let mut pad: Vec<char> = Vec::new();
        let mut i: usize = 0;
        while i < indent
            invariant
                i <= indent,
                pad@ == spaces(i as nat),
            decreases indent - i,
        {
            pad = deeper(&pad);
            i += 1;
        }
        let mut out: Vec<char> = Vec::new();
        write_json(&mut out, value, &pad);
        push_chars(output, out.as_slice());
        assert(out@ == Seq::<char>::empty() + render(value@, spaces(indent as nat)));
    }

    /// The text of `devcontainer.json` for a document (see `ordered_text`).
    pub fn serialize_ordered(value: &JsonValue) -> (r: String)
        ensures
            r@ == ordered_text(value@),
    {
        let mut out: Vec<char> = Vec::new();
        match value {
            JsonValue::Object(e) => {
                proof {
                    lemma_object_model(*e);
                }
                let ghost m = members_model(e@);
                let order = FieldOrder::get_order();
                let mut idx: Vec<usize> = Vec::new();
                let ghost mut sel: Seq<(Seq<char>, Json)> = Seq::empty();
                assert(picked(m, idx@) =~= sel);
                let mut j: usize = 0;
                while j < order.len()
                    invariant
                        j <= order@.len(),
                        order@.len() == field_order_spec().len(),
                        forall|i: int|
                            0 <= i < order@.len() ==> #[trigger] order@[i]@ == field_order_spec()[i],
                        m == members_model(e@),
                        sel == known_members(m, j as nat),
                        sel == picked(m, idx@),
                        forall|t: int| 0 <= t < idx@.len() ==> #[trigger] idx@[t] < e@.len(),
                    decreases order.len() - j,
                {
                    match find_member(e, order[j]) {
                        Some(i) => {
                            let ghost before = idx@;
                            idx.push(i);
                            proof {
                                sel = sel.push(m[i as int]);
                                assert(picked(m, idx@) =~= picked(m, before).push(m[i as int]));
                            }
                        },
                        None => {},
                    }
                    j += 1;
                    assert(sel =~= known_members(m, j as nat));
                }
                let mut i: usize = 0;
                let ghost known = sel;
                while i < e.len()
                    invariant
                        i <= e@.len(),
                        order@.len() == field_order_spec().len(),
                        forall|k: int|
                            0 <= k < order@.len() ==> #[trigger] order@[k]@ == field_order_spec()[k],
                        m == members_model(e@),
                        known == known_members(m, field_order_spec().len()),
                        sel == known + other_members(m, i as nat),
                        sel == picked(m, idx@),
                        forall|t: int| 0 <= t < idx@.len() ==> #[trigger] idx@[t] < e@.len(),
                    decreases e.len() - i,
                {
                    if !order_contains(order, &e[i].0) {
                        let ghost before = idx@;
                        idx.push(i);
                        proof {
                            sel = sel.push(m[i as int]);
                            assert(picked(m, idx@) =~= picked(m, before).push(m[i as int]));
                        }
                    }
                    i += 1;
                    assert(sel =~= known + other_members(m, i as nat));
                }
                assert(sel == ordered_members(m));
                out.push('{');
                out.push('\n');
                let empty: Vec<char> = Vec::new();
                let mut t: usize = 0;
                while t < idx.len()
                    invariant
                        t <= idx@.len(),
                        m == members_model(e@),
                        sel == picked(m, idx@),
                        forall|u: int| 0 <= u < idx@.len() ==> #[trigger] idx@[u] < e@.len(),
                        empty@ == Seq::<char>::empty(),
                        out@ == seq!['{', '\n'] + object_body(sel, t as nat, Seq::empty()),
                    decreases idx.len() - t,
                {
                    if t > 0 {
                        out.push(',');
                        out.push('\n');
                    }
                    let k = idx[t];
                    assert(k < e@.len());
                    write_member(&mut out, &e[k].0, &e[k].1, &empty);
                    proof {
                        lemma_object_body_step(sel, (t + 1) as nat, Seq::empty());
                        assert(sel[t as int] == (e@[k as int].0@, model(e@[k as int].1)));
                        assert(out@ =~= seq!['{', '\n'] + object_body(sel, (t + 1) as nat, Seq::empty()));
                    }
                    t += 1;
                }
                out.push('\n');
                out.push('}');
                out.push('\n');
                assert(out@ =~= ordered_text(value@));
            },
            _ => {
                let empty: Vec<char> = Vec::new();
                write_json(&mut out, value, &empty);
                out.push('\n');
                assert(out@ =~= ordered_text(value@));
            },
        }
        string_of(out.as_slice())
    }

    /// Puts the project's settings into the document (see
    /// `devcontainer_settings`): the title `"<project> DevContainer"` and,
    /// when both are given, the Git name and e-mail in `containerEnv`.
    pub fn apply_modifications(
        json: &mut JsonValue,
        project_name: &str,
        git_name: Option<&str>,
        git_email: Option<&str>,
    )
        ensures
            final(json)@ == devcontainer_settings(
                old(json)@,
                project_name@,
                opt_view(git_name),
                opt_view(git_email),
            ),
    {
        let mut doc = JsonValue::Null;
        std::mem::swap(&mut doc, json);
        let updated = settings_of(doc, project_name, git_name, git_email);
        *json = updated;
    }

    /// Personalises `devcontainer.json`, given whether the template has a
    /// `.devcontainer` folder and the text of the file, if there is one: fails
    /// when there is no such folder or the text is not JSON, gives nothing to
    /// write when there is no file, and otherwise gives the new text of the file.
    pub fn merge_template(
        devcontainer_dir_exists: bool,
        content: Option<&str>,
        project_name: &str,
        git_name: Option<&str>,
        git_email: Option<&str>,
    ) -> (r: Result<Option<String>, MergeError>)
        ensures
            !devcontainer_dir_exists ==> r == Err::<Option<String>, MergeError>(
                MergeError::DevcontainerDirMissing,
            ),
            devcontainer_dir_exists ==> (content matches Some(text) ==> (json_parsed(
                text@,
            ) matches Some(Json::Object(e)) ==> keys_sorted(e))),
            devcontainer_dir_exists ==> match content {
                None => r == Ok::<Option<String>, MergeError>(None),
                Some(text) => match json_parsed(text@) {
                    None => r == Err::<Option<String>, MergeError>(
                        MergeError::InvalidDevcontainerJson,
                    ),
                    Some(v) => r matches Ok(Some(t)) && t@ == ordered_text(
                        devcontainer_settings(v, project_name@, opt_view(git_name), opt_view(git_email)),
                    ),
                },
            },
    {
        if !devcontainer_dir_exists {
            return Err(MergeError::DevcontainerDirMissing);
        }
        let document = match content {
            None => DevcontainerJson::Missing,
            Some(text) => match parse_json(text) {
                Some(v) => DevcontainerJson::Parsed(v),
                None => DevcontainerJson::Unparsable,
            },
        };
        Self::merge_document(true, document, project_name, git_name, git_email)
    }

    /// Personalises a document that was read from `devcontainer.json` (see
    /// `merge_template`): the same outcome for each thing that was found.
    pub fn merge_document(
        devcontainer_dir_exists: bool,
        document: DevcontainerJson,
        project_name: &str,
        git_name: Option<&str>,
        git_email: Option<&str>,
    ) -> (r: Result<Option<String>, MergeError>)
        ensures
            !devcontainer_dir_exists ==> r == Err::<Option<String>, MergeError>(
                MergeError::DevcontainerDirMissing,
            ),
            devcontainer_dir_exists ==> match document {
                DevcontainerJson::Missing => r == Ok::<Option<String>, MergeError>(None),
                DevcontainerJson::Unparsable => r == Err::<Option<String>, MergeError>(
                    MergeError::InvalidDevcontainerJson,
                ),
                DevcontainerJson::Parsed(v) => r matches Ok(Some(t)) && t@ == ordered_text(
                    devcontainer_settings(v@, project_name@, opt_view(git_name), opt_view(git_email)),
                ),
            },
    {
        if !devcontainer_dir_exists {
            return Err(MergeError::DevcontainerDirMissing);
        }
        match document {
            DevcontainerJson::Missing => Ok(None),
            DevcontainerJson::Unparsable => Err(MergeError::InvalidDevcontainerJson),
            DevcontainerJson::Parsed(v) => {
                let mut doc = v;
                Self::apply_modifications(&mut doc, project_name, git_name, git_email);
                Ok(Some(Self::serialize_ordered(&doc)))
            },
        }
    }

    /// The new text of `docker-compose.yml`: every `testing_devcontainer`
    /// becomes the project name with `-` turned into `_`, in lower case.
    pub fn update_docker_compose(content: &str, project_name: &str) -> (r: String)
        ensures
            r@ == replaced(
                content@,
                "testing_devcontainer"@,
                lowercase_of(replaced(project_name@, "-"@, "_"@)),
            ),
    {
        proof {
            reveal_strlit("-");
            reveal_strlit("testing_devcontainer");
        }
        let underscored = replace_str(project_name, "-", "_");
        let lower = to_lowercase(underscored.as_str());
        replace_str(content, "testing_devcontainer", lower.as_str())
    }
}

proof fn lemma_remove_insert<A>(s: Seq<A>, i: int, x: A)
    requires
        0 <= i < s.len(),
    ensures
        s.remove(i).insert(i, x) == s.update(i, x),
{
    assert(s.remove(i).insert(i, x) =~= s.update(i, x));
}

/// The document with the project's settings (see `devcontainer_settings`).
fn settings_of(doc: JsonValue, project_name: &str, git_name: Option<&str>, git_email: Option<&str>) -> (r:
    JsonValue)
    ensures
        r@ == devcontainer_settings(doc@, project_name@, opt_view(git_name), opt_view(git_email)),
{
    match doc {
        JsonValue::Object(e0) => {
            let mut e = e0;
            proof {
                lemma_object_model(e0);
            }
            let ghost m0 = members_model(e@);
            match find_member(&e, "name") {
                Some(i) => {
                    let k = e[i].0.clone();
                    let mut title = owned(project_name);
                    push_str(&mut title, " DevContainer");
                    let ghost before = e@;
                    e.set(i, (k, JsonValue::String(title)));
                    proof {
                        lemma_members_update(before, i as int, (k, JsonValue::String(title)));
                    }
                },
                None => {},
            }
            let ghost m1 = members_model(e@);
            assert(m1 == with_title(m0, project_name@));
            match (git_name, git_email) {
                (Some(n), Some(mail)) => {
                    match find_member(&e, "containerEnv") {
                        Some(i) => {
                            let ghost before = e@;
                            let (k, val) = e.remove(i);
                            match val {
                                JsonValue::Object(env0) => {
                                    let mut env = env0;
                                    proof {
                                        lemma_object_model(env0);
                                    }
                                    insert_member_exec(&mut env, owned("GIT_USER_NAME"), JsonValue::String(owned(n)));
                                    insert_member_exec(&mut env, owned("GIT_USER_EMAIL"), JsonValue::String(owned(mail)));
                                    let newval = JsonValue::Object(env);
                                    proof {
                                        lemma_object_model(env);
                                    }
                                    e.insert(i, (k, newval));
                                    proof {
                                        lemma_remove_insert(before, i as int, (k, newval));
                                        lemma_members_update(before, i as int, (k, newval));
                                    }
                                },
                                other => {
                                    e.insert(i, (k, other));
                                    proof {
                                        lemma_remove_insert(before, i as int, (k, other));
                                        assert(e@ == before);
                                    }
                                },
                            }
                        },
                        None => {
                            let mut env: Vec<(String, JsonValue)> = Vec::new();
                            insert_member_exec(&mut env, owned("GIT_USER_NAME"), JsonValue::String(owned(n)));
                            insert_member_exec(&mut env, owned("GIT_USER_EMAIL"), JsonValue::String(owned(mail)));
                            proof {
                                lemma_object_model(env);
                                assert(members_model(Seq::<(String, JsonValue)>::empty()) =~= Seq::empty());
                            }
                            insert_member_exec(&mut e, owned("containerEnv"), JsonValue::Object(env));
                        },
                    }
                },
                _ => {},
            }
            let r = JsonValue::Object(e);
            proof {
                lemma_object_model(e);
            }
            r
        },
        other => other,
    }
}

/// A `docker-compose.yml` without the placeholder name is left as it is.
pub proof fn lemma_compose_without_placeholder(content: Seq<char>, project: Seq<char>)
    requires
        !contains_seq(content, "testing_devcontainer"@),
    ensures
        replaced(
            content,
            "testing_devcontainer"@,
            lowercase_of(replaced(project, "-"@, "_"@)),
        ) == content,
{
    lemma_replaced_absent(
        content,
        "testing_devcontainer"@,
        lowercase_of(replaced(project, "-"@, "_"@)),
    );
}

/// Giving a member a new value keeps every key where it was.
proof fn lemma_update_value_first_index(e: Seq<(Seq<char>, Json)>, i: int, v: Json, k: Seq<char>)
    requires
        0 <= i < e.len(),
    ensures
        first_index(e.update(i, (e[i].0, v)), k) == first_index(e, k),
{
    let u = e.update(i, (e[i].0, v));
    assert forall|j: int| 0 <= j < e.len() implies #[trigger] u[j].0 == e[j].0 by {}
    lemma_first_index_spec(e, k);
    match first_index(e, k) {
        Some(j) => {
            assert(is_first_index(u, k, j));
            lemma_first_index(u, k, j);
        },
        None => {
            lemma_first_index(u, k, 0);
        },
    }
}

/// Looking a key up after a member got a new value.
proof fn lemma_update_value_lookup(e: Seq<(Seq<char>, Json)>, i: int, v: Json, k: Seq<char>)
    requires
        0 <= i < e.len(),
        first_index(e, e[i].0) == Some(i),
    ensures
        k == e[i].0 ==> lookup(e.update(i, (e[i].0, v)), k) == Some(v),
        k != e[i].0 ==> lookup(e.update(i, (e[i].0, v)), k) == lookup(e, k),
{
    lemma_update_value_first_index(e, i, v, k);
    lemma_first_index_spec(e, k);
}

/// The identity members read back from an environment they were added to.
proof fn lemma_git_env_read_back(env: Seq<(Seq<char>, Json)>, n: Seq<char>, m: Seq<char>)
    ensures
        lookup(with_git_env(env, n, m), "GIT_USER_NAME"@) == Some(Json::Str(n)),
        lookup(with_git_env(env, n, m), "GIT_USER_EMAIL"@) == Some(Json::Str(m)),
{
    reveal_strlit("GIT_USER_NAME");
    reveal_strlit("GIT_USER_EMAIL");
    let first = insert_member(env, "GIT_USER_NAME"@, Json::Str(n));
    lemma_insert_member_lookup(env, "GIT_USER_NAME"@, Json::Str(n), "GIT_USER_EMAIL"@);
    lemma_insert_member_lookup(first, "GIT_USER_EMAIL"@, Json::Str(m), "GIT_USER_NAME"@);
    assert("GIT_USER_NAME"@ != "GIT_USER_EMAIL"@) by {
        assert("GIT_USER_NAME"@.len() != "GIT_USER_EMAIL"@.len());
    }
}

/// What a personalised document reads back: the project name as given,
/// followed by ` DevContainer`, under `name` when the template has a `name`; the Git name and e-mail in
/// `containerEnv` when both are given and `containerEnv` is absent or an
/// object; `containerEnv` as it was otherwise; every other member as it was.
pub proof fn lemma_settings_read_back(
    e: Seq<(Seq<char>, Json)>,
    project: Seq<char>,
    git_name: Option<Seq<char>>,
    git_email: Option<Seq<char>>,
)
    ensures
        devcontainer_settings(Json::Object(e), project, git_name, git_email) matches Json::Object(r)
            && {
            &&& lookup(e, "name"@) is Some ==> lookup(r, "name"@) == Some(
                Json::Str(project + " DevContainer"@),
            )
            &&& lookup(e, "name"@) is None ==> lookup(r, "name"@) is None
            &&& (git_name matches Some(n) && git_email matches Some(m) && (lookup(
                e,
                "containerEnv"@,
            ) is None || lookup(e, "containerEnv"@) matches Some(Json::Object(_)))) ==> (lookup(
                r,
                "containerEnv"@,
            ) matches Some(Json::Object(env)) && lookup(env, "GIT_USER_NAME"@) == Some(
                Json::Str(git_name->0),
            ) && lookup(env, "GIT_USER_EMAIL"@) == Some(Json::Str(git_email->0)))
            &&& (git_name is None || git_email is None || (lookup(e, "containerEnv"@) matches Some(
                v,
            ) && !(v is Object))) ==> lookup(r, "containerEnv"@) == lookup(e, "containerEnv"@)
            &&& forall|k: Seq<char>|
                k != "name"@ && k != "containerEnv"@ ==> #[trigger] lookup(r, k) == lookup(e, k)
        },
{
    reveal_strlit("name");
    reveal_strlit("containerEnv");
    assert("name"@ != "containerEnv"@) by {
        assert("name"@.len() != "containerEnv"@.len());
    }
    let t = with_title(e, project);
    // The title.
    lemma_first_index_spec(e, "name"@);
    assert forall|k: Seq<char>| k != "name"@ implies lookup(t, k) == lookup(e, k) by {
        if let Some(i) = first_index(e, "name"@) {
            lemma_update_value_lookup(e, i, Json::Str(container_title(project)), k);
        }
    }
    if let Some(i) = first_index(e, "name"@) {
        lemma_update_value_lookup(e, i, Json::Str(container_title(project)), "name"@);
    }
    // The identity.
    let r = with_git_identity(t, git_name, git_email);
    lemma_first_index_spec(t, "containerEnv"@);
    match (git_name, git_email) {
        (Some(n), Some(m)) => match first_index(t, "containerEnv"@) {
            Some(i) => match t[i].1 {
                Json::Object(env) => {
                    assert forall|k: Seq<char>| k != "containerEnv"@ implies lookup(r, k) == lookup(
                        t,
                        k,
                    ) by {
                        lemma_update_value_lookup(t, i, Json::Object(with_git_env(env, n, m)), k);
                    }
                    lemma_update_value_lookup(
                        t,
                        i,
                        Json::Object(with_git_env(env, n, m)),
                        "containerEnv"@,
                    );
                    lemma_git_env_read_back(env, n, m);
                },
                _ => {},
            },
            None => {
                let env = with_git_env(Seq::empty(), n, m);
                assert forall|k: Seq<char>| k != "containerEnv"@ implies lookup(r, k) == lookup(
                    t,
                    k,
                ) by {
                    lemma_insert_member_lookup(t, "containerEnv"@, Json::Object(env), k);
                }
                lemma_insert_member_lookup(t, "containerEnv"@, Json::Object(env), "name"@);
                lemma_git_env_read_back(Seq::empty(), n, m);
            },
        },
        _ => {},
    }
}

/// The members of an object have pairwise different keys.
pub open spec fn distinct_keys(e: Seq<(Seq<char>, Json)>) -> bool {
    forall|i: int, j: int| 0 <= i < j < e.len() ==> #[trigger] e[i].0 != #[trigger] e[j].0
}

/// The members picked for the first `n` well-known names are members of the
/// object named by those names, each name once.
proof fn lemma_known_members_shape(e: Seq<(Seq<char>, Json)>, n: nat)
    requires
        n <= field_order_spec().len(),
    ensures
        forall|p: int|
            0 <= p < known_members(e, n).len() ==> field_order_spec().take(n as int).contains(
                (#[trigger] known_members(e, n)[p]).0,
            ) && e.contains(known_members(e, n)[p]),
        distinct_keys(known_members(e, n)),
    decreases n,
{
    if n > 0 {
        let f = field_order_spec();
        lemma_known_members_shape(e, (n - 1) as nat);
        lemma_field_order_distinct();
        lemma_first_index_spec(e, f[n - 1]);
        let prev = known_members(e, (n - 1) as nat);
        let cur = known_members(e, n);
        assert forall|p: int| 0 <= p < prev.len() implies f.take(n as int).contains(
            #[trigger] prev[p].0,
        ) && prev[p].0 != f[n - 1] by {
            let t = choose|t: int| 0 <= t < n - 1 && #[trigger] f.take(n - 1)[t] == prev[p].0;
            assert(f.take(n as int)[t] == prev[p].0);
        }
        if let Some(i) = first_index(e, f[n - 1]) {
            assert(cur == prev.push(e[i]));
            assert(f.take(n as int)[n - 1] == f[n - 1]);
            assert(e[i] == e[i]);
            assert(e.contains(e[i]));
        } else {
            assert(cur == prev);
        }
    }
}

/// The other members among the first `n` are members of the object whose
/// names are not well known, each key once.
proof fn lemma_other_members_shape(e: Seq<(Seq<char>, Json)>, n: nat)
    requires
        distinct_keys(e),
        n <= e.len(),
    ensures
        forall|p: int|
            0 <= p < other_members(e, n).len() ==> exists|j: int|
                0 <= j < n && (#[trigger] other_members(e, n)[p]) == e[j],
        forall|p: int|
            0 <= p < other_members(e, n).len() ==> !is_known_field(
                (#[trigger] other_members(e, n)[p]).0,
            ),
        distinct_keys(other_members(e, n)),
    decreases n,
{
    if n > 0 {
        lemma_other_members_shape(e, (n - 1) as nat);
        let prev = other_members(e, (n - 1) as nat);
        assert forall|p: int| 0 <= p < prev.len() implies (#[trigger] prev[p]).0 != e[n - 1].0 by {
            let j = choose|j: int| 0 <= j < n - 1 && prev[p] == e[j];
        }
    }
}

/// A member picked for a name stays picked when more names are looked at.
proof fn lemma_known_members_grow(e: Seq<(Seq<char>, Json)>, m: nat, n: nat, x: (Seq<char>, Json))
    requires
        m <= n,
        known_members(e, m).contains(x),
    ensures
        known_members(e, n).contains(x),
    decreases n,
{
    if m < n {
        lemma_known_members_grow(e, m, (n - 1) as nat, x);
        let prev = known_members(e, (n - 1) as nat);
        let i = choose|i: int| 0 <= i < prev.len() && prev[i] == x;
        assert(known_members(e, n)[i] == x);
    }
}

/// A member kept among the first `m` stays kept among more.
proof fn lemma_other_members_grow(e: Seq<(Seq<char>, Json)>, m: nat, n: nat, x: (Seq<char>, Json))
    requires
        m <= n <= e.len(),
        other_members(e, m).contains(x),
    ensures
        other_members(e, n).contains(x),
    decreases n,
{
    if m < n {
        lemma_other_members_grow(e, m, (n - 1) as nat, x);
        let prev = other_members(e, (n - 1) as nat);
        let i = choose|i: int| 0 <= i < prev.len() && prev[i] == x;
        assert(other_members(e, n)[i] == x);
    }
}

/// When the keys of an object differ, `devcontainer.json` is written with
/// every member of the object exactly once: each member is written, nothing
/// else is, and no key is written twice.
pub proof fn lemma_ordered_members_complete(e: Seq<(Seq<char>, Json)>)
    requires
        distinct_keys(e),
    ensures
        forall|j: int| 0 <= j < e.len() ==> ordered_members(e).contains(#[trigger] e[j]),
        forall|x: (Seq<char>, Json)| #[trigger] ordered_members(e).contains(x) ==> e.contains(x),
        distinct_keys(ordered_members(e)),
{
    let f = field_order_spec();
    let known = known_members(e, f.len());
    let others = other_members(e, e.len());
    lemma_known_members_shape(e, f.len());
    lemma_other_members_shape(e, e.len());
    assert(f.take(f.len() as int) == f);
    let r = ordered_members(e);
    assert forall|x: (Seq<char>, Json)| #[trigger] r.contains(x) implies e.contains(x) by {
        let p = choose|p: int| 0 <= p < r.len() && r[p] == x;
        if p < known.len() {
            assert(known[p] == x);
        } else {
            assert(others[p - known.len()] == x);
            let j = choose|j: int| 0 <= j < e.len() && others[p - known.len()] == e[j];
        }
    }
    assert forall|p: int, q: int| 0 <= p < q < r.len() implies #[trigger] r[p].0 != #[trigger] r[q].0 by {
        if q < known.len() {
            assert(r[p] == known[p] && r[q] == known[q]);
        } else if p >= known.len() {
            assert(r[p] == others[p - known.len()] && r[q] == others[q - known.len()]);
        } else {
            assert(r[p] == known[p] && r[q] == others[q - known.len()]);
            assert(f.contains(known[p].0));
        }
    }
    assert forall|j: int| 0 <= j < e.len() implies r.contains(#[trigger] e[j]) by {
        if is_known_field(e[j].0) {
            let t = choose|t: int| 0 <= t < f.len() && f[t] == e[j].0;
            assert(is_first_index(e, f[t], j));
            lemma_first_index(e, f[t], j);
            assert(known_members(e, (t + 1) as nat) == known_members(e, t as nat).push(e[j]));
            assert(known_members(e, (t + 1) as nat)[known_members(e, t as nat).len() as int] == e[j]);
            lemma_known_members_grow(e, (t + 1) as nat, f.len(), e[j]);
            let i = choose|i: int| 0 <= i < known.len() && known[i] == e[j];
            assert(r[i] == e[j]);
        } else {
            assert(other_members(e, (j + 1) as nat) == other_members(e, j as nat).push(e[j]));
            assert(other_members(e, (j + 1) as nat)[other_members(e, j as nat).len() as int] == e[j]);
            lemma_other_members_grow(e, (j + 1) as nat, e.len(), e[j]);
            let i = choose|i: int| 0 <= i < others.len() && others[i] == e[j];
            assert(r[known.len() + i] == e[j]);
        }
    }
}

/// Keys that increase strictly are pairwise different.
proof fn lemma_sorted_keys_distinct(e: Seq<(Seq<char>, Json)>)
    requires
        keys_sorted(e),
    ensures
        distinct_keys(e),
{
    assert forall|i: int, j: int| 0 <= i < j < e.len() implies #[trigger] e[i].0 != #[trigger] e[j].0 by {
        if e[i].0 == e[j].0 {
            lemma_lex_irreflexive(e[i].0);
        }
    }
}

/// Giving a member a new value keeps the keys in increasing order.
proof fn lemma_update_value_sorted(e: Seq<(Seq<char>, Json)>, i: int, v: Json)
    requires
        keys_sorted(e),
        0 <= i < e.len(),
    ensures
        keys_sorted(e.update(i, (e[i].0, v))),
{
    let u = e.update(i, (e[i].0, v));
    assert forall|a: int, b: int| 0 <= a < b < u.len() implies lex_lt(#[trigger] u[a].0, #[trigger] u[b].0) by {
        assert(u[a].0 == e[a].0 && u[b].0 == e[b].0);
    }
}

/// A document read as an object has its keys in increasing order (see
/// `merge_template`); personalising it keeps them so, and then
/// `devcontainer.json` is written with every member of the personalised
/// document exactly once: each is written, nothing else is, no key twice.
pub proof fn lemma_merge_writes_every_member(
    e: Seq<(Seq<char>, Json)>,
    project: Seq<char>,
    git_name: Option<Seq<char>>,
    git_email: Option<Seq<char>>,
)
    requires
        keys_sorted(e),
    ensures
        devcontainer_settings(Json::Object(e), project, git_name, git_email) matches Json::Object(r)
            && {
            &&& keys_sorted(r)
            &&& forall|j: int| 0 <= j < r.len() ==> ordered_members(r).contains(#[trigger] r[j])
            &&& forall|x: (Seq<char>, Json)| #[trigger] ordered_members(r).contains(x) ==> r.contains(x)
            &&& distinct_keys(ordered_members(r))
        },
{
    let t = with_title(e, project);
    lemma_first_index_spec(e, "name"@);
    if let Some(i) = first_index(e, "name"@) {
        lemma_update_value_sorted(e, i, Json::Str(container_title(project)));
    }
    assert(keys_sorted(t));
    let r = with_git_identity(t, git_name, git_email);
    lemma_first_index_spec(t, "containerEnv"@);
    match (git_name, git_email) {
        (Some(n), Some(m)) => match first_index(t, "containerEnv"@) {
            Some(i) => match t[i].1 {
                Json::Object(env) => {
                    lemma_update_value_sorted(t, i, Json::Object(with_git_env(env, n, m)));
                },
                _ => {},
            },
            None => {
                lemma_insert_member_sorted(
                    t,
                    "containerEnv"@,
                    Json::Object(with_git_env(Seq::empty(), n, m)),
                );
            },
        },
        _ => {},
    }
    assert(keys_sorted(r));
    lemma_sorted_keys_distinct(r);
    lemma_ordered_members_complete(r);
}

} // verus!
