//! Tool versions of a template: the `ARG NAME=VALUE` lines of its
//! Dockerfile, the versions offered for each, and writing the chosen ones
//! back.
use vstd::prelude::*;

use crate::text::{
    owned, strings, strings_view, chars_of, extend_chars, index_of, index_of_char, join_lines, joined, lemma_index_of_found,
    lines_chars, lines_of, matches_at_exec, push_chars, replace_chars, replaced,
    slice_from, slice_range, starts_with, str_eq, string_of, trim_chars, trim_ws,
};

verus! {

/// The view of name/value pairs.
pub open spec fn pairs_view(v: Seq<(String, String)>) -> Seq<(Seq<char>, Seq<char>)> {
    v.map_values(|p: (String, String)| (p.0@, p.1@))
}

// ---------------------------------------------------------------------------
// Reading the Dockerfile
// ---------------------------------------------------------------------------

/// `ARG `.
pub open spec fn arg_prefix() -> Seq<char> {
    seq!['A', 'R', 'G', ' ']
}

/// `${`.
pub open spec fn reference_prefix() -> Seq<char> {
    seq!['$', '{']
}

/// The name and value of a line that, trimmed, starts with `ARG ` and holds
/// a `=`: the trimmed text before and after the first `=`.
pub open spec fn arg_parts(line: Seq<char>) -> Option<(Seq<char>, Seq<char>)> {
    let t = trim_ws(line);
    if starts_with(t, arg_prefix()) {
        let rest = t.skip(4);
        match index_of(rest, '=') {
            Some(e) => Some((trim_ws(rest.take(e)), trim_ws(rest.skip(e + 1)))),
            None => None,
        }
    } else {
        None
    }
}

/// The versions of some lines: each `ARG` with a value that is not a
/// `${...}` reference.
pub open spec fn args_in(ls: Seq<Seq<char>>) -> Seq<(Seq<char>, Seq<char>)>
    decreases ls.len(),
{
    if ls.len() == 0 {
        Seq::empty()
    } else {
        args_in(ls.drop_last()) + match arg_parts(ls.last()) {
            Some(p) => if starts_with(p.1, reference_prefix()) {
                Seq::empty()
            } else {
                seq![p]
            },
            None => Seq::empty(),
        }
    }
}

/// The versions a Dockerfile declares, in order.
pub open spec fn dockerfile_args(content: Seq<char>) -> Seq<(Seq<char>, Seq<char>)> {
    args_in(lines_of(content))
}

/// The name and value of an `ARG` line (see `arg_parts`), as characters.
fn arg_parts_exec(line: &[char]) -> (r: Option<(Vec<char>, Vec<char>)>)
    ensures
        match r {
            Some(p) => arg_parts(line@) == Some((p.0@, p.1@)),
            None => arg_parts(line@) is None,
        },
{
    let t = trim_chars(line);
    let prefix: Vec<char> = vec!['A', 'R', 'G', ' '];
    assert(prefix@ == arg_prefix());
    if !matches_at_exec(t.as_slice(), prefix.as_slice(), 0) {
        return None;
    }
    let rest = slice_from(t.as_slice(), 4);
    let found = index_of_char(rest.as_slice(), '=');
    proof {
        lemma_index_of_found(rest@, '=');
    }
    match found {
        Some(e) => {
            let before = slice_range(rest.as_slice(), 0, e);
            let after = slice_from(rest.as_slice(), e + 1);
            assert(before@ == rest@.take(e as int));
            Some((trim_chars(before.as_slice()), trim_chars(after.as_slice())))
        },
        None => None,
    }
}

/// The versions a Dockerfile declares: the `ARG NAME=VALUE` lines (after
/// trimming), name and value trimmed, skipping values that refer to other
/// variables (`${...}`).
pub fn parse_dockerfile_args(content: &str) -> (r: Vec<(String, String)>)
    ensures
        pairs_view(r@) == dockerfile_args(content@),
{
    let cs = chars_of(content);
    let ls = lines_chars(cs.as_slice());
    let ghost lv = lines_of(content@);
    let reference: Vec<char> = vec!['$', '{'];
    assert(reference@ == reference_prefix());
    let mut out: Vec<(String, String)> = Vec::new();
    let mut i: usize = 0;
    while i < ls.len()
        invariant
            i <= ls@.len(),
            ls@.len() == lv.len(),
            forall|k: int| 0 <= k < ls@.len() ==> #[trigger] ls@[k]@ == lv[k],
            reference@ == reference_prefix(),
            pairs_view(out@) == args_in(lv.take(i as int)),
        decreases ls.len() - i,
    {
        let ghost before = out@;
        let parts = arg_parts_exec(ls[i].as_slice());
        match parts {
            Some(p) => {
                if !matches_at_exec(p.1.as_slice(), reference.as_slice(), 0) {
                    out.push((string_of(p.0.as_slice()), string_of(p.1.as_slice())));
                    assert(pairs_view(out@) =~= pairs_view(before).push((p.0@, p.1@)));
                }
            },
            None => {},
        }
        assert(lv.take(i + 1).drop_last() == lv.take(i as int));
        assert(lv.take(i + 1).last() == ls@[i as int]@);
        i += 1;
    }
    assert(lv.take(ls@.len() as int) == lv);
    out
}

// ---------------------------------------------------------------------------
// Versions offered
// ---------------------------------------------------------------------------

/// The versions offered for an argument, if it has a list.
pub open spec fn version_options_spec(name: Seq<char>) -> Option<Seq<Seq<char>>> {
    if name == "ANDROID_API_LEVEL"@ {
        Some(seq!["33"@, "34"@, "35"@, "36"@])
    } else if name == "BUILD_TOOLS_VERSION"@ {
        Some(seq!["33.0.0"@, "34.0.0"@, "35.0.0"@, "36.0.0"@])
    } else if name == "NDK_VERSION"@ {
        Some(seq!["25.2.9519653"@, "26.1.10909125"@, "27.0.12077973"@, "27.2.12479018"@])
    } else if name == "KOTLIN_VERSION"@ {
        Some(seq!["2.0.0"@, "2.0.10"@, "2.0.21"@, "2.1.0"@, "2.1.10"@])
    } else if name == "NODE_MAJOR_VERSION"@ {
        Some(seq!["18"@, "20"@, "22"@])
    } else if name == "VARIANT"@ {
        Some(seq!["18-bullseye"@, "20-bullseye"@, "22-bullseye"@])
    } else if name == "JAVA_VERSION"@ {
        Some(seq!["17"@, "21"@])
    } else if name == "MAVEN_VERSION"@ {
        Some(seq!["3.9.6"@, "3.9.8"@, "3.9.9"@])
    } else if name == "GO_VERSION"@ {
        Some(seq!["1.21.0"@, "1.22.0"@, "1.23.0"@, "1.24.0"@])
    } else if name == "RUST_TOOLCHAIN"@ {
        Some(seq!["stable"@, "beta"@, "nightly"@])
    } else if name == "PYTHON_VERSION"@ {
        Some(seq!["3.11"@, "3.12"@, "3.13"@])
    } else if name == "PHP_VERSION"@ {
        Some(seq!["8.2"@, "8.3"@, "8.4"@])
    } else if name == "FLUTTER_BRANCH"@ {
        Some(seq!["stable"@, "beta"@, "master"@])
    } else if name == "CMAKE_VERSION"@ {
        Some(seq!["3.18.1"@, "3.22.1"@, "3.25.2"@, "3.31.1"@])
    } else if name == "CMDLINE_TOOLS_VERSION"@ {
        Some(seq!["7302050_latest"@, "10406996_latest"@])
    } else {
        None
    }
}

/// The versions offered for an argument (see `version_options_spec`).
pub fn get_version_options(arg_name: &str) -> (r: Option<Vec<String>>)
    ensures
        match r {
            Some(v) => version_options_spec(arg_name@) == Some(strings_view(v@)),
            None => version_options_spec(arg_name@) is None,
        },
{
    let items: &[&str] = if str_eq(arg_name, "ANDROID_API_LEVEL") {
        &["33", "34", "35", "36"]
    } else if str_eq(arg_name, "BUILD_TOOLS_VERSION") {
        &["33.0.0", "34.0.0", "35.0.0", "36.0.0"]
    } else if str_eq(arg_name, "NDK_VERSION") {
        &["25.2.9519653", "26.1.10909125", "27.0.12077973", "27.2.12479018"]
    } else if str_eq(arg_name, "KOTLIN_VERSION") {
        &["2.0.0", "2.0.10", "2.0.21", "2.1.0", "2.1.10"]
    } else if str_eq(arg_name, "NODE_MAJOR_VERSION") {
        &["18", "20", "22"]
    } else if str_eq(arg_name, "VARIANT") {
        &["18-bullseye", "20-bullseye", "22-bullseye"]
    } else if str_eq(arg_name, "JAVA_VERSION") {
        &["17", "21"]
    } else if str_eq(arg_name, "MAVEN_VERSION") {
        &["3.9.6", "3.9.8", "3.9.9"]
    } else if str_eq(arg_name, "GO_VERSION") {
        &["1.21.0", "1.22.0", "1.23.0", "1.24.0"]
    } else if str_eq(arg_name, "RUST_TOOLCHAIN") {
        &["stable", "beta", "nightly"]
    } else if str_eq(arg_name, "PYTHON_VERSION") {
        &["3.11", "3.12", "3.13"]
    } else if str_eq(arg_name, "PHP_VERSION") {
        &["8.2", "8.3", "8.4"]
    } else if str_eq(arg_name, "FLUTTER_BRANCH") {
        &["stable", "beta", "master"]
    } else if str_eq(arg_name, "CMAKE_VERSION") {
        &["3.18.1", "3.22.1", "3.25.2", "3.31.1"]
    } else if str_eq(arg_name, "CMDLINE_TOOLS_VERSION") {
        &["7302050_latest", "10406996_latest"]
    } else {
        return None;
    };
    let v = strings(items);
    assert(strings_view(v@) =~= version_options_spec(arg_name@)->0);
    Some(v)
}

/// The value chosen last for a name.
pub open spec fn last_value(chosen: Seq<(Seq<char>, Seq<char>)>, name: Seq<char>) -> Option<
    Seq<char>,
>
    decreases chosen.len(),
{
    if chosen.len() == 0 {
        None
    } else if chosen.last().0 == name {
        Some(chosen.last().1)
    } else {
        last_value(chosen.drop_last(), name)
    }
}

/// The version offered first: the build tools follow the API level chosen
/// before (`<level>.0.0`); every other argument keeps its Dockerfile value.
pub open spec fn suggested_spec(
    name: Seq<char>,
    default_value: Seq<char>,
    chosen: Seq<(Seq<char>, Seq<char>)>,
) -> Seq<char> {
    if name == "BUILD_TOOLS_VERSION"@ {
        match last_value(chosen, "ANDROID_API_LEVEL"@) {
            Some(api) => api + ".0.0"@,
            None => default_value,
        }
    } else {
        default_value
    }
}

/// The version offered first for an argument, given the versions chosen so
/// far (see `suggested_spec`).
pub fn suggested_version(name: &str, default_value: &str, chosen: &Vec<(String, String)>) -> (r:
    String)
    ensures
        r@ == suggested_spec(name@, default_value@, pairs_view(chosen@)),
{
    if !str_eq(name, "BUILD_TOOLS_VERSION") {
        return owned(default_value);
    }
    let ghost cv = pairs_view(chosen@);
    let mut i: usize = chosen.len();
    assert(cv.take(i as int) == cv);
    while i > 0
        invariant
            i <= chosen@.len(),
            name@ == "BUILD_TOOLS_VERSION"@,
            cv == pairs_view(chosen@),
            last_value(cv, "ANDROID_API_LEVEL"@) == last_value(cv.take(i as int), "ANDROID_API_LEVEL"@),
        decreases i,
    {
        assert(cv.take(i as int).last() == cv[i - 1]);
        assert(cv.take(i as int).drop_last() == cv.take(i - 1));
        assert(cv[i - 1] == (chosen@[i - 1].0@, chosen@[i - 1].1@));
        if str_eq(chosen[i - 1].0.as_str(), "ANDROID_API_LEVEL") {
            let mut r = chosen[i - 1].1.clone();
            let suffix = chars_of(".0.0");
            push_chars(&mut r, suffix.as_slice());
            return r;
        }
        i -= 1;
    }
    owned(default_value)
}

/// The first position of a value among the options.
pub open spec fn position_of(options: Seq<Seq<char>>, value: Seq<char>) -> Option<int>
    decreases options.len(),
{
    if options.len() == 0 {
        None
    } else if options[0] == value {
        Some(0)
    } else {
        match position_of(options.skip(1), value) {
            Some(i) => Some(i + 1),
            None => None,
        }
    }
}

proof fn lemma_position_of(options: Seq<Seq<char>>, value: Seq<char>, i: int)
    requires
        0 <= i <= options.len(),
        forall|j: int| 0 <= j < i ==> options[j] != value,
    ensures
        i < options.len() && options[i] == value ==> position_of(options, value) == Some(i),
        i == options.len() ==> position_of(options, value) is None,
    decreases i,
{
    if i > 0 {
        lemma_position_of(options.skip(1), value, i - 1);
    }
}

proof fn lemma_position_of_none(options: Seq<Seq<char>>, value: Seq<char>)
    requires
        forall|j: int| 0 <= j < options.len() ==> options[j] != value,
    ensures
        position_of(options, value) is None,
    decreases options.len(),
{
    if options.len() > 0 {
        lemma_position_of_none(options.skip(1), value);
    }
}

/// The first position of a value among the options.
pub fn option_position(options: &Vec<String>, value: &str) -> (r: Option<usize>)
    ensures
        match r {
            Some(i) => position_of(strings_view(options@), value@) == Some(i as int),
            None => position_of(strings_view(options@), value@) is None,
        },
{
    let ghost ov = strings_view(options@);
    let mut i: usize = 0;
    while i < options.len()
        invariant
            i <= options@.len(),
            ov == strings_view(options@),
            forall|j: int| 0 <= j < i ==> ov[j] != value@,
        decreases options.len() - i,
    {
        if str_eq(options[i].as_str(), value) {
            proof {
                lemma_position_of(ov, value@, i as int);
            }
            return Some(i);
        }
        i += 1;
    }
    proof {
        lemma_position_of_none(ov, value@);
    }
    None
}

/// The entry preselected in a version menu: the suggested version, else the
/// Dockerfile value, else the first entry.
pub fn option_default_index(options: &Vec<String>, suggested: &str, default_value: &str) -> (r:
    usize)
    ensures
        r == match position_of(strings_view(options@), suggested@) {
            Some(i) => i,
            None => match position_of(strings_view(options@), default_value@) {
                Some(j) => j,
                None => 0,
            },
        },
{
    match option_position(options, suggested) {
        Some(i) => i,
        None => match option_position(options, default_value) {
            Some(j) => j,
            None => 0,
        },
    }
}

/// Values joined with `,`.
pub open spec fn comma_joined(vs: Seq<Seq<char>>) -> Seq<char>
    decreases vs.len(),
{
    if vs.len() == 0 {
        Seq::empty()
    } else if vs.len() == 1 {
        vs[0]
    } else {
        comma_joined(vs.drop_last()) + seq![','] + vs.last()
    }
}

/// The versions picked in a multiple choice, in pick order.
pub open spec fn picked_values(options: Seq<Seq<char>>, picked: Seq<usize>) -> Seq<Seq<char>> {
    picked.map_values(|i: usize| options[i as int])
}

/// The value of a multiple choice: the picked versions joined with `,`, or
/// the suggested version when none was picked.
pub fn join_picked(options: &Vec<String>, picked: &Vec<usize>, suggested: &str) -> (r: String)
    requires
        forall|k: int| 0 <= k < picked@.len() ==> #[trigger] picked@[k] < options@.len(),
    ensures
        r@ == if picked@.len() == 0 {
            suggested@
        } else {
            comma_joined(picked_values(strings_view(options@), picked@))
        },
{
    if picked.len() == 0 {
        return owned(suggested);
    }
    let ghost vs = picked_values(strings_view(options@), picked@);
    let mut out: Vec<char> = Vec::new();
    let mut k: usize = 0;
    while k < picked.len()
        invariant
            k <= picked@.len(),
            forall|k: int| 0 <= k < picked@.len() ==> #[trigger] picked@[k] < options@.len(),
            vs == picked_values(strings_view(options@), picked@),
            out@ == comma_joined(vs.take(k as int)),
        decreases picked.len() - k,
    {
        if k > 0 {
            out.push(',');
        }
        let i = picked[k];
        let oc = chars_of(options[i].as_str());
        extend_chars(&mut out, oc.as_slice());
        assert(vs.take(k + 1).drop_last() == vs.take(k as int));
        assert(vs.take(k + 1).last() == options@[i as int]@);
        k += 1;
    }
    assert(vs.take(picked@.len() as int) == vs);
    string_of(out.as_slice())
}

/// The value typed for a version: trimmed, or the suggested version when
/// nothing was typed.
pub fn typed_version(input: &str, suggested: &str) -> (r: String)
    ensures
        r@ == if trim_ws(input@).len() == 0 {
            suggested@
        } else {
            trim_ws(input@)
        },
{
    let ic = chars_of(input);
    let t = trim_chars(ic.as_slice());
    if t.len() == 0 {
        owned(suggested)
    } else {
        string_of(t.as_slice())
    }
}

/// Node's major version is chosen with a multiple choice.
pub fn uses_multi_select(name: &str) -> (r: bool)
    ensures
        r == (name@ == "NODE_MAJOR_VERSION"@),
{
    str_eq(name, "NODE_MAJOR_VERSION")
}

/// How a version is asked for, as plain values.
pub enum PromptSpec {
    Multi(Seq<Seq<char>>, Seq<bool>, Seq<char>),
    Single(Seq<Seq<char>>, nat),
    Typed(Seq<char>),
    Keep(Seq<char>),
}

/// How the next version is asked for.
pub enum VersionPrompt {
    /// Several versions at once: the options, which of them are ticked at
    /// first, and the value kept when none is picked.
    Multi { options: Vec<String>, preselected: Vec<bool>, suggested: String },
    /// One version from a list, with the entry chosen at first.
    Single { options: Vec<String>, default_index: usize },
    /// A typed version; an empty answer keeps the suggestion.
    Typed { suggested: String },
    /// Nothing is asked: the suggestion is kept.
    Keep { value: String },
}

impl VersionPrompt {
    pub open spec fn spec_of(&self) -> PromptSpec {
        match self {
            VersionPrompt::Multi { options, preselected, suggested } => PromptSpec::Multi(
                strings_view(options@),
                preselected@,
                suggested@,
            ),
            VersionPrompt::Single { options, default_index } => PromptSpec::Single(
                strings_view(options@),
                *default_index as nat,
            ),
            VersionPrompt::Typed { suggested } => PromptSpec::Typed(suggested@),
            VersionPrompt::Keep { value } => PromptSpec::Keep(value@),
        }
    }
}

/// The entry preselected in a version menu (see `option_default_index`).
pub open spec fn default_index_spec(options: Seq<Seq<char>>, suggested: Seq<char>, default_value: Seq<char>) -> nat {
    match position_of(options, suggested) {
        Some(i) => i as nat,
        None => match position_of(options, default_value) {
            Some(j) => j as nat,
            None => 0,
        },
    }
}

/// How the next argument's version is asked for, given the versions chosen
/// so far: Node's major version with a multiple choice that ticks the
/// suggestion; an argument with known versions with a menu; any other by
/// typing. The suggestion is `suggested_spec`.
pub open spec fn version_prompt_spec(
    name: Seq<char>,
    default_value: Seq<char>,
    chosen: Seq<(Seq<char>, Seq<char>)>,
) -> PromptSpec {
    let suggested = suggested_spec(name, default_value, chosen);
    match version_options_spec(name) {
        Some(options) => if name == "NODE_MAJOR_VERSION"@ {
            PromptSpec::Multi(
                options,
                Seq::new(options.len(), |i: int| position_of(options, suggested) == Some(i)),
                suggested,
            )
        } else {
            PromptSpec::Single(options, default_index_spec(options, suggested, default_value))
        },
        None => if name == "NODE_MAJOR_VERSION"@ {
            PromptSpec::Keep(suggested)
        } else {
            PromptSpec::Typed(suggested)
        },
    }
}

/// How the next argument's version is asked for (see `version_prompt_spec`).
pub fn version_prompt(name: &str, default_value: &str, chosen: &Vec<(String, String)>) -> (r:
    VersionPrompt)
    ensures
        r.spec_of() == version_prompt_spec(name@, default_value@, pairs_view(chosen@)),
{
    let suggested = suggested_version(name, default_value, chosen);
    let multi = uses_multi_select(name);
    match get_version_options(name) {
        Some(options) => {
            if multi {
                let pos = option_position(&options, suggested.as_str());
                let ghost ov = strings_view(options@);
                let mut preselected: Vec<bool> = Vec::new();
                let mut i: usize = 0;
                while i < options.len()
                    invariant
                        i <= options@.len(),
                        ov == strings_view(options@),
                        preselected@.len() == i,
                        forall|k: int|
                            0 <= k < i ==> #[trigger] preselected@[k] == (position_of(
                                ov,
                                suggested@,
                            ) == Some(k)),
                        match pos {
                            Some(p) => position_of(ov, suggested@) == Some(p as int),
                            None => position_of(ov, suggested@) is None,
                        },
                    decreases options.len() - i,
                {
                    let here = match pos {
                        Some(p) => p == i,
                        None => false,
                    };
                    preselected.push(here);
                    i += 1;
                }
                assert(preselected@ =~= Seq::new(
                    ov.len(),
                    |k: int| position_of(ov, suggested@) == Some(k),
                ));
                VersionPrompt::Multi { options, preselected, suggested }
            } else {
                let default_index = option_default_index(&options, suggested.as_str(), default_value);
                VersionPrompt::Single { options, default_index }
            }
        },
        None => if multi {
            VersionPrompt::Keep { value: suggested }
        } else {
            VersionPrompt::Typed { suggested }
        },
    }
}

// ---------------------------------------------------------------------------
// Writing the chosen versions
// ---------------------------------------------------------------------------

/// The value chosen for a name: the first pair with that name.
pub open spec fn first_value(args: Seq<(Seq<char>, Seq<char>)>, name: Seq<char>) -> Option<
    Seq<char>,
>
    decreases args.len(),
{
    if args.len() == 0 {
        None
    } else if args[0].0 == name {
        Some(args[0].1)
    } else {
        first_value(args.skip(1), name)
    }
}

/// A Dockerfile line with its version replaced: an `ARG` line whose name was
/// chosen keeps everything up to its first `=` and gets the chosen value.
pub open spec fn applied_line(line: Seq<char>, args: Seq<(Seq<char>, Seq<char>)>) -> Seq<char> {
    match arg_parts(line) {
        Some(p) => match first_value(args, p.0) {
            Some(v) => match index_of(line, '=') {
                Some(e) => line.take(e + 1) + v,
                None => line,
            },
            None => line,
        },
        None => line,
    }
}

/// The Dockerfile with the chosen versions: its lines, each with its version
/// replaced, joined with `\n`.
pub open spec fn applied_dockerfile(content: Seq<char>, args: Seq<(Seq<char>, Seq<char>)>) -> Seq<
    char,
> {
    joined(lines_of(content).map_values(|l: Seq<char>| applied_line(l, args)))
}

fn first_value_exec(args: &Vec<(String, String)>, name: &[char]) -> (r: Option<Vec<char>>)
    ensures
        match r {
            Some(v) => first_value(pairs_view(args@), name@) == Some(v@),
            None => first_value(pairs_view(args@), name@) is None,
        },
{
    let ghost av = pairs_view(args@);
    let name_s = string_of(name);
    let mut i: usize = 0;
    assert(av.skip(0) == av);
    while i < args.len()
        invariant
            i <= args@.len(),
            av == pairs_view(args@),
            name_s@ == name@,
            first_value(av, name@) == first_value(av.skip(i as int), name@),
        decreases args.len() - i,
    {
        assert(av.skip(i as int)[0] == av[i as int]);
        if str_eq(args[i].0.as_str(), name_s.as_str()) {
            return Some(chars_of(args[i].1.as_str()));
        }
        assert(av.skip(i as int).skip(1) == av.skip(i + 1));
        i += 1;
    }
    None
}

fn applied_line_exec(line: &Vec<char>, args: &Vec<(String, String)>) -> (r: Vec<char>)
    ensures
        r@ == applied_line(line@, pairs_view(args@)),
{
    match arg_parts_exec(line.as_slice()) {
        Some(p) => match first_value_exec(args, p.0.as_slice()) {
            Some(v) => {
                let n = line.len();
                let found = index_of_char(line.as_slice(), '=');
                proof {
                    lemma_index_of_found(line@, '=');
                }
                match found {
                    Some(e) => {
                        assert(e < n);
                        let mut r = slice_range(line.as_slice(), 0, e + 1);
                        extend_chars(&mut r, v.as_slice());
                        r
                    },
                    None => slice_from(line.as_slice(), 0),
                }
            },
            None => slice_from(line.as_slice(), 0),
        },
        None => slice_from(line.as_slice(), 0),
    }
}

/// The Dockerfile with the chosen versions (see `applied_dockerfile`).
pub fn apply_custom_versions(content: &str, args: &Vec<(String, String)>) -> (r: String)
    ensures
        r@ == applied_dockerfile(content@, pairs_view(args@)),
{
    let cs = chars_of(content);
    let ls = lines_chars(cs.as_slice());
    let ghost lv = lines_of(content@);
    let ghost av = pairs_view(args@);
    let mut out_lines: Vec<Vec<char>> = Vec::new();
    let mut i: usize = 0;
    while i < ls.len()
        invariant
            i <= ls@.len(),
            ls@.len() == lv.len(),
            forall|k: int| 0 <= k < ls@.len() ==> #[trigger] ls@[k]@ == lv[k],
            av == pairs_view(args@),
            out_lines@.len() == i,
            forall|k: int| 0 <= k < i ==> #[trigger] out_lines@[k]@ == applied_line(lv[k], av),
        decreases ls.len() - i,
    {
        let l = applied_line_exec(&ls[i], args);
        out_lines.push(l);
        i += 1;
    }
    let joined_chars = join_lines(&out_lines);
    assert(out_lines@.map_values(|l: Vec<char>| l@) =~= lv.map_values(
        |l: Seq<char>| applied_line(l, av),
    ));
    string_of(joined_chars.as_slice())
}

/// The text of `devcontainer.json` after a Java version was chosen: the
/// Java 17 paths and runtime names name the chosen version instead (once per
/// chosen `JAVA_VERSION`, in order).
pub open spec fn java_applied(content: Seq<char>, args: Seq<(Seq<char>, Seq<char>)>) -> Seq<char>
    decreases args.len(),
{
    if args.len() == 0 {
        content
    } else {
        let c = java_applied(content, args.drop_last());
        let v = args.last().1;
        if args.last().0 == "JAVA_VERSION"@ {
            replaced(
                replaced(c, "java-17-openjdk-amd64"@, "java-"@ + v + "-openjdk-amd64"@),
                "JavaSE-17"@,
                "JavaSE-"@ + v,
            )
        } else {
            c
        }
    }
}

/// Some chosen version is a Java version.
pub open spec fn has_java_version(args: Seq<(Seq<char>, Seq<char>)>) -> bool {
    exists|i: int| 0 <= i < args.len() && #[trigger] args[i].0 == "JAVA_VERSION"@
}

/// The new text of `devcontainer.json` when a Java version was chosen (see
/// `java_applied`); nothing to write otherwise.
pub fn apply_custom_versions_to_config_files(content: &str, args: &Vec<(String, String)>) -> (r:
    Option<String>)
    ensures
        match r {
            Some(t) => has_java_version(pairs_view(args@)) && t@ == java_applied(
                content@,
                pairs_view(args@),
            ),
            None => !has_java_version(pairs_view(args@)),
        },
{
    proof {
        reveal_strlit("java-17-openjdk-amd64");
        reveal_strlit("JavaSE-17");
    }
    let ghost av = pairs_view(args@);
    let jdk = chars_of("java-17-openjdk-amd64");
    let se = chars_of("JavaSE-17");
    let mut c = chars_of(content);
    let mut modified = false;
    let mut i: usize = 0;
    while i < args.len()
        invariant
            i <= args@.len(),
            av == pairs_view(args@),
            jdk@ == "java-17-openjdk-amd64"@,
            se@ == "JavaSE-17"@,
            jdk@.len() > 0,
            se@.len() > 0,
            c@ == java_applied(content@, av.take(i as int)),
            modified == has_java_version(av.take(i as int)),
        decreases args.len() - i,
    {
        assert(av.take(i + 1).drop_last() == av.take(i as int));
        assert(av.take(i + 1).last() == av[i as int]);
        if str_eq(args[i].0.as_str(), "JAVA_VERSION") {
            let mut jdk_new = chars_of("java-");
            let v = chars_of(args[i].1.as_str());
            extend_chars(&mut jdk_new, v.as_slice());
            let tail = chars_of("-openjdk-amd64");
            extend_chars(&mut jdk_new, tail.as_slice());
            let mut se_new = chars_of("JavaSE-");
            extend_chars(&mut se_new, v.as_slice());
            let c1 = replace_chars(c.as_slice(), jdk.as_slice(), jdk_new.as_slice());
            c = replace_chars(c1.as_slice(), se.as_slice(), se_new.as_slice());
            modified = true;
            assert(av.take(i + 1)[i as int].0 == "JAVA_VERSION"@);
        } else {
            proof {
                if has_java_version(av.take(i + 1)) {
                    let j = choose|j: int| 0 <= j < i + 1 && #[trigger] av.take(i + 1)[j].0 == "JAVA_VERSION"@;
                    assert(av.take(i as int)[j].0 == "JAVA_VERSION"@);
                }
                if has_java_version(av.take(i as int)) {
                    let j = choose|j: int| 0 <= j < i && #[trigger] av.take(i as int)[j].0 == "JAVA_VERSION"@;
                    assert(av.take(i + 1)[j].0 == "JAVA_VERSION"@);
                }
            }
        }
        i += 1;
    }
    assert(av.take(args@.len() as int) == av);
    if modified {
        Some(string_of(c.as_slice()))
    } else {
        None
    }
}

// ---------------------------------------------------------------------------
// Laws
// ---------------------------------------------------------------------------

/// Two strings differ in length or within their first five characters.
spec fn early_difference(a: Seq<char>, b: Seq<char>) -> bool {
    a.len() != b.len() || a[0] != b[0] || a[1] != b[1] || a[2] != b[2] || a[3] != b[3] || a[4]
        != b[4]
}

/// No version is offered twice in a list.
pub open spec fn distinct_options(o: Seq<Seq<char>>) -> bool {
    forall|i: int, j: int| 0 <= i < j < o.len() ==> o[i] != o[j]
}

proof fn lemma_distinct_by_early(o: Seq<Seq<char>>)
    requires
        forall|i: int, j: int| 0 <= i < j < o.len() ==> early_difference(o[i], o[j]),
    ensures
        distinct_options(o),
{
    assert forall|i: int, j: int| 0 <= i < j < o.len() implies o[i] != o[j] by {
        assert(early_difference(o[i], o[j]));
    }
}

/// Every list of versions offered is non-empty and offers no version twice,
/// and every Android API level offered has its `<level>.0.0` build tools
/// among the build tools offered.
pub proof fn lemma_version_options_well_formed(name: Seq<char>)
    ensures
        version_options_spec(name) matches Some(o) ==> o.len() > 0 && distinct_options(o),
        forall|i: int|
            0 <= i < version_options_spec("ANDROID_API_LEVEL"@)->0.len() ==> version_options_spec(
                "BUILD_TOOLS_VERSION"@,
            )->0.contains(#[trigger] version_options_spec("ANDROID_API_LEVEL"@)->0[i] + ".0.0"@),
{
    reveal_strlit(".0.0");
    reveal_strlit("1.21.0");
    reveal_strlit("1.22.0");
    reveal_strlit("1.23.0");
    reveal_strlit("1.24.0");
    reveal_strlit("10406996_latest");
    reveal_strlit("17");
    reveal_strlit("18");
    reveal_strlit("18-bullseye");
    reveal_strlit("2.0.0");
    reveal_strlit("2.0.10");
    reveal_strlit("2.0.21");
    reveal_strlit("2.1.0");
    reveal_strlit("2.1.10");
    reveal_strlit("20");
    reveal_strlit("20-bullseye");
    reveal_strlit("21");
    reveal_strlit("22");
    reveal_strlit("22-bullseye");
    reveal_strlit("25.2.9519653");
    reveal_strlit("26.1.10909125");
    reveal_strlit("27.0.12077973");
    reveal_strlit("27.2.12479018");
    reveal_strlit("3.11");
    reveal_strlit("3.12");
    reveal_strlit("3.13");
    reveal_strlit("3.18.1");
    reveal_strlit("3.22.1");
    reveal_strlit("3.25.2");
    reveal_strlit("3.31.1");
    reveal_strlit("3.9.6");
    reveal_strlit("3.9.8");
    reveal_strlit("3.9.9");
    reveal_strlit("33");
    reveal_strlit("33.0.0");
    reveal_strlit("34");
    reveal_strlit("34.0.0");
    reveal_strlit("35");
    reveal_strlit("35.0.0");
    reveal_strlit("36");
    reveal_strlit("36.0.0");
    reveal_strlit("7302050_latest");
    reveal_strlit("8.2");
    reveal_strlit("8.3");
    reveal_strlit("8.4");
    reveal_strlit("ANDROID_API_LEVEL");
    reveal_strlit("BUILD_TOOLS_VERSION");
    reveal_strlit("CMAKE_VERSION");
    reveal_strlit("CMDLINE_TOOLS_VERSION");
    reveal_strlit("FLUTTER_BRANCH");
    reveal_strlit("GO_VERSION");
    reveal_strlit("JAVA_VERSION");
    reveal_strlit("KOTLIN_VERSION");
    reveal_strlit("MAVEN_VERSION");
    reveal_strlit("NDK_VERSION");
    reveal_strlit("NODE_MAJOR_VERSION");
    reveal_strlit("PHP_VERSION");
    reveal_strlit("PYTHON_VERSION");
    reveal_strlit("RUST_TOOLCHAIN");
    reveal_strlit("VARIANT");
    reveal_strlit("beta");
    reveal_strlit("master");
    reveal_strlit("nightly");
    reveal_strlit("stable");
    lemma_distinct_by_early(seq!["33"@, "34"@, "35"@, "36"@]);
    lemma_distinct_by_early(seq!["33.0.0"@, "34.0.0"@, "35.0.0"@, "36.0.0"@]);
    lemma_distinct_by_early(seq!["25.2.9519653"@, "26.1.10909125"@, "27.0.12077973"@, "27.2.12479018"@]);
    lemma_distinct_by_early(seq!["2.0.0"@, "2.0.10"@, "2.0.21"@, "2.1.0"@, "2.1.10"@]);
    lemma_distinct_by_early(seq!["18"@, "20"@, "22"@]);
    lemma_distinct_by_early(seq!["18-bullseye"@, "20-bullseye"@, "22-bullseye"@]);
    lemma_distinct_by_early(seq!["17"@, "21"@]);
    lemma_distinct_by_early(seq!["3.9.6"@, "3.9.8"@, "3.9.9"@]);
    lemma_distinct_by_early(seq!["1.21.0"@, "1.22.0"@, "1.23.0"@, "1.24.0"@]);
    lemma_distinct_by_early(seq!["stable"@, "beta"@, "nightly"@]);
    lemma_distinct_by_early(seq!["3.11"@, "3.12"@, "3.13"@]);
    lemma_distinct_by_early(seq!["8.2"@, "8.3"@, "8.4"@]);
    lemma_distinct_by_early(seq!["stable"@, "beta"@, "master"@]);
    lemma_distinct_by_early(seq!["3.18.1"@, "3.22.1"@, "3.25.2"@, "3.31.1"@]);
    lemma_distinct_by_early(seq!["7302050_latest"@, "10406996_latest"@]);
    let api = version_options_spec("ANDROID_API_LEVEL"@)->0;
    let build = version_options_spec("BUILD_TOOLS_VERSION"@)->0;
    assert(api == seq!["33"@, "34"@, "35"@, "36"@]);
    assert("BUILD_TOOLS_VERSION"@[0] != "ANDROID_API_LEVEL"@[0]);
    assert(build == seq!["33.0.0"@, "34.0.0"@, "35.0.0"@, "36.0.0"@]);
    assert("33"@ + ".0.0"@ =~= "33.0.0"@);
    assert(build[0] == api[0] + ".0.0"@);
    assert("34"@ + ".0.0"@ =~= "34.0.0"@);
    assert(build[1] == api[1] + ".0.0"@);
    assert("35"@ + ".0.0"@ =~= "35.0.0"@);
    assert(build[2] == api[2] + ".0.0"@);
    assert("36"@ + ".0.0"@ =~= "36.0.0"@);
    assert(build[3] == api[3] + ".0.0"@);
}

/// With no version chosen, the Dockerfile is only rewritten line by line:
/// its lines joined with `\n`.
pub proof fn lemma_no_choice_keeps_lines(content: Seq<char>)
    ensures
        applied_dockerfile(content, Seq::empty()) == joined(lines_of(content)),
{
    let ls = lines_of(content);
    assert forall|k: int| 0 <= k < ls.len() implies applied_line(ls[k], Seq::empty()) == ls[k] by {
        if let Some(p) = arg_parts(ls[k]) {
            assert(first_value(Seq::<(Seq<char>, Seq<char>)>::empty(), p.0) is None);
        }
    }
    assert(ls.map_values(|l: Seq<char>| applied_line(l, Seq::empty())) =~= ls);
}

/// A found position holds the value, and no earlier one does.
pub proof fn lemma_position_of_found(options: Seq<Seq<char>>, value: Seq<char>)
    ensures
        position_of(options, value) matches Some(i) ==> 0 <= i < options.len() && options[i]
            == value && forall|j: int| 0 <= j < i ==> options[j] != value,
        position_of(options, value) is None ==> !options.contains(value),
    decreases options.len(),
{
    if options.len() > 0 {
        lemma_position_of_found(options.skip(1), value);
        if options[0] != value {
            if let Some(i) = position_of(options.skip(1), value) {
                assert forall|j: int| 0 <= j < i + 1 implies options[j] != value by {
                    if j > 0 {
                        assert(options[j] == options.skip(1)[j - 1]);
                    }
                }
                assert(options[i + 1] == options.skip(1)[i]);
            }
            if options.contains(value) {
                let j = choose|j: int| 0 <= j < options.len() && options[j] == value;
                assert(options.skip(1)[j - 1] == value);
            }
        }
    }
}

/// The build tools version offered right after an API level was chosen is
/// that level's `.0.0` release.
pub proof fn lemma_build_tools_follow_api_level(
    default_value: Seq<char>,
    chosen: Seq<(Seq<char>, Seq<char>)>,
    api: Seq<char>,
)
    ensures
        suggested_spec(
            "BUILD_TOOLS_VERSION"@,
            default_value,
            chosen.push(("ANDROID_API_LEVEL"@, api)),
        ) == api + ".0.0"@,
{
    assert(chosen.push(("ANDROID_API_LEVEL"@, api)).last() == ("ANDROID_API_LEVEL"@, api));
}

/// Pairs that do not name the Java version leave `devcontainer.json` as it is.
proof fn lemma_java_absent(content: Seq<char>, args: Seq<(Seq<char>, Seq<char>)>)
    requires
        forall|j: int| 0 <= j < args.len() ==> #[trigger] args[j].0 != "JAVA_VERSION"@,
    ensures
        java_applied(content, args) == content,
    decreases args.len(),
{
    if args.len() > 0 {
        assert(args.last().0 == args[args.len() - 1].0);
        lemma_java_absent(content, args.drop_last());
    }
}

/// When exactly one pair names the Java version, whatever other pairs stand
/// around it, the Java 17 paths and runtime names in `devcontainer.json` are
/// rewritten with that pair's value: every `java-17-openjdk-amd64` becomes
/// `java-<v>-openjdk-amd64`, then every `JavaSE-17` becomes `JavaSE-<v>`.
pub proof fn lemma_java_version_written(content: Seq<char>, args: Seq<(Seq<char>, Seq<char>)>, k: int)
    requires
        0 <= k < args.len(),
        args[k].0 == "JAVA_VERSION"@,
        forall|j: int| 0 <= j < args.len() && j != k ==> #[trigger] args[j].0 != "JAVA_VERSION"@,
    ensures
        java_applied(content, args) == replaced(
            replaced(content, "java-17-openjdk-amd64"@, "java-"@ + args[k].1 + "-openjdk-amd64"@),
            "JavaSE-17"@,
            "JavaSE-"@ + args[k].1,
        ),
    decreases args.len(),
{
    let rest = args.drop_last();
    if k == args.len() - 1 {
        assert forall|j: int| 0 <= j < rest.len() implies #[trigger] rest[j].0 != "JAVA_VERSION"@ by {
            assert(rest[j] == args[j]);
        }
        lemma_java_absent(content, rest);
    } else {
        assert forall|j: int| 0 <= j < rest.len() && j != k implies #[trigger] rest[j].0
            != "JAVA_VERSION"@ by {
            assert(rest[j] == args[j]);
        }
        assert(rest[k] == args[k]);
        assert(args.last().0 != "JAVA_VERSION"@) by {
            assert(args.last() == args[args.len() - 1]);
        }
        lemma_java_version_written(content, rest, k);
    }
}

/// A line that, trimmed, reads `ARG NAME=VALUE` with a trimmed value not
/// beginning with `${`.
pub open spec fn kept_arg_line(line: Seq<char>) -> bool {
    match arg_parts(line) {
        Some(p) => !starts_with(p.1, seq!['$', '{']),
        None => false,
    }
}

/// The versions of some lines are the pairs of their kept `ARG` lines, each
/// from its line.
proof fn lemma_args_in_lines(ls: Seq<Seq<char>>)
    ensures
        forall|k: int|
            0 <= k < ls.len() && kept_arg_line(ls[k]) ==> args_in(ls).contains(
                (#[trigger] arg_parts(ls[k]))->Some_0,
            ),
        forall|p: (Seq<char>, Seq<char>)|
            #[trigger] args_in(ls).contains(p) ==> exists|k: int|
                0 <= k < ls.len() && kept_arg_line(ls[k]) && #[trigger] arg_parts(ls[k]) == Some(p),
    decreases ls.len(),
{
    if ls.len() > 0 {
        let rest = ls.drop_last();
        lemma_args_in_lines(rest);
        let prev = args_in(rest);
        let all = args_in(ls);
        assert(reference_prefix() == seq!['$', '{']);
        assert forall|k: int| 0 <= k < ls.len() && kept_arg_line(ls[k]) implies all.contains(
            (#[trigger] arg_parts(ls[k]))->Some_0,
        ) by {
            let p = arg_parts(ls[k])->Some_0;
            if k < ls.len() - 1 {
                assert(rest[k] == ls[k]);
                assert(arg_parts(rest[k]) == arg_parts(ls[k]));
                assert(prev.contains(p));
                let i = choose|i: int| 0 <= i < prev.len() && prev[i] == p;
                assert(all[i] == prev[i]);
            } else {
                assert(ls.last() == ls[k]);
                assert(all[prev.len() as int] == p);
            }
        }
        assert forall|p: (Seq<char>, Seq<char>)| #[trigger] all.contains(p) implies exists|k: int|
            0 <= k < ls.len() && kept_arg_line(ls[k]) && #[trigger] arg_parts(ls[k]) == Some(p) by {
            let i = choose|i: int| 0 <= i < all.len() && all[i] == p;
            if i < prev.len() {
                assert(all[i] == prev[i]);
                assert(prev.contains(p));
                let k = choose|k: int|
                    0 <= k < rest.len() && kept_arg_line(rest[k]) && #[trigger] arg_parts(rest[k])
                        == Some(p);
                assert(rest[k] == ls[k]);
                assert(arg_parts(ls[k]) == Some(p));
            } else {
                assert(ls.last() == ls[ls.len() - 1]);
                assert(arg_parts(ls[ls.len() - 1]) == Some(p));
            }
        }
    }
}

/// Every line of a Dockerfile that, trimmed, reads `ARG NAME=VALUE` with a
/// value not beginning with `${` gives its pair (trimmed name, trimmed value)
/// to the versions read; every pair read comes from such a line. Only values
/// beginning with `${` are left out.
pub proof fn lemma_dockerfile_args_from_lines(content: Seq<char>)
    ensures
        forall|k: int|
            0 <= k < lines_of(content).len() && kept_arg_line(lines_of(content)[k])
                ==> dockerfile_args(content).contains(
                (#[trigger] arg_parts(lines_of(content)[k]))->Some_0,
            ),
        forall|p: (Seq<char>, Seq<char>)|
            #[trigger] dockerfile_args(content).contains(p) ==> exists|k: int|
                0 <= k < lines_of(content).len() && kept_arg_line(lines_of(content)[k])
                    && #[trigger] arg_parts(lines_of(content)[k]) == Some(p),
{
    lemma_args_in_lines(lines_of(content));
}

/// The parts of a text between its commas, in order (`str::split(',')`).
pub open spec fn comma_parts(s: Seq<char>) -> Seq<Seq<char>>
    decreases s.len(),
{
    match index_of(s, ',') {
        Some(i) => {
            proof {
                lemma_index_of_found(s, ',');
            }
            seq![s.take(i)] + comma_parts(s.skip(i + 1))
        },
        None => seq![s],
    }
}

/// Joining splits off the first value.
proof fn lemma_comma_joined_front(vs: Seq<Seq<char>>)
    requires
        vs.len() >= 2,
    ensures
        comma_joined(vs) == vs[0] + seq![','] + comma_joined(vs.skip(1)),
    decreases vs.len(),
{
    if vs.len() == 2 {
        assert(vs.drop_last() =~= seq![vs[0]]);
        assert(vs.skip(1) =~= seq![vs[1]]);
        assert(comma_joined(seq![vs[0]]) == vs[0]);
        assert(comma_joined(seq![vs[1]]) == vs[1]);
        assert(comma_joined(vs) == comma_joined(vs.drop_last()) + seq![','] + vs.last());
    } else {
        let dl = vs.drop_last();
        let s1 = vs.skip(1);
        lemma_comma_joined_front(dl);
        assert(dl.skip(1) =~= s1.drop_last());
        assert(s1.last() == vs.last());
        assert(dl[0] == vs[0]);
        assert(comma_joined(vs) == comma_joined(dl) + seq![','] + vs.last());
        assert(comma_joined(s1) == comma_joined(s1.drop_last()) + seq![','] + s1.last());
        assert(comma_joined(vs) =~= vs[0] + seq![','] + comma_joined(s1));
    }
}

/// The first comma of `a , b` is the one after `a` when `a` has none.
proof fn lemma_first_comma(a: Seq<char>, b: Seq<char>)
    requires
        !a.contains(','),
    ensures
        index_of(a + seq![','] + b, ',') == Some(a.len() as int),
{
    let s = a + seq![','] + b;
    lemma_index_of_found(s, ',');
    assert(s[a.len() as int] == ',');
    match index_of(s, ',') {
        Some(i) => {
            if i < a.len() {
                assert(s[i] == a[i]);
            }
        },
        None => {},
    }
}

/// Splitting joined values at their commas gives them back, when none of
/// them holds a comma.
proof fn lemma_comma_parts_joined(vs: Seq<Seq<char>>)
    requires
        vs.len() >= 1,
        forall|i: int| 0 <= i < vs.len() ==> !(#[trigger] vs[i]).contains(','),
    ensures
        comma_parts(comma_joined(vs)) == vs,
    decreases vs.len(),
{
    if vs.len() == 1 {
        lemma_index_of_found(vs[0], ',');
        if index_of(vs[0], ',') is Some {
            let i = index_of(vs[0], ',')->Some_0;
            assert(vs[0][i] == ',');
        }
        assert(comma_parts(vs[0]) =~= seq![vs[0]]);
    } else {
        lemma_comma_joined_front(vs);
        let rest = vs.skip(1);
        assert forall|i: int| 0 <= i < rest.len() implies !(#[trigger] rest[i]).contains(',') by {
            assert(rest[i] == vs[i + 1]);
        }
        lemma_comma_parts_joined(rest);
        let j = comma_joined(vs);
        lemma_first_comma(vs[0], comma_joined(rest));
        assert(j.take(vs[0].len() as int) =~= vs[0]);
        assert(j.skip(vs[0].len() + 1int) =~= comma_joined(rest));
        assert(comma_parts(j) == seq![vs[0]] + comma_parts(comma_joined(rest)));
        assert(seq![vs[0]] + rest =~= vs);
    }
}

/// With at least one pick, the value of a multiple choice splits at its
/// commas into the picked options, every one in pick order (options hold no
/// comma).
pub proof fn lemma_join_picked_parts(options: Seq<Seq<char>>, picked: Seq<usize>)
    requires
        picked.len() >= 1,
        forall|k: int| 0 <= k < picked.len() ==> #[trigger] picked[k] < options.len(),
        forall|i: int| 0 <= i < options.len() ==> !(#[trigger] options[i]).contains(','),
    ensures
        comma_parts(comma_joined(picked_values(options, picked))).len() == picked.len(),
        forall|k: int|
            0 <= k < picked.len() ==> comma_parts(comma_joined(picked_values(options, picked)))[k]
                == options[#[trigger] picked[k] as int],
{
    let vs = picked_values(options, picked);
    assert forall|i: int| 0 <= i < vs.len() implies !(#[trigger] vs[i]).contains(',') by {
        assert(vs[i] == options[picked[i] as int]);
    }
    lemma_comma_parts_joined(vs);
}

} // verus!
