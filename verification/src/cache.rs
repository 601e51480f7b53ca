//! The local cache: the configuration saved in `~/.devc/config.json` and the
//! templates downloaded to `~/.devc/cache/templates`.
use vstd::prelude::*;

use std::path::PathBuf;

use crate::text::{
    lemma_lex_transitive, lex_lt, owned, push_str, starts_with, str_eq, str_less, str_starts_with,
    strings_view,
};

verus! {

/// `std::path::PathBuf`, carried through the library unopened.
#[verifier::external_type_specification]
#[verifier::external_body]
pub struct ExPathBuf(PathBuf);

/// The Git identity used inside containers.
#[derive(Debug, Clone)]
pub struct GitConfig {
    pub name: Option<String>,
    pub email: Option<String>,
}

/// The view of an optional string.
pub open spec fn opt_view(o: Option<String>) -> Option<Seq<char>> {
    match o {
        Some(s) => Some(s@),
        None => None,
    }
}

impl View for GitConfig {
    type V = (Option<Seq<char>>, Option<Seq<char>>);

    open spec fn view(&self) -> (Option<Seq<char>>, Option<Seq<char>>) {
        (opt_view(self.name), opt_view(self.email))
    }
}

impl Default for GitConfig {
    /// No name and no e-mail.
    fn default() -> (r: Self)
        ensures
            r@ == (None::<Seq<char>>, None::<Seq<char>>),
    {
        GitConfig { name: None, email: None }
    }
}

/// The configuration of the command-line tool.
#[derive(Debug, Clone)]
pub struct CacheConfig {
    /// The version of the cached templates.
    pub templates_version: String,
    /// When updates were last checked.
    pub last_check: String,
    /// The saved Git identity.
    pub git: GitConfig,
}

impl Default for CacheConfig {
    /// Templates version `0.0.0`, never checked, no Git identity.
    fn default() -> (r: Self)
        ensures
            r.templates_version@ == "0.0.0"@,
            r.last_check@ == "never"@,
            r.git@ == (None::<Seq<char>>, None::<Seq<char>>),
    {
        CacheConfig {
            templates_version: owned("0.0.0"),
            last_check: owned("never"),
            git: GitConfig::default(),
        }
    }
}

/// The cache: where it lives and its configuration.
pub struct CacheManager {
    cache_dir: PathBuf,
    templates_dir: PathBuf,
    config_path: PathBuf,
    config: CacheConfig,
}

/// A directory name that is a template: not hidden and not `target`.
pub open spec fn is_template_name(name: Seq<char>) -> bool {
    !starts_with(name, seq!['.']) && name != "target"@
}

/// The names in non-decreasing order.
pub open spec fn sorted_names(v: Seq<String>) -> bool {
    forall|a: int, b: int| 0 <= a < b < v.len() ==> !lex_lt(#[trigger] v[b]@, #[trigger] v[a]@)
}

/// The directory names that are templates.
pub open spec fn template_names(names: Seq<String>) -> Seq<String> {
    names.filter(template_pred())
}

/// The test that keeps a directory name.
pub open spec fn template_pred() -> spec_fn(String) -> bool {
    |s: String| is_template_name(s@)
}

impl CacheManager {
    /// The cache in `cache_dir`, with its templates in `templates_dir` and its
    /// configuration in `config_path`; the configuration read from there, or
    /// the default one when there was none or it was unreadable.
    pub fn new(
        cache_dir: PathBuf,
        templates_dir: PathBuf,
        config_path: PathBuf,
        loaded: Option<CacheConfig>,
    ) -> (r: Self)
        ensures
            r.cache_path() == cache_dir,
            r.templates_path() == templates_dir,
            r.config_file() == config_path,
            match loaded {
                Some(c) => r.config_spec() == c,
                None => {
                    &&& r.config_spec().templates_version@ == "0.0.0"@
                    &&& r.config_spec().last_check@ == "never"@
                    &&& r.config_spec().git@ == (None::<Seq<char>>, None::<Seq<char>>)
                },
            },
    {
        let config = match loaded {
            Some(c) => c,
            None => CacheConfig::default(),
        };
        CacheManager { cache_dir, templates_dir, config_path, config }
    }

    /// The directory of the cache.
    pub closed spec fn cache_path(&self) -> PathBuf {
        self.cache_dir
    }

    /// The directory of the templates.
    pub closed spec fn templates_path(&self) -> PathBuf {
        self.templates_dir
    }

    /// The file of the configuration.
    pub closed spec fn config_file(&self) -> PathBuf {
        self.config_path
    }

    /// The configuration.
    pub closed spec fn config_spec(&self) -> CacheConfig {
        self.config
    }

    /// The directory of the templates.
    pub fn templates_dir(&self) -> (r: &PathBuf)
        ensures
            *r == self.templates_path(),
    {
        &self.templates_dir
    }

    /// The file the configuration is saved to.
    pub fn config_path(&self) -> (r: &PathBuf)
        ensures
            *r == self.config_file(),
    {
        &self.config_path
    }

    /// The configuration, as it is to be saved.
    pub fn config(&self) -> (r: &CacheConfig)
        ensures
            *r == self.config_spec(),
    {
        &self.config
    }

    /// The saved Git identity.
    pub fn get_git_config(&self) -> (r: &GitConfig)
        ensures
            *r == self.config_spec().git,
    {
        &self.config.git
    }

    /// Records a Git identity; the rest of the configuration and the paths
    /// stay as they were. The caller saves `config()` to `config_path()`.
    pub fn save_git_config(&mut self, name: &str, email: &str)
        ensures
            final(self).config_spec().git@ == (Some(name@), Some(email@)),
            final(self).config_spec().templates_version == old(self).config_spec().templates_version,
            final(self).config_spec().last_check == old(self).config_spec().last_check,
            final(self).templates_path() == old(self).templates_path(),
            final(self).config_file() == old(self).config_file(),
            final(self).cache_path() == old(self).cache_path(),
    {
        self.config.git.name = Some(owned(name));
        self.config.git.email = Some(owned(email));
    }

    /// Whether the latest released version differs from the cached one.
    pub fn update_available(&self, latest_version: &str) -> (r: bool)
        ensures
            r == (self.config_spec().templates_version@ != latest_version@),
    {
        !str_eq(self.config.templates_version.as_str(), latest_version)
    }

    /// The templates among the names of the cache's directories: hidden
    /// names and `target` are left out, and the rest comes sorted.
    pub fn get_available_templates(dir_names: Vec<String>) -> (r: Vec<String>)
        ensures
            sorted_names(r@),
            r@.to_multiset() == template_names(dir_names@).to_multiset(),
    {
        proof {
            reveal_strlit(".");
        }
        broadcast use vstd::multiset::group_multiset_axioms, vstd::seq_lib::group_to_multiset_ensures;
        let ghost names = dir_names@;
        let mut rest = dir_names;
        let mut out: Vec<String> = Vec::new();
        assert(out@.to_multiset().add(template_names(rest@).to_multiset())
            =~= template_names(names).to_multiset());
        while rest.len() > 0
            invariant
                sorted_names(out@),
                out@.to_multiset().add(template_names(rest@).to_multiset())
                    == template_names(names).to_multiset(),
            decreases rest.len(),
        {
            let ghost before_rest = rest@;
            let name = match rest.pop() {
                Some(n) => n,
                None => String::new(),
            };
            proof {
                assert(before_rest == rest@.push(name));
                rest@.lemma_filter_push(name, template_pred());
                vstd::seq_lib::to_multiset_build(template_names(rest@), name);
            }
            if !str_starts_with(name.as_str(), ".") && !str_eq(name.as_str(), "target") {
                assert(is_template_name(name@)) by {
                    reveal_strlit(".");
                    assert("."@ =~= seq!['.']);
                    if starts_with(name@, seq!['.']) {
                        assert(starts_with(name@, "."@));
                    }
                }
                assert(template_pred()(name));
                let mut p: usize = 0;
                while p < out.len() && !str_less(name.as_str(), out[p].as_str())
                    invariant
                        p <= out@.len(),
                        forall|j: int| 0 <= j < p ==> !lex_lt(name@, #[trigger] out@[j]@),
                    decreases out.len() - p,
                {
                    p += 1;
                }
                let ghost before = out@;
                out.insert(p, name);
                proof {
                    vstd::seq_lib::to_multiset_insert(before, p as int, name);
                    assert(out@.to_multiset().add(template_names(rest@).to_multiset())
                        =~= template_names(names).to_multiset());
                    assert forall|a: int, b: int| 0 <= a < b < out@.len() implies !lex_lt(
                        #[trigger] out@[b]@,
                        #[trigger] out@[a]@,
                    ) by {
                        if b < p {
                            assert(out@[a] == before[a] && out@[b] == before[b]);
                        } else if b == p {
                            assert(out@[a] == before[a]);
                        } else if a == p {
                            assert(out@[b] == before[b - 1]);
                            assert(lex_lt(name@, before[p as int]@));
                            if p < b - 1 {
                                assert(!lex_lt(before[b - 1]@, before[p as int]@));
                            }
                            if lex_lt(before[b - 1]@, name@) {
                                lemma_lex_transitive(before[b - 1]@, name@, before[p as int]@);
                                if p == b - 1 {
                                    crate::text::lemma_lex_irreflexive(before[p as int]@);
                                }
                            }
                        } else if a < p {
                            assert(out@[a] == before[a] && out@[b] == before[b - 1]);
                        } else {
                            assert(out@[a] == before[a - 1] && out@[b] == before[b - 1]);
                        }
                    }
                }
            } else {
                assert(!is_template_name(name@)) by {
                    reveal_strlit(".");
                    assert("."@ =~= seq!['.']);
                    if starts_with(name@, "."@) {
                        assert(starts_with(name@, seq!['.']));
                    }
                }
                assert(!template_pred()(name));
                assert(out@.to_multiset().add(template_names(rest@).to_multiset())
                    =~= template_names(names).to_multiset());
            }
        }
        assert(template_names(rest@) =~= Seq::<String>::empty()) by {
            reveal(Seq::filter);
        }
        assert(out@.to_multiset() =~= out@.to_multiset().add(template_names(rest@).to_multiset()));
        out
    }
}

/// The names a folder at the top of the cache lists: its own name when it
/// holds a template (a `.devcontainer` folder) or nothing is nested in it;
/// otherwise `<folder>/<nested>` for each nested template, in order.
pub open spec fn listed_names_spec(name: Seq<char>, holds_template: bool, nested: Seq<Seq<char>>) -> Seq<
    Seq<char>,
> {
    if holds_template || nested.len() == 0 {
        seq![name]
    } else {
        nested.map_values(|n: Seq<char>| name + "/"@ + n)
    }
}

/// The names a folder at the top of the cache lists, so that nested
/// templates such as `android/kotlin-native` can be chosen (see
/// `listed_names_spec`).
pub fn listed_template_names(name: &str, holds_template: bool, nested: &Vec<String>) -> (r: Vec<String>)
    ensures
        strings_view(r@) == listed_names_spec(name@, holds_template, strings_view(nested@)),
{
    let mut out: Vec<String> = Vec::new();
    if holds_template || nested.len() == 0 {
        out.push(owned(name));
        assert(strings_view(out@) =~= seq![name@]);
        return out;
    }
    let ghost nv = strings_view(nested@);
    let mut i: usize = 0;
    while i < nested.len()
        invariant
            i <= nested@.len(),
            nv == strings_view(nested@),
            strings_view(out@) == nv.take(i as int).map_values(|n: Seq<char>| name@ + "/"@ + n),
        decreases nested.len() - i,
    {
        let mut full = owned(name);
        push_str(&mut full, "/");
        push_str(&mut full, nested[i].as_str());
        let ghost before = out@;
        out.push(full);
        assert(strings_view(out@) =~= strings_view(before).push(full@));
        assert(nv.take(i + 1) == nv.take(i as int).push(nv[i as int]));
        assert(nv.take(i + 1).map_values(|n: Seq<char>| name@ + "/"@ + n) =~= nv.take(
            i as int,
        ).map_values(|n: Seq<char>| name@ + "/"@ + n).push(name@ + "/"@ + nv[i as int]));
        i += 1;
    }
    assert(nv.take(nv.len() as int) == nv);
    out
}

/// Whether `download_templates` downloads: unless the templates are already
/// cached (their `nodejs` folder exists) and no download is forced.
pub fn templates_need_download(nodejs_cached: bool, force: bool) -> (r: bool)
    ensures
        r == (!nodejs_cached || force),
{
    !nodejs_cached || force
}

/// A listing with the templates of `names` holds only directory names of
/// `names` that are templates (not hidden, not `target`), and each of them.
pub proof fn lemma_templates_listing(names: Seq<String>, listing: Seq<String>)
    requires
        listing.to_multiset() == template_names(names).to_multiset(),
    ensures
        forall|x: String| #[trigger] listing.contains(x) ==> is_template_name(x@) && names.contains(x),
        forall|i: int| 0 <= i < names.len() && is_template_name(names[i]@) ==> listing.contains(
            #[trigger] names[i],
        ),
{
    broadcast use vstd::seq_lib::group_to_multiset_ensures;
    assert forall|x: String| #[trigger] listing.contains(x) implies is_template_name(x@)
        && names.contains(x) by {
        assert(listing.to_multiset().count(x) > 0);
        assert(template_names(names).contains(x));
        names.lemma_filter_contains_rev(template_pred(), x);
        let i = choose|i: int| 0 <= i < template_names(names).len() && template_names(names)[i] == x;
        names.filter_lemma(template_pred());
        assert(template_pred()(template_names(names)[i]));
    }
    assert forall|i: int| 0 <= i < names.len() && is_template_name(names[i]@) implies listing.contains(
        #[trigger] names[i],
    ) by {
        assert(template_pred()(names[i]));
        names.lemma_filter_contains(template_pred(), i);
        assert(template_names(names).to_multiset().count(names[i]) > 0);
    }
}

} // verus!
