//! What the template download decides: the version named by the latest
//! release, and where each entry of the repository's archive goes.
use vstd::prelude::*;

use crate::text::{
    chars_of, ends_with, find_from, index_of, index_of_char, lemma_index_of_found, matches_at,
    owned, replace_str, replaced, slice_from, slice_range, starts_with, str_ends_with, str_eq,
    str_starts_with, string_of, trim_leading, trim_leading_char,
};

verus! {

/// The text before a release's tag in the release page.
pub open spec fn tag_marker() -> Seq<char> {
    "release/tag/"@
}

/// The folder of the archive that holds the templates.
pub open spec fn templates_prefix() -> Seq<char> {
    "devcontainers-master/templates/"@
}

/// The version a tag names: the tag without its leading `v`s.
pub open spec fn tag_version(tag: Seq<char>) -> Seq<char> {
    trim_leading(tag, 'v')
}

/// `i` is the first position where `p` occurs in `s`.
pub open spec fn is_first_match(s: Seq<char>, p: Seq<char>, i: int) -> bool {
    matches_at(s, p, i) && forall|j: int| 0 <= j < i ==> !matches_at(s, p, j)
}

/// The version read after the tag marker: the text up to the next `"`, as a
/// tag; `0.0.0` when no `"` follows.
pub open spec fn version_after_marker(rest: Seq<char>) -> Seq<char> {
    match index_of(rest, '"') {
        Some(e) => tag_version(rest.take(e)),
        None => "0.0.0"@,
    }
}

/// The version that a release page names: after the first tag marker, or
/// `0.0.0` when there is none.
pub open spec fn release_page_version(page: Seq<char>) -> Seq<char> {
    if exists|i: int| is_first_match(page, tag_marker(), i) {
        let i = choose|i: int| is_first_match(page, tag_marker(), i);
        version_after_marker(page.skip(i + tag_marker().len()))
    } else {
        "0.0.0"@
    }
}

/// The text after the last `/` of a path: its last segment.
pub open spec fn after_last_slash(s: Seq<char>) -> Seq<char>
    decreases s.len(),
{
    if s.len() == 0 {
        s
    } else if s.last() == '/' {
        Seq::empty()
    } else {
        after_last_slash(s.drop_last()).push(s.last())
    }
}

/// The last segment of the path of the latest release's address (the path
/// splits at `/`).
pub fn last_path_segment(path: &str) -> (r: String)
    ensures
        r@ == after_last_slash(path@),
{
    let cs = chars_of(path);
    let mut i: usize = cs.len();
    assert(cs@.take(i as int) == cs@);
    assert(cs@.skip(i as int) =~= Seq::<char>::empty());
    while i > 0 && cs[i - 1] != '/'
        invariant
            i <= cs@.len(),
            cs@ == path@,
            after_last_slash(cs@) == after_last_slash(cs@.take(i as int)) + cs@.skip(i as int),
        decreases i,
    {
        let ghost t = cs@.take(i as int);
        assert(t.drop_last() == cs@.take(i - 1));
        assert(t.last() == cs@[i - 1]);
        assert(cs@.skip(i - 1) =~= seq![cs@[i - 1]] + cs@.skip(i as int));
        assert(after_last_slash(t) == after_last_slash(cs@.take(i - 1)).push(cs@[i - 1]));
        assert(after_last_slash(cs@.take(i - 1)).push(cs@[i - 1]) + cs@.skip(i as int)
            =~= after_last_slash(cs@.take(i - 1)) + cs@.skip(i - 1));
        i -= 1;
    }
    if i > 0 {
        assert(cs@.take(i as int).last() == cs@[i - 1]);
    }
    assert(after_last_slash(cs@.take(i as int)) =~= Seq::<char>::empty());
    let rest = slice_from(cs.as_slice(), i);
    string_of(rest.as_slice())
}

/// The version named by the last segment of the latest release's address.
pub fn version_from_tag(tag: &str) -> (r: String)
    ensures
        r@ == tag_version(tag@),
{
    trim_leading_char(tag, 'v')
}

/// The version named in the text of the latest release's page (see
/// `release_page_version`).
pub fn version_from_release_page(page: &str) -> (r: String)
    ensures
        r@ == release_page_version(page@),
{
    proof {
        reveal_strlit("release/tag/");
    }
    let pc = chars_of(page);
    let marker = chars_of("release/tag/");
    assert(marker@.len() == 12);
    match find_from(pc.as_slice(), marker.as_slice(), 0) {
        Some(pos) => {
            assert(is_first_match(page@, tag_marker(), pos as int));
            proof {
                assert forall|i: int| is_first_match(page@, tag_marker(), i) implies i == pos by {
                    if i < pos {
                    } else if pos < i {
                    }
                }
            }
            let n = pc.len();
            assert(pos + 12 <= n);
            let rest = slice_from(pc.as_slice(), pos + 12);
            match index_of_char(rest.as_slice(), '"') {
                Some(end) => {
                    proof {
                        lemma_index_of_found(rest@, '"');
                    }
                    let tag = slice_range(rest.as_slice(), 0, end);
                    assert(tag@ == rest@.take(end as int));
                    let tag_str = string_of(tag.as_slice());
                    trim_leading_char(tag_str.as_str(), 'v')
                },
                None => owned("0.0.0"),
            }
        },
        None => {
            assert(!exists|i: int| is_first_match(page@, tag_marker(), i));
            owned("0.0.0")
        },
    }
}

/// What is done with one entry of the archive.
pub enum EntryAction {
    /// The entry is not a template file.
    Skip,
    /// A folder to create, relative to the templates folder.
    CreateDir(String),
    /// A file to write, relative to the templates folder.
    WriteFile(String),
}

/// The plain value of an entry action.
pub enum EntryActionSpec {
    Skip,
    CreateDir(Seq<char>),
    WriteFile(Seq<char>),
}

impl EntryAction {
    pub open spec fn spec_of(&self) -> EntryActionSpec {
        match self {
            EntryAction::Skip => EntryActionSpec::Skip,
            EntryAction::CreateDir(p) => EntryActionSpec::CreateDir(p@),
            EntryAction::WriteFile(p) => EntryActionSpec::WriteFile(p@),
        }
    }
}

/// The action for an archive entry with the given safe path (`None` when the
/// entry's path leaves the archive) and raw name: only entries under the
/// templates folder are kept, at the path with every occurrence of that
/// folder's prefix taken out; a kept name ending in `/` is a folder.
pub open spec fn entry_action(enclosed: Option<Seq<char>>, name: Seq<char>) -> EntryActionSpec {
    match enclosed {
        None => EntryActionSpec::Skip,
        Some(path) => if !starts_with(path, templates_prefix()) {
            EntryActionSpec::Skip
        } else {
            let relative = replaced(path, templates_prefix(), Seq::empty());
            if relative.len() == 0 || relative == name {
                EntryActionSpec::Skip
            } else if ends_with(name, seq!['/']) {
                EntryActionSpec::CreateDir(relative)
            } else {
                EntryActionSpec::WriteFile(relative)
            }
        },
    }
}

/// The view of an optional string slice.
pub open spec fn opt_str_view(o: Option<&str>) -> Option<Seq<char>> {
    match o {
        Some(s) => Some(s@),
        None => None,
    }
}

/// Where an entry of the repository's archive goes (see `entry_action`).
pub fn archive_entry_action(enclosed: Option<&str>, name: &str) -> (r: EntryAction)
    ensures
        r.spec_of() == entry_action(opt_str_view(enclosed), name@),
{
    proof {
        reveal_strlit("devcontainers-master/templates/");
        reveal_strlit("");
        reveal_strlit("/");
        assert("/"@ =~= seq!['/']);
    }
    match enclosed {
        None => EntryAction::Skip,
        Some(path) => {
            if !str_starts_with(path, "devcontainers-master/templates/") {
                return EntryAction::Skip;
            }
            let relative = replace_str(path, "devcontainers-master/templates/", "");
            assert(""@ =~= Seq::<char>::empty());
            if relative.as_str().is_empty() || str_eq(relative.as_str(), name) {
                return EntryAction::Skip;
            }
            if str_ends_with(name, "/") {
                EntryAction::CreateDir(relative)
            } else {
                EntryAction::WriteFile(relative)
            }
        },
    }
}

// ---------------------------------------------------------------------------
// The archive of templates
// ---------------------------------------------------------------------------

/// An entry of a zip archive: its safe path (`None` when its name would lead
/// out of the folder it is extracted to), its raw name, and its contents
/// (`None` when they could not be read).
pub struct ArchiveEntry {
    pub enclosed: Option<String>,
    pub name: String,
    pub data: Option<Vec<u8>>,
}

/// The view of an optional string.
pub open spec fn opt_string_view(o: Option<String>) -> Option<Seq<char>> {
    match o {
        Some(s) => Some(s@),
        None => None,
    }
}

/// The view of optional contents.
pub open spec fn opt_bytes_view(o: Option<Vec<u8>>) -> Option<Seq<u8>> {
    match o {
        Some(d) => Some(d@),
        None => None,
    }
}

/// An archive entry as plain values.
pub open spec fn entry_view(e: ArchiveEntry) -> (Option<Seq<char>>, Seq<char>, Option<Seq<u8>>) {
    (opt_string_view(e.enclosed), e.name@, opt_bytes_view(e.data))
}

/// Archive entries as plain values.
pub open spec fn entries_seq_view(v: Seq<ArchiveEntry>) -> Seq<(Option<Seq<char>>, Seq<char>, Option<Seq<u8>>)> {
    v.map_values(|e: ArchiveEntry| entry_view(e))
}

/// What was read from an archive, as plain values.
pub open spec fn entries_view(r: Option<(Vec<ArchiveEntry>, bool)>) -> Option<
    (Seq<(Option<Seq<char>>, Seq<char>, Option<Seq<u8>>)>, bool),
> {
    match r {
        Some(p) => Some((entries_seq_view(p.0@), p.1)),
        None => None,
    }
}

/// What the `zip` crate reads from the bytes of an archive: `None` when they
/// are not an archive it can open; otherwise the entries it could open, in
/// order, and whether that was all of them (it stops at the first entry it
/// cannot open).
pub uninterp spec fn zip_entries(bytes: Seq<u8>) -> Option<
    (Seq<(Option<Seq<char>>, Seq<char>, Option<Seq<u8>>)>, bool),
>;

/// Reads the entries of a zip archive with `zip::ZipArchive::new`,
/// `ZipArchive::by_index` (stopping at the first error), `ZipFile::enclosed_name`
/// (converted with `to_string_lossy`), `ZipFile::name` and `Read::read_to_end`
/// (`None` for contents that could not be read). What the archive format
/// yields is not restated here: the contract names the result (`zip_entries`
/// of the bytes) and claims no more.
#[verifier::external_body]
pub(crate) fn read_zip_entries(bytes: &[u8]) -> (r: Option<(Vec<ArchiveEntry>, bool)>)
    ensures
        entries_view(r) == zip_entries(bytes@),
{
    let mut archive = zip::ZipArchive::new(std::io::Cursor::new(bytes)).ok()?;
    let mut entries = Vec::new();
    for i in 0..archive.len() {
        let Ok(mut file) = archive.by_index(i) else { return Some((entries, false)) };
        let mut data = Vec::new();
        let data = std::io::Read::read_to_end(&mut file, &mut data).ok().map(|_| data);
        let enclosed = file.enclosed_name().map(|p| p.to_string_lossy().to_string());
        entries.push(ArchiveEntry { enclosed, name: file.name().to_string(), data });
    }
    Some((entries, true))
}

/// What to write out of an archive: the items in order, and whether they are
/// all of it (when not, the extraction fails after writing them).
pub struct ExtractionPlan {
    pub items: Vec<(EntryAction, Vec<u8>)>,
    pub complete: bool,
}

/// An entry stops the extraction: it is a file to write whose contents could
/// not be read.
pub open spec fn stops_extraction(e: (Option<Seq<char>>, Seq<char>, Option<Seq<u8>>)) -> bool {
    entry_action(e.0, e.1) is WriteFile && e.2 is None
}

/// A plan item is the action for an entry, with the entry's contents (none
/// when they could not be read).
pub open spec fn plan_item_matches(
    item: (EntryAction, Vec<u8>),
    e: (Option<Seq<char>>, Seq<char>, Option<Seq<u8>>),
) -> bool {
    &&& item.0.spec_of() == entry_action(e.0, e.1)
    &&& item.1@ == match e.2 {
        Some(d) => d,
        None => Seq::empty(),
    }
}

/// A plan covers the entries in order up to the first one that stops the
/// extraction; it is complete when none does and every entry was opened.
pub open spec fn plan_matches(
    plan: ExtractionPlan,
    es: Seq<(Option<Seq<char>>, Seq<char>, Option<Seq<u8>>)>,
    all_opened: bool,
) -> bool {
    let n = plan.items@.len();
    &&& n <= es.len()
    &&& forall|i: int|
        0 <= i < n ==> plan_item_matches(#[trigger] plan.items@[i], es[i]) && !stops_extraction(
            es[i],
        )
    &&& n < es.len() ==> stops_extraction(es[n as int]) && !plan.complete
    &&& n == es.len() ==> plan.complete == all_opened
}

/// What to do with each entry of the archive (see `entry_action`), with the
/// entry's contents, up to the first file whose contents could not be read.
pub fn plan_extraction(entries: Vec<ArchiveEntry>, all_opened: bool) -> (r: ExtractionPlan)
    ensures
        plan_matches(r, entries_seq_view(entries@), all_opened),
{
    let ghost orig = entries@;
    let ghost es = entries_seq_view(orig);
    let mut rest = entries;
    let mut items: Vec<(EntryAction, Vec<u8>)> = Vec::new();
    while rest.len() > 0
        invariant
            items@.len() + rest@.len() == orig.len(),
            rest@ == orig.skip(items@.len() as int),
            es == entries_seq_view(orig),
            orig == entries@,
            forall|i: int|
                0 <= i < items@.len() ==> plan_item_matches(#[trigger] items@[i], es[i])
                    && !stops_extraction(es[i]),
        decreases rest.len(),
    {
        let ghost k = items@.len();
        let e = rest.remove(0);
        assert(e == orig[k as int]);
        assert(rest@ =~= orig.skip(k + 1int));
        let enclosed: Option<&str> = match &e.enclosed {
            Some(s) => Some(s.as_str()),
            None => None,
        };
        let action = archive_entry_action(enclosed, e.name.as_str());
        let is_file = match &action {
            EntryAction::WriteFile(_) => true,
            _ => false,
        };
        let ghost ev = entry_view(e);
        assert(es[k as int] == ev);
        match e.data {
            Some(d) => {
                items.push((action, d));
            },
            None => {
                if is_file {
                    assert(ev.2 is None);
                    assert(stops_extraction(es[k as int]));
                    return ExtractionPlan { items, complete: false };
                }
                items.push((action, Vec::new()));
            },
        }
    }
    ExtractionPlan { items, complete: all_opened }
}

/// What to write out of the archive in the given bytes: `None` exactly when
/// the `zip` crate cannot open them, else the plan for the entries it read
/// (see `plan_extraction`).
pub fn extraction_plan(bytes: &[u8]) -> (r: Option<ExtractionPlan>)
    ensures
        r is None <==> zip_entries(bytes@) is None,
        r matches Some(plan) ==> (zip_entries(bytes@) matches Some(z) && plan_matches(
            plan,
            z.0,
            z.1,
        )),
{
    match read_zip_entries(bytes) {
        None => None,
        Some((entries, all_opened)) => Some(plan_extraction(entries, all_opened)),
    }
}

/// A version read from a tag never starts with `v`, and reading it again as a
/// tag changes nothing.
pub proof fn lemma_tag_version_trimmed(tag: Seq<char>)
    ensures
        tag_version(tag).len() == 0 || tag_version(tag)[0] != 'v',
        tag_version(tag_version(tag)) == tag_version(tag),
    decreases tag.len(),
{
    if tag.len() > 0 && tag[0] == 'v' {
        lemma_tag_version_trimmed(tag.skip(1));
    }
}

} // verus!
