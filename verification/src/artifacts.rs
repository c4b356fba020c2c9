use vstd::prelude::*;

use crate::clock::{compact_timestamp, format_compact_timestamp, utc_now_parts, valid_parts, UtcParts};
use crate::config::{join_path, path_join};
use crate::sort::{KeyPart, KeyPartModel, key_model, sort_by_keys, sorted_by_models};
use crate::text::{
    ascii_lower, chars_of, ends_with_chars, is_white_space, lemma_trim_contains, lemma_trim_unchanged, has_suffix, is_ascii_alnum, is_blank, is_lower_hex, join, join_texts,
    push_char, push_str, string_from_chars, string_from_range, text_equal, trim, trimmed_chars,
};

verus! {

/// The shape of a saved inventory report, which decides where it is stored.
#[derive(Clone, Copy, PartialEq, Eq, Structural, Debug)]
pub enum InventoryReportKind {
    /// Reports of `inventory resource list`.
    ResourcesList,
    /// Reports of `inventory resource tree`.
    ResourcesTree,
    /// Reports of `inventory group list`.
    GroupsList,
}

/// The shape of a saved snapshot, which decides where it is stored.
#[derive(Clone, Copy, PartialEq, Eq, Structural, Debug)]
pub enum SnapshotKind {
    /// Snapshots of `az resource list`.
    Resources,
    /// Snapshots of `az group list`.
    Groups,
}

/// One saved inventory report on disk.
pub struct InventoryReportFile {
    /// The plain file name.
    pub file_name: String,
    /// The full path.
    pub path: String,
    /// The modification time in nanoseconds since the Unix epoch, when known.
    pub modified_at: Option<u64>,
    /// The file size in bytes.
    pub size_bytes: u64,
}

/// One saved snapshot on disk.
pub struct SnapshotFile {
    /// Whether this is a resource or a group snapshot.
    pub kind: SnapshotKind,
    /// The plain file name.
    pub file_name: String,
    /// The full path.
    pub path: String,
    /// The modification time in nanoseconds since the Unix epoch, when known.
    pub modified_at: Option<u64>,
    /// The file size in bytes.
    pub size_bytes: u64,
}

/// The result of resolving a user-supplied artifact name.
pub enum ArtifactMatch<T> {
    /// Exactly one artifact matched.
    One(T),
    /// Several artifacts matched, in listing order.
    Many(Vec<T>),
    /// No artifact matched.
    NoMatch,
}

// ---------------------------------------------------------------------------
// File names
// ---------------------------------------------------------------------------

/// The file name `stem` with `.extension` appended unless it already ends so.
pub open spec fn with_extension(stem: Seq<char>, extension: Seq<char>) -> Seq<char> {
    if has_suffix(stem, seq!['.'] + extension) {
        stem
    } else {
        stem + seq!['.'] + extension
    }
}

/// Adds a file extension when the stem does not already carry it.
pub fn ensure_file_extension(file_stem: &str, extension: &str) -> (r: String)
    ensures
        r@ == with_extension(file_stem@, extension@),
{
    let mut suffix = String::new();
    push_char(&mut suffix, '.');
    push_str(&mut suffix, extension);
    let stem_chars = chars_of(file_stem);
    let suffix_chars = chars_of(suffix.as_str());
    assert(suffix@ == seq!['.'] + extension@);
    if ends_with_chars(&stem_chars, &suffix_chars) {
        return file_stem.to_owned();
    }
    let mut out = file_stem.to_owned();
    push_str(&mut out, suffix.as_str());
    out
}

/// The trimmed text when it holds visible characters.
pub fn non_empty_text(value: &str) -> (r: Option<String>)
    ensures
        r is Some <==> !is_blank(value@),
        r matches Some(t) ==> t@ == trim(value@),
{
    let cs = trimmed_chars(value);
    if cs.len() == 0 {
        None
    } else {
        Some(string_from_chars(&cs))
    }
}

/// One step of turning a name into a file stem: ASCII letters and digits are
/// kept (lowercased), a dot is kept unless it would start the stem or follow
/// a separator, and every other character becomes one dash unless it would
/// start the stem or repeat a dash.
pub open spec fn slug_step(state: (Seq<char>, bool), c: char) -> (Seq<char>, bool) {
    let (slug, previous_was_dash) = state;
    if is_ascii_alnum(c) {
        (slug.push(ascii_lower(c)), false)
    } else if c == '.' {
        (if slug.len() > 0 && !previous_was_dash {
            slug.push('.')
        } else {
            slug
        }, false)
    } else if slug.len() > 0 && !previous_was_dash {
        (slug.push('-'), true)
    } else {
        state
    }
}

/// The stem built from the characters of `s`, and whether it ends with an emitted dash.
pub open spec fn slug_scan(s: Seq<char>) -> (Seq<char>, bool)
    decreases s.len(),
{
    if s.len() == 0 {
        (Seq::empty(), false)
    } else {
        slug_step(slug_scan(s.drop_last()), s.last())
    }
}

/// The text without trailing dashes and dots.
pub open spec fn strip_separators(s: Seq<char>) -> Seq<char>
    decreases s.len(),
{
    if s.len() > 0 && (s.last() == '-' || s.last() == '.') {
        strip_separators(s.drop_last())
    } else {
        s
    }
}

/// The filesystem-safe file stem of a user-supplied name.
pub open spec fn slug(name: Seq<char>) -> Seq<char> {
    let s = strip_separators(slug_scan(trim(name)).0);
    if s.len() == 0 {
        "report"@
    } else {
        s
    }
}

/// Characters that may appear in a file stem: lowercase ASCII letters,
/// digits, dot and dash.
pub open spec fn is_stem_char(c: char) -> bool {
    ('a' <= c && c <= 'z') || ('0' <= c && c <= '9') || c == '.' || c == '-'
}

/// Converts one user-supplied name into a simple filesystem-safe file stem.
pub fn slugify_file_stem(name: &str) -> (r: String)
    ensures
        r@ == slug(name@),
{
    let cs = trimmed_chars(name);
    let mut slug_chars: Vec<char> = Vec::new();
    let mut previous_was_dash = false;
    let mut i: usize = 0;
    while i < cs.len()
        invariant
            i <= cs.len(),
            (slug_chars@, previous_was_dash) == slug_scan(cs@.take(i as int)),
        decreases cs.len() - i,
    {
        let c = cs[i];
        assert(cs@.take(i + 1).drop_last() == cs@.take(i as int));
        if ('a' <= c && c <= 'z') || ('A' <= c && c <= 'Z') || ('0' <= c && c <= '9') {
            let lower = if 'A' <= c && c <= 'Z' {
                ((c as u32) + 32) as u8 as char
            } else {
                c
            };
            assert(lower == ascii_lower(c)) by {
                if 'A' <= c && c <= 'Z' {
                    assert((((c as u32) + 32) as u8) as char == ((c as u32) + 32) as char);
                }
            }
            slug_chars.push(lower);
            previous_was_dash = false;
        } else if c == '.' {
            if slug_chars.len() > 0 && !previous_was_dash {
                slug_chars.push('.');
            }
            previous_was_dash = false;
        } else if slug_chars.len() > 0 && !previous_was_dash {
            slug_chars.push('-');
            previous_was_dash = true;
        }
        i = i + 1;
    }
    assert(cs@.take(cs.len() as int) == cs@);
    let mut end = slug_chars.len();
    assert(slug_chars@.take(end as int) == slug_chars@);
    while end > 0 && (slug_chars[end - 1] == '-' || slug_chars[end - 1] == '.')
        invariant
            end <= slug_chars.len(),
            strip_separators(slug_chars@) == strip_separators(slug_chars@.take(end as int)),
        decreases end,
    {
        assert(slug_chars@.take(end as int).drop_last() == slug_chars@.take(end - 1));
        end = end - 1;
    }
    assert(strip_separators(slug_chars@.take(end as int)) == slug_chars@.take(end as int));
    assert(slug_chars@.take(end as int) == slug_chars@.subrange(0, end as int));
    if end == 0 {
        return "report".to_owned();
    }
    string_from_range(&slug_chars, 0, end)
}

// ---------------------------------------------------------------------------
// Report kinds and locations
// ---------------------------------------------------------------------------

/// The path of one report kind relative to the inventory directory.
pub open spec fn report_kind_relative(kind: InventoryReportKind) -> Seq<char> {
    match kind {
        InventoryReportKind::ResourcesList => path_join("resources"@, "list"@),
        InventoryReportKind::ResourcesTree => path_join("resources"@, "tree"@),
        InventoryReportKind::GroupsList => path_join("groups"@, "list"@),
    }
}

/// The directory below `inventory` for one report kind.
pub open spec fn report_kind_directory(base: Seq<char>, kind: InventoryReportKind) -> Seq<char> {
    path_join(base, report_kind_relative(kind))
}

/// The relative directory below `inventory` for one report kind:
/// `resources/list`, `resources/tree` or `groups/list`.
pub fn inventory_report_kind_relative_directory(report_kind: InventoryReportKind) -> (r: String)
    ensures
        r@ == report_kind_relative(report_kind),
{
    match report_kind {
        InventoryReportKind::ResourcesList => join_path("resources", "list"),
        InventoryReportKind::ResourcesTree => join_path("resources", "tree"),
        InventoryReportKind::GroupsList => join_path("groups", "list"),
    }
}

/// The leaf directory of one report kind below the inventory directory.
pub fn inventory_report_kind_directory(inventory_directory: &str, report_kind: InventoryReportKind) -> (r:
    String)
    ensures
        r@ == report_kind_directory(inventory_directory@, report_kind),
{
    let relative = inventory_report_kind_relative_directory(report_kind);
    join_path(inventory_directory, relative.as_str())
}

/// The directory name below `snapshot` for one snapshot kind.
pub open spec fn snapshot_directory_name(kind: SnapshotKind) -> Seq<char> {
    match kind {
        SnapshotKind::Resources => "resources"@,
        SnapshotKind::Groups => "groups"@,
    }
}

/// The directory name below `snapshot` for one snapshot kind.
pub fn snapshot_kind_directory_name(snapshot_kind: SnapshotKind) -> (r: String)
    ensures
        r@ == snapshot_directory_name(snapshot_kind),
{
    match snapshot_kind {
        SnapshotKind::Resources => "resources".to_owned(),
        SnapshotKind::Groups => "groups".to_owned(),
    }
}

/// The singular word users type for one snapshot kind.
pub open spec fn snapshot_label(kind: SnapshotKind) -> Seq<char> {
    match kind {
        SnapshotKind::Resources => "resource"@,
        SnapshotKind::Groups => "group"@,
    }
}

/// The singular word users type for one snapshot kind.
pub fn snapshot_kind_label(snapshot_kind: SnapshotKind) -> (r: String)
    ensures
        r@ == snapshot_label(snapshot_kind),
{
    match snapshot_kind {
        SnapshotKind::Resources => "resource".to_owned(),
        SnapshotKind::Groups => "group".to_owned(),
    }
}

/// The generated file name prefix of one report kind.
pub open spec fn report_prefix(kind: InventoryReportKind) -> Seq<char> {
    match kind {
        InventoryReportKind::ResourcesList => "azure-inventory-resources-list"@,
        InventoryReportKind::ResourcesTree => "azure-inventory-resources-tree"@,
        InventoryReportKind::GroupsList => "azure-inventory-groups-list"@,
    }
}

/// The generated file name prefix of one report kind.
pub fn inventory_report_kind_file_prefix(report_kind: InventoryReportKind) -> (r: String)
    ensures
        r@ == report_prefix(report_kind),
{
    match report_kind {
        InventoryReportKind::ResourcesList => "azure-inventory-resources-list".to_owned(),
        InventoryReportKind::ResourcesTree => "azure-inventory-resources-tree".to_owned(),
        InventoryReportKind::GroupsList => "azure-inventory-groups-list".to_owned(),
    }
}

// ---------------------------------------------------------------------------
// Generated names
// ---------------------------------------------------------------------------

/// Calls `uuid::Uuid::new_v4` and renders it in the simple format, which
/// `uuid` writes as 32 lowercase hexadecimal digits. The value is random.
#[verifier::external_body]
fn new_simple_uuid() -> (r: String)
    ensures
        r@.len() == 32,
        forall|i: int| 0 <= i < r@.len() ==> is_lower_hex(#[trigger] r@[i]),
{
    uuid::Uuid::new_v4().simple().to_string()
}

/// The generated name `<prefix>-<timestamp>-<first 8 characters of id>.<extension>`.
pub open spec fn generated_name(
    prefix: Seq<char>,
    timestamp: Seq<char>,
    unique_id: Seq<char>,
    extension: Seq<char>,
) -> Seq<char> {
    prefix + "-"@ + timestamp + "-"@ + unique_id.take(8) + "."@ + extension
}

/// Composes a generated file name from its parts.
pub fn compose_generated_file_name(prefix: &str, timestamp: &str, unique_id: &str, extension: &str) -> (r:
    String)
    requires
        unique_id@.len() >= 8,
    ensures
        r@ == generated_name(prefix@, timestamp@, unique_id@, extension@),
{
    let id_chars = chars_of(unique_id);
    let short_id = string_from_range(&id_chars, 0, 8);
    let mut out = prefix.to_owned();
    push_str(&mut out, "-");
    push_str(&mut out, timestamp);
    push_str(&mut out, "-");
    push_str(&mut out, short_id.as_str());
    push_str(&mut out, ".");
    push_str(&mut out, extension);
    assert(id_chars@.subrange(0, 8) == unique_id@.take(8));
    out
}

/// Whether `r` is a generated name with this prefix and extension: the
/// compact timestamp of some UTC instant and the first eight of the 32
/// lowercase hexadecimal digits of a UUID.
pub open spec fn is_generated_name(r: Seq<char>, prefix: Seq<char>, extension: Seq<char>) -> bool {
    exists|now: UtcParts, unique_id: Seq<char>|
        valid_parts(now) && unique_id.len() == 32 && (forall|i: int|
            0 <= i < unique_id.len() ==> is_lower_hex(#[trigger] unique_id[i])) && r == generated_name(
            prefix,
            compact_timestamp(now),
            unique_id,
            extension,
        )
}

/// A unique Markdown file name from a prefix, the current UTC time and a
/// fresh UUID fragment.
pub fn build_generated_markdown_file_name(prefix: &str) -> (r: String)
    ensures
        is_generated_name(r@, prefix@, "md"@),
{
    let now = utc_now_parts();
    let timestamp = format_compact_timestamp(&now);
    let unique_id = new_simple_uuid();
    compose_generated_file_name(prefix, timestamp.as_str(), unique_id.as_str(), "md")
}

/// A unique snapshot file name `azure-snapshot-<timestamp>-<id>.json`.
pub fn build_snapshot_file_name() -> (r: String)
    ensures
        is_generated_name(r@, "azure-snapshot"@, "json"@),
{
    let now = utc_now_parts();
    let timestamp = format_compact_timestamp(&now);
    let unique_id = new_simple_uuid();
    compose_generated_file_name("azure-snapshot", timestamp.as_str(), unique_id.as_str(), "json")
}

/// A unique inventory file name `azure-inventory-<timestamp>-<id>.md`.
pub fn build_inventory_file_name() -> (r: String)
    ensures
        is_generated_name(r@, "azure-inventory"@, "md"@),
{
    build_generated_markdown_file_name("azure-inventory")
}

/// The file name of a report saved under a user-chosen name.
pub open spec fn custom_report_name(requested: Seq<char>) -> Seq<char> {
    with_extension(slug(trim(requested)), "md"@)
}

/// The Markdown file name for an inventory report: the slug of the requested
/// name when it holds visible text, else a generated name for the kind.
pub fn build_inventory_report_file_name(
    report_kind: InventoryReportKind,
    requested_name: Option<&str>,
) -> (r: String)
    ensures
        match requested_name {
            Some(n) if !is_blank(n@) => r@ == custom_report_name(n@),
            _ => is_generated_name(r@, report_prefix(report_kind), "md"@),
        },
{
    if let Some(requested) = requested_name {
        if let Some(name) = non_empty_text(requested) {
            let stem = slugify_file_stem(name.as_str());
            return ensure_file_extension(stem.as_str(), "md");
        }
    }
    let prefix = inventory_report_kind_file_prefix(report_kind);
    build_generated_markdown_file_name(prefix.as_str())
}

/// Whether a file name belongs to an inventory Markdown report.
pub fn is_inventory_report_file_name(file_name: &str) -> (r: bool)
    ensures
        r == has_suffix(file_name@, ".md"@),
{
    let cs = chars_of(file_name);
    let suffix = chars_of(".md");
    ends_with_chars(&cs, &suffix)
}

/// Whether a file name belongs to a snapshot JSON file.
pub fn is_snapshot_file_name(file_name: &str) -> (r: bool)
    ensures
        r == has_suffix(file_name@, ".json"@),
{
    let cs = chars_of(file_name);
    let suffix = chars_of(".json");
    ends_with_chars(&cs, &suffix)
}

// ---------------------------------------------------------------------------
// Name matching
// ---------------------------------------------------------------------------

/// The file name without its final `.extension`, when it has one.
pub open spec fn stem_of(file_name: Seq<char>, extension: Seq<char>) -> Seq<char> {
    let suffix = seq!['.'] + extension;
    if has_suffix(file_name, suffix) {
        file_name.take(file_name.len() - suffix.len())
    } else {
        file_name
    }
}

/// Whether a file name answers to a requested name: the exact file name, the
/// name with the extension added, or the bare stem.
pub open spec fn name_matches(file_name: Seq<char>, name: Seq<char>, extension: Seq<char>) -> bool {
    let requested = trim(name);
    ||| file_name == requested
    ||| file_name == with_extension(requested, extension)
    ||| stem_of(file_name, extension) == requested
}

/// The artifacts whose file names match, in their original order.
pub open spec fn matching<T>(
    file_names: Seq<Seq<char>>,
    artifacts: Seq<T>,
    name: Seq<char>,
    extension: Seq<char>,
) -> Seq<T>
    decreases artifacts.len(),
{
    if artifacts.len() == 0 {
        Seq::empty()
    } else {
        let rest = matching(file_names, artifacts.drop_last(), name, extension);
        if name_matches(file_names[artifacts.len() - 1], name, extension) {
            rest.push(artifacts.last())
        } else {
            rest
        }
    }
}

/// How a sequence of matches is reported.
pub open spec fn match_outcome<T>(r: ArtifactMatch<T>, matches: Seq<T>) -> bool {
    match r {
        ArtifactMatch::One(x) => matches.len() == 1 && x == matches[0],
        ArtifactMatch::Many(v) => matches.len() > 1 && v@ == matches,
        ArtifactMatch::NoMatch => matches.len() == 0,
    }
}

/// Whether a file name answers to a requested name.
pub fn file_name_matches(file_name: &str, name: &str, extension: &str) -> (r: bool)
    ensures
        r == name_matches(file_name@, name@, extension@),
{
    let requested_chars = trimmed_chars(name);
    let requested = string_from_chars(&requested_chars);
    let with_ext = ensure_file_extension(requested.as_str(), extension);
    let mut suffix = String::new();
    push_char(&mut suffix, '.');
    push_str(&mut suffix, extension);
    assert(suffix@ == seq!['.'] + extension@);
    let file_chars = chars_of(file_name);
    let suffix_chars = chars_of(suffix.as_str());
    let stem = if ends_with_chars(&file_chars, &suffix_chars) {
        string_from_range(&file_chars, 0, file_chars.len() - suffix_chars.len())
    } else {
        string_from_chars(&file_chars)
    };
    assert(file_chars@.subrange(0, file_chars@.len() - suffix_chars@.len()) == file_chars@.take(
        file_chars@.len() - suffix_chars@.len(),
    ));
    text_equal(file_name, requested.as_str()) || text_equal(file_name, with_ext.as_str())
        || text_equal(stem.as_str(), requested.as_str())
}

/// Matches a requested name against artifacts with the parallel `file_names`.
pub fn match_artifact_name<T>(
    name: &str,
    artifacts: Vec<T>,
    file_names: &Vec<String>,
    extension: &str,
) -> (r: ArtifactMatch<T>)
    requires
        artifacts.len() == file_names.len(),
    ensures
        match_outcome(
            r,
            matching(file_names@.map_values(|s: String| s@), artifacts@, name@, extension@),
        ),
{
    let ghost names = file_names@.map_values(|s: String| s@);
    let ghost all = artifacts@;
    let n = artifacts.len();
    let mut rest = artifacts;
    let mut matches: Vec<T> = Vec::new();
    let mut i: usize = 0;
    assert(all.take(0) =~= Seq::<T>::empty());
    while i < n
        invariant
            i <= n == all.len() == file_names.len(),
            names == file_names@.map_values(|s: String| s@),
            rest@ == all.skip(i as int),
            matches@ == matching(names, all.take(i as int), name@, extension@),
        decreases n - i,
    {
        let ghost before = rest@;
        let item = rest.remove(0);
        assert(item == all[i as int]) by {
            assert(before[0] == all.skip(i as int)[0]);
        }
        assert(rest@ =~= all.skip(i + 1));
        assert(all.take(i + 1).drop_last() =~= all.take(i as int));
        assert(names[i as int] == file_names@[i as int]@);
        if file_name_matches(file_names[i].as_str(), name, extension) {
            matches.push(item);
        }
        i = i + 1;
    }
    assert(all.take(n as int) =~= all);
    if matches.len() == 0 {
        ArtifactMatch::NoMatch
    } else if matches.len() == 1 {
        let only = matches.remove(0);
        ArtifactMatch::One(only)
    } else {
        ArtifactMatch::Many(matches)
    }
}

fn copy_text(s: &String) -> (r: String)
    ensures
        r@ == s@,
{
    s.clone()
}

/// The file names of a list of reports.
pub open spec fn report_names(reports: Seq<InventoryReportFile>) -> Seq<Seq<char>> {
    reports.map_values(|r: InventoryReportFile| r.file_name@)
}

/// The file names of a list of snapshots.
pub open spec fn snapshot_names(snapshots: Seq<SnapshotFile>) -> Seq<Seq<char>> {
    snapshots.map_values(|s: SnapshotFile| s.file_name@)
}

fn report_file_names(reports: &Vec<InventoryReportFile>) -> (r: Vec<String>)
    ensures
        r@.map_values(|s: String| s@) == report_names(reports@),
        r.len() == reports.len(),
{
    let mut out: Vec<String> = Vec::new();
    let mut i: usize = 0;
    while i < reports.len()
        invariant
            i <= reports.len(),
            forall|j: int| 0 <= j < i ==> (#[trigger] out@[j])@ == reports@[j].file_name@,
            out.len() == i,
        decreases reports.len() - i,
    {
        out.push(copy_text(&reports[i].file_name));
        i = i + 1;
    }
    assert(out@.map_values(|s: String| s@) =~= report_names(reports@));
    out
}

fn snapshot_file_names(snapshots: &Vec<SnapshotFile>) -> (r: Vec<String>)
    ensures
        r@.map_values(|s: String| s@) == snapshot_names(snapshots@),
        r.len() == snapshots.len(),
{
    let mut out: Vec<String> = Vec::new();
    let mut i: usize = 0;
    while i < snapshots.len()
        invariant
            i <= snapshots.len(),
            forall|j: int| 0 <= j < i ==> (#[trigger] out@[j])@ == snapshots@[j].file_name@,
            out.len() == i,
        decreases snapshots.len() - i,
    {
        out.push(copy_text(&snapshots[i].file_name));
        i = i + 1;
    }
    assert(out@.map_values(|s: String| s@) =~= snapshot_names(snapshots@));
    out
}

/// Matches saved inventory reports by file name, stem or implicit `.md` name.
pub fn match_inventory_report_name(name: &str, reports: Vec<InventoryReportFile>) -> (r:
    ArtifactMatch<InventoryReportFile>)
    ensures
        match_outcome(r, matching(report_names(reports@), reports@, name@, "md"@)),
{
    let names = report_file_names(&reports);
    match_artifact_name(name, reports, &names, "md")
}

/// Matches saved snapshots by file name, stem or implicit `.json` name.
pub fn match_snapshot_name(name: &str, snapshots: Vec<SnapshotFile>) -> (r: ArtifactMatch<
    SnapshotFile,
>)
    ensures
        match_outcome(r, matching(snapshot_names(snapshots@), snapshots@, name@, "json"@)),
{
    let names = snapshot_file_names(&snapshots);
    match_artifact_name(name, snapshots, &names, "json")
}


// ---------------------------------------------------------------------------
// Listings and snapshot selection
// ---------------------------------------------------------------------------

/// The listing order key: known modification times first, newest first, then
/// file names in descending order.
pub open spec fn listing_key(modified: Option<u64>, name: Seq<char>) -> Seq<KeyPartModel> {
    seq![
        KeyPartModel::DescNumber(if modified is Some { 1 } else { 0 }),
        KeyPartModel::DescNumber(
            match modified {
                Some(t) => t as nat,
                None => 0,
            },
        ),
        KeyPartModel::Desc(name),
    ]
}

fn listing_sort_key(modified: Option<u64>, name: &str) -> (r: Vec<KeyPart>)
    ensures
        key_model(r) == listing_key(modified, name@),
{
    let mut key: Vec<KeyPart> = Vec::new();
    match modified {
        Some(t) => {
            key.push(KeyPart::DescNumber(1));
            key.push(KeyPart::DescNumber(t));
        },
        None => {
            key.push(KeyPart::DescNumber(0));
            key.push(KeyPart::DescNumber(0));
        },
    }
    key.push(KeyPart::Desc(chars_of(name)));
    assert(key_model(key) =~= listing_key(modified, name@));
    key
}

/// Reports ordered newest first, ties by file name descending.
pub open spec fn newest_first_reports(s: Seq<InventoryReportFile>) -> Seq<InventoryReportFile> {
    sorted_by_models(
        s.map_values(|x: InventoryReportFile| listing_key(x.modified_at, x.file_name@)),
        s,
    )
}

/// Snapshots ordered newest first, ties by file name descending.
pub open spec fn newest_first_snapshots(s: Seq<SnapshotFile>) -> Seq<SnapshotFile> {
    sorted_by_models(s.map_values(|x: SnapshotFile| listing_key(x.modified_at, x.file_name@)), s)
}

/// The reports whose file names end with `.md`, in order.
pub open spec fn markdown_reports(s: Seq<InventoryReportFile>) -> Seq<InventoryReportFile>
    decreases s.len(),
{
    if s.len() == 0 {
        s
    } else if has_suffix(s.last().file_name@, ".md"@) {
        markdown_reports(s.drop_last()).push(s.last())
    } else {
        markdown_reports(s.drop_last())
    }
}

/// The snapshots whose file names end with `.json`, in order.
pub open spec fn json_snapshots(s: Seq<SnapshotFile>) -> Seq<SnapshotFile>
    decreases s.len(),
{
    if s.len() == 0 {
        s
    } else if has_suffix(s.last().file_name@, ".json"@) {
        json_snapshots(s.drop_last()).push(s.last())
    } else {
        json_snapshots(s.drop_last())
    }
}

/// Lists the inventory reports among the entries read from the report
/// directories: keeps the Markdown files and orders them newest first, ties
/// by file name descending.
pub fn list_inventory_reports_in_directory(entries: Vec<InventoryReportFile>) -> (r: Vec<
    InventoryReportFile,
>)
    ensures
        r@ == newest_first_reports(markdown_reports(entries@)),
{
    let ghost all = entries@;
    let n = entries.len();
    let mut rest = entries;
    let mut kept: Vec<InventoryReportFile> = Vec::new();
    let mut keys: Vec<Vec<KeyPart>> = Vec::new();
    let mut i: usize = 0;
    assert(all.take(0) =~= Seq::<InventoryReportFile>::empty());
    while i < n
        invariant
            i <= n == all.len(),
            rest@ == all.skip(i as int),
            kept@ == markdown_reports(all.take(i as int)),
            keys.len() == kept.len(),
            forall|j: int|
                0 <= j < keys.len() ==> key_model(#[trigger] keys@[j]) == listing_key(
                    kept@[j].modified_at,
                    kept@[j].file_name@,
                ),
        decreases n - i,
    {
        let ghost before = rest@;
        let item = rest.remove(0);
        assert(item == all[i as int]) by {
            assert(before[0] == all.skip(i as int)[0]);
        }
        assert(rest@ =~= all.skip(i + 1));
        assert(all.take(i + 1).drop_last() =~= all.take(i as int));
        if is_inventory_report_file_name(item.file_name.as_str()) {
            keys.push(listing_sort_key(item.modified_at, item.file_name.as_str()));
            kept.push(item);
        }
        i = i + 1;
    }
    assert(all.take(n as int) =~= all);
    let ghost models = keys@.map_values(|k: Vec<KeyPart>| key_model(k));
    assert(models =~= kept@.map_values(
        |x: InventoryReportFile| listing_key(x.modified_at, x.file_name@),
    ));
    sort_by_keys(kept, keys)
}

/// Lists the snapshots among the entries read from the snapshot
/// directories: keeps the JSON files and orders them newest first, ties by
/// file name descending.
pub fn list_snapshots_in_directory(entries: Vec<SnapshotFile>) -> (r: Vec<SnapshotFile>)
    ensures
        r@ == newest_first_snapshots(json_snapshots(entries@)),
{
    let ghost all = entries@;
    let n = entries.len();
    let mut rest = entries;
    let mut kept: Vec<SnapshotFile> = Vec::new();
    let mut keys: Vec<Vec<KeyPart>> = Vec::new();
    let mut i: usize = 0;
    assert(all.take(0) =~= Seq::<SnapshotFile>::empty());
    while i < n
        invariant
            i <= n == all.len(),
            rest@ == all.skip(i as int),
            kept@ == json_snapshots(all.take(i as int)),
            keys.len() == kept.len(),
            forall|j: int|
                0 <= j < keys.len() ==> key_model(#[trigger] keys@[j]) == listing_key(
                    kept@[j].modified_at,
                    kept@[j].file_name@,
                ),
        decreases n - i,
    {
        let ghost before = rest@;
        let item = rest.remove(0);
        assert(item == all[i as int]) by {
            assert(before[0] == all.skip(i as int)[0]);
        }
        assert(rest@ =~= all.skip(i + 1));
        assert(all.take(i + 1).drop_last() =~= all.take(i as int));
        if is_snapshot_file_name(item.file_name.as_str()) {
            keys.push(listing_sort_key(item.modified_at, item.file_name.as_str()));
            kept.push(item);
        }
        i = i + 1;
    }
    assert(all.take(n as int) =~= all);
    let ghost models = keys@.map_values(|k: Vec<KeyPart>| key_model(k));
    assert(models =~= kept@.map_values(
        |x: SnapshotFile| listing_key(x.modified_at, x.file_name@),
    ));
    sort_by_keys(kept, keys)
}

/// The snapshots of one kind, in order.
pub open spec fn of_kind(s: Seq<SnapshotFile>, kind: SnapshotKind) -> Seq<SnapshotFile>
    decreases s.len(),
{
    if s.len() == 0 {
        s
    } else if s.last().kind == kind {
        of_kind(s.drop_last(), kind).push(s.last())
    } else {
        of_kind(s.drop_last(), kind)
    }
}

/// The message when several snapshots answer to a name.
pub open spec fn many_snapshots_message(
    kind: SnapshotKind,
    requested: Seq<char>,
    names: Seq<Seq<char>>,
) -> Seq<char> {
    "multiple "@ + snapshot_label(kind) + " snapshots match `"@ + requested + "`: "@ + join(
        names,
        ", "@,
    )
}

/// The message when no snapshot answers to a name.
pub open spec fn no_named_snapshot_message(kind: SnapshotKind, requested: Seq<char>) -> Seq<char> {
    "no "@ + snapshot_label(kind) + " snapshot found for `"@ + requested
        + "`. Run `martijn azure snapshot create "@ + snapshot_label(kind) + "` first."@
}

/// The message when there is no snapshot of the kind at all.
pub open spec fn no_snapshots_message(kind: SnapshotKind) -> Seq<char> {
    "no "@ + snapshot_label(kind) + " snapshots found. Run `martijn azure snapshot create "@
        + snapshot_label(kind) + "` first."@
}

/// Which snapshot a command uses: the one of the kind that answers to the
/// requested name, or the newest of the kind when no name is given.
pub open spec fn snapshot_selection(
    kind: SnapshotKind,
    name: Option<Seq<char>>,
    listing: Seq<SnapshotFile>,
) -> Result<SnapshotFile, Seq<char>> {
    let same = of_kind(listing, kind);
    match name {
        Some(n) if !is_blank(n) => {
            let requested = trim(n);
            let m = matching(snapshot_names(same), same, requested, "json"@);
            if m.len() == 1 {
                Ok(m[0])
            } else if m.len() > 1 {
                Err(many_snapshots_message(kind, requested, snapshot_names(m)))
            } else {
                Err(no_named_snapshot_message(kind, requested))
            }
        },
        _ => if same.len() > 0 {
            Ok(same[0])
        } else {
            Err(no_snapshots_message(kind))
        },
    }
}

fn snapshots_of_kind(snapshots: Vec<SnapshotFile>, kind: SnapshotKind) -> (r: Vec<SnapshotFile>)
    ensures
        r@ == of_kind(snapshots@, kind),
{
    let ghost all = snapshots@;
    let n = snapshots.len();
    let mut rest = snapshots;
    let mut kept: Vec<SnapshotFile> = Vec::new();
    let mut i: usize = 0;
    assert(all.take(0) =~= Seq::<SnapshotFile>::empty());
    while i < n
        invariant
            i <= n == all.len(),
            rest@ == all.skip(i as int),
            kept@ == of_kind(all.take(i as int), kind),
        decreases n - i,
    {
        let ghost before = rest@;
        let item = rest.remove(0);
        assert(item == all[i as int]) by {
            assert(before[0] == all.skip(i as int)[0]);
        }
        assert(rest@ =~= all.skip(i + 1));
        assert(all.take(i + 1).drop_last() =~= all.take(i as int));
        if item.kind == kind {
            kept.push(item);
        }
        i = i + 1;
    }
    assert(all.take(n as int) =~= all);
    kept
}

/// Selects the snapshot a command works on from a newest-first listing: the
/// one of the requested kind that answers to the name, or the newest of that
/// kind when no name is given. Ambiguous and missing names are errors.
pub fn select_snapshot_file(
    snapshot_kind: SnapshotKind,
    snapshot_name: Option<&str>,
    snapshots: Vec<SnapshotFile>,
) -> (r: Result<SnapshotFile, String>)
    ensures
        match (r, snapshot_selection(
            snapshot_kind,
            match snapshot_name {
                Some(n) => Some(n@),
                None => None,
            },
            snapshots@,
        )) {
            (Ok(a), Ok(b)) => a == b,
            (Err(e), Err(m)) => e@ == m,
            _ => false,
        },
{
    let ghost listing = snapshots@;
    let mut same = snapshots_of_kind(snapshots, snapshot_kind);
    let label = snapshot_kind_label(snapshot_kind);
    let requested = match snapshot_name {
        Some(n) => non_empty_text(n),
        None => None,
    };
    match requested {
        Some(requested) => {
            match match_snapshot_name(requested.as_str(), same) {
                ArtifactMatch::One(s) => Ok(s),
                ArtifactMatch::Many(found) => {
                    let names = snapshot_file_names(&found);
                    let joined = join_texts(&names, ", ");
                    let mut msg = "multiple ".to_owned();
                    push_str(&mut msg, label.as_str());
                    push_str(&mut msg, " snapshots match `");
                    push_str(&mut msg, requested.as_str());
                    push_str(&mut msg, "`: ");
                    push_str(&mut msg, joined.as_str());
                    Err(msg)
                },
                ArtifactMatch::NoMatch => {
                    let mut msg = "no ".to_owned();
                    push_str(&mut msg, label.as_str());
                    push_str(&mut msg, " snapshot found for `");
                    push_str(&mut msg, requested.as_str());
                    push_str(&mut msg, "`. Run `martijn azure snapshot create ");
                    push_str(&mut msg, label.as_str());
                    push_str(&mut msg, "` first.");
                    Err(msg)
                },
            }
        },
        None => {
            if same.len() > 0 {
                Ok(same.remove(0))
            } else {
                let mut msg = "no ".to_owned();
                push_str(&mut msg, label.as_str());
                push_str(&mut msg, " snapshots found. Run `martijn azure snapshot create ");
                push_str(&mut msg, label.as_str());
                push_str(&mut msg, "` first.");
                Err(msg)
            }
        },
    }
}

/// Newer before older in a listing: a listed file with a known modification
/// time comes after none without one, and not after an older one.
pub open spec fn newest_before(later: Option<u64>, earlier: Option<u64>) -> bool {
    match later {
        Some(t) => earlier matches Some(u) && t <= u,
        None => true,
    }
}

proof fn lemma_listing_order(a: Option<u64>, an: Seq<char>, b: Option<u64>, bn: Seq<char>)
    requires
        !crate::sort::key_lt(listing_key(a, an), listing_key(b, bn)),
    ensures
        newest_before(a, b),
{
    let ka = listing_key(a, an);
    let kb = listing_key(b, bn);
    if a is Some && b is None {
        assert(ka[0] != kb[0]);
        assert(crate::sort::part_lt(ka[0], kb[0]));
    }
    if a is Some && b is Some {
        assert(ka[0] == kb[0]);
        let t = a->0;
        let u = b->0;
        if t > u {
            assert(ka.drop_first()[0] != kb.drop_first()[0]);
            assert(crate::sort::key_lt(ka.drop_first(), kb.drop_first()));
        }
    }
}

/// Listing inventory reports keeps exactly the Markdown files and puts newer
/// ones first.
pub proof fn law_inventory_reports_newest_first(entries: Seq<InventoryReportFile>)
    ensures
        newest_first_reports(markdown_reports(entries)).to_multiset() == markdown_reports(
            entries,
        ).to_multiset(),
        forall|i: int, j: int|
            0 <= i < j < newest_first_reports(markdown_reports(entries)).len() ==> newest_before(
                (#[trigger] newest_first_reports(markdown_reports(entries))[j]).modified_at,
                (#[trigger] newest_first_reports(markdown_reports(entries))[i]).modified_at,
            ),
{
    let md = markdown_reports(entries);
    let f = |x: InventoryReportFile| listing_key(x.modified_at, x.file_name@);
    crate::sort::lemma_sort_ordered(md, f);
    let r = newest_first_reports(md);
    assert forall|i: int, j: int| 0 <= i < j < r.len() implies newest_before(
        (#[trigger] r[j]).modified_at,
        (#[trigger] r[i]).modified_at,
    ) by {
        lemma_listing_order(r[j].modified_at, r[j].file_name@, r[i].modified_at, r[i].file_name@);
    }
}

/// Listing snapshots keeps exactly the JSON files and puts newer ones first.
pub proof fn law_snapshots_newest_first(entries: Seq<SnapshotFile>)
    ensures
        newest_first_snapshots(json_snapshots(entries)).to_multiset() == json_snapshots(
            entries,
        ).to_multiset(),
        forall|i: int, j: int|
            0 <= i < j < newest_first_snapshots(json_snapshots(entries)).len() ==> newest_before(
                (#[trigger] newest_first_snapshots(json_snapshots(entries))[j]).modified_at,
                (#[trigger] newest_first_snapshots(json_snapshots(entries))[i]).modified_at,
            ),
{
    let js = json_snapshots(entries);
    let f = |x: SnapshotFile| listing_key(x.modified_at, x.file_name@);
    crate::sort::lemma_sort_ordered(js, f);
    let r = newest_first_snapshots(js);
    assert forall|i: int, j: int| 0 <= i < j < r.len() implies newest_before(
        (#[trigger] r[j]).modified_at,
        (#[trigger] r[i]).modified_at,
    ) by {
        lemma_listing_order(r[j].modified_at, r[j].file_name@, r[i].modified_at, r[i].file_name@);
    }
}

/// A lowercase ASCII letter or a digit.
pub open spec fn is_lower_alnum(c: char) -> bool {
    ('a' <= c && c <= 'z') || ('0' <= c && c <= '9')
}

/// The shape of a stem under construction.
pub open spec fn stem_shape(t: Seq<char>) -> bool {
    &&& forall|i: int| 0 <= i < t.len() ==> is_stem_char(#[trigger] t[i])
    &&& t.len() > 0 ==> is_lower_alnum(t[0])
}

proof fn lemma_slug_scan_shape(s: Seq<char>)
    ensures
        stem_shape(slug_scan(s).0),
    decreases s.len(),
{
    if s.len() > 0 {
        lemma_slug_scan_shape(s.drop_last());
        let (t, d) = slug_scan(s.drop_last());
        let c = s.last();
        let r = slug_scan(s).0;
        if is_ascii_alnum(c) {
            assert(r == t.push(ascii_lower(c)));
            assert(is_lower_alnum(ascii_lower(c)));
        } else if c == '.' {
            if t.len() > 0 && !d {
                assert(r == t.push('.'));
            }
        } else if t.len() > 0 && !d {
            assert(r == t.push('-'));
        }
        assert(forall|i: int| 0 <= i < t.len() ==> r[i] == t[i]);
    }
}

proof fn lemma_strip_separators(t: Seq<char>)
    ensures
        strip_separators(t).len() <= t.len(),
        strip_separators(t) == t.subrange(0, strip_separators(t).len() as int),
        strip_separators(t).len() > 0 ==> strip_separators(t).last() != '-' && strip_separators(
            t,
        ).last() != '.',
    decreases t.len(),
{
    if t.len() > 0 && (t.last() == '-' || t.last() == '.') {
        lemma_strip_separators(t.drop_last());
        let u = strip_separators(t.drop_last());
        assert(t.drop_last().subrange(0, u.len() as int) == t.subrange(0, u.len() as int));
    } else {
        assert(t.subrange(0, t.len() as int) == t);
    }
}

/// A stem made from a user-supplied name is never empty, holds only
/// lowercase ASCII letters, digits, dots and dashes, starts with a letter or
/// digit, and does not end with a dot or dash.
pub proof fn law_slug_shape(name: Seq<char>)
    ensures
        slug(name).len() > 0,
        forall|i: int| 0 <= i < slug(name).len() ==> is_stem_char(#[trigger] slug(name)[i]),
        is_lower_alnum(slug(name)[0]),
        slug(name).last() != '-' && slug(name).last() != '.',
{
    let t = slug_scan(trim(name)).0;
    lemma_slug_scan_shape(trim(name));
    lemma_strip_separators(t);
    let u = strip_separators(t);
    if u.len() == 0 {
        reveal_strlit("report");
        assert(slug(name) == "report"@);
        assert forall|i: int| 0 <= i < slug(name).len() implies is_stem_char(#[trigger] slug(name)[i]) by {
        }
    } else {
        assert(slug(name) == u);
        assert forall|i: int| 0 <= i < u.len() implies is_stem_char(#[trigger] u[i]) by {
            assert(u[i] == t[i]);
        }
        assert(u[0] == t[0]);
    }
}

/// Adding an extension that is already there changes nothing, so adding it
/// twice is adding it once.
pub proof fn law_ensure_extension_idempotent(stem: Seq<char>, extension: Seq<char>)
    ensures
        has_suffix(with_extension(stem, extension), seq!['.'] + extension),
        with_extension(with_extension(stem, extension), extension) == with_extension(stem, extension),
{
    let suffix = seq!['.'] + extension;
    if !has_suffix(stem, suffix) {
        let r = stem + seq!['.'] + extension;
        assert(r =~= stem + suffix);
        assert(r.subrange(r.len() - suffix.len(), r.len() as int) =~= suffix);
    }
}

/// A character that a stem turns into a dash: neither an ASCII letter or
/// digit nor a dot.
pub open spec fn is_name_separator(c: char) -> bool {
    !is_ascii_alnum(c) && c != '.'
}

/// Whether an ASCII letter or digit occurs in `s` before index `n`.
pub open spec fn has_alnum_before(s: Seq<char>, n: int) -> bool {
    exists|a: int| 0 <= a < n && is_ascii_alnum(#[trigger] s[a])
}

/// Whether `s` holds a separator, a dot and a separator in a row after an
/// ASCII letter or digit.
pub open spec fn dot_after_separator(s: Seq<char>) -> bool {
    exists|i: int|
        has_alnum_before(s, i) && i + 2 < s.len() && is_name_separator(#[trigger] s[i]) && s[i + 1]
            == '.' && is_name_separator(s[i + 2])
}

/// Whether `s` holds a separator, a dot and a separator in a row with an
/// ASCII letter or digit somewhere before and somewhere after them: the dot
/// is dropped and the two separators each become a dash.
pub open spec fn dot_between_separators(s: Seq<char>) -> bool {
    exists|i: int, b: int|
        has_alnum_before(s, i) && i + 2 < b < s.len() && is_name_separator(#[trigger] s[i]) && s[i
            + 1] == '.' && is_name_separator(s[i + 2]) && is_ascii_alnum(#[trigger] s[b])
}

/// Whether `t` holds two dashes in a row at index `k`.
pub open spec fn double_dash_at(t: Seq<char>, k: int) -> bool {
    0 <= k && k + 1 < t.len() && t[k] == '-' && t[k + 1] == '-'
}

proof fn lemma_dot_between_prefix(s: Seq<char>)
    requires
        s.len() > 0,
        !dot_between_separators(s),
    ensures
        !dot_between_separators(s.drop_last()),
{
    let s0 = s.drop_last();
    if dot_between_separators(s0) {
        let (i, b) = choose|i: int, b: int|
            has_alnum_before(s0, i) && i + 2 < b < s0.len() && is_name_separator(#[trigger] s0[i])
                && s0[i + 1] == '.' && is_name_separator(s0[i + 2]) && is_ascii_alnum(#[trigger] s0[b]);
        let a = choose|a: int| 0 <= a < i && is_ascii_alnum(#[trigger] s0[a]);
        assert(s[a] == s0[a]);
        assert(has_alnum_before(s, i));
        assert(s[i] == s0[i] && s[i + 1] == s0[i + 1] && s[i + 2] == s0[i + 2] && s[b] == s0[b]);
    }
}

proof fn lemma_alnum_before_extend(s: Seq<char>, n: int)
    requires
        s.len() > 0,
        n <= s.len() - 1,
        has_alnum_before(s.drop_last(), n),
    ensures
        has_alnum_before(s, n),
{
    let s0 = s.drop_last();
    let a = choose|a: int| 0 <= a < n && is_ascii_alnum(#[trigger] s0[a]);
    assert(s[a] == s0[a]);
}

proof fn lemma_dot_after_extend(s: Seq<char>)
    requires
        s.len() > 0,
        dot_after_separator(s.drop_last()),
    ensures
        dot_after_separator(s),
{
    let s0 = s.drop_last();
    let i = choose|i: int|
        has_alnum_before(s0, i) && i + 2 < s0.len() && is_name_separator(#[trigger] s0[i]) && s0[i
            + 1] == '.' && is_name_separator(s0[i + 2]);
    lemma_alnum_before_extend(s, i);
    assert(s[i] == s0[i] && s[i + 1] == s0[i + 1] && s[i + 2] == s0[i + 2]);
}

proof fn lemma_alnum_after_dot(s: Seq<char>)
    requires
        s.len() > 0,
        is_ascii_alnum(s.last()),
        dot_after_separator(s.drop_last()),
    ensures
        dot_between_separators(s),
{
    let s0 = s.drop_last();
    let i = choose|i: int|
        has_alnum_before(s0, i) && i + 2 < s0.len() && is_name_separator(#[trigger] s0[i]) && s0[i
            + 1] == '.' && is_name_separator(s0[i + 2]);
    lemma_alnum_before_extend(s, i);
    assert(s[i] == s0[i] && s[i + 1] == s0[i + 1] && s[i + 2] == s0[i + 2]);
    assert(is_ascii_alnum(s[s.len() - 1]));
}

/// The shape of a stem under construction, for a name without a separator,
/// a dot and a separator in a row between letters or digits.
spec fn scan_shape(s: Seq<char>, t: Seq<char>, d: bool) -> bool {
    &&& t.len() > 0 ==> has_alnum_before(s, s.len() as int)
    &&& d ==> t.len() > 0 && t.last() == '-' && s.len() > 0 && is_name_separator(s.last())
        && has_alnum_before(s, s.len() - 1)
    &&& (!d && t.len() > 0 && t.last() == '-') ==> s.len() >= 2 && s.last() == '.'
        && is_name_separator(s[s.len() - 2]) && has_alnum_before(s, s.len() - 2)
    &&& forall|k: int|
        #[trigger] double_dash_at(t, k) ==> dot_after_separator(s) && forall|j: int|
            k < j < t.len() ==> (t[j] == '-' || t[j] == '.')
}

#[verifier::spinoff_prover]
proof fn lemma_slug_scan_dashes(s: Seq<char>)
    requires
        !dot_between_separators(s),
    ensures
        scan_shape(s, slug_scan(s).0, slug_scan(s).1),
    decreases s.len(),
{
    if s.len() > 0 {
        let s0 = s.drop_last();
        lemma_dot_between_prefix(s);
        lemma_slug_scan_dashes(s0);
        let (t0, d0) = slug_scan(s0);
        let (t, d) = slug_scan(s);
        let c = s.last();
        let n = s.len() as int;
        if t0.len() > 0 {
            lemma_alnum_before_extend(s, s0.len() as int);
        }
        if d0 {
            lemma_alnum_before_extend(s, n - 2);
        }
        if dot_after_separator(s0) {
            lemma_dot_after_extend(s);
        }
        if is_ascii_alnum(c) {
            assert(t == t0.push(ascii_lower(c)));
            assert(is_ascii_alnum(s[n - 1]));
            if dot_after_separator(s0) {
                lemma_alnum_after_dot(s);
            }
            assert forall|k: int| !(#[trigger] double_dash_at(t, k)) by {
                if double_dash_at(t, k) && k + 1 < t0.len() {
                    assert(double_dash_at(t0, k));
                }
            }
        } else if c == '.' {
            if t0.len() > 0 && !d0 {
                assert(t == t0.push('.'));
                assert forall|k: int| #[trigger] double_dash_at(t, k) implies dot_after_separator(s)
                    && forall|j: int| k < j < t.len() ==> (t[j] == '-' || t[j] == '.') by {
                    assert(double_dash_at(t0, k));
                }
            } else {
                assert(t == t0);
            }
        } else {
            if t0.len() > 0 && !d0 {
                assert(t == t0.push('-'));
                assert(is_name_separator(s[n - 1]));
                if t0.last() == '-' {
                    lemma_alnum_before_extend(s, n - 3);
                    assert(s[n - 3] == s0[s0.len() - 2]);
                    assert(dot_after_separator(s));
                }
                assert forall|k: int| #[trigger] double_dash_at(t, k) implies dot_after_separator(s)
                    && forall|j: int| k < j < t.len() ==> (t[j] == '-' || t[j] == '.') by {
                    if k + 1 < t0.len() {
                        assert(double_dash_at(t0, k));
                    }
                }
            } else {
                assert(t == t0);
            }
        }
    }
}

/// A stem never holds two dashes in a row, except where the name holds a
/// separator, a dot and a separator in a row between letters or digits: the
/// dot is dropped after the first dash and the second separator becomes a
/// dash again.
pub proof fn law_slug_no_double_dash(name: Seq<char>)
    requires
        !dot_between_separators(trim(name)),
    ensures
        forall|k: int| !(#[trigger] double_dash_at(slug(name), k)),
{
    let t = slug_scan(trim(name)).0;
    lemma_slug_scan_dashes(trim(name));
    lemma_strip_separators(t);
    let u = strip_separators(t);
    if u.len() == 0 {
        reveal_strlit("report");
        assert forall|k: int| !(#[trigger] double_dash_at(slug(name), k)) by {}
    } else {
        assert(slug(name) == u);
        assert forall|k: int| !(#[trigger] double_dash_at(u, k)) by {
            if double_dash_at(u, k) {
                assert(u[k] == t[k] && u[k + 1] == t[k + 1]);
                assert(double_dash_at(t, k));
                assert(u.last() == t[u.len() - 1]);
            }
        }
    }
}

proof fn lemma_scan_without_alnum(s: Seq<char>)
    requires
        forall|i: int| 0 <= i < s.len() ==> !is_ascii_alnum(#[trigger] s[i]),
    ensures
        slug_scan(s) == (Seq::<char>::empty(), false),
    decreases s.len(),
{
    if s.len() > 0 {
        let s0 = s.drop_last();
        assert forall|i: int| 0 <= i < s0.len() implies !is_ascii_alnum(#[trigger] s0[i]) by {
            assert(s0[i] == s[i]);
        }
        lemma_scan_without_alnum(s0);
        assert(!is_ascii_alnum(s[s.len() - 1]));
    }
}

/// A name without any ASCII letter or digit gets the stem `report`.
pub proof fn law_slug_fallback(name: Seq<char>)
    requires
        forall|i: int| 0 <= i < name.len() ==> !is_ascii_alnum(#[trigger] name[i]),
    ensures
        slug(name) == "report"@,
{
    let t = trim(name);
    assert forall|i: int| 0 <= i < t.len() implies !is_ascii_alnum(#[trigger] t[i]) by {
        assert(t.contains(t[i]));
        lemma_trim_contains(name, t[i]);
        let k = choose|k: int| 0 <= k < name.len() && name[k] == t[i];
    }
    lemma_scan_without_alnum(t);
    assert(strip_separators(Seq::<char>::empty()) == Seq::<char>::empty());
}

/// Whether a stem holds a dash directly followed by a dash or a dot, which
/// making a stem again would drop.
pub open spec fn dash_before_separator(u: Seq<char>) -> bool {
    exists|k: int| 0 <= k && k + 1 < u.len() && u[k] == '-' && (#[trigger] u[k + 1] == '-' || u[k + 1] == '.')
}

proof fn lemma_scan_of_stem(u: Seq<char>, i: int)
    requires
        0 <= i <= u.len(),
        u.len() > 0 ==> is_lower_alnum(u[0]),
        forall|j: int| 0 <= j < u.len() ==> is_stem_char(#[trigger] u[j]),
        !dash_before_separator(u),
    ensures
        slug_scan(u.take(i)) == (u.take(i), i > 0 && u[i - 1] == '-'),
    decreases i,
{
    if i > 0 {
        lemma_scan_of_stem(u, i - 1);
        let p = u.take(i);
        assert(p.drop_last() =~= u.take(i - 1));
        assert(p.last() == u[i - 1]);
        let c = u[i - 1];
        assert(is_stem_char(c));
        if is_ascii_alnum(c) {
            assert(ascii_lower(c) == c);
            assert(u.take(i - 1).push(c) =~= p);
        } else if c == '.' {
            assert(i - 1 > 0);
            if u[i - 2] == '-' {
                assert(u[(i - 2) + 1] == '.');
                assert(dash_before_separator(u));
            }
            assert(u.take(i - 1).push(c) =~= p);
        } else {
            assert(c == '-');
            if i - 1 == 0 {
                assert(is_lower_alnum(u[0]));
            }
            if u[i - 2] == '-' {
                assert(u[(i - 2) + 1] == '-');
                assert(dash_before_separator(u));
            }
            assert(u.take(i - 1).push(c) =~= p);
        }
    } else {
        assert(u.take(0) =~= Seq::<char>::empty());
    }
}

/// Making a stem of a stem changes nothing, unless the stem holds a dash
/// followed by a dash or a dot: the name then held a separator and a dot in
/// a row (`a!.!b` gives `a--b`, `a!..b` gives `a-.b`), and the second pass
/// drops the character after the dash.
pub proof fn law_slug_idempotent(name: Seq<char>)
    requires
        !dash_before_separator(slug(name)),
    ensures
        slug(slug(name)) == slug(name),
{
    let u = slug(name);
    law_slug_shape(name);
    assert(!is_white_space(u[0]));
    assert(is_stem_char(u[u.len() - 1]));
    assert(!is_white_space(u.last()));
    lemma_trim_unchanged(u);
    lemma_scan_of_stem(u, u.len() as int);
    assert(u.take(u.len() as int) =~= u);
    assert(strip_separators(u) == u);
}

} // verus!
