use vstd::prelude::*;

use crate::clock::{
    decimal, decimal_text, format_report_timestamp, report_timestamp, utc_now_parts, valid_parts, UtcParts,
};
use crate::model::{
    AzureAccount, AzureInventoryGroup, AzureResourceGroupReportItem, AzureResourceReportItem,
    ResourceTag,
};
use crate::sort::{
    KeyPart, KeyPartModel, key_model, lemma_sorted_weight, lemma_weight_sum_map, lemma_weight_sum_push,
    lemma_weight_sum_update, sort_by_keys, sorted_by_models, weight_sum,
};
use crate::text::{
    lemma_text_lt_total, lemma_text_lt_transitive,
    chars_equal, chars_of, concat_all, has_prefix, join, join_texts, lowercase, lowercase_chars, push_char,
    push_str, starts_with_chars, string_from_chars, text_lt, trim, trimmed_chars,
};

verus! {

// ---------------------------------------------------------------------------
// Markdown escaping
// ---------------------------------------------------------------------------

/// Whether a character is escaped with a backslash in Markdown text.
pub open spec fn is_markdown_special(c: char) -> bool {
    c == '\\' || c == '*' || c == '_' || c == '[' || c == ']' || c == '`'
}

/// The Markdown text form of one character.
pub open spec fn escape_text_char(c: char) -> Seq<char> {
    if is_markdown_special(c) {
        seq!['\\', c]
    } else {
        seq![c]
    }
}

/// Markdown text with backslash, `*`, `_`, `[`, `]` and backtick escaped.
pub open spec fn escape_text(s: Seq<char>) -> Seq<char>
    decreases s.len(),
{
    if s.len() == 0 {
        s
    } else {
        escape_text(s.drop_last()) + escape_text_char(s.last())
    }
}

/// The Markdown table cell form of one character: `|` is escaped too,
/// carriage returns are dropped and line feeds become `<br>`.
pub open spec fn escape_cell_char(c: char) -> Seq<char> {
    if is_markdown_special(c) || c == '|' {
        seq!['\\', c]
    } else if c == '\r' {
        Seq::empty()
    } else if c == '\n' {
        seq!['<', 'b', 'r', '>']
    } else {
        seq![c]
    }
}

/// Text made safe for one Markdown table cell.
pub open spec fn escape_cell(s: Seq<char>) -> Seq<char>
    decreases s.len(),
{
    if s.len() == 0 {
        s
    } else {
        escape_cell(s.drop_last()) + escape_cell_char(s.last())
    }
}

/// An escaped table cell stays on one line and cannot end its cell early:
/// it holds no line break, and every `|` in it follows a backslash.
pub proof fn law_escape_cell_single_line(s: Seq<char>)
    ensures
        forall|i: int|
            0 <= i < escape_cell(s).len() ==> #[trigger] escape_cell(s)[i] != '\n' && escape_cell(s)[i]
                != '\r',
        forall|i: int|
            0 <= i < escape_cell(s).len() && #[trigger] escape_cell(s)[i] == '|' ==> i > 0
                && escape_cell(s)[i - 1] == '\\',
    decreases s.len(),
{
    if s.len() > 0 {
        law_escape_cell_single_line(s.drop_last());
        let p = escape_cell(s.drop_last());
        let t = escape_cell_char(s.last());
        let r = escape_cell(s);
        assert(r == p + t);
        assert forall|i: int| 0 <= i < r.len() implies #[trigger] r[i] != '\n' && r[i] != '\r' by {
            if i >= p.len() {
                assert(r[i] == t[i - p.len()]);
            } else {
                assert(r[i] == p[i]);
            }
        }
        assert forall|i: int| 0 <= i < r.len() && #[trigger] r[i] == '|' implies i > 0 && r[i - 1]
            == '\\' by {
            if i >= p.len() {
                assert(r[i] == t[i - p.len()]);
                if i > p.len() {
                    assert(r[i - 1] == t[i - 1 - p.len()]);
                }
            } else {
                assert(r[i] == p[i]);
                assert(r[i - 1] == p[i - 1]);
            }
        }
    }
}

/// Escapes characters that could break Markdown headings or bullet content.
pub fn escape_markdown_text(value: &str) -> (r: String)
    ensures
        r@ == escape_text(value@),
{
    let cs = chars_of(value);
    let mut out = String::new();
    let mut i: usize = 0;
    while i < cs.len()
        invariant
            i <= cs.len(),
            out@ == escape_text(cs@.take(i as int)),
        decreases cs.len() - i,
    {
        let c = cs[i];
        assert(cs@.take(i + 1).drop_last() == cs@.take(i as int));
        if c == '\\' || c == '*' || c == '_' || c == '[' || c == ']' || c == '`' {
            push_char(&mut out, '\\');
        }
        push_char(&mut out, c);
        assert(out@ =~= escape_text(cs@.take(i + 1)));
        i = i + 1;
    }
    assert(cs@.take(cs.len() as int) == cs@);
    out
}

/// Escapes text used in section headings.
pub fn escape_markdown_heading(value: &str) -> (r: String)
    ensures
        r@ == escape_text(value@),
{
    escape_markdown_text(value)
}

/// Escapes values rendered inside Markdown table cells.
pub fn escape_markdown_table_cell(value: &str) -> (r: String)
    ensures
        r@ == escape_cell(value@),
{
    let cs = chars_of(value);
    let mut out = String::new();
    let mut i: usize = 0;
    while i < cs.len()
        invariant
            i <= cs.len(),
            out@ == escape_cell(cs@.take(i as int)),
        decreases cs.len() - i,
    {
        let c = cs[i];
        assert(cs@.take(i + 1).drop_last() == cs@.take(i as int));
        if c == '\\' || c == '*' || c == '_' || c == '[' || c == ']' || c == '`' || c == '|' {
            push_char(&mut out, '\\');
            push_char(&mut out, c);
        } else if c == '\r' {
        } else if c == '\n' {
            push_char(&mut out, '<');
            push_char(&mut out, 'b');
            push_char(&mut out, 'r');
            push_char(&mut out, '>');
        } else {
            push_char(&mut out, c);
        }
        assert(out@ =~= escape_cell(cs@.take(i + 1)));
        i = i + 1;
    }
    assert(cs@.take(cs.len() as int) == cs@);
    out
}

// ---------------------------------------------------------------------------
// Value normalization
// ---------------------------------------------------------------------------

/// The trimmed text, or `fallback` when nothing visible remains.
pub open spec fn non_empty_or(value: Seq<char>, fallback: Seq<char>) -> Seq<char> {
    if trim(value).len() == 0 {
        fallback
    } else {
        trim(value)
    }
}

/// The trimmed text, or `fallback` when nothing visible remains.
pub fn normalize_non_empty_value(value: &str, fallback: &str) -> (r: String)
    ensures
        r@ == non_empty_or(value@, fallback@),
{
    let cs = trimmed_chars(value);
    if cs.len() == 0 {
        return fallback.to_owned();
    }
    string_from_chars(&cs)
}

/// The lowercase trimmed region, or nothing when it is blank.
pub open spec fn region_of(value: Seq<char>) -> Option<Seq<char>> {
    if trim(value).len() == 0 {
        None
    } else {
        Some(lowercase(trim(value)))
    }
}

/// The lowercase trimmed region, or `None` when it is blank.
pub fn normalize_region_value(value: &str) -> (r: Option<String>)
    ensures
        match r {
            Some(t) => region_of(value@) == Some(t@),
            None => region_of(value@) is None,
        },
{
    let cs = trimmed_chars(value);
    if cs.len() == 0 {
        return None;
    }
    let trimmed = string_from_chars(&cs);
    Some(crate::text::to_lowercase(trimmed.as_str()))
}

// ---------------------------------------------------------------------------
// Per-resource values
// ---------------------------------------------------------------------------

/// The SKU shown for a resource: the SKU name, else the kind, else a dash.
pub open spec fn sku_text(r: AzureResourceReportItem) -> Seq<char> {
    let sku_name: Option<Seq<char>> = match r.sku {
        Some(s) => match s.name {
            Some(n) => Some(trim(n@)),
            None => None,
        },
        None => None,
    };
    if sku_name matches Some(n) && n.len() > 0 {
        sku_name->0
    } else if r.kind matches Some(k) && trim(k@).len() > 0 {
        trim(r.kind->0@)
    } else {
        "-"@
    }
}

/// Resolves the SKU text using the `sku.name`, then `kind`, then `-` order.
pub fn resolve_resource_sku(resource: &AzureResourceReportItem) -> (r: String)
    ensures
        r@ == sku_text(*resource),
{
    if let Some(sku) = &resource.sku {
        if let Some(name) = &sku.name {
            let cs = trimmed_chars(name.as_str());
            if cs.len() > 0 {
                return string_from_chars(&cs);
            }
        }
    }
    if let Some(kind) = &resource.kind {
        let cs = trimmed_chars(kind.as_str());
        if cs.len() > 0 {
            return string_from_chars(&cs);
        }
    }
    "-".to_owned()
}

/// Whether a tag has a key with visible text.
pub open spec fn tag_has_key(t: ResourceTag) -> bool {
    trim(t.key@).len() > 0
}

/// Whether any tag of the sequence has a key with visible text.
pub open spec fn any_tag_has_key(tags: Seq<ResourceTag>) -> bool {
    exists|i: int| 0 <= i < tags.len() && tag_has_key(#[trigger] tags[i])
}

/// Whether a resource carries at least one tag with a visible key.
pub open spec fn has_tags(r: AzureResourceReportItem) -> bool {
    match r.tags {
        Some(ts) => any_tag_has_key(ts@),
        None => false,
    }
}

/// Whether a resource carries at least one tag with a visible key.
pub fn resource_has_tags(resource: &AzureResourceReportItem) -> (r: bool)
    ensures
        r == has_tags(*resource),
{
    let tags = match &resource.tags {
        Some(tags) => tags,
        None => {
            return false;
        },
    };
    let mut i: usize = 0;
    while i < tags.len()
        invariant
            i <= tags.len(),
            forall|j: int| 0 <= j < i ==> !tag_has_key(#[trigger] tags@[j]),
            has_tags(*resource) == any_tag_has_key(tags@),
        decreases tags.len() - i,
    {
        let key = trimmed_chars(tags[i].key.as_str());
        if key.len() > 0 {
            assert(tag_has_key(tags@[i as int]));
            assert(any_tag_has_key(tags@));
            return true;
        }
        i = i + 1;
    }
    false
}

/// The readable `key=value` entry of a tag, unless its key is blank or
/// starts with `hidden-` in any letter case.
pub open spec fn tag_entry(t: ResourceTag) -> Option<Seq<char>> {
    let k = trim(t.key@);
    if k.len() == 0 || has_prefix(lowercase(k), "hidden-"@) {
        None
    } else {
        Some(k + "="@ + trim(t.value@))
    }
}

/// The visible tag entries, in tag order.
pub open spec fn tag_entries(tags: Seq<ResourceTag>) -> Seq<Seq<char>>
    decreases tags.len(),
{
    if tags.len() == 0 {
        Seq::empty()
    } else {
        match tag_entry(tags.last()) {
            Some(e) => tag_entries(tags.drop_last()).push(e),
            None => tag_entries(tags.drop_last()),
        }
    }
}

/// Texts ordered by their lowercase form (stable).
pub open spec fn by_lowercase(s: Seq<Seq<char>>) -> Seq<Seq<char>> {
    sorted_by_models(s.map_values(|e: Seq<char>| seq![KeyPartModel::Asc(lowercase(e))]), s)
}

/// The tags shown for a resource: visible entries ordered case-insensitively
/// and joined with `, `, or a dash when there are none.
pub open spec fn tags_text(r: AzureResourceReportItem) -> Seq<char> {
    match r.tags {
        None => "-"@,
        Some(ts) => {
            let entries = by_lowercase(tag_entries(ts@));
            if entries.len() == 0 {
                "-"@
            } else {
                join(entries, ", "@)
            }
        },
    }
}

/// Sorts texts by their lowercase form, keeping equal forms in order.
pub fn sort_texts_case_insensitively(texts: Vec<String>) -> (r: Vec<String>)
    ensures
        r@.map_values(|s: String| s@) == by_lowercase(texts@.map_values(|s: String| s@)),
{
    let mut keys: Vec<Vec<KeyPart>> = Vec::new();
    let mut i: usize = 0;
    while i < texts.len()
        invariant
            i <= texts.len(),
            keys.len() == i,
            forall|j: int|
                0 <= j < i ==> key_model(#[trigger] keys@[j]) == seq![
                    KeyPartModel::Asc(lowercase(texts@[j]@)),
                ],
        decreases texts.len() - i,
    {
        let lower = lowercase_chars(texts[i].as_str());
        let mut key: Vec<KeyPart> = Vec::new();
        key.push(KeyPart::Asc(lower));
        assert(key_model(key) =~= seq![KeyPartModel::Asc(lowercase(texts@[i as int]@))]);
        keys.push(key);
        i = i + 1;
    }
    let ghost views = texts@.map_values(|s: String| s@);
    let ghost models = keys@.map_values(|k: Vec<KeyPart>| key_model(k));
    assert(models =~= views.map_values(
        |e: Seq<char>| seq![KeyPartModel::Asc(lowercase(e))],
    ));
    let ghost original = texts@;
    let sorted = sort_by_keys(texts, keys);
    proof {
        crate::sort::lemma_sorted_map(models, original, |s: String| s@);
    }
    sorted
}

/// Builds the readable comma-separated `key=value` list of a resource's tags.
pub fn format_resource_tags(resource: &AzureResourceReportItem) -> (r: String)
    ensures
        r@ == tags_text(*resource),
{
    let tags = match &resource.tags {
        Some(tags) => tags,
        None => {
            return "-".to_owned();
        },
    };
    let mut entries: Vec<String> = Vec::new();
    let mut i: usize = 0;
    let hidden = chars_of("hidden-");
    while i < tags.len()
        invariant
            i <= tags.len(),
            hidden@ == "hidden-"@,
            entries@.map_values(|s: String| s@) == tag_entries(tags@.take(i as int)),
        decreases tags.len() - i,
    {
        assert(tags@.take(i + 1).drop_last() == tags@.take(i as int));
        let key = trimmed_chars(tags[i].key.as_str());
        if key.len() > 0 {
            let key_text = string_from_chars(&key);
            let lower = lowercase_chars(key_text.as_str());
            if !starts_with_chars(&lower, &hidden) {
                let value = trimmed_chars(tags[i].value.as_str());
                let value_text = string_from_chars(&value);
                let mut entry = key_text;
                push_str(&mut entry, "=");
                push_str(&mut entry, value_text.as_str());
                entries.push(entry);
            }
        }
        assert(entries@.map_values(|s: String| s@) =~= tag_entries(tags@.take(i + 1)));
        i = i + 1;
    }
    assert(tags@.take(tags.len() as int) == tags@);
    let sorted = sort_texts_case_insensitively(entries);
    if sorted.len() == 0 {
        return "-".to_owned();
    }
    join_texts(&sorted, ", ")
}


// ---------------------------------------------------------------------------
// Whole-inventory values
// ---------------------------------------------------------------------------

/// All resources of all groups, group by group.
pub open spec fn all_resources(groups: Seq<AzureInventoryGroup>) -> Seq<AzureResourceReportItem>
    decreases groups.len(),
{
    if groups.len() == 0 {
        Seq::empty()
    } else {
        all_resources(groups.drop_last()) + groups.last().resources@
    }
}

/// Counts the resources across every resource group.
pub fn count_total_resources(inventory_groups: &Vec<AzureInventoryGroup>) -> (r: usize)
    requires
        all_resources(inventory_groups@).len() <= usize::MAX,
    ensures
        r == all_resources(inventory_groups@).len(),
{
    let mut total: usize = 0;
    let mut i: usize = 0;
    while i < inventory_groups.len()
        invariant
            i <= inventory_groups.len(),
            total == all_resources(inventory_groups@.take(i as int)).len(),
            all_resources(inventory_groups@).len() <= usize::MAX,
        decreases inventory_groups.len() - i,
    {
        assert(inventory_groups@.take(i + 1).drop_last() == inventory_groups@.take(i as int));
        proof {
            lemma_all_resources_prefix(inventory_groups@, i as int + 1);
        }
        total = total + inventory_groups[i].resources.len();
        i = i + 1;
    }
    assert(inventory_groups@.take(inventory_groups.len() as int) == inventory_groups@);
    total
}

proof fn lemma_all_resources_prefix(groups: Seq<AzureInventoryGroup>, k: int)
    requires
        0 <= k <= groups.len(),
    ensures
        all_resources(groups.take(k)).len() <= all_resources(groups).len(),
    decreases groups.len(),
{
    if k < groups.len() {
        assert(groups.drop_last().take(k) == groups.take(k));
        lemma_all_resources_prefix(groups.drop_last(), k);
    } else {
        assert(groups.take(k) == groups);
    }
}

/// How many of the resources carry no tag with a visible key.
pub open spec fn count_untagged(rs: Seq<AzureResourceReportItem>) -> nat
    decreases rs.len(),
{
    if rs.len() == 0 {
        0
    } else {
        count_untagged(rs.drop_last()) + if has_tags(rs.last()) {
            0nat
        } else {
            1nat
        }
    }
}

proof fn lemma_count_untagged_bound(rs: Seq<AzureResourceReportItem>)
    ensures
        count_untagged(rs) <= rs.len(),
    decreases rs.len(),
{
    if rs.len() > 0 {
        lemma_count_untagged_bound(rs.drop_last());
    }
}

proof fn lemma_count_untagged_append(a: Seq<AzureResourceReportItem>, b: Seq<AzureResourceReportItem>)
    ensures
        count_untagged(a + b) == count_untagged(a) + count_untagged(b),
    decreases b.len(),
{
    if b.len() == 0 {
        assert(a + b == a);
    } else {
        lemma_count_untagged_append(a, b.drop_last());
        assert((a + b).drop_last() == a + b.drop_last());
    }
}

/// Counts the resources that carry no tag with a visible key.
pub fn count_resources_without_tags(inventory_groups: &Vec<AzureInventoryGroup>) -> (r: usize)
    requires
        all_resources(inventory_groups@).len() <= usize::MAX,
    ensures
        r == count_untagged(all_resources(inventory_groups@)),
{
    let mut count: usize = 0;
    let mut i: usize = 0;
    while i < inventory_groups.len()
        invariant
            i <= inventory_groups.len(),
            count == count_untagged(all_resources(inventory_groups@.take(i as int))),
            all_resources(inventory_groups@).len() <= usize::MAX,
        decreases inventory_groups.len() - i,
    {
        let ghost done = all_resources(inventory_groups@.take(i as int));
        assert(inventory_groups@.take(i + 1).drop_last() == inventory_groups@.take(i as int));
        let resources = &inventory_groups[i].resources;
        let mut j: usize = 0;
        while j < resources.len()
            invariant
                j <= resources.len(),
                resources@ == inventory_groups@[i as int].resources@,
                count == count_untagged(done + resources@.take(j as int)),
                done == all_resources(inventory_groups@.take(i as int)),
                i < inventory_groups.len(),
                all_resources(inventory_groups@).len() <= usize::MAX,
            decreases resources.len() - j,
        {
            proof {
                assert((done + resources@.take(j + 1)).drop_last() == done + resources@.take(
                    j as int,
                ));
                lemma_count_untagged_bound(done + resources@.take(j + 1));
                lemma_all_resources_prefix(inventory_groups@, i + 1);
                assert(done + resources@.take(j + 1) == (done + resources@).take(
                    done.len() + j + 1,
                ));
                assert(inventory_groups@.take(i + 1).drop_last() == inventory_groups@.take(
                    i as int,
                ));
                assert(inventory_groups@.take(i + 1).last() == inventory_groups@[i as int]);
                assert(done + resources@ == all_resources(inventory_groups@.take(i + 1)));
            }
            if !resource_has_tags(&resources[j]) {
                count = count + 1;
            }
            j = j + 1;
        }
        assert(resources@.take(resources.len() as int) == resources@);
        i = i + 1;
    }
    assert(inventory_groups@.take(inventory_groups.len() as int) == inventory_groups@);
    count
}


// ---------------------------------------------------------------------------
// Summary counts
// ---------------------------------------------------------------------------

/// One row of a summary list: a rendered label and how many resources it counts.
pub struct SummaryCountRow {
    pub label: String,
    pub count: usize,
}

/// A counting bucket: its case-folded key, the label first seen for it, its count.
pub type Bucket = (Seq<char>, Seq<char>, nat);

/// The index of the last bucket with key `k`, or -1.
pub open spec fn find_bucket(bs: Seq<Bucket>, k: Seq<char>) -> int
    decreases bs.len(),
{
    if bs.len() == 0 {
        -1
    } else if bs.last().0 == k {
        bs.len() - 1
    } else {
        find_bucket(bs.drop_last(), k)
    }
}

/// Counts one more item with key `k` and label `l`.
pub open spec fn add_to_buckets(bs: Seq<Bucket>, k: Seq<char>, l: Seq<char>) -> Seq<Bucket> {
    let i = find_bucket(bs, k);
    if i < 0 {
        bs.push((k, l, 1))
    } else {
        bs.update(i, (k, bs[i].1, bs[i].2 + 1))
    }
}

/// The buckets of a sequence of `(key, label)` pairs, in order of first appearance.
pub open spec fn buckets(pairs: Seq<(Seq<char>, Seq<char>)>) -> Seq<Bucket>
    decreases pairs.len(),
{
    if pairs.len() == 0 {
        Seq::empty()
    } else {
        add_to_buckets(buckets(pairs.drop_last()), pairs.last().0, pairs.last().1)
    }
}

/// The summary rows of buckets: buckets in key order (as a sorted map yields
/// them), labels escaped, then ordered by count descending and lowercase
/// label ascending.
pub open spec fn summary_rows(bs: Seq<Bucket>) -> Seq<(Seq<char>, nat)> {
    let ordered = sorted_by_models(bs.map_values(|b: Bucket| seq![KeyPartModel::Asc(b.0)]), bs);
    summary_order(ordered.map_values(|b: Bucket| (escape_text(b.1), b.2)))
}

/// The order key of a summary row: count descending, then label in lowercase.
pub open spec fn summary_key(r: (Seq<char>, nat)) -> Seq<KeyPartModel> {
    seq![KeyPartModel::DescNumber(r.1), KeyPartModel::Asc(lowercase(r.0))]
}

/// Summary rows ordered by count descending, then by label ascending ignoring
/// case; rows equal on both keep their order.
pub open spec fn summary_order(rows: Seq<(Seq<char>, nat)>) -> Seq<(Seq<char>, nat)> {
    sorted_by_models(rows.map_values(|r: (Seq<char>, nat)| summary_key(r)), rows)
}

/// The model of a summary row.
pub open spec fn row_model(r: SummaryCountRow) -> (Seq<char>, nat) {
    (r.label@, r.count as nat)
}

/// The model of an exec `(key, label)` pair.
pub open spec fn pair_model(p: (Vec<char>, String)) -> (Seq<char>, Seq<char>) {
    (p.0@, p.1@)
}

/// The type counting pair of a resource: the type (or `-`) folded to
/// lowercase, and the type as the label.
pub open spec fn type_pair(r: AzureResourceReportItem) -> (Seq<char>, Seq<char>) {
    let l = non_empty_or(r.resource_type@, "-"@);
    (lowercase(l), l)
}

/// The region counting pair of a resource: the normalized region (or `-`).
pub open spec fn region_pair(r: AzureResourceReportItem) -> (Seq<char>, Seq<char>) {
    let l = match region_of(r.location@) {
        Some(x) => x,
        None => "-"@,
    };
    (l, l)
}

proof fn lemma_find_bucket(bs: Seq<Bucket>, k: Seq<char>, j: int)
    requires
        0 <= j <= bs.len(),
        forall|t: int| j <= t < bs.len() ==> (#[trigger] bs[t]).0 != k,
        j > 0 ==> bs[j - 1].0 == k,
    ensures
        find_bucket(bs, k) == j - 1,
    decreases bs.len(),
{
    if j < bs.len() {
        let t = bs.drop_last();
        assert forall|u: int| j <= u < t.len() implies (#[trigger] t[u]).0 != k by {
            assert(t[u] == bs[u]);
        }
        if j > 0 {
            assert(t[j - 1] == bs[j - 1]);
        }
        lemma_find_bucket(t, k, j);
    } else if j > 0 {
        assert(bs.last().0 == k);
    }
}

proof fn lemma_find_bucket_range(bs: Seq<Bucket>, k: Seq<char>)
    ensures
        -1 <= find_bucket(bs, k) < bs.len(),
    decreases bs.len(),
{
    if bs.len() > 0 {
        lemma_find_bucket_range(bs.drop_last(), k);
    }
}

proof fn lemma_bucket_counts(pairs: Seq<(Seq<char>, Seq<char>)>)
    ensures
        forall|i: int| 0 <= i < buckets(pairs).len() ==> (#[trigger] buckets(pairs)[i]).2 <= pairs.len(),
        buckets(pairs).len() <= pairs.len(),
    decreases pairs.len(),
{
    if pairs.len() > 0 {
        lemma_bucket_counts(pairs.drop_last());
        lemma_find_bucket_range(buckets(pairs.drop_last()), pairs.last().0);
    }
}

/// The model of the parallel bucket vectors.
spec fn bucket_model(keys: Seq<Vec<char>>, labels: Seq<String>, counts: Seq<usize>) -> Seq<Bucket> {
    Seq::new(keys.len(), |i: int| (keys[i]@, labels[i]@, counts[i] as nat))
}

fn copy_chars(v: &Vec<char>) -> (r: Vec<char>)
    ensures
        r@ == v@,
{
    let mut out: Vec<char> = Vec::new();
    let mut i: usize = 0;
    while i < v.len()
        invariant
            i <= v.len(),
            out@ == v@.take(i as int),
        decreases v.len() - i,
    {
        out.push(v[i]);
        assert(v@.take(i + 1) == v@.take(i as int).push(v@[i as int]));
        i = i + 1;
    }
    assert(v@.take(v.len() as int) == v@);
    out
}

fn copy_text(s: &String) -> (r: String)
    ensures
        r@ == s@,
{
    s.clone()
}

/// Counts `(key, label)` pairs into summary rows ordered by count descending
/// and label ascending (case-insensitive); each key keeps the label it was
/// first seen with.
#[verifier::spinoff_prover]
pub fn build_summary(pairs: &Vec<(Vec<char>, String)>) -> (r: Vec<SummaryCountRow>)
    ensures
        r@.map_values(|x: SummaryCountRow| row_model(x)) == summary_rows(
            buckets(pairs@.map_values(|p: (Vec<char>, String)| pair_model(p))),
        ),
{
    let ghost pm = pairs@.map_values(|p: (Vec<char>, String)| pair_model(p));
    let mut keys: Vec<Vec<char>> = Vec::new();
    let mut labels: Vec<String> = Vec::new();
    let mut counts: Vec<usize> = Vec::new();
    let mut i: usize = 0;
    assert(pm.take(0) =~= Seq::<(Seq<char>, Seq<char>)>::empty());
    assert(bucket_model(keys@, labels@, counts@) =~= Seq::<Bucket>::empty());
    while i < pairs.len()
        invariant
            i <= pairs.len(),
            pm == pairs@.map_values(|p: (Vec<char>, String)| pair_model(p)),
            keys.len() == labels.len() == counts.len(),
            bucket_model(keys@, labels@, counts@) == buckets(pm.take(i as int)),
            forall|t: int| 0 <= t < counts.len() ==> #[trigger] counts@[t] <= i,
        decreases pairs.len() - i,
    {
        let ghost bs = bucket_model(keys@, labels@, counts@);
        assert(pm.take(i + 1).drop_last() == pm.take(i as int));
        assert(pm.take(i + 1).last() == pair_model(pairs@[i as int]));
        let key = &pairs[i].0;
        let mut j = keys.len();
        while j > 0 && !chars_equal(&keys[j - 1], key)
            invariant
                j <= keys.len(),
                bs == bucket_model(keys@, labels@, counts@),
                keys.len() == labels.len() == counts.len(),
                forall|t: int| j <= t < bs.len() ==> (#[trigger] bs[t]).0 != key@,
            decreases j,
        {
            j = j - 1;
        }
        proof {
            lemma_find_bucket(bs, key@, j as int);
        }
        if j == 0 {
            keys.push(copy_chars(key));
            labels.push(copy_text(&pairs[i].1));
            counts.push(1);
            assert(bucket_model(keys@, labels@, counts@) =~= bs.push((key@, pairs@[i as int].1@, 1)));
        } else {
            let c = counts[j - 1];
            counts.set(j - 1, c + 1);
            assert(bucket_model(keys@, labels@, counts@) =~= bs.update(
                j - 1,
                (key@, bs[j - 1].1, bs[j - 1].2 + 1),
            ));
        }
        i = i + 1;
    }
    assert(pm.take(pairs.len() as int) == pm);
    let ghost bs = bucket_model(keys@, labels@, counts@);
    // order the buckets by key
    let mut order_keys: Vec<Vec<KeyPart>> = Vec::new();
    let mut items: Vec<(String, usize)> = Vec::new();
    let mut k: usize = 0;
    let n = keys.len();
    while k < n
        invariant
            k <= n == keys.len() == labels.len() == counts.len(),
            bs == bucket_model(keys@, labels@, counts@),
            order_keys.len() == k,
            items.len() == k,
            forall|t: int|
                0 <= t < k ==> key_model(#[trigger] order_keys@[t]) == seq![
                    KeyPartModel::Asc(bs[t].0),
                ],
            forall|t: int|
                0 <= t < k ==> (#[trigger] items@[t]).0@ == bs[t].1 && items@[t].1 as nat
                    == bs[t].2,
        decreases n - k,
    {
        let mut kk: Vec<KeyPart> = Vec::new();
        kk.push(KeyPart::Asc(copy_chars(&keys[k])));
        assert(key_model(kk) =~= seq![KeyPartModel::Asc(bs[k as int].0)]);
        order_keys.push(kk);
        items.push((copy_text(&labels[k]), counts[k]));
        k = k + 1;
    }
    let ghost item_model = |t: (String, usize)| (t.0@, t.1 as nat);
    let ghost bucket_view = |b: Bucket| (b.1, b.2);
    let ghost models = order_keys@.map_values(|kk: Vec<KeyPart>| key_model(kk));
    let ghost items0 = items@;
    let ordered = sort_by_keys(items, order_keys);
    // escape labels and build rows
    let mut rows: Vec<SummaryCountRow> = Vec::new();
    let mut q: usize = 0;
    while q < ordered.len()
        invariant
            q <= ordered.len(),
            rows.len() == q,
            forall|t: int|
                0 <= t < q ==> row_model(#[trigger] rows@[t]) == (
                    escape_text(ordered@[t].0@),
                    ordered@[t].1 as nat,
                ),
        decreases ordered.len() - q,
    {
        let label = escape_markdown_text(ordered[q].0.as_str());
        let count = ordered[q].1;
        rows.push(SummaryCountRow { label, count });
        q = q + 1;
    }
    let ghost rows0 = rows@;
    sort_summary_rows(&mut rows);
    proof {
        // the first sort, seen through the bucket models
        assert(models =~= bs.map_values(|b: Bucket| seq![KeyPartModel::Asc(b.0)]));
        assert(items0.map_values(item_model) =~= bs.map_values(bucket_view));
        crate::sort::lemma_sorted_map(models, items0, item_model);
        crate::sort::lemma_sorted_map(models, bs, bucket_view);
        let ordered_b = sorted_by_models(models, bs);
        assert(ordered@.map_values(item_model) == ordered_b.map_values(bucket_view));
        let rows_spec = ordered_b.map_values(|b: Bucket| (escape_text(b.1), b.2));
        assert forall|t: int| 0 <= t < rows_spec.len() implies rows0.map_values(
            |x: SummaryCountRow| row_model(x),
        )[t] == rows_spec[t] by {
            assert(ordered@.map_values(item_model)[t] == ordered_b.map_values(bucket_view)[t]);
        }
        assert(rows0.map_values(|x: SummaryCountRow| row_model(x)) =~= rows_spec);
    }
    rows
}

/// Sorts summary rows by count descending, then by label ascending ignoring
/// case; rows equal on both keep their order.
pub fn sort_summary_rows(summary_rows: &mut Vec<SummaryCountRow>)
    ensures
        final(summary_rows)@.map_values(|x: SummaryCountRow| row_model(x)) == summary_order(
            old(summary_rows)@.map_values(|x: SummaryCountRow| row_model(x)),
        ),
{
    let mut rows: Vec<SummaryCountRow> = Vec::new();
    std::mem::swap(&mut rows, summary_rows);
    let mut keys: Vec<Vec<KeyPart>> = Vec::new();
    let mut i: usize = 0;
    while i < rows.len()
        invariant
            i <= rows.len(),
            keys.len() == i,
            forall|j: int|
                0 <= j < i ==> key_model(#[trigger] keys@[j]) == summary_key(row_model(rows@[j])),
        decreases rows.len() - i,
    {
        let mut key: Vec<KeyPart> = Vec::new();
        key.push(KeyPart::DescNumber(rows[i].count as u64));
        key.push(KeyPart::Asc(lowercase_chars(rows[i].label.as_str())));
        assert(key_model(key) =~= summary_key(row_model(rows@[i as int])));
        keys.push(key);
        i = i + 1;
    }
    let ghost rows0 = rows@;
    let ghost models = keys@.map_values(|k: Vec<KeyPart>| key_model(k));
    let ghost rm = rows0.map_values(|x: SummaryCountRow| row_model(x));
    assert(models =~= rm.map_values(|r: (Seq<char>, nat)| summary_key(r)));
    let sorted = sort_by_keys(rows, keys);
    proof {
        crate::sort::lemma_sorted_map(models, rows0, |x: SummaryCountRow| row_model(x));
    }
    *summary_rows = sorted;
}


fn type_pair_of(r: &AzureResourceReportItem) -> (p: (Vec<char>, String))
    ensures
        pair_model(p) == type_pair(*r),
{
    let label = normalize_non_empty_value(r.resource_type.as_str(), "-");
    (lowercase_chars(label.as_str()), label)
}

fn region_pair_of(r: &AzureResourceReportItem) -> (p: (Vec<char>, String))
    ensures
        pair_model(p) == region_pair(*r),
{
    let label = match normalize_region_value(r.location.as_str()) {
        Some(region) => region,
        None => "-".to_owned(),
    };
    (chars_of(label.as_str()), label)
}

/// Counts resources per type (case-insensitive, blank types as `-`) into
/// summary rows ordered by count descending, then label ascending.
pub fn build_resources_per_type_summary(inventory_groups: &Vec<AzureInventoryGroup>) -> (r: Vec<SummaryCountRow>)
    ensures
        r@.map_values(|x: SummaryCountRow| row_model(x)) == summary_rows(
            buckets(all_resources(inventory_groups@).map_values(|x: AzureResourceReportItem| type_pair(x))),
        ),
{
    let mut pairs: Vec<(Vec<char>, String)> = Vec::new();
    let mut i: usize = 0;
    let ghost f = |x: AzureResourceReportItem| type_pair(x);
    assert(all_resources(inventory_groups@.take(0)).map_values(f) =~= Seq::<(Seq<char>, Seq<char>)>::empty());
    while i < inventory_groups.len()
        invariant
            i <= inventory_groups.len(),
            f == |x: AzureResourceReportItem| type_pair(x),
            pairs@.map_values(|p: (Vec<char>, String)| pair_model(p)) == all_resources(
                inventory_groups@.take(i as int),
            ).map_values(f),
        decreases inventory_groups.len() - i,
    {
        let ghost done = all_resources(inventory_groups@.take(i as int));
        let resources = &inventory_groups[i].resources;
        let mut j: usize = 0;
        assert(done + resources@.take(0) == done);
        while j < resources.len()
            invariant
                j <= resources.len(),
                i < inventory_groups.len(),
                f == |x: AzureResourceReportItem| type_pair(x),
                resources@ == inventory_groups@[i as int].resources@,
                done == all_resources(inventory_groups@.take(i as int)),
                pairs@.map_values(|p: (Vec<char>, String)| pair_model(p)) == (done
                    + resources@.take(j as int)).map_values(f),
            decreases resources.len() - j,
        {
            let pair = type_pair_of(&resources[j]);
            let ghost before = pairs@;
            let ghost new_model = pair_model(pair);
            assert(new_model == f(resources@[j as int]));
            pairs.push(pair);
            assert(pairs@.map_values(|p: (Vec<char>, String)| pair_model(p)) =~= before.map_values(
                |p: (Vec<char>, String)| pair_model(p),
            ).push(new_model));
            assert((done + resources@.take(j + 1)) =~= (done + resources@.take(j as int)).push(
                resources@[j as int],
            ));
            assert(pairs@.map_values(|p: (Vec<char>, String)| pair_model(p)) =~= (done
                + resources@.take(j + 1)).map_values(f));
            j = j + 1;
        }
        assert(resources@.take(resources.len() as int) == resources@);
        assert(inventory_groups@.take(i + 1).drop_last() == inventory_groups@.take(i as int));
        assert(inventory_groups@.take(i + 1).last() == inventory_groups@[i as int]);
        i = i + 1;
    }
    assert(inventory_groups@.take(inventory_groups.len() as int) == inventory_groups@);
    build_summary(&pairs)
}

/// Counts resources per normalized region (blank as `-`) into summary rows
/// ordered by count descending, then label ascending.
pub fn build_resources_per_region_summary(inventory_groups: &Vec<AzureInventoryGroup>) -> (r: Vec<SummaryCountRow>)
    ensures
        r@.map_values(|x: SummaryCountRow| row_model(x)) == summary_rows(
            buckets(all_resources(inventory_groups@).map_values(|x: AzureResourceReportItem| region_pair(x))),
        ),
{
    let mut pairs: Vec<(Vec<char>, String)> = Vec::new();
    let mut i: usize = 0;
    let ghost f = |x: AzureResourceReportItem| region_pair(x);
    assert(all_resources(inventory_groups@.take(0)).map_values(f) =~= Seq::<(Seq<char>, Seq<char>)>::empty());
    while i < inventory_groups.len()
        invariant
            i <= inventory_groups.len(),
            f == |x: AzureResourceReportItem| region_pair(x),
            pairs@.map_values(|p: (Vec<char>, String)| pair_model(p)) == all_resources(
                inventory_groups@.take(i as int),
            ).map_values(f),
        decreases inventory_groups.len() - i,
    {
        let ghost done = all_resources(inventory_groups@.take(i as int));
        let resources = &inventory_groups[i].resources;
        let mut j: usize = 0;
        assert(done + resources@.take(0) == done);
        while j < resources.len()
            invariant
                j <= resources.len(),
                i < inventory_groups.len(),
                f == |x: AzureResourceReportItem| region_pair(x),
                resources@ == inventory_groups@[i as int].resources@,
                done == all_resources(inventory_groups@.take(i as int)),
                pairs@.map_values(|p: (Vec<char>, String)| pair_model(p)) == (done
                    + resources@.take(j as int)).map_values(f),
            decreases resources.len() - j,
        {
            let pair = region_pair_of(&resources[j]);
            let ghost before = pairs@;
            let ghost new_model = pair_model(pair);
            assert(new_model == f(resources@[j as int]));
            pairs.push(pair);
            assert(pairs@.map_values(|p: (Vec<char>, String)| pair_model(p)) =~= before.map_values(
                |p: (Vec<char>, String)| pair_model(p),
            ).push(new_model));
            assert((done + resources@.take(j + 1)) =~= (done + resources@.take(j as int)).push(
                resources@[j as int],
            ));
            assert(pairs@.map_values(|p: (Vec<char>, String)| pair_model(p)) =~= (done
                + resources@.take(j + 1)).map_values(f));
            j = j + 1;
        }
        assert(resources@.take(resources.len() as int) == resources@);
        assert(inventory_groups@.take(i + 1).drop_last() == inventory_groups@.take(i as int));
        assert(inventory_groups@.take(i + 1).last() == inventory_groups@[i as int]);
        i = i + 1;
    }
    assert(inventory_groups@.take(inventory_groups.len() as int) == inventory_groups@);
    build_summary(&pairs)
}

// ---------------------------------------------------------------------------
// Empty groups and regions
// ---------------------------------------------------------------------------

/// The escaped names of the groups without resources, in group order.
pub open spec fn empty_group_names(groups: Seq<AzureInventoryGroup>) -> Seq<Seq<char>>
    decreases groups.len(),
{
    if groups.len() == 0 {
        Seq::empty()
    } else if groups.last().resources@.len() == 0 {
        empty_group_names(groups.drop_last()).push(escape_text(groups.last().resource_group.name@))
    } else {
        empty_group_names(groups.drop_last())
    }
}

/// Collects the escaped names of empty resource groups, ordered
/// case-insensitively.
pub fn collect_empty_resource_group_names(inventory_groups: &Vec<AzureInventoryGroup>) -> (r: Vec<
    String,
>)
    ensures
        r@.map_values(|s: String| s@) == by_lowercase(empty_group_names(inventory_groups@)),
{
    let mut names: Vec<String> = Vec::new();
    let mut i: usize = 0;
    while i < inventory_groups.len()
        invariant
            i <= inventory_groups.len(),
            names@.map_values(|s: String| s@) == empty_group_names(
                inventory_groups@.take(i as int),
            ),
        decreases inventory_groups.len() - i,
    {
        assert(inventory_groups@.take(i + 1).drop_last() == inventory_groups@.take(i as int));
        assert(inventory_groups@.take(i + 1).last() == inventory_groups@[i as int]);
        if inventory_groups[i].resources.len() == 0 {
            let escaped = escape_markdown_text(inventory_groups[i].resource_group.name.as_str());
            names.push(escaped);
        }
        assert(names@.map_values(|s: String| s@) =~= empty_group_names(
            inventory_groups@.take(i + 1),
        ));
        i = i + 1;
    }
    assert(inventory_groups@.take(inventory_groups.len() as int) == inventory_groups@);
    sort_texts_case_insensitively(names)
}

/// The default Azure region, folded to lowercase.
pub open spec fn default_region() -> Seq<char> {
    lowercase("westeurope"@)
}

/// The region of a location when it is present and not the default region.
pub open spec fn non_default_region(location: Seq<char>) -> Seq<Seq<char>> {
    match region_of(location) {
        Some(x) => if x != default_region() {
            seq![x]
        } else {
            Seq::empty()
        },
        None => Seq::empty(),
    }
}

/// The non-default regions of resources, in order.
pub open spec fn resource_regions(rs: Seq<AzureResourceReportItem>) -> Seq<Seq<char>>
    decreases rs.len(),
{
    if rs.len() == 0 {
        Seq::empty()
    } else {
        resource_regions(rs.drop_last()) + non_default_region(rs.last().location@)
    }
}

/// The non-default regions of groups and of their resources, group by group.
pub open spec fn region_candidates(groups: Seq<AzureInventoryGroup>) -> Seq<Seq<char>>
    decreases groups.len(),
{
    if groups.len() == 0 {
        Seq::empty()
    } else {
        region_candidates(groups.drop_last()) + non_default_region(
            groups.last().resource_group.location@,
        ) + resource_regions(groups.last().resources@)
    }
}

/// The text sequence without adjacent repetitions.
pub open spec fn dedup_adjacent(s: Seq<Seq<char>>) -> Seq<Seq<char>>
    decreases s.len(),
{
    if s.len() <= 1 {
        s
    } else if s.last() == s[s.len() - 2] {
        dedup_adjacent(s.drop_last())
    } else {
        dedup_adjacent(s.drop_last()).push(s.last())
    }
}

/// The distinct texts in ascending order, as a sorted set yields them.
pub open spec fn ascending_unique(s: Seq<Seq<char>>) -> Seq<Seq<char>> {
    dedup_adjacent(sorted_by_models(s.map_values(|x: Seq<char>| seq![KeyPartModel::Asc(x)]), s))
}

fn push_non_default_region(out: &mut Vec<String>, location: &str, default: &Vec<char>)
    requires
        default@ == default_region(),
    ensures
        final(out)@.map_values(|s: String| s@) == old(out)@.map_values(|s: String| s@)
            + non_default_region(location@),
{
    let ghost before = out@.map_values(|s: String| s@);
    match normalize_region_value(location) {
        Some(region) => {
            let rc = chars_of(region.as_str());
            if !chars_equal(&rc, default) {
                out.push(region);
                assert(out@.map_values(|s: String| s@) =~= before + non_default_region(
                    location@,
                ));
            } else {
                assert(out@.map_values(|s: String| s@) =~= before + non_default_region(
                    location@,
                ));
            }
        },
        None => {
            assert(out@.map_values(|s: String| s@) =~= before + non_default_region(location@));
        },
    }
}

/// Collects the regions that differ from the default region, from group and
/// resource locations alike, each once, in ascending order and escaped.
pub fn collect_non_standard_regions(inventory_groups: &Vec<AzureInventoryGroup>) -> (r: Vec<
    String,
>)
    ensures
        r@.map_values(|s: String| s@) == ascending_unique(region_candidates(inventory_groups@)).map_values(
            |x: Seq<char>| escape_text(x),
        ),
{
    let default = lowercase_chars("westeurope");
    let mut found: Vec<String> = Vec::new();
    let mut i: usize = 0;
    while i < inventory_groups.len()
        invariant
            i <= inventory_groups.len(),
            default@ == default_region(),
            found@.map_values(|s: String| s@) == region_candidates(
                inventory_groups@.take(i as int),
            ),
        decreases inventory_groups.len() - i,
    {
        assert(inventory_groups@.take(i + 1).drop_last() == inventory_groups@.take(i as int));
        assert(inventory_groups@.take(i + 1).last() == inventory_groups@[i as int]);
        let ghost base = found@.map_values(|s: String| s@);
        push_non_default_region(
            &mut found,
            inventory_groups[i].resource_group.location.as_str(),
            &default,
        );
        let ghost mid = found@.map_values(|s: String| s@);
        let resources = &inventory_groups[i].resources;
        let mut j: usize = 0;
        assert(resource_regions(resources@.take(0)) =~= Seq::<Seq<char>>::empty());
        assert(mid + Seq::<Seq<char>>::empty() == mid);
        while j < resources.len()
            invariant
                j <= resources.len(),
                default@ == default_region(),
                found@.map_values(|s: String| s@) == mid + resource_regions(
                    resources@.take(j as int),
                ),
            decreases resources.len() - j,
        {
            assert(resources@.take(j + 1).drop_last() == resources@.take(j as int));
            push_non_default_region(&mut found, resources[j].location.as_str(), &default);
            assert(found@.map_values(|s: String| s@) =~= mid + resource_regions(
                resources@.take(j + 1),
            ));
            j = j + 1;
        }
        assert(resources@.take(resources.len() as int) == resources@);
        assert(found@.map_values(|s: String| s@) =~= region_candidates(
            inventory_groups@.take(i + 1),
        ));
        i = i + 1;
    }
    assert(inventory_groups@.take(inventory_groups.len() as int) == inventory_groups@);
    // order ascending
    let ghost cand = found@.map_values(|s: String| s@);
    let mut keys: Vec<Vec<KeyPart>> = Vec::new();
    let mut k: usize = 0;
    while k < found.len()
        invariant
            k <= found.len(),
            keys.len() == k,
            forall|t: int|
                0 <= t < k ==> key_model(#[trigger] keys@[t]) == seq![
                    KeyPartModel::Asc(found@[t]@),
                ],
        decreases found.len() - k,
    {
        let mut key: Vec<KeyPart> = Vec::new();
        key.push(KeyPart::Asc(chars_of(found[k].as_str())));
        assert(key_model(key) =~= seq![KeyPartModel::Asc(found@[k as int]@)]);
        keys.push(key);
        k = k + 1;
    }
    let ghost models = keys@.map_values(|kk: Vec<KeyPart>| key_model(kk));
    let ghost found0 = found@;
    assert(models =~= cand.map_values(|x: Seq<char>| seq![KeyPartModel::Asc(x)]));
    let sorted = sort_by_keys(found, keys);
    proof {
        crate::sort::lemma_sorted_map(models, found0, |s: String| s@);
    }
    let ghost sv = sorted@.map_values(|s: String| s@);
    // drop repetitions and escape
    let mut out: Vec<String> = Vec::new();
    let mut last: Vec<char> = Vec::new();
    let mut q: usize = 0;
    assert(sv.take(0) =~= Seq::<Seq<char>>::empty());
    assert(dedup_adjacent(sv.take(0)) =~= Seq::<Seq<char>>::empty());
    while q < sorted.len()
        invariant
            q <= sorted.len(),
            sv == sorted@.map_values(|s: String| s@),
            out@.map_values(|s: String| s@) == dedup_adjacent(sv.take(q as int)).map_values(
                |x: Seq<char>| escape_text(x),
            ),
            q > 0 ==> last@ == sv[q - 1],
            q > 0 ==> dedup_adjacent(sv.take(q as int)).len() > 0 && dedup_adjacent(
                sv.take(q as int),
            ).last() == sv[q - 1],
        decreases sorted.len() - q,
    {
        let cur = chars_of(sorted[q].as_str());
        let ghost prefix = sv.take(q + 1);
        assert(prefix.drop_last() == sv.take(q as int));
        assert(prefix.last() == sv[q as int]);
        if q > 0 && chars_equal(&cur, &last) {
            assert(prefix[prefix.len() - 2] == sv[q - 1]);
        } else {
            let ghost before = dedup_adjacent(sv.take(q as int));
            if q > 0 {
                assert(prefix[prefix.len() - 2] == sv[q - 1]);
                assert(cur@ != last@);
                assert(dedup_adjacent(prefix) == before.push(sv[q as int]));
            } else {
                assert(prefix =~= seq![sv[0]]);
                assert(dedup_adjacent(prefix) == before.push(sv[q as int]));
            }
            let ghost out_before = out@.map_values(|s: String| s@);
            let e = escape_markdown_text(sorted[q].as_str());
            out.push(e);
            assert(out@.map_values(|s: String| s@) =~= out_before.push(escape_text(sv[q as int])));
            assert(before.push(sv[q as int]).map_values(|x: Seq<char>| escape_text(x))
                =~= before.map_values(|x: Seq<char>| escape_text(x)).push(escape_text(sv[q as int])));
        }
        last = cur;
        q = q + 1;
    }
    assert(sv.take(sorted.len() as int) == sv);
    out
}

// ---------------------------------------------------------------------------
// Group sections
// ---------------------------------------------------------------------------

/// One rendered row of a resource table.
pub struct InventoryResourceView {
    pub name: String,
    pub resource_type: String,
    pub location: String,
    pub sku: String,
    pub tags: String,
}

/// One rendered resource-group section.
pub struct InventoryGroupView {
    pub name: String,
    pub location: String,
    pub total_resources: usize,
    pub resources: Vec<InventoryResourceView>,
}

/// The table row of a resource, every cell escaped for a table.
pub open spec fn resource_row(v: InventoryResourceView, r: AzureResourceReportItem) -> bool {
    &&& v.name@ == escape_cell(r.name@)
    &&& v.resource_type@ == escape_cell(r.resource_type@)
    &&& v.location@ == escape_cell(non_empty_or(r.location@, "-"@))
    &&& v.sku@ == escape_cell(sku_text(r))
    &&& v.tags@ == escape_cell(tags_text(r))
}

/// The section of a group: escaped heading values, resource count, one row
/// per resource in order.
pub open spec fn group_section(v: InventoryGroupView, g: AzureInventoryGroup) -> bool {
    &&& v.name@ == escape_text(g.resource_group.name@)
    &&& v.location@ == escape_text(non_empty_or(g.resource_group.location@, "-"@))
    &&& v.total_resources == g.resources@.len()
    &&& v.resources@.len() == g.resources@.len()
    &&& forall|i: int|
        0 <= i < g.resources@.len() ==> resource_row(#[trigger] v.resources@[i], g.resources@[i])
}

/// Builds one rendered section per group with one table row per resource.
pub fn build_group_views(inventory_groups: &Vec<AzureInventoryGroup>) -> (r: Vec<InventoryGroupView>)
    ensures
        r@.len() == inventory_groups@.len(),
        forall|i: int|
            0 <= i < inventory_groups@.len() ==> group_section(
                #[trigger] r@[i],
                inventory_groups@[i],
            ),
{
    let mut views: Vec<InventoryGroupView> = Vec::new();
    let mut i: usize = 0;
    while i < inventory_groups.len()
        invariant
            i <= inventory_groups.len(),
            views@.len() == i,
            forall|t: int| 0 <= t < i ==> group_section(#[trigger] views@[t], inventory_groups@[t]),
        decreases inventory_groups.len() - i,
    {
        let group = &inventory_groups[i];
        let mut rows: Vec<InventoryResourceView> = Vec::new();
        let mut j: usize = 0;
        while j < group.resources.len()
            invariant
                j <= group.resources.len(),
                rows@.len() == j,
                forall|t: int| 0 <= t < j ==> resource_row(#[trigger] rows@[t], group.resources@[t]),
            decreases group.resources.len() - j,
        {
            let resource = &group.resources[j];
            let location = normalize_non_empty_value(resource.location.as_str(), "-");
            let sku = resolve_resource_sku(resource);
            let tags = format_resource_tags(resource);
            rows.push(
                InventoryResourceView {
                    name: escape_markdown_table_cell(resource.name.as_str()),
                    resource_type: escape_markdown_table_cell(resource.resource_type.as_str()),
                    location: escape_markdown_table_cell(location.as_str()),
                    sku: escape_markdown_table_cell(sku.as_str()),
                    tags: escape_markdown_table_cell(tags.as_str()),
                },
            );
            j = j + 1;
        }
        let location = normalize_non_empty_value(group.resource_group.location.as_str(), "-");
        views.push(
            InventoryGroupView {
                name: escape_markdown_heading(group.resource_group.name.as_str()),
                location: escape_markdown_heading(location.as_str()),
                total_resources: group.resources.len(),
                resources: rows,
            },
        );
        i = i + 1;
    }
    views
}

// ---------------------------------------------------------------------------
// Sorting groups and resources
// ---------------------------------------------------------------------------

/// The order of resource groups: name in lowercase.
pub open spec fn group_sort_key(g: AzureResourceGroupReportItem) -> Seq<KeyPartModel> {
    seq![KeyPartModel::Asc(lowercase(g.name@))]
}

/// The order of resources: type in lowercase, then name in lowercase.
pub open spec fn resource_sort_key(r: AzureResourceReportItem) -> Seq<KeyPartModel> {
    seq![KeyPartModel::Asc(lowercase(r.resource_type@)), KeyPartModel::Asc(lowercase(r.name@))]
}

/// Groups in case-insensitive name order (a stable sort).
pub open spec fn sorted_groups(s: Seq<AzureResourceGroupReportItem>) -> Seq<
    AzureResourceGroupReportItem,
> {
    sorted_by_models(s.map_values(|g: AzureResourceGroupReportItem| group_sort_key(g)), s)
}

/// Resources in case-insensitive type-then-name order (a stable sort).
pub open spec fn sorted_resources(s: Seq<AzureResourceReportItem>) -> Seq<AzureResourceReportItem> {
    sorted_by_models(s.map_values(|r: AzureResourceReportItem| resource_sort_key(r)), s)
}

/// Sorts resource groups alphabetically, ignoring case; equal names keep
/// their order.
pub fn sort_resource_groups(resource_groups: &mut Vec<AzureResourceGroupReportItem>)
    ensures
        final(resource_groups)@ == sorted_groups(old(resource_groups)@),
{
    let mut items: Vec<AzureResourceGroupReportItem> = Vec::new();
    std::mem::swap(&mut items, resource_groups);
    let mut keys: Vec<Vec<KeyPart>> = Vec::new();
    let mut i: usize = 0;
    while i < items.len()
        invariant
            i <= items.len(),
            keys.len() == i,
            forall|j: int| 0 <= j < i ==> key_model(#[trigger] keys@[j]) == group_sort_key(items@[j]),
        decreases items.len() - i,
    {
        let mut key: Vec<KeyPart> = Vec::new();
        key.push(KeyPart::Asc(lowercase_chars(items[i].name.as_str())));
        assert(key_model(key) =~= group_sort_key(items@[i as int]));
        keys.push(key);
        i = i + 1;
    }
    let ghost models = keys@.map_values(|k: Vec<KeyPart>| key_model(k));
    assert(models =~= items@.map_values(|g: AzureResourceGroupReportItem| group_sort_key(g)));
    *resource_groups = sort_by_keys(items, keys);
}

/// Sorts resources by type, then by name, both ignoring case; equal keys keep
/// their order.
pub fn sort_resources(resources: &mut Vec<AzureResourceReportItem>)
    ensures
        final(resources)@ == sorted_resources(old(resources)@),
{
    let mut items: Vec<AzureResourceReportItem> = Vec::new();
    std::mem::swap(&mut items, resources);
    let mut keys: Vec<Vec<KeyPart>> = Vec::new();
    let mut i: usize = 0;
    while i < items.len()
        invariant
            i <= items.len(),
            keys.len() == i,
            forall|j: int|
                0 <= j < i ==> key_model(#[trigger] keys@[j]) == resource_sort_key(items@[j]),
        decreases items.len() - i,
    {
        let mut key: Vec<KeyPart> = Vec::new();
        key.push(KeyPart::Asc(lowercase_chars(items[i].resource_type.as_str())));
        key.push(KeyPart::Asc(lowercase_chars(items[i].name.as_str())));
        assert(key_model(key) =~= resource_sort_key(items@[i as int]));
        keys.push(key);
        i = i + 1;
    }
    let ghost models = keys@.map_values(|k: Vec<KeyPart>| key_model(k));
    assert(models =~= items@.map_values(|r: AzureResourceReportItem| resource_sort_key(r)));
    *resources = sort_by_keys(items, keys);
}

/// The distinct texts in ascending order.
pub fn ascending_unique_texts(texts: Vec<String>) -> (r: Vec<String>)
    ensures
        r@.map_values(|s: String| s@) == ascending_unique(texts@.map_values(|s: String| s@)),
{
    let ghost views = texts@.map_values(|s: String| s@);
    let mut keys: Vec<Vec<KeyPart>> = Vec::new();
    let mut k: usize = 0;
    while k < texts.len()
        invariant
            k <= texts.len(),
            keys.len() == k,
            forall|t: int|
                0 <= t < k ==> key_model(#[trigger] keys@[t]) == seq![
                    KeyPartModel::Asc(texts@[t]@),
                ],
        decreases texts.len() - k,
    {
        let mut key: Vec<KeyPart> = Vec::new();
        key.push(KeyPart::Asc(chars_of(texts[k].as_str())));
        assert(key_model(key) =~= seq![KeyPartModel::Asc(texts@[k as int]@)]);
        keys.push(key);
        k = k + 1;
    }
    let ghost models = keys@.map_values(|kk: Vec<KeyPart>| key_model(kk));
    let ghost original = texts@;
    assert(models =~= views.map_values(|x: Seq<char>| seq![KeyPartModel::Asc(x)]));
    let sorted = sort_by_keys(texts, keys);
    proof {
        crate::sort::lemma_sorted_map(models, original, |s: String| s@);
    }
    let ghost sv = sorted@.map_values(|s: String| s@);
    let mut out: Vec<String> = Vec::new();
    let mut last: Vec<char> = Vec::new();
    let mut q: usize = 0;
    assert(sv.take(0) =~= Seq::<Seq<char>>::empty());
    while q < sorted.len()
        invariant
            q <= sorted.len(),
            sv == sorted@.map_values(|s: String| s@),
            out@.map_values(|s: String| s@) == dedup_adjacent(sv.take(q as int)),
            q > 0 ==> last@ == sv[q - 1],
            q > 0 ==> dedup_adjacent(sv.take(q as int)).len() > 0 && dedup_adjacent(
                sv.take(q as int),
            ).last() == sv[q - 1],
        decreases sorted.len() - q,
    {
        let cur = chars_of(sorted[q].as_str());
        let ghost prefix = sv.take(q + 1);
        assert(prefix.drop_last() == sv.take(q as int));
        assert(prefix.last() == sv[q as int]);
        if q > 0 && chars_equal(&cur, &last) {
            assert(prefix[prefix.len() - 2] == sv[q - 1]);
        } else {
            let ghost before = dedup_adjacent(sv.take(q as int));
            if q > 0 {
                assert(prefix[prefix.len() - 2] == sv[q - 1]);
                assert(dedup_adjacent(prefix) == before.push(sv[q as int]));
            } else {
                assert(prefix =~= seq![sv[0]]);
                assert(dedup_adjacent(prefix) == before.push(sv[q as int]));
            }
            let ghost out_before = out@.map_values(|s: String| s@);
            out.push(string_from_chars(&cur));
            assert(out@.map_values(|s: String| s@) =~= out_before.push(sv[q as int]));
        }
        last = cur;
        q = q + 1;
    }
    assert(sv.take(sorted.len() as int) == sv);
    out
}

/// The groups whose sort key is `k`, in their order.
pub open spec fn groups_with_key(s: Seq<AzureResourceGroupReportItem>, k: Seq<KeyPartModel>) -> Seq<
    AzureResourceGroupReportItem,
> {
    crate::sort::of_key(s, |g: AzureResourceGroupReportItem| group_sort_key(g), k)
}

/// The resources whose sort key is `k`, in their order.
pub open spec fn resources_with_key(s: Seq<AzureResourceReportItem>, k: Seq<KeyPartModel>) -> Seq<
    AzureResourceReportItem,
> {
    crate::sort::of_key(s, |r: AzureResourceReportItem| resource_sort_key(r), k)
}

/// Sorting resource groups orders them by lowercase name, keeps exactly the
/// same groups, keeps groups with equal lowercase names in their order
/// (a stable sort), and sorting again changes nothing.
pub proof fn law_sort_resource_groups(groups: Seq<AzureResourceGroupReportItem>)
    ensures
        sorted_groups(groups).to_multiset() == groups.to_multiset(),
        forall|k: Seq<KeyPartModel>|
            #[trigger] groups_with_key(sorted_groups(groups), k) == groups_with_key(groups, k),
        forall|i: int, j: int|
            0 <= i < j < groups.len() ==> !text_lt(
                lowercase((#[trigger] sorted_groups(groups)[j]).name@),
                lowercase((#[trigger] sorted_groups(groups)[i]).name@),
            ),
        sorted_groups(sorted_groups(groups)) == sorted_groups(groups),
{
    let f = |g: AzureResourceGroupReportItem| group_sort_key(g);
    crate::sort::lemma_sort_ordered(groups, f);
    crate::sort::lemma_sort_idempotent(groups, f);
    assert forall|k: Seq<KeyPartModel>| #[trigger] groups_with_key(sorted_groups(groups), k)
        == groups_with_key(groups, k) by {
        crate::sort::lemma_sort_stable(groups, f, k);
    }
    let r = sorted_groups(groups);
    assert forall|i: int, j: int| 0 <= i < j < groups.len() implies !text_lt(
        lowercase((#[trigger] r[j]).name@),
        lowercase((#[trigger] r[i]).name@),
    ) by {
        assert(!crate::sort::key_lt(f(r[j]), f(r[i])));
        let a = lowercase(r[j].name@);
        let b = lowercase(r[i].name@);
        crate::text::lemma_text_lt_total(a, b);
        if a != b {
            assert(f(r[j])[0] != f(r[i])[0]);
            assert(f(r[j]).drop_first().len() == 0);
        }
    }
}

/// Sorting resources orders them by lowercase type and then lowercase name,
/// keeps exactly the same resources, keeps resources with equal lowercase
/// type and name in their order (a stable sort), and sorting again changes
/// nothing.
pub proof fn law_sort_resources(resources: Seq<AzureResourceReportItem>)
    ensures
        sorted_resources(resources).to_multiset() == resources.to_multiset(),
        forall|k: Seq<KeyPartModel>|
            #[trigger] resources_with_key(sorted_resources(resources), k) == resources_with_key(
                resources,
                k,
            ),
        forall|i: int, j: int|
            0 <= i < j < resources.len() ==> !crate::sort::key_lt(
                resource_sort_key(#[trigger] sorted_resources(resources)[j]),
                resource_sort_key(#[trigger] sorted_resources(resources)[i]),
            ),
        forall|i: int, j: int|
            0 <= i < j < resources.len() ==> !text_lt(
                lowercase((#[trigger] sorted_resources(resources)[j]).resource_type@),
                lowercase((#[trigger] sorted_resources(resources)[i]).resource_type@),
            ),
        forall|i: int, j: int|
            0 <= i < j < resources.len() && lowercase(
                (#[trigger] sorted_resources(resources)[i]).resource_type@,
            ) == lowercase((#[trigger] sorted_resources(resources)[j]).resource_type@) ==> !text_lt(
                lowercase(sorted_resources(resources)[j].name@),
                lowercase(sorted_resources(resources)[i].name@),
            ),
        sorted_resources(sorted_resources(resources)) == sorted_resources(resources),
{
    let f = |r: AzureResourceReportItem| resource_sort_key(r);
    crate::sort::lemma_sort_ordered(resources, f);
    crate::sort::lemma_sort_idempotent(resources, f);
    assert forall|k: Seq<KeyPartModel>| #[trigger] resources_with_key(sorted_resources(resources), k)
        == resources_with_key(resources, k) by {
        crate::sort::lemma_sort_stable(resources, f, k);
    }
    let r = sorted_resources(resources);
    assert forall|i: int, j: int| 0 <= i < j < resources.len() implies !text_lt(
        lowercase((#[trigger] r[j]).resource_type@),
        lowercase((#[trigger] r[i]).resource_type@),
    ) by {
        assert(!crate::sort::key_lt(f(r[j]), f(r[i])));
        let a = lowercase(r[j].resource_type@);
        let b = lowercase(r[i].resource_type@);
        crate::text::lemma_text_lt_total(a, b);
        if a != b {
            assert(f(r[j])[0] != f(r[i])[0]);
        }
    }
    assert forall|i: int, j: int|
        0 <= i < j < resources.len() && lowercase((#[trigger] r[i]).resource_type@) == lowercase(
            (#[trigger] r[j]).resource_type@,
        ) implies !text_lt(lowercase(r[j].name@), lowercase(r[i].name@)) by {
        let a = seq![lowercase(r[i].resource_type@), lowercase(r[i].name@)];
        let b = seq![lowercase(r[j].resource_type@), lowercase(r[j].name@)];
        assert(!crate::sort::key_lt(f(r[j]), f(r[i])));
        assert(f(r[i]) =~= crate::sort::asc_key(a));
        assert(f(r[j]) =~= crate::sort::asc_key(b));
        crate::sort::lemma_asc_key_order(a, b);
        assert(!text_lt(b[1], a[1]));
    }
}

// ---------------------------------------------------------------------------
// Report view
// ---------------------------------------------------------------------------

/// Everything the inventory report shows.
pub struct InventoryTemplateView {
    pub generated_at: String,
    pub subscription_name: String,
    pub subscription_id: String,
    pub azure_user: String,
    pub resource_group_count: usize,
    pub total_resources: usize,
    pub resources_per_type: Vec<SummaryCountRow>,
    pub resources_per_region: Vec<SummaryCountRow>,
    pub empty_resource_groups: Vec<String>,
    pub resources_without_tags: usize,
    pub non_standard_regions: Vec<String>,
    pub groups: Vec<InventoryGroupView>,
}

/// Whether `r` holds the report data of the inventory `groups` of `account`:
/// escaped account metadata, the counts, the summaries per type and region,
/// the empty groups, the signals, and one section per group.
pub open spec fn template_view_of(
    r: InventoryTemplateView,
    account: AzureAccount,
    groups: Seq<AzureInventoryGroup>,
    total: usize,
    generated_at: Seq<char>,
) -> bool {
    &&& r.generated_at@ == generated_at
    &&& r.subscription_name@ == escape_text(account.name@)
    &&& r.subscription_id@ == escape_text(account.subscription_id@)
    &&& r.azure_user@ == escape_text(account.user@)
    &&& r.resource_group_count == groups.len()
    &&& r.total_resources == total
    &&& r.resources_per_type@.map_values(|x: SummaryCountRow| row_model(x)) == summary_rows(
        buckets(all_resources(groups).map_values(|x: AzureResourceReportItem| type_pair(x))),
    )
    &&& r.resources_per_region@.map_values(|x: SummaryCountRow| row_model(x)) == summary_rows(
        buckets(all_resources(groups).map_values(|x: AzureResourceReportItem| region_pair(x))),
    )
    &&& r.empty_resource_groups@.map_values(|s: String| s@) == by_lowercase(empty_group_names(groups))
    &&& r.resources_without_tags == count_untagged(all_resources(groups))
    &&& r.non_standard_regions@.map_values(|s: String| s@) == ascending_unique(
        region_candidates(groups),
    ).map_values(|x: Seq<char>| escape_text(x))
    &&& r.groups.len() == groups.len()
    &&& forall|i: int| 0 <= i < groups.len() ==> group_section(#[trigger] r.groups@[i], groups[i])
}

/// Builds the data of the inventory report: escaped account metadata,
/// counts, summaries per type and region, empty groups, the signals, and one
/// section per group.
#[verifier::spinoff_prover]
pub fn build_inventory_template_view(
    account: &AzureAccount,
    inventory_groups: &Vec<AzureInventoryGroup>,
    total_resource_count: usize,
    generated_at_display: String,
) -> (r: InventoryTemplateView)
    requires
        all_resources(inventory_groups@).len() <= usize::MAX,
    ensures
        r.generated_at == generated_at_display,
        template_view_of(r, *account, inventory_groups@, total_resource_count, generated_at_display@),
{
    let resources_per_type = build_resources_per_type_summary(inventory_groups);
    let resources_per_region = build_resources_per_region_summary(inventory_groups);
    let empty_resource_groups = collect_empty_resource_group_names(inventory_groups);
    let resources_without_tags = count_resources_without_tags(inventory_groups);
    let non_standard_regions = collect_non_standard_regions(inventory_groups);
    let groups = build_group_views(inventory_groups);
    InventoryTemplateView {
        generated_at: generated_at_display,
        subscription_name: escape_markdown_text(account.name.as_str()),
        subscription_id: escape_markdown_text(account.subscription_id.as_str()),
        azure_user: escape_markdown_text(account.user.as_str()),
        resource_group_count: inventory_groups.len(),
        total_resources: total_resource_count,
        resources_per_type,
        resources_per_region,
        empty_resource_groups,
        resources_without_tags,
        non_standard_regions,
        groups,
    }
}

/// The sum of the counts of summary rows.
pub open spec fn counted(rows: Seq<(Seq<char>, nat)>) -> nat {
    weight_sum(rows, |r: (Seq<char>, nat)| r.1)
}

proof fn lemma_bucket_total(pairs: Seq<(Seq<char>, Seq<char>)>)
    ensures
        weight_sum(buckets(pairs), |b: Bucket| b.2) == pairs.len(),
    decreases pairs.len(),
{
    if pairs.len() > 0 {
        let w = |b: Bucket| b.2;
        let bs = buckets(pairs.drop_last());
        let (k, l) = pairs.last();
        lemma_bucket_total(pairs.drop_last());
        lemma_find_bucket_range(bs, k);
        let i = find_bucket(bs, k);
        if i < 0 {
            lemma_weight_sum_push(bs, (k, l, 1nat), w);
        } else {
            lemma_weight_sum_update(bs, i, (k, bs[i].1, bs[i].2 + 1), w);
        }
    }
}

/// Every counted item lands in exactly one summary row: the counts of the
/// rows add up to the number of items counted.
pub proof fn law_summary_counts_every_item(pairs: Seq<(Seq<char>, Seq<char>)>)
    ensures
        counted(summary_rows(buckets(pairs))) == pairs.len(),
{
    let bs = buckets(pairs);
    let wb = |b: Bucket| b.2;
    let wr = |r: (Seq<char>, nat)| r.1;
    let to_row = |b: Bucket| (escape_text(b.1), b.2);
    let ordered = sorted_by_models(bs.map_values(|b: Bucket| seq![KeyPartModel::Asc(b.0)]), bs);
    let rows = ordered.map_values(to_row);
    lemma_bucket_total(pairs);
    lemma_sorted_weight(bs.map_values(|b: Bucket| seq![KeyPartModel::Asc(b.0)]), bs, wb);
    lemma_weight_sum_map(ordered, to_row, wr);
    assert((|x: Bucket| wr(to_row(x))) =~= wb);
    lemma_sorted_weight(rows.map_values(|r: (Seq<char>, nat)| summary_key(r)), rows, wr);
}

/// The per-type summary counts every resource once.
pub proof fn law_type_summary_counts_every_resource(groups: Seq<AzureInventoryGroup>)
    ensures
        counted(
            summary_rows(buckets(all_resources(groups).map_values(|x: AzureResourceReportItem| type_pair(x)))),
        ) == all_resources(groups).len(),
{
    law_summary_counts_every_item(all_resources(groups).map_values(|x: AzureResourceReportItem| type_pair(x)));
}

/// The per-region summary counts every resource once.
pub proof fn law_region_summary_counts_every_resource(groups: Seq<AzureInventoryGroup>)
    ensures
        counted(
            summary_rows(buckets(all_resources(groups).map_values(|x: AzureResourceReportItem| region_pair(x)))),
        ) == all_resources(groups).len(),
{
    law_summary_counts_every_item(all_resources(groups).map_values(|x: AzureResourceReportItem| region_pair(x)));
}

#[verifier::spinoff_prover]
proof fn lemma_dedup_sorted(s: Seq<Seq<char>>)
    requires
        forall|i: int, j: int| 0 <= i < j < s.len() ==> !text_lt(#[trigger] s[j], #[trigger] s[i]),
    ensures
        forall|i: int, j: int|
            0 <= i < j < dedup_adjacent(s).len() ==> text_lt(
                #[trigger] dedup_adjacent(s)[i],
                #[trigger] dedup_adjacent(s)[j],
            ),
        forall|x: Seq<char>| dedup_adjacent(s).contains(x) <==> s.contains(x),
        s.len() > 0 ==> dedup_adjacent(s).len() > 0 && dedup_adjacent(s).last() == s.last(),
    decreases s.len(),
{
    if s.len() > 1 {
        let s0 = s.drop_last();
        assert forall|i: int, j: int| 0 <= i < j < s0.len() implies !text_lt(
            #[trigger] s0[j],
            #[trigger] s0[i],
        ) by {
            assert(s0[i] == s[i] && s0[j] == s[j]);
        }
        lemma_dedup_sorted(s0);
        let d0 = dedup_adjacent(s0);
        let d = dedup_adjacent(s);
        assert(s0.last() == s[s.len() - 2]);
        assert forall|x: Seq<char>| s.contains(x) <==> (s0.contains(x) || x == s.last()) by {
            if s.contains(x) {
                let k = choose|k: int| 0 <= k < s.len() && s[k] == x;
                if k < s.len() - 1 {
                    assert(s0[k] == x);
                }
            }
            if s0.contains(x) {
                let k = choose|k: int| 0 <= k < s0.len() && s0[k] == x;
                assert(s[k] == x);
            }
            assert(s[s.len() - 1] == s.last());
        }
        if s.last() == s[s.len() - 2] {
            assert(d == d0);
            assert(s0.contains(s0.last()) ) by {
                assert(s0[s0.len() - 1] == s0.last());
            }
        } else {
            assert(d == d0.push(s.last()));
            lemma_text_lt_total(s.last(), s0.last());
            assert(!text_lt(s[s.len() - 1], s[s.len() - 2]));
            assert(text_lt(s0.last(), s.last()));
            assert forall|i: int, j: int| 0 <= i < j < d.len() implies text_lt(
                #[trigger] d[i],
                #[trigger] d[j],
            ) by {
                if j == d.len() - 1 {
                    if i < d0.len() - 1 {
                        assert(text_lt(d0[i], d0[d0.len() - 1]));
                        lemma_text_lt_transitive(d0[i], d0.last(), s.last());
                    }
                } else {
                    assert(d[i] == d0[i] && d[j] == d0[j]);
                }
            }
            assert forall|x: Seq<char>| d.contains(x) <==> (d0.contains(x) || x == s.last()) by {
                if d.contains(x) {
                    let k = choose|k: int| 0 <= k < d.len() && d[k] == x;
                    if k < d.len() - 1 {
                        assert(d0[k] == x);
                    }
                }
                if d0.contains(x) {
                    let k = choose|k: int| 0 <= k < d0.len() && d0[k] == x;
                    assert(d[k] == x);
                }
                assert(d[d.len() - 1] == s.last());
            }
        }
    } else if s.len() == 1 {
        assert forall|x: Seq<char>| dedup_adjacent(s).contains(x) <==> s.contains(x) by {}
    }
}

/// The distinct texts come out in strictly ascending order, each text of the
/// input exactly once: what a sorted set of them yields.
pub proof fn law_ascending_unique(s: Seq<Seq<char>>)
    ensures
        forall|i: int, j: int|
            0 <= i < j < ascending_unique(s).len() ==> text_lt(
                #[trigger] ascending_unique(s)[i],
                #[trigger] ascending_unique(s)[j],
            ),
        forall|x: Seq<char>| ascending_unique(s).contains(x) <==> s.contains(x),
{
    let f = |x: Seq<char>| seq![KeyPartModel::Asc(x)];
    crate::sort::lemma_sort_ordered(s, f);
    let t = sorted_by_models(s.map_values(f), s);
    assert forall|i: int, j: int| 0 <= i < j < t.len() implies !text_lt(#[trigger] t[j], #[trigger] t[i]) by {
        assert(!crate::sort::key_lt(f(t[j]), f(t[i])));
        lemma_text_lt_total(t[j], t[i]);
        if t[j] != t[i] {
            assert(f(t[j])[0] != f(t[i])[0]);
        }
    }
    lemma_dedup_sorted(t);
    assert forall|x: Seq<char>| t.contains(x) <==> s.contains(x) by {
        broadcast use vstd::seq_lib::group_to_multiset_ensures;

        assert(t.to_multiset().count(x) == s.to_multiset().count(x));
    }
}

// ---------------------------------------------------------------------------
// Inventory Markdown
// ---------------------------------------------------------------------------

/// One summary bullet: `- <label>: <count>`.
pub open spec fn count_line(r: SummaryCountRow) -> Seq<char> {
    "- "@ + r.label@ + ": "@ + decimal(r.count as nat) + "\n"@
}

/// The summary bullets of rows, in order.
pub open spec fn summary_lines(rows: Seq<SummaryCountRow>) -> Seq<char>
    decreases rows.len(),
{
    if rows.len() == 0 {
        Seq::empty()
    } else {
        summary_lines(rows.drop_last()) + count_line(rows.last())
    }
}

/// One bullet per name, in order.
pub open spec fn name_lines(names: Seq<String>) -> Seq<char>
    decreases names.len(),
{
    if names.len() == 0 {
        Seq::empty()
    } else {
        name_lines(names.drop_last()) + "- "@ + names.last()@ + "\n"@
    }
}

/// A bullet list, or `- None` when it has no bullets.
pub open spec fn list_or_none(lines: Seq<char>) -> Seq<char> {
    if lines.len() == 0 {
        "- None\n"@
    } else {
        lines
    }
}

/// The regions joined with `, `, or `none` when there are none.
pub open spec fn regions_text(regions: Seq<String>) -> Seq<char> {
    if regions.len() == 0 {
        "none"@
    } else {
        join(regions.map_values(|s: String| s@), ", "@)
    }
}

/// One table row of a resource.
pub open spec fn table_row(v: InventoryResourceView) -> Seq<char> {
    "| "@ + v.name@ + " | "@ + v.resource_type@ + " | "@ + v.location@ + " | "@ + v.sku@ + " | "@
        + v.tags@ + " |\n"@
}

/// The table rows of resources, in order, with no blank line between them.
pub open spec fn table_rows(rows: Seq<InventoryResourceView>) -> Seq<char>
    decreases rows.len(),
{
    if rows.len() == 0 {
        Seq::empty()
    } else {
        table_rows(rows.drop_last()) + table_row(rows.last())
    }
}

/// The section of one resource group: heading with name and location, its
/// resource count, and the resource table.
pub open spec fn group_markdown(g: InventoryGroupView) -> Seq<char> {
    "\n## "@ + g.name@ + " ("@ + g.location@ + ")\n\n"@ + "- Total resources: "@ + decimal(
        g.total_resources as nat,
    ) + "\n\n"@ + "| Name | Type | Location | SKU | Tags |\n|------|------|----------|-----|------|\n"@
        + table_rows(g.resources@)
}

/// The sections of the groups, in order.
pub open spec fn groups_markdown(groups: Seq<InventoryGroupView>) -> Seq<char>
    decreases groups.len(),
{
    if groups.len() == 0 {
        Seq::empty()
    } else {
        groups_markdown(groups.drop_last()) + group_markdown(groups.last())
    }
}

/// The title and metadata bullets of the inventory report.
pub open spec fn inventory_header(v: InventoryTemplateView) -> Seq<char> {
    "# Azure Inventory\n\n"@ + "- Generated: "@ + v.generated_at@ + "\n"@ + "- Subscription: "@
        + v.subscription_name@ + " ("@ + v.subscription_id@ + ")\n"@ + "- Azure user: "@
        + v.azure_user@ + "\n"@ + "- Resource groups: "@ + decimal(v.resource_group_count as nat)
        + "\n"@ + "- Total resources: "@ + decimal(v.total_resources as nat) + "\n"@
}

/// The summary part of the inventory report: counts per type and region,
/// the empty groups, and the signals.
pub open spec fn inventory_summary(v: InventoryTemplateView) -> Seq<char> {
    "\n## Summary\n\n### Resources per type\n\n"@ + list_or_none(summary_lines(v.resources_per_type@))
        + "\n### Resources per region\n\n"@ + list_or_none(summary_lines(v.resources_per_region@))
        + "\n### Empty resource groups\n\n"@ + list_or_none(name_lines(v.empty_resource_groups@))
        + "\n### Signals\n\n"@ + "- Resources without tags: "@ + decimal(
        v.resources_without_tags as nat,
    ) + "\n"@ + "- Non-standard regions detected: "@ + regions_text(v.non_standard_regions@)
        + "\n"@
}

/// The inventory report: header, summary, and one section per group.
pub open spec fn inventory_markdown(v: InventoryTemplateView) -> Seq<char> {
    inventory_header(v) + inventory_summary(v) + groups_markdown(v.groups@)
}

fn push_summary_lines(out: &mut String, rows: &Vec<SummaryCountRow>)
    ensures
        final(out)@ == old(out)@ + list_or_none(summary_lines(rows@)),
{
    if rows.len() == 0 {
        push_str(out, "- None\n");
        return;
    }
    let ghost start = out@;
    let mut i: usize = 0;
    assert(rows@.take(0) =~= Seq::<SummaryCountRow>::empty());
    assert(out@ =~= start + summary_lines(rows@.take(0)));
    while i < rows.len()
        invariant
            i <= rows.len(),
            out@ == start + summary_lines(rows@.take(i as int)),
        decreases rows.len() - i,
    {
        assert(rows@.take(i + 1).drop_last() =~= rows@.take(i as int));
        push_str(out, "- ");
        push_str(out, rows[i].label.as_str());
        push_str(out, ": ");
        let count = decimal_text(rows[i].count);
        push_str(out, count.as_str());
        push_str(out, "\n");
        assert(out@ =~= start + summary_lines(rows@.take(i + 1)));
        i = i + 1;
    }
    assert(rows@.take(rows.len() as int) =~= rows@);
    proof {
        lemma_summary_lines_nonempty(rows@);
    }
}

proof fn lemma_summary_lines_nonempty(rows: Seq<SummaryCountRow>)
    requires
        rows.len() > 0,
    ensures
        summary_lines(rows).len() > 0,
{
    reveal_strlit("- ");
}

proof fn lemma_name_lines_nonempty(names: Seq<String>)
    requires
        names.len() > 0,
    ensures
        name_lines(names).len() > 0,
{
    reveal_strlit("\n");
}

fn push_name_lines(out: &mut String, names: &Vec<String>)
    ensures
        final(out)@ == old(out)@ + list_or_none(name_lines(names@)),
{
    if names.len() == 0 {
        push_str(out, "- None\n");
        return;
    }
    let ghost start = out@;
    let mut i: usize = 0;
    assert(names@.take(0) =~= Seq::<String>::empty());
    assert(out@ =~= start + name_lines(names@.take(0)));
    while i < names.len()
        invariant
            i <= names.len(),
            out@ == start + name_lines(names@.take(i as int)),
        decreases names.len() - i,
    {
        assert(names@.take(i + 1).drop_last() =~= names@.take(i as int));
        push_str(out, "- ");
        push_str(out, names[i].as_str());
        push_str(out, "\n");
        assert(out@ =~= start + name_lines(names@.take(i + 1)));
        i = i + 1;
    }
    assert(names@.take(names.len() as int) =~= names@);
    proof {
        lemma_name_lines_nonempty(names@);
    }
}

fn push_regions(out: &mut String, regions: &Vec<String>)
    ensures
        final(out)@ == old(out)@ + regions_text(regions@),
{
    if regions.len() == 0 {
        push_str(out, "none");
    } else {
        let joined = join_texts(regions, ", ");
        push_str(out, joined.as_str());
    }
}

#[verifier::spinoff_prover]
fn push_group_markdown(out: &mut String, g: &InventoryGroupView)
    ensures
        final(out)@ == old(out)@ + group_markdown(*g),
{
    let ghost start = out@;
    push_str(out, "\n## ");
    push_str(out, g.name.as_str());
    push_str(out, " (");
    push_str(out, g.location.as_str());
    push_str(out, ")\n\n");
    push_str(out, "- Total resources: ");
    let total = decimal_text(g.total_resources);
    push_str(out, total.as_str());
    push_str(out, "\n\n");
    push_str(out, "| Name | Type | Location | SKU | Tags |\n|------|------|----------|-----|------|\n");
    let ghost head = out@;
    let mut i: usize = 0;
    assert(g.resources@.take(0) =~= Seq::<InventoryResourceView>::empty());
    assert(out@ =~= head + table_rows(g.resources@.take(0)));
    while i < g.resources.len()
        invariant
            i <= g.resources.len(),
            out@ == head + table_rows(g.resources@.take(i as int)),
        decreases g.resources.len() - i,
    {
        assert(g.resources@.take(i + 1).drop_last() =~= g.resources@.take(i as int));
        let row = &g.resources[i];
        push_str(out, "| ");
        push_str(out, row.name.as_str());
        push_str(out, " | ");
        push_str(out, row.resource_type.as_str());
        push_str(out, " | ");
        push_str(out, row.location.as_str());
        push_str(out, " | ");
        push_str(out, row.sku.as_str());
        push_str(out, " | ");
        push_str(out, row.tags.as_str());
        push_str(out, " |\n");
        assert(out@ =~= head + table_rows(g.resources@.take(i + 1)));
        i = i + 1;
    }
    assert(g.resources@.take(g.resources.len() as int) =~= g.resources@);
    assert(out@ =~= start + group_markdown(*g));
}

#[verifier::spinoff_prover]
fn push_inventory_header(out: &mut String, view: &InventoryTemplateView)
    ensures
        final(out)@ == old(out)@ + inventory_header(*view),
{
    let ghost start = out@;
    push_str(out, "# Azure Inventory\n\n");
    push_str(out, "- Generated: ");
    push_str(out, view.generated_at.as_str());
    push_str(out, "\n");
    push_str(out, "- Subscription: ");
    push_str(out, view.subscription_name.as_str());
    push_str(out, " (");
    push_str(out, view.subscription_id.as_str());
    push_str(out, ")\n");
    push_str(out, "- Azure user: ");
    push_str(out, view.azure_user.as_str());
    push_str(out, "\n");
    push_str(out, "- Resource groups: ");
    let group_count = decimal_text(view.resource_group_count);
    push_str(out, group_count.as_str());
    push_str(out, "\n");
    push_str(out, "- Total resources: ");
    let total = decimal_text(view.total_resources);
    push_str(out, total.as_str());
    push_str(out, "\n");
    assert(out@ =~= start + inventory_header(*view));
}

#[verifier::spinoff_prover]
fn push_inventory_summary(out: &mut String, view: &InventoryTemplateView)
    ensures
        final(out)@ == old(out)@ + inventory_summary(*view),
{
    let ghost start = out@;
    push_str(out, "\n## Summary\n\n### Resources per type\n\n");
    push_summary_lines(out, &view.resources_per_type);
    push_str(out, "\n### Resources per region\n\n");
    push_summary_lines(out, &view.resources_per_region);
    push_str(out, "\n### Empty resource groups\n\n");
    push_name_lines(out, &view.empty_resource_groups);
    push_str(out, "\n### Signals\n\n");
    push_str(out, "- Resources without tags: ");
    let untagged = decimal_text(view.resources_without_tags);
    push_str(out, untagged.as_str());
    push_str(out, "\n");
    push_str(out, "- Non-standard regions detected: ");
    push_regions(out, &view.non_standard_regions);
    push_str(out, "\n");
    assert(out@ =~= start + inventory_summary(*view));
}

fn push_groups_markdown(out: &mut String, groups: &Vec<InventoryGroupView>)
    ensures
        final(out)@ == old(out)@ + groups_markdown(groups@),
{
    let ghost start = out@;
    let mut i: usize = 0;
    assert(groups@.take(0) =~= Seq::<InventoryGroupView>::empty());
    assert(out@ =~= start + groups_markdown(groups@.take(0)));
    while i < groups.len()
        invariant
            i <= groups.len(),
            out@ == start + groups_markdown(groups@.take(i as int)),
        decreases groups.len() - i,
    {
        assert(groups@.take(i + 1).drop_last() =~= groups@.take(i as int));
        push_group_markdown(out, &groups[i]);
        assert(out@ =~= start + groups_markdown(groups@.take(i + 1)));
        i = i + 1;
    }
    assert(groups@.take(groups.len() as int) =~= groups@);
}

/// Renders the inventory report of prepared report data as Markdown: title,
/// metadata bullets, the summary sections, and one table per group.
pub fn render_inventory_view(view: &InventoryTemplateView) -> (r: String)
    ensures
        r@ == inventory_markdown(*view),
{
    let mut out = String::new();
    push_inventory_header(&mut out, view);
    push_inventory_summary(&mut out, view);
    push_groups_markdown(&mut out, &view.groups);
    assert(out@ =~= inventory_markdown(*view));
    out
}

/// Renders the inventory report of `inventory_groups`, generated now
/// (`YYYY-MM-DD HH:MM UTC`).
pub fn render_inventory_markdown(
    account: &AzureAccount,
    inventory_groups: &Vec<AzureInventoryGroup>,
    total_resource_count: usize,
) -> (r: String)
    requires
        all_resources(inventory_groups@).len() <= usize::MAX,
    ensures
        exists|now: UtcParts, view: InventoryTemplateView|
            valid_parts(now) && template_view_of(
                view,
                *account,
                inventory_groups@,
                total_resource_count,
                report_timestamp(now),
            ) && r@ == inventory_markdown(view),
{
    let now = utc_now_parts();
    let generated_at = format_report_timestamp(&now);
    let view = build_inventory_template_view(account, inventory_groups, total_resource_count, generated_at);
    render_inventory_view(&view)
}

/// The bullet of a summary row as the report prints it: the label, a colon,
/// and the number of resources counted under the label.
pub open spec fn count_bullet(r: SummaryCountRow) -> Seq<char> {
    "- "@ + r.label@ + ": "@ + decimal(r.count as nat) + "\n"@
}

/// The printed summary list: one bullet per row, in row order, or `- None`.
pub open spec fn count_bullets(rows: Seq<SummaryCountRow>) -> Seq<char> {
    if rows.len() == 0 {
        "- None\n"@
    } else {
        concat_all(rows.map_values(|r: SummaryCountRow| count_bullet(r)))
    }
}

proof fn lemma_summary_lines_bullets(rows: Seq<SummaryCountRow>)
    ensures
        summary_lines(rows) == concat_all(rows.map_values(|r: SummaryCountRow| count_bullet(r))),
    decreases rows.len(),
{
    if rows.len() > 0 {
        lemma_summary_lines_bullets(rows.drop_last());
        let m = rows.map_values(|r: SummaryCountRow| count_bullet(r));
        assert(m.drop_last() =~= rows.drop_last().map_values(|r: SummaryCountRow| count_bullet(r)));
        assert(m.last() == count_bullet(rows.last()));
        assert(count_line(rows.last()) =~= count_bullet(rows.last()));
    } else {
        assert(rows.map_values(|r: SummaryCountRow| count_bullet(r)) =~= Seq::<Seq<char>>::empty());
    }
}

/// The summary of the inventory report prints each row of the per-type and
/// per-region summaries as `- <label>: <count>`, in row order (or `- None`
/// for an empty summary): the number after a label is the number of
/// resources counted under it, never its position.
pub proof fn law_summary_prints_counts(v: InventoryTemplateView)
    ensures
        exists|rest: Seq<char>|
            inventory_summary(v) == "\n## Summary\n\n### Resources per type\n\n"@ + count_bullets(
                v.resources_per_type@,
            ) + "\n### Resources per region\n\n"@ + count_bullets(v.resources_per_region@) + rest,
{
    lemma_summary_lines_bullets(v.resources_per_type@);
    lemma_summary_lines_bullets(v.resources_per_region@);
    if v.resources_per_type@.len() > 0 {
        lemma_summary_lines_nonempty(v.resources_per_type@);
    }
    if v.resources_per_region@.len() > 0 {
        lemma_summary_lines_nonempty(v.resources_per_region@);
    }
    let rest = "\n### Empty resource groups\n\n"@ + list_or_none(name_lines(v.empty_resource_groups@))
        + "\n### Signals\n\n"@ + "- Resources without tags: "@ + decimal(
        v.resources_without_tags as nat,
    ) + "\n"@ + "- Non-standard regions detected: "@ + regions_text(v.non_standard_regions@)
        + "\n"@;
    assert(inventory_summary(v) =~= "\n## Summary\n\n### Resources per type\n\n"@ + count_bullets(
        v.resources_per_type@,
    ) + "\n### Resources per region\n\n"@ + count_bullets(v.resources_per_region@) + rest);
}

/// The counts of a summary list printed in the report add up to the number
/// of resources of the inventory, for the per-type and the per-region list.
pub proof fn law_report_summary_totals(
    v: InventoryTemplateView,
    account: AzureAccount,
    groups: Seq<AzureInventoryGroup>,
    total: usize,
    generated_at: Seq<char>,
)
    requires
        template_view_of(v, account, groups, total, generated_at),
    ensures
        weight_sum(v.resources_per_type@, |r: SummaryCountRow| r.count as nat) == all_resources(groups).len(),
        weight_sum(v.resources_per_region@, |r: SummaryCountRow| r.count as nat) == all_resources(groups).len(),
{
    law_type_summary_counts_every_resource(groups);
    law_region_summary_counts_every_resource(groups);
    lemma_weight_sum_map(v.resources_per_type@, |x: SummaryCountRow| row_model(x), |r: (Seq<char>, nat)| r.1);
    lemma_weight_sum_map(v.resources_per_region@, |x: SummaryCountRow| row_model(x), |r: (Seq<char>, nat)| r.1);
    assert((|x: SummaryCountRow| (|r: (Seq<char>, nat)| r.1)((|x: SummaryCountRow| row_model(x))(x)))
        =~= (|r: SummaryCountRow| r.count as nat));
}

/// The metadata of the inventory report ends with the number of resource
/// groups and then the number of resources; with report data built from an
/// inventory, these are the number of its groups and the given total.
pub proof fn law_inventory_header_counts(
    v: InventoryTemplateView,
    account: AzureAccount,
    groups: Seq<AzureInventoryGroup>,
    total: usize,
    generated_at: Seq<char>,
)
    ensures
        exists|head: Seq<char>|
            inventory_header(v) == head + "- Resource groups: "@ + decimal(v.resource_group_count as nat)
                + "\n"@ + "- Total resources: "@ + decimal(v.total_resources as nat) + "\n"@,
        template_view_of(v, account, groups, total, generated_at) ==> v.resource_group_count == groups.len()
            && v.total_resources == total,
{
    let head = "# Azure Inventory\n\n"@ + "- Generated: "@ + v.generated_at@ + "\n"@ + "- Subscription: "@
        + v.subscription_name@ + " ("@ + v.subscription_id@ + ")\n"@ + "- Azure user: "@
        + v.azure_user@ + "\n"@;
    assert(inventory_header(v) =~= head + "- Resource groups: "@ + decimal(v.resource_group_count as nat)
        + "\n"@ + "- Total resources: "@ + decimal(v.total_resources as nat) + "\n"@);
}

/// The section of a group heads its table with the number of resources in
/// the group, which for a section built from a group is its resource count,
/// and then prints one table row per resource.
pub proof fn law_group_section_count(g: InventoryGroupView, group: AzureInventoryGroup)
    ensures
        exists|head: Seq<char>|
            group_markdown(g) == head + "- Total resources: "@ + decimal(g.total_resources as nat)
                + "\n\n"@ + "| Name | Type | Location | SKU | Tags |\n|------|------|----------|-----|------|\n"@
                + table_rows(g.resources@),
        group_section(g, group) ==> g.total_resources == group.resources@.len() && g.resources@.len()
            == group.resources@.len(),
{
    let head = "\n## "@ + g.name@ + " ("@ + g.location@ + ")\n\n"@;
    assert(group_markdown(g) =~= head + "- Total resources: "@ + decimal(g.total_resources as nat)
        + "\n\n"@ + "| Name | Type | Location | SKU | Tags |\n|------|------|----------|-----|------|\n"@
        + table_rows(g.resources@));
}

/// A printed table row: name, type, location, SKU and tags, in that order.
pub open spec fn printed_row(v: InventoryResourceView) -> Seq<char> {
    "| "@ + v.name@ + " | "@ + v.resource_type@ + " | "@ + v.location@ + " | "@ + v.sku@ + " | "@
        + v.tags@ + " |\n"@
}

/// A resource table prints one row per resource in order, each with the
/// resource's name, type, location, SKU and tags in the header's column
/// order.
pub proof fn law_table_rows(rows: Seq<InventoryResourceView>)
    ensures
        table_rows(rows) == concat_all(rows.map_values(|v: InventoryResourceView| printed_row(v))),
    decreases rows.len(),
{
    if rows.len() > 0 {
        law_table_rows(rows.drop_last());
        let m = rows.map_values(|v: InventoryResourceView| printed_row(v));
        assert(m.drop_last() =~= rows.drop_last().map_values(|v: InventoryResourceView| printed_row(v)));
        assert(table_row(rows.last()) =~= printed_row(rows.last()));
    } else {
        assert(rows.map_values(|v: InventoryResourceView| printed_row(v)) =~= Seq::<Seq<char>>::empty());
    }
}

/// Whether a resource has no tag whose key holds visible text.
pub open spec fn shows_no_tag(r: AzureResourceReportItem) -> bool {
    match r.tags {
        Some(ts) => forall|i: int| 0 <= i < ts@.len() ==> trim((#[trigger] ts@[i]).key@).len() == 0,
        None => true,
    }
}

/// The untagged-resources signal counts exactly the resources that have no
/// tag with a visible key.
pub proof fn law_untagged_count(rs: Seq<AzureResourceReportItem>)
    ensures
        count_untagged(rs) == rs.filter(|r: AzureResourceReportItem| shows_no_tag(r)).len(),
    decreases rs.len(),
{
    let f = |r: AzureResourceReportItem| shows_no_tag(r);
    if rs.len() > 0 {
        law_untagged_count(rs.drop_last());
        rs.drop_last().lemma_filter_push(rs.last(), f);
        assert(rs.drop_last().push(rs.last()) =~= rs);
        assert(has_tags(rs.last()) <==> !shows_no_tag(rs.last()));
    } else {
        assert(rs.filter(f) =~= Seq::<AzureResourceReportItem>::empty());
    }
}

/// The empty-groups signal names exactly the groups that hold no resources,
/// each by its escaped name.
pub proof fn law_empty_group_names(groups: Seq<AzureInventoryGroup>, x: Seq<char>)
    ensures
        empty_group_names(groups).contains(x) <==> exists|i: int|
            0 <= i < groups.len() && (#[trigger] groups[i]).resources@.len() == 0 && x == escape_text(
                groups[i].resource_group.name@,
            ),
    decreases groups.len(),
{
    if groups.len() > 0 {
        let init = groups.drop_last();
        let g = groups.last();
        law_empty_group_names(init, x);
        let e = empty_group_names(init);
        if g.resources@.len() == 0 {
            assert(empty_group_names(groups) == e.push(escape_text(g.resource_group.name@)));
            if e.push(escape_text(g.resource_group.name@)).contains(x) {
                let k = choose|k: int| 0 <= k < e.len() + 1 && e.push(escape_text(g.resource_group.name@))[k] == x;
                if k < e.len() {
                    assert(e[k] == x);
                    assert(e.contains(x));
                } else {
                    assert(groups[groups.len() - 1] == g);
                }
            }
        } else {
            assert(empty_group_names(groups) == e);
        }
        if exists|i: int|
            0 <= i < groups.len() && (#[trigger] groups[i]).resources@.len() == 0 && x == escape_text(
                groups[i].resource_group.name@,
            ) {
            let i = choose|i: int|
                0 <= i < groups.len() && (#[trigger] groups[i]).resources@.len() == 0 && x
                    == escape_text(groups[i].resource_group.name@);
            if i < groups.len() - 1 {
                assert(init[i] == groups[i]);
                assert(e.contains(x));
                let k = choose|k: int| 0 <= k < e.len() && e[k] == x;
                if g.resources@.len() == 0 {
                    assert(e.push(escape_text(g.resource_group.name@))[k] == x);
                }
            } else {
                assert(e.push(escape_text(g.resource_group.name@))[e.len() as int] == x);
            }
        }
        if e.contains(x) {
            let i = choose|i: int|
                0 <= i < init.len() && (#[trigger] init[i]).resources@.len() == 0 && x == escape_text(
                    init[i].resource_group.name@,
                );
            assert(groups[i] == init[i]);
        }
    }
}

/// Whether some resource of `rs` is located in region `x`.
pub open spec fn some_resource_in(rs: Seq<AzureResourceReportItem>, x: Seq<char>) -> bool {
    exists|j: int| 0 <= j < rs.len() && region_of((#[trigger] rs[j]).location@) == Some(x)
}

proof fn lemma_resource_regions_contains(rs: Seq<AzureResourceReportItem>, x: Seq<char>)
    ensures
        resource_regions(rs).contains(x) <==> x != lowercase("westeurope"@) && some_resource_in(rs, x),
    decreases rs.len(),
{
    if rs.len() > 0 {
        let init = rs.drop_last();
        lemma_resource_regions_contains(init, x);
        let a = resource_regions(init);
        let b = non_default_region(rs.last().location@);
        assert(resource_regions(rs) == a + b);
        if (a + b).contains(x) {
            let k = choose|k: int| 0 <= k < (a + b).len() && (a + b)[k] == x;
            if k < a.len() {
                assert(a.contains(x));
                let j = choose|j: int| 0 <= j < init.len() && region_of((#[trigger] init[j]).location@) == Some(x);
                assert(rs[j] == init[j]);
            } else {
                assert(region_of(rs[rs.len() - 1].location@) == Some(x));
            }
        }
        if x != lowercase("westeurope"@) && some_resource_in(rs, x) {
            let j = choose|j: int| 0 <= j < rs.len() && region_of((#[trigger] rs[j]).location@) == Some(x);
            if j < rs.len() - 1 {
                assert(init[j] == rs[j]);
                assert(a.contains(x));
                let k = choose|k: int| 0 <= k < a.len() && a[k] == x;
                assert((a + b)[k] == x);
            } else {
                assert(b == seq![x]);
                assert((a + b)[a.len() as int] == x);
            }
        }
    }
}

/// The non-standard-regions signal considers exactly the regions, other
/// than the default `westeurope`, in which some group or some resource is
/// located (each location trimmed and lowercased, blank ones skipped).
pub proof fn law_region_candidates(groups: Seq<AzureInventoryGroup>, x: Seq<char>)
    ensures
        region_candidates(groups).contains(x) <==> x != lowercase("westeurope"@) && exists|i: int|
            0 <= i < groups.len() && (region_of((#[trigger] groups[i]).resource_group.location@)
                == Some(x) || some_resource_in(groups[i].resources@, x)),
    decreases groups.len(),
{
    if groups.len() > 0 {
        let init = groups.drop_last();
        let g = groups.last();
        law_region_candidates(init, x);
        lemma_resource_regions_contains(g.resources@, x);
        let a = region_candidates(init);
        let b = non_default_region(g.resource_group.location@);
        let c = resource_regions(g.resources@);
        assert(region_candidates(groups) == a + b + c);
        if (a + b + c).contains(x) {
            let k = choose|k: int| 0 <= k < (a + b + c).len() && (a + b + c)[k] == x;
            if k < a.len() {
                assert(a[k] == x);
                let i = choose|i: int|
                    0 <= i < init.len() && (region_of((#[trigger] init[i]).resource_group.location@)
                        == Some(x) || some_resource_in(init[i].resources@, x));
                assert(groups[i] == init[i]);
            } else if k < a.len() + b.len() {
                assert(b[k - a.len()] == x);
                assert(groups[groups.len() - 1] == g);
            } else {
                assert(c[k - a.len() - b.len()] == x);
                assert(c.contains(x));
                assert(groups[groups.len() - 1] == g);
            }
        }
        if x != lowercase("westeurope"@) && exists|i: int|
            0 <= i < groups.len() && (region_of((#[trigger] groups[i]).resource_group.location@)
                == Some(x) || some_resource_in(groups[i].resources@, x)) {
            let i = choose|i: int|
                0 <= i < groups.len() && (region_of((#[trigger] groups[i]).resource_group.location@)
                    == Some(x) || some_resource_in(groups[i].resources@, x));
            if i < groups.len() - 1 {
                assert(init[i] == groups[i]);
                let k = choose|k: int| 0 <= k < a.len() && a[k] == x;
                assert((a + b + c)[k] == x);
            } else if region_of(g.resource_group.location@) == Some(x) {
                assert(b == seq![x]);
                assert((a + b + c)[a.len() as int] == x);
            } else {
                let k = choose|k: int| 0 <= k < c.len() && c[k] == x;
                assert((a + b + c)[a.len() + b.len() + k] == x);
            }
        }
    }
}

} // verus!
