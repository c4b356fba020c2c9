use vstd::prelude::*;

use crate::clock::{
    decimal, decimal_text, format_report_timestamp, report_timestamp, utc_now_parts, valid_parts, UtcParts,
};
use crate::json::{json_model, json_text, json_to_text, JsonModel, JsonValue};
use crate::model::{
    AzureAccount, AzureInventoryGroup, AzureResourceGroupReportItem, AzureResourceReportItem,
    AzureResourceSkuReportItem, ResourceTag,
};
use crate::sort::{
    key_model, lemma_weight_sum_add, lemma_weight_sum_map, lemma_weight_sum_single, sort_by_keys,
    sorted_by_models, weight_sum, KeyPart, KeyPartModel,
};
use crate::report::{
    sort_resource_groups, sorted_groups, ascending_unique, ascending_unique_texts, by_lowercase, resource_sort_key, sort_resources,
    sort_texts_case_insensitively, sorted_resources, law_ascending_unique, all_resources, count_total_resources,
    inventory_markdown, render_inventory_markdown, sku_text, template_view_of, InventoryTemplateView,
};
use crate::snapshot::{
    field, get_field, lacks_key, last_with_key, lemma_member_value_absent, lemma_member_value_last,
    member_value, normalized_resource_view, snapshot_resource_view,
    AzureSnapshotNormalizedResource, NormalizedResourceModel, AzureGroupSnapshotEnvelope, AzureSnapshotEnvelope,
    AzureSnapshotResource, SnapshotResourceModel,
};
use crate::text::{
    chars_of, concat_all, text_equal, has_suffix, is_white_space, lemma_concat_all_push, push_char, push_str,
    lowercase, lowercase_chars, string_from_chars, string_from_range, text_ends_with, text_lt, trim, trim_end,
    trim_start, trim_text, trimmed_chars,
};

verus! {

// ---------------------------------------------------------------------------
// Display values and Markdown wrapping
// ---------------------------------------------------------------------------

/// A value as it is shown: trimmed, and `-` when nothing remains.
pub open spec fn display(value: Seq<char>) -> Seq<char> {
    if trim(value).len() == 0 {
        "-"@
    } else {
        trim(value)
    }
}

/// Normalizes one display value to a dash when it is empty after trimming.
pub fn display_value(value: &str) -> (r: String)
    ensures
        r@ == display(value@),
{
    let trimmed = trimmed_chars(value);
    if trimmed.len() == 0 {
        return String::from_str("-");
    }
    string_from_chars(&trimmed)
}

/// The text, ending in exactly the newline that a closing fence needs.
pub open spec fn with_trailing_newline(text: Seq<char>) -> Seq<char> {
    if has_suffix(text, "\n"@) {
        text
    } else {
        text + "\n"@
    }
}

/// A text made to end with a newline does end with one, and making it so
/// again changes nothing.
pub proof fn law_trailing_newline(text: Seq<char>)
    ensures
        has_suffix(with_trailing_newline(text), "\n"@),
        with_trailing_newline(with_trailing_newline(text)) == with_trailing_newline(text),
{
    let r = with_trailing_newline(text);
    if !has_suffix(text, "\n"@) {
        reveal_strlit("\n");
        assert(r.subrange(r.len() - 1, r.len() as int) =~= "\n"@);
    }
}

/// Returns the text with a newline appended when it does not end in one.
pub fn ensure_trailing_newline(text: &str) -> (r: String)
    ensures
        r@ == with_trailing_newline(text@),
{
    let mut output = String::from_str(text);
    if !text_ends_with(text, "\n") {
        push_str(&mut output, "\n");
    }
    output
}

/// A titled Markdown document that holds `body` in one `text` fence.
pub open spec fn saved_inventory_markdown(title: Seq<char>, body: Seq<char>) -> Seq<char> {
    "# "@ + title + "\n\n"@ + "```text\n"@ + with_trailing_newline(body) + "```\n"@
}

/// Wraps terminal text in a small Markdown report.
pub fn render_saved_inventory_markdown(title: &str, body: &str) -> (r: String)
    ensures
        r@ == saved_inventory_markdown(title@, body@),
{
    let mut markdown = String::from_str("# ");
    push_str(&mut markdown, title);
    push_str(&mut markdown, "\n\n");
    push_str(&mut markdown, "```text\n");
    push_str(&mut markdown, body);
    if !text_ends_with(body, "\n") {
        push_str(&mut markdown, "\n");
    }
    push_str(&mut markdown, "```\n");
    markdown
}

// ---------------------------------------------------------------------------
// Terminal lists
// ---------------------------------------------------------------------------

/// The fields that the resource list prints.
pub struct AzureSubscriptionResourceListItem {
    pub name: String,
    /// JSON field `type`.
    pub resource_type: String,
    /// JSON field `resourceGroup`.
    pub resource_group: String,
    pub location: String,
}

/// One row of the resource list.
pub open spec fn resource_list_row(r: AzureSubscriptionResourceListItem) -> Seq<char> {
    display(r.name@) + " | "@ + display(r.resource_type@) + " | "@ + display(r.resource_group@)
        + " | "@ + display(r.location@) + "\n"@
}

/// The resource list: a heading, a header row, a separator row, and one row
/// per resource (a row of dashes when there is none).
pub open spec fn resources_list_text(s: Seq<AzureSubscriptionResourceListItem>) -> Seq<char> {
    "Azure resources\n"@ + "Name | Type | Group | Location\n"@ + "---- | ---- | ----- | --------\n"@
        + if s.len() == 0 {
        "- | - | - | -\n"@
    } else {
        concat_all(s.map_values(|r: AzureSubscriptionResourceListItem| resource_list_row(r)))
    }
}

/// Renders resources as compact terminal rows.
pub fn render_resources_list_text(resources: &Vec<AzureSubscriptionResourceListItem>) -> (r: String)
    ensures
        r@ == resources_list_text(resources@),
{
    let mut output = String::from_str("Azure resources\n");
    push_str(&mut output, "Name | Type | Group | Location\n");
    push_str(&mut output, "---- | ---- | ----- | --------\n");
    let ghost head = output@;
    if resources.len() == 0 {
        push_str(&mut output, "- | - | - | -\n");
        return output;
    }
    let ghost rows = resources@.map_values(|r: AzureSubscriptionResourceListItem| resource_list_row(r));
    let mut i: usize = 0;
    assert(rows.take(0) =~= Seq::<Seq<char>>::empty());
    while i < resources.len()
        invariant
            i <= resources.len(),
            rows == resources@.map_values(|r: AzureSubscriptionResourceListItem| resource_list_row(r)),
            output@ == head + concat_all(rows.take(i as int)),
        decreases resources.len() - i,
    {
        let resource = &resources[i];
        let name = display_value(resource.name.as_str());
        let resource_type = display_value(resource.resource_type.as_str());
        let resource_group = display_value(resource.resource_group.as_str());
        let location = display_value(resource.location.as_str());
        let ghost before = output@;
        push_str(&mut output, name.as_str());
        push_str(&mut output, " | ");
        push_str(&mut output, resource_type.as_str());
        push_str(&mut output, " | ");
        push_str(&mut output, resource_group.as_str());
        push_str(&mut output, " | ");
        push_str(&mut output, location.as_str());
        push_str(&mut output, "\n");
        proof {
            assert(rows.take(i + 1) =~= rows.take(i as int).push(rows[i as int]));
            lemma_concat_all_push(rows.take(i as int), rows[i as int]);
            assert(output@ =~= before + resource_list_row(resources@[i as int]));
        }
        i = i + 1;
    }
    assert(rows.take(resources.len() as int) =~= rows);
    output
}

/// One row of the resource group list.
pub open spec fn group_list_row(g: AzureResourceGroupReportItem) -> Seq<char> {
    display(g.name@) + " | "@ + display(g.location@) + "\n"@
}

/// The resource group list, shaped like the resource list.
pub open spec fn groups_list_text(s: Seq<AzureResourceGroupReportItem>) -> Seq<char> {
    "Azure resource groups\n"@ + "Name | Location\n"@ + "---- | --------\n"@ + if s.len() == 0 {
        "- | -\n"@
    } else {
        concat_all(s.map_values(|g: AzureResourceGroupReportItem| group_list_row(g)))
    }
}

/// Renders resource groups as compact terminal rows.
pub fn render_groups_list_text(resource_groups: &Vec<AzureResourceGroupReportItem>) -> (r: String)
    ensures
        r@ == groups_list_text(resource_groups@),
{
    let mut output = String::from_str("Azure resource groups\n");
    push_str(&mut output, "Name | Location\n");
    push_str(&mut output, "---- | --------\n");
    let ghost head = output@;
    if resource_groups.len() == 0 {
        push_str(&mut output, "- | -\n");
        return output;
    }
    let ghost rows = resource_groups@.map_values(|g: AzureResourceGroupReportItem| group_list_row(g));
    let mut i: usize = 0;
    assert(rows.take(0) =~= Seq::<Seq<char>>::empty());
    while i < resource_groups.len()
        invariant
            i <= resource_groups.len(),
            rows == resource_groups@.map_values(|g: AzureResourceGroupReportItem| group_list_row(g)),
            output@ == head + concat_all(rows.take(i as int)),
        decreases resource_groups.len() - i,
    {
        let name = display_value(resource_groups[i].name.as_str());
        let location = display_value(resource_groups[i].location.as_str());
        let ghost before = output@;
        push_str(&mut output, name.as_str());
        push_str(&mut output, " | ");
        push_str(&mut output, location.as_str());
        push_str(&mut output, "\n");
        proof {
            assert(rows.take(i + 1) =~= rows.take(i as int).push(rows[i as int]));
            lemma_concat_all_push(rows.take(i as int), rows[i as int]);
            assert(output@ =~= before + group_list_row(resource_groups@[i as int]));
        }
        i = i + 1;
    }
    assert(rows.take(resource_groups.len() as int) =~= rows);
    output
}

// ---------------------------------------------------------------------------
// Resource tree
// ---------------------------------------------------------------------------

/// One resource group of the resource tree with its resource names.
pub struct ResourceTreeGroup {
    pub name: String,
    pub resources: Vec<String>,
}

/// The model of a tree group: its name and resource names.
pub open spec fn tree_group_model(g: ResourceTreeGroup) -> (Seq<char>, Seq<Seq<char>>) {
    (g.name@, g.resources@.map_values(|s: String| s@))
}

/// One resource line, with the closing connector for the last resource.
pub open spec fn resource_line(name: Seq<char>, last: bool) -> Seq<char> {
    (if last {
        "      └── "@
    } else {
        "      ├── "@
    }) + name + "\n"@
}

/// The resource lines below one group.
pub open spec fn resource_lines(names: Seq<Seq<char>>) -> Seq<char> {
    concat_all(Seq::new(names.len(), |j: int| resource_line(names[j], j + 1 == names.len())))
}

/// One group line and its resource lines.
pub open spec fn group_block(g: (Seq<char>, Seq<Seq<char>>), last: bool) -> Seq<char> {
    (if last {
        " └── "@
    } else {
        " ├── "@
    }) + g.0 + "\n"@ + resource_lines(g.1)
}

/// The plain text tree: the subscription as root, groups as its children and
/// resources below their group.
pub open spec fn tree_text(subscription_name: Seq<char>, groups: Seq<(Seq<char>, Seq<Seq<char>>)>) -> Seq<
    char,
> {
    subscription_name + "\n"@ + concat_all(
        Seq::new(groups.len(), |i: int| group_block(groups[i], i + 1 == groups.len())),
    )
}

fn push_resource_lines(output: &mut String, names: &Vec<String>)
    ensures
        final(output)@ == old(output)@ + resource_lines(names@.map_values(|s: String| s@)),
{
    let ghost views = names@.map_values(|s: String| s@);
    let ghost lines = Seq::new(views.len(), |j: int| resource_line(views[j], j + 1 == views.len()));
    let ghost head = output@;
    let count = names.len();
    let mut j: usize = 0;
    assert(lines.take(0) =~= Seq::<Seq<char>>::empty());
    while j < count
        invariant
            j <= count,
            count == names.len(),
            views == names@.map_values(|s: String| s@),
            lines == Seq::new(views.len(), |k: int| resource_line(views[k], k + 1 == views.len())),
            output@ == head + concat_all(lines.take(j as int)),
        decreases count - j,
    {
        let ghost before = output@;
        if j + 1 == count {
            push_str(output, "      └── ");
        } else {
            push_str(output, "      ├── ");
        }
        push_str(output, names[j].as_str());
        push_str(output, "\n");
        proof {
            assert(lines.take(j + 1) =~= lines.take(j as int).push(lines[j as int]));
            lemma_concat_all_push(lines.take(j as int), lines[j as int]);
            assert(output@ =~= before + lines[j as int]);
        }
        j = j + 1;
    }
    assert(lines.take(count as int) =~= lines);
}

/// Renders the compact resource tree: only group and resource names.
pub fn render_resources_tree_text(subscription_name: &str, grouped_resources: &Vec<ResourceTreeGroup>) -> (r:
    String)
    ensures
        r@ == tree_text(
            subscription_name@,
            grouped_resources@.map_values(|g: ResourceTreeGroup| tree_group_model(g)),
        ),
{
    let mut output = String::from_str(subscription_name);
    push_str(&mut output, "\n");
    let ghost head = output@;
    let ghost models = grouped_resources@.map_values(|g: ResourceTreeGroup| tree_group_model(g));
    let ghost blocks = Seq::new(models.len(), |i: int| group_block(models[i], i + 1 == models.len()));
    let count = grouped_resources.len();
    let mut i: usize = 0;
    assert(blocks.take(0) =~= Seq::<Seq<char>>::empty());
    while i < count
        invariant
            i <= count,
            count == grouped_resources.len(),
            models == grouped_resources@.map_values(|g: ResourceTreeGroup| tree_group_model(g)),
            blocks == Seq::new(models.len(), |k: int| group_block(models[k], k + 1 == models.len())),
            output@ == head + concat_all(blocks.take(i as int)),
        decreases count - i,
    {
        let ghost before = output@;
        if i + 1 == count {
            push_str(&mut output, " └── ");
        } else {
            push_str(&mut output, " ├── ");
        }
        push_str(&mut output, grouped_resources[i].name.as_str());
        push_str(&mut output, "\n");
        push_resource_lines(&mut output, &grouped_resources[i].resources);
        proof {
            assert(blocks.take(i + 1) =~= blocks.take(i as int).push(blocks[i as int]));
            lemma_concat_all_push(blocks.take(i as int), blocks[i as int]);
            assert(output@ =~= before + blocks[i as int]);
        }
        i = i + 1;
    }
    assert(blocks.take(count as int) =~= blocks);
    output
}

// ---------------------------------------------------------------------------
// Azure CLI text
// ---------------------------------------------------------------------------

/// The pieces of a text between newline characters (one more than the
/// number of newlines).
pub open spec fn newline_segments(s: Seq<char>) -> Seq<Seq<char>>
    decreases s.len(),
{
    if s.len() == 0 {
        seq![Seq::empty()]
    } else if s.last() == '\n' {
        newline_segments(s.drop_last()).push(Seq::empty())
    } else {
        let p = newline_segments(s.drop_last());
        p.update(p.len() - 1, p.last().push(s.last()))
    }
}

/// A line without the carriage return that ends it, as `str::lines` gives it.
pub open spec fn line_of(segment: Seq<char>) -> Seq<char> {
    if segment.len() > 0 && segment.last() == '\r' {
        segment.drop_last()
    } else {
        segment
    }
}

/// The trimmed lines that hold more than white space.
pub open spec fn kept_lines(segments: Seq<Seq<char>>) -> Seq<Seq<char>>
    decreases segments.len(),
{
    if segments.len() == 0 {
        Seq::empty()
    } else if trim(line_of(segments.last())).len() == 0 {
        kept_lines(segments.drop_last())
    } else {
        kept_lines(segments.drop_last()).push(trim(line_of(segments.last())))
    }
}

/// The non-empty trimmed lines of a text.
pub open spec fn tsv_fields(s: Seq<char>) -> Seq<Seq<char>> {
    kept_lines(newline_segments(s))
}

proof fn lemma_newline_segments_nonempty(s: Seq<char>)
    ensures
        newline_segments(s).len() > 0,
    decreases s.len(),
{
    if s.len() > 0 {
        lemma_newline_segments_nonempty(s.drop_last());
    }
}

fn split_newline_segments(cs: &Vec<char>) -> (r: Vec<Vec<char>>)
    ensures
        r@.map_values(|v: Vec<char>| v@) == newline_segments(cs@),
{
    let mut done: Vec<Vec<char>> = Vec::new();
    let mut current: Vec<char> = Vec::new();
    let mut i: usize = 0;
    assert(cs@.take(0) =~= Seq::<char>::empty());
    assert(done@.map_values(|v: Vec<char>| v@).push(current@) =~= newline_segments(cs@.take(0)));
    while i < cs.len()
        invariant
            i <= cs.len(),
            done@.map_values(|v: Vec<char>| v@).push(current@) == newline_segments(cs@.take(i as int)),
        decreases cs.len() - i,
    {
        let ghost old_done = done@.map_values(|v: Vec<char>| v@);
        let ghost old_cur = current@;
        assert(cs@.take(i + 1).drop_last() =~= cs@.take(i as int));
        if cs[i] == '\n' {
            let mut finished: Vec<char> = Vec::new();
            std::mem::swap(&mut finished, &mut current);
            done.push(finished);
            assert(done@.map_values(|v: Vec<char>| v@) =~= old_done.push(old_cur));
        } else {
            current.push(cs[i]);
            assert(old_done.push(old_cur).update(old_done.len() as int, old_cur.push(cs[i as int]))
                =~= old_done.push(current@));
        }
        i = i + 1;
    }
    assert(cs@.take(cs.len() as int) =~= cs@);
    let ghost before = done@.map_values(|v: Vec<char>| v@);
    done.push(current);
    assert(done@.map_values(|v: Vec<char>| v@) =~= before.push(current@));
    done
}

/// Lines joined by newline characters.
pub open spec fn lines_text(ls: Seq<Seq<char>>) -> Seq<char>
    decreases ls.len(),
{
    if ls.len() == 0 {
        Seq::empty()
    } else if ls.len() == 1 {
        ls[0]
    } else {
        lines_text(ls.drop_last()) + seq!['\n'] + ls.last()
    }
}

/// A line with visible text at both ends and no newline inside.
pub open spec fn clean_line(l: Seq<char>) -> bool {
    &&& l.len() > 0
    &&& !is_white_space(l[0])
    &&& !is_white_space(l.last())
    &&& forall|i: int| 0 <= i < l.len() ==> l[i] != '\n'
}

proof fn lemma_segments_append_plain(s: Seq<char>, l: Seq<char>)
    requires
        forall|i: int| 0 <= i < l.len() ==> l[i] != '\n',
    ensures
        newline_segments(s + l) == newline_segments(s).update(
            newline_segments(s).len() - 1,
            newline_segments(s).last() + l,
        ),
        newline_segments(s + l).len() == newline_segments(s).len(),
    decreases l.len(),
{
    lemma_newline_segments_nonempty(s);
    if l.len() == 0 {
        assert(s + l =~= s);
        let p = newline_segments(s);
        assert(p.last() + l =~= p.last());
        assert(p.update(p.len() - 1, p.last()) =~= p);
    } else {
        let l0 = l.drop_last();
        lemma_segments_append_plain(s, l0);
        assert((s + l).drop_last() =~= s + l0);
        assert((s + l).last() == l.last());
        let p = newline_segments(s);
        let q = newline_segments(s + l0);
        assert(q.last() == p.last() + l0);
        assert(l[l.len() - 1] != '\n');
        assert(newline_segments(s + l) == q.update(q.len() - 1, q.last().push(l.last())));
        assert((p.last() + l0).push(l.last()) =~= p.last() + l);
        assert(q.update(q.len() - 1, q.last().push(l.last())) =~= p.update(p.len() - 1, p.last() + l));
    }
}

proof fn lemma_lines_segments(ls: Seq<Seq<char>>)
    requires
        ls.len() >= 1,
        forall|i: int| 0 <= i < ls.len() ==> clean_line(#[trigger] ls[i]),
    ensures
        newline_segments(lines_text(ls)) == ls,
    decreases ls.len(),
{
    if ls.len() == 1 {
        let e = Seq::<char>::empty();
        assert(newline_segments(e) == seq![e]);
        assert(clean_line(ls[0]));
        lemma_segments_append_plain(e, ls[0]);
        assert(e + ls[0] =~= ls[0]);
        assert(seq![e].update(0, e + ls[0]) =~= ls);
    } else {
        let init = ls.drop_last();
        assert forall|i: int| 0 <= i < init.len() implies clean_line(#[trigger] init[i]) by {
            assert(init[i] == ls[i]);
        }
        lemma_lines_segments(init);
        let t = lines_text(init);
        assert(t.push('\n').drop_last() =~= t);
        assert(newline_segments(t.push('\n')) == init.push(Seq::<char>::empty()));
        assert(t + seq!['\n'] =~= t.push('\n'));
        assert(clean_line(ls[ls.len() - 1]));
        lemma_segments_append_plain(t.push('\n'), ls.last());
        assert(Seq::<char>::empty() + ls.last() =~= ls.last());
        assert(init.push(Seq::<char>::empty()).update(init.len() as int, ls.last()) =~= ls);
    }
}

proof fn lemma_kept_clean_lines(ls: Seq<Seq<char>>)
    requires
        forall|i: int| 0 <= i < ls.len() ==> clean_line(#[trigger] ls[i]),
    ensures
        kept_lines(ls) == ls,
    decreases ls.len(),
{
    if ls.len() > 0 {
        let init = ls.drop_last();
        assert forall|i: int| 0 <= i < init.len() implies clean_line(#[trigger] init[i]) by {
            assert(init[i] == ls[i]);
        }
        lemma_kept_clean_lines(init);
        let l = ls.last();
        assert(clean_line(ls[ls.len() - 1]));
        assert(is_white_space('\r'));
        assert(line_of(l) == l);
        crate::text::lemma_trim_unchanged(l);
        assert(init.push(l) =~= ls);
    }
}

/// Lines with visible text at both ends, written one per line (with or
/// without a final newline, and with blank lines in between ignored), are
/// read back as those lines in the same order; so the account query's three
/// lines give the subscription name, the subscription ID and the user, in
/// that order.
pub proof fn law_tsv_lines_read_back(ls: Seq<Seq<char>>)
    requires
        forall|i: int| 0 <= i < ls.len() ==> clean_line(#[trigger] ls[i]),
    ensures
        tsv_fields(lines_text(ls)) == ls,
        tsv_fields(lines_text(ls) + seq!['\n']) == ls,
{
    if ls.len() == 0 {
        assert(newline_segments(Seq::<char>::empty()) == seq![Seq::<char>::empty()]);
        assert(trim_start(Seq::<char>::empty()) == Seq::<char>::empty());
        assert(trim_end(Seq::<char>::empty()) == Seq::<char>::empty());
        assert(seq![Seq::<char>::empty()].drop_last() =~= Seq::<Seq<char>>::empty());
        assert(kept_lines(seq![Seq::<char>::empty()]) == kept_lines(Seq::<Seq<char>>::empty()));
        let n = seq!['\n'];
        assert(Seq::<char>::empty() + n =~= n);
        assert(n.drop_last() =~= Seq::<char>::empty());
        assert(newline_segments(n) == seq![Seq::<char>::empty(), Seq::<char>::empty()]);
        let two = seq![Seq::<char>::empty(), Seq::<char>::empty()];
        assert(two.drop_last() =~= seq![Seq::<char>::empty()]);
    } else {
        lemma_lines_segments(ls);
        lemma_kept_clean_lines(ls);
        let t = lines_text(ls);
        assert(t + seq!['\n'] =~= t.push('\n'));
        assert(t.push('\n').drop_last() =~= t);
        assert(newline_segments(t.push('\n')) == ls.push(Seq::<char>::empty()));
        assert(ls.push(Seq::<char>::empty()).drop_last() =~= ls);
        assert(line_of(Seq::<char>::empty()) == Seq::<char>::empty());
        assert(trim_start(Seq::<char>::empty()) == Seq::<char>::empty());
        assert(trim_end(Seq::<char>::empty()) == Seq::<char>::empty());
        assert(trim(Seq::<char>::empty()).len() == 0);
    }
}

/// Parses the three non-empty lines of the account query (subscription name,
/// subscription ID, user) into an account; `None` unless there are exactly
/// three.
pub fn parse_account_from_tsv(raw_output: &str) -> (r: Option<AzureAccount>)
    ensures
        r is Some <==> tsv_fields(raw_output@).len() == 3,
        r matches Some(a) ==> {
            &&& a.name@ == tsv_fields(raw_output@)[0]
            &&& a.subscription_id@ == tsv_fields(raw_output@)[1]
            &&& a.user@ == tsv_fields(raw_output@)[2]
        },
{
    let cs = chars_of(raw_output);
    let segments = split_newline_segments(&cs);
    let ghost segs = segments@.map_values(|v: Vec<char>| v@);
    let mut fields: Vec<String> = Vec::new();
    let mut i: usize = 0;
    assert(segs.take(0) =~= Seq::<Seq<char>>::empty());
    while i < segments.len()
        invariant
            i <= segments.len(),
            segs == segments@.map_values(|v: Vec<char>| v@),
            fields@.map_values(|s: String| s@) == kept_lines(segs.take(i as int)),
        decreases segments.len() - i,
    {
        assert(segs.take(i + 1).drop_last() =~= segs.take(i as int));
        assert(segs.take(i + 1).last() == segments@[i as int]@);
        let segment = &segments[i];
        let mut end = segment.len();
        if end > 0 && segment[end - 1] == '\r' {
            end = end - 1;
        }
        let line = string_from_range(segment, 0, end);
        assert(line@ == line_of(segment@)) by {
            if segment@.len() > 0 && segment@.last() == '\r' {
                assert(segment@.subrange(0, end as int) =~= segment@.drop_last());
            } else {
                assert(segment@.subrange(0, end as int) =~= segment@);
            }
        }
        let trimmed = trimmed_chars(line.as_str());
        if trimmed.len() > 0 {
            let ghost before = fields@.map_values(|s: String| s@);
            fields.push(string_from_chars(&trimmed));
            assert(fields@.map_values(|s: String| s@) =~= before.push(trimmed@));
        }
        i = i + 1;
    }
    assert(segs.take(segments.len() as int) =~= segs);
    if fields.len() != 3 {
        return None;
    }
    let user = fields.pop().unwrap();
    let subscription_id = fields.pop().unwrap();
    let name = fields.pop().unwrap();
    Some(AzureAccount { name, subscription_id, user })
}

/// The arguments of `az login --service-principal`, in the order a user
/// would type them.
pub open spec fn service_principal_login_arguments(
    tenant: Seq<char>,
    client_id: Seq<char>,
    client_secret: Seq<char>,
) -> Seq<Seq<char>> {
    seq![
        "login"@,
        "--service-principal"@,
        "--tenant"@,
        tenant,
        "--username"@,
        client_id,
        "--password"@,
        client_secret,
    ]
}

/// Builds the `az login --service-principal` argument list.
pub fn build_service_principal_login_arguments(tenant: &str, client_id: &str, client_secret: &str) -> (r:
    Vec<String>)
    ensures
        r@.map_values(|s: String| s@) == service_principal_login_arguments(
            tenant@,
            client_id@,
            client_secret@,
        ),
{
    let mut args: Vec<String> = Vec::new();
    args.push(String::from_str("login"));
    args.push(String::from_str("--service-principal"));
    args.push(String::from_str("--tenant"));
    args.push(String::from_str(tenant));
    args.push(String::from_str("--username"));
    args.push(String::from_str(client_id));
    args.push(String::from_str("--password"));
    args.push(String::from_str(client_secret));
    assert(args@.map_values(|s: String| s@) =~= service_principal_login_arguments(
        tenant@,
        client_id@,
        client_secret@,
    ));
    args
}

/// The text of bytes that are valid UTF-8, as `String::from_utf8` decodes
/// them; `None` for other bytes.
pub uninterp spec fn utf8_decoding(bytes: Seq<u8>) -> Option<Seq<char>>;

/// The text of bytes with each invalid UTF-8 sequence replaced by U+FFFD, as
/// `String::from_utf8_lossy` decodes them.
pub uninterp spec fn utf8_lossy_decoding(bytes: Seq<u8>) -> Seq<char>;

/// Calls `String::from_utf8`; its result is named by `utf8_decoding`.
#[verifier::external_body]
fn decode_utf8_strict(bytes: &[u8]) -> (r: Option<String>)
    ensures
        r matches Some(t) ==> utf8_decoding(bytes@) == Some(t@),
        r is None ==> utf8_decoding(bytes@) is None,
{
    String::from_utf8(bytes.to_vec()).ok()
}

/// Calls `String::from_utf8_lossy`; its result is named by
/// `utf8_lossy_decoding`.
#[verifier::external_body]
fn decode_utf8_lossy(bytes: &[u8]) -> (r: String)
    ensures
        r@ == utf8_lossy_decoding(bytes@),
{
    String::from_utf8_lossy(bytes).into_owned()
}

/// Decodes Azure CLI output: valid UTF-8 unchanged, otherwise with invalid
/// byte sequences replaced.
pub fn decode_azure_cli_json_output(stdout_bytes: &[u8]) -> (r: String)
    ensures
        r@ == match utf8_decoding(stdout_bytes@) {
            Some(text) => text,
            None => utf8_lossy_decoding(stdout_bytes@),
        },
{
    match decode_utf8_strict(stdout_bytes) {
        Some(text) => text,
        None => decode_utf8_lossy(stdout_bytes),
    }
}

// ---------------------------------------------------------------------------
// Reading snapshots
// ---------------------------------------------------------------------------

/// The list row of a snapshot resource.
pub open spec fn list_item_matches(
    r: AzureSubscriptionResourceListItem,
    e: SnapshotResourceModel,
) -> bool {
    &&& r.name@ == e.normalized.name
    &&& r.resource_type@ == e.normalized.resource_type
    &&& r.resource_group@ == e.normalized.resource_group
    &&& r.location@ == e.normalized.location
}

/// Converts a resource snapshot into rows for the resource list, in
/// snapshot order.
pub fn resource_list_items_from_snapshot(snapshot: AzureSnapshotEnvelope) -> (r: Vec<
    AzureSubscriptionResourceListItem,
>)
    ensures
        r.len() == snapshot.resources.len(),
        forall|i: int|
            0 <= i < r.len() ==> list_item_matches(
                #[trigger] r@[i],
                snapshot_resource_view(snapshot.resources@[i]),
            ),
{
    let mut out: Vec<AzureSubscriptionResourceListItem> = Vec::new();
    let mut i: usize = 0;
    while i < snapshot.resources.len()
        invariant
            i <= snapshot.resources.len(),
            out.len() == i,
            forall|j: int|
                0 <= j < i ==> list_item_matches(
                    #[trigger] out@[j],
                    snapshot_resource_view(snapshot.resources@[j]),
                ),
        decreases snapshot.resources.len() - i,
    {
        let n = &snapshot.resources[i].normalized;
        out.push(
            AzureSubscriptionResourceListItem {
                name: n.name.clone(),
                resource_type: n.resource_type.clone(),
                resource_group: n.resource_group.clone(),
                location: n.location.clone(),
            },
        );
        i = i + 1;
    }
    out
}

/// Converts a group snapshot into rows for the group list, in snapshot
/// order.
pub fn group_list_items_from_snapshot(snapshot: AzureGroupSnapshotEnvelope) -> (r: Vec<
    AzureResourceGroupReportItem,
>)
    ensures
        r.len() == snapshot.groups.len(),
        forall|i: int|
            0 <= i < r.len() ==> {
                &&& (#[trigger] r@[i]).name@ == snapshot.groups@[i].normalized.name@
                &&& r@[i].location@ == snapshot.groups@[i].normalized.location@
            },
{
    let mut out: Vec<AzureResourceGroupReportItem> = Vec::new();
    let mut i: usize = 0;
    while i < snapshot.groups.len()
        invariant
            i <= snapshot.groups.len(),
            out.len() == i,
            forall|j: int|
                0 <= j < i ==> {
                    &&& (#[trigger] out@[j]).name@ == snapshot.groups@[j].normalized.name@
                    &&& out@[j].location@ == snapshot.groups@[j].normalized.location@
                },
        decreases snapshot.groups.len() - i,
    {
        let n = &snapshot.groups[i].normalized;
        out.push(
            AzureResourceGroupReportItem { name: n.name.clone(), location: n.location.clone() },
        );
        i = i + 1;
    }
    out
}

/// The account that a resource snapshot was taken with.
pub fn account_from_resource_snapshot(snapshot: &AzureSnapshotEnvelope) -> (r: AzureAccount)
    ensures
        r.name@ == snapshot.subscription.name@,
        r.subscription_id@ == snapshot.subscription.id@,
        r.user@ == snapshot.subscription.user@,
{
    AzureAccount {
        name: snapshot.subscription.name.clone(),
        subscription_id: snapshot.subscription.id.clone(),
        user: snapshot.subscription.user.clone(),
    }
}

/// The (group, name) pair under which a resource appears in the tree.
pub open spec fn tree_pair(e: SnapshotResourceModel) -> (Seq<char>, Seq<char>) {
    (display(e.normalized.resource_group), display(e.normalized.name))
}

/// The tree pairs of the resources of a snapshot, in snapshot order.
pub open spec fn snapshot_tree_pairs(snapshot: AzureSnapshotEnvelope) -> Seq<(Seq<char>, Seq<char>)> {
    snapshot.resources@.map_values(|x: AzureSnapshotResource| tree_pair(snapshot_resource_view(x)))
}

/// The names paired with `group`, in order.
pub open spec fn names_in_group(pairs: Seq<(Seq<char>, Seq<char>)>, group: Seq<char>) -> Seq<
    Seq<char>,
>
    decreases pairs.len(),
{
    if pairs.len() == 0 {
        Seq::empty()
    } else if pairs.last().0 == group {
        names_in_group(pairs.drop_last(), group).push(pairs.last().1)
    } else {
        names_in_group(pairs.drop_last(), group)
    }
}

/// Resource names grouped by group: groups in ascending order, each once, and
/// each group's names ordered case-insensitively (equal ones in order).
pub open spec fn tree_groups(pairs: Seq<(Seq<char>, Seq<char>)>) -> Seq<(Seq<char>, Seq<Seq<char>>)> {
    ascending_unique(pairs.map_values(|p: (Seq<char>, Seq<char>)| p.0)).map_values(
        |k: Seq<char>| (k, by_lowercase(names_in_group(pairs, k))),
    )
}

/// The group names of a tree, in order.
pub open spec fn tree_group_names(groups: Seq<(Seq<char>, Seq<Seq<char>>)>) -> Seq<Seq<char>> {
    groups.map_values(|g: (Seq<char>, Seq<Seq<char>>)| g.0)
}

/// The groups of (group, name) pairs, in order.
pub open spec fn pair_groups(pairs: Seq<(Seq<char>, Seq<char>)>) -> Seq<Seq<char>> {
    pairs.map_values(|p: (Seq<char>, Seq<char>)| p.0)
}

/// How many names the groups of a tree list in all.
pub open spec fn tree_name_count(groups: Seq<(Seq<char>, Seq<Seq<char>>)>) -> nat {
    weight_sum(groups, |g: (Seq<char>, Seq<Seq<char>>)| g.1.len())
}

proof fn lemma_names_in_group_push(
    pairs: Seq<(Seq<char>, Seq<char>)>,
    x: (Seq<char>, Seq<char>),
    group: Seq<char>,
)
    ensures
        names_in_group(pairs.push(x), group).len() == names_in_group(pairs, group).len() + if x.0
            == group {
            1nat
        } else {
            0nat
        },
{
    assert(pairs.push(x).drop_last() =~= pairs);
}

proof fn lemma_group_counts(pairs: Seq<(Seq<char>, Seq<char>)>, groups: Seq<Seq<char>>)
    requires
        forall|i: int, j: int| 0 <= i < j < groups.len() ==> groups[i] != groups[j],
        forall|i: int| 0 <= i < pairs.len() ==> groups.contains(#[trigger] pairs[i].0),
    ensures
        weight_sum(groups, |k: Seq<char>| names_in_group(pairs, k).len()) == pairs.len(),
    decreases pairs.len(),
{
    let f = |k: Seq<char>| names_in_group(pairs, k).len();
    if pairs.len() == 0 {
        lemma_weight_sum_single(groups, f, groups.len() as int);
    } else {
        let p0 = pairs.drop_last();
        let x = pairs.last();
        assert forall|i: int| 0 <= i < p0.len() implies groups.contains(#[trigger] p0[i].0) by {
            assert(p0[i] == pairs[i]);
        }
        lemma_group_counts(p0, groups);
        let f0 = |k: Seq<char>| names_in_group(p0, k).len();
        let one = |k: Seq<char>| if k == x.0 {
            1nat
        } else {
            0nat
        };
        assert forall|i: int| 0 <= i < groups.len() implies f(#[trigger] groups[i]) == f0(groups[i])
            + one(groups[i]) by {
            assert(pairs == p0.push(x));
            lemma_names_in_group_push(p0, x, groups[i]);
        }
        lemma_weight_sum_add(groups, f0, one, f);
        assert(groups.contains(pairs[pairs.len() - 1].0));
        let idx = choose|idx: int| 0 <= idx < groups.len() && groups[idx] == x.0;
        lemma_weight_sum_single(groups, one, idx);
    }
}

/// The tree lists every resource exactly once: its groups come in strictly
/// ascending order, are exactly the groups of the resources, and list each
/// the names of that group's resources (ordered ignoring case), so that the
/// names of all groups add up to the number of resources.
#[verifier::spinoff_prover]
pub proof fn law_tree_groups(pairs: Seq<(Seq<char>, Seq<char>)>)
    ensures
        forall|i: int, j: int|
            0 <= i < j < tree_groups(pairs).len() ==> text_lt(
                (#[trigger] tree_groups(pairs)[i]).0,
                (#[trigger] tree_groups(pairs)[j]).0,
            ),
        forall|k: Seq<char>|
            #![trigger tree_group_names(tree_groups(pairs)).contains(k)]
            #![trigger pair_groups(pairs).contains(k)]
            tree_group_names(tree_groups(pairs)).contains(k) <==> pair_groups(pairs).contains(k),
        forall|i: int|
            0 <= i < tree_groups(pairs).len() ==> (#[trigger] tree_groups(pairs)[i]).1.to_multiset()
                == names_in_group(pairs, tree_groups(pairs)[i].0).to_multiset(),
        tree_name_count(tree_groups(pairs)) == pairs.len(),
{
    let keys = pairs.map_values(|p: (Seq<char>, Seq<char>)| p.0);
    let u = ascending_unique(keys);
    let t = tree_groups(pairs);
    let to_group = |k: Seq<char>| (k, by_lowercase(names_in_group(pairs, k)));
    law_ascending_unique(keys);
    assert(t == u.map_values(to_group));
    assert(tree_group_names(t) =~= u);
    assert(pair_groups(pairs) == keys);
    assert forall|i: int| 0 <= i < t.len() implies (#[trigger] t[i]).1.to_multiset() == names_in_group(
        pairs,
        t[i].0,
    ).to_multiset() by {
        let names = names_in_group(pairs, u[i]);
        crate::sort::lemma_sort_ordered(names, |e: Seq<char>| seq![KeyPartModel::Asc(lowercase(e))]);
    }
    let count = |k: Seq<char>| names_in_group(pairs, k).len();
    let shown = |k: Seq<char>| by_lowercase(names_in_group(pairs, k)).len();
    assert forall|i: int| 0 <= i < u.len() implies shown(#[trigger] u[i]) == count(u[i]) + 0nat by {
        let names = names_in_group(pairs, u[i]);
        crate::sort::lemma_sort_ordered(names, |e: Seq<char>| seq![KeyPartModel::Asc(lowercase(e))]);
    }
    lemma_weight_sum_add(u, count, |k: Seq<char>| 0nat, shown);
    lemma_weight_sum_single(u, |k: Seq<char>| 0nat, u.len() as int);
    lemma_weight_sum_map(u, to_group, |g: (Seq<char>, Seq<Seq<char>>)| g.1.len());
    assert((|k: Seq<char>| (|g: (Seq<char>, Seq<Seq<char>>)| g.1.len())(to_group(k))) =~= shown);
    assert forall|i: int, j: int| 0 <= i < j < u.len() implies u[i] != u[j] by {
        crate::text::lemma_text_lt_total(u[i], u[j]);
    }
    assert forall|i: int| 0 <= i < pairs.len() implies u.contains(#[trigger] pairs[i].0) by {
        assert(keys[i] == pairs[i].0);
        assert(keys.contains(keys[i]));
    }
    lemma_group_counts(pairs, u);
}

fn select_names(groups: &Vec<String>, names: &Vec<String>, group: &str) -> (r: Vec<String>)
    requires
        groups.len() == names.len(),
    ensures
        r@.map_values(|s: String| s@) == names_in_group(
            Seq::new(groups.len() as nat, |j: int| (groups@[j]@, names@[j]@)),
            group@,
        ),
{
    let ghost pairs = Seq::new(groups.len() as nat, |j: int| (groups@[j]@, names@[j]@));
    let mut out: Vec<String> = Vec::new();
    let mut j: usize = 0;
    assert(pairs.take(0) =~= Seq::<(Seq<char>, Seq<char>)>::empty());
    while j < groups.len()
        invariant
            j <= groups.len(),
            groups.len() == names.len(),
            pairs == Seq::new(groups.len() as nat, |k: int| (groups@[k]@, names@[k]@)),
            out@.map_values(|s: String| s@) == names_in_group(pairs.take(j as int), group@),
        decreases groups.len() - j,
    {
        assert(pairs.take(j + 1).drop_last() =~= pairs.take(j as int));
        assert(pairs.take(j + 1).last() == (groups@[j as int]@, names@[j as int]@));
        if text_equal(groups[j].as_str(), group) {
            let ghost before = out@.map_values(|s: String| s@);
            out.push(names[j].clone());
            assert(out@.map_values(|s: String| s@) =~= before.push(names@[j as int]@));
        }
        j = j + 1;
    }
    assert(pairs.take(groups.len() as int) =~= pairs);
    out
}

/// Groups the resource names of a snapshot by resource group (a dash for an
/// empty group or name): groups in ascending order, names case-insensitively.
#[verifier::spinoff_prover]
pub fn resource_tree_items_from_snapshot(snapshot: AzureSnapshotEnvelope) -> (r: Vec<ResourceTreeGroup>)
    ensures
        r@.map_values(|g: ResourceTreeGroup| tree_group_model(g)) == tree_groups(
            snapshot_tree_pairs(snapshot),
        ),
{
    let ghost pairs = snapshot_tree_pairs(snapshot);
    let mut groups: Vec<String> = Vec::new();
    let mut group_keys: Vec<String> = Vec::new();
    let mut names: Vec<String> = Vec::new();
    let mut i: usize = 0;
    while i < snapshot.resources.len()
        invariant
            i <= snapshot.resources.len(),
            pairs == snapshot_tree_pairs(snapshot),
            groups.len() == i,
            names.len() == i,
            group_keys.len() == i,
            forall|j: int|
                0 <= j < i ==> (#[trigger] groups@[j])@ == pairs[j].0 && names@[j]@ == pairs[j].1
                    && group_keys@[j]@ == pairs[j].0,
        decreases snapshot.resources.len() - i,
    {
        let n = &snapshot.resources[i].normalized;
        groups.push(display_value(n.resource_group.as_str()));
        group_keys.push(display_value(n.resource_group.as_str()));
        names.push(display_value(n.name.as_str()));
        i = i + 1;
    }
    assert(Seq::new(groups.len() as nat, |j: int| (groups@[j]@, names@[j]@)) =~= pairs);
    assert(group_keys@.map_values(|s: String| s@) =~= pairs.map_values(
        |p: (Seq<char>, Seq<char>)| p.0,
    ));
    let keys = ascending_unique_texts(group_keys);
    let ghost key_views = keys@.map_values(|s: String| s@);
    let mut out: Vec<ResourceTreeGroup> = Vec::new();
    let mut k: usize = 0;
    while k < keys.len()
        invariant
            k <= keys.len(),
            groups.len() == names.len(),
            Seq::new(groups.len() as nat, |j: int| (groups@[j]@, names@[j]@)) == pairs,
            key_views == keys@.map_values(|s: String| s@),
            out.len() == k,
            forall|t: int|
                0 <= t < k ==> tree_group_model(#[trigger] out@[t]) == (
                    key_views[t],
                    by_lowercase(names_in_group(pairs, key_views[t])),
                ),
        decreases keys.len() - k,
    {
        let selected = select_names(&groups, &names, keys[k].as_str());
        let sorted = sort_texts_case_insensitively(selected);
        out.push(ResourceTreeGroup { name: keys[k].clone(), resources: sorted });
        k = k + 1;
    }
    assert(out@.map_values(|g: ResourceTreeGroup| tree_group_model(g)) =~= tree_groups(pairs));
    out
}

// ---------------------------------------------------------------------------
// Tree view
// ---------------------------------------------------------------------------

/// The prepared data of one resource tree rendering.
pub struct InventoryResourcesTreeView {
    pub subscription_name: String,
    pub subscription_id: String,
    pub azure_user: String,
    /// The number of resource groups in the tree.
    pub resource_group_count: usize,
    /// The number of resources in the snapshot.
    pub total_resources: usize,
    pub grouped_resources: Vec<ResourceTreeGroup>,
    /// The rendered plain text tree.
    pub tree_body: String,
}

/// Prepares the tree view of a resource snapshot: subscription metadata as
/// shown (dash when empty), counts, grouped names and the rendered tree.
pub fn resource_tree_view_from_snapshot(snapshot: AzureSnapshotEnvelope) -> (r: InventoryResourcesTreeView)
    ensures
        r.subscription_name@ == display(snapshot.subscription.name@),
        r.subscription_id@ == display(snapshot.subscription.id@),
        r.azure_user@ == display(snapshot.subscription.user@),
        r.total_resources == snapshot.resources.len(),
        r.grouped_resources@.map_values(|g: ResourceTreeGroup| tree_group_model(g)) == tree_groups(
            snapshot_tree_pairs(snapshot),
        ),
        r.resource_group_count == r.grouped_resources.len(),
        r.tree_body@ == tree_text(
            display(snapshot.subscription.name@),
            tree_groups(snapshot_tree_pairs(snapshot)),
        ),
{
    let subscription_name = display_value(snapshot.subscription.name.as_str());
    let subscription_id = display_value(snapshot.subscription.id.as_str());
    let azure_user = display_value(snapshot.subscription.user.as_str());
    let total_resources = snapshot.resources.len();
    let grouped_resources = resource_tree_items_from_snapshot(snapshot);
    let resource_group_count = grouped_resources.len();
    let tree_body = render_resources_tree_text(subscription_name.as_str(), &grouped_resources);
    InventoryResourcesTreeView {
        subscription_name,
        subscription_id,
        azure_user,
        resource_group_count,
        total_resources,
        grouped_resources,
        tree_body,
    }
}

// ---------------------------------------------------------------------------
// Report resources from snapshot JSON
// ---------------------------------------------------------------------------

/// The model of a report resource.
pub struct ReportResourceModel {
    pub name: Seq<char>,
    pub resource_type: Seq<char>,
    pub location: Seq<char>,
    pub kind: Option<Seq<char>>,
    pub tags: Option<Seq<(Seq<char>, Seq<char>)>>,
    pub sku: Option<Option<Seq<char>>>,
}

pub open spec fn tag_view(t: ResourceTag) -> (Seq<char>, Seq<char>) {
    (t.key@, t.value@)
}

pub open spec fn report_resource_view(r: AzureResourceReportItem) -> ReportResourceModel {
    ReportResourceModel {
        name: r.name@,
        resource_type: r.resource_type@,
        location: r.location@,
        kind: match r.kind {
            Some(k) => Some(k@),
            None => None,
        },
        tags: match r.tags {
            Some(ts) => Some(ts@.map_values(|t: ResourceTag| tag_view(t))),
            None => None,
        },
        sku: match r.sku {
            Some(s) => Some(
                match s.name {
                    Some(n) => Some(n@),
                    None => None,
                },
            ),
            None => None,
        },
    }
}

/// A JSON string as text; `None` for other values.
pub open spec fn optional_text(m: JsonModel) -> Option<Seq<char>> {
    match m {
        JsonModel::Text(t) => Some(t),
        _ => None,
    }
}

/// The SKU of the report: present when the JSON is an object whose `name` is
/// a string.
pub open spec fn sku_of(m: JsonModel) -> Option<Option<Seq<char>>> {
    match field(m, "name"@) {
        Some(JsonModel::Text(t)) => Some(Some(t)),
        _ => None,
    }
}

/// How a tag value is shown: a string as it is, any other value as its
/// compact JSON text.
pub open spec fn tag_value_text(m: JsonModel) -> Seq<char> {
    match m {
        JsonModel::Text(t) => t,
        _ => json_text(m),
    }
}

/// The value paired last with `key`.
pub open spec fn last_value(pairs: Seq<(Seq<char>, Seq<char>)>, key: Seq<char>) -> Seq<char>
    decreases pairs.len(),
{
    if pairs.len() == 0 {
        Seq::empty()
    } else if pairs.last().0 == key {
        pairs.last().1
    } else {
        last_value(pairs.drop_last(), key)
    }
}

/// The entries of a sorted map built by inserting `pairs` in order: keys
/// ascending, each once, with the value inserted last.
pub open spec fn map_entries(pairs: Seq<(Seq<char>, Seq<char>)>) -> Seq<(Seq<char>, Seq<char>)> {
    ascending_unique(pairs.map_values(|p: (Seq<char>, Seq<char>)| p.0)).map_values(
        |k: Seq<char>| (k, last_value(pairs, k)),
    )
}

/// The entries of a map built from pairs have strictly ascending keys, each
/// key once, as a sorted map holds them.
pub proof fn law_map_entries_keys_ascending(pairs: Seq<(Seq<char>, Seq<char>)>)
    ensures
        forall|i: int, j: int|
            0 <= i < j < map_entries(pairs).len() ==> text_lt(
                (#[trigger] map_entries(pairs)[i]).0,
                (#[trigger] map_entries(pairs)[j]).0,
            ),
{
    law_ascending_unique(pairs.map_values(|p: (Seq<char>, Seq<char>)| p.0));
}

/// The tags of the report: the members of a JSON object as a sorted map of
/// shown values; `None` when the JSON is not an object or has no members.
pub open spec fn tags_of(m: JsonModel) -> Option<Seq<(Seq<char>, Seq<char>)>> {
    match m {
        JsonModel::Object(members) => {
            let entries = map_entries(
                members.map_values(
                    |p: (Seq<char>, JsonModel)| (p.0, tag_value_text(p.1)),
                ),
            );
            if entries.len() == 0 {
                None
            } else {
                Some(entries)
            }
        },
        _ => None,
    }
}

/// The report resource of a normalized snapshot resource.
pub open spec fn report_of(n: NormalizedResourceModel) -> ReportResourceModel {
    ReportResourceModel {
        name: n.name,
        resource_type: n.resource_type,
        location: n.location,
        kind: optional_text(n.kind),
        tags: tags_of(n.tags),
        sku: sku_of(n.sku),
    }
}

/// A snapshot resource whose kind is a JSON string keeps that text as its
/// report kind; any other kind JSON (null, a number, an object, ...) gives
/// no kind. The same holds of the value reader.
pub proof fn law_report_kind_is_string_kind(n: NormalizedResourceModel)
    ensures
        n.kind matches JsonModel::Text(t) ==> report_of(n).kind == Some(t),
        !(n.kind is Text) ==> report_of(n).kind is None,
        forall|t: Seq<char>| #[trigger] optional_text(JsonModel::Text(t)) == Some(t),
{
}

/// A report resource without a SKU name and with a kind that holds visible
/// text shows that kind, trimmed, in the SKU column.
pub proof fn law_sku_column_falls_back_to_kind(r: AzureResourceReportItem)
    requires
        r.sku is None,
        r.kind matches Some(k) && trim(k@).len() > 0,
    ensures
        sku_text(r) == trim(r.kind->0@),
{
}

proof fn lemma_last_value_last(pairs: Seq<(Seq<char>, Seq<char>)>, i: int)
    requires
        0 <= i < pairs.len(),
        forall|j: int| i < j < pairs.len() ==> (#[trigger] pairs[j]).0 != pairs[i].0,
    ensures
        last_value(pairs, pairs[i].0) == pairs[i].1,
    decreases pairs.len(),
{
    if i < pairs.len() - 1 {
        let init = pairs.drop_last();
        assert(pairs.last() == pairs[pairs.len() - 1]);
        assert forall|j: int| i < j < init.len() implies (#[trigger] init[j]).0 != init[i].0 by {
            assert(init[j] == pairs[j]);
        }
        lemma_last_value_last(init, i);
    }
}

/// The report reads a snapshot resource's SKU and tags from their JSON: an
/// SKU object whose last `name` member is a string gives that SKU name, one
/// without a `name` gives no SKU; the tags hold one entry per tag key, with
/// the value of its last member shown as it is when it is a string (as
/// compact JSON otherwise), and an object without members gives no tags.
/// Name, type and location are carried over unchanged.
pub proof fn law_report_reads_sku_and_tags(n: NormalizedResourceModel, members: Seq<(Seq<char>, JsonModel)>, i: int)
    requires
        last_with_key(members, i),
    ensures
        members[i].0 == "name"@ && members[i].1 is Text ==> sku_of(JsonModel::Object(members)) == Some(
            Some(members[i].1->Text_0),
        ),
        lacks_key(members, "name"@) ==> sku_of(JsonModel::Object(members)) is None,
        tags_of(JsonModel::Object(members)) is Some && tags_of(JsonModel::Object(members))->0.contains(
            (members[i].0, tag_value_text(members[i].1)),
        ),
        members[i].1 matches JsonModel::Text(t) ==> tag_value_text(members[i].1) == t,
        tags_of(JsonModel::Object(Seq::empty())) is None,
        report_of(n).name == n.name && report_of(n).resource_type == n.resource_type
            && report_of(n).location == n.location,
{
    lemma_member_value_last(members, i);
    if lacks_key(members, "name"@) {
        lemma_member_value_absent(members, "name"@);
    }
    let pairs = members.map_values(|p: (Seq<char>, JsonModel)| (p.0, tag_value_text(p.1)));
    let keys = pairs.map_values(|p: (Seq<char>, Seq<char>)| p.0);
    let k = members[i].0;
    assert forall|j: int| i < j < pairs.len() implies (#[trigger] pairs[j]).0 != pairs[i].0 by {
        assert(pairs[j].0 == members[j].0);
    }
    lemma_last_value_last(pairs, i);
    law_ascending_unique(keys);
    assert(keys[i] == k);
    assert(keys.contains(k));
    let u = ascending_unique(keys);
    let w = choose|w: int| 0 <= w < u.len() && u[w] == k;
    let es = map_entries(pairs);
    assert(es[w] == (k, tag_value_text(members[i].1)));
    assert(es.len() > 0);
    assert(tags_of(JsonModel::Object(members)) == Some(es));
    assert(es.contains((members[i].0, tag_value_text(members[i].1))));
    assert(ascending_unique(Seq::<Seq<char>>::empty()).len() == 0) by {
        law_ascending_unique(Seq::<Seq<char>>::empty());
        if ascending_unique(Seq::<Seq<char>>::empty()).len() > 0 {
            assert(ascending_unique(Seq::<Seq<char>>::empty()).contains(
                ascending_unique(Seq::<Seq<char>>::empty())[0],
            ));
        }
    }
    let e0 = Seq::<(Seq<char>, JsonModel)>::empty();
    assert(e0.map_values(|p: (Seq<char>, JsonModel)| (p.0, tag_value_text(p.1))) =~= Seq::<
        (Seq<char>, Seq<char>),
    >::empty());
    assert(Seq::<(Seq<char>, Seq<char>)>::empty().map_values(|p: (Seq<char>, Seq<char>)| p.0) =~= Seq::<
        Seq<char>,
    >::empty());
}

/// Reads a JSON string; `None` for other values.
pub fn optional_string_from_json_value(value: &JsonValue) -> (r: Option<String>)
    ensures
        match r {
            Some(t) => optional_text(json_model(*value)) == Some(t@),
            None => optional_text(json_model(*value)) is None,
        },
{
    match value {
        JsonValue::Text(t) => Some(t.clone()),
        _ => None,
    }
}

/// Reads the report SKU from snapshot SKU JSON: its `name` when that is a
/// string.
pub fn report_sku_from_json_value(value: &JsonValue) -> (r: Option<AzureResourceSkuReportItem>)
    ensures
        match r {
            Some(s) => s.name matches Some(n) && sku_of(json_model(*value)) == Some(Some(n@)),
            None => sku_of(json_model(*value)) is None,
        },
{
    match get_field(value, "name") {
        Some(JsonValue::Text(t)) => Some(AzureResourceSkuReportItem { name: Some(t.clone()) }),
        _ => None,
    }
}

fn tag_value_string(value: &JsonValue) -> (r: String)
    ensures
        r@ == tag_value_text(json_model(*value)),
{
    match value {
        JsonValue::Text(t) => t.clone(),
        _ => json_to_text(value),
    }
}

fn find_last_value(keys: &Vec<String>, values: &Vec<String>, key: &str) -> (r: String)
    requires
        keys.len() == values.len(),
    ensures
        r@ == last_value(Seq::new(keys.len() as nat, |j: int| (keys@[j]@, values@[j]@)), key@),
{
    let ghost pairs = Seq::new(keys.len() as nat, |j: int| (keys@[j]@, values@[j]@));
    let mut i: usize = keys.len();
    assert(pairs.take(keys.len() as int) =~= pairs);
    while i > 0
        invariant
            i <= keys.len(),
            keys.len() == values.len(),
            pairs == Seq::new(keys.len() as nat, |j: int| (keys@[j]@, values@[j]@)),
            last_value(pairs, key@) == last_value(pairs.take(i as int), key@),
        decreases i,
    {
        assert(pairs.take(i as int).drop_last() =~= pairs.take(i - 1));
        assert(pairs.take(i as int).last() == (keys@[i - 1]@, values@[i - 1]@));
        if text_equal(keys[i - 1].as_str(), key) {
            return values[i - 1].clone();
        }
        i = i - 1;
    }
    String::new()
}

/// Reads the report tags from snapshot tag JSON: an object's members as a
/// sorted map (strings as they are, other values as compact JSON); `None`
/// for other values and for an empty object.
pub fn report_tags_from_json_value(value: &JsonValue) -> (r: Option<Vec<ResourceTag>>)
    ensures
        match r {
            Some(ts) => tags_of(json_model(*value)) == Some(
                ts@.map_values(|t: ResourceTag| tag_view(t)),
            ),
            None => tags_of(json_model(*value)) is None,
        },
        r matches Some(ts) ==> forall|i: int, j: int|
            0 <= i < j < ts.len() ==> text_lt((#[trigger] ts@[i]).key@, (#[trigger] ts@[j]).key@),
{
    match value {
        JsonValue::Object(members) => {
            let ghost ms = crate::json::members_model(members@);
            let ghost pairs = ms.map_values(
                |p: (Seq<char>, JsonModel)| (p.0, tag_value_text(p.1)),
            );
            proof {
                crate::json::lemma_members_model_len(members@);
            }
            let mut keys: Vec<String> = Vec::new();
            let mut key_copies: Vec<String> = Vec::new();
            let mut values: Vec<String> = Vec::new();
            let mut i: usize = 0;
            while i < members.len()
                invariant
                    i <= members.len(),
                    ms == crate::json::members_model(members@),
                    ms.len() == members.len(),
                    pairs == ms.map_values(
                        |p: (Seq<char>, JsonModel)| (p.0, tag_value_text(p.1)),
                    ),
                    keys.len() == i,
                    values.len() == i,
                    key_copies.len() == i,
                    forall|j: int|
                        0 <= j < i ==> (#[trigger] keys@[j])@ == pairs[j].0 && values@[j]@
                            == pairs[j].1 && key_copies@[j]@ == pairs[j].0,
                decreases members.len() - i,
            {
                proof {
                    crate::json::lemma_members_model_index(members@, i as int);
                }
                keys.push(members[i].key.clone());
                key_copies.push(members[i].key.clone());
                values.push(tag_value_string(&members[i].value));
                i = i + 1;
            }
            assert(Seq::new(keys.len() as nat, |j: int| (keys@[j]@, values@[j]@)) =~= pairs);
            assert(key_copies@.map_values(|s: String| s@) =~= pairs.map_values(
                |p: (Seq<char>, Seq<char>)| p.0,
            ));
            let unique = ascending_unique_texts(key_copies);
            let ghost uv = unique@.map_values(|s: String| s@);
            let mut tags: Vec<ResourceTag> = Vec::new();
            let mut k: usize = 0;
            while k < unique.len()
                invariant
                    k <= unique.len(),
                    keys.len() == values.len(),
                    Seq::new(keys.len() as nat, |j: int| (keys@[j]@, values@[j]@)) == pairs,
                    uv == unique@.map_values(|s: String| s@),
                    tags.len() == k,
                    forall|t: int|
                        0 <= t < k ==> tag_view(#[trigger] tags@[t]) == (
                            uv[t],
                            last_value(pairs, uv[t]),
                        ),
                decreases unique.len() - k,
            {
                let v = find_last_value(&keys, &values, unique[k].as_str());
                tags.push(ResourceTag { key: unique[k].clone(), value: v });
                k = k + 1;
            }
            assert(tags@.map_values(|t: ResourceTag| tag_view(t)) =~= map_entries(pairs));
            proof {
                law_map_entries_keys_ascending(pairs);
                assert forall|i: int, j: int| 0 <= i < j < tags.len() implies text_lt(
                    (#[trigger] tags@[i]).key@,
                    (#[trigger] tags@[j]).key@,
                ) by {
                    assert(tags@.map_values(|t: ResourceTag| tag_view(t))[i] == tag_view(tags@[i]));
                    assert(tags@.map_values(|t: ResourceTag| tag_view(t))[j] == tag_view(tags@[j]));
                }
            }
            if tags.len() == 0 {
                None
            } else {
                Some(tags)
            }
        },
        _ => None,
    }
}

/// Converts a normalized snapshot resource into a report resource.
pub fn report_resource_from_snapshot_resource(normalized: &AzureSnapshotNormalizedResource) -> (r:
    AzureResourceReportItem)
    ensures
        report_resource_view(r) == report_of(normalized_resource_view(*normalized)),
{
    let kind = optional_string_from_json_value(&normalized.kind);
    let sku = report_sku_from_json_value(&normalized.sku);
    let tags = report_tags_from_json_value(&normalized.tags);
    let r = AzureResourceReportItem {
        name: normalized.name.clone(),
        resource_type: normalized.resource_type.clone(),
        location: normalized.location.clone(),
        kind,
        tags,
        sku,
    };
    assert(report_resource_view(r) =~= report_of(normalized_resource_view(*normalized)));
    r
}

// ---------------------------------------------------------------------------
// Inventory groups from a resource snapshot
// ---------------------------------------------------------------------------

/// The model of an inventory group.
pub struct InventoryGroupModel {
    pub name: Seq<char>,
    pub location: Seq<char>,
    pub resources: Seq<ReportResourceModel>,
}

pub open spec fn inventory_group_view(g: AzureInventoryGroup) -> InventoryGroupModel {
    InventoryGroupModel {
        name: g.resource_group.name@,
        location: g.resource_group.location@,
        resources: g.resources@.map_values(|r: AzureResourceReportItem| report_resource_view(r)),
    }
}

/// The order of report resources: type in lowercase, then name in lowercase.
pub open spec fn report_sort_key(m: ReportResourceModel) -> Seq<KeyPartModel> {
    seq![KeyPartModel::Asc(lowercase(m.resource_type)), KeyPartModel::Asc(lowercase(m.name))]
}

/// The group under which a snapshot resource is reported.
pub open spec fn entry_group(e: SnapshotResourceModel) -> Seq<char> {
    display(e.normalized.resource_group)
}

/// The report resources of the entries in `group`, in snapshot order.
pub open spec fn group_reports(es: Seq<SnapshotResourceModel>, group: Seq<char>) -> Seq<
    ReportResourceModel,
>
    decreases es.len(),
{
    if es.len() == 0 {
        Seq::empty()
    } else if entry_group(es.last()) == group {
        group_reports(es.drop_last(), group).push(report_of(es.last().normalized))
    } else {
        group_reports(es.drop_last(), group)
    }
}

/// One inventory group of a snapshot: its name, no location (a resource
/// snapshot holds none), and its resources by type and name.
pub open spec fn inventory_group_of(es: Seq<SnapshotResourceModel>, group: Seq<char>) -> InventoryGroupModel {
    let reports = group_reports(es, group);
    InventoryGroupModel {
        name: group,
        location: Seq::empty(),
        resources: sorted_by_models(
            reports.map_values(|m: ReportResourceModel| report_sort_key(m)),
            reports,
        ),
    }
}

/// The inventory of a resource snapshot: one group per distinct group name,
/// ordered by name ignoring case.
pub open spec fn inventory_groups_of(es: Seq<SnapshotResourceModel>) -> Seq<InventoryGroupModel> {
    let groups = ascending_unique(es.map_values(|e: SnapshotResourceModel| entry_group(e))).map_values(
        |k: Seq<char>| inventory_group_of(es, k),
    );
    sorted_by_models(
        groups.map_values(|g: InventoryGroupModel| seq![KeyPartModel::Asc(lowercase(g.name))]),
        groups,
    )
}

proof fn lemma_group_reports_len(es: Seq<SnapshotResourceModel>, group: Seq<char>)
    ensures
        group_reports(es, group).len() == names_in_group(
            es.map_values(|e: SnapshotResourceModel| tree_pair(e)),
            group,
        ).len(),
    decreases es.len(),
{
    if es.len() > 0 {
        lemma_group_reports_len(es.drop_last(), group);
        assert(es.map_values(|e: SnapshotResourceModel| tree_pair(e)).drop_last() =~= es.drop_last().map_values(
            |e: SnapshotResourceModel| tree_pair(e),
        ));
    }
}

/// How many resources inventory groups hold in all.
pub open spec fn inventory_resource_count(groups: Seq<InventoryGroupModel>) -> nat {
    weight_sum(groups, |g: InventoryGroupModel| g.resources.len())
}

/// Every resource of a snapshot lands in exactly one inventory group: the
/// resources of all groups add up to the number of resources.
#[verifier::spinoff_prover]
pub proof fn law_inventory_groups_count(es: Seq<SnapshotResourceModel>)
    ensures
        inventory_resource_count(inventory_groups_of(es)) == es.len(),
{
    let pairs = es.map_values(|e: SnapshotResourceModel| tree_pair(e));
    let keys = es.map_values(|e: SnapshotResourceModel| entry_group(e));
    assert(keys =~= pair_groups(pairs));
    let u = ascending_unique(keys);
    let to_group = |k: Seq<char>| inventory_group_of(es, k);
    let groups = u.map_values(to_group);
    let size = |g: InventoryGroupModel| g.resources.len();
    law_ascending_unique(keys);
    crate::sort::lemma_sorted_weight(
        groups.map_values(|g: InventoryGroupModel| seq![KeyPartModel::Asc(lowercase(g.name))]),
        groups,
        size,
    );
    lemma_weight_sum_map(u, to_group, size);
    let count = |k: Seq<char>| names_in_group(pairs, k).len();
    assert forall|i: int| 0 <= i < u.len() implies (|k: Seq<char>| size(to_group(k)))(#[trigger] u[i])
        == count(u[i]) + 0nat by {
        let reports = group_reports(es, u[i]);
        crate::sort::lemma_sort_ordered(reports, |m: ReportResourceModel| report_sort_key(m));
        lemma_group_reports_len(es, u[i]);
    }
    lemma_weight_sum_add(u, count, |k: Seq<char>| 0nat, |k: Seq<char>| size(to_group(k)));
    lemma_weight_sum_single(u, |k: Seq<char>| 0nat, u.len() as int);
    assert forall|i: int, j: int| 0 <= i < j < u.len() implies u[i] != u[j] by {
        crate::text::lemma_text_lt_total(u[i], u[j]);
    }
    assert forall|i: int| 0 <= i < pairs.len() implies u.contains(#[trigger] pairs[i].0) by {
        assert(keys[i] == pairs[i].0);
        assert(keys.contains(keys[i]));
    }
    lemma_group_counts(pairs, u);
}

proof fn lemma_group_reports_contains(es: Seq<SnapshotResourceModel>, group: Seq<char>, r: ReportResourceModel)
    ensures
        group_reports(es, group).contains(r) <==> exists|k: int|
            0 <= k < es.len() && entry_group(#[trigger] es[k]) == group && report_of(es[k].normalized) == r,
    decreases es.len(),
{
    if es.len() > 0 {
        let init = es.drop_last();
        lemma_group_reports_contains(init, group, r);
        let g0 = group_reports(init, group);
        if entry_group(es.last()) == group {
            let g1 = g0.push(report_of(es.last().normalized));
            assert(group_reports(es, group) == g1);
            if g1.contains(r) {
                let m = choose|m: int| 0 <= m < g1.len() && g1[m] == r;
                if m < g0.len() {
                    assert(g0[m] == r);
                    let k = choose|k: int|
                        0 <= k < init.len() && entry_group(#[trigger] init[k]) == group && report_of(
                            init[k].normalized,
                        ) == r;
                    assert(es[k] == init[k]);
                } else {
                    assert(es[es.len() - 1] == es.last());
                }
            }
            if exists|k: int|
                0 <= k < es.len() && entry_group(#[trigger] es[k]) == group && report_of(es[k].normalized) == r {
                let k = choose|k: int|
                    0 <= k < es.len() && entry_group(#[trigger] es[k]) == group && report_of(es[k].normalized)
                        == r;
                if k < es.len() - 1 {
                    assert(init[k] == es[k]);
                    let m = choose|m: int| 0 <= m < g0.len() && g0[m] == r;
                    assert(g1[m] == r);
                } else {
                    assert(g1[g0.len() as int] == r);
                }
            }
        } else {
            assert(group_reports(es, group) == g0);
            if g0.contains(r) {
                let k = choose|k: int|
                    0 <= k < init.len() && entry_group(#[trigger] init[k]) == group && report_of(
                        init[k].normalized,
                    ) == r;
                assert(es[k] == init[k]);
            }
            if exists|k: int|
                0 <= k < es.len() && entry_group(#[trigger] es[k]) == group && report_of(es[k].normalized) == r {
                let k = choose|k: int|
                    0 <= k < es.len() && entry_group(#[trigger] es[k]) == group && report_of(es[k].normalized)
                        == r;
                assert(k < es.len() - 1);
                assert(init[k] == es[k]);
            }
        }
    }
}

/// Whether every resource of `g` is the report of a snapshot entry of the
/// resource group that `g` is named after.
pub open spec fn drawn_from_group(es: Seq<SnapshotResourceModel>, g: InventoryGroupModel) -> bool {
    forall|m: int| 0 <= m < g.resources.len() ==> reported_from(es, g.name, #[trigger] g.resources[m])
}

/// Whether `r` is the report of a snapshot entry of resource group `name`.
pub open spec fn reported_from(es: Seq<SnapshotResourceModel>, name: Seq<char>, r: ReportResourceModel) -> bool {
    exists|k: int|
        0 <= k < es.len() && display((#[trigger] es[k]).normalized.resource_group) == name && report_of(
            es[k].normalized,
        ) == r
}

/// Whether the resources of `g` come in the order of lowercase type, then
/// lowercase name.
pub open spec fn resources_in_report_order(g: InventoryGroupModel) -> bool {
    forall|a: int, b: int|
        0 <= a < b < g.resources.len() ==> {
            let x = #[trigger] g.resources[a];
            let y = #[trigger] g.resources[b];
            &&& !text_lt(lowercase(y.resource_type), lowercase(x.resource_type))
            &&& lowercase(x.resource_type) == lowercase(y.resource_type) ==> !text_lt(
                lowercase(y.name),
                lowercase(x.name),
            )
        }
}

/// The inventory of a snapshot groups resources by resource group: the
/// groups come in the order of their names ignoring case, each group holds
/// only reports of resources of the group it is named after, in the order
/// of lowercase type and then name, and every resource of the snapshot is
/// reported in the group named after its resource group.
#[verifier::spinoff_prover]
pub proof fn law_inventory_groups_by_resource_group(es: Seq<SnapshotResourceModel>, k: int)
    ensures
        forall|i: int, j: int|
            0 <= i < j < inventory_groups_of(es).len() ==> !text_lt(
                lowercase((#[trigger] inventory_groups_of(es)[j]).name),
                lowercase((#[trigger] inventory_groups_of(es)[i]).name),
            ),
        forall|i: int|
            0 <= i < inventory_groups_of(es).len() ==> drawn_from_group(es, #[trigger] inventory_groups_of(es)[i])
                && resources_in_report_order(inventory_groups_of(es)[i]),
        0 <= k < es.len() ==> exists|i: int|
            0 <= i < inventory_groups_of(es).len() && (#[trigger] inventory_groups_of(es)[i]).name == display(
                es[k].normalized.resource_group,
            ) && inventory_groups_of(es)[i].resources.contains(report_of(es[k].normalized)),
{
    broadcast use vstd::seq_lib::group_to_multiset_ensures;

    let keys = es.map_values(|e: SnapshotResourceModel| entry_group(e));
    let u = ascending_unique(keys);
    let to_group = |key: Seq<char>| inventory_group_of(es, key);
    let groups = u.map_values(to_group);
    let f = |g: InventoryGroupModel| seq![KeyPartModel::Asc(lowercase(g.name))];
    let gs = inventory_groups_of(es);
    assert(gs == sorted_by_models(groups.map_values(f), groups));
    crate::sort::lemma_sort_ordered(groups, f);
    law_ascending_unique(keys);
    assert forall|i: int, j: int| 0 <= i < j < gs.len() implies !text_lt(
        lowercase((#[trigger] gs[j]).name),
        lowercase((#[trigger] gs[i]).name),
    ) by {
        assert(!crate::sort::key_lt(f(gs[j]), f(gs[i])));
        assert(f(gs[i]) =~= crate::sort::asc_key(seq![lowercase(gs[i].name)]));
        assert(f(gs[j]) =~= crate::sort::asc_key(seq![lowercase(gs[j].name)]));
        crate::sort::lemma_asc_key_order(seq![lowercase(gs[i].name)], seq![lowercase(gs[j].name)]);
        assert(seq![lowercase(gs[j].name)][0] == lowercase(gs[j].name));
    }
    assert forall|i: int| 0 <= i < gs.len() implies drawn_from_group(es, #[trigger] gs[i])
        && resources_in_report_order(gs[i]) by {
        assert(gs.to_multiset().count(gs[i]) > 0);
        assert(groups.contains(gs[i]));
        let w = choose|w: int| 0 <= w < groups.len() && groups[w] == gs[i];
        let key = u[w];
        let g = gs[i];
        assert(g == inventory_group_of(es, key));
        let reports = group_reports(es, key);
        let rf = |m: ReportResourceModel| report_sort_key(m);
        crate::sort::lemma_sort_ordered(reports, rf);
        assert(g.resources == sorted_by_models(reports.map_values(rf), reports));
        assert forall|m: int| 0 <= m < g.resources.len() implies reported_from(
            es,
            g.name,
            #[trigger] g.resources[m],
        ) by {
            assert(g.resources.to_multiset().count(g.resources[m]) > 0);
            assert(reports.contains(g.resources[m]));
            lemma_group_reports_contains(es, key, g.resources[m]);
        }
        assert forall|a: int, b: int| 0 <= a < b < g.resources.len() implies {
            let x = #[trigger] g.resources[a];
            let y = #[trigger] g.resources[b];
            &&& !text_lt(lowercase(y.resource_type), lowercase(x.resource_type))
            &&& lowercase(x.resource_type) == lowercase(y.resource_type) ==> !text_lt(
                lowercase(y.name),
                lowercase(x.name),
            )
        } by {
            let x = g.resources[a];
            let y = g.resources[b];
            assert(!crate::sort::key_lt(rf(y), rf(x)));
            let ta = seq![lowercase(x.resource_type), lowercase(x.name)];
            let tb = seq![lowercase(y.resource_type), lowercase(y.name)];
            assert(rf(x) =~= crate::sort::asc_key(ta));
            assert(rf(y) =~= crate::sort::asc_key(tb));
            crate::sort::lemma_asc_key_order(ta, tb);
            assert(!text_lt(tb[0], ta[0]));
            if ta[0] == tb[0] {
                assert(!text_lt(tb[1], ta[1]));
            }
        }
    }
    if 0 <= k < es.len() {
        let key = entry_group(es[k]);
        assert(keys[k] == key);
        assert(keys.contains(key));
        let w = choose|w: int| 0 <= w < u.len() && u[w] == key;
        assert(groups[w] == inventory_group_of(es, key));
        assert(groups.to_multiset().count(groups[w]) > 0);
        assert(gs.contains(groups[w]));
        let i = choose|i: int| 0 <= i < gs.len() && gs[i] == groups[w];
        let reports = group_reports(es, key);
        let rf = |m: ReportResourceModel| report_sort_key(m);
        crate::sort::lemma_sort_ordered(reports, rf);
        lemma_group_reports_contains(es, key, report_of(es[k].normalized));
        assert(reports.contains(report_of(es[k].normalized)));
        let ri = choose|ri: int| 0 <= ri < reports.len() && reports[ri] == report_of(es[k].normalized);
        assert(reports.to_multiset().count(reports[ri]) > 0);
        assert(gs[i].resources.contains(report_of(es[k].normalized)));
    }
}

fn group_report_items(snapshot: &AzureSnapshotEnvelope, group: &str) -> (r: Vec<AzureResourceReportItem>)
    ensures
        r@.map_values(|x: AzureResourceReportItem| report_resource_view(x)) == group_reports(
            snapshot.resources@.map_values(|x: AzureSnapshotResource| snapshot_resource_view(x)),
            group@,
        ),
{
    let ghost es = snapshot.resources@.map_values(|x: AzureSnapshotResource| snapshot_resource_view(x));
    let mut out: Vec<AzureResourceReportItem> = Vec::new();
    let mut j: usize = 0;
    assert(es.take(0) =~= Seq::<SnapshotResourceModel>::empty());
    while j < snapshot.resources.len()
        invariant
            j <= snapshot.resources.len(),
            es == snapshot.resources@.map_values(|x: AzureSnapshotResource| snapshot_resource_view(x)),
            out@.map_values(|x: AzureResourceReportItem| report_resource_view(x)) == group_reports(
                es.take(j as int),
                group@,
            ),
        decreases snapshot.resources.len() - j,
    {
        assert(es.take(j + 1).drop_last() =~= es.take(j as int));
        assert(es.take(j + 1).last() == snapshot_resource_view(snapshot.resources@[j as int]));
        let name = display_value(snapshot.resources[j].normalized.resource_group.as_str());
        if text_equal(name.as_str(), group) {
            let ghost before = out@.map_values(|x: AzureResourceReportItem| report_resource_view(x));
            let item = report_resource_from_snapshot_resource(&snapshot.resources[j].normalized);
            out.push(item);
            assert(out@.map_values(|x: AzureResourceReportItem| report_resource_view(x)) =~= before.push(
                report_resource_view(item),
            ));
        }
        j = j + 1;
    }
    assert(es.take(snapshot.resources.len() as int) =~= es);
    out
}

fn sort_inventory_groups(groups: Vec<AzureInventoryGroup>) -> (r: Vec<AzureInventoryGroup>)
    ensures
        r@.map_values(|g: AzureInventoryGroup| inventory_group_view(g)) == sorted_by_models(
            groups@.map_values(|g: AzureInventoryGroup| inventory_group_view(g)).map_values(
                |g: InventoryGroupModel| seq![KeyPartModel::Asc(lowercase(g.name))],
            ),
            groups@.map_values(|g: AzureInventoryGroup| inventory_group_view(g)),
        ),
{
    let mut keys: Vec<Vec<KeyPart>> = Vec::new();
    let mut i: usize = 0;
    while i < groups.len()
        invariant
            i <= groups.len(),
            keys.len() == i,
            forall|j: int|
                0 <= j < i ==> key_model(#[trigger] keys@[j]) == seq![
                    KeyPartModel::Asc(lowercase(groups@[j].resource_group.name@)),
                ],
        decreases groups.len() - i,
    {
        let mut key: Vec<KeyPart> = Vec::new();
        key.push(KeyPart::Asc(lowercase_chars(groups[i].resource_group.name.as_str())));
        assert(key_model(key) =~= seq![
            KeyPartModel::Asc(lowercase(groups@[i as int].resource_group.name@)),
        ]);
        keys.push(key);
        i = i + 1;
    }
    let ghost before = groups@;
    let ghost models = keys@.map_values(|k: Vec<KeyPart>| key_model(k));
    let sorted = sort_by_keys(groups, keys);
    proof {
        crate::sort::lemma_sorted_map(models, before, |g: AzureInventoryGroup| inventory_group_view(g));
        assert(models =~= before.map_values(|g: AzureInventoryGroup| inventory_group_view(g)).map_values(
            |g: InventoryGroupModel| seq![KeyPartModel::Asc(lowercase(g.name))],
        ));
    }
    sorted
}

/// Converts a flat resource snapshot into inventory groups: one per distinct
/// group name (a dash for an empty one), resources by type and name, groups
/// by name, ignoring case.
#[verifier::spinoff_prover]
pub fn inventory_groups_from_resource_snapshot(snapshot: AzureSnapshotEnvelope) -> (r: Vec<
    AzureInventoryGroup,
>)
    ensures
        r@.map_values(|g: AzureInventoryGroup| inventory_group_view(g)) == inventory_groups_of(
            snapshot.resources@.map_values(|x: AzureSnapshotResource| snapshot_resource_view(x)),
        ),
{
    let ghost es = snapshot.resources@.map_values(|x: AzureSnapshotResource| snapshot_resource_view(x));
    let mut names: Vec<String> = Vec::new();
    let mut i: usize = 0;
    while i < snapshot.resources.len()
        invariant
            i <= snapshot.resources.len(),
            es == snapshot.resources@.map_values(|x: AzureSnapshotResource| snapshot_resource_view(x)),
            names.len() == i,
            forall|j: int| 0 <= j < i ==> (#[trigger] names@[j])@ == entry_group(es[j]),
        decreases snapshot.resources.len() - i,
    {
        names.push(display_value(snapshot.resources[i].normalized.resource_group.as_str()));
        i = i + 1;
    }
    assert(names@.map_values(|s: String| s@) =~= es.map_values(
        |e: SnapshotResourceModel| entry_group(e),
    ));
    let keys = ascending_unique_texts(names);
    let ghost kv = keys@.map_values(|s: String| s@);
    let mut groups: Vec<AzureInventoryGroup> = Vec::new();
    let mut k: usize = 0;
    while k < keys.len()
        invariant
            k <= keys.len(),
            es == snapshot.resources@.map_values(|x: AzureSnapshotResource| snapshot_resource_view(x)),
            kv == keys@.map_values(|s: String| s@),
            groups.len() == k,
            forall|t: int|
                0 <= t < k ==> inventory_group_view(#[trigger] groups@[t]) == inventory_group_of(
                    es,
                    kv[t],
                ),
        decreases keys.len() - k,
    {
        let mut resources = group_report_items(&snapshot, keys[k].as_str());
        let ghost items = resources@;
        sort_resources(&mut resources);
        proof {
            crate::sort::lemma_sorted_map(
                items.map_values(|x: AzureResourceReportItem| resource_sort_key(x)),
                items,
                |x: AzureResourceReportItem| report_resource_view(x),
            );
            assert(items.map_values(|x: AzureResourceReportItem| resource_sort_key(x))
                =~= items.map_values(|x: AzureResourceReportItem| report_resource_view(x)).map_values(
                |m: ReportResourceModel| report_sort_key(m),
            ));
        }
        let group = AzureInventoryGroup {
            resource_group: AzureResourceGroupReportItem { name: keys[k].clone(), location: String::new() },
            resources,
        };
        assert(inventory_group_view(group) =~= inventory_group_of(es, kv[k as int]));
        groups.push(group);
        k = k + 1;
    }
    let ghost unsorted = groups@.map_values(|g: AzureInventoryGroup| inventory_group_view(g));
    assert(unsorted =~= ascending_unique(es.map_values(|e: SnapshotResourceModel| entry_group(e))).map_values(
        |kk: Seq<char>| inventory_group_of(es, kk),
    ));
    sort_inventory_groups(groups)
}

// ---------------------------------------------------------------------------
// Tree report
// ---------------------------------------------------------------------------

/// The saved resource tree report: title, metadata bullets, and the plain
/// tree in one `text` fence.
pub open spec fn tree_markdown(
    generated_at: Seq<char>,
    subscription_name: Seq<char>,
    subscription_id: Seq<char>,
    azure_user: Seq<char>,
    resource_group_count: nat,
    total_resources: nat,
    tree_body: Seq<char>,
) -> Seq<char> {
    "# Azure resources Inventory tree\n\n"@ + "- Generated: "@ + generated_at + "\n"@
        + "- Subscription: "@ + subscription_name + " ("@ + subscription_id + ")\n"@
        + "- Azure user: "@ + azure_user + "\n"@ + "- Resource groups: "@ + decimal(
        resource_group_count,
    ) + "\n"@ + "- Total resources: "@ + decimal(total_resources) + "\n\n"@ + "```text\n"@
        + with_trailing_newline(tree_body) + "```\n"@
}

/// The tree report ends with its two count lines (the number of resource
/// groups, then the number of resources) and the tree in one `text` fence.
pub proof fn law_tree_markdown_counts(
    generated_at: Seq<char>,
    subscription_name: Seq<char>,
    subscription_id: Seq<char>,
    azure_user: Seq<char>,
    resource_group_count: nat,
    total_resources: nat,
    tree_body: Seq<char>,
)
    ensures
        exists|head: Seq<char>|
            tree_markdown(
                generated_at,
                subscription_name,
                subscription_id,
                azure_user,
                resource_group_count,
                total_resources,
                tree_body,
            ) == head + "- Resource groups: "@ + decimal(resource_group_count) + "\n"@
                + "- Total resources: "@ + decimal(total_resources) + "\n\n"@ + "```text\n"@
                + with_trailing_newline(tree_body) + "```\n"@,
{
    let head = "# Azure resources Inventory tree\n\n"@ + "- Generated: "@ + generated_at + "\n"@
        + "- Subscription: "@ + subscription_name + " ("@ + subscription_id + ")\n"@
        + "- Azure user: "@ + azure_user + "\n"@;
    assert(tree_markdown(
        generated_at,
        subscription_name,
        subscription_id,
        azure_user,
        resource_group_count,
        total_resources,
        tree_body,
    ) =~= head + "- Resource groups: "@ + decimal(resource_group_count) + "\n"@
        + "- Total resources: "@ + decimal(total_resources) + "\n\n"@ + "```text\n"@
        + with_trailing_newline(tree_body) + "```\n"@);
}

/// The tree report of a snapshot counts one resource group per distinct
/// group of its resources and every resource of the snapshot: its count
/// lines show the number of tree groups and the number of resources.
pub proof fn law_tree_report_counts(snapshot: AzureSnapshotEnvelope, generated_at: Seq<char>)
    ensures
        exists|head: Seq<char>|
            tree_markdown(
                generated_at,
                display(snapshot.subscription.name@),
                display(snapshot.subscription.id@),
                display(snapshot.subscription.user@),
                tree_groups(snapshot_tree_pairs(snapshot)).len(),
                snapshot.resources.len() as nat,
                tree_text(display(snapshot.subscription.name@), tree_groups(snapshot_tree_pairs(snapshot))),
            ) == head + "- Resource groups: "@ + decimal(
                tree_group_names(tree_groups(snapshot_tree_pairs(snapshot))).len(),
            ) + "\n"@ + "- Total resources: "@ + decimal(snapshot_tree_pairs(snapshot).len()) + "\n\n"@
                + "```text\n"@ + with_trailing_newline(
                tree_text(display(snapshot.subscription.name@), tree_groups(snapshot_tree_pairs(snapshot))),
            ) + "```\n"@,
        tree_name_count(tree_groups(snapshot_tree_pairs(snapshot))) == snapshot.resources.len(),
{
    let pairs = snapshot_tree_pairs(snapshot);
    law_tree_groups(pairs);
    law_tree_markdown_counts(
        generated_at,
        display(snapshot.subscription.name@),
        display(snapshot.subscription.id@),
        display(snapshot.subscription.user@),
        tree_groups(pairs).len(),
        snapshot.resources.len() as nat,
        tree_text(display(snapshot.subscription.name@), tree_groups(pairs)),
    );
    assert(tree_group_names(tree_groups(pairs)).len() == tree_groups(pairs).len());
    assert(pairs.len() == snapshot.resources.len());
}

/// Renders the saved resource tree report of a prepared view, generated at
/// `generated_at`.
pub fn render_resources_tree_markdown(tree_view: &InventoryResourcesTreeView, generated_at: &str) -> (r:
    String)
    ensures
        r@ == tree_markdown(
            generated_at@,
            tree_view.subscription_name@,
            tree_view.subscription_id@,
            tree_view.azure_user@,
            tree_view.resource_group_count as nat,
            tree_view.total_resources as nat,
            tree_view.tree_body@,
        ),
{
    let mut out = String::from_str("# Azure resources Inventory tree\n\n");
    push_str(&mut out, "- Generated: ");
    push_str(&mut out, generated_at);
    push_str(&mut out, "\n");
    push_str(&mut out, "- Subscription: ");
    push_str(&mut out, tree_view.subscription_name.as_str());
    push_str(&mut out, " (");
    push_str(&mut out, tree_view.subscription_id.as_str());
    push_str(&mut out, ")\n");
    push_str(&mut out, "- Azure user: ");
    push_str(&mut out, tree_view.azure_user.as_str());
    push_str(&mut out, "\n");
    push_str(&mut out, "- Resource groups: ");
    let groups = decimal_text(tree_view.resource_group_count);
    push_str(&mut out, groups.as_str());
    push_str(&mut out, "\n");
    push_str(&mut out, "- Total resources: ");
    let total = decimal_text(tree_view.total_resources);
    push_str(&mut out, total.as_str());
    push_str(&mut out, "\n\n");
    push_str(&mut out, "```text\n");
    let body = ensure_trailing_newline(tree_view.tree_body.as_str());
    push_str(&mut out, body.as_str());
    push_str(&mut out, "```\n");
    out
}

/// Renders the saved resource tree report of a prepared view, generated now
/// (`YYYY-MM-DD HH:MM UTC`).
pub fn render_saved_resources_tree_markdown_from_view(tree_view: InventoryResourcesTreeView) -> (r:
    String)
    ensures
        exists|p: crate::clock::UtcParts|
            crate::clock::valid_parts(p) && r@ == tree_markdown(
                report_timestamp(p),
                tree_view.subscription_name@,
                tree_view.subscription_id@,
                tree_view.azure_user@,
                tree_view.resource_group_count as nat,
                tree_view.total_resources as nat,
                tree_view.tree_body@,
            ),
{
    let now = utc_now_parts();
    let generated_at = format_report_timestamp(&now);
    render_resources_tree_markdown(&tree_view, generated_at.as_str())
}

/// Renders the resource tree report of a resource snapshot, generated now.
pub fn render_inventory_resources_tree_from_snapshot(snapshot: AzureSnapshotEnvelope) -> (r: String)
    ensures
        exists|p: crate::clock::UtcParts|
            crate::clock::valid_parts(p) && r@ == tree_markdown(
                report_timestamp(p),
                display(snapshot.subscription.name@),
                display(snapshot.subscription.id@),
                display(snapshot.subscription.user@),
                tree_groups(snapshot_tree_pairs(snapshot)).len(),
                snapshot.resources.len() as nat,
                tree_text(display(snapshot.subscription.name@), tree_groups(snapshot_tree_pairs(snapshot))),
            ),
{
    let tree_view = resource_tree_view_from_snapshot(snapshot);
    proof {
        assert(tree_view.grouped_resources@.map_values(|g: ResourceTreeGroup| tree_group_model(g)).len()
            == tree_view.grouped_resources.len());
    }
    render_saved_resources_tree_markdown_from_view(tree_view)
}

// ---------------------------------------------------------------------------
// Resource list report
// ---------------------------------------------------------------------------

proof fn lemma_all_resources_len(gs: Seq<AzureInventoryGroup>)
    ensures
        all_resources(gs).len() == inventory_resource_count(
            gs.map_values(|g: AzureInventoryGroup| inventory_group_view(g)),
        ),
    decreases gs.len(),
{
    if gs.len() > 0 {
        lemma_all_resources_len(gs.drop_last());
        assert(gs.map_values(|g: AzureInventoryGroup| inventory_group_view(g)).drop_last()
            =~= gs.drop_last().map_values(|g: AzureInventoryGroup| inventory_group_view(g)));
    }
}

/// Whether `r` is the inventory report of a resource snapshot: the report of
/// the snapshot's inventory groups and subscription, generated at some UTC
/// instant.
pub open spec fn resources_list_markdown_of(r: Seq<char>, snapshot: AzureSnapshotEnvelope) -> bool {
    exists|now: UtcParts, account: AzureAccount, groups: Seq<AzureInventoryGroup>, view: InventoryTemplateView|
        {
            &&& valid_parts(now)
            &&& account.name@ == snapshot.subscription.name@
            &&& account.subscription_id@ == snapshot.subscription.id@
            &&& account.user@ == snapshot.subscription.user@
            &&& groups.map_values(|g: AzureInventoryGroup| inventory_group_view(g)) == inventory_groups_of(
                snapshot.resources@.map_values(|x: AzureSnapshotResource| snapshot_resource_view(x)),
            )
            &&& template_view_of(view, account, groups, snapshot.resources.len(), report_timestamp(now))
            &&& r == inventory_markdown(view)
        }
}

/// Renders the inventory report of a resource snapshot: its resources
/// grouped by resource group, generated now.
#[verifier::spinoff_prover]
pub fn render_saved_resources_list_markdown_from_snapshot(snapshot: AzureSnapshotEnvelope) -> (r:
    String)
    ensures
        resources_list_markdown_of(r@, snapshot),
{
    let ghost snap = snapshot;
    let ghost es = snapshot.resources@.map_values(|x: AzureSnapshotResource| snapshot_resource_view(x));
    let account = account_from_resource_snapshot(&snapshot);
    let resource_count = snapshot.resources.len();
    let inventory_groups = inventory_groups_from_resource_snapshot(snapshot);
    proof {
        law_inventory_groups_count(es);
        lemma_all_resources_len(inventory_groups@);
        assert(es.len() == resource_count);
    }
    let total_resource_count = count_total_resources(&inventory_groups);
    let r = render_inventory_markdown(&account, &inventory_groups, total_resource_count);
    proof {
        let (now, view) = choose|now: UtcParts, view: InventoryTemplateView|
            valid_parts(now) && template_view_of(
                view,
                account,
                inventory_groups@,
                total_resource_count,
                report_timestamp(now),
            ) && r@ == inventory_markdown(view);
        assert(total_resource_count == snap.resources.len());
        assert(resources_list_markdown_of(r@, snap)) by {
            assert(valid_parts(now));
            assert(template_view_of(view, account, inventory_groups@, snap.resources.len(), report_timestamp(now)));
        }
    }
    r
}

/// Renders the output of the resource list command from a resource
/// snapshot: the same report that is saved.
pub fn render_inventory_resources_list_from_snapshot(snapshot: AzureSnapshotEnvelope) -> (r: String)
    ensures
        resources_list_markdown_of(r@, snapshot),
{
    render_saved_resources_list_markdown_from_snapshot(snapshot)
}

// ---------------------------------------------------------------------------
// Session messages and save requests
// ---------------------------------------------------------------------------

/// The status line of a session.
pub open spec fn status_text(account: Option<AzureAccount>) -> Seq<char> {
    match account {
        Some(a) => "Logged in as "@ + a.user@ + " ("@ + a.name@ + ") on subscription "@
            + a.subscription_id@,
        None => "Not logged in to Azure CLI."@,
    }
}

/// The line that `status` prints.
pub fn status_message(account: &Option<AzureAccount>) -> (r: String)
    ensures
        r@ == status_text(*account),
{
    match account {
        Some(a) => {
            let mut out = String::from_str("Logged in as ");
            push_str(&mut out, a.user.as_str());
            push_str(&mut out, " (");
            push_str(&mut out, a.name.as_str());
            push_str(&mut out, ") on subscription ");
            push_str(&mut out, a.subscription_id.as_str());
            out
        },
        None => String::from_str("Not logged in to Azure CLI."),
    }
}

/// What `--save` asks for: nothing when absent, a generated name when blank,
/// otherwise the given name.
pub fn requested_report_name(save: &Option<String>) -> (r: Option<Option<String>>)
    ensures
        match *save {
            None => r is None,
            Some(name) => if trim(name@).len() == 0 {
                r == Some(None::<String>)
            } else {
                r matches Some(Some(n)) && n@ == name@
            },
        },
{
    match save {
        None => None,
        Some(name) => {
            let trimmed = trimmed_chars(name.as_str());
            if trimmed.len() == 0 {
                Some(None)
            } else {
                Some(Some(name.clone()))
            }
        },
    }
}

/// Renders the group list of a group snapshot, groups ordered by name
/// ignoring case.
pub fn render_inventory_groups_list_from_snapshot(snapshot: AzureGroupSnapshotEnvelope) -> (r: String)
    ensures
        exists|items: Seq<AzureResourceGroupReportItem>|
            {
                &&& items.len() == snapshot.groups.len()
                &&& forall|i: int|
                    0 <= i < items.len() ==> (#[trigger] items[i]).name@
                        == snapshot.groups@[i].normalized.name@ && items[i].location@
                        == snapshot.groups@[i].normalized.location@
                &&& r@ == groups_list_text(sorted_groups(items))
            },
{
    let mut groups = group_list_items_from_snapshot(snapshot);
    let ghost items = groups@;
    sort_resource_groups(&mut groups);
    render_groups_list_text(&groups)
}

} // verus!
