use vstd::prelude::*;

use sha2::Digest;

use crate::clock::{is_second_fraction, rfc3339_utc_text, utc_now_rfc3339, valid_parts, UtcParts};
use crate::json::{
    hex_digit, hex_digit_char, json_model, json_text, lemma_members_text_push, members_text,
    push_quoted, quoted, sort_json_value, sorted_json, write_json, JsonMember, JsonModel,
    JsonValue,
};
use crate::model::AzureAccount;
use crate::sort::{key_model, sort_by_keys, sorted_by_models, KeyPart, KeyPartModel};
use crate::text::{is_lower_hex, lowercase, lowercase_chars, push_char, push_str, text_equal, text_lt};

verus! {

// ---------------------------------------------------------------------------
// Snapshot documents
// ---------------------------------------------------------------------------

/// Subscription metadata stored in a snapshot.
pub struct AzureSnapshotSubscription {
    pub id: String,
    pub name: String,
    pub user: String,
}

/// The stable subset of a resource that snapshots compare and hash.
pub struct AzureSnapshotNormalizedResource {
    pub id: String,
    pub name: String,
    /// JSON field `type`.
    pub resource_type: String,
    /// JSON field `resourceGroup`.
    pub resource_group: String,
    pub location: String,
    pub kind: JsonValue,
    pub sku: JsonValue,
    pub tags: JsonValue,
}

/// One resource entry of a snapshot.
pub struct AzureSnapshotResource {
    pub normalized: AzureSnapshotNormalizedResource,
    /// SHA-256 of the compact JSON of `normalized`, in lowercase hex.
    pub fingerprint: String,
    /// The resource exactly as Azure CLI returned it.
    pub raw: JsonValue,
}

/// A resource snapshot document.
pub struct AzureSnapshotEnvelope {
    /// JSON field `generatedAt`, an RFC 3339 instant.
    pub generated_at: String,
    pub subscription: AzureSnapshotSubscription,
    pub resources: Vec<AzureSnapshotResource>,
}

/// The stable subset of a resource group that snapshots compare and hash.
pub struct AzureSnapshotNormalizedGroup {
    pub id: String,
    pub name: String,
    pub location: String,
    pub tags: JsonValue,
    /// JSON field `managedBy`.
    pub managed_by: JsonValue,
}

/// One resource group entry of a snapshot.
pub struct AzureSnapshotGroup {
    pub normalized: AzureSnapshotNormalizedGroup,
    pub fingerprint: String,
    pub raw: JsonValue,
}

/// A resource group snapshot document.
pub struct AzureGroupSnapshotEnvelope {
    pub generated_at: String,
    pub subscription: AzureSnapshotSubscription,
    pub groups: Vec<AzureSnapshotGroup>,
}

// ---------------------------------------------------------------------------
// Reading raw Azure JSON
// ---------------------------------------------------------------------------

/// The value of the last member named `key`; a JSON object read into a map
/// keeps the last of repeated keys.
pub open spec fn member_value(members: Seq<(Seq<char>, JsonModel)>, key: Seq<char>) -> Option<
    JsonModel,
>
    decreases members.len(),
{
    if members.len() == 0 {
        None
    } else if members.last().0 == key {
        Some(members.last().1)
    } else {
        member_value(members.drop_last(), key)
    }
}

/// The field `key` of an object; `None` for other values.
pub open spec fn field(m: JsonModel, key: Seq<char>) -> Option<JsonModel> {
    match m {
        JsonModel::Object(members) => member_value(members, key),
        _ => None,
    }
}

/// A string field, or the empty text when it is missing or not a string.
pub open spec fn string_field(m: JsonModel, key: Seq<char>) -> Seq<char> {
    match field(m, key) {
        Some(JsonModel::Text(t)) => t,
        _ => Seq::empty(),
    }
}

/// A field with its objects key-sorted, or `null` when it is missing.
pub open spec fn json_field_or_null(m: JsonModel, key: Seq<char>) -> JsonModel {
    match field(m, key) {
        Some(v) => sorted_json(v),
        None => JsonModel::Null,
    }
}

/// A field that must be an object, key-sorted, or the empty object.
pub open spec fn object_field_or_empty(m: JsonModel, key: Seq<char>) -> JsonModel {
    match field(m, key) {
        Some(JsonModel::Object(members)) => sorted_json(JsonModel::Object(members)),
        _ => JsonModel::Object(Seq::empty()),
    }
}

/// Finds the field `key` of `value` when `value` is an object.
pub fn get_field<'a>(value: &'a JsonValue, key: &str) -> (r: Option<&'a JsonValue>)
    ensures
        match r {
            Some(v) => field(json_model(*value), key@) == Some(json_model(*v)),
            None => field(json_model(*value), key@) is None,
        },
{
    match value {
        JsonValue::Object(members) => {
            let ghost ms = crate::json::members_model(members@);
            proof {
                crate::json::lemma_members_model_len(members@);
            }
            let mut i: usize = members.len();
            assert(ms.take(members.len() as int) =~= ms);
            while i > 0
                invariant
                    i <= members.len(),
                    *value == JsonValue::Object(*members),
                    ms == crate::json::members_model(members@),
                    ms.len() == members.len(),
                    member_value(ms, key@) == member_value(ms.take(i as int), key@),
                decreases i,
            {
                let ghost prefix = ms.take(i as int);
                proof {
                    crate::json::lemma_members_model_index(members@, i - 1);
                    assert(prefix.drop_last() =~= ms.take(i - 1));
                    assert(prefix.last() == ms[i - 1]);
                }
                if text_equal(members[i - 1].key.as_str(), key) {
                    assert(ms[i - 1].0 == key@);
                    assert(member_value(prefix, key@) == Some(ms[i - 1].1));
                    assert(json_model(*value) == JsonModel::Object(ms));
                    return Some(&members[i - 1].value);
                }
                i = i - 1;
            }
            None
        },
        _ => None,
    }
}

/// A string field of a raw value, or the empty string.
fn read_string_field(value: &JsonValue, key: &str) -> (r: String)
    ensures
        r@ == string_field(json_model(*value), key@),
{
    match get_field(value, key) {
        Some(JsonValue::Text(t)) => t.clone(),
        _ => String::new(),
    }
}

/// A field of a raw value with its objects key-sorted, or `null`.
fn read_json_field_or_null(value: &JsonValue, key: &str) -> (r: JsonValue)
    ensures
        json_model(r) == json_field_or_null(json_model(*value), key@),
{
    match get_field(value, key) {
        Some(v) => sort_json_value(v),
        None => JsonValue::Null,
    }
}

/// An object field of a raw value, key-sorted, or the empty object.
fn read_object_field_or_empty(value: &JsonValue, key: &str) -> (r: JsonValue)
    ensures
        json_model(r) == object_field_or_empty(json_model(*value), key@),
{
    match get_field(value, key) {
        Some(v) => {
            match v {
                JsonValue::Object(_) => sort_json_value(v),
                _ => {
                    let r = JsonValue::Object(Vec::new());
                    assert(crate::json::members_model(Seq::<JsonMember>::empty()) =~= Seq::<
                        (Seq<char>, JsonModel),
                    >::empty());
                    r
                },
            }
        },
        None => {
            let r = JsonValue::Object(Vec::new());
            assert(crate::json::members_model(Seq::<JsonMember>::empty()) =~= Seq::<
                (Seq<char>, JsonModel),
            >::empty());
            r
        },
    }
}

/// The normalized fields of a raw resource.
pub open spec fn normalized_resource_matches(r: AzureSnapshotNormalizedResource, raw: JsonModel) -> bool {
    &&& r.id@ == string_field(raw, "id"@)
    &&& r.name@ == string_field(raw, "name"@)
    &&& r.resource_type@ == string_field(raw, "type"@)
    &&& r.resource_group@ == string_field(raw, "resourceGroup"@)
    &&& r.location@ == string_field(raw, "location"@)
    &&& json_model(r.kind) == json_field_or_null(raw, "kind"@)
    &&& json_model(r.sku) == json_field_or_null(raw, "sku"@)
    &&& json_model(r.tags) == object_field_or_empty(raw, "tags"@)
}

/// Builds the stable normalized view of one raw Azure resource: missing or
/// non-string text fields become empty, `kind` and `sku` are kept as JSON
/// (or `null`), `tags` must be an object (else the empty object); objects are
/// key-sorted at every depth.
pub fn normalize_snapshot_resource(raw_resource: &JsonValue) -> (r: AzureSnapshotNormalizedResource)
    ensures
        normalized_resource_matches(r, json_model(*raw_resource)),
        normalized_resource_view(r) == normalize_model(json_model(*raw_resource)),
{
    AzureSnapshotNormalizedResource {
        id: read_string_field(raw_resource, "id"),
        name: read_string_field(raw_resource, "name"),
        resource_type: read_string_field(raw_resource, "type"),
        resource_group: read_string_field(raw_resource, "resourceGroup"),
        location: read_string_field(raw_resource, "location"),
        kind: read_json_field_or_null(raw_resource, "kind"),
        sku: read_json_field_or_null(raw_resource, "sku"),
        tags: read_object_field_or_empty(raw_resource, "tags"),
    }
}

// ---------------------------------------------------------------------------
// Models of snapshot entries
// ---------------------------------------------------------------------------

/// The model of a normalized resource.
pub struct NormalizedResourceModel {
    pub id: Seq<char>,
    pub name: Seq<char>,
    pub resource_type: Seq<char>,
    pub resource_group: Seq<char>,
    pub location: Seq<char>,
    pub kind: JsonModel,
    pub sku: JsonModel,
    pub tags: JsonModel,
}

/// The model of a snapshot resource entry.
pub struct SnapshotResourceModel {
    pub normalized: NormalizedResourceModel,
    pub fingerprint: Seq<char>,
    pub raw: JsonModel,
}

pub open spec fn normalized_resource_view(r: AzureSnapshotNormalizedResource) -> NormalizedResourceModel {
    NormalizedResourceModel {
        id: r.id@,
        name: r.name@,
        resource_type: r.resource_type@,
        resource_group: r.resource_group@,
        location: r.location@,
        kind: json_model(r.kind),
        sku: json_model(r.sku),
        tags: json_model(r.tags),
    }
}

pub open spec fn snapshot_resource_view(r: AzureSnapshotResource) -> SnapshotResourceModel {
    SnapshotResourceModel {
        normalized: normalized_resource_view(r.normalized),
        fingerprint: r.fingerprint@,
        raw: json_model(r.raw),
    }
}

/// The normalized view of a raw resource: text fields read as strings (empty
/// when missing or not a string), `kind` and `sku` kept as key-sorted JSON
/// (`null` when missing), `tags` kept when it is an object (else `{}`).
pub open spec fn normalize_model(raw: JsonModel) -> NormalizedResourceModel {
    NormalizedResourceModel {
        id: string_field(raw, "id"@),
        name: string_field(raw, "name"@),
        resource_type: string_field(raw, "type"@),
        resource_group: string_field(raw, "resourceGroup"@),
        location: string_field(raw, "location"@),
        kind: json_field_or_null(raw, "kind"@),
        sku: json_field_or_null(raw, "sku"@),
        tags: object_field_or_empty(raw, "tags"@),
    }
}

/// The members of the JSON document of a normalized resource, in the order
/// of its serialized fields.
pub open spec fn normalized_resource_members(n: NormalizedResourceModel) -> Seq<
    (Seq<char>, JsonModel),
> {
    seq![
        ("id"@, JsonModel::Text(n.id)),
        ("name"@, JsonModel::Text(n.name)),
        ("type"@, JsonModel::Text(n.resource_type)),
        ("resourceGroup"@, JsonModel::Text(n.resource_group)),
        ("location"@, JsonModel::Text(n.location)),
        ("kind"@, n.kind),
        ("sku"@, n.sku),
        ("tags"@, n.tags),
    ]
}

/// The compact JSON text of a normalized resource.
pub open spec fn normalized_resource_text(n: NormalizedResourceModel) -> Seq<char> {
    json_text(JsonModel::Object(normalized_resource_members(n)))
}

/// The SHA-256 digest of the UTF-8 encoding of a text, as `sha2::Sha256`
/// computes it.
pub uninterp spec fn sha256_utf8(text: Seq<char>) -> Seq<u8>;

/// Calls `sha2::Sha256::digest` on the UTF-8 bytes of `text`; the digest is
/// named by `sha256_utf8`, and a SHA-256 digest has 32 bytes.
#[verifier::external_body]
fn sha256_text(text: &str) -> (r: Vec<u8>)
    ensures
        r@ == sha256_utf8(text@),
        r@.len() == 32,
{
    sha2::Sha256::digest(text.as_bytes()).to_vec()
}

/// Bytes in lowercase hexadecimal, two digits per byte.
pub open spec fn hex_text(bytes: Seq<u8>) -> Seq<char>
    decreases bytes.len(),
{
    if bytes.len() == 0 {
        Seq::empty()
    } else {
        hex_text(bytes.drop_last()) + seq![
            hex_digit(bytes.last() as int / 16),
            hex_digit(bytes.last() as int % 16),
        ]
    }
}

proof fn lemma_hex_text_len(bytes: Seq<u8>)
    ensures
        hex_text(bytes).len() == 2 * bytes.len(),
        forall|i: int| 0 <= i < hex_text(bytes).len() ==> is_lower_hex(#[trigger] hex_text(bytes)[i]),
    decreases bytes.len(),
{
    if bytes.len() > 0 {
        lemma_hex_text_len(bytes.drop_last());
        let h = hex_text(bytes.drop_last());
        let b = bytes.last() as int;
        let t = seq![hex_digit(b / 16), hex_digit(b % 16)];
        assert(is_lower_hex(hex_digit(b / 16)));
        assert(is_lower_hex(hex_digit(b % 16)));
        assert forall|i: int| 0 <= i < hex_text(bytes).len() implies is_lower_hex(
            #[trigger] hex_text(bytes)[i],
        ) by {
            if i < h.len() {
                assert(hex_text(bytes)[i] == h[i]);
            } else {
                assert(hex_text(bytes)[i] == t[i - h.len()]);
            }
        }
    }
}

/// The fingerprint of a normalized resource: SHA-256 of its compact JSON, in
/// lowercase hex.
pub open spec fn fingerprint_of(n: NormalizedResourceModel) -> Seq<char> {
    hex_text(sha256_utf8(normalized_resource_text(n)))
}

/// Writes bytes as lowercase hexadecimal.
fn hex_string(bytes: &Vec<u8>) -> (r: String)
    ensures
        r@ == hex_text(bytes@),
{
    let mut out = String::new();
    let mut i: usize = 0;
    assert(bytes@.take(0) =~= Seq::<u8>::empty());
    while i < bytes.len()
        invariant
            i <= bytes.len(),
            out@ == hex_text(bytes@.take(i as int)),
        decreases bytes.len() - i,
    {
        assert(bytes@.take(i + 1).drop_last() =~= bytes@.take(i as int));
        let b: u32 = bytes[i] as u32;
        push_char(&mut out, hex_digit_char(b / 16));
        push_char(&mut out, hex_digit_char(b % 16));
        i = i + 1;
    }
    assert(bytes@.take(bytes.len() as int) =~= bytes@);
    out
}

/// Appends a member whose value is a string to an object text under
/// construction.
fn push_text_member(
    out: &mut String,
    Ghost(acc): Ghost<Seq<(Seq<char>, JsonModel)>>,
    first: bool,
    key: &str,
    value: &str,
)
    requires
        old(out)@ == seq!['{'] + members_text(acc),
        first == (acc.len() == 0),
    ensures
        final(out)@ == seq!['{'] + members_text(acc.push((key@, JsonModel::Text(value@)))),
{
    proof {
        lemma_members_text_push(acc, (key@, JsonModel::Text(value@)));
    }
    let ghost start = out@;
    if !first {
        push_char(out, ',');
    }
    push_quoted(out, key);
    push_char(out, ':');
    push_quoted(out, value);
    assert(json_text(JsonModel::Text(value@)) == quoted(value@));
    if !first {
        assert(out@ =~= start + seq![','] + quoted(key@) + seq![':'] + quoted(value@));
    } else {
        assert(out@ =~= start + quoted(key@) + seq![':'] + quoted(value@));
    }
}

/// Appends a member with a JSON value to an object text under construction.
fn push_json_member(
    out: &mut String,
    Ghost(acc): Ghost<Seq<(Seq<char>, JsonModel)>>,
    first: bool,
    key: &str,
    value: &JsonValue,
)
    requires
        old(out)@ == seq!['{'] + members_text(acc),
        first == (acc.len() == 0),
    ensures
        final(out)@ == seq!['{'] + members_text(acc.push((key@, json_model(*value)))),
{
    proof {
        lemma_members_text_push(acc, (key@, json_model(*value)));
    }
    let ghost start = out@;
    if !first {
        push_char(out, ',');
    }
    push_quoted(out, key);
    push_char(out, ':');
    write_json(value, out);
    if !first {
        assert(out@ =~= start + seq![','] + quoted(key@) + seq![':'] + json_text(
            json_model(*value),
        ));
    } else {
        assert(out@ =~= start + quoted(key@) + seq![':'] + json_text(json_model(*value)));
    }
}

/// The compact JSON text of a normalized resource, with its fields in
/// declaration order under their JSON names.
pub fn normalized_resource_json(normalized: &AzureSnapshotNormalizedResource) -> (r: String)
    ensures
        r@ == normalized_resource_text(normalized_resource_view(*normalized)),
{
    let ghost n = normalized_resource_view(*normalized);
    let mut out = String::new();
    push_char(&mut out, '{');
    let ghost a0: Seq<(Seq<char>, JsonModel)> = Seq::empty();
    assert(out@ =~= seq!['{'] + members_text(a0));
    push_text_member(&mut out, Ghost(a0), true, "id", normalized.id.as_str());
    let ghost a1 = a0.push(("id"@, JsonModel::Text(n.id)));
    push_text_member(&mut out, Ghost(a1), false, "name", normalized.name.as_str());
    let ghost a2 = a1.push(("name"@, JsonModel::Text(n.name)));
    push_text_member(&mut out, Ghost(a2), false, "type", normalized.resource_type.as_str());
    let ghost a3 = a2.push(("type"@, JsonModel::Text(n.resource_type)));
    push_text_member(&mut out, Ghost(a3), false, "resourceGroup", normalized.resource_group.as_str());
    let ghost a4 = a3.push(("resourceGroup"@, JsonModel::Text(n.resource_group)));
    push_text_member(&mut out, Ghost(a4), false, "location", normalized.location.as_str());
    let ghost a5 = a4.push(("location"@, JsonModel::Text(n.location)));
    push_json_member(&mut out, Ghost(a5), false, "kind", &normalized.kind);
    let ghost a6 = a5.push(("kind"@, n.kind));
    push_json_member(&mut out, Ghost(a6), false, "sku", &normalized.sku);
    let ghost a7 = a6.push(("sku"@, n.sku));
    push_json_member(&mut out, Ghost(a7), false, "tags", &normalized.tags);
    let ghost a8 = a7.push(("tags"@, n.tags));
    push_char(&mut out, '}');
    assert(a8 =~= normalized_resource_members(n));
    assert(out@ =~= seq!['{'] + members_text(a8) + seq!['}']);
    out
}

/// The SHA-256 fingerprint of a normalized resource: 64 lowercase hex digits
/// of the digest of its compact JSON text.
pub fn fingerprint_normalized_resource(normalized: &AzureSnapshotNormalizedResource) -> (r: String)
    ensures
        r@ == fingerprint_of(normalized_resource_view(*normalized)),
        r@.len() == 64,
        forall|i: int| 0 <= i < r@.len() ==> is_lower_hex(#[trigger] r@[i]),
{
    let text = normalized_resource_json(normalized);
    let digest = sha256_text(text.as_str());
    proof {
        lemma_hex_text_len(digest@);
    }
    hex_string(&digest)
}

// ---------------------------------------------------------------------------
// Building resource snapshots
// ---------------------------------------------------------------------------

/// The snapshot entry built from one raw resource.
pub open spec fn snapshot_entry(raw: JsonModel) -> SnapshotResourceModel {
    SnapshotResourceModel {
        normalized: normalize_model(raw),
        fingerprint: fingerprint_of(normalize_model(raw)),
        raw,
    }
}

/// The order of snapshot entries: resource type, then resource group, then
/// name, then ID, each compared in lowercase.
pub open spec fn entry_sort_key(e: SnapshotResourceModel) -> Seq<KeyPartModel> {
    seq![
        KeyPartModel::Asc(lowercase(e.normalized.resource_type)),
        KeyPartModel::Asc(lowercase(e.normalized.resource_group)),
        KeyPartModel::Asc(lowercase(e.normalized.name)),
        KeyPartModel::Asc(lowercase(e.normalized.id)),
    ]
}

/// Entries in snapshot order (a stable sort).
pub open spec fn sorted_entries(s: Seq<SnapshotResourceModel>) -> Seq<SnapshotResourceModel> {
    sorted_by_models(s.map_values(|e: SnapshotResourceModel| entry_sort_key(e)), s)
}

/// The resources of a snapshot built from raw resources.
pub open spec fn snapshot_resources_of(raws: Seq<JsonModel>) -> Seq<SnapshotResourceModel> {
    sorted_entries(raws.map_values(|x: JsonModel| snapshot_entry(x)))
}

fn resource_sort_key(resource: &AzureSnapshotResource) -> (r: Vec<KeyPart>)
    ensures
        key_model(r) == entry_sort_key(snapshot_resource_view(*resource)),
{
    let mut k: Vec<KeyPart> = Vec::new();
    k.push(KeyPart::Asc(lowercase_chars(resource.normalized.resource_type.as_str())));
    k.push(KeyPart::Asc(lowercase_chars(resource.normalized.resource_group.as_str())));
    k.push(KeyPart::Asc(lowercase_chars(resource.normalized.name.as_str())));
    k.push(KeyPart::Asc(lowercase_chars(resource.normalized.id.as_str())));
    assert(key_model(k) =~= entry_sort_key(snapshot_resource_view(*resource)));
    k
}

/// Compares two snapshot resources by resource type, resource group, name
/// and ID, each in lowercase.
pub fn compare_snapshot_resources(left: &AzureSnapshotResource, right: &AzureSnapshotResource) -> (r:
    std::cmp::Ordering)
    ensures
        (r == std::cmp::Ordering::Less) == crate::sort::key_lt(
            entry_sort_key(snapshot_resource_view(*left)),
            entry_sort_key(snapshot_resource_view(*right)),
        ),
        (r == std::cmp::Ordering::Greater) == (!crate::sort::key_lt(
            entry_sort_key(snapshot_resource_view(*left)),
            entry_sort_key(snapshot_resource_view(*right)),
        ) && crate::sort::key_lt(
            entry_sort_key(snapshot_resource_view(*right)),
            entry_sort_key(snapshot_resource_view(*left)),
        )),
{
    let a = resource_sort_key(left);
    let b = resource_sort_key(right);
    if crate::sort::key_less(&a, &b) {
        std::cmp::Ordering::Less
    } else if crate::sort::key_less(&b, &a) {
        std::cmp::Ordering::Greater
    } else {
        std::cmp::Ordering::Equal
    }
}

/// Sorts snapshot resources into snapshot order (stable).
pub fn sort_snapshot_resources(resources: &mut Vec<AzureSnapshotResource>)
    ensures
        final(resources)@.map_values(|x: AzureSnapshotResource| snapshot_resource_view(x))
            == sorted_entries(
            old(resources)@.map_values(|x: AzureSnapshotResource| snapshot_resource_view(x)),
        ),
{
    let mut items: Vec<AzureSnapshotResource> = Vec::new();
    std::mem::swap(&mut items, resources);
    let mut keys: Vec<Vec<KeyPart>> = Vec::new();
    let mut i: usize = 0;
    while i < items.len()
        invariant
            i <= items.len(),
            keys.len() == i,
            forall|j: int|
                0 <= j < i ==> key_model(#[trigger] keys@[j]) == entry_sort_key(
                    snapshot_resource_view(items@[j]),
                ),
        decreases items.len() - i,
    {
        keys.push(resource_sort_key(&items[i]));
        i = i + 1;
    }
    let ghost before = items@;
    let ghost key_models = keys@.map_values(|k: Vec<KeyPart>| key_model(k));
    let sorted = sort_by_keys(items, keys);
    proof {
        crate::sort::lemma_sorted_map(
            key_models,
            before,
            |x: AzureSnapshotResource| snapshot_resource_view(x),
        );
        assert(key_models =~= before.map_values(
            |x: AzureSnapshotResource| snapshot_resource_view(x),
        ).map_values(|e: SnapshotResourceModel| entry_sort_key(e)));
    }
    *resources = sorted;
}

/// Builds one snapshot entry per raw resource, in input order: its
/// normalized view, that view's fingerprint, and the raw value itself.
pub fn build_snapshot_resources(raw_resources: Vec<JsonValue>) -> (r: Vec<AzureSnapshotResource>)
    ensures
        r@.map_values(|x: AzureSnapshotResource| snapshot_resource_view(x)) == raw_resources@.map_values(
            |v: JsonValue| json_model(v),
        ).map_values(|x: JsonModel| snapshot_entry(x)),
        r.len() == raw_resources.len(),
        forall|i: int| 0 <= i < r.len() ==> (#[trigger] r@[i]).raw == raw_resources@[i],
{
    let ghost all = raw_resources@;
    assert(all.len() == raw_resources.len());
    let mut rest = raw_resources;
    let mut out: Vec<AzureSnapshotResource> = Vec::new();
    let mut done: usize = 0;
    while rest.len() > 0
        invariant
            done + rest.len() == all.len(),
            all.len() <= usize::MAX,
            out.len() == done,
            rest@ == all.skip(done as int),
            forall|j: int| 0 <= j < done ==> (#[trigger] out@[j]).raw == all[j],
            forall|j: int|
                0 <= j < done ==> snapshot_resource_view(#[trigger] out@[j]) == snapshot_entry(
                    json_model(all[j]),
                ),
        decreases rest.len(),
    {
        assert(rest@[0] == all[done as int]);
        let raw = rest.remove(0);
        assert(rest@ =~= all.skip(done + 1));
        let normalized = normalize_snapshot_resource(&raw);
        let fingerprint = fingerprint_normalized_resource(&normalized);
        out.push(AzureSnapshotResource { normalized, fingerprint, raw });
        done = done + 1;
    }
    assert(out@.map_values(|x: AzureSnapshotResource| snapshot_resource_view(x)) =~= all.map_values(
        |v: JsonValue| json_model(v),
    ).map_values(|x: JsonModel| snapshot_entry(x)));
    out
}

fn copy_subscription(account: &AzureAccount) -> (r: AzureSnapshotSubscription)
    ensures
        r.id@ == account.subscription_id@,
        r.name@ == account.name@,
        r.user@ == account.user@,
{
    AzureSnapshotSubscription {
        id: account.subscription_id.clone(),
        name: account.name.clone(),
        user: account.user.clone(),
    }
}

/// Assembles a resource snapshot taken at `generated_at`: the account's
/// subscription, and the entries of the raw resources in snapshot order.
pub fn assemble_snapshot_envelope(
    account: &AzureAccount,
    generated_at: String,
    raw_resources: Vec<JsonValue>,
) -> (r: AzureSnapshotEnvelope)
    ensures
        r.generated_at == generated_at,
        r.subscription.id@ == account.subscription_id@,
        r.subscription.name@ == account.name@,
        r.subscription.user@ == account.user@,
        r.resources@.map_values(|x: AzureSnapshotResource| snapshot_resource_view(x))
            == snapshot_resources_of(raw_resources@.map_values(|v: JsonValue| json_model(v))),
{
    let mut resources = build_snapshot_resources(raw_resources);
    sort_snapshot_resources(&mut resources);
    AzureSnapshotEnvelope { generated_at, subscription: copy_subscription(account), resources }
}

/// The message when the generation time cannot be formatted: a fixed
/// prefix and the formatter's own message.
pub open spec fn timestamp_error_text(detail: Seq<char>) -> Seq<char> {
    "unable to format the snapshot generation timestamp: "@ + detail
}

/// Whether a text is the RFC 3339 time of a valid UTC instant.
pub open spec fn is_snapshot_timestamp(t: Seq<char>) -> bool {
    exists|p: UtcParts, fraction: Seq<char>|
        valid_parts(p) && 0 <= p.year && is_second_fraction(fraction) && t == rfc3339_utc_text(
            p,
            fraction,
        )
}

fn timestamp_error(detail: String) -> (r: String)
    ensures
        r@ == timestamp_error_text(detail@),
{
    let mut out = String::from_str("unable to format the snapshot generation timestamp: ");
    push_str(&mut out, detail.as_str());
    out
}

/// Builds a resource snapshot stamped with the current UTC time in RFC 3339;
/// fails only when the clock's instant cannot be formatted.
pub fn build_snapshot_envelope(account: &AzureAccount, raw_resources: Vec<JsonValue>) -> (r: Result<
    AzureSnapshotEnvelope,
    String,
>)
    ensures
        match r {
            Ok(e) => {
                &&& is_snapshot_timestamp(e.generated_at@)
                &&& e.subscription.id@ == account.subscription_id@
                &&& e.subscription.name@ == account.name@
                &&& e.subscription.user@ == account.user@
                &&& e.resources@.map_values(|x: AzureSnapshotResource| snapshot_resource_view(x))
                    == snapshot_resources_of(raw_resources@.map_values(|v: JsonValue| json_model(v)))
            },
            Err(message) => exists|detail: Seq<char>| message@ == timestamp_error_text(detail),
        },
{
    match utc_now_rfc3339() {
        Ok(generated_at) => Ok(assemble_snapshot_envelope(account, generated_at, raw_resources)),
        Err(detail) => Err(timestamp_error(detail)),
    }
}

/// A snapshot holds one entry per raw resource (each with the normalized
/// view of that resource and the fingerprint of that view) in snapshot
/// order: type, then group, then name, then ID, ignoring case.
pub proof fn law_snapshot_resources(raws: Seq<JsonModel>)
    ensures
        snapshot_resources_of(raws).len() == raws.len(),
        snapshot_resources_of(raws).to_multiset() == raws.map_values(
            |x: JsonModel| snapshot_entry(x),
        ).to_multiset(),
        forall|i: int, j: int|
            0 <= i < j < raws.len() ==> !crate::sort::key_lt(
                entry_sort_key(#[trigger] snapshot_resources_of(raws)[j]),
                entry_sort_key(#[trigger] snapshot_resources_of(raws)[i]),
            ),
        forall|i: int|
            0 <= i < raws.len() ==> (#[trigger] snapshot_resources_of(raws)[i]).fingerprint
                == fingerprint_of(snapshot_resources_of(raws)[i].normalized),
{
    let entries = raws.map_values(|x: JsonModel| snapshot_entry(x));
    crate::sort::lemma_sort_ordered(entries, |e: SnapshotResourceModel| entry_sort_key(e));
    let r = snapshot_resources_of(raws);
    assert forall|i: int| 0 <= i < raws.len() implies (#[trigger] r[i]).fingerprint == fingerprint_of(
        r[i].normalized,
    ) by {
        broadcast use vstd::seq_lib::group_to_multiset_ensures;

        assert(r.contains(r[i]));
        assert(r.to_multiset().count(r[i]) > 0);
        assert(entries.contains(r[i]));
        let w = choose|w: int| 0 <= w < entries.len() && entries[w] == r[i];
        assert(entries[w] == snapshot_entry(raws[w]));
    }
}

// ---------------------------------------------------------------------------
// Resource group snapshots
// ---------------------------------------------------------------------------

/// The model of a normalized resource group.
pub struct NormalizedGroupModel {
    pub id: Seq<char>,
    pub name: Seq<char>,
    pub location: Seq<char>,
    pub tags: JsonModel,
    pub managed_by: JsonModel,
}

/// The model of a group snapshot entry.
pub struct SnapshotGroupModel {
    pub normalized: NormalizedGroupModel,
    pub fingerprint: Seq<char>,
    pub raw: JsonModel,
}

pub open spec fn normalized_group_view(g: AzureSnapshotNormalizedGroup) -> NormalizedGroupModel {
    NormalizedGroupModel {
        id: g.id@,
        name: g.name@,
        location: g.location@,
        tags: json_model(g.tags),
        managed_by: json_model(g.managed_by),
    }
}

pub open spec fn snapshot_group_view(g: AzureSnapshotGroup) -> SnapshotGroupModel {
    SnapshotGroupModel {
        normalized: normalized_group_view(g.normalized),
        fingerprint: g.fingerprint@,
        raw: json_model(g.raw),
    }
}

/// The normalized view of a raw resource group, read like a resource.
pub open spec fn normalize_group_model(raw: JsonModel) -> NormalizedGroupModel {
    NormalizedGroupModel {
        id: string_field(raw, "id"@),
        name: string_field(raw, "name"@),
        location: string_field(raw, "location"@),
        tags: object_field_or_empty(raw, "tags"@),
        managed_by: json_field_or_null(raw, "managedBy"@),
    }
}

/// Builds the stable normalized view of one raw resource group.
pub fn normalize_snapshot_group(raw_group: &JsonValue) -> (r: AzureSnapshotNormalizedGroup)
    ensures
        normalized_group_view(r) == normalize_group_model(json_model(*raw_group)),
{
    AzureSnapshotNormalizedGroup {
        id: read_string_field(raw_group, "id"),
        name: read_string_field(raw_group, "name"),
        location: read_string_field(raw_group, "location"),
        tags: read_object_field_or_empty(raw_group, "tags"),
        managed_by: read_json_field_or_null(raw_group, "managedBy"),
    }
}

/// The members of the JSON document of a normalized group.
pub open spec fn normalized_group_members(n: NormalizedGroupModel) -> Seq<(Seq<char>, JsonModel)> {
    seq![
        ("id"@, JsonModel::Text(n.id)),
        ("name"@, JsonModel::Text(n.name)),
        ("location"@, JsonModel::Text(n.location)),
        ("tags"@, n.tags),
        ("managedBy"@, n.managed_by),
    ]
}

/// The fingerprint of a normalized group: SHA-256 of its compact JSON, in
/// lowercase hex.
pub open spec fn group_fingerprint_of(n: NormalizedGroupModel) -> Seq<char> {
    hex_text(sha256_utf8(json_text(JsonModel::Object(normalized_group_members(n)))))
}

/// The compact JSON text of a normalized group.
pub fn normalized_group_json(normalized: &AzureSnapshotNormalizedGroup) -> (r: String)
    ensures
        r@ == json_text(JsonModel::Object(normalized_group_members(normalized_group_view(*normalized)))),
{
    let ghost n = normalized_group_view(*normalized);
    let mut out = String::new();
    push_char(&mut out, '{');
    let ghost a0: Seq<(Seq<char>, JsonModel)> = Seq::empty();
    assert(out@ =~= seq!['{'] + members_text(a0));
    push_text_member(&mut out, Ghost(a0), true, "id", normalized.id.as_str());
    let ghost a1 = a0.push(("id"@, JsonModel::Text(n.id)));
    push_text_member(&mut out, Ghost(a1), false, "name", normalized.name.as_str());
    let ghost a2 = a1.push(("name"@, JsonModel::Text(n.name)));
    push_text_member(&mut out, Ghost(a2), false, "location", normalized.location.as_str());
    let ghost a3 = a2.push(("location"@, JsonModel::Text(n.location)));
    push_json_member(&mut out, Ghost(a3), false, "tags", &normalized.tags);
    let ghost a4 = a3.push(("tags"@, n.tags));
    push_json_member(&mut out, Ghost(a4), false, "managedBy", &normalized.managed_by);
    let ghost a5 = a4.push(("managedBy"@, n.managed_by));
    push_char(&mut out, '}');
    assert(a5 =~= normalized_group_members(n));
    assert(out@ =~= seq!['{'] + members_text(a5) + seq!['}']);
    out
}

/// The SHA-256 fingerprint of a normalized group.
pub fn fingerprint_normalized_group(normalized: &AzureSnapshotNormalizedGroup) -> (r: String)
    ensures
        r@ == group_fingerprint_of(normalized_group_view(*normalized)),
        r@.len() == 64,
        forall|i: int| 0 <= i < r@.len() ==> is_lower_hex(#[trigger] r@[i]),
{
    let text = normalized_group_json(normalized);
    let digest = sha256_text(text.as_str());
    proof {
        lemma_hex_text_len(digest@);
    }
    hex_string(&digest)
}

/// The group snapshot entry built from one raw group.
pub open spec fn group_entry(raw: JsonModel) -> SnapshotGroupModel {
    SnapshotGroupModel {
        normalized: normalize_group_model(raw),
        fingerprint: group_fingerprint_of(normalize_group_model(raw)),
        raw,
    }
}

/// The order of group entries: name, then ID, each in lowercase.
pub open spec fn group_entry_sort_key(e: SnapshotGroupModel) -> Seq<KeyPartModel> {
    seq![
        KeyPartModel::Asc(lowercase(e.normalized.name)),
        KeyPartModel::Asc(lowercase(e.normalized.id)),
    ]
}

/// The groups of a snapshot built from raw groups.
pub open spec fn snapshot_groups_of(raws: Seq<JsonModel>) -> Seq<SnapshotGroupModel> {
    let entries = raws.map_values(|x: JsonModel| group_entry(x));
    sorted_by_models(entries.map_values(|e: SnapshotGroupModel| group_entry_sort_key(e)), entries)
}

fn group_sort_key_of(group: &AzureSnapshotGroup) -> (r: Vec<KeyPart>)
    ensures
        key_model(r) == group_entry_sort_key(snapshot_group_view(*group)),
{
    let mut k: Vec<KeyPart> = Vec::new();
    k.push(KeyPart::Asc(lowercase_chars(group.normalized.name.as_str())));
    k.push(KeyPart::Asc(lowercase_chars(group.normalized.id.as_str())));
    assert(key_model(k) =~= group_entry_sort_key(snapshot_group_view(*group)));
    k
}

/// Builds the group entries of a snapshot in snapshot order.
pub fn build_snapshot_groups(raw_groups: Vec<JsonValue>) -> (r: Vec<AzureSnapshotGroup>)
    ensures
        r@.map_values(|x: AzureSnapshotGroup| snapshot_group_view(x)) == snapshot_groups_of(
            raw_groups@.map_values(|v: JsonValue| json_model(v)),
        ),
{
    let ghost all = raw_groups@;
    assert(all.len() == raw_groups.len());
    let mut rest = raw_groups;
    let mut out: Vec<AzureSnapshotGroup> = Vec::new();
    let mut keys: Vec<Vec<KeyPart>> = Vec::new();
    let mut done: usize = 0;
    while rest.len() > 0
        invariant
            done + rest.len() == all.len(),
            all.len() <= usize::MAX,
            out.len() == done,
            keys.len() == done,
            rest@ == all.skip(done as int),
            forall|j: int|
                0 <= j < done ==> snapshot_group_view(#[trigger] out@[j]) == group_entry(
                    json_model(all[j]),
                ),
            forall|j: int|
                0 <= j < done ==> key_model(#[trigger] keys@[j]) == group_entry_sort_key(
                    snapshot_group_view(out@[j]),
                ),
        decreases rest.len(),
    {
        assert(rest@[0] == all[done as int]);
        let raw = rest.remove(0);
        assert(rest@ =~= all.skip(done + 1));
        let normalized = normalize_snapshot_group(&raw);
        let fingerprint = fingerprint_normalized_group(&normalized);
        let group = AzureSnapshotGroup { normalized, fingerprint, raw };
        keys.push(group_sort_key_of(&group));
        out.push(group);
        done = done + 1;
    }
    let ghost before = out@;
    let ghost key_models = keys@.map_values(|k: Vec<KeyPart>| key_model(k));
    let ghost entries = all.map_values(|v: JsonValue| json_model(v)).map_values(
        |x: JsonModel| group_entry(x),
    );
    assert(before.map_values(|x: AzureSnapshotGroup| snapshot_group_view(x)) =~= entries);
    assert(key_models =~= entries.map_values(|e: SnapshotGroupModel| group_entry_sort_key(e)));
    let sorted = sort_by_keys(out, keys);
    proof {
        crate::sort::lemma_sorted_map(key_models, before, |x: AzureSnapshotGroup| snapshot_group_view(x));
    }
    sorted
}

/// Assembles a resource group snapshot taken at `generated_at`.
pub fn assemble_group_snapshot_envelope(
    account: &AzureAccount,
    generated_at: String,
    raw_groups: Vec<JsonValue>,
) -> (r: AzureGroupSnapshotEnvelope)
    ensures
        r.generated_at == generated_at,
        r.subscription.id@ == account.subscription_id@,
        r.subscription.name@ == account.name@,
        r.subscription.user@ == account.user@,
        r.groups@.map_values(|x: AzureSnapshotGroup| snapshot_group_view(x)) == snapshot_groups_of(
            raw_groups@.map_values(|v: JsonValue| json_model(v)),
        ),
{
    let groups = build_snapshot_groups(raw_groups);
    AzureGroupSnapshotEnvelope { generated_at, subscription: copy_subscription(account), groups }
}

/// Builds a resource group snapshot stamped with the current UTC time.
pub fn build_group_snapshot_envelope(account: &AzureAccount, raw_groups: Vec<JsonValue>) -> (r: Result<
    AzureGroupSnapshotEnvelope,
    String,
>)
    ensures
        match r {
            Ok(e) => {
                &&& is_snapshot_timestamp(e.generated_at@)
                &&& e.subscription.id@ == account.subscription_id@
                &&& e.subscription.name@ == account.name@
                &&& e.subscription.user@ == account.user@
                &&& e.groups@.map_values(|x: AzureSnapshotGroup| snapshot_group_view(x))
                    == snapshot_groups_of(raw_groups@.map_values(|v: JsonValue| json_model(v)))
            },
            Err(message) => exists|detail: Seq<char>| message@ == timestamp_error_text(detail),
        },
{
    match utc_now_rfc3339() {
        Ok(generated_at) => Ok(assemble_group_snapshot_envelope(account, generated_at, raw_groups)),
        Err(detail) => Err(timestamp_error(detail)),
    }
}

/// A group snapshot holds one entry per raw group (each with the normalized
/// view of that group and the fingerprint of that view) in name-then-ID
/// order, ignoring case.
pub proof fn law_snapshot_groups(raws: Seq<JsonModel>)
    ensures
        snapshot_groups_of(raws).len() == raws.len(),
        snapshot_groups_of(raws).to_multiset() == raws.map_values(
            |x: JsonModel| group_entry(x),
        ).to_multiset(),
        forall|i: int, j: int|
            0 <= i < j < raws.len() ==> !crate::sort::key_lt(
                group_entry_sort_key(#[trigger] snapshot_groups_of(raws)[j]),
                group_entry_sort_key(#[trigger] snapshot_groups_of(raws)[i]),
            ),
        forall|i: int|
            0 <= i < raws.len() ==> (#[trigger] snapshot_groups_of(raws)[i]).fingerprint
                == group_fingerprint_of(snapshot_groups_of(raws)[i].normalized),
{
    let entries = raws.map_values(|x: JsonModel| group_entry(x));
    crate::sort::lemma_sort_ordered(entries, |e: SnapshotGroupModel| group_entry_sort_key(e));
    let r = snapshot_groups_of(raws);
    assert forall|i: int| 0 <= i < raws.len() implies (#[trigger] r[i]).fingerprint
        == group_fingerprint_of(r[i].normalized) by {
        broadcast use vstd::seq_lib::group_to_multiset_ensures;

        assert(r.contains(r[i]));
        assert(r.to_multiset().count(r[i]) > 0);
        assert(entries.contains(r[i]));
        let w = choose|w: int| 0 <= w < entries.len() && entries[w] == r[i];
        assert(entries[w] == group_entry(raws[w]));
    }
}

/// The texts a snapshot resource is ordered by: type, group, name and ID,
/// each in lowercase.
spec fn resource_order_texts(e: SnapshotResourceModel) -> Seq<Seq<char>> {
    seq![
        lowercase(e.normalized.resource_type),
        lowercase(e.normalized.resource_group),
        lowercase(e.normalized.name),
        lowercase(e.normalized.id),
    ]
}

/// Whether snapshot resource `x` may come before `y`: by lowercase type;
/// for equal types by lowercase resource group; then by lowercase name;
/// then by lowercase ID.
pub open spec fn resource_in_order(x: NormalizedResourceModel, y: NormalizedResourceModel) -> bool {
    &&& !text_lt(lowercase(y.resource_type), lowercase(x.resource_type))
    &&& lowercase(x.resource_type) == lowercase(y.resource_type) ==> !text_lt(
        lowercase(y.resource_group),
        lowercase(x.resource_group),
    )
    &&& lowercase(x.resource_type) == lowercase(y.resource_type) && lowercase(x.resource_group)
        == lowercase(y.resource_group) ==> !text_lt(lowercase(y.name), lowercase(x.name))
    &&& lowercase(x.resource_type) == lowercase(y.resource_type) && lowercase(x.resource_group)
        == lowercase(y.resource_group) && lowercase(x.name) == lowercase(y.name) ==> !text_lt(
        lowercase(y.id),
        lowercase(x.id),
    )
}

/// In a resource snapshot every resource comes before every later one in
/// the order of lowercase type, then resource group, then name, then ID.
pub proof fn law_snapshot_resource_order(raws: Seq<JsonModel>)
    ensures
        forall|i: int, j: int|
            0 <= i < j < snapshot_resources_of(raws).len() ==> resource_in_order(
                (#[trigger] snapshot_resources_of(raws)[i]).normalized,
                (#[trigger] snapshot_resources_of(raws)[j]).normalized,
            ),
{
    law_snapshot_resources(raws);
    let r = snapshot_resources_of(raws);
    assert forall|i: int, j: int| 0 <= i < j < r.len() implies resource_in_order(
        (#[trigger] r[i]).normalized,
        (#[trigger] r[j]).normalized,
    ) by {
        let a = resource_order_texts(r[i]);
        let b = resource_order_texts(r[j]);
        assert(entry_sort_key(r[i]) =~= crate::sort::asc_key(a));
        assert(entry_sort_key(r[j]) =~= crate::sort::asc_key(b));
        crate::sort::lemma_asc_key_order(a, b);
        assert(!text_lt(b[0], a[0]));
        if a[0] == b[0] {
            assert(!text_lt(b[1], a[1]));
            if a[1] == b[1] {
                assert(!text_lt(b[2], a[2]));
                if a[2] == b[2] {
                    assert(!text_lt(b[3], a[3]));
                }
            }
        }
    }
}

/// The texts a snapshot group is ordered by: name and ID, in lowercase.
spec fn group_order_texts(e: SnapshotGroupModel) -> Seq<Seq<char>> {
    seq![lowercase(e.normalized.name), lowercase(e.normalized.id)]
}

/// In a group snapshot every group comes before every later one in the order
/// of lowercase name, then lowercase ID.
pub proof fn law_snapshot_group_order(raws: Seq<JsonModel>)
    ensures
        forall|i: int, j: int|
            0 <= i < j < snapshot_groups_of(raws).len() ==> {
                let x = (#[trigger] snapshot_groups_of(raws)[i]).normalized;
                let y = (#[trigger] snapshot_groups_of(raws)[j]).normalized;
                &&& !text_lt(lowercase(y.name), lowercase(x.name))
                &&& lowercase(x.name) == lowercase(y.name) ==> !text_lt(lowercase(y.id), lowercase(x.id))
            },
{
    law_snapshot_groups(raws);
    let r = snapshot_groups_of(raws);
    assert forall|i: int, j: int| 0 <= i < j < r.len() implies {
        let x = (#[trigger] r[i]).normalized;
        let y = (#[trigger] r[j]).normalized;
        &&& !text_lt(lowercase(y.name), lowercase(x.name))
        &&& lowercase(x.name) == lowercase(y.name) ==> !text_lt(lowercase(y.id), lowercase(x.id))
    } by {
        let a = group_order_texts(r[i]);
        let b = group_order_texts(r[j]);
        assert(group_entry_sort_key(r[i]) =~= crate::sort::asc_key(a));
        assert(group_entry_sort_key(r[j]) =~= crate::sort::asc_key(b));
        crate::sort::lemma_asc_key_order(a, b);
        assert(!text_lt(b[0], a[0]));
        if a[0] == b[0] {
            assert(!text_lt(b[1], a[1]));
        }
    }
}

/// Whether member `i` is the last one of `members` with its key.
pub open spec fn last_with_key(members: Seq<(Seq<char>, JsonModel)>, i: int) -> bool {
    &&& 0 <= i < members.len()
    &&& forall|j: int| i < j < members.len() ==> (#[trigger] members[j]).0 != members[i].0
}

/// Whether no member of `members` has key `key`.
pub open spec fn lacks_key(members: Seq<(Seq<char>, JsonModel)>, key: Seq<char>) -> bool {
    forall|j: int| 0 <= j < members.len() ==> (#[trigger] members[j]).0 != key
}

pub proof fn lemma_member_value_last(members: Seq<(Seq<char>, JsonModel)>, i: int)
    requires
        last_with_key(members, i),
    ensures
        member_value(members, members[i].0) == Some(members[i].1),
    decreases members.len(),
{
    if i < members.len() - 1 {
        let init = members.drop_last();
        assert(members.last() == members[members.len() - 1]);
        assert(last_with_key(init, i)) by {
            assert forall|j: int| i < j < init.len() implies (#[trigger] init[j]).0 != init[i].0 by {
                assert(init[j] == members[j]);
            }
        }
        lemma_member_value_last(init, i);
    }
}

pub proof fn lemma_member_value_absent(members: Seq<(Seq<char>, JsonModel)>, key: Seq<char>)
    requires
        lacks_key(members, key),
    ensures
        member_value(members, key) is None,
    decreases members.len(),
{
    if members.len() > 0 {
        let init = members.drop_last();
        assert(members.last() == members[members.len() - 1]);
        assert(lacks_key(init, key)) by {
            assert forall|j: int| 0 <= j < init.len() implies (#[trigger] init[j]).0 != key by {
                assert(init[j] == members[j]);
            }
        }
        lemma_member_value_absent(init, key);
    }
}

/// A raw resource object is read field by field: the last member named
/// `id`, `name`, `type`, `resourceGroup` or `location` that holds a string
/// gives that normalized field; `kind` and `sku` are kept as the key-sorted
/// value of their member; an object member `tags` is kept key-sorted; a
/// missing text field reads as empty, a missing `kind` or `sku` as `null`
/// and missing tags as the empty object.
pub proof fn law_normalize_reads_fields(members: Seq<(Seq<char>, JsonModel)>, i: int, key: Seq<char>)
    requires
        last_with_key(members, i),
    ensures
        ({
            let n = normalize_model(JsonModel::Object(members));
            let (k, v) = members[i];
            &&& (k == "id"@ && v is Text ==> n.id == v->Text_0)
            &&& (k == "name"@ && v is Text ==> n.name == v->Text_0)
            &&& (k == "type"@ && v is Text ==> n.resource_type == v->Text_0)
            &&& (k == "resourceGroup"@ && v is Text ==> n.resource_group == v->Text_0)
            &&& (k == "location"@ && v is Text ==> n.location == v->Text_0)
            &&& (k == "kind"@ ==> n.kind == sorted_json(v))
            &&& (k == "sku"@ ==> n.sku == sorted_json(v))
            &&& (k == "tags"@ && v is Object ==> n.tags == sorted_json(v))
        }),
        lacks_key(members, key) ==> ({
            let n = normalize_model(JsonModel::Object(members));
            &&& (key == "id"@ ==> n.id.len() == 0)
            &&& (key == "name"@ ==> n.name.len() == 0)
            &&& (key == "type"@ ==> n.resource_type.len() == 0)
            &&& (key == "resourceGroup"@ ==> n.resource_group.len() == 0)
            &&& (key == "location"@ ==> n.location.len() == 0)
            &&& (key == "kind"@ ==> n.kind == JsonModel::Null)
            &&& (key == "sku"@ ==> n.sku == JsonModel::Null)
            &&& (key == "tags"@ ==> n.tags == JsonModel::Object(Seq::empty()))
        }),
{
    lemma_member_value_last(members, i);
    if lacks_key(members, key) {
        lemma_member_value_absent(members, key);
    }
}

/// A raw resource group object is read like a resource: the last string
/// member `id`, `name` or `location` gives that field, an object member
/// `tags` is kept key-sorted and `managedBy` is kept as its key-sorted
/// value; missing ones read as empty text, the empty object and `null`.
pub proof fn law_normalize_group_reads_fields(members: Seq<(Seq<char>, JsonModel)>, i: int, key: Seq<char>)
    requires
        last_with_key(members, i),
    ensures
        ({
            let n = normalize_group_model(JsonModel::Object(members));
            let (k, v) = members[i];
            &&& (k == "id"@ && v is Text ==> n.id == v->Text_0)
            &&& (k == "name"@ && v is Text ==> n.name == v->Text_0)
            &&& (k == "location"@ && v is Text ==> n.location == v->Text_0)
            &&& (k == "tags"@ && v is Object ==> n.tags == sorted_json(v))
            &&& (k == "managedBy"@ ==> n.managed_by == sorted_json(v))
        }),
        lacks_key(members, key) ==> ({
            let n = normalize_group_model(JsonModel::Object(members));
            &&& (key == "id"@ ==> n.id.len() == 0)
            &&& (key == "name"@ ==> n.name.len() == 0)
            &&& (key == "location"@ ==> n.location.len() == 0)
            &&& (key == "tags"@ ==> n.tags == JsonModel::Object(Seq::empty()))
            &&& (key == "managedBy"@ ==> n.managed_by == JsonModel::Null)
        }),
{
    lemma_member_value_last(members, i);
    if lacks_key(members, key) {
        lemma_member_value_absent(members, key);
    }
}

} // verus!
