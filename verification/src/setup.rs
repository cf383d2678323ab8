//! Setting providers up: what is on offer, what is stored, and what saving and removing do.

use crate::conversation::{opt_json, opt_text};
use crate::json::{
    has_just, json_text, json_texts, json_views, list_text, object_text, says, says_text, Json,
    JsonObject, JsonView,
};
use crate::reply::{
    answer, answer_in_order, error, failure, failures_say_what_went_wrong, success, success_in_order,
    tells, Reply, ReplyView, BAD_REQUEST, INTERNAL_SERVER_ERROR, NOT_FOUND,
};
use crate::seqs::lemma_filter_push;
use crate::text::{
    comes_before, is_before, lemma_before_asymmetric, lemma_before_either, lowercase, same, texts,
    to_lowercase, trim, trimmed,
};
use vstd::prelude::*;

verus! {

// ---------------------------------------------------------------------------
// The catalog
// ---------------------------------------------------------------------------

/// What kind of provider an entry of the catalog is.
#[derive(Clone, Copy, Debug, PartialEq, Eq, Structural)]
pub enum SetupCategory {
    /// It answers chats.
    Model,
    /// It runs its own tools, which does not fit a client that calls tools.
    Agent,
}

/// Where the catalog shows an entry.
#[derive(Clone, Copy, Debug, PartialEq, Eq, Structural)]
pub enum SetupGroup {
    /// At once.
    Default,
    /// On demand: niche or enterprise.
    Additional,
}

/// A setting that an entry of the catalog asks for.
#[derive(Debug)]
pub struct SetupField {
    pub key: String,
    pub label: String,
    pub secret: bool,
    pub required: bool,
    pub placeholder: Option<String>,
    pub default_value: Option<String>,
}

/// An entry of the catalog.
#[derive(Debug)]
pub struct SetupEntry {
    pub provider_id: String,
    pub display_name: String,
    pub description: String,
    /// How the provider is set up, such as `oauth_browser`, `single_api_key` or `local`.
    pub setup_method: String,
    pub category: SetupCategory,
    pub group: SetupGroup,
    pub docs_url: Option<String>,
    pub fields: Vec<SetupField>,
}

/// A setting that a provider declares.
#[derive(Debug)]
pub struct ConfigKey {
    pub name: String,
    pub secret: bool,
    /// It is filled by a sign-in.
    pub oauth_flow: bool,
}

/// What a provider says of itself.
#[derive(Debug)]
pub struct Metadata {
    pub config_keys: Vec<ConfigKey>,
    pub default_model: String,
    pub known_models: Vec<String>,
}

/// What is stored under the key of a field.
#[derive(Debug)]
pub struct Stored {
    /// There is a secret.
    pub secret: bool,
    /// The value that is no secret.
    pub value: Option<Json>,
}

/// A field as clients see it.
#[derive(Debug)]
pub struct FieldView {
    pub key: String,
    pub label: String,
    pub secret: bool,
    pub required: bool,
    pub placeholder: Option<String>,
    pub default: Option<String>,
    /// Whether a value is stored. Secret values are never returned.
    pub set: bool,
    /// The stored value, for a field that is no secret.
    pub value: Option<String>,
}

/// A provider as clients see it.
#[derive(Debug)]
pub struct ProviderView {
    pub id: String,
    pub name: String,
    pub description: String,
    pub method: String,
    pub featured: bool,
    pub docs_url: Option<String>,
    /// It is signed in to, rather than set up with fields.
    pub sign_in: bool,
    pub fields: Vec<FieldView>,
    pub configured: bool,
    pub default_model: String,
    pub models: Vec<String>,
}

/// A field, in mathematics.
pub struct FieldInfo {
    pub key: Seq<char>,
    pub label: Seq<char>,
    pub secret: bool,
    pub required: bool,
    pub placeholder: Option<Seq<char>>,
    pub default: Option<Seq<char>>,
    pub set: bool,
    pub value: Option<Seq<char>>,
}

/// A provider, in mathematics.
pub struct ProviderInfo {
    pub id: Seq<char>,
    pub name: Seq<char>,
    pub description: Seq<char>,
    pub method: Seq<char>,
    pub featured: bool,
    pub docs_url: Option<Seq<char>>,
    pub sign_in: bool,
    pub fields: Seq<FieldInfo>,
    pub configured: bool,
    pub default_model: Seq<char>,
    pub models: Seq<Seq<char>>,
}

impl View for FieldView {
    type V = FieldInfo;

    open spec fn view(&self) -> FieldInfo {
        FieldInfo {
            key: self.key@,
            label: self.label@,
            secret: self.secret,
            required: self.required,
            placeholder: opt_text(self.placeholder),
            default: opt_text(self.default),
            set: self.set,
            value: opt_text(self.value),
        }
    }
}

/// Fields, each taken by its view.
pub open spec fn field_infos(all: Seq<FieldView>) -> Seq<FieldInfo> {
    all.map_values(|f: FieldView| f@)
}

impl View for ProviderView {
    type V = ProviderInfo;

    open spec fn view(&self) -> ProviderInfo {
        ProviderInfo {
            id: self.id@,
            name: self.name@,
            description: self.description@,
            method: self.method@,
            featured: self.featured,
            docs_url: opt_text(self.docs_url),
            sign_in: self.sign_in,
            fields: field_infos(self.fields@),
            configured: self.configured,
            default_model: self.default_model@,
            models: texts(self.models@),
        }
    }
}

/// The text of a stored value: a string as it stands, nothing for null or the empty string, and any
/// other value as JSON.
pub open spec fn stored_text(stored: Option<JsonView>) -> Option<Seq<char>> {
    match stored {
        None => None,
        Some(JsonView::Null) => None,
        Some(JsonView::Text(s)) => if s.len() > 0 {
            Some(s)
        } else {
            None
        },
        Some(other) => Some(json_text(other)),
    }
}

/// The text of a stored value.
pub fn field_value(stored: Option<Json>) -> (r: Option<String>)
    ensures
        opt_text(r) == stored_text(opt_json(stored)),
{
    match stored {
        None => None,
        Some(Json::Null) => None,
        Some(Json::Text(s)) => if s.as_str().is_empty() {
            None
        } else {
            Some(s)
        },
        Some(other) => Some(other.into_text()),
    }
}

/// What is stored for a field, as clients may know it: of a secret only whether there is one.
pub open spec fn field_info(field: SetupField, stored: Stored) -> FieldInfo {
    let value = stored_text(opt_json(stored.value));
    FieldInfo {
        key: field.key@,
        label: field.label@,
        secret: field.secret,
        required: field.required,
        placeholder: opt_text(field.placeholder),
        default: opt_text(field.default_value),
        set: if field.secret {
            stored.secret
        } else {
            value is Some
        },
        value: if field.secret {
            None
        } else {
            value
        },
    }
}

/// A field as clients see it.
pub fn field_view(field: SetupField, stored: Stored) -> (r: FieldView)
    ensures
        r@ == field_info(field, stored),
{
    let (set, value) = if field.secret {
        (stored.secret, None)
    } else {
        let value = field_value(stored.value);
        (value.is_some(), value)
    };
    FieldView {
        key: field.key,
        label: field.label,
        secret: field.secret,
        required: field.required,
        placeholder: field.placeholder,
        default: field.default_value,
        set,
        value,
    }
}

/// Whether a provider is signed in to: one of its settings is filled by a sign-in.
pub open spec fn signs_in(keys: Seq<ConfigKey>) -> bool {
    exists|i: int| 0 <= i < keys.len() && (#[trigger] keys[i]).oauth_flow
}

/// Whether a provider is signed in to.
pub fn has_sign_in(keys: &Vec<ConfigKey>) -> (r: bool)
    ensures
        r == signs_in(keys@),
{
    for i in 0..keys.len()
        invariant
            forall|j: int| 0 <= j < i ==> !(#[trigger] keys@[j]).oauth_flow,
    {
        if keys[i].oauth_flow {
            return true;
        }
    }
    false
}

/// `i` is the first entry for a provider.
pub open spec fn first_entry(entries: Seq<SetupEntry>, id: Seq<char>, i: int) -> bool {
    &&& 0 <= i < entries.len()
    &&& entries[i].provider_id@ == id
    &&& forall|j: int| 0 <= j < i ==> (#[trigger] entries[j]).provider_id@ != id
}

/// The catalog has an entry for a provider.
pub open spec fn listed(entries: Seq<SetupEntry>, id: Seq<char>) -> bool {
    exists|i: int| 0 <= i < entries.len() && (#[trigger] entries[i]).provider_id@ == id
}

/// The position of the first entry for a provider.
pub fn find_entry(entries: &Vec<SetupEntry>, id: &str) -> (r: Option<usize>)
    ensures
        r matches Some(i) ==> first_entry(entries@, id@, i as int),
        r is None ==> !listed(entries@, id@),
{
    for i in 0..entries.len()
        invariant
            forall|j: int| 0 <= j < i ==> (#[trigger] entries@[j]).provider_id@ != id@,
    {
        if same(entries[i].provider_id.as_str(), id) {
            return Some(i);
        }
    }
    None
}

/// What is stored for the fields of an entry, one for each, as clients may know it.
pub open spec fn infos_of(fields: Seq<SetupField>, stored: Seq<Stored>) -> Seq<FieldInfo> {
    Seq::new(fields.len(), |i: int| field_info(fields[i], stored[i]))
}

/// A provider as clients see it.
pub open spec fn provider_info(
    entry: SetupEntry,
    metadata: Metadata,
    stored: Seq<Stored>,
    configured: bool,
) -> ProviderInfo {
    ProviderInfo {
        id: entry.provider_id@,
        name: entry.display_name@,
        description: entry.description@,
        method: entry.setup_method@,
        featured: entry.group is Default,
        docs_url: opt_text(entry.docs_url),
        sign_in: signs_in(metadata.config_keys@),
        fields: infos_of(entry.fields@, stored),
        configured,
        default_model: metadata.default_model@,
        models: texts(metadata.known_models@),
    }
}

fn field_views(fields: Vec<SetupField>, stored: Vec<Stored>) -> (r: Vec<FieldView>)
    requires
        stored@.len() == fields@.len(),
    ensures
        field_infos(r@) == infos_of(fields@, stored@),
        r@.len() == fields@.len(),
{
    let ghost all = infos_of(fields@, stored@);
    let mut fields = fields;
    let mut stored = stored;
    let ghost n = fields@.len();
    let ghost fields0 = fields@;
    let ghost stored0 = stored@;
    let mut out: Vec<FieldView> = Vec::new();
    assert(field_infos(out@) =~= all.take(0));
    while fields.len() > 0
        invariant
            stored@.len() == fields@.len(),
            fields0.len() == stored0.len(),
            all == infos_of(fields0, stored0),
            out@.len() + fields@.len() == fields0.len(),
            fields@ == fields0.skip(out@.len() as int),
            stored@ == stored0.skip(out@.len() as int),
            field_infos(out@) == all.take(out@.len() as int),
        decreases fields@.len(),
    {
        let ghost before = field_infos(out@);
        let field = fields.remove(0);
        let state = stored.remove(0);
        out.push(field_view(field, state));
        assert(field_infos(out@) =~= before.push(field_info(field, state)));
        assert(field_infos(out@) =~= all.take(out@.len() as int));
        assert(fields@ =~= fields0.skip(out@.len() as int));
        assert(stored@ =~= stored0.skip(out@.len() as int));
    }
    assert(all.take(all.len() as int) =~= all);
    out
}

/// A provider as clients see it. `stored` holds what is stored for each field of the entry.
pub fn view(entry: SetupEntry, metadata: Metadata, stored: Vec<Stored>, configured: bool) -> (r:
    ProviderView)
    requires
        stored@.len() == entry.fields@.len(),
    ensures
        r@ == provider_info(entry, metadata, stored@, configured),
        r.sign_in <==> exists|i: int|
            0 <= i < metadata.config_keys@.len() && (#[trigger] metadata.config_keys@[i]).oauth_flow,
        r.id@ == entry.provider_id@,
        r.configured == configured,
        r.fields@.len() == entry.fields@.len(),
{
    let featured = match entry.group {
        SetupGroup::Default => true,
        SetupGroup::Additional => false,
    };
    ProviderView {
        id: entry.provider_id,
        name: entry.display_name,
        description: entry.description,
        method: entry.setup_method,
        featured,
        docs_url: entry.docs_url,
        sign_in: has_sign_in(&metadata.config_keys),
        fields: field_views(entry.fields, stored),
        configured,
        default_model: metadata.default_model,
        models: metadata.known_models,
    }
}

/// A provider that answers chats.
pub open spec fn answers_chats(entries: Seq<SetupEntry>, id: Seq<char>) -> bool {
    exists|i: int|
        0 <= i < entries.len() && (#[trigger] entries[i]).provider_id@ == id
            && entries[i].category is Model
}

/// Whether a provider is one that a chat client can use.
pub fn is_model_provider(entries: &Vec<SetupEntry>, id: &str) -> (r: bool)
    ensures
        r == answers_chats(entries@, id@),
{
    for i in 0..entries.len()
        invariant
            forall|j: int|
                0 <= j < i ==> !((#[trigger] entries@[j]).provider_id@ == id@
                    && entries@[j].category is Model),
    {
        if same(entries[i].provider_id.as_str(), id) {
            if let SetupCategory::Model = entries[i].category {
                return true;
            }
        }
    }
    false
}

/// The ids of the providers that answer chats, in the order of the catalog.
pub open spec fn chat_ids(entries: Seq<SetupEntry>) -> Seq<Seq<char>> {
    entries.filter(|e: SetupEntry| e.category is Model).map_values(
        |e: SetupEntry| e.provider_id@,
    )
}

/// The ids of the providers that answer chats.
pub fn model_provider_ids(entries: &Vec<SetupEntry>) -> (r: Vec<String>)
    ensures
        texts(r@) == chat_ids(entries@),
{
    let mut out: Vec<String> = Vec::new();
    proof {
        reveal(Seq::filter);
        assert(texts(out@) =~= chat_ids(entries@.take(0)));
    }
    for i in 0..entries.len()
        invariant
            texts(out@) == chat_ids(entries@.take(i as int)),
    {
        let ghost before = texts(out@);
        let ghost entry = entries@[i as int];
        proof {
            assert(entries@.take(i + 1) =~= entries@.take(i as int).push(entry));
            lemma_filter_push(
                entries@.take(i as int),
                entry,
                |e: SetupEntry| e.category is Model,
            );
        }
        match entries[i].category {
            SetupCategory::Model => {
                out.push(entries[i].provider_id.clone());
                assert(texts(out@) =~= before.push(entry.provider_id@));
                assert(chat_ids(entries@.take(i + 1)) =~= before.push(entry.provider_id@));
            },
            SetupCategory::Agent => {},
        }
    }
    assert(entries@.take(entries@.len() as int) =~= entries@);
    out
}

// ---------------------------------------------------------------------------
// The list
// ---------------------------------------------------------------------------

/// A text, or null where there is none.
pub open spec fn text_or_null(s: Option<Seq<char>>) -> JsonView {
    match s {
        Some(t) => JsonView::Text(t),
        None => JsonView::Null,
    }
}

fn text_value(s: &Option<String>) -> (r: Json)
    ensures
        r@ == text_or_null(opt_text(*s)),
        r.written() == json_text(r@),
{
    match s {
        Some(t) => Json::text(t.as_str()),
        None => Json::Null,
    }
}

/// A field in JSON.
pub open spec fn field_json(f: FieldInfo) -> JsonView {
    JsonView::Object(
        map![
            "key"@ => JsonView::Text(f.key),
            "label"@ => JsonView::Text(f.label),
            "secret"@ => JsonView::Bool(f.secret),
            "required"@ => JsonView::Bool(f.required),
            "placeholder"@ => text_or_null(f.placeholder),
            "default"@ => text_or_null(f.default),
            "set"@ => JsonView::Bool(f.set),
            "value"@ => text_or_null(f.value),
        ],
    )
}

/// A provider in JSON.
pub open spec fn provider_json(p: ProviderInfo) -> JsonView {
    JsonView::Object(
        map![
            "id"@ => JsonView::Text(p.id),
            "name"@ => JsonView::Text(p.name),
            "description"@ => JsonView::Text(p.description),
            "method"@ => JsonView::Text(p.method),
            "featured"@ => JsonView::Bool(p.featured),
            "docs_url"@ => text_or_null(p.docs_url),
            "sign_in"@ => JsonView::Bool(p.sign_in),
            "fields"@ => JsonView::Array(p.fields.map_values(|f: FieldInfo| field_json(f))),
            "configured"@ => JsonView::Bool(p.configured),
            "default_model"@ => JsonView::Text(p.default_model),
            "models"@ => JsonView::Array(p.models.map_values(|m: Seq<char>| JsonView::Text(m))),
        ],
    )
}

/// What a field consists of as it goes out, in order.
pub open spec fn field_parts(f: FieldInfo) -> Seq<(Seq<char>, Seq<char>)> {
    seq![
        ("key"@, json_text(JsonView::Text(f.key))),
        ("label"@, json_text(JsonView::Text(f.label))),
        ("secret"@, json_text(JsonView::Bool(f.secret))),
        ("required"@, json_text(JsonView::Bool(f.required))),
        ("placeholder"@, json_text(text_or_null(f.placeholder))),
        ("default"@, json_text(text_or_null(f.default))),
        ("set"@, json_text(JsonView::Bool(f.set))),
        ("value"@, json_text(text_or_null(f.value))),
    ]
}

/// What a provider consists of as it goes out on its own, in order.
pub open spec fn provider_parts(p: ProviderInfo) -> Seq<(Seq<char>, Seq<char>)> {
    seq![
        ("id"@, json_text(JsonView::Text(p.id))),
        ("name"@, json_text(JsonView::Text(p.name))),
        ("description"@, json_text(JsonView::Text(p.description))),
        ("method"@, json_text(JsonView::Text(p.method))),
        ("featured"@, json_text(JsonView::Bool(p.featured))),
        ("docs_url"@, json_text(text_or_null(p.docs_url))),
        ("sign_in"@, json_text(JsonView::Bool(p.sign_in))),
        ("fields"@, list_text(p.fields.map_values(|f: FieldInfo| object_text(field_parts(f))))),
        ("configured"@, json_text(JsonView::Bool(p.configured))),
        ("default_model"@, json_text(JsonView::Text(p.default_model))),
        (
            "models"@,
            list_text(p.models.map_values(|m: Seq<char>| json_text(JsonView::Text(m)))),
        ),
    ]
}

fn field_object(f: &FieldView) -> (r: Json)
    ensures
        r@ == field_json(f@),
        r.written() == object_text(field_parts(f@)),
{
    let object = JsonObject::new().with("key", Json::text(f.key.as_str())).with(
        "label",
        Json::text(f.label.as_str()),
    ).with("secret", Json::Bool(f.secret)).with("required", Json::Bool(f.required)).with(
        "placeholder",
        text_value(&f.placeholder),
    ).with("default", text_value(&f.default)).with("set", Json::Bool(f.set)).with(
        "value",
        text_value(&f.value),
    );
    assert(object.parts() =~= field_parts(f@));
    Json::object(object)
}

fn fields_value(fields: &Vec<FieldView>) -> (r: Json)
    ensures
        r@ == JsonView::Array(
            field_infos(fields@).map_values(|f: FieldInfo| field_json(f)),
        ),
        r.written() == list_text(
            field_infos(fields@).map_values(|f: FieldInfo| object_text(field_parts(f))),
        ),
{
    let ghost as_text = |f: FieldInfo| object_text(field_parts(f));
    let ghost all = field_infos(fields@).map_values(|f: FieldInfo| field_json(f));
    let ghost all_texts = field_infos(fields@).map_values(as_text);
    let mut items: Vec<Json> = Vec::new();
    assert(json_views(items@) =~= all.take(0));
    assert(json_texts(items@) =~= all_texts.take(0));
    for i in 0..fields.len()
        invariant
            as_text == (|f: FieldInfo| object_text(field_parts(f))),
            all == field_infos(fields@).map_values(|f: FieldInfo| field_json(f)),
            all_texts == field_infos(fields@).map_values(as_text),
            json_views(items@) == all.take(i as int),
            json_texts(items@) == all_texts.take(i as int),
    {
        let ghost before = json_views(items@);
        let ghost texts_before = json_texts(items@);
        items.push(field_object(&fields[i]));
        assert(json_views(items@) =~= before.push(field_json(fields@[i as int]@)));
        assert(json_texts(items@) =~= texts_before.push(as_text(fields@[i as int]@)));
        assert(json_views(items@) =~= all.take(i + 1));
        assert(json_texts(items@) =~= all_texts.take(i + 1));
    }
    assert(all.take(all.len() as int) =~= all);
    assert(all_texts.take(all_texts.len() as int) =~= all_texts);
    Json::array(items)
}

fn names_value(names: &Vec<String>) -> (r: Json)
    ensures
        r@ == JsonView::Array(texts(names@).map_values(|m: Seq<char>| JsonView::Text(m))),
        r.written() == list_text(
            texts(names@).map_values(|m: Seq<char>| json_text(JsonView::Text(m))),
        ),
{
    let ghost as_text = |m: Seq<char>| json_text(JsonView::Text(m));
    let ghost all = texts(names@).map_values(|m: Seq<char>| JsonView::Text(m));
    let ghost all_texts = texts(names@).map_values(as_text);
    let mut items: Vec<Json> = Vec::new();
    assert(json_views(items@) =~= all.take(0));
    assert(json_texts(items@) =~= all_texts.take(0));
    for i in 0..names.len()
        invariant
            as_text == (|m: Seq<char>| json_text(JsonView::Text(m))),
            all == texts(names@).map_values(|m: Seq<char>| JsonView::Text(m)),
            all_texts == texts(names@).map_values(as_text),
            json_views(items@) == all.take(i as int),
            json_texts(items@) == all_texts.take(i as int),
    {
        let ghost before = json_views(items@);
        let ghost texts_before = json_texts(items@);
        items.push(Json::text(names[i].as_str()));
        assert(json_views(items@) =~= before.push(JsonView::Text(names@[i as int]@)));
        assert(json_texts(items@) =~= texts_before.push(as_text(names@[i as int]@)));
        assert(json_views(items@) =~= all.take(i + 1));
        assert(json_texts(items@) =~= all_texts.take(i + 1));
    }
    assert(all.take(all.len() as int) =~= all);
    assert(all_texts.take(all_texts.len() as int) =~= all_texts);
    Json::array(items)
}

impl ProviderView {
    /// The provider in JSON.
    pub fn to_json(&self) -> (r: Json)
        ensures
            r@ == provider_json(self@),
            r.written() == object_text(provider_parts(self@)),
    {
        let object = JsonObject::new().with("id", Json::text(self.id.as_str())).with(
            "name",
            Json::text(self.name.as_str()),
        ).with("description", Json::text(self.description.as_str())).with(
            "method",
            Json::text(self.method.as_str()),
        ).with("featured", Json::Bool(self.featured)).with(
            "docs_url",
            text_value(&self.docs_url),
        ).with("sign_in", Json::Bool(self.sign_in)).with(
            "fields",
            fields_value(&self.fields),
        ).with("configured", Json::Bool(self.configured)).with(
            "default_model",
            Json::text(self.default_model.as_str()),
        ).with("models", names_value(&self.models));
        assert(object.parts() =~= provider_parts(self@));
        Json::object(object)
    }
}

/// The key that providers are sorted by: the name, whatever its letter case.
pub open spec fn sort_key(p: ProviderInfo) -> Seq<char> {
    lowercase(p.name)
}

/// A provider in its place among sorted ones, behind those with the same key.
pub open spec fn placed(sorted: Seq<ProviderInfo>, p: ProviderInfo) -> Seq<ProviderInfo>
    decreases sorted.len(),
{
    if sorted.len() > 0 && comes_before(sort_key(p), sort_key(sorted.last())) {
        placed(sorted.drop_last(), p).push(sorted.last())
    } else {
        sorted.push(p)
    }
}

/// Providers sorted by name. Those with the same key keep their order.
pub open spec fn by_name(all: Seq<ProviderInfo>) -> Seq<ProviderInfo>
    decreases all.len(),
{
    if all.len() == 0 {
        Seq::empty()
    } else {
        placed(by_name(all.drop_last()), all.last())
    }
}

/// Providers, each taken by its view.
pub open spec fn provider_infos(all: Seq<ProviderView>) -> Seq<ProviderInfo> {
    all.map_values(|p: ProviderView| p@)
}

fn place(sorted: &mut Vec<ProviderView>, p: ProviderView)
    ensures
        provider_infos(final(sorted)@) == placed(provider_infos(old(sorted)@), p@),
{
    let key = to_lowercase(p.name.as_str());
    let ghost all = provider_infos(sorted@);
    let mut at: usize = sorted.len();
    assert(all.take(at as int) =~= all);
    assert(placed(all.take(at as int), p@) + all.skip(at as int) =~= placed(all, p@));
    while at > 0 && is_before(
        key.as_str(),
        to_lowercase(sorted[at - 1].name.as_str()).as_str(),
    )
        invariant
            at <= sorted@.len(),
            *sorted == *old(sorted),
            all == provider_infos(sorted@),
            key@ == sort_key(p@),
            placed(all, p@) == placed(all.take(at as int), p@) + all.skip(at as int),
        decreases at,
    {
        let ghost head = all.take(at as int);
        assert(head.last() == sorted@[at - 1]@);
        assert(head.drop_last() =~= all.take(at - 1));
        assert(placed(head, p@) == placed(all.take(at - 1), p@).push(head.last()));
        assert(placed(all.take(at - 1), p@).push(head.last()) + all.skip(at as int) =~= placed(
            all.take(at - 1),
            p@,
        ) + all.skip(at - 1));
        at -= 1;
    }
    let ghost head = all.take(at as int);
    assert(at > 0 ==> head.last() == sorted@[at - 1]@);
    assert(placed(head, p@) == head.push(p@));
    sorted.insert(at, p);
    assert(provider_infos(sorted@) =~= head.push(p@) + all.skip(at as int));
}

/// The list of providers.
pub open spec fn list_json(all: Seq<ProviderInfo>) -> JsonView {
    JsonView::Object(
        map![
            "providers"@ => JsonView::Array(
                by_name(all).map_values(|p: ProviderInfo| provider_json(p)),
            ),
        ],
    )
}

/// The answer to a question after the providers: all of them, by name.
pub fn list(providers: Vec<ProviderView>) -> (r: Reply)
    ensures
        r@ == success(list_json(provider_infos(providers@))),
{
    let ghost all = provider_infos(providers@);
    let mut sorted: Vec<ProviderView> = Vec::new();
    assert(provider_infos(sorted@) =~= by_name(all.take(0)));
    for p in it: providers
        invariant
            it.seq() == providers@,
            all == provider_infos(providers@),
            provider_infos(sorted@) == by_name(all.take(it.index())),
    {
        assert(all.take(it.index() + 1).drop_last() =~= all.take(it.index()));
        assert(all.take(it.index() + 1).last() == p@);
        place(&mut sorted, p);
    }
    assert(all.take(all.len() as int) =~= all);
    let ghost parts = by_name(all).map_values(|p: ProviderInfo| provider_json(p));
    let mut items: Vec<Json> = Vec::new();
    assert(json_views(items@) =~= parts.take(0));
    for i in 0..sorted.len()
        invariant
            parts == provider_infos(sorted@).map_values(|p: ProviderInfo| provider_json(p)),
            json_views(items@) == parts.take(i as int),
    {
        let ghost before = json_views(items@);
        items.push(sorted[i].to_json());
        assert(json_views(items@) =~= before.push(provider_json(sorted@[i as int]@)));
        assert(json_views(items@) =~= parts.take(i + 1));
    }
    assert(parts.take(parts.len() as int) =~= parts);
    answer(Json::Object(JsonObject::new().with("providers", Json::array(items))))
}

/// No provider comes before one that is ahead of it.
pub open spec fn in_order(all: Seq<ProviderInfo>) -> bool {
    forall|i: int, j: int|
        0 <= i < j < all.len() ==> !comes_before(
            sort_key(#[trigger] all[j]),
            sort_key(#[trigger] all[i]),
        )
}

proof fn lemma_placed(sorted: Seq<ProviderInfo>, p: ProviderInfo)
    requires
        in_order(sorted),
    ensures
        in_order(placed(sorted, p)),
        placed(sorted, p).len() == sorted.len() + 1,
        forall|i: int|
            0 <= i < placed(sorted, p).len() ==> #[trigger] placed(sorted, p)[i] == p
                || sorted.contains(placed(sorted, p)[i]),
    decreases sorted.len(),
{
    let after = placed(sorted, p);
    if sorted.len() > 0 && comes_before(sort_key(p), sort_key(sorted.last())) {
        let rest = sorted.drop_last();
        lemma_placed(rest, p);
        let before = placed(rest, p);
        lemma_before_asymmetric(sort_key(p), sort_key(sorted.last()));
        assert forall|i: int, j: int| 0 <= i < j < after.len() implies !comes_before(
            sort_key(#[trigger] after[j]),
            sort_key(#[trigger] after[i]),
        ) by {
            assert(after[i] == before[i]);
            if j < before.len() {
                assert(after[j] == before[j]);
            } else {
                if before[i] != p {
                    let k = choose|k: int| 0 <= k < rest.len() && rest[k] == before[i];
                    assert(sorted[k] == after[i]);
                    assert(sorted[sorted.len() - 1] == after[j]);
                }
            }
        }
        assert forall|i: int| 0 <= i < after.len() implies #[trigger] after[i] == p
            || sorted.contains(after[i]) by {
            if i < before.len() {
                assert(after[i] == before[i]);
                if before[i] != p {
                    let k = choose|k: int| 0 <= k < rest.len() && rest[k] == before[i];
                    assert(sorted[k] == after[i]);
                }
            } else {
                assert(sorted[sorted.len() - 1] == after[i]);
            }
        }
    } else {
        assert forall|i: int, j: int| 0 <= i < j < after.len() implies !comes_before(
            sort_key(#[trigger] after[j]),
            sort_key(#[trigger] after[i]),
        ) by {
            assert(after[i] == sorted[i]);
            if j == sorted.len() {
                if comes_before(sort_key(p), sort_key(sorted[i])) {
                    let last = sorted[sorted.len() - 1];
                    lemma_before_either(sort_key(p), sort_key(last), sort_key(sorted[i]));
                    assert(i < sorted.len() - 1);
                    assert(false);
                }
            } else {
                assert(after[j] == sorted[j]);
            }
        }
        assert forall|i: int| 0 <= i < after.len() implies #[trigger] after[i] == p
            || sorted.contains(after[i]) by {
            if i < sorted.len() {
                assert(sorted[i] == after[i]);
            }
        }
    }
}

proof fn lemma_placed_keeps(sorted: Seq<ProviderInfo>, p: ProviderInfo, key: Seq<char>)
    ensures
        placed(sorted, p).filter(|x: ProviderInfo| sort_key(x) == key) == sorted.push(p).filter(
            |x: ProviderInfo| sort_key(x) == key,
        ),
    decreases sorted.len(),
{
    let same_key = |x: ProviderInfo| sort_key(x) == key;
    if sorted.len() > 0 && comes_before(sort_key(p), sort_key(sorted.last())) {
        let rest = sorted.drop_last();
        let last = sorted.last();
        lemma_placed_keeps(rest, p, key);
        lemma_before_asymmetric(sort_key(p), sort_key(last));
        lemma_filter_push(placed(rest, p), last, same_key);
        lemma_filter_push(rest, p, same_key);
        assert(rest.push(last) =~= sorted);
        lemma_filter_push(rest, last, same_key);
        lemma_filter_push(sorted, p, same_key);
    }
}

/// Exactly the providers that answer chats are listed. Those that run their own tools are left out.
pub proof fn only_chat_providers_are_listed(entries: Seq<SetupEntry>, id: Seq<char>)
    ensures
        chat_ids(entries).contains(id) == answers_chats(entries, id),
    decreases entries.len(),
{
    let chats = |e: SetupEntry| e.category is Model;
    if entries.len() > 0 {
        let rest = entries.drop_last();
        let last = entries.last();
        only_chat_providers_are_listed(rest, id);
        assert(rest.push(last) =~= entries);
        lemma_filter_push(rest, last, chats);
        let before = chat_ids(rest);
        let after = chat_ids(entries);
        if last.category is Model {
            assert(after =~= before.push(last.provider_id@));
            if before.contains(id) {
                let k = choose|k: int| 0 <= k < before.len() && before[k] == id;
                assert(after[k] == id);
            }
            if last.provider_id@ == id {
                assert(after[after.len() - 1] == id);
                assert(entries[entries.len() - 1] == last);
            }
        } else {
            assert(after =~= before);
        }
        if answers_chats(rest, id) {
            let k = choose|k: int|
                0 <= k < rest.len() && (#[trigger] rest[k]).provider_id@ == id && rest[k].category is Model;
            assert(entries[k] == rest[k]);
        }
        if answers_chats(entries, id) {
            let k = choose|k: int|
                0 <= k < entries.len() && (#[trigger] entries[k]).provider_id@ == id
                    && entries[k].category is Model;
            if k < rest.len() {
                assert(rest[k] == entries[k]);
            }
        }
    } else {
        reveal(Seq::filter);
        assert(chat_ids(entries) =~= Seq::empty());
    }
}

/// Providers are listed by name, whatever its letter case.
pub proof fn providers_are_listed_by_name(all: Seq<ProviderInfo>)
    ensures
        in_order(by_name(all)),
        by_name(all).len() == all.len(),
    decreases all.len(),
{
    if all.len() > 0 {
        providers_are_listed_by_name(all.drop_last());
        lemma_placed(by_name(all.drop_last()), all.last());
    }
}

/// Listing loses no provider and adds none, and those with the same name keep their order.
pub proof fn listing_keeps_every_provider(all: Seq<ProviderInfo>, key: Seq<char>)
    ensures
        by_name(all).filter(|x: ProviderInfo| sort_key(x) == key) == all.filter(
            |x: ProviderInfo| sort_key(x) == key,
        ),
    decreases all.len(),
{
    let same_key = |x: ProviderInfo| sort_key(x) == key;
    if all.len() > 0 {
        let rest = all.drop_last();
        let p = all.last();
        listing_keeps_every_provider(rest, key);
        lemma_placed_keeps(by_name(rest), p, key);
        lemma_filter_push(by_name(rest), p, same_key);
        assert(rest.push(p) =~= all);
        lemma_filter_push(rest, p, same_key);
    }
}

/// Of a secret, clients learn whether it is set and nothing else: whatever value is stored beside it
/// does not show.
pub proof fn secret_values_are_never_returned(field: SetupField, a: Stored, b: Stored)
    requires
        field.secret,
        a.secret == b.secret,
    ensures
        field_info(field, a) == field_info(field, b),
        field_info(field, a).value is None,
        field_info(field, a).set == a.secret,
{
}

// ---------------------------------------------------------------------------
// Saving and removing settings
// ---------------------------------------------------------------------------

/// Settings to save.
#[derive(Debug)]
pub struct SaveRequest {
    /// Keys with their values. They may come in any order.
    pub fields: Vec<(String, String)>,
}

/// A change to what is stored.
#[derive(Debug)]
pub enum StoreOp {
    /// Set a setting that is no secret.
    SetParam(String, String),
    /// Set secrets.
    SetSecrets(Vec<(String, String)>),
    /// Delete a setting that is no secret.
    DeleteParam(String),
    /// Delete secrets.
    DeleteSecrets(Vec<String>),
    /// Delete what a sign-in left.
    CleanUp,
    /// Read the secrets anew from now on.
    RefreshSecrets,
    /// Drop the provider that is kept ready.
    Forget,
}

pub enum OpView {
    SetParam(Seq<char>, Seq<char>),
    SetSecrets(Seq<(Seq<char>, Seq<char>)>),
    DeleteParam(Seq<char>),
    DeleteSecrets(Seq<Seq<char>>),
    CleanUp,
    RefreshSecrets,
    Forget,
}

/// Keys with values.
pub open spec fn pairs(all: Seq<(String, String)>) -> Seq<(Seq<char>, Seq<char>)> {
    Seq::new(all.len(), |i: int| (all[i].0@, all[i].1@))
}

impl View for StoreOp {
    type V = OpView;

    open spec fn view(&self) -> OpView {
        match *self {
            StoreOp::SetParam(k, v) => OpView::SetParam(k@, v@),
            StoreOp::SetSecrets(all) => OpView::SetSecrets(pairs(all@)),
            StoreOp::DeleteParam(k) => OpView::DeleteParam(k@),
            StoreOp::DeleteSecrets(all) => OpView::DeleteSecrets(texts(all@)),
            StoreOp::CleanUp => OpView::CleanUp,
            StoreOp::RefreshSecrets => OpView::RefreshSecrets,
            StoreOp::Forget => OpView::Forget,
        }
    }
}

/// Changes, each taken by its view.
pub open spec fn ops_view(all: Seq<StoreOp>) -> Seq<OpView> {
    all.map_values(|o: StoreOp| o@)
}

/// A provider declares a setting.
pub open spec fn declares(keys: Seq<ConfigKey>, name: Seq<char>) -> bool {
    exists|i: int| 0 <= i < keys.len() && (#[trigger] keys[i]).name@ == name
}

/// `i` is the first declaration of a setting.
pub open spec fn declared_at(keys: Seq<ConfigKey>, name: Seq<char>, i: int) -> bool {
    &&& 0 <= i < keys.len()
    &&& keys[i].name@ == name
    &&& forall|j: int| 0 <= j < i ==> (#[trigger] keys[j]).name@ != name
}

/// Whether a declared setting is a secret, by its first declaration.
pub open spec fn is_secret(keys: Seq<ConfigKey>, name: Seq<char>) -> bool {
    keys[choose|i: int| declared_at(keys, name, i)].secret
}

/// Settings sorted by where they are stored.
pub struct SavePlan {
    pub params: Seq<(Seq<char>, Seq<char>)>,
    pub secrets: Seq<(Seq<char>, Seq<char>)>,
}

/// The refusal of a setting that the provider does not declare.
pub open spec fn no_such_setting(id: Seq<char>, key: Seq<char>) -> ReplyView {
    failure(BAD_REQUEST, id + " has no setting called "@ + key, "invalid_request_error"@)
}

/// The refusal of a blank value.
pub open spec fn blank_setting(key: Seq<char>) -> ReplyView {
    failure(
        BAD_REQUEST,
        key + " cannot be empty; remove the provider's settings instead"@,
        "invalid_request_error"@,
    )
}

/// One setting more.
pub open spec fn with_setting(
    plan: SavePlan,
    id: Seq<char>,
    keys: Seq<ConfigKey>,
    key: Seq<char>,
    value: Seq<char>,
) -> Result<SavePlan, ReplyView> {
    if !declares(keys, key) {
        Err(no_such_setting(id, key))
    } else if trimmed(value).len() == 0 {
        Err(blank_setting(key))
    } else if is_secret(keys, key) {
        Ok(SavePlan { params: plan.params, secrets: plan.secrets.push((key, trimmed(value))) })
    } else {
        Ok(SavePlan { params: plan.params.push((key, trimmed(value))), secrets: plan.secrets })
    }
}

/// What saving settings comes to. The first setting that cannot be saved refuses them all.
pub open spec fn save_plan(
    id: Seq<char>,
    keys: Seq<ConfigKey>,
    fields: Seq<(Seq<char>, Seq<char>)>,
) -> Result<SavePlan, ReplyView>
    decreases fields.len(),
{
    if fields.len() == 0 {
        Ok(SavePlan { params: Seq::empty(), secrets: Seq::empty() })
    } else {
        match save_plan(id, keys, fields.drop_last()) {
            Err(reply) => Err(reply),
            Ok(plan) => with_setting(plan, id, keys, fields.last().0, fields.last().1),
        }
    }
}

/// The changes that save settings: each that is no secret, then the secrets at once.
pub open spec fn save_ops(plan: SavePlan) -> Seq<OpView> {
    plan.params.map_values(|p: (Seq<char>, Seq<char>)| OpView::SetParam(p.0, p.1)) + seq![
        OpView::SetSecrets(plan.secrets),
        OpView::RefreshSecrets,
        OpView::Forget,
    ]
}

/// The first declaration of a setting.
fn find_key(keys: &Vec<ConfigKey>, name: &str) -> (r: Option<usize>)
    ensures
        r matches Some(i) ==> declared_at(keys@, name@, i as int) && keys@[i as int].secret
            == is_secret(keys@, name@),
        r is Some == declares(keys@, name@),
{
    for i in 0..keys.len()
        invariant
            forall|j: int| 0 <= j < i ==> (#[trigger] keys@[j]).name@ != name@,
    {
        if same(keys[i].name.as_str(), name) {
            proof {
                let k = choose|k: int| declared_at(keys@, name@, k);
                assert(declared_at(keys@, name@, i as int));
                assert(k == i);
            }
            return Some(i);
        }
    }
    None
}

/// What saving settings comes to, given what the provider declares where there is such a provider:
/// the changes to make, in order, or the refusal. Nothing is stored where a setting is refused.
pub fn save(
    id: &str,
    declared: Option<&Vec<ConfigKey>>,
    req: SaveRequest,
) -> (r: Result<Vec<StoreOp>, Reply>)
    ensures
        match declared {
            None => r matches Err(e) && e@ == unknown_reply(id@),
            Some(keys) => match save_plan(id@, keys@, pairs(req.fields@)) {
                Ok(plan) => r matches Ok(ops) && ops_view(ops@) == save_ops(plan),
                Err(reply) => r matches Err(e) && e@ == reply,
            },
        },
{
    let keys = match declared {
        Some(keys) => keys,
        None => return Err(unknown(id)),
    };
    let mut params: Vec<StoreOp> = Vec::new();
    let mut secrets: Vec<(String, String)> = Vec::new();
    let fields = req.fields;
    let ghost all = pairs(fields@);
    let ghost as_op = |p: (Seq<char>, Seq<char>)| OpView::SetParam(p.0, p.1);
    let ghost mut plan = SavePlan { params: Seq::empty(), secrets: Seq::empty() };
    assert(ops_view(params@) =~= plan.params.map_values(as_op));
    assert(pairs(secrets@) =~= plan.secrets);
    for field in it: fields
        invariant
            it.seq() == fields@,
            fields == req.fields,
            declared == Some(keys),
            all == pairs(fields@),
            as_op == (|p: (Seq<char>, Seq<char>)| OpView::SetParam(p.0, p.1)),
            save_plan(id@, keys@, all.take(it.index())) == Ok::<SavePlan, ReplyView>(plan),
            ops_view(params@) == plan.params.map_values(as_op),
            pairs(secrets@) == plan.secrets,
    {
        let (key, value) = field;
        let ghost k = key@;
        let ghost v = value@;
        let ghost next = with_setting(plan, id@, keys@, k, v);
        let ghost params_before = ops_view(params@);
        let ghost secrets_before = pairs(secrets@);
        proof {
            assert(all[it.index()] == (k, v));
            assert(all.take(it.index() + 1).drop_last() =~= all.take(it.index()));
            assert(all.take(it.index() + 1).last() == (k, v));
            assert(save_plan(id@, keys@, all.take(it.index() + 1)) == next);
        }
        match find_key(keys, key.as_str()) {
            None => {
                let message = id.to_owned().concat(" has no setting called ").concat(key.as_str());
                proof {
                    lemma_refused_early(id@, keys@, all, it.index() + 1);
                }
                return Err(error(BAD_REQUEST, message.as_str(), "invalid_request_error"));
            },
            Some(i) => {
                let value = trim(value.as_str());
                if value.as_str().is_empty() {
                    let message = key.concat(
                        " cannot be empty; remove the provider's settings instead",
                    );
                    proof {
                        lemma_refused_early(id@, keys@, all, it.index() + 1);
                    }
                    return Err(error(BAD_REQUEST, message.as_str(), "invalid_request_error"));
                }
                proof {
                    plan = next->Ok_0;
                }
                if keys[i].secret {
                    secrets.push((key, value));
                    assert(pairs(secrets@) =~= secrets_before.push((k, trimmed(v))));
                } else {
                    params.push(StoreOp::SetParam(key, value));
                    assert(ops_view(params@) =~= params_before.push(as_op((k, trimmed(v)))));
                    assert(ops_view(params@) =~= plan.params.map_values(as_op));
                }
            },
        }
    }
    assert(all.take(all.len() as int) =~= all);
    let mut ops = params;
    let ghost before = ops_view(ops@);
    ops.push(StoreOp::SetSecrets(secrets));
    ops.push(StoreOp::RefreshSecrets);
    ops.push(StoreOp::Forget);
    assert(ops_view(ops@) =~= save_ops(plan));
    Ok(ops)
}

/// A setting that cannot be saved refuses all, whatever follows it.
proof fn lemma_refused_early(
    id: Seq<char>,
    keys: Seq<ConfigKey>,
    fields: Seq<(Seq<char>, Seq<char>)>,
    n: int,
)
    requires
        0 <= n <= fields.len(),
        save_plan(id, keys, fields.take(n)) is Err,
    ensures
        save_plan(id, keys, fields) == save_plan(id, keys, fields.take(n)),
    decreases fields.len() - n,
{
    if n < fields.len() {
        assert(fields.take(n + 1).drop_last() =~= fields.take(n));
        lemma_refused_early(id, keys, fields, n + 1);
    } else {
        assert(fields.take(n) =~= fields);
    }
}

/// The names of the settings that are secrets, in order.
pub open spec fn secret_names(keys: Seq<ConfigKey>) -> Seq<Seq<char>> {
    keys.filter(|k: ConfigKey| k.secret).map_values(|k: ConfigKey| k.name@)
}

/// The names of the settings that are none, in order.
pub open spec fn param_names(keys: Seq<ConfigKey>) -> Seq<Seq<char>> {
    keys.filter(|k: ConfigKey| !k.secret).map_values(|k: ConfigKey| k.name@)
}

/// The changes that remove a provider's settings and sign-in.
pub open spec fn remove_ops(keys: Seq<ConfigKey>) -> Seq<OpView> {
    param_names(keys).map_values(|n: Seq<char>| OpView::DeleteParam(n)) + seq![
        OpView::DeleteSecrets(secret_names(keys)),
        OpView::CleanUp,
        OpView::RefreshSecrets,
        OpView::Forget,
    ]
}

/// The changes that remove a provider's settings and sign-in, in order, where there is such a
/// provider.
pub fn remove(id: &str, declared: Option<&Vec<ConfigKey>>) -> (r: Result<Vec<StoreOp>, Reply>)
    ensures
        match declared {
            None => r matches Err(e) && e@ == unknown_reply(id@),
            Some(keys) => r matches Ok(ops) && ops_view(ops@) == remove_ops(keys@),
        },
{
    let keys = match declared {
        Some(keys) => keys,
        None => return Err(unknown(id)),
    };
    let mut ops: Vec<StoreOp> = Vec::new();
    let mut secrets: Vec<String> = Vec::new();
    let ghost as_op = |n: Seq<char>| OpView::DeleteParam(n);
    proof {
        reveal(Seq::filter);
        assert(ops_view(ops@) =~= param_names(keys@.take(0)).map_values(as_op));
        assert(texts(secrets@) =~= secret_names(keys@.take(0)));
    }
    for i in 0..keys.len()
        invariant
            as_op == (|n: Seq<char>| OpView::DeleteParam(n)),
            ops_view(ops@) == param_names(keys@.take(i as int)).map_values(as_op),
            texts(secrets@) == secret_names(keys@.take(i as int)),
    {
        let ghost head = keys@.take(i as int);
        let ghost key = keys@[i as int];
        let ghost ops_before = ops_view(ops@);
        let ghost secrets_before = texts(secrets@);
        proof {
            assert(keys@.take(i + 1) =~= head.push(key));
            lemma_filter_push(head, key, |k: ConfigKey| k.secret);
            lemma_filter_push(head, key, |k: ConfigKey| !k.secret);
        }
        if keys[i].secret {
            secrets.push(keys[i].name.clone());
            assert(texts(secrets@) =~= secrets_before.push(key.name@));
            assert(secret_names(keys@.take(i + 1)) =~= secrets_before.push(key.name@));
        } else {
            ops.push(StoreOp::DeleteParam(keys[i].name.clone()));
            assert(ops_view(ops@) =~= ops_before.push(as_op(key.name@)));
            assert(param_names(keys@.take(i + 1)).map_values(as_op) =~= ops_before.push(
                as_op(key.name@),
            ));
        }
    }
    assert(keys@.take(keys@.len() as int) =~= keys@);
    ops.push(StoreOp::DeleteSecrets(secrets));
    ops.push(StoreOp::CleanUp);
    ops.push(StoreOp::RefreshSecrets);
    ops.push(StoreOp::Forget);
    assert(ops_view(ops@) =~= remove_ops(keys@));
    Ok(ops)
}

/// The answer to a request for a provider that there is not.
pub open spec fn unknown_reply(id: Seq<char>) -> ReplyView {
    failure(NOT_FOUND, "goose has no provider called "@ + id, "invalid_request_error"@)
}

/// The answer to a request for a provider that there is not.
pub fn unknown(id: &str) -> (r: Reply)
    ensures
        r@ == unknown_reply(id@),
{
    let message = "goose has no provider called ".to_owned().concat(id);
    error(NOT_FOUND, message.as_str(), "invalid_request_error")
}

/// The answer where what is stored could not be changed.
pub open spec fn storage_reply(e: Seq<char>) -> ReplyView {
    failure(
        INTERNAL_SERVER_ERROR,
        "could not update goose's configuration: "@ + e,
        "server_error"@,
    )
}

/// The answer where what is stored could not be changed.
pub fn storage_error(e: &str) -> (r: Reply)
    ensures
        r@ == storage_reply(e@),
{
    let message = "could not update goose's configuration: ".to_owned().concat(e);
    error(INTERNAL_SERVER_ERROR, message.as_str(), "server_error")
}

/// Changes on their way to the store.
#[derive(Debug)]
pub struct StoreRun {
    /// What is still to be done, the next change last.
    rest: Vec<StoreOp>,
}

/// What to do next with changes on their way to the store.
#[derive(Debug)]
pub enum StoreStep {
    /// Make this change and report back.
    Make(StoreOp),
    /// Answer with this. No more changes are to be made.
    Refuse(Reply),
    /// Every change has been made.
    Complete,
}

impl View for StoreRun {
    type V = Seq<OpView>;

    /// The changes still to be made, in order.
    closed spec fn view(&self) -> Seq<OpView> {
        ops_view(self.rest@).reverse()
    }
}

impl StoreRun {
    /// A run of changes.
    pub fn new(ops: Vec<StoreOp>) -> (r: Self)
        ensures
            r@ == ops_view(ops@),
    {
        let mut from = ops;
        let mut rest: Vec<StoreOp> = Vec::new();
        while from.len() > 0
            invariant
                from@.len() + rest@.len() == ops@.len(),
                from@ == ops@.take(from@.len() as int),
                forall|i: int|
                    0 <= i < rest@.len() ==> #[trigger] rest@[i] == ops@[ops@.len() - 1 - i],
            decreases from@.len(),
        {
            match from.pop() {
                Some(op) => {
                    rest.push(op);
                },
                None => {},
            }
        }
        let r = StoreRun { rest };
        assert(r@ =~= ops_view(ops@));
        r
    }

    /// The next step, given how the last change failed where it did.
    pub fn step(&mut self, failed: Option<String>) -> (r: StoreStep)
        ensures
            match failed {
                Some(e) => r matches StoreStep::Refuse(reply) && reply@ == storage_reply(e@)
                    && final(self)@ == Seq::<OpView>::empty(),
                None => if old(self)@.len() > 0 {
                    &&& r matches StoreStep::Make(op)
                    &&& op@ == old(self)@.first()
                    &&& final(self)@ == old(self)@.drop_first()
                } else {
                    r is Complete && final(self)@ == old(self)@
                },
            },
    {
        match failed {
            Some(e) => {
                self.rest = Vec::new();
                assert(self@ =~= Seq::<OpView>::empty());
                StoreStep::Refuse(storage_error(e.as_str()))
            },
            None => match self.rest.pop() {
                Some(op) => {
                    assert(self@ =~= old(self)@.drop_first());
                    StoreStep::Make(op)
                },
                None => StoreStep::Complete,
            },
        }
    }
}

/// The answer that shows a provider, where there is one.
pub fn respond_with_view(id: &str, view: Option<ProviderView>) -> (r: Reply)
    ensures
        r@ == match view {
            Some(v) => success_in_order(provider_json(v@), object_text(provider_parts(v@))),
            None => unknown_reply(id@),
        },
{
    match view {
        Some(v) => answer_in_order(v.to_json()),
        None => unknown(id),
    }
}

/// What is saved was declared, is not empty, and goes to the secrets exactly where it is declared a
/// secret.
pub proof fn settings_go_where_they_are_declared(
    id: Seq<char>,
    keys: Seq<ConfigKey>,
    fields: Seq<(Seq<char>, Seq<char>)>,
)
    requires
        save_plan(id, keys, fields) is Ok,
    ensures
        ({
            let plan = save_plan(id, keys, fields)->Ok_0;
            &&& forall|i: int|
                0 <= i < plan.params.len() ==> {
                    let p = #[trigger] plan.params[i];
                    declares(keys, p.0) && !is_secret(keys, p.0) && p.1.len() > 0
                }
            &&& forall|i: int|
                0 <= i < plan.secrets.len() ==> {
                    let p = #[trigger] plan.secrets[i];
                    declares(keys, p.0) && is_secret(keys, p.0) && p.1.len() > 0
                }
        }),
    decreases fields.len(),
{
    if fields.len() > 0 {
        settings_go_where_they_are_declared(id, keys, fields.drop_last());
    }
}

/// Where settings are saved, all of them are: each, trimmed, is among the parameters or the secrets.
pub proof fn saving_saves_every_setting(
    id: Seq<char>,
    keys: Seq<ConfigKey>,
    fields: Seq<(Seq<char>, Seq<char>)>,
)
    requires
        save_plan(id, keys, fields) is Ok,
    ensures
        ({
            let plan = save_plan(id, keys, fields)->Ok_0;
            &&& plan.params.len() + plan.secrets.len() == fields.len()
            &&& forall|i: int|
                0 <= i < fields.len() ==> {
                    let f = #[trigger] fields[i];
                    plan.params.contains((f.0, trimmed(f.1))) || plan.secrets.contains(
                        (f.0, trimmed(f.1)),
                    )
                }
        }),
    decreases fields.len(),
{
    if fields.len() > 0 {
        let rest = fields.drop_last();
        saving_saves_every_setting(id, keys, rest);
        let before = save_plan(id, keys, rest)->Ok_0;
        let plan = save_plan(id, keys, fields)->Ok_0;
        assert forall|i: int| 0 <= i < fields.len() implies {
            let f = #[trigger] fields[i];
            plan.params.contains((f.0, trimmed(f.1))) || plan.secrets.contains(
                (f.0, trimmed(f.1)),
            )
        } by {
            let f = fields[i];
            let saved = (f.0, trimmed(f.1));
            if i < rest.len() {
                assert(rest[i] == f);
                if before.params.contains(saved) {
                    let k = choose|k: int| 0 <= k < before.params.len() && before.params[k] == saved;
                    assert(plan.params[k] == saved);
                } else {
                    let k = choose|k: int|
                        0 <= k < before.secrets.len() && before.secrets[k] == saved;
                    assert(plan.secrets[k] == saved);
                }
            } else if is_secret(keys, f.0) {
                assert(plan.secrets[plan.secrets.len() - 1] == saved);
            } else {
                assert(plan.params[plan.params.len() - 1] == saved);
            }
        }
    }
}

/// No setting is named twice, as in a request that was read from a JSON object.
pub open spec fn named_once(fields: Seq<(Seq<char>, Seq<char>)>) -> bool {
    forall|i: int, j: int|
        0 <= i < j < fields.len() ==> (#[trigger] fields[i]).0 != (#[trigger] fields[j]).0
}

/// Picks out what stands under a key.
pub open spec fn under(key: Seq<char>) -> spec_fn((Seq<char>, Seq<char>)) -> bool {
    |p: (Seq<char>, Seq<char>)| p.0 == key
}

/// How often a key occurs.
pub open spec fn times(all: Seq<(Seq<char>, Seq<char>)>, key: Seq<char>) -> nat {
    all.filter(under(key)).len()
}

proof fn lemma_times_push(
    all: Seq<(Seq<char>, Seq<char>)>,
    p: (Seq<char>, Seq<char>),
    key: Seq<char>,
)
    ensures
        times(all.push(p), key) == times(all, key) + if p.0 == key {
            1nat
        } else {
            0nat
        },
{
    lemma_filter_push(all, p, under(key));
}

proof fn lemma_times(fields: Seq<(Seq<char>, Seq<char>)>, key: Seq<char>)
    requires
        named_once(fields),
    ensures
        times(fields, key) <= 1,
        times(fields, key) == 1 <==> exists|i: int|
            0 <= i < fields.len() && (#[trigger] fields[i]).0 == key,
    decreases fields.len(),
{
    if fields.len() == 0 {
        reveal(Seq::filter);
    } else {
        let rest = fields.drop_last();
        assert forall|i: int, j: int| 0 <= i < j < rest.len() implies (#[trigger] rest[i]).0 != (
        #[trigger] rest[j]).0 by {
            assert(rest[i] == fields[i] && rest[j] == fields[j]);
        }
        lemma_times(rest, key);
        assert(rest.push(fields.last()) =~= fields);
        lemma_times_push(rest, fields.last(), key);
        let n = fields.len() - 1;
        if fields[n].0 == key {
            assert forall|i: int| 0 <= i < rest.len() implies (#[trigger] rest[i]).0 != key by {
                assert(rest[i] == fields[i]);
            }
        } else if times(rest, key) == 1 {
            let i = choose|i: int| 0 <= i < rest.len() && (#[trigger] rest[i]).0 == key;
            assert(fields[i].0 == key);
        } else if exists|i: int| 0 <= i < fields.len() && (#[trigger] fields[i]).0 == key {
            let i = choose|i: int| 0 <= i < fields.len() && (#[trigger] fields[i]).0 == key;
            assert(rest[i].0 == key);
        }
    }
}

/// A key is saved as often as the request names it.
proof fn lemma_saved_as_often(
    id: Seq<char>,
    keys: Seq<ConfigKey>,
    fields: Seq<(Seq<char>, Seq<char>)>,
    key: Seq<char>,
)
    requires
        save_plan(id, keys, fields) is Ok,
    ensures
        ({
            let plan = save_plan(id, keys, fields)->Ok_0;
            times(plan.params, key) + times(plan.secrets, key) == times(fields, key)
        }),
    decreases fields.len(),
{
    if fields.len() == 0 {
        reveal(Seq::filter);
    } else {
        let rest = fields.drop_last();
        let last = fields.last();
        lemma_saved_as_often(id, keys, rest, key);
        let before = save_plan(id, keys, rest)->Ok_0;
        assert(rest.push(last) =~= fields);
        lemma_times_push(rest, last, key);
        lemma_times_push(before.params, (last.0, trimmed(last.1)), key);
        lemma_times_push(before.secrets, (last.0, trimmed(last.1)), key);
    }
}

/// Where no setting is named twice, each that is named is written exactly once, to the parameters or
/// to the secrets, and nothing else is written.
pub proof fn each_setting_is_written_once(
    id: Seq<char>,
    keys: Seq<ConfigKey>,
    fields: Seq<(Seq<char>, Seq<char>)>,
    key: Seq<char>,
)
    requires
        named_once(fields),
        save_plan(id, keys, fields) is Ok,
    ensures
        ({
            let plan = save_plan(id, keys, fields)->Ok_0;
            let named = exists|i: int| 0 <= i < fields.len() && (#[trigger] fields[i]).0 == key;
            times(plan.params, key) + times(plan.secrets, key) == if named {
                1nat
            } else {
                0nat
            }
        }),
{
    lemma_times(fields, key);
    lemma_saved_as_often(id, keys, fields, key);
}

/// Removing deletes every declared setting: each is among the parameters or the secrets.
pub proof fn removing_removes_every_setting(keys: Seq<ConfigKey>, i: int)
    requires
        0 <= i < keys.len(),
    ensures
        keys[i].secret ==> secret_names(keys).contains(keys[i].name@),
        !keys[i].secret ==> param_names(keys).contains(keys[i].name@),
        secret_names(keys).len() + param_names(keys).len() == keys.len(),
    decreases keys.len(),
{
    let rest = keys.drop_last();
    let key = keys.last();
    assert(rest.push(key) =~= keys);
    lemma_filter_push(rest, key, |k: ConfigKey| k.secret);
    lemma_filter_push(rest, key, |k: ConfigKey| !k.secret);
    lemma_names_len(rest);
    let last_secret = secret_names(keys).len() - 1;
    let last_param = param_names(keys).len() - 1;
    if i < rest.len() {
        removing_removes_every_setting(rest, i);
        let name = keys[i].name@;
        if keys[i].secret {
            let k = choose|k: int|
                0 <= k < secret_names(rest).len() && secret_names(rest)[k] == name;
            assert(secret_names(keys)[k] == name);
        } else {
            let k = choose|k: int| 0 <= k < param_names(rest).len() && param_names(rest)[k] == name;
            assert(param_names(keys)[k] == name);
        }
    } else if key.secret {
        assert(secret_names(keys)[last_secret] == key.name@);
    } else {
        assert(param_names(keys)[last_param] == key.name@);
    }
}

proof fn lemma_first_declaration(keys: Seq<ConfigKey>, name: Seq<char>)
    requires
        declares(keys, name),
    ensures
        exists|i: int| declared_at(keys, name, i),
    decreases keys.len(),
{
    let at = choose|i: int| 0 <= i < keys.len() && (#[trigger] keys[i]).name@ == name;
    let head = keys.take(at);
    if declares(head, name) {
        lemma_first_declaration(head, name);
        let i = choose|i: int| declared_at(head, name, i);
        assert(keys[i] == head[i]);
        assert forall|j: int| 0 <= j < i implies (#[trigger] keys[j]).name@ != name by {
            assert(keys[j] == head[j]);
        }
        assert(declared_at(keys, name, i));
    } else {
        assert forall|j: int| 0 <= j < at implies (#[trigger] keys[j]).name@ != name by {
            assert(head[j] == keys[j]);
        }
        assert(declared_at(keys, name, at));
    }
}

/// Removing a provider's settings clears whatever was saved, each setting from where it was stored,
/// and what a sign-in left.
pub proof fn removing_clears_what_was_saved(
    id: Seq<char>,
    keys: Seq<ConfigKey>,
    fields: Seq<(Seq<char>, Seq<char>)>,
)
    requires
        save_plan(id, keys, fields) is Ok,
    ensures
        ({
            let plan = save_plan(id, keys, fields)->Ok_0;
            &&& forall|i: int|
                0 <= i < plan.params.len() ==> param_names(keys).contains(
                    (#[trigger] plan.params[i]).0,
                )
            &&& forall|i: int|
                0 <= i < plan.secrets.len() ==> secret_names(keys).contains(
                    (#[trigger] plan.secrets[i]).0,
                )
            &&& remove_ops(keys).contains(OpView::DeleteSecrets(secret_names(keys)))
            &&& remove_ops(keys).contains(OpView::CleanUp)
        }),
{
    let plan = save_plan(id, keys, fields)->Ok_0;
    settings_go_where_they_are_declared(id, keys, fields);
    assert forall|i: int| 0 <= i < plan.params.len() implies param_names(keys).contains(
        (#[trigger] plan.params[i]).0,
    ) by {
        let name = plan.params[i].0;
        lemma_first_declaration(keys, name);
        removing_removes_every_setting(keys, choose|k: int| declared_at(keys, name, k));
    }
    assert forall|i: int| 0 <= i < plan.secrets.len() implies secret_names(keys).contains(
        (#[trigger] plan.secrets[i]).0,
    ) by {
        let name = plan.secrets[i].0;
        lemma_first_declaration(keys, name);
        removing_removes_every_setting(keys, choose|k: int| declared_at(keys, name, k));
    }
    let n = param_names(keys).len() as int;
    assert(remove_ops(keys)[n] == OpView::DeleteSecrets(secret_names(keys)));
    assert(remove_ops(keys)[n + 1] == OpView::CleanUp);
}

proof fn lemma_names_len(keys: Seq<ConfigKey>)
    ensures
        secret_names(keys).len() + param_names(keys).len() == keys.len(),
    decreases keys.len(),
{
    if keys.len() > 0 {
        let rest = keys.drop_last();
        lemma_names_len(rest);
        assert(rest.push(keys.last()) =~= keys);
        lemma_filter_push(rest, keys.last(), |k: ConfigKey| k.secret);
        lemma_filter_push(rest, keys.last(), |k: ConfigKey| !k.secret);
    } else {
        reveal(Seq::filter);
    }
}

// ---------------------------------------------------------------------------
// What clients read of a provider
// ---------------------------------------------------------------------------

proof fn lemma_field_keys_differ()
    ensures
        "key"@ != "label"@,
        "key"@ != "secret"@,
        "key"@ != "required"@,
        "key"@ != "placeholder"@,
        "key"@ != "default"@,
        "key"@ != "set"@,
        "key"@ != "value"@,
        "label"@ != "secret"@,
        "label"@ != "required"@,
        "label"@ != "placeholder"@,
        "label"@ != "default"@,
        "label"@ != "set"@,
        "label"@ != "value"@,
        "secret"@ != "required"@,
        "secret"@ != "placeholder"@,
        "secret"@ != "default"@,
        "secret"@ != "set"@,
        "secret"@ != "value"@,
        "required"@ != "placeholder"@,
        "required"@ != "default"@,
        "required"@ != "set"@,
        "required"@ != "value"@,
        "placeholder"@ != "default"@,
        "placeholder"@ != "set"@,
        "placeholder"@ != "value"@,
        "default"@ != "set"@,
        "default"@ != "value"@,
        "set"@ != "value"@,
{
    reveal_strlit("key");
    reveal_strlit("label");
    reveal_strlit("secret");
    reveal_strlit("required");
    reveal_strlit("placeholder");
    reveal_strlit("default");
    reveal_strlit("set");
    reveal_strlit("value");
    assert("key"@.len() == 3);
    assert("label"@.len() == 5);
    assert("secret"@.len() == 6);
    assert("required"@.len() == 8);
    assert("placeholder"@.len() == 11);
    assert("default"@.len() == 7);
    assert("set"@.len() == 3);
    assert("value"@.len() == 5);
    assert("key"@[0] == 'k' && "set"@[0] == 's');
    assert("label"@[0] == 'l' && "value"@[0] == 'v');
}

proof fn lemma_provider_keys_differ()
    ensures
        "id"@ != "name"@,
        "id"@ != "description"@,
        "id"@ != "method"@,
        "id"@ != "featured"@,
        "id"@ != "docs_url"@,
        "id"@ != "sign_in"@,
        "id"@ != "fields"@,
        "id"@ != "configured"@,
        "id"@ != "default_model"@,
        "id"@ != "models"@,
        "name"@ != "description"@,
        "name"@ != "method"@,
        "name"@ != "featured"@,
        "name"@ != "docs_url"@,
        "name"@ != "sign_in"@,
        "name"@ != "fields"@,
        "name"@ != "configured"@,
        "name"@ != "default_model"@,
        "name"@ != "models"@,
        "description"@ != "method"@,
        "description"@ != "featured"@,
        "description"@ != "docs_url"@,
        "description"@ != "sign_in"@,
        "description"@ != "fields"@,
        "description"@ != "configured"@,
        "description"@ != "default_model"@,
        "description"@ != "models"@,
        "method"@ != "featured"@,
        "method"@ != "docs_url"@,
        "method"@ != "sign_in"@,
        "method"@ != "fields"@,
        "method"@ != "configured"@,
        "method"@ != "default_model"@,
        "method"@ != "models"@,
        "featured"@ != "docs_url"@,
        "featured"@ != "sign_in"@,
        "featured"@ != "fields"@,
        "featured"@ != "configured"@,
        "featured"@ != "default_model"@,
        "featured"@ != "models"@,
        "docs_url"@ != "sign_in"@,
        "docs_url"@ != "fields"@,
        "docs_url"@ != "configured"@,
        "docs_url"@ != "default_model"@,
        "docs_url"@ != "models"@,
        "sign_in"@ != "fields"@,
        "sign_in"@ != "configured"@,
        "sign_in"@ != "default_model"@,
        "sign_in"@ != "models"@,
        "fields"@ != "configured"@,
        "fields"@ != "default_model"@,
        "fields"@ != "models"@,
        "configured"@ != "default_model"@,
        "configured"@ != "models"@,
        "default_model"@ != "models"@,
{
    reveal_strlit("id");
    reveal_strlit("name");
    reveal_strlit("description");
    reveal_strlit("method");
    reveal_strlit("featured");
    reveal_strlit("docs_url");
    reveal_strlit("sign_in");
    reveal_strlit("fields");
    reveal_strlit("configured");
    reveal_strlit("default_model");
    reveal_strlit("models");
    assert("id"@.len() == 2);
    assert("name"@.len() == 4);
    assert("description"@.len() == 11);
    assert("method"@.len() == 6);
    assert("featured"@.len() == 8);
    assert("docs_url"@.len() == 8);
    assert("sign_in"@.len() == 7);
    assert("fields"@.len() == 6);
    assert("configured"@.len() == 10);
    assert("default_model"@.len() == 13);
    assert("models"@.len() == 6);
    assert("method"@[0] == 'm' && "fields"@[0] == 'f');
    assert("method"@[1] == 'e' && "models"@[1] == 'o');
    assert("featured"@[0] == 'f' && "docs_url"@[0] == 'd');
    assert("fields"@[0] == 'f' && "models"@[0] == 'm');
}

/// A value says a text under a key, or null where there is none.
pub open spec fn says_if_any(value: JsonView, key: Seq<char>, text: Option<String>) -> bool {
    match text {
        Some(t) => says_text(value, key, t@),
        None => says(value, key, JsonView::Null),
    }
}

/// A provider is shown as its catalog entry and its metadata have it, and as a client reads it under
/// the keys of its JSON. It is shown as signed in to exactly where one of the settings that it
/// declares is filled by a sign-in.
pub proof fn a_provider_is_shown_as_it_is(
    entry: SetupEntry,
    metadata: Metadata,
    stored: Seq<Stored>,
    configured: bool,
)
    ensures
        ({
            let keys = metadata.config_keys@;
            let signs = exists|i: int| 0 <= i < keys.len() && (#[trigger] keys[i]).oauth_flow;
            let value = provider_json(provider_info(entry, metadata, stored, configured));
            &&& provider_info(entry, metadata, stored, configured).sign_in == signs
            &&& has_just(
                value,
                set![
                    "id"@,
                    "name"@,
                    "description"@,
                    "method"@,
                    "featured"@,
                    "docs_url"@,
                    "sign_in"@,
                    "fields"@,
                    "configured"@,
                    "default_model"@,
                    "models"@,
                ],
            )
            &&& says(value, "sign_in"@, JsonView::Bool(signs))
            &&& says_text(value, "id"@, entry.provider_id@)
            &&& says_text(value, "name"@, entry.display_name@)
            &&& says_text(value, "description"@, entry.description@)
            &&& says_text(value, "method"@, entry.setup_method@)
            &&& says(value, "featured"@, JsonView::Bool(entry.group is Default))
            &&& says_if_any(value, "docs_url"@, entry.docs_url)
            &&& says(value, "configured"@, JsonView::Bool(configured))
            &&& says_text(value, "default_model"@, metadata.default_model@)
        }),
{
    lemma_provider_keys_differ();
}

/// The models and the fields of a provider are shown one by one, in order.
pub proof fn models_and_fields_are_shown_in_order(
    entry: SetupEntry,
    metadata: Metadata,
    stored: Seq<Stored>,
    configured: bool,
    i: int,
)
    ensures
        ({
            let value = provider_json(provider_info(entry, metadata, stored, configured));
            let models = value->Object_0["models"@];
            let fields = value->Object_0["fields"@];
            &&& value->Object_0.dom().contains("models"@)
            &&& models is Array
            &&& models->Array_0.len() == metadata.known_models@.len()
            &&& 0 <= i < metadata.known_models@.len() ==> models->Array_0[i] == JsonView::Text(
                metadata.known_models@[i]@,
            )
            &&& value->Object_0.dom().contains("fields"@)
            &&& fields is Array
            &&& fields->Array_0.len() == entry.fields@.len()
            &&& 0 <= i < entry.fields@.len() ==> fields->Array_0[i] == field_json(
                field_info(entry.fields@[i], stored[i]),
            )
        }),
{
    lemma_provider_keys_differ();
}

/// A field is shown as the catalog has it, and as a client reads it under the keys of its JSON. Of a
/// secret nothing is shown but whether there is one.
pub proof fn a_field_is_shown_as_it_is(field: SetupField, stored: Stored)
    ensures
        ({
            let value = field_json(field_info(field, stored));
            &&& has_just(
                value,
                set![
                    "key"@,
                    "label"@,
                    "secret"@,
                    "required"@,
                    "placeholder"@,
                    "default"@,
                    "set"@,
                    "value"@,
                ],
            )
            &&& says_text(value, "key"@, field.key@)
            &&& says_text(value, "label"@, field.label@)
            &&& says(value, "secret"@, JsonView::Bool(field.secret))
            &&& says(value, "required"@, JsonView::Bool(field.required))
            &&& says_if_any(value, "placeholder"@, field.placeholder)
            &&& says_if_any(value, "default"@, field.default_value)
            &&& field.secret ==> says(value, "set"@, JsonView::Bool(stored.secret)) && says(
                value,
                "value"@,
                JsonView::Null,
            )
        }),
{
    lemma_field_keys_differ();
}

/// The value of a field that is no secret is shown: a text as it stands and any other value as JSON.
/// There is none where nothing is stored, or null, or an empty text.
pub proof fn a_stored_value_is_shown(field: SetupField, stored: Stored)
    requires
        !field.secret,
    ensures
        ({
            let value = field_json(field_info(field, stored));
            let there = match stored.value {
                None => None,
                Some(v) => if v@ is Null || v@ == JsonView::Text(Seq::empty()) {
                    None
                } else if v@ is Text {
                    Some(v@->Text_0)
                } else {
                    Some(json_text(v@))
                },
            };
            match there {
                Some(text) => says(value, "set"@, JsonView::Bool(true)) && says_text(
                    value,
                    "value"@,
                    text,
                ),
                None => says(value, "set"@, JsonView::Bool(false)) && says(
                    value,
                    "value"@,
                    JsonView::Null,
                ),
            }
        }),
{
    lemma_field_keys_differ();
    if let Some(v) = stored.value {
        if v@ is Text && v@->Text_0.len() == 0 {
            assert(v@->Text_0 =~= Seq::empty());
        }
    }
}

/// A provider that goes out on its own has the members of its JSON in this order, each once.
pub proof fn a_provider_goes_out_in_order(p: ProviderInfo)
    ensures
        ({
            let value = provider_json(p)->Object_0;
            let parts = provider_parts(p);
            &&& parts.len() == 11
            &&& parts[0] == ("id"@, json_text(value["id"@]))
            &&& parts[1] == ("name"@, json_text(value["name"@]))
            &&& parts[2] == ("description"@, json_text(value["description"@]))
            &&& parts[3] == ("method"@, json_text(value["method"@]))
            &&& parts[4] == ("featured"@, json_text(value["featured"@]))
            &&& parts[5] == ("docs_url"@, json_text(value["docs_url"@]))
            &&& parts[6] == ("sign_in"@, json_text(value["sign_in"@]))
            &&& parts[7] == (
                "fields"@,
                list_text(
                    Seq::new(p.fields.len(), |i: int| object_text(field_parts(p.fields[i]))),
                ),
            )
            &&& parts[8] == ("configured"@, json_text(value["configured"@]))
            &&& parts[9] == ("default_model"@, json_text(value["default_model"@]))
            &&& parts[10] == (
                "models"@,
                list_text(
                    Seq::new(p.models.len(), |i: int| json_text(JsonView::Text(p.models[i]))),
                ),
            )
        }),
{
    lemma_provider_keys_differ();
    let fields = p.fields.map_values(|f: FieldInfo| object_text(field_parts(f)));
    let models = p.models.map_values(|m: Seq<char>| json_text(JsonView::Text(m)));
    assert(fields =~= Seq::new(p.fields.len(), |i: int| object_text(field_parts(p.fields[i]))));
    assert(models =~= Seq::new(p.models.len(), |i: int| json_text(JsonView::Text(p.models[i]))));
}

/// A field goes out with the members of its JSON in this order, each once.
pub proof fn a_field_goes_out_in_order(f: FieldInfo)
    ensures
        ({
            let value = field_json(f)->Object_0;
            field_parts(f) == seq![
                ("key"@, json_text(value["key"@])),
                ("label"@, json_text(value["label"@])),
                ("secret"@, json_text(value["secret"@])),
                ("required"@, json_text(value["required"@])),
                ("placeholder"@, json_text(value["placeholder"@])),
                ("default"@, json_text(value["default"@])),
                ("set"@, json_text(value["set"@])),
                ("value"@, json_text(value["value"@])),
            ]
        }),
{
    lemma_field_keys_differ();
}

/// A provider more is listed exactly where it answers chats, behind those before it, and a provider
/// is signed in to exactly where one more of its settings makes it so or it was before.
pub proof fn one_more_decides_for_itself(
    entries: Seq<SetupEntry>,
    e: SetupEntry,
    id: Seq<char>,
    keys: Seq<ConfigKey>,
    k: ConfigKey,
)
    ensures
        chat_ids(entries.push(e)) == if e.category is Model {
            chat_ids(entries).push(e.provider_id@)
        } else {
            chat_ids(entries)
        },
        chat_ids(Seq::empty()) == Seq::<Seq<char>>::empty(),
        answers_chats(entries.push(e), id) <==> answers_chats(entries, id) || (e.provider_id@ == id
            && e.category is Model),
        !answers_chats(Seq::empty(), id),
        listed(entries.push(e), id) <==> listed(entries, id) || e.provider_id@ == id,
        !listed(Seq::empty(), id),
        signs_in(keys.push(k)) <==> signs_in(keys) || k.oauth_flow,
        !signs_in(Seq::empty()),
        declares(keys.push(k), id) <==> declares(keys, id) || k.name@ == id,
        !declares(Seq::empty(), id),
{
    lemma_filter_push(entries, e, |x: SetupEntry| x.category is Model);
    reveal(Seq::filter);
    assert(chat_ids(entries.push(e)) =~= if e.category is Model {
        chat_ids(entries).push(e.provider_id@)
    } else {
        chat_ids(entries)
    });
    assert(chat_ids(Seq::empty()) =~= Seq::empty());
    let more = entries.push(e);
    assert(more[entries.len() as int] == e);
    assert forall|i: int| 0 <= i < entries.len() implies more[i] == #[trigger] entries[i] by {}
    let more_keys = keys.push(k);
    assert(more_keys[keys.len() as int] == k);
    assert forall|i: int| 0 <= i < keys.len() implies more_keys[i] == #[trigger] keys[i] by {}
}

/// The first entry for a provider stays the first whatever follows it.
pub proof fn first_entries_stay_first(
    entries: Seq<SetupEntry>,
    e: SetupEntry,
    id: Seq<char>,
    i: int,
)
    ensures
        first_entry(entries.push(e), id, i) <==> first_entry(entries, id, i) || (i == entries.len()
            && e.provider_id@ == id && !listed(entries, id)),
{
    let more = entries.push(e);
    assert forall|j: int| 0 <= j < entries.len() implies more[j] == #[trigger] entries[j] by {}
    if first_entry(more, id, i) && i == entries.len() {
        assert forall|j: int| 0 <= j < entries.len() implies (#[trigger] entries[j]).provider_id@
            != id by {
            assert(more[j] == entries[j]);
        }
    }
    if first_entry(more, id, i) && i < entries.len() {
        assert forall|j: int| 0 <= j < i implies (#[trigger] entries[j]).provider_id@ != id by {
            assert(more[j] == entries[j]);
        }
    }
}

/// Whether a setting is a secret is up to its first declaration, whatever follows it.
pub proof fn first_declarations_decide(keys: Seq<ConfigKey>, k: ConfigKey, name: Seq<char>)
    ensures
        declares(keys, name) ==> is_secret(keys.push(k), name) == is_secret(keys, name),
        !declares(keys, name) && k.name@ == name ==> is_secret(keys.push(k), name) == k.secret,
{
    let more = keys.push(k);
    assert forall|j: int| 0 <= j < keys.len() implies more[j] == #[trigger] keys[j] by {}
    if declares(keys, name) {
        lemma_first_declaration(keys, name);
        let i = choose|i: int| declared_at(keys, name, i);
        assert forall|j: int| 0 <= j < i implies (#[trigger] more[j]).name@ != name by {
            assert(more[j] == keys[j]);
        }
        assert(declared_at(more, name, i));
        let at = choose|j: int| declared_at(more, name, j);
        assert(at == i);
    } else if k.name@ == name {
        let n = keys.len() as int;
        assert forall|j: int| 0 <= j < n implies (#[trigger] more[j]).name@ != name by {
            assert(more[j] == keys[j]);
        }
        assert(declared_at(more, name, n));
        let at = choose|j: int| declared_at(more, name, j);
        assert(at == n);
    }
}

/// Picks out the providers with a name, whatever its letter case.
pub open spec fn called(name: Seq<char>) -> spec_fn(ProviderInfo) -> bool {
    |x: ProviderInfo| lowercase(x.name) == name
}

/// The list has every provider once, by name whatever its letter case; those with the same name keep
/// their order.
pub proof fn the_list_is_by_name(all: Seq<ProviderInfo>, name: Seq<char>, i: int, j: int)
    ensures
        by_name(all).len() == all.len(),
        0 <= i < j < all.len() ==> !comes_before(
            lowercase(by_name(all)[j].name),
            lowercase(by_name(all)[i].name),
        ),
        by_name(all).filter(called(name)) == all.filter(called(name)),
        has_just(list_json(all), set!["providers"@]),
        list_json(all)->Object_0["providers"@] is Array,
        list_json(all)->Object_0["providers"@]->Array_0.len() == all.len(),
        0 <= i < all.len() ==> list_json(all)->Object_0["providers"@]->Array_0[i] == provider_json(
            by_name(all)[i],
        ),
{
    providers_are_listed_by_name(all);
    listing_keeps_every_provider(all, name);
    assert(called(name) =~= (|x: ProviderInfo| sort_key(x) == name));
}

// ---------------------------------------------------------------------------
// What saving and removing come to
// ---------------------------------------------------------------------------

/// A setting can be saved: it is declared, and its value is not blank.
pub open spec fn can_be_saved(keys: Seq<ConfigKey>, key: Seq<char>, value: Seq<char>) -> bool {
    &&& exists|i: int| 0 <= i < keys.len() && (#[trigger] keys[i]).name@ == key
    &&& trimmed(value).len() > 0
}

/// Settings are saved exactly where each of them can be.
pub proof fn all_are_saved_or_none(
    id: Seq<char>,
    keys: Seq<ConfigKey>,
    fields: Seq<(Seq<char>, Seq<char>)>,
)
    ensures
        save_plan(id, keys, fields) is Ok <==> forall|i: int|
            0 <= i < fields.len() ==> can_be_saved(
                keys,
                (#[trigger] fields[i]).0,
                fields[i].1,
            ),
    decreases fields.len(),
{
    if fields.len() > 0 {
        let rest = fields.drop_last();
        all_are_saved_or_none(id, keys, rest);
        let n = fields.len() - 1;
        if save_plan(id, keys, fields) is Ok {
            assert forall|i: int| 0 <= i < fields.len() implies can_be_saved(
                keys,
                (#[trigger] fields[i]).0,
                fields[i].1,
            ) by {
                if i < n {
                    assert(rest[i] == fields[i]);
                }
            }
        } else if save_plan(id, keys, rest) is Ok {
            assert(!can_be_saved(keys, fields[n].0, fields[n].1));
        } else {
            let i = choose|i: int|
                0 <= i < rest.len() && !can_be_saved(keys, (#[trigger] rest[i]).0, rest[i].1);
            assert(rest[i] == fields[i]);
        }
    }
}

/// A setting more: a refusal stands. Else the setting is refused with 400 where no declaration has its
/// name, and else where its value is blank. Else its trimmed value joins the others of its kind, by
/// the first declaration of its name.
pub proof fn a_setting_more_is_refused_or_joins_its_kind(
    id: Seq<char>,
    keys: Seq<ConfigKey>,
    fields: Seq<(Seq<char>, Seq<char>)>,
    key: Seq<char>,
    value: Seq<char>,
)
    ensures
        ({
            let before = save_plan(id, keys, fields);
            let after = save_plan(id, keys, fields.push((key, value)));
            let named = exists|i: int| 0 <= i < keys.len() && (#[trigger] keys[i]).name@ == key;
            &&& before is Err ==> after == before
            &&& before is Ok && !named ==> after is Err && tells(
                after->Err_0,
                400,
                id + " has no setting called "@ + key,
                "invalid_request_error"@,
            )
            &&& before is Ok && named && trimmed(value).len() == 0 ==> after is Err && tells(
                after->Err_0,
                400,
                key + " cannot be empty; remove the provider's settings instead"@,
                "invalid_request_error"@,
            )
            &&& before is Ok && named && trimmed(value).len() > 0 ==> {
                &&& after is Ok
                &&& exists|i: int|
                    {
                        &&& #[trigger] declared_at(keys, key, i)
                        &&& keys[i].secret ==> {
                            &&& after->Ok_0.secrets == before->Ok_0.secrets.push(
                                (key, trimmed(value)),
                            )
                            &&& after->Ok_0.params == before->Ok_0.params
                        }
                        &&& !keys[i].secret ==> {
                            &&& after->Ok_0.params == before->Ok_0.params.push(
                                (key, trimmed(value)),
                            )
                            &&& after->Ok_0.secrets == before->Ok_0.secrets
                        }
                    }
            }
        }),
{
    assert(fields.push((key, value)).drop_last() =~= fields);
    failures_say_what_went_wrong(
        400,
        id + " has no setting called "@ + key,
        "invalid_request_error"@,
    );
    failures_say_what_went_wrong(
        400,
        key + " cannot be empty; remove the provider's settings instead"@,
        "invalid_request_error"@,
    );
    if declares(keys, key) {
        lemma_first_declaration(keys, key);
        let i = choose|i: int| declared_at(keys, key, i);
        assert(declared_at(keys, key, i));
    }
}

/// The first declaration of a name is one that has it, with none before it that has.
pub proof fn first_declarations_come_first(keys: Seq<ConfigKey>, name: Seq<char>, i: int, j: int)
    requires
        declared_at(keys, name, i),
        0 <= j < keys.len(),
        keys[j].name@ == name,
    ensures
        0 <= i <= j,
        keys[i].name@ == name,
{
}

/// Saving writes each parameter on its own, then all secrets at once; then the secrets are read anew
/// and the provider that is kept ready is dropped. Where there is nothing to save this is all.
pub proof fn saving_writes_what_was_planned(plan: SavePlan, i: int)
    ensures
        ({
            let ops = save_ops(plan);
            let n = plan.params.len() as int;
            &&& ops.len() == n + 3
            &&& 0 <= i < n ==> ops[i] == OpView::SetParam(plan.params[i].0, plan.params[i].1)
            &&& ops[n] == OpView::SetSecrets(plan.secrets)
            &&& ops[n + 1] == OpView::RefreshSecrets
            &&& ops[n + 2] == OpView::Forget
        }),
        forall|id: Seq<char>, keys: Seq<ConfigKey>|
            (#[trigger] save_plan(id, keys, Seq::empty())) == Ok::<SavePlan, ReplyView>(
                SavePlan { params: Seq::empty(), secrets: Seq::empty() },
            ),
{
}

/// Removing deletes each parameter on its own, then all secrets at once, then what a sign-in left;
/// then the secrets are read anew and the provider that is kept ready is dropped. A declaration more
/// is a name more to delete, from where it is stored.
pub proof fn removing_deletes_what_is_declared(keys: Seq<ConfigKey>, k: ConfigKey, i: int)
    ensures
        ({
            let ops = remove_ops(keys);
            let n = param_names(keys).len() as int;
            &&& ops.len() == n + 4
            &&& 0 <= i < n ==> ops[i] == OpView::DeleteParam(param_names(keys)[i])
            &&& ops[n] == OpView::DeleteSecrets(secret_names(keys))
            &&& ops[n + 1] == OpView::CleanUp
            &&& ops[n + 2] == OpView::RefreshSecrets
            &&& ops[n + 3] == OpView::Forget
        }),
        k.secret ==> secret_names(keys.push(k)) == secret_names(keys).push(k.name@) && param_names(
            keys.push(k),
        ) == param_names(keys),
        !k.secret ==> param_names(keys.push(k)) == param_names(keys).push(k.name@) && secret_names(
            keys.push(k),
        ) == secret_names(keys),
        secret_names(Seq::empty()) == Seq::<Seq<char>>::empty(),
        param_names(Seq::empty()) == Seq::<Seq<char>>::empty(),
{
    lemma_filter_push(keys, k, |x: ConfigKey| x.secret);
    lemma_filter_push(keys, k, |x: ConfigKey| !x.secret);
    reveal(Seq::filter);
    if k.secret {
        assert(secret_names(keys.push(k)) =~= secret_names(keys).push(k.name@));
        assert(param_names(keys.push(k)) =~= param_names(keys));
    } else {
        assert(param_names(keys.push(k)) =~= param_names(keys).push(k.name@));
        assert(secret_names(keys.push(k)) =~= secret_names(keys));
    }
    assert(secret_names(Seq::empty()) =~= Seq::empty());
    assert(param_names(Seq::empty()) =~= Seq::empty());
}

/// A provider that there is not is answered 404, and what could not be stored 500.
pub proof fn requests_that_fail_say_why(id: Seq<char>, e: Seq<char>)
    ensures
        tells(
            unknown_reply(id),
            404,
            "goose has no provider called "@ + id,
            "invalid_request_error"@,
        ),
        tells(
            storage_reply(e),
            500,
            "could not update goose's configuration: "@ + e,
            "server_error"@,
        ),
{
    failures_say_what_went_wrong(
        404,
        "goose has no provider called "@ + id,
        "invalid_request_error"@,
    );
    failures_say_what_went_wrong(
        500,
        "could not update goose's configuration: "@ + e,
        "server_error"@,
    );
}

/// The view of a provider leaves no field out.
pub proof fn views_of_providers_leave_nothing_out(p: ProviderView, f: FieldView, i: int)
    ensures
        p@.id == p.id@,
        p@.name == p.name@,
        p@.description == p.description@,
        p@.method == p.method@,
        p@.featured == p.featured,
        p@.docs_url is Some == p.docs_url is Some,
        p.docs_url matches Some(u) ==> p@.docs_url == Some(u@),
        p@.sign_in == p.sign_in,
        p@.configured == p.configured,
        p@.default_model == p.default_model@,
        p@.fields.len() == p.fields@.len(),
        0 <= i < p.fields@.len() ==> p@.fields[i] == p.fields@[i]@,
        p@.models.len() == p.models@.len(),
        0 <= i < p.models@.len() ==> p@.models[i] == p.models@[i]@,
        f@.key == f.key@,
        f@.label == f.label@,
        f@.secret == f.secret,
        f@.required == f.required,
        f@.set == f.set,
        f@.placeholder is Some == f.placeholder is Some,
        f.placeholder matches Some(t) ==> f@.placeholder == Some(t@),
        f@.default is Some == f.default is Some,
        f.default matches Some(t) ==> f@.default == Some(t@),
        f@.value is Some == f.value is Some,
        f.value matches Some(t) ==> f@.value == Some(t@),
{
}

/// Providers and changes are viewed one by one, in order.
pub proof fn views_of_lists_keep_their_order(all: Seq<ProviderView>, ops: Seq<StoreOp>, i: int)
    ensures
        provider_infos(all).len() == all.len(),
        0 <= i < all.len() ==> provider_infos(all)[i] == all[i]@,
        ops_view(ops).len() == ops.len(),
        0 <= i < ops.len() ==> ops_view(ops)[i] == ops[i]@,
{
}

/// The view of a change leaves nothing out.
pub proof fn views_of_changes_leave_nothing_out(
    k: String,
    v: String,
    both: Vec<(String, String)>,
    names: Vec<String>,
    i: int,
)
    ensures
        StoreOp::SetParam(k, v)@ == OpView::SetParam(k@, v@),
        StoreOp::DeleteParam(k)@ == OpView::DeleteParam(k@),
        StoreOp::SetSecrets(both)@ is SetSecrets,
        StoreOp::SetSecrets(both)@->SetSecrets_0.len() == both@.len(),
        0 <= i < both@.len() ==> StoreOp::SetSecrets(both)@->SetSecrets_0[i] == (
            both@[i].0@,
            both@[i].1@,
        ),
        StoreOp::DeleteSecrets(names)@ is DeleteSecrets,
        StoreOp::DeleteSecrets(names)@->DeleteSecrets_0.len() == names@.len(),
        0 <= i < names@.len() ==> StoreOp::DeleteSecrets(names)@->DeleteSecrets_0[i] == names@[i]@,
        StoreOp::CleanUp@ is CleanUp,
        StoreOp::RefreshSecrets@ is RefreshSecrets,
        StoreOp::Forget@ is Forget,
{
}

} // verus!
