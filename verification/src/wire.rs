//! The catalog on the wire: a JSON array of extension objects. Reading it,
//! writing it, and what holds of the two.

use crate::catalog::{
    catalog_view, source_views, Extension, ExtensionView, Source, SourceView,
};
use crate::error::RunError;
use crate::json::{
    item_views, lemma_lookup_absent, lemma_lookup_at, lookup, members_of, parse, text_document,
    Json, JsonView,
};
use vstd::prelude::*;

verus! {

/// The text that an object gives a key, where it has the key with a text.
pub open spec fn text_at(members: Seq<(Seq<char>, JsonView)>, key: Seq<char>) -> Option<Seq<char>> {
    match lookup(members, key) {
        Some(JsonView::Text(text)) => Some(text),
        _ => None,
    }
}

/// The number that an object gives a key, where it has the key with an
/// integer of 32 bits.
pub open spec fn number_at(members: Seq<(Seq<char>, JsonView)>, key: Seq<char>) -> Option<i32> {
    match lookup(members, key) {
        Some(JsonView::Number(Some(n))) => if i32::MIN <= n <= i32::MAX {
            Some(n as i32)
        } else {
            None
        },
        _ => None,
    }
}

/// The items that an object gives a key, where it has the key with an array.
pub open spec fn items_at(members: Seq<(Seq<char>, JsonView)>, key: Seq<char>) -> Option<
    Seq<JsonView>,
> {
    match lookup(members, key) {
        Some(JsonView::Array(items)) => Some(items),
        _ => None,
    }
}

/// The values of all items, in their order, where `one` gives each item a
/// value; nothing where it gives some item none.
pub open spec fn all_of<T>(items: Seq<JsonView>, one: spec_fn(JsonView) -> Option<T>) -> Option<
    Seq<T>,
> {
    if forall|i: int| 0 <= i < items.len() ==> (#[trigger] one(items[i])) is Some {
        Some(Seq::new(items.len(), |i: int| one(items[i])->Some_0))
    } else {
        None
    }
}

/// The source that a document describes: an object with the texts `name`,
/// `lang`, `id` and `baseUrl`. Its other members are passed over.
pub open spec fn source_of(doc: JsonView) -> Option<SourceView> {
    let m = members_of(doc);
    match (text_at(m, "name"@), text_at(m, "lang"@), text_at(m, "id"@), text_at(m, "baseUrl"@)) {
        (Some(name), Some(lang), Some(id), Some(base_url)) => Some(
            SourceView { name, lang, id, base_url },
        ),
        _ => None,
    }
}

/// The sources that the items of an array describe, where each describes one.
pub open spec fn sources_of(items: Seq<JsonView>) -> Option<Seq<SourceView>> {
    all_of(items, |doc: JsonView| source_of(doc))
}

/// The extension that a document describes: an object with the texts `name`,
/// `pkg`, `apk`, `lang` and `version`, the numbers `code` and `nsfw`, and
/// the array `sources` of sources. Its other members are passed over.
pub open spec fn extension_of(doc: JsonView) -> Option<ExtensionView> {
    let m = members_of(doc);
    match (
        text_at(m, "name"@),
        text_at(m, "pkg"@),
        text_at(m, "apk"@),
        text_at(m, "lang"@),
        number_at(m, "code"@),
        text_at(m, "version"@),
        number_at(m, "nsfw"@),
        items_at(m, "sources"@),
    ) {
        (
            Some(name),
            Some(pkg),
            Some(apk),
            Some(lang),
            Some(code),
            Some(version),
            Some(nsfw),
            Some(items),
        ) => match sources_of(items) {
            Some(sources) => Some(
                ExtensionView { name, pkg, apk, lang, code, version, nsfw, sources },
            ),
            None => None,
        },
        _ => None,
    }
}

/// The catalog that a document describes: an array of extensions.
pub open spec fn catalog_of(doc: JsonView) -> Option<Seq<ExtensionView>> {
    match doc {
        JsonView::Array(items) => all_of(items, |item: JsonView| extension_of(item)),
        _ => None,
    }
}

/// The catalog that a JSON text describes.
pub open spec fn catalog_of_text(text: Seq<u8>) -> Option<Seq<ExtensionView>> {
    match text_document(text) {
        Some(doc) => catalog_of(doc),
        None => None,
    }
}

/// The text that `doc` gives `key`.
fn text_member(doc: &Json, key: &str) -> (found: Option<String>)
    ensures
        match found {
            Some(text) => text_at(members_of(doc@), key@) == Some(text@),
            None => text_at(members_of(doc@), key@) is None,
        },
{
    match doc.member(key) {
        Some(Json::Text(text)) => Some(text.clone()),
        _ => None,
    }
}

/// The 32-bit number that `doc` gives `key`.
fn number_member(doc: &Json, key: &str) -> (found: Option<i32>)
    ensures
        found == number_at(members_of(doc@), key@),
{
    match doc.member(key) {
        Some(Json::Number(Some(n))) => {
            if -2147483648 <= *n && *n <= 2147483647 {
                Some(*n as i32)
            } else {
                None
            }
        },
        _ => None,
    }
}

/// The items that `doc` gives `key`.
fn items_member<'a>(doc: &'a Json, key: &str) -> (found: Option<&'a Vec<Json>>)
    ensures
        match found {
            Some(items) => items_at(members_of(doc@), key@) == Some(item_views(items@)),
            None => items_at(members_of(doc@), key@) is None,
        },
{
    match doc.member(key) {
        Some(Json::Array(items)) => Some(items),
        _ => None,
    }
}

/// Reads one source. `None` where the document describes none.
pub fn decode_source(doc: &Json) -> (decoded: Option<Source>)
    ensures
        match decoded {
            Some(source) => source_of(doc@) == Some(source@),
            None => source_of(doc@) is None,
        },
{
    let name = text_member(doc, "name")?;
    let lang = text_member(doc, "lang")?;
    let id = text_member(doc, "id")?;
    let base_url = text_member(doc, "baseUrl")?;
    Some(Source { name, lang, id, base_url })
}

/// Reads the sources of an extension, in their order. `None` where an item
/// describes none.
pub fn decode_sources(items: &Vec<Json>) -> (decoded: Option<Vec<Source>>)
    ensures
        match decoded {
            Some(sources) => sources_of(item_views(items@)) == Some(source_views(sources@)),
            None => sources_of(item_views(items@)) is None,
        },
{
    let ghost docs = item_views(items@);
    let ghost one = |doc: JsonView| source_of(doc);
    let mut sources: Vec<Source> = Vec::new();
    let mut i: usize = 0;
    while i < items.len()
        invariant
            i <= items.len(),
            docs == item_views(items@),
            one == (|doc: JsonView| source_of(doc)),
            sources.len() == i,
            forall|j: int| 0 <= j < i ==> (#[trigger] one(docs[j])) == Some(sources[j]@),
        decreases items.len() - i,
    {
        match decode_source(&items[i]) {
            Some(source) => {
                sources.push(source);
            },
            None => {
                assert(one(docs[i as int]) is None);
                return None;
            },
        }
        i = i + 1;
    }
    Some(sources)
}

/// Reads one extension. `None` where the document describes none.
pub fn decode_extension(doc: &Json) -> (decoded: Option<Extension>)
    ensures
        match decoded {
            Some(extension) => extension_of(doc@) == Some(extension@),
            None => extension_of(doc@) is None,
        },
{
    let name = text_member(doc, "name")?;
    let pkg = text_member(doc, "pkg")?;
    let apk = text_member(doc, "apk")?;
    let lang = text_member(doc, "lang")?;
    let code = number_member(doc, "code")?;
    let version = text_member(doc, "version")?;
    let nsfw = number_member(doc, "nsfw")?;
    let items = items_member(doc, "sources")?;
    let sources = decode_sources(items)?;
    Some(Extension { name, pkg, apk, lang, code, version, nsfw, sources })
}

/// Reads a catalog from its document. The catalog comes whole or not at
/// all: a document that is no array, or one item that describes no
/// extension, is a `ParseError`.
pub fn decode_catalog(doc: &Json) -> (decoded: Result<Vec<Extension>, RunError>)
    ensures
        match decoded {
            Ok(catalog) => catalog_of(doc@) == Some(catalog_view(catalog@)),
            Err(error) => error == RunError::ParseError && catalog_of(doc@) is None,
        },
{
    let items = match doc {
        Json::Array(items) => items,
        _ => {
            return Err(RunError::ParseError);
        },
    };
    let ghost docs = item_views(items@);
    let ghost one = |item: JsonView| extension_of(item);
    assert(docs =~= doc@->Array_0);
    let mut catalog: Vec<Extension> = Vec::new();
    let mut i: usize = 0;
    while i < items.len()
        invariant
            i <= items.len(),
            doc@ == JsonView::Array(docs),
            docs == item_views(items@),
            one == (|item: JsonView| extension_of(item)),
            catalog.len() == i,
            forall|j: int| 0 <= j < i ==> (#[trigger] one(docs[j])) == Some(catalog[j]@),
        decreases items.len() - i,
    {
        match decode_extension(&items[i]) {
            Some(extension) => {
                catalog.push(extension);
            },
            None => {
                assert(one(docs[i as int]) is None);
                return Err(RunError::ParseError);
            },
        }
        i = i + 1;
    }
    Ok(catalog)
}

/// Reads a catalog from its JSON text. A text that is no JSON, or whose
/// document is no catalog, is a `ParseError`.
pub fn load_catalog(text: &[u8]) -> (loaded: Result<Vec<Extension>, RunError>)
    ensures
        match loaded {
            Ok(catalog) => catalog_of_text(text@) == Some(catalog_view(catalog@)),
            Err(error) => error == RunError::ParseError && catalog_of_text(text@) is None,
        },
{
    match parse(text) {
        Some(doc) => decode_catalog(&doc),
        None => Err(RunError::ParseError),
    }
}

/// The document that describes a source.
pub open spec fn source_document(source: SourceView) -> JsonView {
    JsonView::Object(
        seq![
            ("name"@, JsonView::Text(source.name)),
            ("lang"@, JsonView::Text(source.lang)),
            ("id"@, JsonView::Text(source.id)),
            ("baseUrl"@, JsonView::Text(source.base_url)),
        ],
    )
}

/// The documents that describe sources, one each.
pub open spec fn source_documents(sources: Seq<SourceView>) -> Seq<JsonView> {
    sources.map_values(|s: SourceView| source_document(s))
}

/// The document that describes an extension.
pub open spec fn extension_document(extension: ExtensionView) -> JsonView {
    JsonView::Object(
        seq![
            ("name"@, JsonView::Text(extension.name)),
            ("pkg"@, JsonView::Text(extension.pkg)),
            ("apk"@, JsonView::Text(extension.apk)),
            ("lang"@, JsonView::Text(extension.lang)),
            ("code"@, JsonView::Number(Some(extension.code as i64))),
            ("version"@, JsonView::Text(extension.version)),
            ("nsfw"@, JsonView::Number(Some(extension.nsfw as i64))),
            ("sources"@, JsonView::Array(source_documents(extension.sources))),
        ],
    )
}

/// The document that describes a catalog.
pub open spec fn catalog_document(catalog: Seq<ExtensionView>) -> JsonView {
    JsonView::Array(catalog.map_values(|e: ExtensionView| extension_document(e)))
}

/// A member of an object: the key, and a text as its value.
fn text_pair(key: &str, text: &String) -> (pair: (String, Json))
    ensures
        pair.0@ == key@,
        pair.1@ == JsonView::Text(text@),
{
    (key.to_owned(), Json::Text(text.clone()))
}

/// A member of an object: the key, and a number as its value.
fn number_pair(key: &str, number: i32) -> (pair: (String, Json))
    ensures
        pair.0@ == key@,
        pair.1@ == JsonView::Number(Some(number as i64)),
{
    (key.to_owned(), Json::Number(Some(number as i64)))
}

/// Writes one source as a document.
pub fn encode_source(source: &Source) -> (doc: Json)
    ensures
        doc@ == source_document(source@),
{
    let mut members: Vec<(String, Json)> = Vec::new();
    members.push(text_pair("name", &source.name));
    members.push(text_pair("lang", &source.lang));
    members.push(text_pair("id", &source.id));
    members.push(text_pair("baseUrl", &source.base_url));
    let doc = Json::Object(members);
    assert(members_of(doc@) =~= members_of(source_document(source@)));
    doc
}

/// Writes one extension as a document.
pub fn encode_extension(extension: &Extension) -> (doc: Json)
    ensures
        doc@ == extension_document(extension@),
{
    let mut items: Vec<Json> = Vec::new();
    let mut i: usize = 0;
    while i < extension.sources.len()
        invariant
            i <= extension.sources.len(),
            items.len() == i,
            forall|j: int|
                0 <= j < i ==> (#[trigger] items[j])@ == source_document(extension.sources[j]@),
        decreases extension.sources.len() - i,
    {
        items.push(encode_source(&extension.sources[i]));
        i = i + 1;
    }
    let sources = Json::Array(items);
    assert(sources@->Array_0 =~= source_documents(extension@.sources));
    let mut members: Vec<(String, Json)> = Vec::new();
    members.push(text_pair("name", &extension.name));
    members.push(text_pair("pkg", &extension.pkg));
    members.push(text_pair("apk", &extension.apk));
    members.push(text_pair("lang", &extension.lang));
    members.push(number_pair("code", extension.code));
    members.push(text_pair("version", &extension.version));
    members.push(number_pair("nsfw", extension.nsfw));
    members.push(("sources".to_owned(), sources));
    let doc = Json::Object(members);
    assert(members_of(doc@) =~= members_of(extension_document(extension@)));
    doc
}

/// Writes a catalog as a document.
pub fn encode_catalog(catalog: &Vec<Extension>) -> (doc: Json)
    ensures
        doc@ == catalog_document(catalog_view(catalog@)),
{
    let mut items: Vec<Json> = Vec::new();
    let mut i: usize = 0;
    while i < catalog.len()
        invariant
            i <= catalog.len(),
            items.len() == i,
            forall|j: int| 0 <= j < i ==> (#[trigger] items[j])@ == extension_document(catalog[j]@),
        decreases catalog.len() - i,
    {
        items.push(encode_extension(&catalog[i]));
        i = i + 1;
    }
    let doc = Json::Array(items);
    assert(doc@->Array_0 =~= catalog_document(catalog_view(catalog@))->Array_0);
    doc
}

/// Whether a key is one of the four that a source needs.
pub open spec fn source_key(key: Seq<char>) -> bool {
    key == "name"@ || key == "lang"@ || key == "id"@ || key == "baseUrl"@
}

/// Whether a key is one of the eight that an extension needs.
pub open spec fn extension_key(key: Seq<char>) -> bool {
    key == "name"@ || key == "pkg"@ || key == "apk"@ || key == "lang"@ || key == "code"@ || key
        == "version"@ || key == "nsfw"@ || key == "sources"@
}

/// The keys of a catalog's documents differ from each other.
proof fn lemma_keys_differ()
    ensures
        "name"@ != "lang"@,
        "name"@ != "id"@,
        "name"@ != "baseUrl"@,
        "lang"@ != "id"@,
        "lang"@ != "baseUrl"@,
        "id"@ != "baseUrl"@,
        "name"@ != "pkg"@,
        "name"@ != "apk"@,
        "name"@ != "code"@,
        "name"@ != "version"@,
        "name"@ != "nsfw"@,
        "name"@ != "sources"@,
        "pkg"@ != "apk"@,
        "pkg"@ != "lang"@,
        "pkg"@ != "code"@,
        "pkg"@ != "version"@,
        "pkg"@ != "nsfw"@,
        "pkg"@ != "sources"@,
        "apk"@ != "lang"@,
        "apk"@ != "code"@,
        "apk"@ != "version"@,
        "apk"@ != "nsfw"@,
        "apk"@ != "sources"@,
        "lang"@ != "code"@,
        "lang"@ != "version"@,
        "lang"@ != "nsfw"@,
        "lang"@ != "sources"@,
        "code"@ != "version"@,
        "code"@ != "nsfw"@,
        "code"@ != "sources"@,
        "version"@ != "nsfw"@,
        "version"@ != "sources"@,
        "nsfw"@ != "sources"@,
{
    reveal_strlit("name");
    reveal_strlit("lang");
    reveal_strlit("id");
    reveal_strlit("baseUrl");
    reveal_strlit("pkg");
    reveal_strlit("apk");
    reveal_strlit("code");
    reveal_strlit("version");
    reveal_strlit("nsfw");
    reveal_strlit("sources");
    assert("name"@[1] != "nsfw"@[1]);
    assert("name"@[0] == 'n' && "lang"@[0] == 'l' && "code"@[0] == 'c' && "nsfw"@[0] == 'n');
    assert("pkg"@[0] == 'p' && "apk"@[0] == 'a');
    assert("baseUrl"@[0] == 'b' && "version"@[0] == 'v' && "sources"@[0] == 's');
}

/// A source that is written as a document and read back is the same source.
pub proof fn lemma_source_round_trip(source: SourceView)
    ensures
        source_of(source_document(source)) == Some(source),
{
    lemma_keys_differ();
    let m = members_of(source_document(source));
    lemma_lookup_at(m, "name"@, 0);
    lemma_lookup_at(m, "lang"@, 1);
    lemma_lookup_at(m, "id"@, 2);
    lemma_lookup_at(m, "baseUrl"@, 3);
}

/// Sources that are written as documents and read back are the same
/// sources, in the same order.
pub proof fn lemma_sources_round_trip(sources: Seq<SourceView>)
    ensures
        sources_of(source_documents(sources)) == Some(sources),
{
    let docs = source_documents(sources);
    let one = |doc: JsonView| source_of(doc);
    assert forall|i: int| 0 <= i < docs.len() implies (#[trigger] one(docs[i])) == Some(
        sources[i],
    ) by {
        lemma_source_round_trip(sources[i]);
    }
}

/// An extension that is written as a document and read back is the same
/// extension.
pub proof fn lemma_extension_round_trip(extension: ExtensionView)
    ensures
        extension_of(extension_document(extension)) == Some(extension),
{
    lemma_keys_differ();
    lemma_sources_round_trip(extension.sources);
    let m = members_of(extension_document(extension));
    lemma_lookup_at(m, "name"@, 0);
    lemma_lookup_at(m, "pkg"@, 1);
    lemma_lookup_at(m, "apk"@, 2);
    lemma_lookup_at(m, "lang"@, 3);
    lemma_lookup_at(m, "code"@, 4);
    lemma_lookup_at(m, "version"@, 5);
    lemma_lookup_at(m, "nsfw"@, 6);
    lemma_lookup_at(m, "sources"@, 7);
}

/// A catalog that is written as a document and read back is the same
/// catalog, field for field and in the same order.
pub proof fn lemma_catalog_round_trip(catalog: Seq<ExtensionView>)
    ensures
        catalog_of(catalog_document(catalog)) == Some(catalog),
{
    let docs = catalog.map_values(|e: ExtensionView| extension_document(e));
    let one = |item: JsonView| extension_of(item);
    assert forall|i: int| 0 <= i < docs.len() implies (#[trigger] one(docs[i])) == Some(
        catalog[i],
    ) by {
        lemma_extension_round_trip(catalog[i]);
    }
}

/// A text whose document is the document of a catalog is loaded as that
/// catalog.
pub proof fn lemma_text_round_trip(text: Seq<u8>, catalog: Seq<ExtensionView>)
    requires
        text_document(text) == Some(catalog_document(catalog)),
    ensures
        catalog_of_text(text) == Some(catalog),
{
    lemma_catalog_round_trip(catalog);
}

/// Items are read all or not at all: where one item has no value, the
/// items have none.
pub proof fn lemma_all_or_nothing<T>(
    items: Seq<JsonView>,
    one: spec_fn(JsonView) -> Option<T>,
    at: int,
)
    requires
        0 <= at < items.len(),
        one(items[at]) is None,
    ensures
        all_of(items, one) is None,
{
}

/// An object that has no member with one of a source's four keys describes
/// no source.
pub proof fn lemma_source_needs_every_member(doc: JsonView, key: Seq<char>)
    requires
        source_key(key),
        forall|j: int| 0 <= j < members_of(doc).len() ==> (#[trigger] members_of(doc)[j]).0 != key,
    ensures
        source_of(doc) is None,
{
    lemma_lookup_absent(members_of(doc), key);
}

/// An object that has no member with one of an extension's eight keys
/// describes no extension.
pub proof fn lemma_extension_needs_every_member(doc: JsonView, key: Seq<char>)
    requires
        extension_key(key),
        forall|j: int| 0 <= j < members_of(doc).len() ==> (#[trigger] members_of(doc)[j]).0 != key,
    ensures
        extension_of(doc) is None,
{
    lemma_lookup_absent(members_of(doc), key);
}

/// An object one of whose sources describes no source describes no
/// extension.
pub proof fn lemma_extension_needs_every_source(doc: JsonView, at: int)
    requires
        items_at(members_of(doc), "sources"@) is Some,
        0 <= at < items_at(members_of(doc), "sources"@)->Some_0.len(),
        source_of(items_at(members_of(doc), "sources"@)->Some_0[at]) is None,
    ensures
        extension_of(doc) is None,
{
    let items = items_at(members_of(doc), "sources"@)->Some_0;
    lemma_all_or_nothing(items, |item: JsonView| source_of(item), at);
}

/// A document one of whose items describes no extension describes no
/// catalog: no part of it is read.
pub proof fn lemma_catalog_needs_every_extension(doc: JsonView, at: int)
    requires
        doc is Array,
        0 <= at < doc->Array_0.len(),
        extension_of(doc->Array_0[at]) is None,
    ensures
        catalog_of(doc) is None,
{
    lemma_all_or_nothing(doc->Array_0, |item: JsonView| extension_of(item), at);
}

} // verus!
