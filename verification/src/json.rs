//! The crate's only window onto `serde_json`.
//!
//! Manifest text is structured data, and what each declared field holds
//! is a pure function of the text. Each such result is given a name
//! below, tied to one trusted extractor whose body makes the `serde_json`
//! call chain for that field. The defaulting rules that decide what a
//! missing or ill-shaped field means are *not* here: they are verified
//! code in the manifest module, working on the plain values these
//! extractors hand back.

use vstd::prelude::*;

use crate::manifest::view_opt_str;

verus! {

/// Whether `serde_json` accepts this text as one JSON document.
pub uninterp spec fn json_accepts(text: Seq<char>) -> bool;

/// Relies on serde_json::from_str::<Value>: deterministic in the input
/// text, succeeding exactly on syntactically valid JSON.
#[verifier::external_body]
pub(crate) fn json_is_valid(text: &str) -> (r: bool)
    ensures
        r == json_accepts(text@),
{
    serde_json::from_str::<serde_json::Value>(text).is_ok()
}

/// The text under the document's `Description` key, when the document is
/// valid and the key holds a string.
pub uninterp spec fn json_description_of(text: Seq<char>) -> Option<Seq<char>>;

/// Relies on serde_json::from_str and Value::get/as_str: the declared
/// description, a function of the text alone.
#[verifier::external_body]
pub(crate) fn json_extract_description(text: &str) -> (r: Option<String>)
    ensures
        view_opt_str(r) == json_description_of(text@),
{
    serde_json::from_str::<serde_json::Value>(text).ok().and_then(
        |v| v.get("Description").and_then(|d| d.as_str()).map(|s| s.to_owned()),
    )
}

/// The text under the document's `EngineAssociation` key, when the
/// document is valid and the key holds a string (possibly empty).
pub uninterp spec fn json_engine_of(text: Seq<char>) -> Option<Seq<char>>;

/// Relies on serde_json::from_str and Value::get/as_str: the declared
/// engine version, a function of the text alone.
#[verifier::external_body]
pub(crate) fn json_extract_engine(text: &str) -> (r: Option<String>)
    ensures
        view_opt_str(r) == json_engine_of(text@),
{
    serde_json::from_str::<serde_json::Value>(text).ok().and_then(
        |v| v.get("EngineAssociation").and_then(|e| e.as_str()).map(|s| s.to_owned()),
    )
}

/// How many elements the document's `Plugins` array holds, when the
/// document is valid and the key holds an array.
pub uninterp spec fn json_plugin_count_of(text: Seq<char>) -> Option<usize>;

/// Relies on serde_json::from_str and Value::get/as_array: the length of
/// the declared plugin list, a function of the text alone.
#[verifier::external_body]
pub(crate) fn json_extract_plugin_count(text: &str) -> (r: Option<usize>)
    ensures
        r == json_plugin_count_of(text@),
{
    serde_json::from_str::<serde_json::Value>(text).ok().and_then(
        |v| v.get("Plugins").and_then(|p| p.as_array()).map(|a| a.len()),
    )
}

/// The string under `Name` of the i-th element of the `Plugins` array.
pub uninterp spec fn json_plugin_name_of(text: Seq<char>, i: int) -> Option<Seq<char>>;

/// Relies on serde_json::from_str and Value::get/as_array/as_str: one
/// declared plugin name, a function of the text and the index alone.
#[verifier::external_body]
pub(crate) fn json_extract_plugin_name(text: &str, i: usize) -> (r: Option<String>)
    ensures
        view_opt_str(r) == json_plugin_name_of(text@, i as int),
{
    serde_json::from_str::<serde_json::Value>(text).ok().and_then(
        |v| v.get("Plugins").and_then(|p| p.as_array()).and_then(|a| a.get(i)).and_then(
            |e| e.get("Name").and_then(|n| n.as_str()).map(|s| s.to_owned()),
        ),
    )
}

/// The boolean under `Enabled` of the i-th element of the `Plugins` array.
pub uninterp spec fn json_plugin_enabled_of(text: Seq<char>, i: int) -> Option<bool>;

/// Relies on serde_json::from_str and Value::get/as_array/as_bool: one
/// declared enabled flag, a function of the text and the index alone.
#[verifier::external_body]
pub(crate) fn json_extract_plugin_enabled(text: &str, i: usize) -> (r: Option<bool>)
    ensures
        r == json_plugin_enabled_of(text@, i as int),
{
    serde_json::from_str::<serde_json::Value>(text).ok().and_then(
        |v| v.get("Plugins").and_then(|p| p.as_array()).and_then(|a| a.get(i)).and_then(
            |e| e.get("Enabled").and_then(|b| b.as_bool()),
        ),
    )
}

/// The string under `MarketplaceURL` of the i-th element of `Plugins`.
pub uninterp spec fn json_plugin_marketplace_of(text: Seq<char>, i: int) -> Option<Seq<char>>;

/// Relies on serde_json::from_str and Value::get/as_array/as_str: one
/// declared marketplace link, a function of the text and the index alone.
#[verifier::external_body]
pub(crate) fn json_extract_plugin_marketplace(text: &str, i: usize) -> (r: Option<String>)
    ensures
        view_opt_str(r) == json_plugin_marketplace_of(text@, i as int),
{
    serde_json::from_str::<serde_json::Value>(text).ok().and_then(
        |v| v.get("Plugins").and_then(|p| p.as_array()).and_then(|a| a.get(i)).and_then(
            |e| e.get("MarketplaceURL").and_then(|u| u.as_str()).map(|s| s.to_owned()),
        ),
    )
}

/// The string under `DocsURL` of the i-th element of the `Plugins` array.
pub uninterp spec fn json_plugin_docs_of(text: Seq<char>, i: int) -> Option<Seq<char>>;

/// Relies on serde_json::from_str and Value::get/as_array/as_str: one
/// declared documentation link, a function of the text and the index
/// alone.
#[verifier::external_body]
pub(crate) fn json_extract_plugin_docs(text: &str, i: usize) -> (r: Option<String>)
    ensures
        view_opt_str(r) == json_plugin_docs_of(text@, i as int),
{
    serde_json::from_str::<serde_json::Value>(text).ok().and_then(
        |v| v.get("Plugins").and_then(|p| p.as_array()).and_then(|a| a.get(i)).and_then(
            |e| e.get("DocsURL").and_then(|u| u.as_str()).map(|s| s.to_owned()),
        ),
    )
}

/// The text under the document's `FriendlyName` key.
pub uninterp spec fn json_friendly_name_of(text: Seq<char>) -> Option<Seq<char>>;

/// Relies on serde_json::from_str and Value::get/as_str: a plugin
/// manifest's friendly name, a function of the text alone.
#[verifier::external_body]
pub(crate) fn json_extract_friendly_name(text: &str) -> (r: Option<String>)
    ensures
        view_opt_str(r) == json_friendly_name_of(text@),
{
    serde_json::from_str::<serde_json::Value>(text).ok().and_then(
        |v| v.get("FriendlyName").and_then(|f| f.as_str()).map(|s| s.to_owned()),
    )
}

/// The text under a plugin manifest's `MarketplaceURL` key.
pub uninterp spec fn json_uplugin_marketplace_of(text: Seq<char>) -> Option<Seq<char>>;

/// Relies on serde_json::from_str and Value::get/as_str: a plugin
/// manifest's marketplace link, a function of the text alone.
#[verifier::external_body]
pub(crate) fn json_extract_uplugin_marketplace(text: &str) -> (r: Option<String>)
    ensures
        view_opt_str(r) == json_uplugin_marketplace_of(text@),
{
    serde_json::from_str::<serde_json::Value>(text).ok().and_then(
        |v| v.get("MarketplaceURL").and_then(|u| u.as_str()).map(|s| s.to_owned()),
    )
}

/// The text under a plugin manifest's `DocsURL` key.
pub uninterp spec fn json_uplugin_docs_of(text: Seq<char>) -> Option<Seq<char>>;

/// Relies on serde_json::from_str and Value::get/as_str: a plugin
/// manifest's documentation link, a function of the text alone.
#[verifier::external_body]
pub(crate) fn json_extract_uplugin_docs(text: &str) -> (r: Option<String>)
    ensures
        view_opt_str(r) == json_uplugin_docs_of(text@),
{
    serde_json::from_str::<serde_json::Value>(text).ok().and_then(
        |v| v.get("DocsURL").and_then(|u| u.as_str()).map(|s| s.to_owned()),
    )
}

} // verus!
