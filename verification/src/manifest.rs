//! Declared manifest data and its tolerant reader.
//!
//! A project manifest and a plugin manifest are loosely-typed structured
//! text. The reader fails only when the text is not valid structured data
//! at all; a field that is absent or of the wrong shape falls back to its
//! documented default instead. The caller hands the file *content* in as a
//! string; no file is touched here.

use vstd::prelude::*;

use crate::json::{
    json_accepts, json_description_of, json_engine_of, json_extract_description,
    json_extract_engine, json_extract_friendly_name, json_extract_plugin_count,
    json_extract_plugin_docs, json_extract_plugin_enabled, json_extract_plugin_marketplace,
    json_extract_plugin_name, json_extract_uplugin_docs, json_extract_uplugin_marketplace,
    json_friendly_name_of, json_is_valid, json_plugin_count_of, json_plugin_docs_of,
    json_plugin_enabled_of, json_plugin_marketplace_of, json_plugin_name_of,
    json_uplugin_docs_of, json_uplugin_marketplace_of,
};

verus! {

/// The view of an optional string: the character sequence, if present.
pub open spec fn view_opt_str(o: Option<String>) -> Option<Seq<char>> {
    match o {
        Some(s) => Some(s@),
        None => None,
    }
}

/// One plugin reference declared inside a project manifest.
#[derive(Debug, PartialEq)]
pub struct UprojectPluginEntry {
    pub name: String,
    pub enabled: Option<bool>,
    pub marketplace_url: Option<String>,
    pub docs_url: Option<String>,
}

impl Clone for UprojectPluginEntry {
    fn clone(&self) -> (res: Self)
        ensures
            res == *self,
    {
        UprojectPluginEntry {
            name: self.name.clone(),
            enabled: self.enabled,
            marketplace_url: self.marketplace_url.clone(),
            docs_url: self.docs_url.clone(),
        }
    }
}

/// Ghost image of an `UprojectPluginEntry`.
pub ghost struct UprojectPluginEntryView {
    pub name: Seq<char>,
    pub enabled: Option<bool>,
    pub marketplace_url: Option<Seq<char>>,
    pub docs_url: Option<Seq<char>>,
}

impl View for UprojectPluginEntry {
    type V = UprojectPluginEntryView;

    open spec fn view(&self) -> UprojectPluginEntryView {
        UprojectPluginEntryView {
            name: self.name@,
            enabled: self.enabled,
            marketplace_url: view_opt_str(self.marketplace_url),
            docs_url: view_opt_str(self.docs_url),
        }
    }
}

/// The declared fields of one plugin manifest.
#[derive(Debug, PartialEq)]
pub struct UpluginFile {
    pub friendly_name: Option<String>,
    pub marketplace_url: Option<String>,
    pub docs_url: Option<String>,
}

impl Clone for UpluginFile {
    fn clone(&self) -> (res: Self)
        ensures
            res == *self,
    {
        UpluginFile {
            friendly_name: self.friendly_name.clone(),
            marketplace_url: self.marketplace_url.clone(),
            docs_url: self.docs_url.clone(),
        }
    }
}

/// Ghost image of an `UpluginFile`.
pub ghost struct UpluginFileView {
    pub friendly_name: Option<Seq<char>>,
    pub marketplace_url: Option<Seq<char>>,
    pub docs_url: Option<Seq<char>>,
}

impl View for UpluginFile {
    type V = UpluginFileView;

    open spec fn view(&self) -> UpluginFileView {
        UpluginFileView {
            friendly_name: view_opt_str(self.friendly_name),
            marketplace_url: view_opt_str(self.marketplace_url),
            docs_url: view_opt_str(self.docs_url),
        }
    }
}

/// The declared fields of one project manifest.
#[derive(Debug, PartialEq)]
pub struct ProjectManifest {
    /// Declared description; empty when the manifest declares none.
    pub description: String,
    /// The declared engine version: present exactly when the manifest holds
    /// a string-typed version field (possibly empty).
    pub engine_version: Option<String>,
    /// The declared plugin references, in declaration order.
    pub plugins: Vec<UprojectPluginEntry>,
}

impl Clone for ProjectManifest {
    /// A clone reproduces the manifest exactly, at the level of its view.
    fn clone(&self) -> (res: Self)
        ensures
            res@ == self@,
    {
        let plugins = self.plugins.clone();
        proof {
            assert forall|i: int| 0 <= i < self.plugins@.len() implies plugins@[i]
                == self.plugins@[i] by {
                assert(vstd::pervasive::cloned::<UprojectPluginEntry>(
                    self.plugins[i],
                    plugins[i],
                ));
            }
            assert(plugins@ =~= self.plugins@);
        }
        ProjectManifest {
            description: self.description.clone(),
            engine_version: self.engine_version.clone(),
            plugins,
        }
    }
}

/// Ghost image of a `ProjectManifest`.
pub ghost struct ProjectManifestView {
    pub description: Seq<char>,
    pub engine_version: Option<Seq<char>>,
    pub plugins: Seq<UprojectPluginEntryView>,
}

impl View for ProjectManifest {
    type V = ProjectManifestView;

    open spec fn view(&self) -> ProjectManifestView {
        ProjectManifestView {
            description: self.description@,
            engine_version: view_opt_str(self.engine_version),
            plugins: self.plugins@.map_values(|e: UprojectPluginEntry| e@),
        }
    }
}

/// The declared description, or the documented default — the empty
/// string — when the field was absent or not text.
pub fn default_description(declared: Option<String>) -> (r: String)
    ensures
        r@ == match declared {
            Some(s) => s@,
            None => Seq::<char>::empty(),
        },
{
    match declared {
        Some(s) => s,
        None => String::new(),
    }
}

/// Builds one plugin reference from its separately extracted fields: the
/// name is required, every other field is kept only if it was both present
/// and well-shaped.
pub fn entry_from_fields(
    name: Option<String>,
    enabled: Option<bool>,
    marketplace_url: Option<String>,
    docs_url: Option<String>,
) -> (r: Option<UprojectPluginEntry>)
    ensures
        r is Some <==> name is Some,
        name is Some ==> r == Some(
            UprojectPluginEntry {
                name: name.unwrap(),
                enabled,
                marketplace_url,
                docs_url,
            },
        ),
{
    match name {
        Some(n) => Some(
            UprojectPluginEntry { name: n, enabled, marketplace_url, docs_url },
        ),
        None => None,
    }
}

/// The declared description the text carries, after defaulting: the
/// string under the description key, or empty when the document has none.
pub open spec fn spec_description_of(text: Seq<char>) -> Seq<char> {
    match json_description_of(text) {
        Some(s) => s,
        None => Seq::empty(),
    }
}

/// The plugin reference the i-th declared element yields: its fields as
/// the document declares them, or nothing when the element has no
/// string-typed name.
pub open spec fn spec_plugin_entry_at(text: Seq<char>, i: int) -> Option<UprojectPluginEntryView> {
    match json_plugin_name_of(text, i) {
        Some(name) => Some(
            UprojectPluginEntryView {
                name: name,
                enabled: json_plugin_enabled_of(text, i),
                marketplace_url: json_plugin_marketplace_of(text, i),
                docs_url: json_plugin_docs_of(text, i),
            },
        ),
        None => None,
    }
}

/// The plugin references the first `n` declared elements yield, in
/// declaration order, nameless elements dropped.
pub open spec fn spec_plugin_refs_upto(text: Seq<char>, n: int) -> Seq<UprojectPluginEntryView>
    decreases n,
{
    if n <= 0 {
        Seq::empty()
    } else {
        spec_plugin_refs_upto(text, n - 1) + (match spec_plugin_entry_at(text, n - 1) {
            Some(e) => seq![e],
            None => Seq::empty(),
        })
    }
}

/// Every plugin reference the text declares, after defaulting: nothing
/// when the plugin list is missing or not an array.
pub open spec fn spec_plugin_refs(text: Seq<char>) -> Seq<UprojectPluginEntryView> {
    match json_plugin_count_of(text) {
        Some(n) => spec_plugin_refs_upto(text, n as int),
        None => Seq::empty(),
    }
}

/// Reads the declared fields of a plugin manifest from its text. A text
/// that is not valid structured data yields nothing — the caller logs and
/// skips that plugin; within a valid document each field is kept exactly
/// when it is present and well-shaped.
pub fn parse_uplugin(text: &str) -> (r: Option<UpluginFile>)
    ensures
        r is Some <==> json_accepts(text@),
        r matches Some(u) ==> {
            &&& u@.friendly_name == json_friendly_name_of(text@)
            &&& u@.marketplace_url == json_uplugin_marketplace_of(text@)
            &&& u@.docs_url == json_uplugin_docs_of(text@)
        },
{
    if !json_is_valid(text) {
        return None;
    }
    Some(
        UpluginFile {
            friendly_name: json_extract_friendly_name(text),
            marketplace_url: json_extract_uplugin_marketplace(text),
            docs_url: json_extract_uplugin_docs(text),
        },
    )
}

/// Reads the declared fields of a project manifest from its text.
///
/// This is the hard-failure boundary of manifest reading: it yields
/// nothing exactly when the text is not one valid structured document.
/// Within a valid document every field is soft, and the result is pinned
/// field by field: the description defaults to empty, the engine version
/// is kept exactly when string-typed, and the plugin references are the
/// declared elements in order with nameless elements dropped.
pub fn parse_project_manifest(text: &str) -> (r: Option<ProjectManifest>)
    ensures
        r is Some <==> json_accepts(text@),
        r matches Some(m) ==> {
            &&& m@.description == spec_description_of(text@)
            &&& m@.engine_version == json_engine_of(text@)
            &&& m@.plugins == spec_plugin_refs(text@)
        },
{
    if !json_is_valid(text) {
        return None;
    }
    let description = default_description(json_extract_description(text));
    let engine_version = json_extract_engine(text);
    let count: usize = match json_extract_plugin_count(text) {
        Some(n) => n,
        None => 0,
    };
    proof {
        assert(spec_plugin_refs_upto(text@, 0) == Seq::<UprojectPluginEntryView>::empty());
        assert(spec_plugin_refs(text@) == spec_plugin_refs_upto(text@, count as int));
    }
    let mut plugins: Vec<UprojectPluginEntry> = Vec::new();
    let mut i: usize = 0;
    while i < count
        invariant
            i <= count,
            spec_plugin_refs(text@) == spec_plugin_refs_upto(text@, count as int),
            plugins@.map_values(|e: UprojectPluginEntry| e@) == spec_plugin_refs_upto(
                text@,
                i as int,
            ),
        decreases count - i,
    {
        let ghost pre = plugins@.map_values(|e: UprojectPluginEntry| e@);
        let name = json_extract_plugin_name(text, i);
        let enabled = json_extract_plugin_enabled(text, i);
        let marketplace_url = json_extract_plugin_marketplace(text, i);
        let docs_url = json_extract_plugin_docs(text, i);
        match entry_from_fields(name, enabled, marketplace_url, docs_url) {
            Some(e) => {
                proof {
                    assert(spec_plugin_entry_at(text@, i as int) == Some(e@));
                }
                plugins.push(e);
                proof {
                    assert(plugins@.map_values(|x: UprojectPluginEntry| x@) =~~= pre + seq![e@]);
                    assert(spec_plugin_refs_upto(text@, i as int + 1) == pre + seq![e@]);
                }
            },
            None => {
                proof {
                    assert(spec_plugin_entry_at(text@, i as int) is None);
                    assert(spec_plugin_refs_upto(text@, i as int + 1) =~~= pre);
                }
            },
        }
        i += 1;
    }
    proof {
        assert(view_opt_str(engine_version) == json_engine_of(text@));
    }
    Some(ProjectManifest { description, engine_version, plugins })
}

} // verus!
