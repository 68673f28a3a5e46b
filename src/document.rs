//! The stored document: the whole store written as one JSON object that maps
//! each preset name to its array of command strings.
use vstd::prelude::*;
use crate::store::{presets_map, unique_names, Preset, PresetStore, StoreError, StoreMap};

verus! {

#[verifier::external_type_specification]
#[verifier::external_body]
pub struct ExJsonError(serde_json::Error);

/// The pretty-printed JSON text that `serde_json::to_string_pretty` writes
/// for a name-ordered map of presets.
pub uninterp spec fn json_text(m: StoreMap) -> Seq<char>;

/// The presets that `serde_json::from_str` reads from a text as a map from
/// name to command list; `None` where it rejects the text.
pub uninterp spec fn json_document(s: Seq<char>) -> Option<StoreMap>;

/// Relies on `serde_json::to_string_pretty` on a `BTreeMap`: its output
/// depends on the map's contents alone, and it fails only where a value's
/// `Serialize` impl fails or a map key is not a string, neither of which can
/// happen for a map from strings to lists of strings.
#[verifier::external_body]
fn encode_pretty(presets: &Vec<Preset>) -> (r: Result<String, serde_json::Error>)
    requires
        unique_names(presets@),
    ensures
        r is Ok,
        r->Ok_0@ == json_text(presets_map(presets@)),
{
    let doc: std::collections::BTreeMap<&String, &Vec<String>> = presets.iter().map(
        |p| (&p.name, &p.commands),
    ).collect();
    serde_json::to_string_pretty(&doc)
}

/// Relies on `serde_json::from_str` into a `BTreeMap`, whose keys are
/// unique; what it reads depends on the text alone.
#[verifier::external_body]
fn decode(text: &str) -> (r: Result<Vec<Preset>, serde_json::Error>)
    ensures
        r is Ok <==> json_document(text@) is Some,
        r is Ok ==> unique_names(r->Ok_0@),
        r is Ok ==> presets_map(r->Ok_0@) == json_document(text@)->0,
{
    let doc: std::collections::BTreeMap<String, Vec<String>> = serde_json::from_str(text)?;
    Ok(doc.into_iter().map(|(name, commands)| Preset { name, commands }).collect())
}

impl PresetStore {
    /// The whole store as pretty-printed JSON text.
    pub fn to_json(&self) -> (r: Result<String, StoreError>)
        requires
            self.wf(),
        ensures
            r is Ok,
            match r {
                Ok(t) => t@ == json_text(self@),
                Err(e) => e == StoreError::StorageUnwritable,
            },
    {
        match encode_pretty(self.list()) {
            Ok(t) => Ok(t),
            Err(_) => Err(StoreError::StorageUnwritable),
        }
    }

    /// The store that a JSON text describes; `StorageUnreadable` where the
    /// text is not such a document.
    pub fn from_json(text: &str) -> (r: Result<PresetStore, StoreError>)
        ensures
            r is Ok <==> json_document(text@) is Some,
            match r {
                Ok(st) => st.wf() && st@ == json_document(text@)->0,
                Err(e) => e == StoreError::StorageUnreadable,
            },
    {
        match decode(text) {
            Ok(presets) => Ok(PresetStore::from_presets(presets)),
            Err(_) => Err(StoreError::StorageUnreadable),
        }
    }
}

} // verus!
