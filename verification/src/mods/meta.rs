//! Reading the `meta.json` of a mod.

use vstd::prelude::*;
use vstd::string::StringSliceAdditionalSpecFns;

use crate::error::{IndexError, SchemaError};
use crate::json::{
    as_flag, as_list, as_number, as_text, json_array, json_bool, json_get, json_null, json_of,
    json_str, json_u64, json_view, member, parse_json, read_text, text_at, Json,
};
use crate::mods::{MetaView, ModMeta};

verus! {

/// The flag that an object holds under a key. A flag that is not there is
/// not set.
pub open spec fn flag_at(json: Json, key: Seq<char>) -> Option<bool> {
    match member(json, key) {
        Some(inner) => as_flag(inner),
        None => Some(false),
    }
}

/// The string that an object may hold under a key: none where the key is
/// not there or holds `null`.
pub open spec fn optional_text_at(json: Json, key: Seq<char>) -> Option<Option<Seq<char>>> {
    match member(json, key) {
        Some(inner) => if inner is Null {
            Some(None)
        } else {
            match as_text(inner) {
                Some(text) => Some(Some(text)),
                None => None,
            }
        },
        None => Some(None),
    }
}

/// The number that an object may hold under a key: none where the key is
/// not there or holds `null`.
pub open spec fn optional_number_at(json: Json, key: Seq<char>) -> Option<Option<u64>> {
    match member(json, key) {
        Some(inner) => if inner is Null {
            Some(None)
        } else {
            match as_number(inner) {
                Some(n) => Some(Some(n)),
                None => None,
            }
        },
        None => Some(None),
    }
}

/// The strings that an object holds, as an array, under a key.
pub open spec fn texts_at(json: Json, key: Seq<char>) -> Option<Seq<Seq<char>>> {
    match member(json, key) {
        Some(inner) => match as_list(inner) {
            Some(items) => if forall|i: int|
                0 <= i < items.len() ==> as_text(#[trigger] items[i]) is Some {
                Some(Seq::new(items.len(), |i: int| as_text(items[i])->Some_0))
            } else {
                None
            },
            None => None,
        },
        None => None,
    }
}

/// What a document says as the meta of a mod. It must hold `categories`,
/// `author`, `repo`, `title`, `downloadURL` and `version`; the flags and
/// `folderName` and `last-updated` may be left out.
pub open spec fn meta_of(json: Json) -> Option<MetaView> {
    if flag_at(json, "requires-steamodded"@) is Some && flag_at(json, "requires-talisman"@) is Some
        && texts_at(json, "categories"@) is Some && text_at(json, "author"@) is Some && text_at(
        json,
        "repo"@,
    ) is Some && text_at(json, "title"@) is Some && text_at(json, "downloadURL"@) is Some
        && optional_text_at(json, "folderName"@) is Some && text_at(json, "version"@) is Some
        && flag_at(json, "automatic-version-check"@) is Some && optional_number_at(
        json,
        "last-updated"@,
    ) is Some {
        Some(
            MetaView {
                requires_steamodded: flag_at(json, "requires-steamodded"@)->Some_0,
                requires_talisman: flag_at(json, "requires-talisman"@)->Some_0,
                categories: texts_at(json, "categories"@)->Some_0,
                author: text_at(json, "author"@)->Some_0,
                repo: text_at(json, "repo"@)->Some_0,
                title: text_at(json, "title"@)->Some_0,
                download_url: text_at(json, "downloadURL"@)->Some_0,
                folder_name: optional_text_at(json, "folderName"@)->Some_0,
                version: text_at(json, "version"@)->Some_0,
                automatic_version_check: flag_at(json, "automatic-version-check"@)->Some_0,
                last_updated: optional_number_at(json, "last-updated"@)->Some_0,
            },
        )
    } else {
        None
    }
}

/// What a text says as the meta of a mod, or how it fails to.
pub open spec fn meta_in(text: Seq<u8>) -> Result<MetaView, IndexError> {
    match json_of(text) {
        None => Err(IndexError::Schema(SchemaError::NotJson)),
        Some(json) => match meta_of(json) {
            None => Err(IndexError::Schema(SchemaError::WrongShape)),
            Some(meta) => Ok(meta),
        },
    }
}

/// The flag that an object holds under a key.
fn read_flag(value: &serde_json::Value, key: &str) -> (found: Option<bool>)
    ensures
        found == flag_at(json_view(*value), key@),
{
    match json_get(value, key) {
        Some(inner) => json_bool(inner),
        None => Some(false),
    }
}

/// The string that an object may hold under a key.
fn read_optional_text(value: &serde_json::Value, key: &str) -> (found: Option<Option<String>>)
    ensures
        match optional_text_at(json_view(*value), key@) {
            Some(Some(text)) => found is Some && found->Some_0 is Some
                && found->Some_0->Some_0@ == text,
            Some(None) => found is Some && found->Some_0 is None,
            None => found is None,
        },
{
    match json_get(value, key) {
        Some(inner) => {
            if json_null(inner) {
                Some(None)
            } else {
                match json_str(inner) {
                    Some(text) => Some(Some(text.to_owned())),
                    None => None,
                }
            }
        },
        None => Some(None),
    }
}

/// The number that an object may hold under a key.
fn read_optional_number(value: &serde_json::Value, key: &str) -> (found: Option<Option<u64>>)
    ensures
        found == optional_number_at(json_view(*value), key@),
{
    match json_get(value, key) {
        Some(inner) => {
            if json_null(inner) {
                Some(None)
            } else {
                match json_u64(inner) {
                    Some(n) => Some(Some(n)),
                    None => None,
                }
            }
        },
        None => Some(None),
    }
}

/// The views of a run of strings, in order.
pub open spec fn text_views(texts: Seq<String>) -> Seq<Seq<char>> {
    Seq::new(texts.len(), |i: int| texts[i]@)
}

/// The strings that an object holds, as an array, under a key.
fn read_texts(value: &serde_json::Value, key: &str) -> (found: Option<Vec<String>>)
    ensures
        match texts_at(json_view(*value), key@) {
            Some(texts) => found is Some && text_views(found->Some_0@) == texts,
            None => found is None,
        },
{
    let items = match json_get(value, key) {
        Some(inner) => match json_array(inner) {
            Some(items) => items,
            None => {
                return None;
            },
        },
        None => {
            return None;
        },
    };
    let ghost docs = as_list(member(json_view(*value), key@)->Some_0)->Some_0;
    let mut texts: Vec<String> = Vec::new();
    let mut i: usize = 0;
    while i < items.len()
        invariant
            i <= items@.len(),
            items@.len() == docs.len(),
            member(json_view(*value), key@) is Some,
            as_list(member(json_view(*value), key@)->Some_0) == Some(docs),
            forall|j: int| 0 <= j < docs.len() ==> json_view(#[trigger] items@[j]) == docs[j],
            texts@.len() == i,
            forall|j: int| 0 <= j < i ==> as_text(#[trigger] docs[j]) is Some,
            forall|j: int| 0 <= j < i ==> (#[trigger] texts@[j])@ == as_text(docs[j])->Some_0,
        decreases items@.len() - i,
    {
        match json_str(&items[i]) {
            Some(text) => {
                texts.push(text.to_owned());
            },
            None => {
                assert(as_text(docs[i as int]) is None);
                return None;
            },
        }
        i += 1;
    }
    assert(text_views(texts@) =~= texts_at(json_view(*value), key@)->Some_0);
    Some(texts)
}

impl ModMeta {
    /// Reads the meta of a mod from a parsed document, or finds that the
    /// document is of another shape.
    pub fn from_json(value: &serde_json::Value) -> (meta: Result<ModMeta, IndexError>)
        ensures
            match meta_of(json_view(*value)) {
                Some(view) => meta is Ok && meta->Ok_0@ == view,
                None => meta == Err::<ModMeta, IndexError>(
                    IndexError::Schema(SchemaError::WrongShape),
                ),
            },
    {
        let requires_steamodded = read_flag(value, "requires-steamodded");
        let requires_talisman = read_flag(value, "requires-talisman");
        let categories = read_texts(value, "categories");
        let author = read_text(value, "author");
        let repo = read_text(value, "repo");
        let title = read_text(value, "title");
        let download_url = read_text(value, "downloadURL");
        let folder_name = read_optional_text(value, "folderName");
        let version = read_text(value, "version");
        let automatic_version_check = read_flag(value, "automatic-version-check");
        let last_updated = read_optional_number(value, "last-updated");
        match (
            requires_steamodded,
            requires_talisman,
            categories,
            author,
            repo,
            title,
            download_url,
            folder_name,
            version,
            automatic_version_check,
            last_updated,
        ) {
            (
                Some(requires_steamodded),
                Some(requires_talisman),
                Some(categories),
                Some(author),
                Some(repo),
                Some(title),
                Some(download_url),
                Some(folder_name),
                Some(version),
                Some(automatic_version_check),
                Some(last_updated),
            ) => Ok(
                ModMeta {
                    requires_steamodded,
                    requires_talisman,
                    categories,
                    author,
                    repo,
                    title,
                    download_url,
                    folder_name,
                    version,
                    automatic_version_check,
                    last_updated,
                },
            ),
            _ => Err(IndexError::Schema(SchemaError::WrongShape)),
        }
    }

    /// Reads the meta of a mod from the text of its `meta.json`.
    pub fn from_slice(bytes: &[u8]) -> (meta: Result<ModMeta, IndexError>)
        ensures
            match meta_in(bytes@) {
                Ok(view) => meta is Ok && meta->Ok_0@ == view,
                Err(e) => meta == Err::<ModMeta, IndexError>(e),
            },
    {
        match parse_json(bytes) {
            Ok(value) => ModMeta::from_json(&value),
            Err(_) => Err(IndexError::Schema(SchemaError::NotJson)),
        }
    }
}

impl std::str::FromStr for ModMeta {
    type Err = IndexError;

    /// Reads the meta of a mod from the text of its `meta.json`, as
    /// [`ModMeta::from_slice`] does from its bytes.
    fn from_str(text: &str) -> (meta: Result<ModMeta, IndexError>)
        ensures
            match meta_in(text.spec_bytes()) {
                Ok(view) => meta is Ok && meta->Ok_0@ == view,
                Err(e) => meta == Err::<ModMeta, IndexError>(e),
            },
    {
        ModMeta::from_slice(text.as_bytes())
    }
}

} // verus!
