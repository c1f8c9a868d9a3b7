use std::str::FromStr;

use balatro_mod_index::error::{IndexError, SchemaError};
use balatro_mod_index::forge::Tree;
use balatro_mod_index::lfs::{
    BatchResponse, BatchResponseActions, BatchResponseActionsDownload, BatchResponseObject, Blob,
    Pointer,
};
use balatro_mod_index::mods::{Mod, ModId, ModIndex, ModMeta};
use bytes::Bytes;

fn mod_pointer(n: usize) -> Pointer {
    Pointer { oid: format!("oid-{n}"), size: n }
}

fn index_of<'a>(tree: &'a Tree<'a>, thumbs: &[Option<Option<&str>>]) -> ModIndex<'a> {
    let mut index = ModIndex::new(tree);
    for (n, thumb) in thumbs.iter().enumerate() {
        let mut entry = Mod::default();
        entry.meta.title = format!("mod {n}");
        if let Some(url) = thumb {
            let mut blob = Blob::new(mod_pointer(n));
            blob.url = url.map(str::to_string);
            entry.thumbnail = Some(blob);
        }
        index.mods.push((ModId(format!("author@mod{n}")), entry));
    }
    index
}

fn response(pairs: &[(usize, &str)]) -> Result<BatchResponse, IndexError> {
    Ok(BatchResponse {
        objects: pairs
            .iter()
            .map(|(n, href)| BatchResponseObject {
                oid: format!("oid-{n}"),
                size: *n,
                actions: BatchResponseActions {
                    download: BatchResponseActionsDownload { href: href.to_string() },
                },
            })
            .collect(),
    })
}

fn urls(index: &ModIndex<'_>) -> Vec<Option<Option<String>>> {
    index.mods.iter().map(|(_, m)| m.thumbnail.as_ref().map(|b| b.url.clone())).collect()
}

fn pick(entry: &Mod) -> Option<&Pointer> {
    entry.thumbnail.as_ref().map(|blob| &blob.pointer)
}

fn payload_of(text: &str) -> Result<Bytes, IndexError> {
    Ok(Bytes::from(text.as_bytes().to_vec()))
}

#[test]
fn mod_id_is_its_name() {
    let id = ModId("kasimeka@typist".to_string());
    assert_eq!(id.to_string(), "kasimeka@typist");
    assert!(id.is("kasimeka@typist"));
    assert!(!id.is("kasimeka@typis"));
    assert_eq!(id.clone(), id);
    assert_eq!(ModId::default(), ModId(String::new()));
}

#[test]
fn default_mod_knows_nothing() {
    let entry = Mod::default();
    assert!(entry.description.is_none());
    assert!(entry.thumbnail.is_none());
    assert!(entry.meta.categories.is_empty());
    assert_eq!(entry.meta.title, "");
    assert_eq!(entry.meta.last_updated, None);
    assert!(!entry.meta.requires_steamodded);
}

#[test]
fn batch_lfs_on_picks_the_pointers_of_a_page() {
    let tree = Tree::default();
    let index = index_of(&tree, &[Some(None), None, Some(None), Some(None), None]);
    let (pointers, next) = index.batch_lfs_on(pick, 0, 3).unwrap();
    assert_eq!(pointers, vec![&mod_pointer(0), &mod_pointer(2)]);
    assert_eq!(next, 3);
    let (pointers, next) = index.batch_lfs_on(pick, 3, 3).unwrap();
    assert_eq!(pointers, vec![&mod_pointer(3)]);
    assert_eq!(next, 5);
    let (pointers, next) = index.batch_lfs_on(|_| None, 0, 5).unwrap();
    assert!(pointers.is_empty());
    assert_eq!(next, 5);
}

#[test]
fn batch_lfs_on_is_out_of_bounds_at_the_end() {
    let tree = Tree::default();
    let index = index_of(&tree, &[Some(None), None]);
    assert_eq!(index.batch_lfs_on(pick, 2, 1), Err(IndexError::Bounds { offset: 2, len: 2 }));
    let empty = ModIndex::new(&tree);
    assert_eq!(empty.batch_lfs_on(pick, 0, 1), Err(IndexError::Bounds { offset: 0, len: 0 }));
}

#[test]
fn pages_do_not_skip_a_mod() {
    let tree = Tree::default();
    let index = index_of(&tree, &[Some(None); 7]);
    let mut seen = Vec::new();
    let mut offset = 0;
    while let Ok((pointers, next)) = index.batch_lfs_on(pick, offset, 3) {
        seen.extend(pointers.into_iter().cloned());
        offset = next;
    }
    assert_eq!(offset, 7);
    assert_eq!(seen, (0..7).map(mod_pointer).collect::<Vec<_>>());
}

#[test]
fn page_pointers_are_those_that_lack_a_url() {
    let tree = Tree::default();
    let index = index_of(&tree, &[Some(None), Some(Some("known")), None, Some(None), Some(None)]);
    let (pointers, next) = index.page_pointers(0, 4, false).unwrap();
    assert_eq!(pointers, vec![&mod_pointer(0), &mod_pointer(3)]);
    assert_eq!(next, 4);
    let (pointers, next) = index.page_pointers(0, 4, true).unwrap();
    assert_eq!(pointers, vec![&mod_pointer(0), &mod_pointer(1), &mod_pointer(3)]);
    assert_eq!(next, 4);
    let (pointers, next) = index.page_pointers(4, 100, false).unwrap();
    assert_eq!(pointers, vec![&mod_pointer(4)]);
    assert_eq!(next, 5);
    assert_eq!(index.page_pointers(5, 1, false), Err(IndexError::Bounds { offset: 5, len: 5 }));
}

#[test]
fn page_urls_are_stored_by_oid_on_the_page_only() {
    let tree = Tree::default();
    let mut index = index_of(&tree, &[Some(None), Some(Some("known")), None, Some(None), Some(None)]);
    let results = vec![response(&[(3, "u3"), (4, "u4")]), response(&[(0, "u0"), (1, "u1")])];
    assert_eq!(index.store_page_urls(0, 4, false, results), Ok(4));
    assert_eq!(
        urls(&index),
        vec![
            Some(Some("u0".to_string())),
            Some(Some("known".to_string())),
            None,
            Some(Some("u3".to_string())),
            Some(None),
        ]
    );
    assert_eq!(index.mods[3].1.meta.title, "mod 3");
    assert_eq!(index.mods[3].0, ModId("author@mod3".to_string()));
    let results = vec![response(&[(0, "v0"), (1, "v1")])];
    assert_eq!(index.store_page_urls(0, 2, true, results), Ok(2));
    assert_eq!(urls(&index)[0], Some(Some("v0".to_string())));
    assert_eq!(urls(&index)[1], Some(Some("v1".to_string())));
}

#[test]
fn failed_page_resolution_writes_nothing() {
    let tree = Tree::default();
    let mut index = index_of(&tree, &[Some(None), Some(None)]);
    let results = vec![response(&[(0, "u0"), (1, "u1")]), Err(IndexError::Transport)];
    assert_eq!(index.store_page_urls(0, 2, false, results), Err(IndexError::Transport));
    assert_eq!(urls(&index), vec![Some(None), Some(None)]);
    assert_eq!(
        index.store_page_urls(0, 2, false, vec![response(&[(0, "u0")])]),
        Err(IndexError::Schema(SchemaError::MissingObject))
    );
    assert_eq!(urls(&index), vec![Some(None), Some(None)]);
    assert_eq!(
        index.store_page_urls(2, 1, false, vec![Err(IndexError::Transport)]),
        Err(IndexError::Bounds { offset: 2, len: 2 })
    );
    assert_eq!(index.store_page_urls(0, 1, false, vec![response(&[(0, "u0")])]), Ok(1));
    assert_eq!(urls(&index), vec![Some(Some("u0".to_string())), Some(None)]);
}

#[test]
fn page_jobs_are_for_the_thumbnails_with_a_url() {
    let tree = Tree::default();
    let index = index_of(&tree, &[Some(Some("u0")), None, Some(None), Some(Some("u3")), Some(Some("u4"))]);
    let (jobs, next) = index.page_jobs(0, 4).unwrap();
    assert_eq!(next, 4);
    let seen: Vec<(usize, &str, &str)> = jobs.iter().map(|j| (j.index, j.url, j.oid)).collect();
    assert_eq!(seen, vec![(0, "u0", "oid-0"), (3, "u3", "oid-3")]);
    let (jobs, next) = index.page_jobs(3, 9).unwrap();
    assert_eq!(next, 5);
    assert_eq!(jobs.iter().map(|j| j.index).collect::<Vec<_>>(), vec![3, 4]);
    assert_eq!(index.page_jobs(5, 1).err(), Some(IndexError::Bounds { offset: 5, len: 5 }));
}

#[test]
fn page_data_goes_to_the_thumbnails_with_a_url_in_order() {
    let tree = Tree::default();
    let mut index =
        index_of(&tree, &[Some(Some("u0")), None, Some(None), Some(Some("u3")), Some(Some("u4"))]);
    let outcomes = vec![payload_of("zero"), Err(IndexError::Transport)];
    assert_eq!(index.store_page_data(0, 4, false, outcomes), Ok(4));
    let got: Vec<Option<Result<Bytes, IndexError>>> =
        index.mods.iter().map(|(_, m)| m.thumbnail.as_ref().map(|b| b.data.clone())).collect();
    assert_eq!(
        got,
        vec![
            Some(payload_of("zero")),
            None,
            Some(Err(IndexError::NotYetFetched)),
            Some(Err(IndexError::Transport)),
            Some(Err(IndexError::NotYetFetched)),
        ]
    );
    assert_eq!(index.store_page_data(3, 2, false, vec![payload_of("three"), payload_of("four")]), Ok(5));
    assert_eq!(index.mods[3].1.thumbnail.as_ref().unwrap().data, payload_of("three"));
    assert_eq!(index.mods[4].1.thumbnail.as_ref().unwrap().data, payload_of("four"));
    assert_eq!(index.store_page_data(3, 2, false, vec![Err(IndexError::Transport)]), Ok(5));
    assert_eq!(index.mods[3].1.thumbnail.as_ref().unwrap().data, payload_of("three"));
    assert_eq!(
        index.store_page_data(5, 2, false, vec![payload_of("x")]),
        Err(IndexError::Bounds { offset: 5, len: 5 })
    );
}

#[test]
fn meta_is_read_from_its_json() {
    let text = r#"{
        "title": "Typist",
        "requires-steamodded": true,
        "requires-talisman": false,
        "categories": ["Quality of Life", "Miscellaneous"],
        "author": "kasimeka",
        "repo": "https://github.com/kasimeka/balatro-typist-mod",
        "downloadURL": "https://github.com/kasimeka/balatro-typist-mod/archive/refs/tags/1.8.5.zip",
        "folderName": "typist",
        "version": "1.8.5",
        "automatic-version-check": true,
        "last-updated": 1749740266,
        "something-new": [1, 2, 3]
    }"#;
    let meta = ModMeta::from_slice(text.as_bytes()).unwrap();
    assert!(meta.requires_steamodded);
    assert!(!meta.requires_talisman);
    assert_eq!(meta.categories, vec!["Quality of Life".to_string(), "Miscellaneous".to_string()]);
    assert_eq!(meta.author, "kasimeka");
    assert_eq!(meta.repo, "https://github.com/kasimeka/balatro-typist-mod");
    assert_eq!(meta.title, "Typist");
    assert_eq!(meta.download_url, "https://github.com/kasimeka/balatro-typist-mod/archive/refs/tags/1.8.5.zip");
    assert_eq!(meta.folder_name, Some("typist".to_string()));
    assert_eq!(meta.version, "1.8.5");
    assert!(meta.automatic_version_check);
    assert_eq!(meta.last_updated, Some(1749740266));
    let again = ModMeta::from_str(text).unwrap();
    assert_eq!(again.title, "Typist");
    let value: serde_json::Value = serde_json::from_str(text).unwrap();
    assert_eq!(ModMeta::from_json(&value).unwrap().version, "1.8.5");
}

#[test]
fn meta_may_leave_out_flags_and_optional_fields() {
    let text = r#"{"categories":[],"author":"a","repo":"r","title":"t","downloadURL":"d",
                   "version":"v","folderName":null,"last-updated":null}"#;
    let meta = ModMeta::from_slice(text.as_bytes()).unwrap();
    assert!(!meta.requires_steamodded);
    assert!(!meta.requires_talisman);
    assert!(!meta.automatic_version_check);
    assert!(meta.categories.is_empty());
    assert_eq!(meta.folder_name, None);
    assert_eq!(meta.last_updated, None);
    let bare = r#"{"categories":[],"author":"a","repo":"r","title":"t","downloadURL":"d","version":"v"}"#;
    let meta = ModMeta::from_slice(bare.as_bytes()).unwrap();
    assert_eq!(meta.folder_name, None);
    assert_eq!(meta.last_updated, None);
}

#[test]
fn meta_of_another_shape_is_rejected() {
    let wrong = Some(IndexError::Schema(SchemaError::WrongShape));
    let texts = [
        r#"{"categories":[],"author":"a","repo":"r","title":"t","downloadURL":"d"}"#,
        r#"{"categories":"x","author":"a","repo":"r","title":"t","downloadURL":"d","version":"v"}"#,
        r#"{"categories":[1],"author":"a","repo":"r","title":"t","downloadURL":"d","version":"v"}"#,
        r#"{"categories":[],"author":null,"repo":"r","title":"t","downloadURL":"d","version":"v"}"#,
        r#"{"categories":[],"author":"a","repo":"r","title":"t","downloadURL":"d","version":"v","requires-steamodded":null}"#,
        r#"{"categories":[],"author":"a","repo":"r","title":"t","downloadURL":"d","version":"v","automatic-version-check":"yes"}"#,
        r#"{"categories":[],"author":"a","repo":"r","title":"t","downloadURL":"d","version":"v","last-updated":-4}"#,
        r#"{"categories":[],"author":"a","repo":"r","title":"t","downloadURL":"d","version":"v","folderName":5}"#,
        r#"[]"#,
        r#""meta""#,
    ];
    for text in texts {
        assert_eq!(ModMeta::from_slice(text.as_bytes()).err(), wrong);
    }
    assert_eq!(
        ModMeta::from_slice(b"title: Typist").err(),
        Some(IndexError::Schema(SchemaError::NotJson))
    );
    assert_eq!(ModMeta::from_str("").err(), Some(IndexError::Schema(SchemaError::NotJson)));
}
