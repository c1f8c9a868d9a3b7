use balatro_mod_index::archive::{classify, Part};
use balatro_mod_index::error::{ArchiveError, IndexError, ProtocolError, SchemaError};
use balatro_mod_index::forge::{Forge, Tree};
use balatro_mod_index::lfs::Pointer;
use balatro_mod_index::mods::{ModId, ModIndex};

const META: &str =
    r#"{"categories":["Content"],"author":"a","repo":"r","title":"t","downloadURL":"d","version":"v"}"#;
const POINTER: &str = "version https://git-lfs.github.com/spec/v1\noid sha256:abcd\nsize 42\n";

fn found(id: &str, part: Part) -> Result<Option<(String, Part)>, IndexError> {
    Ok(Some((id.to_string(), part)))
}

#[test]
fn files_of_a_mod_are_told_by_their_names() {
    let tree = Tree::default();
    assert_eq!(classify("repo-main/mods/a@b/meta.json", true, &tree), found("a@b", Part::Meta));
    assert_eq!(classify("repo-main/mods/a@b/description.md", true, &tree), found("a@b", Part::Description));
    assert_eq!(classify("repo-main/mods/a@b/thumbnail.jpg", true, &tree), found("a@b", Part::Thumbnail));
    assert_eq!(classify("repo-main/mods/a@b/thumbnail.png", true, &tree), found("a@b", Part::Thumbnail));
    assert_eq!(classify("repo-main/mods/a@b/thumbnail.gif", true, &tree), found("a@b", Part::Other));
    assert_eq!(classify("repo-main/mods/a@b/meta.json/x", true, &tree), found("a@b", Part::Meta));
    assert_eq!(classify("repo-main/mods/a@b/", true, &tree), found("a@b", Part::Other));
    assert_eq!(classify("repo-main/mods//meta.json", true, &tree), found("", Part::Meta));
}

#[test]
fn top_directory_may_go_on_after_name_and_revision() {
    let tree = Tree::default();
    assert_eq!(
        classify("repo-main-0123abcd/mods/a@b/meta.json", true, &tree),
        found("a@b", Part::Meta)
    );
    assert_eq!(classify("repo-mai/mods/a@b/meta.json", true, &tree), Ok(None));
    assert_eq!(classify("xrepo-main/mods/a@b/meta.json", true, &tree), Ok(None));
    let other = Tree { hostname: "h", namespace: "n", name: "idx", rev: "v2", forge: Forge::GitHub };
    assert_eq!(classify("idx-v2/mods/m/meta.json", true, &other), found("m", Part::Meta));
    assert_eq!(classify("repo-main/mods/m/meta.json", true, &other), Ok(None));
}

#[test]
fn entries_outside_mods_and_directories_belong_nowhere() {
    let tree = Tree::default();
    assert_eq!(classify("repo-main/README.md", true, &tree), Ok(None));
    assert_eq!(classify("repo-main/schema/meta.json", true, &tree), Ok(None));
    assert_eq!(classify("repo-main/mods/a@b/meta.json", false, &tree), Ok(None));
    assert_eq!(classify("repo-main/mods/", false, &tree), Ok(None));
    assert_eq!(classify("repo-main", true, &tree), Ok(None));
    assert_eq!(classify("", true, &tree), Ok(None));
    assert_eq!(classify("repo-main/Mods/a@b/meta.json", true, &tree), Ok(None));
}

#[test]
fn files_that_break_the_layout_are_errors() {
    let tree = Tree::default();
    assert_eq!(
        classify("repo-main/mods", true, &tree),
        Err(IndexError::Archive(ArchiveError::NoModId))
    );
    assert_eq!(
        classify("repo-main/mods/README.md", true, &tree),
        Err(IndexError::Archive(ArchiveError::NoFile))
    );
}

#[test]
fn index_is_built_file_by_file() {
    let tree = Tree::default();
    let mut index = ModIndex::new(&tree);
    assert_eq!(index.add_file("repo-main/", false, b""), Ok(()));
    assert_eq!(index.add_file("repo-main/mods/b@two/description.md", true, b"# Two\n"), Ok(()));
    assert_eq!(index.add_file("repo-main/mods/a@one/meta.json", true, META.as_bytes()), Ok(()));
    assert_eq!(index.add_file("repo-main/mods/a@one/thumbnail.jpg", true, POINTER.as_bytes()), Ok(()));
    assert_eq!(index.add_file("repo-main/mods/b@two/meta.json", true, META.as_bytes()), Ok(()));
    assert_eq!(index.add_file("repo-main/mods/c@three/notes.txt", true, b"hm"), Ok(()));
    assert_eq!(index.add_file("repo-main/LICENSE", true, b"MIT"), Ok(()));

    let ids: Vec<&ModId> = index.mods.iter().map(|(id, _)| id).collect();
    assert_eq!(
        ids,
        vec![&ModId("b@two".to_string()), &ModId("a@one".to_string()), &ModId("c@three".to_string())]
    );
    let two = &index.mods[0].1;
    assert_eq!(two.description, Some("# Two\n".to_string()));
    assert_eq!(two.meta.title, "t");
    assert!(two.thumbnail.is_none());
    let one = &index.mods[1].1;
    assert_eq!(one.meta.categories, vec!["Content".to_string()]);
    assert_eq!(one.description, None);
    let thumbnail = one.thumbnail.as_ref().unwrap();
    assert_eq!(thumbnail.pointer, Pointer { oid: "abcd".to_string(), size: 42 });
    assert_eq!(thumbnail.url, None);
    assert_eq!(thumbnail.data, Err(IndexError::NotYetFetched));
    let three = &index.mods[2].1;
    assert_eq!(three.meta.title, "");
    assert!(three.description.is_none() && three.thumbnail.is_none());
}

#[test]
fn later_file_replaces_what_an_earlier_one_said() {
    let tree = Tree::default();
    let mut index = ModIndex::new(&tree);
    index.add_file("repo-main/mods/m/description.md", true, b"old").unwrap();
    index.add_file("repo-main/mods/m/thumbnail.jpg", true, POINTER.as_bytes()).unwrap();
    index.add_file("repo-main/mods/m/description.md", true, b"new").unwrap();
    index.add_file("repo-main/mods/m/thumbnail.png", true, b"oid sha256:ef\nsize 1").unwrap();
    assert_eq!(index.mods.len(), 1);
    assert_eq!(index.mods[0].1.description, Some("new".to_string()));
    assert_eq!(
        index.mods[0].1.thumbnail.as_ref().unwrap().pointer,
        Pointer { oid: "ef".to_string(), size: 1 }
    );
}

#[test]
fn text_that_is_no_utf8_is_read_with_replacements() {
    let tree = Tree::default();
    let mut index = ModIndex::new(&tree);
    index.add_file("repo-main/mods/m/description.md", true, &[b'a', 0xff, b'b']).unwrap();
    assert_eq!(index.mods[0].1.description, Some("a\u{fffd}b".to_string()));
    index.add_file("repo-main/mods/m/description.md", true, "d\u{e9}j\u{e0}".as_bytes()).unwrap();
    assert_eq!(index.mods[0].1.description, Some("d\u{e9}j\u{e0}".to_string()));
}

#[test]
fn file_that_cannot_be_read_changes_nothing() {
    let tree = Tree::default();
    let mut index = ModIndex::new(&tree);
    index.add_file("repo-main/mods/m/description.md", true, b"kept").unwrap();
    assert_eq!(
        index.add_file("repo-main/mods/n/meta.json", true, b"{}"),
        Err(IndexError::Schema(SchemaError::WrongShape))
    );
    assert_eq!(
        index.add_file("repo-main/mods/n/meta.json", true, b"not json"),
        Err(IndexError::Schema(SchemaError::NotJson))
    );
    assert_eq!(
        index.add_file("repo-main/mods/n/thumbnail.jpg", true, b"oid sha1:abcd"),
        Err(IndexError::Protocol(ProtocolError::HashAlgorithm))
    );
    assert_eq!(
        index.add_file("repo-main/mods/n", true, b""),
        Err(IndexError::Archive(ArchiveError::NoFile))
    );
    assert_eq!(
        index.add_file("repo-main/mods", true, b""),
        Err(IndexError::Archive(ArchiveError::NoModId))
    );
    assert_eq!(index.mods.len(), 1);
    assert_eq!(index.mods[0].0, ModId("m".to_string()));
    assert_eq!(index.mods[0].1.description, Some("kept".to_string()));
}

#[test]
fn slot_finds_a_mod_or_lists_it_last() {
    let tree = Tree::default();
    let mut index = ModIndex::new(&tree);
    assert_eq!(index.slot("a"), 0);
    assert_eq!(index.slot("b"), 1);
    assert_eq!(index.slot("a"), 0);
    assert_eq!(index.slot(""), 2);
    assert_eq!(index.mods.len(), 3);
    assert_eq!(index.mods[1].0, ModId("b".to_string()));
    assert!(index.mods[1].1.thumbnail.is_none());
}
