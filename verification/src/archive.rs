//! Building an index from the files of an archive of its tree.
//!
//! In the archive of a tree the files of a mod stand under
//! `{name}-{rev}…/mods/{mod}/`: its `meta.json`, its `description.md`, and
//! the pointer to its thumbnail as `thumbnail.jpg` or `thumbnail.png`.

use vstd::prelude::*;
use vstd::string::StringExecFns;

use crate::error::{ArchiveError, IndexError};
use crate::forge::{Tree, TreeView};
use crate::lfs::pointer::{parse_pointer, pointer_in};
use crate::lfs::{Blob, BlobView, Pointer, PointerView};
use crate::mods::meta::meta_in;
use crate::mods::{empty_mod, MetaView, Mod, ModId, ModIndex, ModMeta, ModView};
use crate::text::{chars_of, find, first_index, lossy, lossy_text, range_is};

verus! {

/// What a file of a mod is, by its name.
#[derive(Debug, Clone, Copy, PartialEq, Eq, Structural)]
pub enum Part {
    Meta,
    Description,
    Thumbnail,
    Other,
}

/// The first piece of a path: what stands before its first slash.
pub open spec fn head(path: Seq<char>) -> Seq<char> {
    path.take(first_index(path, '/') as int)
}

/// What stands after the first slash of a path, where it has one.
pub open spec fn tail(path: Seq<char>) -> Option<Seq<char>> {
    if first_index(path, '/') < path.len() {
        Some(path.skip(first_index(path, '/') as int + 1))
    } else {
        None
    }
}

/// How the name of the top directory of a tree's archive begins.
pub open spec fn root_of(tree: TreeView) -> Seq<char> {
    tree.name + "-"@ + tree.rev
}

/// Whether `text` begins with `prefix`.
pub open spec fn begins_with(text: Seq<char>, prefix: Seq<char>) -> bool {
    prefix.len() <= text.len() && text.take(prefix.len() as int) == prefix
}

/// What a file with this name is.
pub open spec fn part_of(name: Seq<char>) -> Part {
    if name == "meta.json"@ {
        Part::Meta
    } else if name == "description.md"@ {
        Part::Description
    } else if name == "thumbnail.jpg"@ || name == "thumbnail.png"@ {
        Part::Thumbnail
    } else {
        Part::Other
    }
}

/// Where an entry of the archive belongs: under which mod, and as what.
/// Nowhere, where it is no file or does not stand under `mods` in the top
/// directory of the tree. A file in `mods` itself, or one whose path ends
/// with its mod, breaks the layout.
pub open spec fn place_of(path: Seq<char>, is_file: bool, tree: TreeView) -> Result<
    Option<(Seq<char>, Part)>,
    ArchiveError,
> {
    match tail(path) {
        None => Ok(None),
        Some(under_root) => if !is_file || !begins_with(head(path), root_of(tree)) || head(
            under_root,
        ) != "mods"@ {
            Ok(None)
        } else {
            match tail(under_root) {
                None => Err(ArchiveError::NoModId),
                Some(under_mods) => match tail(under_mods) {
                    None => Err(ArchiveError::NoFile),
                    Some(under_mod) => Ok(Some((head(under_mods), part_of(head(under_mod))))),
                },
            }
        },
    }
}

/// Finds where an entry of the archive belongs.
pub fn classify(path: &str, is_file: bool, tree: &Tree<'_>) -> (found: Result<
    Option<(String, Part)>,
    IndexError,
>)
    ensures
        match place_of(path@, is_file, tree@) {
            Ok(Some((id, part))) => found is Ok && found->Ok_0 is Some && found->Ok_0->Some_0.0@
                == id && found->Ok_0->Some_0.1 == part,
            Ok(None) => found is Ok && found->Ok_0 is None,
            Err(e) => found == Err::<Option<(String, Part)>, IndexError>(IndexError::Archive(e)),
        },
{
    let chars = chars_of(path);
    let len = chars.len();
    let first = find(&chars, '/', 0, len);
    proof {
        assert(chars@.subrange(0, len as int) =~= path@);
    }
    if first == len {
        return Ok(None);
    }
    let second = find(&chars, '/', first + 1, len);
    let ghost under_root = path@.skip(first + 1);
    proof {
        assert(chars@.subrange(first + 1, len as int) =~= under_root);
        assert(head(path@) =~= chars@.subrange(0, first as int));
        assert(head(under_root) =~= chars@.subrange(first + 1, second as int));
    }
    let mut root = String::from_str(tree.name);
    root.append("-");
    root.append(tree.rev);
    let root_len = root.as_str().unicode_len();
    proof {
        if root_len <= first {
            assert(head(path@).take(root_len as int) =~= chars@.subrange(0, root_len as int));
        }
    }
    if !is_file || root_len > first || !range_is(&chars, 0, root_len, root.as_str()) || !range_is(
        &chars,
        first + 1,
        second,
        "mods",
    ) {
        return Ok(None);
    }
    if second == len {
        return Err(IndexError::Archive(ArchiveError::NoModId));
    }
    let third = find(&chars, '/', second + 1, len);
    let ghost under_mods = under_root.skip(second - first);
    proof {
        assert(chars@.subrange(second + 1, len as int) =~= under_mods);
        assert(head(under_mods) =~= chars@.subrange(second + 1, third as int));
    }
    if third == len {
        return Err(IndexError::Archive(ArchiveError::NoFile));
    }
    let fourth = find(&chars, '/', third + 1, len);
    let ghost under_mod = under_mods.skip(third - second);
    proof {
        assert(chars@.subrange(third + 1, len as int) =~= under_mod);
        assert(head(under_mod) =~= chars@.subrange(third + 1, fourth as int));
    }
    let part = if range_is(&chars, third + 1, fourth, "meta.json") {
        Part::Meta
    } else if range_is(&chars, third + 1, fourth, "description.md") {
        Part::Description
    } else if range_is(&chars, third + 1, fourth, "thumbnail.jpg") || range_is(
        &chars,
        third + 1,
        fourth,
        "thumbnail.png",
    ) {
        Part::Thumbnail
    } else {
        Part::Other
    };
    let id = path.substring_char(second + 1, third).to_owned();
    Ok(Some((id, part)))
}

/// What a file says of its mod.
pub enum Change {
    Meta(MetaView),
    Description(Seq<char>),
    Thumbnail(PointerView),
    Nothing,
}

/// What the content of a file says of its mod, or why it cannot be read. A
/// description and a pointer are read as text, with a replacement character
/// for what is no text.
pub open spec fn change_of(part: Part, content: Seq<u8>) -> Result<Change, IndexError> {
    match part {
        Part::Meta => match meta_in(content) {
            Ok(meta) => Ok(Change::Meta(meta)),
            Err(e) => Err(e),
        },
        Part::Description => Ok(Change::Description(lossy_text(content))),
        Part::Thumbnail => match pointer_in(lossy_text(content)) {
            Ok(pointer) => Ok(Change::Thumbnail(pointer)),
            Err(e) => Err(IndexError::Protocol(e)),
        },
        Part::Other => Ok(Change::Nothing),
    }
}

/// A mod after a file said something of it. The thumbnail of a mod is
/// the blob of its pointer, of which nothing else is known yet.
pub open spec fn apply(entry: ModView, change: Change) -> ModView {
    match change {
        Change::Meta(meta) => ModView { meta, ..entry },
        Change::Description(text) => ModView { description: Some(text), ..entry },
        Change::Thumbnail(pointer) => ModView {
            thumbnail: Some(BlobView { pointer, url: None, data: Err(IndexError::NotYetFetched) }),
            ..entry
        },
        Change::Nothing => entry,
    }
}

/// The mods of an index as contracts see them: each id with its mod.
pub open spec fn mod_views(mods: Seq<(ModId, Mod)>) -> Seq<(Seq<char>, ModView)> {
    Seq::new(mods.len(), |i: int| (mods[i].0@, mods[i].1@))
}

/// Whether a mod stands under `id`.
pub open spec fn listed(mods: Seq<(Seq<char>, ModView)>, id: Seq<char>) -> bool {
    exists|i: int| 0 <= i < mods.len() && (#[trigger] mods[i]).0 == id
}

/// Where the first mod under `id` stands; past the end where none does.
pub open spec fn position(mods: Seq<(Seq<char>, ModView)>, id: Seq<char>) -> int {
    if listed(mods, id) {
        choose|i: int|
            0 <= i < mods.len() && (#[trigger] mods[i]).0 == id && forall|j: int|
                0 <= j < i ==> (#[trigger] mods[j]).0 != id
    } else {
        mods.len() as int
    }
}

/// The mods after a file said something of the mod under `id`. A mod that
/// is not listed yet is listed last, with nothing known of it but what the
/// file says.
pub open spec fn changed(mods: Seq<(Seq<char>, ModView)>, id: Seq<char>, change: Change) -> Seq<
    (Seq<char>, ModView),
> {
    let at = position(mods, id);
    let listed = if at < mods.len() {
        mods
    } else {
        mods.push((id, empty_mod()))
    };
    listed.update(at, (id, apply(listed[at].1, change)))
}

/// What a file of the archive makes of the mods of an index, or why the
/// index cannot be built.
pub open spec fn with_file(
    mods: Seq<(Seq<char>, ModView)>,
    tree: TreeView,
    path: Seq<char>,
    is_file: bool,
    content: Seq<u8>,
) -> Result<Seq<(Seq<char>, ModView)>, IndexError> {
    match place_of(path, is_file, tree) {
        Err(e) => Err(IndexError::Archive(e)),
        Ok(None) => Ok(mods),
        Ok(Some((id, part))) => match change_of(part, content) {
            Err(e) => Err(e),
            Ok(change) => Ok(changed(mods, id, change)),
        },
    }
}

/// Whether no id stands twice in the list.
pub open spec fn ids_distinct(mods: Seq<(Seq<char>, ModView)>) -> bool {
    forall|i: int, j: int|
        0 <= i < j < mods.len() ==> (#[trigger] mods[i]).0 != (#[trigger] mods[j]).0
}

/// A file never lists a mod twice: in a list in which no id stands twice,
/// none does after a file said something of a mod. So a list that was built
/// file by file holds each mod once, at the place of its first file.
pub proof fn changed_keeps_ids_distinct(mods: Seq<(Seq<char>, ModView)>, id: Seq<char>, change: Change)
    requires
        ids_distinct(mods),
    ensures
        ids_distinct(changed(mods, id, change)),
        changed(mods, id, change).len() == if listed(mods, id) {
            mods.len()
        } else {
            mods.len() + 1
        },
{
    let at = position(mods, id);
    let after = changed(mods, id, change);
    if listed(mods, id) {
        assert forall|i: int, j: int| 0 <= i < j < after.len() implies (#[trigger] after[i]).0 != (
        #[trigger] after[j]).0 by {
            assert(after[i].0 == mods[i].0);
            assert(after[j].0 == mods[j].0);
        }
    } else {
        assert forall|i: int, j: int| 0 <= i < j < after.len() implies (#[trigger] after[i]).0 != (
        #[trigger] after[j]).0 by {
            assert(after[i] == mods[i]);
            if j < mods.len() {
                assert(after[j] == mods[j]);
            } else {
                assert(after[j].0 == id);
            }
        }
    }
}

/// A place before which no mod stands under `id`, and at which one does or
/// the list ends, is the position of `id`.
proof fn position_found(mods: Seq<(Seq<char>, ModView)>, id: Seq<char>, at: int)
    requires
        0 <= at <= mods.len(),
        forall|j: int| 0 <= j < at ==> (#[trigger] mods[j]).0 != id,
        at < mods.len() ==> mods[at].0 == id,
    ensures
        position(mods, id) == at,
{
    if at < mods.len() {
        assert(listed(mods, id));
        let found = position(mods, id);
        assert(mods[found].0 == id);
        if found < at {
            assert(mods[found].0 != id);
        }
        if at < found {
            assert(mods[at].0 != id);
        }
    } else {
        if listed(mods, id) {
            let i = choose|i: int| 0 <= i < mods.len() && (#[trigger] mods[i]).0 == id;
            assert(mods[i].0 != id);
        }
    }
}

/// What was read from the content of a file.
enum Read {
    Meta(ModMeta),
    Description(String),
    Thumbnail(Pointer),
    Nothing,
}

impl Read {
    /// What was read, as contracts see it.
    spec fn view(self) -> Change {
        match self {
            Read::Meta(meta) => Change::Meta(meta@),
            Read::Description(text) => Change::Description(text@),
            Read::Thumbnail(pointer) => Change::Thumbnail(pointer@),
            Read::Nothing => Change::Nothing,
        }
    }
}

/// Reads the content of a file of a mod.
fn read(part: Part, content: &[u8]) -> (found: Result<Read, IndexError>)
    ensures
        match change_of(part, content@) {
            Ok(change) => found is Ok && found->Ok_0.view() == change,
            Err(e) => found == Err::<Read, IndexError>(e),
        },
{
    match part {
        Part::Meta => match ModMeta::from_slice(content) {
            Ok(meta) => Ok(Read::Meta(meta)),
            Err(e) => Err(e),
        },
        Part::Description => Ok(Read::Description(lossy(content))),
        Part::Thumbnail => {
            let text = lossy(content);
            match parse_pointer(text.as_str()) {
                Ok(pointer) => Ok(Read::Thumbnail(pointer)),
                Err(e) => Err(e),
            }
        },
        Part::Other => Ok(Read::Nothing),
    }
}

impl<'tree> ModIndex<'tree> {
    /// Where the mod under `id` stands. A mod that is not listed yet is
    /// listed last, with nothing known of it.
    pub fn slot(&mut self, id: &str) -> (at: usize)
        ensures
            final(self).repo == old(self).repo,
            at == position(mod_views(old(self).mods@), id@),
            at < final(self).mods@.len(),
            mod_views(final(self).mods@) == (if at < old(self).mods@.len() {
                mod_views(old(self).mods@)
            } else {
                mod_views(old(self).mods@).push((id@, empty_mod()))
            }),
            at < old(self).mods@.len() ==> final(self).mods@ == old(self).mods@,
            final(self).mods@[at as int].0@ == id@,
    {
        let wanted = id.to_owned();
        let mut at: usize = 0;
        while at < self.mods.len()
            invariant
                at <= self.mods@.len(),
                *self == *old(self),
                wanted@ == id@,
                forall|j: int| 0 <= j < at ==> (#[trigger] mod_views(self.mods@)[j]).0 != id@,
            decreases self.mods@.len() - at,
        {
            if self.mods[at].0.0 == wanted {
                proof {
                    position_found(mod_views(self.mods@), id@, at as int);
                }
                return at;
            }
            at += 1;
        }
        proof {
            position_found(mod_views(self.mods@), id@, at as int);
        }
        let ghost before = mod_views(self.mods@);
        self.mods.push((ModId(wanted), Mod::default()));
        assert(mod_views(self.mods@) =~= before.push((id@, empty_mod())));
        at
    }

    /// Takes one entry of the archive of the tree into the index. An entry
    /// that is no file of a mod changes nothing. Where the entry breaks the
    /// layout, or its content cannot be read, nothing is changed and the
    /// index cannot be built.
    pub fn add_file(&mut self, path: &str, is_file: bool, content: &[u8]) -> (done: Result<
        (),
        IndexError,
    >)
        ensures
            final(self).repo == old(self).repo,
            match with_file(mod_views(old(self).mods@), old(self).repo@, path@, is_file, content@) {
                Ok(mods) => done is Ok && mod_views(final(self).mods@) == mods,
                Err(e) => done == Err::<(), IndexError>(e) && final(self).mods@ == old(self).mods@,
            },
            place_of(path@, is_file, old(self).repo@) == Ok::<
                Option<(Seq<char>, Part)>,
                ArchiveError,
            >(None) ==> final(self).mods@ == old(self).mods@,
    {
        let (id, part) = match classify(path, is_file, self.repo) {
            Ok(Some(place)) => place,
            Ok(None) => {
                return Ok(());
            },
            Err(e) => {
                return Err(e);
            },
        };
        let found = match read(part, content) {
            Ok(found) => found,
            Err(e) => {
                return Err(e);
            },
        };
        let ghost before = mod_views(self.mods@);
        let ghost change = found.view();
        let at = self.slot(id.as_str());
        let ghost listed = mod_views(self.mods@);
        match found {
            Read::Meta(meta) => {
                self.mods[at].1.meta = meta;
            },
            Read::Description(text) => {
                self.mods[at].1.description = Some(text);
            },
            Read::Thumbnail(pointer) => {
                self.mods[at].1.thumbnail = Some(Blob::new(pointer));
            },
            Read::Nothing => {},
        }
        assert(mod_views(self.mods@) =~= listed.update(
            at as int,
            (id@, apply(listed[at as int].1, change)),
        ));
        Ok(())
    }
}

} // verus!
