//! The index: an ordered collection of mods, walked page by page.

use vstd::prelude::*;

use crate::cursor::{next_offset, page_end};
use crate::error::{IndexError, SchemaError};
use crate::forge::Tree;
use crate::lfs::batch::{
    find_href, first_error, first_failure, lookup_url, pending, resolved, responses_of, wants_url,
};
use crate::lfs::fetch::{fetched, outcome_view, FetchJob};
use crate::lfs::{pointer_views, BatchResponse, Blob, BlobView, Pointer};

pub mod meta;

verus! {

/// The name under which a mod stands in the index.
#[derive(Debug, PartialEq, Eq, Hash)]
pub struct ModId(pub String);

impl View for ModId {
    type V = Seq<char>;

    open spec fn view(&self) -> Seq<char> {
        self.0@
    }
}

impl Clone for ModId {
    fn clone(&self) -> (copy: Self)
        ensures
            copy@ == self@,
    {
        ModId(self.0.clone())
    }
}

impl Default for ModId {
    fn default() -> (id: Self)
        ensures
            id@ == Seq::<char>::empty(),
    {
        ModId(String::new())
    }
}

impl ModId {
    /// The name as text.
    pub fn to_string(&self) -> (text: String)
        ensures
            text@ == self@,
    {
        self.0.clone()
    }

    /// Whether this is the id with the name `other`.
    pub fn is(&self, other: &str) -> (same: bool)
        ensures
            same == (self@ == other@),
    {
        self.0 == other.to_owned()
    }
}

/// What the index says of a mod in its `meta.json`.
#[derive(Debug, Clone)]
pub struct ModMeta {
    pub requires_steamodded: bool,
    pub requires_talisman: bool,
    pub categories: Vec<String>,
    pub author: String,
    pub repo: String,
    pub title: String,
    pub download_url: String,
    pub folder_name: Option<String>,
    pub version: String,
    pub automatic_version_check: bool,
    pub last_updated: Option<u64>,
}

/// The meta of a mod as contracts see it.
pub struct MetaView {
    pub requires_steamodded: bool,
    pub requires_talisman: bool,
    pub categories: Seq<Seq<char>>,
    pub author: Seq<char>,
    pub repo: Seq<char>,
    pub title: Seq<char>,
    pub download_url: Seq<char>,
    pub folder_name: Option<Seq<char>>,
    pub version: Seq<char>,
    pub automatic_version_check: bool,
    pub last_updated: Option<u64>,
}

impl View for ModMeta {
    type V = MetaView;

    open spec fn view(&self) -> MetaView {
        MetaView {
            requires_steamodded: self.requires_steamodded,
            requires_talisman: self.requires_talisman,
            categories: Seq::new(self.categories@.len(), |i: int| self.categories@[i]@),
            author: self.author@,
            repo: self.repo@,
            title: self.title@,
            download_url: self.download_url@,
            folder_name: match self.folder_name {
                Some(name) => Some(name@),
                None => None,
            },
            version: self.version@,
            automatic_version_check: self.automatic_version_check,
            last_updated: self.last_updated,
        }
    }
}

/// The meta with no text, no category and no flag set.
pub open spec fn empty_meta() -> MetaView {
    MetaView {
        requires_steamodded: false,
        requires_talisman: false,
        categories: Seq::empty(),
        author: Seq::empty(),
        repo: Seq::empty(),
        title: Seq::empty(),
        download_url: Seq::empty(),
        folder_name: None,
        version: Seq::empty(),
        automatic_version_check: false,
        last_updated: None,
    }
}

impl Default for ModMeta {
    /// The meta with no text, no category and no flag set.
    fn default() -> (meta: Self)
        ensures
            meta@ == empty_meta(),
    {
        let meta = ModMeta {
            requires_steamodded: false,
            requires_talisman: false,
            categories: Vec::new(),
            author: String::new(),
            repo: String::new(),
            title: String::new(),
            download_url: String::new(),
            folder_name: None,
            version: String::new(),
            automatic_version_check: false,
            last_updated: None,
        };
        assert(meta@.categories =~= Seq::<Seq<char>>::empty());
        meta
    }
}

/// One mod of the index.
#[derive(Debug, Clone)]
pub struct Mod {
    pub meta: ModMeta,
    pub description: Option<String>,
    pub thumbnail: Option<Blob>,
}

/// A mod as contracts see it.
pub struct ModView {
    pub meta: MetaView,
    pub description: Option<Seq<char>>,
    pub thumbnail: Option<BlobView>,
}

impl View for Mod {
    type V = ModView;

    open spec fn view(&self) -> ModView {
        ModView {
            meta: self.meta@,
            description: match self.description {
                Some(text) => Some(text@),
                None => None,
            },
            thumbnail: match self.thumbnail {
                Some(blob) => Some(blob@),
                None => None,
            },
        }
    }
}

/// The mod of which nothing is known.
pub open spec fn empty_mod() -> ModView {
    ModView { meta: empty_meta(), description: None, thumbnail: None }
}

impl Default for Mod {
    /// The mod of which nothing is known.
    fn default() -> (entry: Self)
        ensures
            entry@ == empty_mod(),
    {
        Mod { meta: ModMeta::default(), description: None, thumbnail: None }
    }
}

/// The mods of one tree, in the order in which pages walk them.
#[derive(Debug, Clone)]
pub struct ModIndex<'tree> {
    pub mods: Vec<(ModId, Mod)>,
    pub repo: &'tree Tree<'tree>,
}

/// The thumbnail of a mod as contracts see it.
pub open spec fn thumbnail_view(entry: (ModId, Mod)) -> Option<BlobView> {
    match entry.1.thumbnail {
        Some(blob) => Some(blob@),
        None => None,
    }
}

/// The values that `picks` hold, in their order.
pub open spec fn picked<T>(picks: Seq<Option<T>>) -> Seq<T>
    decreases picks.len(),
{
    if picks.len() == 0 {
        Seq::empty()
    } else if picks.last() is Some {
        picked(picks.drop_last()).push(picks.last()->Some_0)
    } else {
        picked(picks.drop_last())
    }
}

impl<'tree> ModIndex<'tree> {
    /// An index of `tree` without mods.
    pub fn new(tree: &'tree Tree<'tree>) -> (index: Self)
        ensures
            index.mods@.len() == 0,
            index.repo == tree,
    {
        ModIndex { mods: Vec::new(), repo: tree }
    }

    /// The pointers that `f` picks from the mods of one page, in the order
    /// of the mods, with the offset of the page after it. The page starts at
    /// `offset` and holds up to `count` mods; a mod from which `f` picks
    /// nothing adds nothing. `f` is called on the mods of the page and on
    /// no other.
    pub fn batch_lfs_on<'a, F>(&'a self, f: F, offset: usize, count: usize) -> (found: Result<
        (Vec<&'a Pointer>, usize),
        IndexError,
    >) where F: Fn(&'a Mod) -> Option<&'a Pointer>
        requires
            forall|i: int|
                offset <= i < page_end(self.mods@.len(), offset as nat, count as nat)
                    ==> call_requires(f, (&self.mods@[i].1,)),
        ensures
            offset >= self.mods@.len() ==> found == Err::<(Vec<&'a Pointer>, usize), IndexError>(
                IndexError::Bounds { offset, len: self.mods@.len() as usize },
            ),
            offset < self.mods@.len() ==> found is Ok && found->Ok_0.1 == page_end(
                self.mods@.len(),
                offset as nat,
                count as nat,
            ) && exists|picks: Seq<Option<&'a Pointer>>|
                {
                    &&& picks.len() == found->Ok_0.1 - offset
                    &&& forall|k: int|
                        0 <= k < picks.len() ==> call_ensures(
                            f,
                            (&self.mods@[offset + k].1,),
                            #[trigger] picks[k],
                        )
                    &&& found->Ok_0.0@ == picked(picks)
                },
    {
        let next = match next_offset(self.mods.len(), offset, count) {
            Ok(next) => next,
            Err(e) => {
                return Err(e);
            },
        };
        let mut pointers: Vec<&'a Pointer> = Vec::new();
        let ghost mut picks: Seq<Option<&'a Pointer>> = Seq::empty();
        let mut i = offset;
        while i < next
            invariant
                offset <= i <= next <= self.mods@.len(),
                forall|i: int| offset <= i < next ==> call_requires(f, (&self.mods@[i].1,)),
                picks.len() == i - offset,
                forall|k: int|
                    0 <= k < picks.len() ==> call_ensures(
                        f,
                        (&self.mods@[offset + k].1,),
                        #[trigger] picks[k],
                    ),
                pointers@ == picked(picks),
            decreases next - i,
        {
            let pick = f(&self.mods[i].1);
            proof {
                assert(picks.push(pick).drop_last() =~= picks);
                picks = picks.push(pick);
            }
            match pick {
                Some(pointer) => {
                    pointers.push(pointer);
                },
                None => {},
            }
            i += 1;
        }
        Ok((pointers, next))
    }
}

/// Whether two entries differ in nothing but what their thumbnails hold.
pub open spec fn same_but_thumbnail(before: (ModId, Mod), after: (ModId, Mod)) -> bool {
    &&& after.0 == before.0
    &&& after.1.meta == before.1.meta
    &&& after.1.description == before.1.description
    &&& after.1.thumbnail is Some <==> before.1.thumbnail is Some
}

/// The thumbnails of the mods from `from` up to `to`, in their order.
pub open spec fn page_blobs(mods: Seq<(ModId, Mod)>, from: int, to: int) -> Seq<BlobView> {
    picked(Seq::new((to - from) as nat, |k: int| thumbnail_view(mods[from + k])))
}

/// Whether `responses` hold a URL for every thumbnail from `from` up to
/// `to` that asks for one.
pub open spec fn page_resolvable(
    mods: Seq<(ModId, Mod)>,
    from: int,
    to: int,
    refresh: bool,
    responses: Seq<BatchResponse>,
) -> bool {
    forall|i: int|
        from <= i < to && thumbnail_view(#[trigger] mods[i]) is Some && wants_url(
            thumbnail_view(mods[i])->Some_0,
            refresh,
        ) ==> find_href(thumbnail_view(mods[i])->Some_0.pointer.oid, responses) is Some
}

/// Whether the mod at `i` has a thumbnail with a URL.
pub open spec fn has_url(mods: Seq<(ModId, Mod)>, i: int) -> bool {
    thumbnail_view(mods[i]) is Some && thumbnail_view(mods[i])->Some_0.url is Some
}

/// The places of the mods from `from` up to `to` whose thumbnails have a
/// URL, in their order.
pub open spec fn page_fetchable(mods: Seq<(ModId, Mod)>, from: int, to: int) -> Seq<int>
    decreases to - from,
{
    if to <= from {
        Seq::empty()
    } else if has_url(mods, to - 1) {
        page_fetchable(mods, from, to - 1).push(to - 1)
    } else {
        page_fetchable(mods, from, to - 1)
    }
}

impl<'tree> ModIndex<'tree> {
    /// The pointers to resolve for one page: those of its thumbnails
    /// without a URL, or of all its thumbnails where `refresh` is set, in
    /// the order of the mods; with the offset of the page after it.
    pub fn page_pointers<'a>(&'a self, offset: usize, count: usize, refresh: bool) -> (found:
        Result<(Vec<&'a Pointer>, usize), IndexError>)
        ensures
            offset >= self.mods@.len() ==> found == Err::<(Vec<&'a Pointer>, usize), IndexError>(
                IndexError::Bounds { offset, len: self.mods@.len() as usize },
            ),
            offset < self.mods@.len() ==> {
                &&& found is Ok
                &&& found->Ok_0.1 == page_end(self.mods@.len(), offset as nat, count as nat)
                &&& pointer_views(found->Ok_0.0@) == pending(
                    page_blobs(self.mods@, offset as int, found->Ok_0.1 as int),
                    refresh,
                )
            },
    {
        let next = match next_offset(self.mods.len(), offset, count) {
            Ok(next) => next,
            Err(e) => {
                return Err(e);
            },
        };
        let mut pointers: Vec<&'a Pointer> = Vec::new();
        let mut i = offset;
        assert(page_blobs(self.mods@, offset as int, offset as int) =~= Seq::<BlobView>::empty());
        while i < next
            invariant
                offset <= i <= next <= self.mods@.len(),
                pointer_views(pointers@) == pending(
                    page_blobs(self.mods@, offset as int, i as int),
                    refresh,
                ),
            decreases next - i,
        {
            let ghost before = pointer_views(pointers@);
            let ghost thumbs = Seq::new(
                (i + 1 - offset) as nat,
                |k: int| thumbnail_view(self.mods@[offset + k]),
            );
            proof {
                assert(thumbs.drop_last() =~= Seq::new(
                    (i - offset) as nat,
                    |k: int| thumbnail_view(self.mods@[offset + k]),
                ));
                assert(thumbs.last() == thumbnail_view(self.mods@[i as int]));
            }
            match &self.mods[i].1.thumbnail {
                Some(blob) => {
                    let ghost blobs = page_blobs(self.mods@, offset as int, i as int);
                    assert(page_blobs(self.mods@, offset as int, i + 1) == blobs.push(blob@));
                    assert(blobs.push(blob@).drop_last() =~= blobs);
                    if refresh || blob.url.is_none() {
                        pointers.push(&blob.pointer);
                        assert(pointer_views(pointers@) =~= before.push(blob@.pointer));
                    }
                },
                None => {},
            }
            i += 1;
        }
        Ok((pointers, next))
    }

    /// Ends the resolution of one page: takes what the batch requests gave
    /// and writes the URLs into the thumbnails of the page. Where a request
    /// failed, or the responses lack the object of a pointer that was asked
    /// for, nothing is written and the whole resolution fails. The answer is
    /// the offset of the page after this one.
    pub fn store_page_urls(
        &mut self,
        offset: usize,
        count: usize,
        refresh: bool,
        results: Vec<Result<BatchResponse, IndexError>>,
    ) -> (done: Result<usize, IndexError>)
        ensures
            final(self).repo == old(self).repo,
            final(self).mods@.len() == old(self).mods@.len(),
            done is Err ==> final(self).mods@ == old(self).mods@,
            offset >= old(self).mods@.len() ==> done == Err::<usize, IndexError>(
                IndexError::Bounds { offset, len: old(self).mods@.len() as usize },
            ),
            offset < old(self).mods@.len() ==> (match first_error(results@) {
                Some(e) => done == Err::<usize, IndexError>(e),
                None => {
                    let next = page_end(old(self).mods@.len(), offset as nat, count as nat) as int;
                    if page_resolvable(
                        old(self).mods@,
                        offset as int,
                        next,
                        refresh,
                        responses_of(results@),
                    ) {
                        &&& done == Ok::<usize, IndexError>(next as usize)
                        &&& forall|i: int|
                            0 <= i < old(self).mods@.len() ==> same_but_thumbnail(
                                old(self).mods@[i],
                                #[trigger] final(self).mods@[i],
                            )
                        &&& forall|i: int|
                            0 <= i < old(self).mods@.len() && thumbnail_view(old(self).mods@[i])
                                is Some ==> thumbnail_view(#[trigger] final(self).mods@[i])
                                == Some(
                                if offset <= i < next {
                                    resolved(
                                        thumbnail_view(old(self).mods@[i])->Some_0,
                                        refresh,
                                        responses_of(results@),
                                    )
                                } else {
                                    thumbnail_view(old(self).mods@[i])->Some_0
                                },
                            )
                    } else {
                        done == Err::<usize, IndexError>(
                            IndexError::Schema(SchemaError::MissingObject),
                        )
                    }
                },
            }),
    {
        let next = match next_offset(self.mods.len(), offset, count) {
            Ok(next) => next,
            Err(e) => {
                return Err(e);
            },
        };
        let responses = match first_failure(results) {
            Ok(responses) => responses,
            Err(e) => {
                return Err(e);
            },
        };
        let mut i = offset;
        while i < next
            invariant
                offset <= i <= next <= self.mods@.len(),
                next == page_end(old(self).mods@.len(), offset as nat, count as nat),
                *self == *old(self),
                responses@ == responses_of(results@),
                first_error(results@) is None,
                page_resolvable(self.mods@, offset as int, i as int, refresh, responses@),
            decreases next - i,
        {
            match &self.mods[i].1.thumbnail {
                Some(blob) => {
                    if refresh || blob.url.is_none() {
                        if lookup_url(&blob.pointer.oid, &responses).is_none() {
                            assert(wants_url(thumbnail_view(self.mods@[i as int])->Some_0, refresh));
                            return Err(IndexError::Schema(SchemaError::MissingObject));
                        }
                    }
                },
                None => {},
            }
            i += 1;
        }
        let mut i = offset;
        while i < next
            invariant
                offset <= i <= next <= self.mods@.len(),
                next == page_end(old(self).mods@.len(), offset as nat, count as nat),
                self.repo == old(self).repo,
                self.mods@.len() == old(self).mods@.len(),
                responses@ == responses_of(results@),
                first_error(results@) is None,
                page_resolvable(old(self).mods@, offset as int, next as int, refresh, responses@),
                forall|j: int|
                    0 <= j < self.mods@.len() ==> same_but_thumbnail(
                        old(self).mods@[j],
                        #[trigger] self.mods@[j],
                    ),
                forall|j: int|
                    offset <= j < i && thumbnail_view(old(self).mods@[j]) is Some
                        ==> thumbnail_view(#[trigger] self.mods@[j]) == Some(
                        resolved(
                            thumbnail_view(old(self).mods@[j])->Some_0,
                            refresh,
                            responses@,
                        ),
                    ),
                forall|j: int|
                    0 <= j < self.mods@.len() && !(offset <= j < i) ==> thumbnail_view(
                        #[trigger] self.mods@[j],
                    ) == thumbnail_view(old(self).mods@[j]),
            decreases next - i,
        {
            match &mut self.mods[i].1.thumbnail {
                Some(blob) => {
                    if refresh || blob.url.is_none() {
                        let found = match lookup_url(&blob.pointer.oid, &responses) {
                            Some(href) => Some(href.clone()),
                            None => None,
                        };
                        blob.url = found;
                    }
                },
                None => {},
            }
            i += 1;
        }
        Ok(next)
    }
}

/// The thumbnail of the mod at `i` after the downloads of the page from
/// `from` up to `to` ended with `outcomes`: one with a URL, on the page,
/// takes the outcome of its download, if there is one; any other is as it
/// was. The downloads stand in the order of the mods.
pub open spec fn page_settled(
    mods: Seq<(ModId, Mod)>,
    from: int,
    to: int,
    i: int,
    outcomes: Seq<Result<bytes::Bytes, IndexError>>,
    refresh: bool,
) -> Option<BlobView> {
    let k = page_fetchable(mods, from, i).len() as int;
    if from <= i < to && has_url(mods, i) && k < outcomes.len() {
        Some(fetched(thumbnail_view(mods[i])->Some_0, outcome_view(outcomes[k]), refresh))
    } else {
        thumbnail_view(mods[i])
    }
}

impl<'tree> ModIndex<'tree> {
    /// The downloads to make for one page: one for each of its thumbnails
    /// that has a URL, in the order of the mods; with the offset of the page
    /// after it.
    pub fn page_jobs<'a>(&'a self, offset: usize, count: usize) -> (found: Result<
        (Vec<FetchJob<'a>>, usize),
        IndexError,
    >)
        ensures
            offset >= self.mods@.len() ==> found == Err::<(Vec<FetchJob<'a>>, usize), IndexError>(
                IndexError::Bounds { offset, len: self.mods@.len() as usize },
            ),
            offset < self.mods@.len() ==> {
                let places = page_fetchable(self.mods@, offset as int, found->Ok_0.1 as int);
                &&& found is Ok
                &&& found->Ok_0.1 == page_end(self.mods@.len(), offset as nat, count as nat)
                &&& found->Ok_0.0@.len() == places.len()
                &&& forall|k: int|
                    0 <= k < places.len() ==> {
                        let job = #[trigger] found->Ok_0.0@[k];
                        &&& job.index == places[k]
                        &&& offset <= job.index < found->Ok_0.1
                        &&& thumbnail_view(self.mods@[job.index as int]) is Some
                        &&& Some(job.url@) == thumbnail_view(
                            self.mods@[job.index as int],
                        )->Some_0.url
                        &&& job.oid@ == thumbnail_view(
                            self.mods@[job.index as int],
                        )->Some_0.pointer.oid
                    }
            },
    {
        let next = match next_offset(self.mods.len(), offset, count) {
            Ok(next) => next,
            Err(e) => {
                return Err(e);
            },
        };
        let mut jobs: Vec<FetchJob<'a>> = Vec::new();
        let mut i = offset;
        while i < next
            invariant
                offset <= i <= next <= self.mods@.len(),
                jobs@.len() == page_fetchable(self.mods@, offset as int, i as int).len(),
                forall|k: int|
                    0 <= k < jobs@.len() ==> {
                        let job = #[trigger] jobs@[k];
                        &&& job.index == page_fetchable(self.mods@, offset as int, i as int)[k]
                        &&& offset <= job.index < i
                        &&& thumbnail_view(self.mods@[job.index as int]) is Some
                        &&& Some(job.url@) == thumbnail_view(
                            self.mods@[job.index as int],
                        )->Some_0.url
                        &&& job.oid@ == thumbnail_view(
                            self.mods@[job.index as int],
                        )->Some_0.pointer.oid
                    },
            decreases next - i,
        {
            let ghost before = page_fetchable(self.mods@, offset as int, i as int);
            match &self.mods[i].1.thumbnail {
                Some(blob) => match &blob.url {
                    Some(url) => {
                        jobs.push(
                            FetchJob { index: i, url: url.as_str(), oid: blob.pointer.oid.as_str() },
                        );
                        assert(page_fetchable(self.mods@, offset as int, i + 1) == before.push(
                            i as int,
                        ));
                    },
                    None => {
                        assert(page_fetchable(self.mods@, offset as int, i + 1) == before);
                    },
                },
                None => {
                    assert(page_fetchable(self.mods@, offset as int, i + 1) == before);
                },
            }
            i += 1;
        }
        Ok((jobs, next))
    }

    /// Ends a round of downloads for one page: takes their outcomes, in the
    /// order of the downloads, and writes each into the thumbnail it is for.
    /// A failed download leaves its own thumbnail without new data and
    /// changes nothing else. The answer is the offset of the page after this
    /// one.
    pub fn store_page_data(
        &mut self,
        offset: usize,
        count: usize,
        refresh: bool,
        outcomes: Vec<Result<bytes::Bytes, IndexError>>,
    ) -> (done: Result<usize, IndexError>)
        ensures
            final(self).repo == old(self).repo,
            final(self).mods@.len() == old(self).mods@.len(),
            offset >= old(self).mods@.len() ==> final(self).mods@ == old(self).mods@ && done
                == Err::<usize, IndexError>(
                IndexError::Bounds { offset, len: old(self).mods@.len() as usize },
            ),
            offset < old(self).mods@.len() ==> {
                let next = page_end(old(self).mods@.len(), offset as nat, count as nat) as int;
                &&& done == Ok::<usize, IndexError>(next as usize)
                &&& forall|i: int|
                    0 <= i < old(self).mods@.len() ==> same_but_thumbnail(
                        old(self).mods@[i],
                        #[trigger] final(self).mods@[i],
                    )
                &&& forall|i: int|
                    0 <= i < old(self).mods@.len() ==> thumbnail_view(
                        #[trigger] final(self).mods@[i],
                    ) == page_settled(old(self).mods@, offset as int, next, i, outcomes@, refresh)
            },
    {
        let next = match next_offset(self.mods.len(), offset, count) {
            Ok(next) => next,
            Err(e) => {
                return Err(e);
            },
        };
        let ghost handed = outcomes@;
        let ghost given = self.mods@;
        let mut outcomes = outcomes;
        let mut k: usize = 0;
        let mut i = offset;
        while i < next
            invariant
                offset <= i <= next <= self.mods@.len(),
                next == page_end(old(self).mods@.len(), offset as nat, count as nat),
                given == old(self).mods@,
                self.repo == old(self).repo,
                self.mods@.len() == given.len(),
                outcomes@.len() == handed.len(),
                k <= outcomes@.len(),
                k < outcomes@.len() ==> k == page_fetchable(given, offset as int, i as int).len(),
                k == outcomes@.len() ==> k <= page_fetchable(given, offset as int, i as int).len(),
                forall|j: int| k <= j < handed.len() ==> outcomes@[j] == handed[j],
                forall|j: int|
                    0 <= j < given.len() ==> same_but_thumbnail(given[j], #[trigger] self.mods@[j]),
                forall|j: int|
                    0 <= j < i ==> thumbnail_view(#[trigger] self.mods@[j]) == page_settled(
                        given,
                        offset as int,
                        next as int,
                        j,
                        handed,
                        refresh,
                    ),
                forall|j: int|
                    i <= j < given.len() ==> thumbnail_view(#[trigger] self.mods@[j])
                        == thumbnail_view(given[j]),
            decreases next - i,
        {
            let fits = k < outcomes.len();
            match &mut self.mods[i].1.thumbnail {
                Some(blob) => {
                    if blob.url.is_some() && fits {
                        let mut outcome: Result<bytes::Bytes, IndexError> = Err(
                            IndexError::NotYetFetched,
                        );
                        core::mem::swap(&mut outcomes[k], &mut outcome);
                        blob.record(outcome, refresh);
                        k += 1;
                    }
                },
                None => {},
            }
            i += 1;
        }
        Ok(next)
    }
}

} // verus!
