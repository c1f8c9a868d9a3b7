//! Downloading the objects of blobs: which downloads to start, and what
//! their outcomes make of the blobs.

use vstd::prelude::*;

use crate::error::IndexError;
use crate::lfs::{blob_views, bytes_view, clone_bytes, Blob, BlobView};

verus! {

/// One download to make: the URL to get, the oid under which the payload is
/// cached, and the place of the blob that it is for.
#[derive(Debug)]
pub struct FetchJob<'b> {
    pub index: usize,
    pub url: &'b str,
    pub oid: &'b str,
}

/// The places of the blobs that have a URL, in their order. A blob without
/// one is not downloaded.
pub open spec fn fetchable(blobs: Seq<BlobView>) -> Seq<int>
    decreases blobs.len(),
{
    if blobs.len() == 0 {
        Seq::empty()
    } else if blobs.last().url is Some {
        fetchable(blobs.drop_last()).push(blobs.len() - 1)
    } else {
        fetchable(blobs.drop_last())
    }
}

/// How many of the blobs before place `i` have a URL: the place, among the
/// downloads, of the download for the blob at `i`.
pub open spec fn rank(blobs: Seq<BlobView>, i: int) -> nat {
    fetchable(blobs.take(i)).len()
}

/// The downloads stand in the order of the blobs, so pairing by place is
/// safe: the download for a blob with a URL stands, among the downloads, at
/// the rank of that blob, and there are as many downloads before it as
/// blobs with a URL.
pub proof fn download_stands_at_its_rank(blobs: Seq<BlobView>, i: int)
    requires
        0 <= i < blobs.len(),
        blobs[i].url is Some,
    ensures
        rank(blobs, i) < fetchable(blobs).len(),
        fetchable(blobs)[rank(blobs, i) as int] == i,
    decreases blobs.len(),
{
    let shorter = blobs.drop_last();
    if i == blobs.len() - 1 {
        assert(blobs.take(i) =~= shorter);
    } else {
        download_stands_at_its_rank(shorter, i);
        assert(shorter.take(i) =~= blobs.take(i));
    }
}

/// The outcome of a download as contracts see it.
pub open spec fn outcome_view(outcome: Result<bytes::Bytes, IndexError>) -> Result<
    Seq<u8>,
    IndexError,
> {
    match outcome {
        Ok(data) => Ok(bytes_view(data)),
        Err(e) => Err(e),
    }
}

/// A blob after a download of it ended. A payload is always kept. A failure
/// is kept where the blob holds no payload; over a payload it is kept only
/// where the caller asked for fresh data.
pub open spec fn fetched(
    blob: BlobView,
    outcome: Result<Seq<u8>, IndexError>,
    refresh: bool,
) -> BlobView {
    match outcome {
        Ok(data) => BlobView { data: Ok(data), ..blob },
        Err(e) => if blob.data is Ok && !refresh {
            blob
        } else {
            BlobView { data: Err(e), ..blob }
        },
    }
}

/// A blob after the downloads ended with `outcomes`, where `k` downloads
/// stand before its own: one with a URL takes the outcome at `k`, if there
/// is one; any other is as it was.
pub open spec fn settled(
    blob: BlobView,
    k: nat,
    outcomes: Seq<Result<bytes::Bytes, IndexError>>,
    refresh: bool,
) -> BlobView {
    if blob.url is Some && k < outcomes.len() {
        fetched(blob, outcome_view(outcomes[k as int]), refresh)
    } else {
        blob
    }
}

impl Blob {
    /// Takes the outcome of a download of this blob.
    pub fn record(&mut self, outcome: Result<bytes::Bytes, IndexError>, refresh: bool)
        ensures
            final(self)@ == fetched(old(self)@, outcome_view(outcome), refresh),
    {
        match outcome {
            Ok(data) => {
                self.data = Ok(data);
            },
            Err(e) => {
                if refresh || self.data.is_err() {
                    self.data = Err(e);
                }
            },
        }
    }
}

/// The downloads to make for `blobs`: one for each blob that has a URL, in
/// the order of the blobs.
pub fn fetch_jobs<'b>(blobs: &'b Vec<Blob>) -> (jobs: Vec<FetchJob<'b>>)
    ensures
        jobs@.len() == fetchable(blob_views(blobs@)).len(),
        forall|k: int|
            0 <= k < jobs@.len() ==> {
                let at = fetchable(blob_views(blobs@))[k];
                &&& 0 <= at < blobs@.len()
                &&& (#[trigger] jobs@[k]).index == at
                &&& Some(jobs@[k].url@) == blobs@[at]@.url
                &&& jobs@[k].oid@ == blobs@[at]@.pointer.oid
            },
{
    let mut jobs: Vec<FetchJob<'b>> = Vec::new();
    let ghost views = blob_views(blobs@);
    let mut i: usize = 0;
    while i < blobs.len()
        invariant
            i <= blobs@.len(),
            views == blob_views(blobs@),
            jobs@.len() == fetchable(views.take(i as int)).len(),
            forall|k: int|
                0 <= k < jobs@.len() ==> 0 <= #[trigger] fetchable(views.take(i as int))[k] < i,
            forall|k: int|
                0 <= k < jobs@.len() ==> (#[trigger] jobs@[k]).index == fetchable(
                    views.take(i as int),
                )[k],
            forall|k: int|
                0 <= k < jobs@.len() ==> Some((#[trigger] jobs@[k]).url@) == blobs@[jobs@[k].index as int]@.url
                    && jobs@[k].oid@ == blobs@[jobs@[k].index as int]@.pointer.oid,
        decreases blobs@.len() - i,
    {
        let ghost before = fetchable(views.take(i as int));
        proof {
            assert(views.take(i as int + 1).drop_last() =~= views.take(i as int));
            assert(views.take(i as int + 1).last() == blobs@[i as int]@);
        }
        match &blobs[i].url {
            Some(url) => {
                jobs.push(FetchJob { index: i, url: url.as_str(), oid: blobs[i].pointer.oid.as_str() });
                assert(fetchable(views.take(i as int + 1)) == before.push(i as int));
            },
            None => {
                assert(fetchable(views.take(i as int + 1)) == before);
            },
        }
        i += 1;
    }
    assert(views.take(i as int) =~= views);
    jobs
}

/// Ends a round of downloads: takes their outcomes, in the order of the
/// downloads, and writes each into the blob it is for. The downloads of one
/// round do not depend on each other: a failed one leaves its own blob
/// without new data and changes nothing else.
pub fn store_fetched(
    blobs: &mut Vec<Blob>,
    refresh: bool,
    outcomes: Vec<Result<bytes::Bytes, IndexError>>,
)
    ensures
        final(blobs)@.len() == old(blobs)@.len(),
        forall|i: int|
            0 <= i < old(blobs)@.len() ==> (#[trigger] final(blobs)@[i])@ == settled(
                old(blobs)@[i]@,
                rank(blob_views(old(blobs)@), i),
                outcomes@,
                refresh,
            ),
{
    let ghost given = blob_views(blobs@);
    let ghost handed = outcomes@;
    let mut outcomes = outcomes;
    let mut k: usize = 0;
    let mut i: usize = 0;
    assert(given.take(0) =~= Seq::<BlobView>::empty());
    while i < blobs.len()
        invariant
            i <= blobs@.len(),
            blobs@.len() == given.len(),
            given == blob_views(old(blobs)@),
            outcomes@.len() == handed.len(),
            k <= outcomes@.len(),
            k <= i,
            k < outcomes@.len() ==> k == rank(given, i as int),
            k == outcomes@.len() ==> k <= rank(given, i as int),
            forall|j: int| k <= j < handed.len() ==> outcomes@[j] == handed[j],
            forall|j: int|
                0 <= j < i ==> (#[trigger] blobs@[j])@ == settled(
                    given[j],
                    rank(given, j),
                    handed,
                    refresh,
                ),
            forall|j: int| i <= j < blobs@.len() ==> (#[trigger] blobs@[j])@ == given[j],
        decreases blobs@.len() - i,
    {
        proof {
            assert(given.take(i as int + 1).drop_last() =~= given.take(i as int));
            assert(given.take(i as int + 1).last() == given[i as int]);
        }
        if blobs[i].url.is_some() && k < outcomes.len() {
            let mut outcome: Result<bytes::Bytes, IndexError> = Err(IndexError::NotYetFetched);
            core::mem::swap(&mut outcomes[k], &mut outcome);
            blobs[i].record(outcome, refresh);
            k += 1;
        }
        i += 1;
    }
}

/// What the first `n` downloads brought: the payload of each that
/// succeeded, under the oid of its object, in the order of the downloads. A
/// download that failed is left out.
pub open spec fn brought(
    oids: Seq<Seq<char>>,
    outcomes: Seq<Result<bytes::Bytes, IndexError>>,
    n: int,
) -> Seq<(Seq<char>, Seq<u8>)>
    decreases n,
{
    if n <= 0 {
        Seq::empty()
    } else {
        match outcomes[n - 1] {
            Ok(data) => brought(oids, outcomes, n - 1).push((oids[n - 1], bytes_view(data))),
            Err(_) => brought(oids, outcomes, n - 1),
        }
    }
}

/// The oids of a run of downloads, in order.
pub open spec fn job_oids(jobs: Seq<FetchJob<'_>>) -> Seq<Seq<char>> {
    Seq::new(jobs.len(), |i: int| jobs[i].oid@)
}

/// What a round of downloads brought: each payload with the oid of its
/// object. The outcomes stand in the order of the downloads; where there
/// are more of the one than of the other, the rest is left out.
pub fn payloads(jobs: &Vec<FetchJob<'_>>, outcomes: &Vec<Result<bytes::Bytes, IndexError>>) -> (got:
    Vec<(String, bytes::Bytes)>)
    ensures
        got@.len() == brought(
            job_oids(jobs@),
            outcomes@,
            if jobs@.len() <= outcomes@.len() {
                jobs@.len() as int
            } else {
                outcomes@.len() as int
            },
        ).len(),
        forall|k: int|
            0 <= k < got@.len() ==> ((#[trigger] got@[k]).0@, bytes_view(got@[k].1)) == brought(
                job_oids(jobs@),
                outcomes@,
                if jobs@.len() <= outcomes@.len() {
                    jobs@.len() as int
                } else {
                    outcomes@.len() as int
                },
            )[k],
{
    let n = if jobs.len() <= outcomes.len() {
        jobs.len()
    } else {
        outcomes.len()
    };
    let mut got: Vec<(String, bytes::Bytes)> = Vec::new();
    let mut i: usize = 0;
    while i < n
        invariant
            i <= n,
            n <= jobs@.len(),
            n <= outcomes@.len(),
            got@.len() == brought(job_oids(jobs@), outcomes@, i as int).len(),
            forall|k: int|
                0 <= k < got@.len() ==> ((#[trigger] got@[k]).0@, bytes_view(got@[k].1))
                    == brought(job_oids(jobs@), outcomes@, i as int)[k],
        decreases n - i,
    {
        match &outcomes[i] {
            Ok(data) => {
                got.push((jobs[i].oid.to_owned(), clone_bytes(data)));
            },
            Err(_) => {},
        }
        i += 1;
    }
    got
}

} // verus!
