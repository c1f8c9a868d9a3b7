//! Turning pointers into download URLs through the batch API: which requests
//! to send, and what their responses say of each pointer.

use vstd::prelude::*;

use crate::error::{IndexError, SchemaError};
use crate::lfs::{
    blob_views, pointer_views, BatchRequest, BatchRequestView, BatchResponse, Blob, BlobView,
    ObjectView, Pointer, PointerView, DOWNLOAD, GH_API_UNAUTHENTICATED_BATCH_OBJECT_LIMIT,
};

verus! {

/// How many requests `len` objects take when one request holds up to `limit`.
pub open spec fn chunk_count(len: nat, limit: nat) -> nat
    recommends
        limit > 0,
{
    ((len + limit - 1) / (limit as int)) as nat
}

/// The `k`-th run of up to `limit` items of `items`.
pub open spec fn chunk<T>(items: Seq<T>, k: int, limit: nat) -> Seq<T>
    recommends
        limit > 0,
{
    let end = if (k + 1) * limit <= items.len() {
        (k + 1) * limit
    } else {
        items.len() as int
    };
    items.subrange(k * limit, end)
}

/// The requests that resolve `pointers` at an endpoint that takes up to
/// `limit` objects in one request: the objects of the first, then those of
/// the second, and so on, are the pointers in their order; each request but
/// the last holds as many as the endpoint takes. A limit of zero would leave
/// no way to ask for anything.
pub fn chunk_requests<'p>(pointers: &'p [&'p Pointer], limit: usize) -> (requests: Vec<
    BatchRequest<'p>,
>)
    requires
        limit > 0,
    ensures
        requests@.len() == chunk_count(pointers@.len(), limit as nat),
        forall|k: int|
            0 <= k < requests@.len() ==> (#[trigger] requests@[k])@ == (BatchRequestView {
                operation: DOWNLOAD@,
                objects: chunk(pointer_views(pointers@), k, limit as nat),
            }),
{
    let mut requests: Vec<BatchRequest<'p>> = Vec::new();
    let len = pointers.len();
    let mut offset: usize = 0;
    proof {
        chunk_count_exact(len as nat, limit as nat, 0);
        assert(0 * limit == 0);
    }
    while offset < len
        invariant
            limit > 0,
            len == pointers@.len(),
            offset <= len,
            offset < len ==> offset == requests@.len() * limit,
            offset == len ==> requests@.len() == chunk_count(len as nat, limit as nat),
            forall|k: int|
                0 <= k < requests@.len() ==> (#[trigger] requests@[k])@ == (BatchRequestView {
                    operation: DOWNLOAD@,
                    objects: chunk(pointer_views(pointers@), k, limit as nat),
                }),
        decreases len - offset,
    {
        let count = if limit <= len - offset { limit } else { len - offset };
        let next = offset + count;
        let ghost k = requests@.len() as int;
        let objects = &pointers[offset..next];
        let request = BatchRequest { operation: DOWNLOAD.to_owned(), objects };
        proof {
            assert(k * limit == offset);
            assert((k + 1) * limit == offset + limit) by (nonlinear_arith)
                requires k * limit == offset;
            assert(pointer_views(objects@) =~= chunk(pointer_views(pointers@), k, limit as nat));
            chunk_count_exact(len as nat, limit as nat, k + 1);
        }
        requests.push(request);
        offset = next;
    }
    requests
}

/// The requests that resolve `pointers` at the batch endpoint of a forge,
/// which takes up to a hundred objects in one request. No pointers, no
/// requests.
pub fn batch_requests<'p>(pointers: &'p [&'p Pointer]) -> (requests: Vec<BatchRequest<'p>>)
    ensures
        requests@.len() == chunk_count(
            pointers@.len(),
            GH_API_UNAUTHENTICATED_BATCH_OBJECT_LIMIT as nat,
        ),
        forall|k: int|
            0 <= k < requests@.len() ==> (#[trigger] requests@[k])@ == (BatchRequestView {
                operation: DOWNLOAD@,
                objects: chunk(
                    pointer_views(pointers@),
                    k,
                    GH_API_UNAUTHENTICATED_BATCH_OBJECT_LIMIT as nat,
                ),
            }),
{
    chunk_requests(pointers, GH_API_UNAUTHENTICATED_BATCH_OBJECT_LIMIT)
}

/// `len` objects take `k` requests exactly when the first `k - 1` requests
/// leave some of them over and `k` requests do not.
pub proof fn chunk_count_exact(len: nat, limit: nat, k: int)
    requires
        limit > 0,
        k >= 0,
    ensures
        ((k - 1) * limit < len <= k * limit) ==> chunk_count(len, limit) == k,
{
    if (k - 1) * limit < len <= k * limit {
        let q = (len + limit - 1) / (limit as int);
        assert(q == k) by (nonlinear_arith)
            requires
                limit > 0,
                (k - 1) * limit < len <= k * limit,
                q == (len + limit - 1) / (limit as int),
        ;
    }
}

/// The first `n` runs of up to `limit` items of `items`, one after another.
pub open spec fn joined<T>(items: Seq<T>, limit: nat, n: int) -> Seq<T>
    decreases n,
{
    if n <= 0 {
        Seq::empty()
    } else {
        joined(items, limit, n - 1) + chunk(items, n - 1, limit)
    }
}

/// The first `n` runs are the first `n` times `limit` items, or all of
/// them where there are fewer.
proof fn joined_is_prefix<T>(items: Seq<T>, limit: nat, n: int)
    requires
        limit > 0,
        n >= 0,
        n == 0 || (n - 1) * limit <= items.len(),
    ensures
        joined(items, limit, n) == items.take(
            if n * limit <= items.len() {
                n * limit
            } else {
                items.len() as int
            },
        ),
    decreases n,
{
    if n > 0 {
        assert((n - 1) * limit + limit == n * limit) by (nonlinear_arith);
        assert((n - 1) * limit >= 0) by (nonlinear_arith)
            requires
                n >= 1,
                limit > 0,
        ;
        if n > 1 {
            assert((n - 2) * limit + limit == (n - 1) * limit) by (nonlinear_arith);
        }
        joined_is_prefix(items, limit, n - 1);
        assert(joined(items, limit, n) =~= items.take(
            if n * limit <= items.len() {
                n * limit
            } else {
                items.len() as int
            },
        ));
    } else {
        assert(0 * limit == 0) by (nonlinear_arith);
        assert(joined(items, limit, n) =~= items.take(0));
    }
}

/// The requests split the pointers and lose none: each holds at least one
/// pointer and no more than the limit, all but the last hold as many as the
/// limit, and one after another they hold the pointers in their order.
pub proof fn chunks_partition<T>(items: Seq<T>, limit: nat)
    requires
        limit > 0,
    ensures
        joined(items, limit, chunk_count(items.len(), limit) as int) == items,
        forall|k: int|
            0 <= k < chunk_count(items.len(), limit) ==> 0 < (#[trigger] chunk(
                items,
                k,
                limit,
            )).len() <= limit,
        forall|k: int|
            0 <= k < chunk_count(items.len(), limit) - 1 ==> (#[trigger] chunk(
                items,
                k,
                limit,
            )).len() == limit,
{
    let count = chunk_count(items.len(), limit) as int;
    let len = items.len() as int;
    assert((count - 1) * limit < len <= count * limit || (len == 0 && count == 0))
        by (nonlinear_arith)
        requires
            limit > 0,
            len >= 0,
            count == (len + limit - 1) / (limit as int),
    ;
    joined_is_prefix(items, limit, count);
    assert(items.take(len) =~= items);
    assert forall|k: int| 0 <= k < count implies 0 < (#[trigger] chunk(items, k, limit)).len()
        <= limit && (k < count - 1 ==> chunk(items, k, limit).len() == limit) by {
        assert(k * limit <= (count - 1) * limit) by (nonlinear_arith)
            requires
                k <= count - 1,
                limit > 0,
        ;
        assert((k + 1) * limit == k * limit + limit) by (nonlinear_arith);
        assert(k * limit >= 0) by (nonlinear_arith)
            requires
                k >= 0,
                limit > 0,
        ;
        if k < count - 1 {
            assert((k + 1) * limit <= (count - 1) * limit) by (nonlinear_arith)
                requires
                    k + 1 <= count - 1,
                    limit > 0,
            ;
        }
    }
}

/// The URL that `objects` give for `oid`: the `href` of the first object with
/// that oid, wherever in the run it stands.
pub open spec fn href_for(oid: Seq<char>, objects: Seq<ObjectView>) -> Option<Seq<char>>
    decreases objects.len(),
{
    if objects.len() == 0 {
        None
    } else if objects[0].oid == oid {
        Some(objects[0].href)
    } else {
        href_for(oid, objects.drop_first())
    }
}

/// The URL that `responses` give for `oid`: that of the first response that
/// has one.
pub open spec fn find_href(oid: Seq<char>, responses: Seq<BatchResponse>) -> Option<Seq<char>>
    decreases responses.len(),
{
    if responses.len() == 0 {
        None
    } else {
        match href_for(oid, responses[0]@) {
            Some(href) => Some(href),
            None => find_href(oid, responses.drop_first()),
        }
    }
}

/// URLs are matched by oid, wherever an object stands: a URL is found for
/// an oid exactly when some object has that oid, and the URL that is found
/// is the `href` of an object with that oid.
pub proof fn href_is_matched_by_oid(oid: Seq<char>, objects: Seq<ObjectView>)
    ensures
        href_for(oid, objects) is Some <==> exists|i: int|
            0 <= i < objects.len() && (#[trigger] objects[i]).oid == oid,
        href_for(oid, objects) is Some ==> exists|i: int|
            0 <= i < objects.len() && (#[trigger] objects[i]).oid == oid && objects[i].href
                == href_for(oid, objects)->Some_0,
    decreases objects.len(),
{
    if objects.len() > 0 {
        if objects[0].oid == oid {
            assert(objects[0].oid == oid && objects[0].href == href_for(oid, objects)->Some_0);
        } else {
            let rest = objects.drop_first();
            href_is_matched_by_oid(oid, rest);
            if href_for(oid, rest) is Some {
                let i = choose|i: int|
                    0 <= i < rest.len() && (#[trigger] rest[i]).oid == oid && rest[i].href
                        == href_for(oid, rest)->Some_0;
                assert(objects[i + 1] == rest[i]);
            }
            if exists|i: int| 0 <= i < objects.len() && (#[trigger] objects[i]).oid == oid {
                let i = choose|i: int| 0 <= i < objects.len() && (#[trigger] objects[i]).oid == oid;
                assert(rest[i - 1] == objects[i]);
            }
        }
    }
}

/// The error of the first request that failed, if one did.
pub open spec fn first_error(results: Seq<Result<BatchResponse, IndexError>>) -> Option<IndexError>
    decreases results.len(),
{
    if results.len() == 0 {
        None
    } else {
        match results[0] {
            Err(e) => Some(e),
            Ok(_) => first_error(results.drop_first()),
        }
    }
}

/// The responses of requests that all succeeded, in their order.
pub open spec fn responses_of(results: Seq<Result<BatchResponse, IndexError>>) -> Seq<BatchResponse> {
    Seq::new(results.len(), |i: int| results[i]->Ok_0)
}

/// The URL that one response gives for `oid`, matched by oid.
pub fn lookup_href<'r>(oid: &String, response: &'r BatchResponse) -> (href: Option<&'r String>)
    ensures
        match href_for(oid@, response@) {
            Some(url) => href is Some && href->Some_0@ == url,
            None => href is None,
        },
{
    let mut i: usize = 0;
    assert(response@.skip(0) =~= response@);
    while i < response.objects.len()
        invariant
            i <= response.objects@.len(),
            href_for(oid@, response@) == href_for(oid@, response@.skip(i as int)),
        decreases response.objects@.len() - i,
    {
        let object = &response.objects[i];
        proof {
            assert(response@.skip(i as int)[0] == object@);
            assert(response@.skip(i as int).drop_first() =~= response@.skip(i as int + 1));
        }
        if object.oid == *oid {
            return Some(&object.actions.download.href);
        }
        i += 1;
    }
    None
}

/// The URL that a run of responses gives for `oid`.
pub fn lookup_url<'r>(oid: &String, responses: &'r Vec<BatchResponse>) -> (href: Option<&'r String>)
    ensures
        match find_href(oid@, responses@) {
            Some(url) => href is Some && href->Some_0@ == url,
            None => href is None,
        },
{
    let mut k: usize = 0;
    assert(responses@.skip(0) =~= responses@);
    while k < responses.len()
        invariant
            k <= responses@.len(),
            find_href(oid@, responses@) == find_href(oid@, responses@.skip(k as int)),
        decreases responses@.len() - k,
    {
        proof {
            assert(responses@.skip(k as int)[0] == responses@[k as int]);
            assert(responses@.skip(k as int).drop_first() =~= responses@.skip(k as int + 1));
        }
        match lookup_href(oid, &responses[k]) {
            Some(href) => {
                return Some(href);
            },
            None => {},
        }
        k += 1;
    }
    None
}

/// The responses of a resolution, or the error of its first failed request:
/// one failed request fails the whole resolution.
pub fn first_failure(results: Vec<Result<BatchResponse, IndexError>>) -> (all: Result<
    Vec<BatchResponse>,
    IndexError,
>)
    ensures
        match first_error(results@) {
            Some(e) => all == Err::<Vec<BatchResponse>, IndexError>(e),
            None => all is Ok && all->Ok_0@ == responses_of(results@),
        },
{
    let ghost given = results@;
    let mut responses: Vec<BatchResponse> = Vec::new();
    assert(given.skip(0) =~= given);
    for result in it: results.into_iter()
        invariant
            it.seq() == given,
            first_error(given) == first_error(given.skip(it.index() as int)),
            responses@.len() == it.index(),
            forall|i: int| 0 <= i < responses@.len() ==> responses@[i] == given[i]->Ok_0,
    {
        let ghost k = it.index() as int;
        proof {
            assert(given.skip(k)[0] == given[k]);
            assert(given.skip(k).drop_first() =~= given.skip(k + 1));
        }
        match result {
            Ok(response) => {
                responses.push(response);
            },
            Err(e) => {
                return Err(e);
            },
        }
    }
    proof {
        assert(given.skip(given.len() as int).len() == 0);
        assert(responses@ =~= responses_of(given));
    }
    Ok(responses)
}

/// Whether a resolution asks for the URL of this blob: it does where the
/// blob has none yet, and for every blob where the caller wants fresh ones.
pub open spec fn wants_url(blob: BlobView, refresh: bool) -> bool {
    refresh || blob.url is None
}

/// The pointers whose URLs a resolution of `blobs` asks for, in their order.
pub open spec fn pending(blobs: Seq<BlobView>, refresh: bool) -> Seq<PointerView>
    decreases blobs.len(),
{
    if blobs.len() == 0 {
        Seq::empty()
    } else if wants_url(blobs.last(), refresh) {
        pending(blobs.drop_last(), refresh).push(blobs.last().pointer)
    } else {
        pending(blobs.drop_last(), refresh)
    }
}

/// Whether `responses` hold a URL for every blob that asks for one.
pub open spec fn resolvable(
    blobs: Seq<BlobView>,
    refresh: bool,
    responses: Seq<BatchResponse>,
) -> bool {
    forall|i: int|
        0 <= i < blobs.len() && wants_url(#[trigger] blobs[i], refresh) ==> find_href(
            blobs[i].pointer.oid,
            responses,
        ) is Some
}

/// A blob after a resolution that succeeded: one that asked for a URL has
/// the one that the responses give for its oid, any other is as it was.
pub open spec fn resolved(blob: BlobView, refresh: bool, responses: Seq<BatchResponse>) -> BlobView {
    if wants_url(blob, refresh) {
        BlobView { url: find_href(blob.pointer.oid, responses), ..blob }
    } else {
        blob
    }
}

/// The pointers to resolve for `blobs`: those of the blobs without a URL, or
/// of all of them where `refresh` is set.
pub fn pending_pointers<'b>(blobs: &'b Vec<Blob>, refresh: bool) -> (pointers: Vec<&'b Pointer>)
    ensures
        pointer_views(pointers@) == pending(blob_views(blobs@), refresh),
{
    let mut pointers: Vec<&'b Pointer> = Vec::new();
    let mut i: usize = 0;
    while i < blobs.len()
        invariant
            i <= blobs@.len(),
            pointer_views(pointers@) == pending(blob_views(blobs@).take(i as int), refresh),
        decreases blobs@.len() - i,
    {
        let ghost before = pointer_views(pointers@);
        proof {
            let views = blob_views(blobs@);
            assert(views.take(i as int + 1).drop_last() =~= views.take(i as int));
            assert(views.take(i as int + 1).last() == blobs@[i as int]@);
        }
        if refresh || blobs[i].url.is_none() {
            pointers.push(&blobs[i].pointer);
            assert(pointer_views(pointers@) =~= before.push(blobs@[i as int]@.pointer));
        }
        i += 1;
    }
    assert(blob_views(blobs@).take(i as int) =~= blob_views(blobs@));
    pointers
}

/// Ends a resolution: takes what the batch requests gave and writes the URLs
/// into the blobs. Where a request failed, or the responses lack the object
/// of a pointer that was asked for, nothing is written and the whole
/// resolution fails. Each URL goes to the blob with the same oid, whatever
/// the order of the objects in the responses.
pub fn store_download_urls(
    blobs: &mut Vec<Blob>,
    refresh: bool,
    results: Vec<Result<BatchResponse, IndexError>>,
) -> (done: Result<(), IndexError>)
    ensures
        final(blobs)@.len() == old(blobs)@.len(),
        match first_error(results@) {
            Some(e) => done == Err::<(), IndexError>(e) && blob_views(final(blobs)@) == blob_views(
                old(blobs)@,
            ),
            None => if resolvable(blob_views(old(blobs)@), refresh, responses_of(results@)) {
                done is Ok && forall|i: int|
                    0 <= i < old(blobs)@.len() ==> (#[trigger] final(blobs)@[i])@ == resolved(
                        old(blobs)@[i]@,
                        refresh,
                        responses_of(results@),
                    )
            } else {
                done == Err::<(), IndexError>(IndexError::Schema(SchemaError::MissingObject))
                    && blob_views(final(blobs)@) == blob_views(old(blobs)@)
            },
        },
{
    let responses = match first_failure(results) {
        Ok(responses) => responses,
        Err(e) => {
            return Err(e);
        },
    };
    let ghost given = blob_views(blobs@);
    let mut i: usize = 0;
    while i < blobs.len()
        invariant
            i <= blobs@.len(),
            blobs@ == old(blobs)@,
            given == blob_views(blobs@),
            responses@ == responses_of(results@),
            first_error(results@) is None,
            forall|j: int|
                0 <= j < i && wants_url(#[trigger] given[j], refresh) ==> find_href(
                    given[j].pointer.oid,
                    responses@,
                ) is Some,
        decreases blobs@.len() - i,
    {
        if refresh || blobs[i].url.is_none() {
            if lookup_url(&blobs[i].pointer.oid, &responses).is_none() {
                assert(wants_url(given[i as int], refresh));
                return Err(IndexError::Schema(SchemaError::MissingObject));
            }
        }
        i += 1;
    }
    assert(resolvable(given, refresh, responses@));
    let mut i: usize = 0;
    while i < blobs.len()
        invariant
            i <= blobs@.len(),
            blobs@.len() == given.len(),
            given == blob_views(old(blobs)@),
            responses@ == responses_of(results@),
            first_error(results@) is None,
            resolvable(given, refresh, responses@),
            forall|j: int| 0 <= j < i ==> (#[trigger] blobs@[j])@ == resolved(given[j], refresh, responses@),
            forall|j: int| i <= j < blobs@.len() ==> (#[trigger] blobs@[j])@ == given[j],
        decreases blobs@.len() - i,
    {
        if refresh || blobs[i].url.is_none() {
            assert(wants_url(given[i as int], refresh));
            let found = match lookup_url(&blobs[i].pointer.oid, &responses) {
                Some(href) => Some(href.clone()),
                None => None,
            };
            blobs[i].url = found;
        }
        i += 1;
    }
    Ok(())
}

} // verus!
