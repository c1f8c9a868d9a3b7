//! Git LFS: pointers to objects, the blobs they stand for, and the messages
//! of the batch API that turns the one into the other.

use vstd::prelude::*;

use crate::error::IndexError;

pub mod batch;
pub mod cache;
pub mod fetch;
pub mod pointer;
pub mod window;
pub mod wire;

pub use crate::lfs::pointer::parse_pointer;

verus! {

/// The version that every pointer file must name.
pub const VERSION: &'static str = "https://git-lfs.github.com/spec/v1";

/// The only hash that an `oid` may be given in.
pub const GH_API_HASH_ALGO: &'static str = "sha256";

/// The most objects that the batch endpoint takes in one request.
pub const GH_API_UNAUTHENTICATED_BATCH_OBJECT_LIMIT: usize = 100;

/// The operation that every batch request of this library names.
pub const DOWNLOAD: &'static str = "download";

/// The name of an object: the hash of its content, and its size in bytes.
/// Two pointers with the same `oid` name the same content.
#[derive(Debug, PartialEq, Eq, Hash)]
pub struct Pointer {
    pub oid: String,
    pub size: usize,
}

/// A pointer as contracts see it.
pub struct PointerView {
    pub oid: Seq<char>,
    pub size: nat,
}

impl View for Pointer {
    type V = PointerView;

    open spec fn view(&self) -> PointerView {
        PointerView { oid: self.oid@, size: self.size as nat }
    }
}

impl Clone for Pointer {
    fn clone(&self) -> (copy: Self)
        ensures
            copy@ == self@,
    {
        Pointer { oid: self.oid.clone(), size: self.size }
    }
}

impl Default for Pointer {
    /// The pointer with no oid and size zero.
    fn default() -> (pointer: Self)
        ensures
            pointer@ == (PointerView { oid: Seq::<char>::empty(), size: 0 }),
    {
        Pointer { oid: String::new(), size: 0 }
    }
}

/// The bytes that a buffer holds.
pub uninterp spec fn bytes_view(data: bytes::Bytes) -> Seq<u8>;

/// `Bytes::clone`: the copy holds the bytes that the buffer holds.
#[verifier::external_body]
pub(crate) fn clone_bytes(data: &bytes::Bytes) -> (copy: bytes::Bytes)
    ensures
        bytes_view(copy) == bytes_view(*data),
{
    data.clone()
}

/// A pointer with what is known of its object so far: the URL that the batch
/// API gave for it, and the outcome of the last download.
#[derive(Debug)]
pub struct Blob {
    pub pointer: Pointer,
    pub url: Option<String>,
    pub data: Result<bytes::Bytes, IndexError>,
}

/// A blob as contracts see it.
pub struct BlobView {
    pub pointer: PointerView,
    pub url: Option<Seq<char>>,
    pub data: Result<Seq<u8>, IndexError>,
}

impl View for Blob {
    type V = BlobView;

    open spec fn view(&self) -> BlobView {
        BlobView {
            pointer: self.pointer@,
            url: match self.url {
                Some(url) => Some(url@),
                None => None,
            },
            data: match self.data {
                Ok(data) => Ok(bytes_view(data)),
                Err(e) => Err(e),
            },
        }
    }
}

/// The views of a run of blobs, in order.
pub open spec fn blob_views(blobs: Seq<Blob>) -> Seq<BlobView> {
    Seq::new(blobs.len(), |i: int| blobs[i]@)
}

impl Clone for Blob {
    fn clone(&self) -> (copy: Self)
        ensures
            copy@ == self@,
    {
        let url = match &self.url {
            Some(url) => Some(url.clone()),
            None => None,
        };
        let data = match &self.data {
            Ok(data) => Ok(clone_bytes(data)),
            Err(e) => Err(*e),
        };
        Blob { pointer: self.pointer.clone(), url, data }
    }
}

impl Blob {
    /// The blob of a pointer of which nothing is known yet.
    pub fn new(pointer: Pointer) -> (blob: Self)
        ensures
            blob@ == (BlobView {
                pointer: pointer@,
                url: None,
                data: Err(IndexError::NotYetFetched),
            }),
    {
        Blob { pointer, url: None, data: Err(IndexError::NotYetFetched) }
    }
}

/// The body of one batch request: an operation and the objects it is for.
#[derive(Debug)]
pub struct BatchRequest<'pointers> {
    pub operation: String,
    pub objects: &'pointers [&'pointers Pointer],
}

/// A batch request as contracts see it.
pub struct BatchRequestView {
    pub operation: Seq<char>,
    pub objects: Seq<PointerView>,
}

/// The views of a run of pointers, in order.
pub open spec fn pointer_views(pointers: Seq<&Pointer>) -> Seq<PointerView> {
    Seq::new(pointers.len(), |i: int| pointers[i]@)
}

impl<'pointers> View for BatchRequest<'pointers> {
    type V = BatchRequestView;

    open spec fn view(&self) -> BatchRequestView {
        BatchRequestView { operation: self.operation@, objects: pointer_views(self.objects@) }
    }
}

/// The body of one batch response.
#[derive(Debug)]
pub struct BatchResponse {
    pub objects: Vec<BatchResponseObject>,
}

/// What a batch response says of one object.
#[derive(Debug)]
pub struct BatchResponseObject {
    pub oid: String,
    pub size: usize,
    pub actions: BatchResponseActions,
}

/// What can be done with an object.
#[derive(Debug)]
pub struct BatchResponseActions {
    pub download: BatchResponseActionsDownload,
}

/// Where an object can be downloaded from.
#[derive(Debug)]
pub struct BatchResponseActionsDownload {
    pub href: String,
}

/// One object of a batch response as contracts see it.
pub struct ObjectView {
    pub oid: Seq<char>,
    pub size: nat,
    pub href: Seq<char>,
}

impl View for BatchResponseObject {
    type V = ObjectView;

    open spec fn view(&self) -> ObjectView {
        ObjectView { oid: self.oid@, size: self.size as nat, href: self.actions.download.href@ }
    }
}

impl View for BatchResponse {
    type V = Seq<ObjectView>;

    open spec fn view(&self) -> Seq<ObjectView> {
        Seq::new(self.objects@.len(), |i: int| self.objects@[i]@)
    }
}

} // verus!
