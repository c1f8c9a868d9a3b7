//! The messages of the batch API as JSON documents.
//!
//! Texts are parsed and documents are held by `serde_json`; what the
//! document of a request holds, and what a document must hold to be a batch
//! response, is decided here.

use vstd::prelude::*;

use crate::error::{IndexError, SchemaError};
use crate::json::{
    as_list, as_number, field_views, item_views, json_array, json_get, json_list, json_number,
    json_object, json_of, json_text, json_u64, json_view, member, members, parse_json, read_text,
    text_at, Json,
};
use crate::lfs::{
    BatchRequest, BatchRequestView, BatchResponse, BatchResponseActions,
    BatchResponseActionsDownload, BatchResponseObject, ObjectView, Pointer, PointerView,
};

verus! {

/// The size that an object gives under a key: a whole number that a `usize`
/// holds.
pub open spec fn size_member(json: Json, key: Seq<char>) -> Option<nat> {
    match member(json, key) {
        Some(inner) => match as_number(inner) {
            Some(n) => if n <= usize::MAX {
                Some(n as nat)
            } else {
                None
            },
            None => None,
        },
        None => None,
    }
}

/// Where an object of a batch response can be downloaded from: the string
/// at `actions.download.href`.
pub open spec fn href_member(json: Json) -> Option<Seq<char>> {
    match member(json, "actions"@) {
        Some(actions) => match member(actions, "download"@) {
            Some(download) => text_at(download, "href"@),
            None => None,
        },
        None => None,
    }
}

/// What a document says as one object of a batch response: it has a string
/// `oid`, a `size`, and a string at `actions.download.href`.
pub open spec fn object_of(json: Json) -> Option<ObjectView> {
    if text_at(json, "oid"@) is Some && size_member(json, "size"@) is Some && href_member(
        json,
    ) is Some {
        Some(
            ObjectView {
                oid: text_at(json, "oid"@)->Some_0,
                size: size_member(json, "size"@)->Some_0,
                href: href_member(json)->Some_0,
            },
        )
    } else {
        None
    }
}

/// What a document says as a batch response: it has an array `objects`,
/// each item of which is an object of a batch response.
pub open spec fn response_of(json: Json) -> Option<Seq<ObjectView>> {
    match member(json, "objects"@) {
        Some(inner) => match as_list(inner) {
            Some(items) => if forall|i: int|
                0 <= i < items.len() ==> object_of(#[trigger] items[i]) is Some {
                Some(Seq::new(items.len(), |i: int| object_of(items[i])->Some_0))
            } else {
                None
            },
            None => None,
        },
        None => None,
    }
}

/// What a body says as a batch response, or how it fails to be one.
pub open spec fn response_in(body: Seq<u8>) -> Result<Seq<ObjectView>, IndexError> {
    match json_of(body) {
        None => Err(IndexError::Schema(SchemaError::NotJson)),
        Some(json) => match response_of(json) {
            None => Err(IndexError::Schema(SchemaError::WrongShape)),
            Some(objects) => Ok(objects),
        },
    }
}

/// The size that an object gives under a key.
fn read_size(value: &serde_json::Value, key: &str) -> (found: Option<usize>)
    ensures
        match size_member(json_view(*value), key@) {
            Some(n) => found == Some(n as usize),
            None => found is None,
        },
{
    match json_get(value, key) {
        Some(inner) => match json_u64(inner) {
            Some(n) => if n <= usize::MAX as u64 {
                Some(n as usize)
            } else {
                None
            },
            None => None,
        },
        None => None,
    }
}

/// Where an object of a batch response can be downloaded from.
fn read_href(value: &serde_json::Value) -> (found: Option<String>)
    ensures
        match href_member(json_view(*value)) {
            Some(text) => found is Some && found->Some_0@ == text,
            None => found is None,
        },
{
    match json_get(value, "actions") {
        Some(actions) => match json_get(actions, "download") {
            Some(download) => read_text(download, "href"),
            None => None,
        },
        None => None,
    }
}

/// Reads one object of a batch response from a parsed document.
pub fn read_object(value: &serde_json::Value) -> (object: Option<BatchResponseObject>)
    ensures
        match object_of(json_view(*value)) {
            Some(view) => object is Some && object->Some_0@ == view,
            None => object is None,
        },
{
    let oid = match read_text(value, "oid") {
        Some(oid) => oid,
        None => {
            return None;
        },
    };
    let size = match read_size(value, "size") {
        Some(size) => size,
        None => {
            return None;
        },
    };
    let href = match read_href(value) {
        Some(href) => href,
        None => {
            return None;
        },
    };
    Some(
        BatchResponseObject {
            oid,
            size,
            actions: BatchResponseActions { download: BatchResponseActionsDownload { href } },
        },
    )
}

/// Reads a batch response from a parsed document, or finds that the
/// document is of another shape.
pub fn read_batch_response(value: &serde_json::Value) -> (response: Result<BatchResponse, IndexError>)
    ensures
        match response_of(json_view(*value)) {
            Some(objects) => response is Ok && response->Ok_0@ == objects,
            None => response == Err::<BatchResponse, IndexError>(
                IndexError::Schema(SchemaError::WrongShape),
            ),
        },
{
    let items = match json_get(value, "objects") {
        Some(inner) => match json_array(inner) {
            Some(items) => items,
            None => {
                return Err(IndexError::Schema(SchemaError::WrongShape));
            },
        },
        None => {
            return Err(IndexError::Schema(SchemaError::WrongShape));
        },
    };
    let ghost docs = as_list(member(json_view(*value), "objects"@)->Some_0)->Some_0;
    let mut objects: Vec<BatchResponseObject> = Vec::new();
    let mut i: usize = 0;
    while i < items.len()
        invariant
            i <= items@.len(),
            items@.len() == docs.len(),
            member(json_view(*value), "objects"@) is Some,
            as_list(member(json_view(*value), "objects"@)->Some_0) == Some(docs),
            forall|j: int| 0 <= j < docs.len() ==> json_view(#[trigger] items@[j]) == docs[j],
            objects@.len() == i,
            forall|j: int| 0 <= j < i ==> object_of(#[trigger] docs[j]) is Some,
            forall|j: int| 0 <= j < i ==> (#[trigger] objects@[j])@ == object_of(docs[j])->Some_0,
        decreases items@.len() - i,
    {
        match read_object(&items[i]) {
            Some(object) => {
                objects.push(object);
            },
            None => {
                assert(object_of(docs[i as int]) is None);
                return Err(IndexError::Schema(SchemaError::WrongShape));
            },
        }
        i += 1;
    }
    let response = BatchResponse { objects };
    assert(response@ =~= response_of(json_view(*value))->Some_0);
    Ok(response)
}

/// Reads a batch response from the body of an HTTP response. A body that is
/// no JSON at all is told apart from one that is JSON of another shape.
pub fn parse_batch_response(body: &[u8]) -> (response: Result<BatchResponse, IndexError>)
    ensures
        match response_in(body@) {
            Ok(objects) => response is Ok && response->Ok_0@ == objects,
            Err(e) => response == Err::<BatchResponse, IndexError>(e),
        },
{
    match parse_json(body) {
        Ok(value) => read_batch_response(&value),
        Err(_) => Err(IndexError::Schema(SchemaError::NotJson)),
    }
}

/// A pointer as a batch request names it: an object with its `oid` and its
/// `size`.
pub open spec fn pointer_json(pointer: PointerView) -> Json {
    Json::Object(
        map![
            "oid"@ => Json::Text(pointer.oid),
            "size"@ => Json::Number(Some(pointer.size as u64)),
        ],
    )
}

/// The body of a batch request: an object with the `operation` and, under
/// `objects`, the pointers in their order.
pub open spec fn request_json(request: BatchRequestView) -> Json {
    Json::Object(
        map![
            "operation"@ => Json::Text(request.operation),
            "objects"@ => Json::List(
                Seq::new(request.objects.len(), |i: int| pointer_json(request.objects[i])),
            ),
        ],
    )
}

/// The members that two keys with their documents make.
proof fn two_members(first: (Seq<char>, Json), second: (Seq<char>, Json))
    ensures
        members(seq![first, second]) == map![first.0 => first.1, second.0 => second.1],
{
    let fields = seq![first, second];
    let one = seq![first];
    let none = Seq::<(Seq<char>, Json)>::empty();
    assert(fields.drop_last() =~= one);
    assert(one.drop_last() =~= none);
    assert(members(none) == Map::<Seq<char>, Json>::empty());
    assert(one.last() == first);
    assert(members(one) == members(none).insert(first.0, first.1));
    assert(fields.last() == second);
    assert(members(fields) == members(one).insert(second.0, second.1));
}

impl Pointer {
    /// The document that names this pointer in a batch request.
    pub fn to_json(&self) -> (value: serde_json::Value)
        ensures
            json_view(value) == pointer_json(self@),
    {
        let mut fields: Vec<(String, serde_json::Value)> = Vec::new();
        fields.push(("oid".to_owned(), json_text(self.oid.as_str())));
        fields.push(("size".to_owned(), json_number(self.size as u64)));
        proof {
            reveal_strlit("oid");
            reveal_strlit("size");
            assert("oid"@.len() != "size"@.len());
            let first = ("oid"@, Json::Text(self.oid@));
            let second = ("size"@, Json::Number(Some(self.size as u64)));
            assert(field_views(fields@) =~= seq![first, second]);
            two_members(first, second);
        }
        json_object(fields)
    }
}

impl<'pointers> BatchRequest<'pointers> {
    /// The document to send as the body of this request.
    pub fn to_json(&self) -> (value: serde_json::Value)
        ensures
            json_view(value) == request_json(self@),
    {
        let mut items: Vec<serde_json::Value> = Vec::new();
        let mut i: usize = 0;
        while i < self.objects.len()
            invariant
                i <= self.objects@.len(),
                items@.len() == i,
                forall|j: int|
                    0 <= j < i ==> json_view(#[trigger] items@[j]) == pointer_json(
                        self.objects@[j]@,
                    ),
            decreases self.objects@.len() - i,
        {
            items.push(self.objects[i].to_json());
            i += 1;
        }
        let ghost list = Json::List(item_views(items@));
        proof {
            assert(item_views(items@) =~= Seq::new(
                self@.objects.len(),
                |i: int| pointer_json(self@.objects[i]),
            ));
        }
        let mut fields: Vec<(String, serde_json::Value)> = Vec::new();
        fields.push(("operation".to_owned(), json_text(self.operation.as_str())));
        fields.push(("objects".to_owned(), json_list(items)));
        proof {
            reveal_strlit("operation");
            reveal_strlit("objects");
            assert("operation"@.len() != "objects"@.len());
            let first = ("operation"@, Json::Text(self.operation@));
            let second = ("objects"@, list);
            assert(field_views(fields@) =~= seq![first, second]);
            two_members(first, second);
        }
        json_object(fields)
    }
}

} // verus!
