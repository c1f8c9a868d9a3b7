//! Walking an ordered collection page by page.

use vstd::prelude::*;

use crate::error::IndexError;

verus! {

/// Where the page that starts at `offset` and asks for `count` items ends in
/// a collection of `len` items: `offset + count`, capped at `len`.
pub open spec fn page_end(len: nat, offset: nat, count: nat) -> nat {
    if offset + count <= len {
        offset + count
    } else {
        len
    }
}

/// How many items that page holds.
pub open spec fn page_len(len: nat, offset: nat, count: nat) -> nat {
    if count <= len - offset {
        count
    } else {
        (len - offset) as nat
    }
}

/// The offset to ask for after the page at `offset`, or why there is no such
/// page. A cursor at or past the end is out of bounds, and so is every cursor
/// into an empty collection.
pub fn next_offset(len: usize, offset: usize, count: usize) -> (next: Result<usize, IndexError>)
    ensures
        offset >= len ==> next == Err::<usize, IndexError>(IndexError::Bounds { offset, len }),
        offset < len ==> next == Ok::<usize, IndexError>(
            page_end(len as nat, offset as nat, count as nat) as usize,
        ),
{
    if offset >= len {
        return Err(IndexError::Bounds { offset, len });
    }
    if count >= len - offset {
        Ok(len)
    } else {
        Ok(offset + count)
    }
}

/// The page of `items` that starts at `offset` and holds up to `count` of
/// them, with the offset of the page after it.
pub fn page<T>(items: &[T], offset: usize, count: usize) -> (found: Result<(&[T], usize), IndexError>)
    ensures
        offset >= items@.len() ==> found == Err::<(&[T], usize), IndexError>(
            IndexError::Bounds { offset, len: items@.len() as usize },
        ),
        offset < items@.len() ==> found is Ok && found->Ok_0.1 == page_end(
            items@.len(),
            offset as nat,
            count as nat,
        ) && found->Ok_0.0@ == items@.subrange(offset as int, found->Ok_0.1 as int),
{
    let len = items.len();
    match next_offset(len, offset, count) {
        Err(e) => Err(e),
        Ok(next) => {
            let part = &items[offset..next];
            Ok((part, next))
        },
    }
}

/// The number of items on a page is the smaller of `count` and what is left,
/// and the page ends that many items after its start.
pub proof fn page_len_is_min(len: nat, offset: nat, count: nat)
    requires
        offset < len,
    ensures
        page_end(len, offset, count) - offset == page_len(len, offset, count),
        page_len(len, offset, count) <= count,
        page_len(len, offset, count) <= len - offset,
        page_len(len, offset, count) == count || page_len(len, offset, count) == len - offset,
        offset <= page_end(len, offset, count) <= len,
{
}

} // verus!
