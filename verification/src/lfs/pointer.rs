//! The text of a pointer file: lines of a key, a space and a value.

use vstd::prelude::*;

use crate::error::{IndexError, ProtocolError};
use crate::lfs::{Pointer, PointerView, GH_API_HASH_ALGO, VERSION};
use crate::text::{chars_of, find, first_index, range_is};

verus! {

/// Whether a character is white space, as Unicode defines it.
pub open spec fn is_space(c: char) -> bool {
    let n = c as u32;
    (0x09 <= n <= 0x0D) || n == 0x20 || n == 0x85 || n == 0xA0 || n == 0x1680 || (0x2000 <= n
        <= 0x200A) || n == 0x2028 || n == 0x2029 || n == 0x202F || n == 0x205F || n == 0x3000
}

/// `s` without the white space at its start.
pub open spec fn trim_start(s: Seq<char>) -> Seq<char>
    decreases s.len(),
{
    if s.len() > 0 && is_space(s[0]) {
        trim_start(s.drop_first())
    } else {
        s
    }
}

/// `s` without the white space at its end.
pub open spec fn trim_end(s: Seq<char>) -> Seq<char>
    decreases s.len(),
{
    if s.len() > 0 && is_space(s.last()) {
        trim_end(s.drop_last())
    } else {
        s
    }
}

/// `s` without the white space at its start and at its end.
pub open spec fn trim(s: Seq<char>) -> Seq<char> {
    trim_end(trim_start(s))
}

/// Whether every character of `s` is a decimal digit.
pub open spec fn all_digits(s: Seq<char>) -> bool {
    forall|i: int| 0 <= i < s.len() ==> '0' <= #[trigger] s[i] <= '9'
}

/// The number that a run of decimal digits writes.
pub open spec fn digits_value(s: Seq<char>) -> nat
    decreases s.len(),
{
    if s.len() == 0 {
        0
    } else {
        digits_value(s.drop_last()) * 10 + (s.last() as u32 - '0' as u32) as nat
    }
}

/// The number that `s` writes in decimal: one digit or more, after at most
/// one `+`.
pub open spec fn decimal(s: Seq<char>) -> Option<nat> {
    let digits = if s.len() > 0 && s[0] == '+' {
        s.drop_first()
    } else {
        s
    };
    if digits.len() > 0 && all_digits(digits) {
        Some(digits_value(digits))
    } else {
        None
    }
}

/// The oid that the value of an `oid` line names: what stands between the
/// first colon and the second, or the end, where `sha256` stands before the
/// first.
pub open spec fn oid_of(value: Seq<char>) -> Result<Seq<char>, ProtocolError> {
    let colon = first_index(value, ':') as int;
    if value.take(colon) != GH_API_HASH_ALGO@ {
        Err(ProtocolError::HashAlgorithm)
    } else if colon >= value.len() {
        Err(ProtocolError::MissingOid)
    } else {
        let rest = value.skip(colon + 1);
        Ok(rest.take(first_index(rest, ':') as int))
    }
}

/// The size that the value of a `size` line names.
pub open spec fn size_of(value: Seq<char>) -> Result<nat, ProtocolError> {
    match decimal(value) {
        Some(n) => if n <= usize::MAX {
            Ok(n)
        } else {
            Err(ProtocolError::Size)
        },
        None => Err(ProtocolError::Size),
    }
}

/// What one trimmed line makes of the pointer read so far. The key ends at
/// the first space. A `version` line must name the one version, an `oid`
/// line sets the oid, a `size` line sets the size, and a line with any other
/// key changes nothing.
pub open spec fn read_line(line: Seq<char>, pointer: PointerView) -> Result<
    PointerView,
    ProtocolError,
> {
    let space = first_index(line, ' ') as int;
    if space >= line.len() {
        Err(ProtocolError::NotKeyValue)
    } else {
        let key = line.take(space);
        let value = line.skip(space + 1);
        if key == "version"@ {
            if value == VERSION@ {
                Ok(pointer)
            } else {
                Err(ProtocolError::Version)
            }
        } else if key == "oid"@ {
            match oid_of(value) {
                Ok(oid) => Ok(PointerView { oid, ..pointer }),
                Err(e) => Err(e),
            }
        } else if key == "size"@ {
            match size_of(value) {
                Ok(size) => Ok(PointerView { size, ..pointer }),
                Err(e) => Err(e),
            }
        } else {
            Ok(pointer)
        }
    }
}

/// What the lines of `text` from `from` on make of the pointer read so far.
/// A line ends at a line feed or at the end of the text, and is trimmed
/// before it is read; the first line that cannot be read ends the reading.
pub open spec fn read_lines(text: Seq<char>, from: int, pointer: PointerView) -> Result<
    PointerView,
    ProtocolError,
>
    decreases text.len() - from,
{
    if from < 0 || from >= text.len() {
        Ok(pointer)
    } else {
        let end = from + first_index(text.skip(from), '\n');
        match read_line(trim(text.subrange(from, end)), pointer) {
            Ok(next) => if end < text.len() {
                read_lines(text, end + 1, next)
            } else {
                Ok(next)
            },
            Err(e) => Err(e),
        }
    }
}

/// The pointer that a pointer file holds: what its lines make of the
/// pointer with no oid and size zero.
pub open spec fn pointer_in(text: Seq<char>) -> Result<PointerView, ProtocolError> {
    read_lines(text, 0, PointerView { oid: Seq::empty(), size: 0 })
}

/// Where `k` characters of white space stand at the start of `s` and no
/// more, `s` without them is what is left.
proof fn trim_start_found(s: Seq<char>, k: int)
    requires
        0 <= k <= s.len(),
        forall|j: int| 0 <= j < k ==> is_space(s[j]),
        k == s.len() || !is_space(s[k]),
    ensures
        trim_start(s) == s.skip(k),
    decreases s.len(),
{
    if s.len() > 0 && is_space(s[0]) {
        trim_start_found(s.drop_first(), k - 1);
        assert(s.drop_first().skip(k - 1) =~= s.skip(k));
    } else {
        assert(s.skip(0) =~= s);
    }
}

/// Where the white space at the end of `s` begins at `k`, what stands
/// before `k` is what is left.
proof fn trim_end_found(s: Seq<char>, k: int)
    requires
        0 <= k <= s.len(),
        forall|j: int| k <= j < s.len() ==> is_space(s[j]),
        k == 0 || !is_space(s[k - 1]),
    ensures
        trim_end(s) == s.take(k),
    decreases s.len(),
{
    if s.len() > 0 && is_space(s.last()) {
        trim_end_found(s.drop_last(), k);
        assert(s.drop_last().take(k) =~= s.take(k));
    } else {
        assert(s.take(s.len() as int) =~= s);
    }
}

/// More digits write no smaller number.
proof fn digits_value_grows(s: Seq<char>, k: int)
    requires
        0 <= k <= s.len(),
        all_digits(s),
    ensures
        digits_value(s.take(k)) <= digits_value(s),
    decreases s.len() - k,
{
    if k < s.len() {
        digits_value_grows(s, k + 1);
        assert(s.take(k + 1).drop_last() =~= s.take(k));
    } else {
        assert(s.take(k) =~= s);
    }
}

/// Whether a character is white space.
fn space(c: char) -> (b: bool)
    ensures
        b == is_space(c),
{
    let n = c as u32;
    (0x09 <= n && n <= 0x0D) || n == 0x20 || n == 0x85 || n == 0xA0 || n == 0x1680 || (0x2000 <= n
        && n <= 0x200A) || n == 0x2028 || n == 0x2029 || n == 0x202F || n == 0x205F || n
        == 0x3000
}

/// The part of `chars` between `from` and `to` that is left when the white
/// space at both ends is taken off.
fn trim_range(chars: &Vec<char>, from: usize, to: usize) -> (found: (usize, usize))
    requires
        from <= to <= chars@.len(),
    ensures
        from <= found.0 <= found.1 <= to,
        chars@.subrange(found.0 as int, found.1 as int) == trim(
            chars@.subrange(from as int, to as int),
        ),
{
    let mut a = from;
    while a < to && space(chars[a])
        invariant
            from <= a <= to <= chars@.len(),
            forall|j: int| from <= j < a ==> is_space(chars@[j]),
        decreases to - a,
    {
        a += 1;
    }
    let mut b = to;
    while b > a && space(chars[b - 1])
        invariant
            a <= b <= to <= chars@.len(),
            forall|j: int| b <= j < to ==> is_space(chars@[j]),
        decreases b - a,
    {
        b -= 1;
    }
    proof {
        let whole = chars@.subrange(from as int, to as int);
        trim_start_found(whole, a - from);
        let rest = whole.skip(a - from);
        assert(rest =~= chars@.subrange(a as int, to as int));
        trim_end_found(rest, b - a);
        assert(rest.take(b - a) =~= chars@.subrange(a as int, b as int));
    }
    (a, b)
}

/// The number that the part of `chars` between `from` and `to` writes, where
/// it writes one that a `usize` holds.
fn read_decimal(chars: &Vec<char>, from: usize, to: usize) -> (size: Option<usize>)
    requires
        from <= to <= chars@.len(),
    ensures
        match size_of(chars@.subrange(from as int, to as int)) {
            Ok(n) => size == Some(n as usize),
            Err(_) => size is None,
        },
{
    let ghost value = chars@.subrange(from as int, to as int);
    let start = if from < to && chars[from] == '+' {
        from + 1
    } else {
        from
    };
    let ghost digits = chars@.subrange(start as int, to as int);
    proof {
        assert(from < to ==> value[0] == chars@[from as int]);
        if start > from {
            assert(digits =~= value.drop_first());
        }
    }
    if start == to {
        return None;
    }
    let mut i = start;
    let mut total: usize = 0;
    proof {
        assert(digits.take(0) =~= Seq::<char>::empty());
    }
    while i < to
        invariant
            start <= i <= to <= chars@.len(),
            value == chars@.subrange(from as int, to as int),
            digits == chars@.subrange(start as int, to as int),
            decimal(value) == (if all_digits(digits) {
                Some(digits_value(digits))
            } else {
                None
            }),
            all_digits(digits.take(i - start)),
            total == digits_value(digits.take(i - start)),
        decreases to - i,
    {
        let c = chars[i];
        if c < '0' || c > '9' {
            assert(!('0' <= digits[i - start] <= '9'));
            return None;
        }
        let digit = (c as u32 - '0' as u32) as usize;
        proof {
            assert(digits.take(i - start + 1).drop_last() =~= digits.take(i - start));
            assert(digits.take(i - start + 1).last() == c);
        }
        let next = match total.checked_mul(10) {
            Some(tens) => tens.checked_add(digit),
            None => None,
        };
        match next {
            Some(n) => {
                total = n;
            },
            None => {
                proof {
                    assert(digits_value(digits.take(i - start + 1)) > usize::MAX);
                    if all_digits(digits) {
                        digits_value_grows(digits, i - start + 1);
                    }
                }
                return None;
            },
        }
        i += 1;
    }
    assert(digits.take(to - start) =~= digits);
    Some(total)
}

/// Reads the pointer that a pointer file holds, or says what is wrong with
/// the first line that cannot be read.
pub fn parse_pointer(input: &str) -> (parsed: Result<Pointer, IndexError>)
    ensures
        match pointer_in(input@) {
            Ok(pointer) => parsed is Ok && parsed->Ok_0@ == pointer,
            Err(e) => parsed == Err::<Pointer, IndexError>(IndexError::Protocol(e)),
        },
{
    let chars = chars_of(input);
    let len = chars.len();
    let mut pointer = Pointer::default();
    let mut from: usize = 0;
    while from < len
        invariant
            chars@ == input@,
            len == chars@.len(),
            from <= len,
            pointer_in(input@) == read_lines(input@, from as int, pointer@),
        decreases len - from,
    {
        let ghost before = pointer@;
        let end = find(&chars, '\n', from, len);
        let (a, b) = trim_range(&chars, from, end);
        let space = find(&chars, ' ', a, b);
        let ghost line = chars@.subrange(a as int, b as int);
        proof {
            assert(chars@.subrange(from as int, len as int) =~= chars@.skip(from as int));
            assert(line == trim(chars@.subrange(from as int, end as int)));
        }
        if space == b {
            return Err(IndexError::Protocol(ProtocolError::NotKeyValue));
        }
        let ghost value = line.skip(space - a + 1);
        proof {
            assert(line.take(space - a) =~= chars@.subrange(a as int, space as int));
            assert(value =~= chars@.subrange(space + 1, b as int));
        }
        if range_is(&chars, a, space, "version") {
            if !range_is(&chars, space + 1, b, VERSION) {
                return Err(IndexError::Protocol(ProtocolError::Version));
            }
        } else if range_is(&chars, a, space, "oid") {
            let colon = find(&chars, ':', space + 1, b);
            proof {
                assert(value.take(colon - space - 1) =~= chars@.subrange(
                    space + 1,
                    colon as int,
                ));
            }
            if !range_is(&chars, space + 1, colon, GH_API_HASH_ALGO) {
                return Err(IndexError::Protocol(ProtocolError::HashAlgorithm));
            }
            if colon == b {
                return Err(IndexError::Protocol(ProtocolError::MissingOid));
            }
            let stop = find(&chars, ':', colon + 1, b);
            proof {
                let rest = value.skip(colon - space);
                assert(rest =~= chars@.subrange(colon + 1, b as int));
                assert(rest.take(stop - colon - 1) =~= chars@.subrange(colon + 1, stop as int));
                assert(input@.subrange(colon + 1, stop as int) == oid_of(value)->Ok_0);
            }
            pointer.oid = input.substring_char(colon + 1, stop).to_owned();
        } else if range_is(&chars, a, space, "size") {
            match read_decimal(&chars, space + 1, b) {
                Some(size) => {
                    pointer.size = size;
                },
                None => {
                    return Err(IndexError::Protocol(ProtocolError::Size));
                },
            }
        }
        proof {
            assert(read_line(line, before) == Ok::<PointerView, ProtocolError>(pointer@));
            if end == len {
                assert(read_lines(input@, from as int, before) == read_lines(
                    input@,
                    len as int,
                    pointer@,
                ));
            }
        }
        if end == len {
            from = len;
        } else {
            from = end + 1;
        }
    }
    Ok(pointer)
}

} // verus!
