//! Where a block device and its reported size are found, and the capacity
//! that the report stands for.
//!
//! The system gives the size as a count of 512-byte sectors in decimal
//! digits, with white space around it.

use vstd::prelude::*;
use vstd::string::*;

verus! {

/// Bytes in one sector of the reported size.
pub const SECTOR_SIZE: u64 = 512;

/// Why a reported size gives no capacity.
#[derive(Clone, Copy, Debug, PartialEq, Eq, Structural)]
pub enum CapacityError {
    /// The text is not a sector count that fits 64 bits.
    Unparseable,
    /// The sector count stands for more bytes than fit 64 bits.
    TooLarge,
}

/// The path of the device named `device_name`.
pub open spec fn device_path_of(device_name: Seq<char>) -> Seq<char> {
    "/dev/"@ + device_name
}

/// The path of the file in which the system reports the size of the device
/// named `device_name`.
pub open spec fn size_path_of(device_name: Seq<char>) -> Seq<char> {
    "/sys/class/block/"@ + device_name + "/size"@
}

/// The path under which the device named `device_name` is opened.
pub fn device_path(device_name: &str) -> (path: String)
    ensures
        path@ == device_path_of(device_name@),
{
    String::from_str("/dev/").concat(device_name)
}

/// The path of the file that holds the size of the device named
/// `device_name`, in sectors.
pub fn size_path(device_name: &str) -> (path: String)
    ensures
        path@ == size_path_of(device_name@),
{
    String::from_str("/sys/class/block/").concat(device_name).concat("/size")
}

/// The characters with the Unicode property `White_Space`.
pub open spec fn is_whitespace(c: char) -> bool {
    let code = c as u32;
    ||| 0x09 <= code <= 0x0d
    ||| code == 0x20
    ||| code == 0x85
    ||| code == 0xa0
    ||| code == 0x1680
    ||| 0x2000 <= code <= 0x200a
    ||| code == 0x2028
    ||| code == 0x2029
    ||| code == 0x202f
    ||| code == 0x205f
    ||| code == 0x3000
}

pub open spec fn is_digit(c: char) -> bool {
    '0' <= c <= '9'
}

/// `text` without the white space at its start.
pub open spec fn trim_start(text: Seq<char>) -> Seq<char>
    decreases text.len(),
{
    if text.len() > 0 && is_whitespace(text.first()) {
        trim_start(text.drop_first())
    } else {
        text
    }
}

/// `text` without the white space at its end.
pub open spec fn trim_end(text: Seq<char>) -> Seq<char>
    decreases text.len(),
{
    if text.len() > 0 && is_whitespace(text.last()) {
        trim_end(text.drop_last())
    } else {
        text
    }
}

/// `text` without the white space at its start and at its end.
pub open spec fn trimmed(text: Seq<char>) -> Seq<char> {
    trim_end(trim_start(text))
}

/// `text` without a plus sign at its start.
pub open spec fn unsigned(text: Seq<char>) -> Seq<char> {
    if text.len() > 0 && text.first() == '+' {
        text.drop_first()
    } else {
        text
    }
}

pub open spec fn all_digits(text: Seq<char>) -> bool {
    forall|i: int| 0 <= i < text.len() ==> is_digit(#[trigger] text[i])
}

/// The number that decimal digits stand for.
pub open spec fn digits_value(digits: Seq<char>) -> nat
    decreases digits.len(),
{
    if digits.len() == 0 {
        0
    } else {
        10 * digits_value(digits.drop_last()) + (digits.last() as u32 - '0' as u32) as nat
    }
}

/// The sector count that `text` holds: decimal digits, at least one, after
/// an optional plus sign and within white space.
pub open spec fn sector_count(text: Seq<char>) -> Option<nat> {
    let digits = unsigned(trimmed(text));
    if digits.len() > 0 && all_digits(digits) {
        Some(digits_value(digits))
    } else {
        None
    }
}

/// The capacity in bytes that the reported size `text` stands for.
pub open spec fn capacity_of(text: Seq<char>) -> Result<u64, CapacityError> {
    match sector_count(text) {
        Some(sectors) => if sectors > u64::MAX {
            Err(CapacityError::Unparseable)
        } else if sectors * SECTOR_SIZE > u64::MAX {
            Err(CapacityError::TooLarge)
        } else {
            Ok((sectors * SECTOR_SIZE) as u64)
        },
        None => Err(CapacityError::Unparseable),
    }
}

fn char_is_whitespace(c: char) -> (white: bool)
    ensures
        white == is_whitespace(c),
{
    let code: u32 = c as u32;
    (0x09 <= code && code <= 0x0d) || code == 0x20 || code == 0x85 || code == 0xa0 || code
        == 0x1680 || (0x2000 <= code && code <= 0x200a) || code == 0x2028 || code == 0x2029
        || code == 0x202f || code == 0x205f || code == 0x3000
}

/// More digits never make a smaller number.
proof fn lemma_digits_value_grows(digits: Seq<char>, k: int)
    requires
        0 <= k <= digits.len(),
    ensures
        digits_value(digits.take(k)) <= digits_value(digits),
    decreases digits.len() - k,
{
    if k == digits.len() {
        assert(digits.take(k) =~= digits);
    } else {
        lemma_digits_value_grows(digits.drop_last(), k);
        assert(digits.drop_last().take(k) =~= digits.take(k));
    }
}

/// The capacity in bytes of a device whose size the system reports as
/// `size_text`.
pub fn parse_device_capacity(size_text: &str) -> (capacity: Result<u64, CapacityError>)
    ensures
        capacity == capacity_of(size_text@),
{
    let ghost text = size_text@;
    let len: usize = size_text.unicode_len();
    let mut start: usize = 0;
    assert(text.subrange(0, len as int) =~= text);
    while start < len && char_is_whitespace(size_text.get_char(start))
        invariant
            text == size_text@,
            len == text.len(),
            start <= len,
            trim_start(text) == trim_start(text.subrange(start as int, len as int)),
        decreases len - start,
    {
        assert(text.subrange(start as int, len as int).drop_first() =~= text.subrange(
            start + 1,
            len as int,
        ));
        start = start + 1;
    }
    let mut end: usize = len;
    while end > start && char_is_whitespace(size_text.get_char(end - 1))
        invariant
            text == size_text@,
            len == text.len(),
            start <= end <= len,
            trim_start(text) == text.subrange(start as int, len as int),
            trimmed(text) == trim_end(text.subrange(start as int, end as int)),
        decreases end - start,
    {
        assert(text.subrange(start as int, end as int).drop_last() =~= text.subrange(
            start as int,
            end - 1,
        ));
        end = end - 1;
    }
    assert(trimmed(text) == text.subrange(start as int, end as int));
    if start < end && size_text.get_char(start) == '+' {
        assert(text.subrange(start as int, end as int).drop_first() =~= text.subrange(
            start + 1,
            end as int,
        ));
        start = start + 1;
    }
    let ghost digits = text.subrange(start as int, end as int);
    assert(digits == unsigned(trimmed(text)));
    if start == end {
        return Err(CapacityError::Unparseable);
    }
    let mut sectors: u64 = 0;
    let mut i: usize = start;
    while i < end
        invariant
            text == size_text@,
            len == text.len(),
            start <= i <= end <= len,
            digits == text.subrange(start as int, end as int),
            digits == unsigned(trimmed(text)),
            all_digits(digits.take(i - start)),
            sectors == digits_value(digits.take(i - start)),
        decreases end - i,
    {
        let c: char = size_text.get_char(i);
        let ghost seen = digits.take(i - start);
        let ghost more = digits.take(i - start + 1);
        assert(digits[i - start] == c);
        assert(more.drop_last() =~= seen);
        assert(more.last() == c);
        if !('0' <= c && c <= '9') {
            return Err(CapacityError::Unparseable);
        }
        let digit: u64 = (c as u32 - '0' as u32) as u64;
        let next: Option<u64> = match sectors.checked_mul(10) {
            Some(tens) => tens.checked_add(digit),
            None => None,
        };
        match next {
            Some(value) => {
                sectors = value;
            },
            None => {
                proof {
                    assert(digits_value(more) == 10 * sectors + digit);
                    lemma_digits_value_grows(digits, i - start + 1);
                }
                return Err(CapacityError::Unparseable);
            },
        }
        i = i + 1;
    }
    assert(digits.take(i - start) =~= digits);
    match sectors.checked_mul(SECTOR_SIZE) {
        Some(bytes) => Ok(bytes),
        None => Err(CapacityError::TooLarge),
    }
}

/// The number of whole blocks of `block_size` bytes in `bytes` bytes.
pub fn block_count(bytes: u64, block_size: u64) -> (blocks: u64)
    requires
        block_size > 0,
    ensures
        blocks == bytes / block_size,
{
    bytes / block_size
}

} // verus!
