//! Reading the structure of RLP-encoded data: where an item starts, where
//! its payload lies, and how a list falls into items.
//!
//! Only canonical encodings are read: a length is written in the shortest
//! form, and a single byte below `0x80` stands for itself.

use vstd::prelude::*;

verus! {

/// One item inside a buffer: the encoding occupies `at..end`, its payload
/// `start..end`.
#[derive(Debug, Clone, Copy, PartialEq, Eq, Structural)]
pub struct Item {
    /// Whether the item is a list; otherwise it is a byte string.
    pub is_list: bool,
    /// Where the encoding starts.
    pub at: usize,
    /// Where the payload starts.
    pub start: usize,
    /// Where the payload, and the encoding, ends.
    pub end: usize,
}

impl Item {
    /// The bounds are in order and lie within `limit`.
    pub open spec fn within(self, limit: int) -> bool {
        self.at <= self.start <= self.end <= limit && self.at < self.end
    }

    /// The bytes of the payload.
    pub open spec fn payload(self, buf: Seq<u8>) -> Seq<u8> {
        buf.subrange(self.start as int, self.end as int)
    }

    /// The bytes of the whole encoding.
    pub open spec fn encoding(self, buf: Seq<u8>) -> Seq<u8> {
        buf.subrange(self.at as int, self.end as int)
    }
}

/// The number that a big-endian byte string stands for.
pub open spec fn be_value(bytes: Seq<u8>) -> nat
    decreases bytes.len(),
{
    if bytes.len() == 0 {
        0
    } else {
        be_value(bytes.drop_last()) * 256 + bytes.last() as nat
    }
}

/// An item whose length fits in the first byte.
pub open spec fn short_item(buf: Seq<u8>, at: int, limit: int, is_list: bool, len: int) -> Option<
    Item,
> {
    if at + 1 + len > limit {
        None
    } else if !is_list && len == 1 && buf[at + 1] < 0x80 {
        None
    } else {
        Some(
            Item {
                is_list,
                at: at as usize,
                start: (at + 1) as usize,
                end: (at + 1 + len) as usize,
            },
        )
    }
}

/// An item whose length is written in `width` bytes after the first byte.
pub open spec fn long_item(buf: Seq<u8>, at: int, limit: int, is_list: bool, width: int) -> Option<
    Item,
> {
    if at + 1 + width > limit {
        None
    } else {
        let len = be_value(buf.subrange(at + 1, at + 1 + width));
        if buf[at + 1] == 0 || len < 56 || at + 1 + width + len > limit {
            None
        } else {
            Some(
                Item {
                    is_list,
                    at: at as usize,
                    start: (at + 1 + width) as usize,
                    end: (at + 1 + width + len) as usize,
                },
            )
        }
    }
}

/// The item that starts at `at`, if the bytes from there on are a canonical
/// encoding that ends no later than `limit`.
pub open spec fn item_at(buf: Seq<u8>, at: int, limit: int) -> Option<Item> {
    if !(0 <= at < limit <= buf.len()) {
        None
    } else {
        let tag = buf[at];
        if tag < 0x80 {
            Some(Item { is_list: false, at: at as usize, start: at as usize, end: (at + 1) as usize })
        } else if tag < 0xb8 {
            short_item(buf, at, limit, false, tag - 0x80)
        } else if tag < 0xc0 {
            long_item(buf, at, limit, false, tag - 0xb7)
        } else if tag < 0xf8 {
            short_item(buf, at, limit, true, tag - 0xc0)
        } else {
            long_item(buf, at, limit, true, tag - 0xf7)
        }
    }
}

/// The items that fill `from..to` exactly, in order, if that range is a
/// sequence of canonical encodings.
pub open spec fn items_between(buf: Seq<u8>, from: int, to: int) -> Option<Seq<Item>>
    decreases to - from,
{
    if from >= to {
        if from == to {
            Some(Seq::empty())
        } else {
            None
        }
    } else {
        match item_at(buf, from, to) {
            None => None,
            Some(first) => if first.end > from {
                match items_between(buf, first.end as int, to) {
                    None => None,
                    Some(rest) => Some(seq![first] + rest),
                }
            } else {
                None
            },
        }
    }
}

/// An item that was read lies where it was looked for.
pub proof fn lemma_item_bounds(buf: Seq<u8>, at: int, limit: int)
    requires
        limit <= usize::MAX,
    ensures
        item_at(buf, at, limit) matches Some(item) ==> item.at == at && item.within(limit),
{
}

/// Every item of a list lies within the list's range.
pub proof fn lemma_items_bounds(buf: Seq<u8>, from: int, to: int)
    requires
        0 <= from,
        to <= usize::MAX,
    ensures
        items_between(buf, from, to) matches Some(items) ==> forall|k: int|
            0 <= k < items.len() ==> from <= (#[trigger] items[k]).at && items[k].within(to),
    decreases to - from,
{
    if from < to {
        lemma_item_bounds(buf, from, to);
        match item_at(buf, from, to) {
            Some(first) => {
                if first.end > from {
                    lemma_items_bounds(buf, first.end as int, to);
                }
            },
            None => {},
        }
    }
}

/// A longer big-endian string that starts with a shorter one stands for a
/// number that is no smaller.
proof fn lemma_be_value_grows(bytes: Seq<u8>, shorter: int)
    requires
        0 <= shorter <= bytes.len(),
    ensures
        be_value(bytes.take(shorter)) <= be_value(bytes),
    decreases bytes.len() - shorter,
{
    if shorter == bytes.len() {
        assert(bytes.take(shorter) =~= bytes);
    } else {
        lemma_be_value_grows(bytes.drop_last(), shorter);
        assert(bytes.drop_last().take(shorter) =~= bytes.take(shorter));
    }
}

/// Reads the big-endian number in `buf[from..from + width]`, unless it is
/// larger than the buffer is long.
fn read_length(buf: &[u8], from: usize, width: usize) -> (len: Option<usize>)
    requires
        from + width <= buf.len(),
    ensures
        match len {
            Some(value) => value == be_value(buf@.subrange(from as int, from + width)),
            None => be_value(buf@.subrange(from as int, from + width)) > buf.len(),
        },
{
    let ghost digits = buf@.subrange(from as int, from + width);
    let mut value: usize = 0;
    let mut read: usize = 0;
    while read < width
        invariant
            read <= width,
            from + width <= buf.len(),
            digits == buf@.subrange(from as int, from + width),
            value == be_value(digits.take(read as int)),
            value <= buf.len(),
        decreases width - read,
    {
        let digit = buf[from + read];
        let wider: u128 = (value as u128) * 256 + (digit as u128);
        proof {
            assert(digits.take(read + 1).drop_last() =~= digits.take(read as int));
            assert(digits.take(read + 1).last() == digit);
        }
        if wider > buf.len() as u128 {
            proof {
                lemma_be_value_grows(digits, read + 1);
            }
            return None;
        }
        value = wider as usize;
        read += 1;
    }
    assert(digits.take(width as int) =~= digits);
    Some(value)
}

/// Reads the item that starts at `at` and ends no later than `limit`.
pub fn read_item(buf: &[u8], at: usize, limit: usize) -> (item: Option<Item>)
    ensures
        item == item_at(buf@, at as int, limit as int),
{
    if !(at < limit && limit <= buf.len()) {
        return None;
    }
    let tag = buf[at];
    if tag < 0x80 {
        return Some(Item { is_list: false, at, start: at, end: at + 1 });
    }
    let is_list = tag >= 0xc0;
    let short = tag < 0xb8 || (is_list && tag < 0xf8);
    let room = limit - at - 1;
    if short {
        let len: usize = if is_list {
            (tag - 0xc0) as usize
        } else {
            (tag - 0x80) as usize
        };
        if len > room {
            return None;
        }
        if !is_list && len == 1 && buf[at + 1] < 0x80 {
            return None;
        }
        Some(Item { is_list, at, start: at + 1, end: at + 1 + len })
    } else {
        let width: usize = if is_list {
            (tag - 0xf7) as usize
        } else {
            (tag - 0xb7) as usize
        };
        if width > room {
            return None;
        }
        if buf[at + 1] == 0 {
            return None;
        }
        match read_length(buf, at + 1, width) {
            None => None,
            Some(len) => {
                if len < 56 || len > room - width {
                    None
                } else {
                    Some(Item { is_list, at, start: at + 1 + width, end: at + 1 + width + len })
                }
            },
        }
    }
}

/// Splits `from..to` into the items that fill it.
pub fn read_items(buf: &[u8], from: usize, to: usize) -> (items: Option<Vec<Item>>)
    requires
        from <= to <= buf.len(),
    ensures
        match items {
            Some(found) => items_between(buf@, from as int, to as int) == Some(found@),
            None => items_between(buf@, from as int, to as int) is None,
        },
{
    let mut found: Vec<Item> = Vec::new();
    let mut at: usize = from;
    while at < to
        invariant
            from <= at <= to <= buf.len(),
            items_between(buf@, from as int, to as int) == match items_between(
                buf@,
                at as int,
                to as int,
            ) {
                Some(rest) => Some(found@ + rest),
                None => None,
            },
        decreases to - at,
    {
        match read_item(buf, at, to) {
            None => {
                return None;
            },
            Some(item) => {
                proof {
                    lemma_item_bounds(buf@, at as int, to as int);
                    match items_between(buf@, item.end as int, to as int) {
                        Some(rest) => {
                            assert(found@ + (seq![item] + rest) =~= found@.push(item) + rest);
                        },
                        None => {},
                    }
                }
                found.push(item);
                at = item.end;
            },
        }
    }
    assert(found@ + Seq::<Item>::empty() =~= found@);
    Some(found)
}

} // verus!

verus! {

/// A big-endian byte string without its leading zero bytes.
pub open spec fn trimmed(bytes: Seq<u8>) -> Seq<u8>
    decreases bytes.len(),
{
    if bytes.len() > 0 && bytes[0] == 0 {
        trimmed(bytes.skip(1))
    } else {
        bytes
    }
}

/// The shortest big-endian byte string that stands for a number.
pub open spec fn be_digits(number: nat) -> Seq<u8>
    decreases number,
{
    if number == 0 {
        Seq::empty()
    } else {
        be_digits(number / 256).push((number % 256) as u8)
    }
}

/// The bytes that announce a payload of `len` bytes: one byte, `base` plus
/// the length, for fewer than 56 bytes; otherwise `base` plus 55 plus the
/// number of digits of the length, then those digits.
pub open spec fn length_prefix(base: u8, len: nat) -> Seq<u8> {
    if len < 56 {
        seq![(base + len) as u8]
    } else {
        seq![(base + 55 + be_digits(len).len()) as u8] + be_digits(len)
    }
}

/// The encoding of a byte string: a single byte below `0x80` stands for
/// itself, anything else follows its length prefix.
pub open spec fn string_encoding(bytes: Seq<u8>) -> Seq<u8> {
    if bytes.len() == 1 && bytes[0] < 0x80 {
        bytes
    } else {
        length_prefix(0x80, bytes.len()) + bytes
    }
}

/// The encoding of an unsigned number given in big-endian bytes: that of
/// the bytes without leading zeros.
pub open spec fn uint_encoding(big_endian: Seq<u8>) -> Seq<u8> {
    string_encoding(trimmed(big_endian))
}

/// The encoding of a list whose items' encodings, one after the other, are
/// `payload`.
pub open spec fn list_encoding(payload: Seq<u8>) -> Seq<u8> {
    length_prefix(0xc0, payload.len()) + payload
}

} // verus!
