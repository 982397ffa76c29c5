//! The bitmask form of cpuset lists (`0-3,5,7`) that systemd expects.
use vstd::prelude::*;

use bit_vec::BitVec;

use crate::error::SystemdError;
use crate::text::{chars_of, parse_decimal, parse_unsigned, split_chars, split_on, views};

verus! {

#[verifier::external_type_specification]
#[verifier::external_body]
#[verifier::reject_recursive_types(B)]
pub struct ExBitVec<B>(BitVec<B>);

/// The bits that a bit vector holds, first bit first.
pub uninterp spec fn bits_of(v: BitVec) -> Seq<bool>;

/// Bit `t` (0 for the lowest) of the byte `b`.
pub open spec fn byte_bit(b: u8, t: int) -> bool {
    (b >> (t as u8)) & 1u8 == 1u8
}

/// Relies on `BitVec::from_elem`: a vector of `n` bits, all false.
#[verifier::external_body]
fn zero_bits(n: usize) -> (r: BitVec)
    ensures
        bits_of(r) == Seq::new(n as nat, |_i: int| false),
{
    BitVec::from_elem(n, false)
}

/// Relies on `BitVec::grow`: `n` false bits are appended; it panics only
/// where the new length overflows `usize`.
#[verifier::external_body]
fn grow_bits(v: &mut BitVec, n: usize)
    requires
        bits_of(*old(v)).len() + n <= usize::MAX,
    ensures
        bits_of(*final(v)) == bits_of(*old(v)) + Seq::new(n as nat, |_i: int| false),
{
    v.grow(n, false)
}

/// Relies on `BitVec::set`: bit `i` becomes true; it panics only where `i`
/// is out of bounds.
#[verifier::external_body]
fn set_bit(v: &mut BitVec, i: usize)
    requires
        i < bits_of(*old(v)).len(),
    ensures
        bits_of(*final(v)) == bits_of(*old(v)).update(i as int, true),
{
    v.set(i, true)
}

/// Relies on `BitVec::len`: the number of bits.
#[verifier::external_body]
fn bits_len(v: &BitVec) -> (r: usize)
    ensures
        r == bits_of(*v).len(),
{
    v.len()
}

/// Relies on `BitVec::to_bytes`: the bits in groups of eight, the first bit
/// of a group in the high-order bit of its byte, missing bits false.
#[verifier::external_body]
fn bits_to_bytes(v: &BitVec) -> (r: Vec<u8>)
    ensures
        r@.len() == (bits_of(*v).len() + 7) / 8,
        forall|k: int, j: int|
            0 <= k < r@.len() && 0 <= j < 8 ==> #[trigger] byte_bit(r@[k], 7 - j) == (8 * k + j
                < bits_of(*v).len() && bits_of(*v)[8 * k + j]),
{
    v.to_bytes()
}

/// The largest index that a cpuset list may name.
pub const MAX_CPU_INDEX: usize = usize::MAX - 15;

/// The indexes `(low, high)` that one item of a cpuset list names: `n` or
/// `low-high`; `None` where the item is malformed.
pub open spec fn item_range(item: Seq<char>) -> Option<(nat, nat)> {
    let r = split_on(item, '-');
    if r.len() == 1 {
        match parse_unsigned(r[0], MAX_CPU_INDEX as nat) {
            Some(v) => Some((v, v)),
            None => None,
        }
    } else if r.len() == 2 {
        match (parse_unsigned(r[0], MAX_CPU_INDEX as nat), parse_unsigned(r[1], MAX_CPU_INDEX as nat)) {
            (Some(l), Some(h)) => Some((l, h)),
            _ => None,
        }
    } else {
        None
    }
}

/// The lowest index that a well-formed item names.
pub open spec fn range_lo(item: Seq<char>) -> nat {
    let (l, h) = item_range(item)->0;
    l
}

/// The highest index that a well-formed item names.
pub open spec fn range_hi(item: Seq<char>) -> nat {
    let (l, h) = item_range(item)->0;
    h
}

/// Whether every comma-separated item of the list is well-formed.
pub open spec fn list_valid(list: Seq<char>) -> bool {
    forall|k: int| 0 <= k < split_on(list, ',').len() ==> (#[trigger] item_range(split_on(list, ',')[k])) is Some
}

/// Whether one of the items names index `i`.
pub open spec fn items_cover(items: Seq<Seq<char>>, i: int) -> bool {
    exists|k: int|
        0 <= k < items.len() && (#[trigger] item_range(items[k])) is Some && range_lo(items[k])
            <= i <= range_hi(items[k])
}

/// Whether the list names index `i`.
pub open spec fn in_list(list: Seq<char>, i: int) -> bool {
    items_cover(split_on(list, ','), i)
}

/// How many bytes the mask of the items takes: enough for the highest index
/// of each item, and at least one.
pub open spec fn mask_bytes(items: Seq<Seq<char>>) -> nat
    decreases items.len(),
{
    if items.len() == 0 {
        1
    } else {
        let rest = mask_bytes(items.drop_last());
        let need = range_hi(items.last()) / 8 + 1;
        if need > rest {
            need
        } else {
            rest
        }
    }
}

/// Bit `i` of a mask whose last byte holds indexes 0 to 7, the byte before
/// it 8 to 15, and so on.
pub open spec fn mask_bit(m: Seq<u8>, i: int) -> bool {
    byte_bit(m[m.len() - 1 - i / 8], i % 8)
}

/// Where bit `i` is kept in the bit vector: bytes in order, the lowest
/// index of each byte in its last bit.
pub open spec fn local_idx(i: int) -> int {
    i / 8 * 8 + 7 - i % 8
}

proof fn lemma_local_idx(i: int, len: int)
    requires
        0 <= i < len,
        len % 8 == 0,
    ensures
        0 <= local_idx(i) < len,
        local_idx(local_idx(i)) == i,
        local_idx(i) / 8 == i / 8,
        local_idx(i) % 8 == 7 - i % 8,
{
}

fn local_index(i: usize) -> (r: usize)
    ensures
        r == local_idx(i as int),
{
    i / 8 * 8 + 7 - i % 8
}

/// The indexes that one item of a list names, parsed.
fn parse_item(item: &Vec<char>) -> (r: Option<(usize, usize)>)
    ensures
        match item_range(item@) {
            Some((l, h)) => r == Some((l as usize, h as usize)),
            None => r is None,
        },
{
    let range = split_chars(item, '-');
    if range.len() == 1 {
        assert(views(range@)[0] == range@[0]@);
        match parse_decimal(&range[0], MAX_CPU_INDEX as u128) {
            Some(v) => Some((v as usize, v as usize)),
            None => None,
        }
    } else if range.len() == 2 {
        assert(views(range@)[0] == range@[0]@);
        assert(views(range@)[1] == range@[1]@);
        let left = parse_decimal(&range[0], MAX_CPU_INDEX as u128);
        let right = parse_decimal(&range[1], MAX_CPU_INDEX as u128);
        match (left, right) {
            (Some(l), Some(h)) => Some((l as usize, h as usize)),
            _ => None,
        }
    } else {
        None
    }
}

proof fn lemma_cover_step(items: Seq<Seq<char>>, t: int, i: int)
    requires
        0 <= t < items.len(),
        item_range(items[t]) is Some,
    ensures
        items_cover(items.take(t + 1), i) == (items_cover(items.take(t), i) || (range_lo(
            items[t],
        ) <= i <= range_hi(items[t]))),
{
    let a = items.take(t);
    let b = items.take(t + 1);
    if items_cover(b, i) {
        let k = choose|k: int|
            0 <= k < b.len() && (#[trigger] item_range(b[k])) is Some && range_lo(b[k]) <= i
                <= range_hi(b[k]);
        if k < t {
            assert(a[k] == b[k]);
        } else {
            assert(b[k] == items[t]);
        }
    }
    if items_cover(a, i) {
        let k = choose|k: int|
            0 <= k < a.len() && (#[trigger] item_range(a[k])) is Some && range_lo(a[k]) <= i
                <= range_hi(a[k]);
        assert(a[k] == b[k]);
    }
    if range_lo(items[t]) <= i <= range_hi(items[t]) {
        assert(b[t] == items[t]);
    }
}

/// Converts a cpuset list such as `0-3,5,7` into the bitmask that systemd
/// takes for `AllowedCPUs` and `AllowedMemoryNodes`: the last byte holds
/// indexes 0 to 7 (index 0 in its lowest bit), the byte before it 8 to 15,
/// and so on.
pub fn convert_list_to_mask(list: &str) -> (r: Result<Vec<u8>, SystemdError>)
    ensures
        r is Ok <==> list_valid(list@),
        r is Err ==> r == Err::<Vec<u8>, SystemdError>(SystemdError::InvalidArgument),
        r matches Ok(m) ==> {
            &&& m@.len() == mask_bytes(split_on(list@, ','))
            &&& forall|i: int| 0 <= i < 8 * m@.len() ==> mask_bit(m@, i) == in_list(list@, i)
            &&& forall|i: int| #[trigger] in_list(list@, i) ==> 0 <= i < 8 * m@.len()
        },
{
    let c = chars_of(list);
    let parts = split_chars(&c, ',');
    let ghost items = split_on(list@, ',');
    let mut bv = zero_bits(8);
    let mut t: usize = 0;
    while t < parts.len()
        invariant
            views(parts@) == items,
            items == split_on(list@, ','),
            t <= items.len(),
            bits_of(bv).len() % 8 == 0,
            bits_of(bv).len() == 8 * mask_bytes(items.take(t as int)),
            bits_of(bv).len() <= MAX_CPU_INDEX + 8,
            forall|k: int| 0 <= k < t ==> (#[trigger] item_range(items[k])) is Some,
            forall|i: int|
                0 <= i < bits_of(bv).len() ==> bits_of(bv)[local_idx(i)] == items_cover(
                    items.take(t as int),
                    i,
                ),
            forall|i: int| #[trigger] items_cover(items.take(t as int), i) ==> 0 <= i < bits_of(bv).len(),
        decreases items.len() - t,
    {
        assert(items[t as int] == parts@[t as int]@);
        let (lo, hi) = match parse_item(&parts[t]) {
            Some(p) => p,
            None => {
                return Err(SystemdError::InvalidArgument);
            },
        };
        let ghost old_len = bits_of(bv).len();
        let ghost old_bits = bits_of(bv);
        let ghost cover = |i: int| items_cover(items.take(t as int), i);
        let mut len = bits_len(&bv);
        while hi >= len
            invariant
                len == bits_of(bv).len(),
                len % 8 == 0,
                len == old_len || len <= 8 * (hi / 8 + 1),
                len >= old_len,
                old_len <= MAX_CPU_INDEX + 8,
                hi <= MAX_CPU_INDEX,
                forall|p: int| 0 <= p < old_len ==> #[trigger] bits_of(bv)[p] == old_bits[p],
                forall|p: int| old_len <= p < len ==> !#[trigger] bits_of(bv)[p],
            decreases hi + 8 - len,
        {
            grow_bits(&mut bv, 8);
            len = bits_len(&bv);
        }
        assert(len == if old_len > 8 * (hi / 8 + 1) { old_len as int } else { 8 * (hi as int / 8 + 1) });
        assert forall|i: int| 0 <= i < len implies bits_of(bv)[local_idx(i)] == cover(i) by {
            lemma_local_idx(i, len as int);
            if i < old_len {
                lemma_local_idx(i, old_len as int);
            }
        }
        let mut j: usize = lo;
        while j <= hi
            invariant
                lo <= j,
                j <= hi + 1 || j == lo,
                hi < len,
                len == bits_of(bv).len(),
                len % 8 == 0,
                hi <= MAX_CPU_INDEX,
                forall|i: int|
                    0 <= i < len ==> bits_of(bv)[local_idx(i)] == (cover(i) || (lo <= i < j)),
            decreases hi + 1 - j,
        {
            let ghost before = bits_of(bv);
            proof {
                lemma_local_idx(j as int, len as int);
            }
            set_bit(&mut bv, local_index(j));
            assert forall|i: int| 0 <= i < len implies bits_of(bv)[local_idx(i)] == (cover(i) || (lo
                <= i < j + 1)) by {
                lemma_local_idx(i, len as int);
                lemma_local_idx(j as int, len as int);
            }
            j = j + 1;
        }
        proof {
            assert(items.take(t + 1).drop_last() == items.take(t as int));
            assert(items.take(t + 1).last() == items[t as int]);
            assert forall|i: int| 0 <= i < len implies bits_of(bv)[local_idx(i)] == items_cover(
                items.take(t + 1),
                i,
            ) by {
                lemma_cover_step(items, t as int, i);
            }
            assert forall|i: int| #[trigger] items_cover(items.take(t + 1), i) implies 0 <= i < len by {
                lemma_cover_step(items, t as int, i);
            }
        }
        t = t + 1;
    }
    assert(items.take(items.len() as int) == items);
    let bytes = bits_to_bytes(&bv);
    let n = bytes.len();
    let mut m: Vec<u8> = Vec::new();
    let mut x: usize = 0;
    while x < n
        invariant
            n == bytes@.len(),
            x <= n,
            m@.len() == x,
            forall|y: int| 0 <= y < x ==> m@[y] == bytes@[n - 1 - y],
        decreases n - x,
    {
        m.push(bytes[n - 1 - x]);
        x = x + 1;
    }
    proof {
        let len = bits_of(bv).len();
        assert forall|i: int| 0 <= i < 8 * m@.len() implies mask_bit(m@, i) == in_list(list@, i) by {
            lemma_local_idx(i, len as int);
            assert(byte_bit(bytes@[i / 8], 7 - (7 - i % 8)) == (8 * (i / 8) + (7 - i % 8) < len
                && bits_of(bv)[8 * (i / 8) + (7 - i % 8)]));
        }
    }
    Ok(m)
}

} // verus!
