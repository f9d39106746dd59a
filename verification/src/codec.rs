//! The byte layer of the persisted listing record: little-endian integers and
//! 32-byte addresses, with round-trip proofs. The record's on-ledger layout is
//! built from these pieces.

use vstd::prelude::*;
use vstd::arithmetic::div_mod::{lemma_fundamental_div_mod, lemma_fundamental_div_mod_converse};
use vstd::arithmetic::power::pow;
use vstd::arithmetic::mul::lemma_mul_inequality;
use crate::error::{InglError, MarketError};
use crate::state::{MediationShares, Purchase, Storage, StorageView, StoredSecondaryItem,
    StoredSecondaryItemView};
use crate::utils::{AccountFacts, Address};

verus! {

/// The `n` little-endian bytes of `v`, low byte first.
pub open spec fn le_bytes_of(v: nat, n: nat) -> Seq<u8>
    decreases n,
{
    if n == 0 {
        Seq::empty()
    } else {
        seq![(v % 256) as u8] + le_bytes_of(v / 256, (n - 1) as nat)
    }
}

/// The value read from a little-endian byte string.
pub open spec fn le_value_of(s: Seq<u8>) -> nat
    decreases s.len(),
{
    if s.len() == 0 {
        0
    } else {
        s[0] as nat + 256 * le_value_of(s.subrange(1, s.len() as int))
    }
}

/// A little-endian byte string of length `n` reads as a value below `256^n`.
pub proof fn lemma_le_value_bound(s: Seq<u8>)
    ensures
        le_value_of(s) < pow(256, s.len()),
    decreases s.len(),
{
    if s.len() == 0 {
        vstd::arithmetic::power::lemma_pow0(256);
    } else {
        let tail = s.subrange(1, s.len() as int);
        lemma_le_value_bound(tail);
        let p = pow(256, tail.len());
        assert(pow(256, s.len()) == 256 * p) by {
            vstd::arithmetic::power::lemma_pow1(256);
            vstd::arithmetic::power::lemma_pow_adds(256, 1, tail.len());
        }
        assert(le_value_of(tail) <= p - 1);
        lemma_mul_inequality(le_value_of(tail) as int, p - 1, 256);
        assert(256 * le_value_of(tail) <= 256 * (p - 1));
    }
}

/// Reading back the little-endian bytes of a value below `256^n` gives the
/// value itself.
pub proof fn lemma_le_bytes_value(v: nat, n: nat)
    requires
        v < pow(256, n),
    ensures
        le_value_of(le_bytes_of(v, n)) == v,
    decreases n,
{
    if n == 0 {
        vstd::arithmetic::power::lemma_pow0(256);
    } else {
        let p = pow(256, (n - 1) as nat);
        assert(pow(256, n) == 256 * p) by {
            vstd::arithmetic::power::lemma_pow1(256);
            vstd::arithmetic::power::lemma_pow_adds(256, 1, (n - 1) as nat);
        }
        vstd::arithmetic::power::lemma_pow_positive(256, (n - 1) as nat);
        assert(v / 256 < p) by {
            lemma_fundamental_div_mod(v as int, 256);
            assert(v == 256 * (v as int / 256) + v as int % 256);
            if v / 256 >= p {
                lemma_mul_inequality(p as int, v as int / 256, 256);
                assert(256 * p <= 256 * (v as int / 256));
            }
        }
        lemma_le_bytes_value(v / 256, (n - 1) as nat);
        let s = le_bytes_of(v, n);
        assert(s.subrange(1, s.len() as int) =~= le_bytes_of(v / 256, (n - 1) as nat));
        lemma_fundamental_div_mod(v as int, 256);
    }
}

/// Writing back the value read from a little-endian byte string gives the
/// bytes themselves.
pub proof fn lemma_le_value_bytes(s: Seq<u8>)
    ensures
        le_bytes_of(le_value_of(s), s.len()) == s,
    decreases s.len(),
{
    if s.len() == 0 {
        assert(le_bytes_of(0, 0) =~= s);
    } else {
        let tail = s.subrange(1, s.len() as int);
        let r = le_value_of(tail);
        let v = le_value_of(s);
        assert(v == s[0] + 256 * r);
        lemma_fundamental_div_mod_converse(v as int, 256, r as int, s[0] as int);
        assert(v % 256 == s[0]);
        assert(v / 256 == r);
        lemma_le_value_bytes(tail);
        assert(le_bytes_of(v, s.len()) =~= s);
    }
}

/// Appends the four little-endian bytes of `w`.
pub fn push_u32_le(out: &mut Vec<u8>, w: u32)
    ensures
        final(out)@ == old(out)@ + le_bytes_of(w as nat, 4),
{
    let b0 = (w % 256) as u8;
    let r1 = w / 256;
    let b1 = (r1 % 256) as u8;
    let r2 = r1 / 256;
    let b2 = (r2 % 256) as u8;
    let r3 = r2 / 256;
    let b3 = (r3 % 256) as u8;
    out.push(b0);
    out.push(b1);
    out.push(b2);
    out.push(b3);
    proof {
        reveal_with_fuel(le_bytes_of, 5);
        assert(le_bytes_of(r3 as nat / 256, 0) =~= Seq::<u8>::empty());
        assert(out@ =~= old(out)@ + le_bytes_of(w as nat, 4));
    }
}

/// Appends the eight little-endian bytes of `w`.
pub fn push_u64_le(out: &mut Vec<u8>, w: u64)
    ensures
        final(out)@ == old(out)@ + le_bytes_of(w as nat, 8),
{
    let b0 = (w % 256) as u8;
    let r1 = w / 256;
    let b1 = (r1 % 256) as u8;
    let r2 = r1 / 256;
    let b2 = (r2 % 256) as u8;
    let r3 = r2 / 256;
    let b3 = (r3 % 256) as u8;
    let r4 = r3 / 256;
    let b4 = (r4 % 256) as u8;
    let r5 = r4 / 256;
    let b5 = (r5 % 256) as u8;
    let r6 = r5 / 256;
    let b6 = (r6 % 256) as u8;
    let r7 = r6 / 256;
    let b7 = (r7 % 256) as u8;
    out.push(b0);
    out.push(b1);
    out.push(b2);
    out.push(b3);
    out.push(b4);
    out.push(b5);
    out.push(b6);
    out.push(b7);
    proof {
        reveal_with_fuel(le_bytes_of, 9);
        assert(le_bytes_of(r7 as nat / 256, 0) =~= Seq::<u8>::empty());
        assert(out@ =~= old(out)@ + le_bytes_of(w as nat, 8));
    }
}

/// Reads the four little-endian bytes at `offset` as a 32-bit value.
pub fn read_u32_le(bytes: &Vec<u8>, offset: usize) -> (w: u32)
    requires
        offset + 4 <= bytes@.len(),
    ensures
        w as nat == le_value_of(bytes@.subrange(offset as int, offset as int + 4)),
{
    let n = bytes.len();
    let b0 = bytes[offset];
    let b1 = bytes[offset + 1];
    let b2 = bytes[offset + 2];
    let b3 = bytes[offset + 3];
    let w = b0 as u32 + (b1 as u32) * 0x100 + (b2 as u32) * 0x10000 + (b3 as u32) * 0x1000000;
    proof {
        let s = bytes@.subrange(offset as int, offset as int + 4);
        assert(s.subrange(1, 4).subrange(1, 3) =~= s.subrange(2, 4));
        assert(s.subrange(2, 4).subrange(1, 2) =~= s.subrange(3, 4));
        assert(s.subrange(3, 4).subrange(1, 1) =~= Seq::<u8>::empty());
        assert(s.subrange(1, 4)[0] == s[1]);
        assert(s.subrange(2, 4)[0] == s[2]);
        assert(s.subrange(3, 4)[0] == s[3]);
        assert(le_value_of(s.subrange(3, 4)) == s[3] + 256 * le_value_of(Seq::<u8>::empty()));
        assert(le_value_of(s.subrange(2, 4)) == s[2] + 256 * le_value_of(s.subrange(3, 4)));
        assert(le_value_of(s.subrange(1, 4)) == s[1] + 256 * le_value_of(s.subrange(2, 4)));
        assert(le_value_of(s) == s[0] + 256 * le_value_of(s.subrange(1, 4)));
    }
    w
}

/// Reads the eight little-endian bytes at `offset` as a 64-bit value.
pub fn read_u64_le(bytes: &Vec<u8>, offset: usize) -> (w: u64)
    requires
        offset + 8 <= bytes@.len(),
    ensures
        w as nat == le_value_of(bytes@.subrange(offset as int, offset as int + 8)),
{
    let n = bytes.len();
    let b0 = bytes[offset];
    let b1 = bytes[offset + 1];
    let b2 = bytes[offset + 2];
    let b3 = bytes[offset + 3];
    let b4 = bytes[offset + 4];
    let b5 = bytes[offset + 5];
    let b6 = bytes[offset + 6];
    let b7 = bytes[offset + 7];
    let w = b0 as u64 + (b1 as u64) * 0x100 + (b2 as u64) * 0x10000 + (b3 as u64) * 0x1000000
        + (b4 as u64) * 0x100000000 + (b5 as u64) * 0x10000000000
        + (b6 as u64) * 0x1000000000000 + (b7 as u64) * 0x100000000000000;
    proof {
        let s = bytes@.subrange(offset as int, offset as int + 8);
        assert(s.subrange(1, 8).subrange(1, 7) =~= s.subrange(2, 8));
        assert(s.subrange(2, 8).subrange(1, 6) =~= s.subrange(3, 8));
        assert(s.subrange(3, 8).subrange(1, 5) =~= s.subrange(4, 8));
        assert(s.subrange(4, 8).subrange(1, 4) =~= s.subrange(5, 8));
        assert(s.subrange(5, 8).subrange(1, 3) =~= s.subrange(6, 8));
        assert(s.subrange(6, 8).subrange(1, 2) =~= s.subrange(7, 8));
        assert(s.subrange(7, 8).subrange(1, 1) =~= Seq::<u8>::empty());
        assert(s.subrange(1, 8)[0] == s[1]);
        assert(s.subrange(2, 8)[0] == s[2]);
        assert(s.subrange(3, 8)[0] == s[3]);
        assert(s.subrange(4, 8)[0] == s[4]);
        assert(s.subrange(5, 8)[0] == s[5]);
        assert(s.subrange(6, 8)[0] == s[6]);
        assert(s.subrange(7, 8)[0] == s[7]);
        assert(le_value_of(s.subrange(7, 8)) == s[7] + 256 * le_value_of(Seq::<u8>::empty()));
        assert(le_value_of(s.subrange(6, 8)) == s[6] + 256 * le_value_of(s.subrange(7, 8)));
        assert(le_value_of(s.subrange(5, 8)) == s[5] + 256 * le_value_of(s.subrange(6, 8)));
        assert(le_value_of(s.subrange(4, 8)) == s[4] + 256 * le_value_of(s.subrange(5, 8)));
        assert(le_value_of(s.subrange(3, 8)) == s[3] + 256 * le_value_of(s.subrange(4, 8)));
        assert(le_value_of(s.subrange(2, 8)) == s[2] + 256 * le_value_of(s.subrange(3, 8)));
        assert(le_value_of(s.subrange(1, 8)) == s[1] + 256 * le_value_of(s.subrange(2, 8)));
        assert(le_value_of(s) == s[0] + 256 * le_value_of(s.subrange(1, 8)));
    }
    w
}

/// The 32 bytes of an address as persisted: the four words in order, each in
/// little-endian byte order.
pub open spec fn address_bytes(a: Address) -> Seq<u8> {
    le_bytes_of(a.w0 as nat, 8) + le_bytes_of(a.w1 as nat, 8) + le_bytes_of(a.w2 as nat, 8)
        + le_bytes_of(a.w3 as nat, 8)
}

/// The 32 bytes of an address, as a vector.
pub fn address_to_byte_vec(a: &Address) -> (v: Vec<u8>)
    ensures
        v@ == address_bytes(*a),
{
    let mut v: Vec<u8> = Vec::new();
    push_u64_le(&mut v, a.w0);
    push_u64_le(&mut v, a.w1);
    push_u64_le(&mut v, a.w2);
    push_u64_le(&mut v, a.w3);
    proof {
        assert(v@ =~= address_bytes(*a));
    }
    v
}

/// Appends the 32 bytes of an address.
pub fn push_address(out: &mut Vec<u8>, a: &Address)
    ensures
        final(out)@ == old(out)@ + address_bytes(*a),
{
    push_u64_le(out, a.w0);
    push_u64_le(out, a.w1);
    push_u64_le(out, a.w2);
    push_u64_le(out, a.w3);
    proof {
        assert(out@ =~= old(out)@ + address_bytes(*a));
    }
}

/// The address the 32 bytes of a byte string denote.
pub open spec fn spec_address_from_bytes(s: Seq<u8>) -> Address
    recommends
        s.len() == 32,
{
    Address {
        w0: le_value_of(s.subrange(0, 8)) as u64,
        w1: le_value_of(s.subrange(8, 16)) as u64,
        w2: le_value_of(s.subrange(16, 24)) as u64,
        w3: le_value_of(s.subrange(24, 32)) as u64,
    }
}

/// Reads the 32 bytes at `offset` as an address.
pub fn address_from_byte_vec(bytes: &Vec<u8>, offset: usize) -> (a: Address)
    requires
        offset + 32 <= bytes@.len(),
    ensures
        address_bytes(a) == bytes@.subrange(offset as int, offset as int + 32),
        a == spec_address_from_bytes(bytes@.subrange(offset as int, offset as int + 32)),
{
    let n = bytes.len();
    let w0 = read_u64_le(bytes, offset);
    let w1 = read_u64_le(bytes, offset + 8);
    let w2 = read_u64_le(bytes, offset + 16);
    let w3 = read_u64_le(bytes, offset + 24);
    let a = Address { w0, w1, w2, w3 };
    proof {
        let o = offset as int;
        lemma_le_value_bytes(bytes@.subrange(o, o + 8));
        lemma_le_value_bytes(bytes@.subrange(o + 8, o + 16));
        lemma_le_value_bytes(bytes@.subrange(o + 16, o + 24));
        lemma_le_value_bytes(bytes@.subrange(o + 24, o + 32));
        assert(address_bytes(a) =~= bytes@.subrange(o, o + 32));
        let s32 = bytes@.subrange(o, o + 32);
        assert(s32.subrange(0, 8) =~= bytes@.subrange(o, o + 8));
        assert(s32.subrange(8, 16) =~= bytes@.subrange(o + 8, o + 16));
        assert(s32.subrange(16, 24) =~= bytes@.subrange(o + 16, o + 24));
        assert(s32.subrange(24, 32) =~= bytes@.subrange(o + 24, o + 32));
    }
    a
}


/// The persisted form of an optional timestamp: a one-byte tag, then the
/// four-byte value when present.
pub open spec fn spec_serialize_option_u32(o: Option<u32>) -> Seq<u8> {
    match o {
        None => seq![0u8],
        Some(v) => seq![1u8] + le_bytes_of(v as nat, 4),
    }
}

/// The persisted form of the optional purchase block: a one-byte tag, then
/// the buyer, the purchase date and the optional finalization date.
pub open spec fn spec_serialize_purchase_opt(o: Option<Purchase>) -> Seq<u8> {
    match o {
        None => seq![0u8],
        Some(p) => seq![1u8] + address_bytes(p.buyer) + le_bytes_of(p.date as nat, 4)
            + spec_serialize_option_u32(p.date_finalized),
    }
}

/// The persisted form of the optional mediation shares: a one-byte tag, then
/// the three percentages.
pub open spec fn spec_serialize_shares_opt(o: Option<MediationShares>) -> Seq<u8> {
    match o {
        None => seq![0u8],
        Some(m) => seq![1u8, m.buyer, m.seller, m.team],
    }
}

/// The persisted form of a byte string: a four-byte length prefix, then the
/// bytes.
pub open spec fn spec_serialize_bytes(b: Seq<u8>) -> Seq<u8>
    recommends
        b.len() <= u32::MAX,
{
    le_bytes_of(b.len(), 4) + b
}

/// The persisted form of one secondary item: its cost, its two length-
/// prefixed strings, and its optional validation date.
pub open spec fn spec_serialize_item(item: StoredSecondaryItemView) -> Seq<u8> {
    le_bytes_of(item.cost as nat, 8) + spec_serialize_bytes(item.name) + spec_serialize_bytes(
        item.description,
    ) + spec_serialize_option_u32(item.date_validated)
}

/// The persisted form of the item list's elements, in order.
pub open spec fn spec_serialize_items(items: Seq<StoredSecondaryItemView>) -> Seq<u8>
    decreases items.len(),
{
    if items.len() == 0 {
        Seq::empty()
    } else {
        spec_serialize_item(items[0]) + spec_serialize_items(items.subrange(1, items.len() as int))
    }
}

/// Whether every length in the record fits the four-byte prefixes of its
/// persisted form.
pub open spec fn spec_storage_lengths_fit(s: StorageView) -> bool {
    &&& s.secondary_items.len() <= u32::MAX
    &&& forall|i: int|
        0 <= i < s.secondary_items.len() ==> (#[trigger] s.secondary_items[i]).name.len()
            <= u32::MAX && s.secondary_items[i].description.len() <= u32::MAX
    &&& s.description.len() <= u32::MAX
    &&& s.validator_name.len() <= u32::MAX
    &&& s.validator_logo_url.len() <= u32::MAX
}

/// The listing record's persisted form: the validation tag, the seller, the
/// vote-account reference, the price, the window, the three tagged optional
/// blocks, the length-prefixed item list, and the three length-prefixed
/// strings.
pub open spec fn spec_serialize_storage(s: StorageView) -> Seq<u8>
    recommends
        spec_storage_lengths_fit(s),
{
    le_bytes_of(s.validation_phrase as nat, 4) + address_bytes(s.authorized_withdrawer)
        + address_bytes(s.vote_account) + le_bytes_of(s.authorized_withdrawer_cost as nat, 8)
        + le_bytes_of(s.mediatable_date as nat, 4) + spec_serialize_purchase_opt(s.purchase)
        + spec_serialize_option_u32(s.request_mediation_date) + spec_serialize_option_u32(
        s.mediation_date,
    ) + spec_serialize_shares_opt(s.mediation_shares) + le_bytes_of(s.secondary_items.len(), 4)
        + spec_serialize_items(s.secondary_items) + spec_serialize_bytes(s.description)
        + spec_serialize_bytes(s.validator_name) + spec_serialize_bytes(s.validator_logo_url)
}

/// Appends a byte string's contents.
fn push_raw(out: &mut Vec<u8>, data: &Vec<u8>)
    ensures
        final(out)@ == old(out)@ + data@,
{
    let mut i: usize = 0;
    while i < data.len()
        invariant
            i <= data.len(),
            out@ == old(out)@ + data@.subrange(0, i as int),
        decreases data.len() - i,
    {
        out.push(data[i]);
        proof {
            assert(out@ =~= old(out)@ + data@.subrange(0, i + 1));
        }
        i = i + 1;
    }
    proof {
        assert(data@.subrange(0, data@.len() as int) =~= data@);
    }
}

/// Appends a byte string in its persisted form.
fn push_bytes(out: &mut Vec<u8>, data: &Vec<u8>)
    requires
        data@.len() <= u32::MAX,
    ensures
        final(out)@ == old(out)@ + spec_serialize_bytes(data@),
{
    push_u32_le(out, data.len() as u32);
    push_raw(out, data);
    proof {
        assert(out@ =~= old(out)@ + spec_serialize_bytes(data@));
    }
}

/// Appends an optional timestamp in its persisted form.
fn push_option_u32(out: &mut Vec<u8>, o: &Option<u32>)
    ensures
        final(out)@ == old(out)@ + spec_serialize_option_u32(*o),
{
    match o {
        None => {
            out.push(0);
            proof {
                assert(out@ =~= old(out)@ + spec_serialize_option_u32(None::<u32>));
            }
        },
        Some(v) => {
            out.push(1);
            push_u32_le(out, *v);
            proof {
                assert(out@ =~= old(out)@ + spec_serialize_option_u32(Some(*v)));
            }
        },
    }
}

/// Appends one secondary item in its persisted form.
fn push_item(out: &mut Vec<u8>, item: &StoredSecondaryItem)
    requires
        item@.name.len() <= u32::MAX,
        item@.description.len() <= u32::MAX,
    ensures
        final(out)@ == old(out)@ + spec_serialize_item(item@),
{
    push_u64_le(out, item.cost);
    push_bytes(out, &item.name);
    push_bytes(out, &item.description);
    push_option_u32(out, &item.date_validated);
    proof {
        assert(out@ =~= old(out)@ + spec_serialize_item(item@));
    }
}

/// The persisted form of the first `i + 1` items is that of the first `i`
/// followed by item `i`'s form.
pub proof fn lemma_serialize_items_snoc(items: Seq<StoredSecondaryItemView>, i: int)
    requires
        0 <= i < items.len(),
    ensures
        spec_serialize_items(items.subrange(0, i + 1)) == spec_serialize_items(
            items.subrange(0, i),
        ) + spec_serialize_item(items[i]),
    decreases items.len(),
{
    lemma_serialize_items_snoc_general(items, 0, i);
}

/// The snoc step over any suffix of the item list.
#[verifier::spinoff_prover]
#[verifier::rlimit(30)]
proof fn lemma_serialize_items_snoc_general(items: Seq<StoredSecondaryItemView>, lo: int, i: int)
    requires
        0 <= lo <= i < items.len(),
    ensures
        spec_serialize_items(items.subrange(lo, i + 1)) == spec_serialize_items(
            items.subrange(lo, i),
        ) + spec_serialize_item(items[i]),
    decreases i - lo,
{
    if lo == i {
        assert(items.subrange(lo, lo) =~= Seq::<StoredSecondaryItemView>::empty());
        assert(items.subrange(lo, i + 1).subrange(1, 1) =~= Seq::<
            StoredSecondaryItemView,
        >::empty());
        assert(items.subrange(lo, i + 1)[0] == items[i]);
        assert(spec_serialize_items(items.subrange(lo, i + 1).subrange(1, 1)) =~= Seq::<
            u8,
        >::empty());
        assert(spec_serialize_item(items[i]) + Seq::<u8>::empty() =~= spec_serialize_item(
            items[i],
        ));
        assert(spec_serialize_items(items.subrange(lo, i + 1)) =~= spec_serialize_item(items[i]));
        assert(spec_serialize_items(items.subrange(lo, i)) =~= Seq::<u8>::empty());
    } else {
        lemma_serialize_items_snoc_general(items, lo + 1, i);
        assert(items.subrange(lo, i + 1)[0] == items[lo]);
        assert(items.subrange(lo, i + 1).subrange(1, i + 1 - lo) =~= items.subrange(lo + 1, i + 1));
        assert(items.subrange(lo, i)[0] == items[lo]);
        assert(items.subrange(lo, i).subrange(1, i - lo) =~= items.subrange(lo + 1, i));
        assert(spec_serialize_items(items.subrange(lo, i + 1)) =~= spec_serialize_item(items[lo])
            + spec_serialize_items(items.subrange(lo + 1, i + 1)));
        assert(spec_serialize_items(items.subrange(lo, i)) =~= spec_serialize_item(items[lo])
            + spec_serialize_items(items.subrange(lo + 1, i)));
        assert(spec_serialize_items(items.subrange(lo, i)) + spec_serialize_item(items[i]) =~=
            spec_serialize_item(items[lo]) + (spec_serialize_items(items.subrange(lo + 1, i))
            + spec_serialize_item(items[i])));
    }
}

impl Storage {
    /// The record's persisted bytes, exactly its on-ledger form.
    pub fn serialize(&self) -> (out: Vec<u8>)
        requires
            spec_storage_lengths_fit(self@),
        ensures
            out@ == spec_serialize_storage(self@),
    {
        let mut out: Vec<u8> = Vec::new();
        push_u32_le(&mut out, self.validation_phrase);
        push_address(&mut out, &self.authorized_withdrawer);
        push_address(&mut out, &self.vote_account);
        push_u64_le(&mut out, self.authorized_withdrawer_cost);
        push_u32_le(&mut out, self.mediatable_date);
        match &self.purchase {
            None => {
                out.push(0);
            },
            Some(p) => {
                out.push(1);
                push_address(&mut out, &p.buyer);
                push_u32_le(&mut out, p.date);
                push_option_u32(&mut out, &p.date_finalized);
            },
        }
        proof {
            assert(out@ =~= le_bytes_of(self@.validation_phrase as nat, 4) + address_bytes(
                self@.authorized_withdrawer,
            ) + address_bytes(self@.vote_account) + le_bytes_of(
                self@.authorized_withdrawer_cost as nat,
                8,
            ) + le_bytes_of(self@.mediatable_date as nat, 4) + spec_serialize_purchase_opt(
                self@.purchase,
            ));
        }
        push_option_u32(&mut out, &self.request_mediation_date);
        push_option_u32(&mut out, &self.mediation_date);
        match &self.mediation_shares {
            None => {
                out.push(0);
                proof {
                    assert(seq![0u8] =~= spec_serialize_shares_opt(None::<MediationShares>));
                }
            },
            Some(m) => {
                out.push(1);
                out.push(m.buyer);
                out.push(m.seller);
                out.push(m.team);
                proof {
                    assert(seq![1u8, m.buyer, m.seller, m.team] =~= spec_serialize_shares_opt(
                        Some(*m),
                    ));
                }
            },
        }
        push_u32_le(&mut out, self.secondary_items.len() as u32);
        let ghost head = out@;
        let ghost items = self@.secondary_items;
        let mut i: usize = 0;
        while i < self.secondary_items.len()
            invariant
                i <= self.secondary_items.len(),
                items == self@.secondary_items,
                items.len() == self.secondary_items@.len(),
                spec_storage_lengths_fit(self@),
                out@ == head + spec_serialize_items(items.subrange(0, i as int)),
            decreases self.secondary_items.len() - i,
        {
            proof {
                assert(items[i as int] == self.secondary_items@[i as int]@);
            }
            push_item(&mut out, &self.secondary_items[i]);
            proof {
                lemma_serialize_items_snoc(items, i as int);
                assert(out@ =~= head + spec_serialize_items(items.subrange(0, i + 1)));
            }
            i = i + 1;
        }
        proof {
            assert(items.subrange(0, items.len() as int) =~= items);
        }
        push_bytes(&mut out, &self.description);
        push_bytes(&mut out, &self.validator_name);
        push_bytes(&mut out, &self.validator_logo_url);
        proof {
            assert(out@ =~= spec_serialize_storage(self@));
        }
        out
    }
}


/// Reads one byte of the persisted form.
pub open spec fn spec_parse_u8(b: Seq<u8>, off: int) -> Option<(u8, int)> {
    if 0 <= off && off + 1 <= b.len() {
        Some((b[off], off + 1))
    } else {
        None
    }
}

/// Reads a four-byte little-endian value of the persisted form.
pub open spec fn spec_parse_u32(b: Seq<u8>, off: int) -> Option<(u32, int)> {
    if 0 <= off && off + 4 <= b.len() {
        Some((le_value_of(b.subrange(off, off + 4)) as u32, off + 4))
    } else {
        None
    }
}

/// Reads an eight-byte little-endian value of the persisted form.
pub open spec fn spec_parse_u64(b: Seq<u8>, off: int) -> Option<(u64, int)> {
    if 0 <= off && off + 8 <= b.len() {
        Some((le_value_of(b.subrange(off, off + 8)) as u64, off + 8))
    } else {
        None
    }
}

/// Reads a 32-byte address of the persisted form.
pub open spec fn spec_parse_address(b: Seq<u8>, off: int) -> Option<(Address, int)> {
    if 0 <= off && off + 32 <= b.len() {
        Some((spec_address_from_bytes(b.subrange(off, off + 32)), off + 32))
    } else {
        None
    }
}

/// Reads a tagged optional timestamp of the persisted form.
pub open spec fn spec_parse_option_u32(b: Seq<u8>, off: int) -> Option<(Option<u32>, int)> {
    match spec_parse_u8(b, off) {
        None => None,
        Some((tag, o1)) => if tag == 0 {
            Some((None, o1))
        } else if tag == 1 {
            match spec_parse_u32(b, o1) {
                None => None,
                Some((v, o2)) => Some((Some(v), o2)),
            }
        } else {
            None
        },
    }
}

/// Reads the tagged optional purchase block of the persisted form.
pub open spec fn spec_parse_purchase_opt(b: Seq<u8>, off: int) -> Option<(Option<Purchase>, int)> {
    match spec_parse_u8(b, off) {
        None => None,
        Some((tag, o1)) => if tag == 0 {
            Some((None, o1))
        } else if tag == 1 {
            match spec_parse_address(b, o1) {
                None => None,
                Some((buyer, o2)) => match spec_parse_u32(b, o2) {
                    None => None,
                    Some((date, o3)) => match spec_parse_option_u32(b, o3) {
                        None => None,
                        Some((date_finalized, o4)) => Some(
                            (Some(Purchase { buyer, date, date_finalized }), o4),
                        ),
                    },
                },
            }
        } else {
            None
        },
    }
}

/// Reads the tagged optional mediation shares of the persisted form.
pub open spec fn spec_parse_shares_opt(b: Seq<u8>, off: int) -> Option<
    (Option<MediationShares>, int),
> {
    match spec_parse_u8(b, off) {
        None => None,
        Some((tag, o1)) => if tag == 0 {
            Some((None, o1))
        } else if tag == 1 {
            if o1 + 3 <= b.len() {
                Some((Some(MediationShares { buyer: b[o1], seller: b[o1 + 1], team: b[o1 + 2] }), o1 + 3))
            } else {
                None
            }
        } else {
            None
        },
    }
}

/// Reads a length-prefixed byte string of the persisted form.
pub open spec fn spec_parse_bytes(b: Seq<u8>, off: int) -> Option<(Seq<u8>, int)> {
    match spec_parse_u32(b, off) {
        None => None,
        Some((len, o1)) => if o1 + len <= b.len() {
            Some((b.subrange(o1, o1 + len), o1 + len))
        } else {
            None
        },
    }
}

/// Reads one secondary item of the persisted form.
pub open spec fn spec_parse_item(b: Seq<u8>, off: int) -> Option<(StoredSecondaryItemView, int)> {
    match spec_parse_u64(b, off) {
        None => None,
        Some((cost, o1)) => match spec_parse_bytes(b, o1) {
            None => None,
            Some((name, o2)) => match spec_parse_bytes(b, o2) {
                None => None,
                Some((description, o3)) => match spec_parse_option_u32(b, o3) {
                    None => None,
                    Some((date_validated, o4)) => Some(
                        (StoredSecondaryItemView { cost, name, description, date_validated }, o4),
                    ),
                },
            },
        },
    }
}

/// Reads `n` secondary items of the persisted form.
pub open spec fn spec_parse_items(b: Seq<u8>, off: int, n: nat) -> Option<
    (Seq<StoredSecondaryItemView>, int),
>
    decreases n,
{
    if n == 0 {
        Some((Seq::empty(), off))
    } else {
        match spec_parse_item(b, off) {
            None => None,
            Some((item, o1)) => match spec_parse_items(b, o1, (n - 1) as nat) {
                None => None,
                Some((rest, o2)) => Some((seq![item] + rest, o2)),
            },
        }
    }
}

/// Reads a whole listing record of the persisted form, ignoring what follows.
pub open spec fn spec_parse_storage(b: Seq<u8>) -> Option<(StorageView, int)> {
    match spec_parse_u32(b, 0) {
        None => None,
        Some((validation_phrase, o1)) => match spec_parse_address(b, o1) {
            None => None,
            Some((authorized_withdrawer, o2)) => match spec_parse_address(b, o2) {
                None => None,
                Some((vote_account, o3)) => match spec_parse_u64(b, o3) {
                    None => None,
                    Some((authorized_withdrawer_cost, o4)) => match spec_parse_u32(b, o4) {
                        None => None,
                        Some((mediatable_date, o5)) => match spec_parse_purchase_opt(b, o5) {
                            None => None,
                            Some((purchase, o6)) => match spec_parse_option_u32(b, o6) {
                                None => None,
                                Some((request_mediation_date, o7)) => match spec_parse_option_u32(
                                    b,
                                    o7,
                                ) {
                                    None => None,
                                    Some((mediation_date, o8)) => match spec_parse_shares_opt(
                                        b,
                                        o8,
                                    ) {
                                        None => None,
                                        Some((mediation_shares, o9)) => match spec_parse_u32(
                                            b,
                                            o9,
                                        ) {
                                            None => None,
                                            Some((n_items, o10)) => match spec_parse_items(
                                                b,
                                                o10,
                                                n_items as nat,
                                            ) {
                                                None => None,
                                                Some((secondary_items, o11)) => match spec_parse_bytes(
                                                    b,
                                                    o11,
                                                ) {
                                                    None => None,
                                                    Some((description, o12)) => match spec_parse_bytes(
                                                        b,
                                                        o12,
                                                    ) {
                                                        None => None,
                                                        Some((validator_name, o13)) => match spec_parse_bytes(
                                                            b,
                                                            o13,
                                                        ) {
                                                            None => None,
                                                            Some((validator_logo_url, o14)) => Some(
                                                                (
                                                                    StorageView {
                                                                        validation_phrase,
                                                                        authorized_withdrawer,
                                                                        vote_account,
                                                                        authorized_withdrawer_cost,
                                                                        mediatable_date,
                                                                        purchase,
                                                                        request_mediation_date,
                                                                        mediation_date,
                                                                        mediation_shares,
                                                                        secondary_items,
                                                                        description,
                                                                        validator_name,
                                                                        validator_logo_url,
                                                                    },
                                                                    o14,
                                                                ),
                                                            ),
                                                        },
                                                    },
                                                },
                                            },
                                        },
                                    },
                                },
                            },
                        },
                    },
                },
            },
        },
    }
}


/// Whether every length in an item list fits the four-byte prefixes.
pub open spec fn spec_items_lengths_fit(items: Seq<StoredSecondaryItemView>) -> bool {
    forall|i: int|
        0 <= i < items.len() ==> (#[trigger] items[i]).name.len() <= u32::MAX
            && items[i].description.len() <= u32::MAX
}

proof fn lemma_pow_256_4()
    ensures
        pow(256, 4) == 0x1_0000_0000,
{
    reveal_with_fuel(pow, 5);
}

proof fn lemma_pow_256_8()
    ensures
        pow(256, 8) == 0x1_0000_0000_0000_0000,
{
    reveal_with_fuel(pow, 9);
}

/// A value's little-endian form has exactly the requested width.
pub proof fn lemma_le_bytes_len(v: nat, n: nat)
    ensures
        le_bytes_of(v, n).len() == n,
    decreases n,
{
    if n > 0 {
        lemma_le_bytes_len(v / 256, (n - 1) as nat);
    }
}

/// An address's persisted form has exactly 32 bytes.
pub proof fn lemma_address_bytes_len(a: Address)
    ensures
        address_bytes(a).len() == 32,
{
    lemma_le_bytes_len(a.w0 as nat, 8);
    lemma_le_bytes_len(a.w1 as nat, 8);
    lemma_le_bytes_len(a.w2 as nat, 8);
    lemma_le_bytes_len(a.w3 as nat, 8);
}

/// A tagged optional timestamp's persisted form is one or five bytes.
pub proof fn lemma_option_u32_len(o: Option<u32>)
    ensures
        spec_serialize_option_u32(o).len() == (if o is Some { 5int } else { 1int }),
{
    match o {
        None => {},
        Some(v) => {
            lemma_le_bytes_len(v as nat, 4);
        },
    }
}

/// A four-byte little-endian prefix reads back as the value written.
proof fn lemma_parse_u32_at(b: Seq<u8>, off: int, v: u32)
    requires
        0 <= off,
        off + 4 <= b.len(),
        b.subrange(off, off + 4) == le_bytes_of(v as nat, 4),
    ensures
        spec_parse_u32(b, off) == Some((v, off + 4)),
{
    lemma_pow_256_4();
    lemma_le_bytes_value(v as nat, 4);
}

/// An eight-byte little-endian prefix reads back as the value written.
proof fn lemma_parse_u64_at(b: Seq<u8>, off: int, v: u64)
    requires
        0 <= off,
        off + 8 <= b.len(),
        b.subrange(off, off + 8) == le_bytes_of(v as nat, 8),
    ensures
        spec_parse_u64(b, off) == Some((v, off + 8)),
{
    lemma_pow_256_8();
    lemma_le_bytes_value(v as nat, 8);
}

/// A 32-byte address reads back as the address written.
proof fn lemma_parse_address_at(b: Seq<u8>, off: int, a: Address)
    requires
        0 <= off,
        off + 32 <= b.len(),
        b.subrange(off, off + 32) == address_bytes(a),
    ensures
        spec_parse_address(b, off) == Some((a, off + 32)),
{
    lemma_pow_256_8();
    lemma_le_bytes_len(a.w0 as nat, 8);
    lemma_le_bytes_len(a.w1 as nat, 8);
    lemma_le_bytes_len(a.w2 as nat, 8);
    lemma_le_bytes_len(a.w3 as nat, 8);
    let s32 = b.subrange(off, off + 32);
    assert(s32.subrange(0, 8) =~= le_bytes_of(a.w0 as nat, 8));
    assert(s32.subrange(8, 16) =~= le_bytes_of(a.w1 as nat, 8));
    assert(s32.subrange(16, 24) =~= le_bytes_of(a.w2 as nat, 8));
    assert(s32.subrange(24, 32) =~= le_bytes_of(a.w3 as nat, 8));
    lemma_le_bytes_value(a.w0 as nat, 8);
    lemma_le_bytes_value(a.w1 as nat, 8);
    lemma_le_bytes_value(a.w2 as nat, 8);
    lemma_le_bytes_value(a.w3 as nat, 8);
}

/// A tagged optional timestamp reads back as the value written.
proof fn lemma_parse_option_u32_at(b: Seq<u8>, off: int, o: Option<u32>)
    requires
        0 <= off,
        off + spec_serialize_option_u32(o).len() <= b.len(),
        b.subrange(off, off + spec_serialize_option_u32(o).len()) == spec_serialize_option_u32(o),
    ensures
        spec_parse_option_u32(b, off) == Some((o, off + spec_serialize_option_u32(o).len())),
{
    match o {
        None => {
            assert(b.subrange(off, off + 1)[0] == b[off]);
        },
        Some(v) => {
            lemma_le_bytes_len(v as nat, 4);
            let enc = spec_serialize_option_u32(o);
            assert(enc.len() == 5);
            assert(b.subrange(off, off + 5)[0] == b[off]);
            assert(b[off] == 1);
            assert(b.subrange(off + 1, off + 5) =~= b.subrange(off, off + 5).subrange(1, 5));
            assert(b.subrange(off, off + 5).subrange(1, 5) =~= le_bytes_of(v as nat, 4));
            lemma_parse_u32_at(b, off + 1, v);
        },
    }
}

/// A tagged optional purchase block reads back as the value written.
#[verifier::spinoff_prover]
#[verifier::rlimit(60)]
proof fn lemma_parse_purchase_opt_at(b: Seq<u8>, off: int, o: Option<Purchase>)
    requires
        0 <= off,
        off + spec_serialize_purchase_opt(o).len() <= b.len(),
        b.subrange(off, off + spec_serialize_purchase_opt(o).len()) == spec_serialize_purchase_opt(
            o,
        ),
    ensures
        spec_parse_purchase_opt(b, off) == Some((o, off + spec_serialize_purchase_opt(o).len())),
{
    match o {
        None => {
            assert(b.subrange(off, off + 1)[0] == b[off]);
        },
        Some(p) => {
            lemma_address_bytes_len(p.buyer);
            lemma_le_bytes_len(p.date as nat, 4);
            lemma_option_u32_len(p.date_finalized);
            let e3 = spec_serialize_option_u32(p.date_finalized);
            let enc = spec_serialize_purchase_opt(o);
            let n = enc.len();
            assert(n == 37 + e3.len());
            let sub = b.subrange(off, off + n);
            assert(sub[0] == b[off]);
            assert(b[off] == 1);
            assert(b.subrange(off + 1, off + 33) =~= sub.subrange(1, 33));
            assert(sub.subrange(1, 33) =~= address_bytes(p.buyer));
            lemma_parse_address_at(b, off + 1, p.buyer);
            assert(b.subrange(off + 33, off + 37) =~= sub.subrange(33, 37));
            assert(sub.subrange(33, 37) =~= le_bytes_of(p.date as nat, 4));
            lemma_parse_u32_at(b, off + 33, p.date);
            assert(b.subrange(off + 37, off + n) =~= sub.subrange(37, n as int));
            assert(sub.subrange(37, n as int) =~= e3);
            lemma_parse_option_u32_at(b, off + 37, p.date_finalized);
        },
    }
}

/// Tagged optional mediation shares read back as the value written.
proof fn lemma_parse_shares_opt_at(b: Seq<u8>, off: int, o: Option<MediationShares>)
    requires
        0 <= off,
        off + spec_serialize_shares_opt(o).len() <= b.len(),
        b.subrange(off, off + spec_serialize_shares_opt(o).len()) == spec_serialize_shares_opt(o),
    ensures
        spec_parse_shares_opt(b, off) == Some((o, off + spec_serialize_shares_opt(o).len())),
{
    match o {
        None => {
            assert(b.subrange(off, off + 1)[0] == b[off]);
        },
        Some(m) => {
            let sub = b.subrange(off, off + 4);
            assert(sub[0] == b[off]);
            assert(sub[1] == b[off + 1]);
            assert(sub[2] == b[off + 2]);
            assert(sub[3] == b[off + 3]);
        },
    }
}

/// A length-prefixed byte string reads back as the bytes written.
proof fn lemma_parse_bytes_at(b: Seq<u8>, off: int, data: Seq<u8>)
    requires
        data.len() <= u32::MAX,
        0 <= off,
        off + spec_serialize_bytes(data).len() <= b.len(),
        b.subrange(off, off + spec_serialize_bytes(data).len()) == spec_serialize_bytes(data),
    ensures
        spec_parse_bytes(b, off) == Some((data, off + spec_serialize_bytes(data).len())),
{
    lemma_le_bytes_len(data.len(), 4);
    let n = spec_serialize_bytes(data).len();
    assert(n == 4 + data.len());
    let sub = b.subrange(off, off + n);
    assert(b.subrange(off, off + 4) =~= sub.subrange(0, 4));
    assert(sub.subrange(0, 4) =~= le_bytes_of(data.len(), 4));
    let len32 = data.len() as u32;
    assert(le_bytes_of(len32 as nat, 4) == le_bytes_of(data.len(), 4));
    lemma_parse_u32_at(b, off, len32);
    assert(b.subrange(off + 4, off + n) =~= sub.subrange(4, n as int));
    assert(sub.subrange(4, n as int) =~= data);
}

/// One persisted secondary item reads back as the item written.
#[verifier::spinoff_prover]
#[verifier::rlimit(60)]
proof fn lemma_parse_item_at(b: Seq<u8>, off: int, item: StoredSecondaryItemView)
    requires
        item.name.len() <= u32::MAX,
        item.description.len() <= u32::MAX,
        0 <= off,
        off + spec_serialize_item(item).len() <= b.len(),
        b.subrange(off, off + spec_serialize_item(item).len()) == spec_serialize_item(item),
    ensures
        spec_parse_item(b, off) == Some((item, off + spec_serialize_item(item).len())),
{
    lemma_le_bytes_len(item.cost as nat, 8);
    lemma_le_bytes_len(item.name.len(), 4);
    lemma_le_bytes_len(item.description.len(), 4);
    lemma_option_u32_len(item.date_validated);
    let e2 = spec_serialize_bytes(item.name);
    let e3 = spec_serialize_bytes(item.description);
    let e4 = spec_serialize_option_u32(item.date_validated);
    let enc = spec_serialize_item(item);
    let n = enc.len();
    assert(n == 8 + e2.len() + e3.len() + e4.len());
    let sub = b.subrange(off, off + n);
    let o1 = off + 8;
    let o2 = o1 + e2.len();
    let o3 = o2 + e3.len();
    assert(b.subrange(off, o1) =~= sub.subrange(0, 8));
    assert(sub.subrange(0, 8) =~= le_bytes_of(item.cost as nat, 8));
    lemma_parse_u64_at(b, off, item.cost);
    assert(b.subrange(o1, o2) =~= sub.subrange(8, 8 + e2.len() as int));
    assert(sub.subrange(8, 8 + e2.len() as int) =~= e2);
    lemma_parse_bytes_at(b, o1, item.name);
    assert(b.subrange(o2, o3) =~= sub.subrange(8 + e2.len() as int, 8 + e2.len() as int + e3.len() as int));
    assert(sub.subrange(8 + e2.len() as int, 8 + e2.len() as int + e3.len() as int) =~= e3);
    lemma_parse_bytes_at(b, o2, item.description);
    assert(b.subrange(o3, off + n) =~= sub.subrange(8 + e2.len() as int + e3.len() as int, n as int));
    assert(sub.subrange(8 + e2.len() as int + e3.len() as int, n as int) =~= e4);
    lemma_parse_option_u32_at(b, o3, item.date_validated);
}

/// A persisted item list reads back as the items written.
#[verifier::spinoff_prover]
#[verifier::rlimit(60)]
proof fn lemma_parse_items_at(b: Seq<u8>, off: int, items: Seq<StoredSecondaryItemView>)
    requires
        spec_items_lengths_fit(items),
        0 <= off,
        off + spec_serialize_items(items).len() <= b.len(),
        b.subrange(off, off + spec_serialize_items(items).len()) == spec_serialize_items(items),
    ensures
        spec_parse_items(b, off, items.len()) == Some(
            (items, off + spec_serialize_items(items).len()),
        ),
    decreases items.len(),
{
    if items.len() == 0 {
        assert(Seq::<StoredSecondaryItemView>::empty() =~= items);
    } else {
        let head = spec_serialize_item(items[0]);
        let rest = items.subrange(1, items.len() as int);
        let tail = spec_serialize_items(rest);
        let enc = spec_serialize_items(items);
        let n = enc.len();
        assert(enc =~= head + tail);
        let sub = b.subrange(off, off + n);
        assert(b.subrange(off, off + head.len()) =~= sub.subrange(0, head.len() as int));
        assert(sub.subrange(0, head.len() as int) =~= head);
        lemma_parse_item_at(b, off, items[0]);
        assert(b.subrange(off + head.len(), off + n) =~= sub.subrange(
            head.len() as int,
            n as int,
        ));
        assert(sub.subrange(head.len() as int, n as int) =~= tail);
        assert(spec_items_lengths_fit(rest));
        lemma_parse_items_at(b, off + head.len(), rest);
        assert(seq![items[0]] + rest =~= items);
    }
}

/// The persisted record, followed by anything, reads back as the record
/// written, consuming exactly the record's persisted form.
#[verifier::spinoff_prover]
#[verifier::rlimit(100)]
pub proof fn lemma_storage_round_trip(s: StorageView, rest: Seq<u8>)
    requires
        spec_storage_lengths_fit(s),
    ensures
        spec_parse_storage(spec_serialize_storage(s) + rest) == Some(
            (s, spec_serialize_storage(s).len() as int),
        ),
{
    lemma_le_bytes_len(s.validation_phrase as nat, 4);
    lemma_address_bytes_len(s.authorized_withdrawer);
    lemma_address_bytes_len(s.vote_account);
    lemma_le_bytes_len(s.authorized_withdrawer_cost as nat, 8);
    lemma_le_bytes_len(s.mediatable_date as nat, 4);
    lemma_le_bytes_len(s.secondary_items.len(), 4);
    let e1 = le_bytes_of(s.validation_phrase as nat, 4);
    let e2 = address_bytes(s.authorized_withdrawer);
    let e3 = address_bytes(s.vote_account);
    let e4 = le_bytes_of(s.authorized_withdrawer_cost as nat, 8);
    let e5 = le_bytes_of(s.mediatable_date as nat, 4);
    let e6 = spec_serialize_purchase_opt(s.purchase);
    let e7 = spec_serialize_option_u32(s.request_mediation_date);
    let e8 = spec_serialize_option_u32(s.mediation_date);
    let e9 = spec_serialize_shares_opt(s.mediation_shares);
    let e10 = le_bytes_of(s.secondary_items.len(), 4);
    let e11 = spec_serialize_items(s.secondary_items);
    let e12 = spec_serialize_bytes(s.description);
    let e13 = spec_serialize_bytes(s.validator_name);
    let e14 = spec_serialize_bytes(s.validator_logo_url);
    let enc = spec_serialize_storage(s);
    let b = enc + rest;
    let o1 = 4int;
    let o2 = o1 + 32;
    let o3 = o2 + 32;
    let o4 = o3 + 8;
    let o5 = o4 + 4;
    let o6 = o5 + e6.len() as int;
    let o7 = o6 + e7.len() as int;
    let o8 = o7 + e8.len() as int;
    let o9 = o8 + e9.len() as int;
    let o10 = o9 + 4;
    let o11 = o10 + e11.len() as int;
    let o12 = o11 + e12.len() as int;
    let o13 = o12 + e13.len() as int;
    let o14 = o13 + e14.len() as int;
    assert(enc.len() == o14);
    assert(b.subrange(0, o1) =~= e1);
    lemma_parse_u32_at(b, 0, s.validation_phrase);
    assert(b.subrange(o1, o2) =~= e2);
    lemma_parse_address_at(b, o1, s.authorized_withdrawer);
    assert(b.subrange(o2, o3) =~= e3);
    lemma_parse_address_at(b, o2, s.vote_account);
    assert(b.subrange(o3, o4) =~= e4);
    lemma_parse_u64_at(b, o3, s.authorized_withdrawer_cost);
    assert(b.subrange(o4, o5) =~= e5);
    lemma_parse_u32_at(b, o4, s.mediatable_date);
    assert(b.subrange(o5, o6) =~= e6);
    lemma_parse_purchase_opt_at(b, o5, s.purchase);
    assert(b.subrange(o6, o7) =~= e7);
    lemma_parse_option_u32_at(b, o6, s.request_mediation_date);
    assert(b.subrange(o7, o8) =~= e8);
    lemma_parse_option_u32_at(b, o7, s.mediation_date);
    assert(b.subrange(o8, o9) =~= e9);
    lemma_parse_shares_opt_at(b, o8, s.mediation_shares);
    let n_items = s.secondary_items.len() as u32;
    assert(le_bytes_of(n_items as nat, 4) == e10);
    assert(b.subrange(o9, o10) =~= e10);
    lemma_parse_u32_at(b, o9, n_items);
    assert(b.subrange(o10, o11) =~= e11);
    lemma_parse_items_at(b, o10, s.secondary_items);
    assert(b.subrange(o11, o12) =~= e12);
    lemma_parse_bytes_at(b, o11, s.description);
    assert(b.subrange(o12, o13) =~= e13);
    lemma_parse_bytes_at(b, o12, s.validator_name);
    assert(b.subrange(o13, o14) =~= e14);
    lemma_parse_bytes_at(b, o13, s.validator_logo_url);
    match spec_parse_storage(b) {
        Some((parsed, end)) => {
            assert(parsed =~= s);
            assert(end == enc.len());
        },
        None => {
            assert(false);
        },
    }
}


/// Reads a four-byte little-endian value; fails exactly when the bytes run
/// out.
fn parse_u32(bytes: &Vec<u8>, off: usize) -> (r: Result<(u32, usize), MarketError>)
    ensures
        r matches Ok((v, n)) ==> spec_parse_u32(bytes@, off as int) == Some((v, n as int)) && off
            <= n <= bytes@.len(),
        r is Err <==> spec_parse_u32(bytes@, off as int) is None,
        r is Err ==> r == Err::<(u32, usize), MarketError>(MarketError::Ingl(InglError::InvalidData)),
{
    let len = bytes.len();
    if off > len || len - off < 4 {
        return Err(InglError::InvalidData.utilize());
    }
    let v = read_u32_le(bytes, off);
    proof {
        lemma_pow_256_4();
        lemma_le_value_bound(bytes@.subrange(off as int, off as int + 4));
    }
    Ok((v, off + 4))
}

/// Reads an eight-byte little-endian value; fails exactly when the bytes run
/// out.
fn parse_u64(bytes: &Vec<u8>, off: usize) -> (r: Result<(u64, usize), MarketError>)
    ensures
        r matches Ok((v, n)) ==> spec_parse_u64(bytes@, off as int) == Some((v, n as int)) && off
            <= n <= bytes@.len(),
        r is Err <==> spec_parse_u64(bytes@, off as int) is None,
        r is Err ==> r == Err::<(u64, usize), MarketError>(MarketError::Ingl(InglError::InvalidData)),
{
    let len = bytes.len();
    if off > len || len - off < 8 {
        return Err(InglError::InvalidData.utilize());
    }
    let v = read_u64_le(bytes, off);
    proof {
        lemma_pow_256_8();
        lemma_le_value_bound(bytes@.subrange(off as int, off as int + 8));
    }
    Ok((v, off + 8))
}

/// Reads a 32-byte address; fails exactly when the bytes run out.
fn parse_address(bytes: &Vec<u8>, off: usize) -> (r: Result<(Address, usize), MarketError>)
    ensures
        r matches Ok((a, n)) ==> spec_parse_address(bytes@, off as int) == Some((a, n as int))
            && off <= n <= bytes@.len(),
        r is Err <==> spec_parse_address(bytes@, off as int) is None,
        r is Err ==> r == Err::<(Address, usize), MarketError>(
            MarketError::Ingl(InglError::InvalidData),
        ),
{
    let len = bytes.len();
    if off > len || len - off < 32 {
        return Err(InglError::InvalidData.utilize());
    }
    let a = address_from_byte_vec(bytes, off);
    Ok((a, off + 32))
}

/// Reads a tagged optional timestamp; fails exactly when the bytes run out or
/// the tag is invalid.
fn parse_option_u32(bytes: &Vec<u8>, off: usize) -> (r: Result<(Option<u32>, usize), MarketError>)
    ensures
        r matches Ok((o, n)) ==> spec_parse_option_u32(bytes@, off as int) == Some((o, n as int))
            && off <= n <= bytes@.len(),
        r is Err <==> spec_parse_option_u32(bytes@, off as int) is None,
        r is Err ==> r == Err::<(Option<u32>, usize), MarketError>(
            MarketError::Ingl(InglError::InvalidData),
        ),
{
    let len = bytes.len();
    if off >= len {
        return Err(InglError::InvalidData.utilize());
    }
    let tag = bytes[off];
    if tag == 0 {
        Ok((None, off + 1))
    } else if tag == 1 {
        match parse_u32(bytes, off + 1) {
            Ok((v, n)) => Ok((Some(v), n)),
            Err(e) => Err(e),
        }
    } else {
        Err(InglError::InvalidData.utilize())
    }
}

/// Reads the tagged optional purchase block; fails exactly when the bytes run
/// out or a tag is invalid.
fn parse_purchase_opt(bytes: &Vec<u8>, off: usize) -> (r: Result<
    (Option<Purchase>, usize),
    MarketError,
>)
    ensures
        r matches Ok((o, n)) ==> spec_parse_purchase_opt(bytes@, off as int) == Some(
            (o, n as int),
        ) && off <= n <= bytes@.len(),
        r is Err <==> spec_parse_purchase_opt(bytes@, off as int) is None,
        r is Err ==> r == Err::<(Option<Purchase>, usize), MarketError>(
            MarketError::Ingl(InglError::InvalidData),
        ),
{
    let len = bytes.len();
    if off >= len {
        return Err(InglError::InvalidData.utilize());
    }
    let tag = bytes[off];
    if tag == 0 {
        return Ok((None, off + 1));
    }
    if tag != 1 {
        return Err(InglError::InvalidData.utilize());
    }
    let (buyer, o2) = match parse_address(bytes, off + 1) {
        Ok(p) => p,
        Err(e) => { return Err(e) },
    };
    let (date, o3) = match parse_u32(bytes, o2) {
        Ok(p) => p,
        Err(e) => { return Err(e) },
    };
    let (date_finalized, o4) = match parse_option_u32(bytes, o3) {
        Ok(p) => p,
        Err(e) => { return Err(e) },
    };
    Ok((Some(Purchase { buyer, date, date_finalized }), o4))
}

/// Reads the tagged optional mediation shares; fails exactly when the bytes
/// run out or the tag is invalid.
fn parse_shares_opt(bytes: &Vec<u8>, off: usize) -> (r: Result<
    (Option<MediationShares>, usize),
    MarketError,
>)
    ensures
        r matches Ok((o, n)) ==> spec_parse_shares_opt(bytes@, off as int) == Some((o, n as int))
            && off <= n <= bytes@.len(),
        r is Err <==> spec_parse_shares_opt(bytes@, off as int) is None,
        r is Err ==> r == Err::<(Option<MediationShares>, usize), MarketError>(
            MarketError::Ingl(InglError::InvalidData),
        ),
{
    let len = bytes.len();
    if off >= len {
        return Err(InglError::InvalidData.utilize());
    }
    let tag = bytes[off];
    if tag == 0 {
        return Ok((None, off + 1));
    }
    if tag != 1 {
        return Err(InglError::InvalidData.utilize());
    }
    if len - (off + 1) < 3 {
        return Err(InglError::InvalidData.utilize());
    }
    let shares = MediationShares {
        buyer: bytes[off + 1],
        seller: bytes[off + 2],
        team: bytes[off + 3],
    };
    Ok((Some(shares), off + 4))
}

/// Reads a length-prefixed byte string; fails exactly when the bytes run out.
fn parse_bytes(bytes: &Vec<u8>, off: usize) -> (r: Result<(Vec<u8>, usize), MarketError>)
    ensures
        r matches Ok(p) ==> spec_parse_bytes(bytes@, off as int) == Some((p.0@, p.1 as int)) && off
            <= p.1 <= bytes@.len(),
        r is Err <==> spec_parse_bytes(bytes@, off as int) is None,
        r is Err ==> r == Err::<(Vec<u8>, usize), MarketError>(
            MarketError::Ingl(InglError::InvalidData),
        ),
{
    let (len32, o1) = match parse_u32(bytes, off) {
        Ok(p) => p,
        Err(e) => { return Err(e) },
    };
    let data_len = len32 as usize;
    let total = bytes.len();
    if total - o1 < data_len {
        return Err(InglError::InvalidData.utilize());
    }
    let mut out: Vec<u8> = Vec::new();
    let mut i: usize = 0;
    while i < data_len
        invariant
            i <= data_len,
            o1 + data_len <= bytes@.len(),
            bytes@.len() <= usize::MAX,
            out@ == bytes@.subrange(o1 as int, o1 as int + i as int),
        decreases data_len - i,
    {
        out.push(bytes[o1 + i]);
        proof {
            assert(out@ =~= bytes@.subrange(o1 as int, o1 as int + i as int + 1));
        }
        i = i + 1;
    }
    Ok((out, o1 + data_len))
}

/// Reads one secondary item; fails exactly when the bytes run out or a tag is
/// invalid.
fn parse_item(bytes: &Vec<u8>, off: usize) -> (r: Result<
    (StoredSecondaryItem, usize),
    MarketError,
>)
    ensures
        r matches Ok(p) ==> spec_parse_item(bytes@, off as int) == Some((p.0@, p.1 as int)) && off
            <= p.1 <= bytes@.len(),
        r is Err <==> spec_parse_item(bytes@, off as int) is None,
        r is Err ==> r == Err::<(StoredSecondaryItem, usize), MarketError>(
            MarketError::Ingl(InglError::InvalidData),
        ),
{
    let (cost, o1) = match parse_u64(bytes, off) {
        Ok(p) => p,
        Err(e) => { return Err(e) },
    };
    let (name, o2) = match parse_bytes(bytes, o1) {
        Ok(p) => p,
        Err(e) => { return Err(e) },
    };
    let (description, o3) = match parse_bytes(bytes, o2) {
        Ok(p) => p,
        Err(e) => { return Err(e) },
    };
    let (date_validated, o4) = match parse_option_u32(bytes, o3) {
        Ok(p) => p,
        Err(e) => { return Err(e) },
    };
    Ok((StoredSecondaryItem { cost, name, description, date_validated }, o4))
}

/// Reads `count` secondary items; fails exactly when any of them cannot be
/// read.
fn parse_items(bytes: &Vec<u8>, off: usize, count: u32) -> (r: Result<
    (Vec<StoredSecondaryItem>, usize),
    MarketError,
>)
    requires
        off <= bytes@.len(),
    ensures
        r matches Ok(p) ==> spec_parse_items(bytes@, off as int, count as nat) == Some(
            (crate::state::items_view(p.0), p.1 as int),
        ) && off <= p.1 <= bytes@.len(),
        r is Err <==> spec_parse_items(bytes@, off as int, count as nat) is None,
        r is Err ==> r == Err::<(Vec<StoredSecondaryItem>, usize), MarketError>(
            MarketError::Ingl(InglError::InvalidData),
        ),
{
    let mut out: Vec<StoredSecondaryItem> = Vec::new();
    let mut cur: usize = off;
    let mut i: u32 = 0;
    while i < count
        invariant
            i <= count,
            off <= cur <= bytes@.len(),
            ({
                let t = spec_parse_items(bytes@, off as int, count as nat);
                match spec_parse_items(bytes@, cur as int, (count - i) as nat) {
                    None => t is None,
                    Some((tail, end)) => t == Some(
                        (crate::state::items_view(out) + tail, end),
                    ),
                }
            }),
        decreases count - i,
    {
        let ghost prior = out@;
        match parse_item(bytes, cur) {
            Err(e) => {
                return Err(e);
            },
            Ok((item, n2)) => {
                out.push(item);
                proof {
                    let f = |x: StoredSecondaryItem| x@;
                    assert(out@.map_values(f) =~= prior.map_values(f).push(item@));
                    assert(crate::state::items_view(out) =~= prior.map_values(f) + seq![item@]);
                    match spec_parse_items(bytes@, n2 as int, (count - i - 1) as nat) {
                        None => {},
                        Some((tail2, end2)) => {
                            assert(prior.map_values(f) + (seq![item@] + tail2) =~= (
                            prior.map_values(f) + seq![item@]) + tail2);
                        },
                    }
                }
                cur = n2;
                i = i + 1;
            },
        }
    }
    proof {
        assert(crate::state::items_view(out) + Seq::<StoredSecondaryItemView>::empty() =~=
            crate::state::items_view(out));
    }
    Ok((out, cur))
}

impl Storage {
    /// Reads the record back from its persisted bytes, ignoring whatever
    /// follows it; fails exactly when the bytes do not hold a record.
    pub fn deserialize(bytes: &Vec<u8>) -> (r: Result<(Storage, usize), MarketError>)
        ensures
            r matches Ok(p) ==> spec_parse_storage(bytes@) == Some((p.0@, p.1 as int)),
            r is Err <==> spec_parse_storage(bytes@) is None,
            r is Err ==> r == Err::<(Storage, usize), MarketError>(
                MarketError::Ingl(InglError::InvalidData),
            ),
    {
        let (validation_phrase, o1) = match parse_u32(bytes, 0) {
            Ok(p) => p,
            Err(e) => { return Err(e) },
        };
        let (authorized_withdrawer, o2) = match parse_address(bytes, o1) {
            Ok(p) => p,
            Err(e) => { return Err(e) },
        };
        let (vote_account, o3) = match parse_address(bytes, o2) {
            Ok(p) => p,
            Err(e) => { return Err(e) },
        };
        let (authorized_withdrawer_cost, o4) = match parse_u64(bytes, o3) {
            Ok(p) => p,
            Err(e) => { return Err(e) },
        };
        let (mediatable_date, o5) = match parse_u32(bytes, o4) {
            Ok(p) => p,
            Err(e) => { return Err(e) },
        };
        let (purchase, o6) = match parse_purchase_opt(bytes, o5) {
            Ok(p) => p,
            Err(e) => { return Err(e) },
        };
        let (request_mediation_date, o7) = match parse_option_u32(bytes, o6) {
            Ok(p) => p,
            Err(e) => { return Err(e) },
        };
        let (mediation_date, o8) = match parse_option_u32(bytes, o7) {
            Ok(p) => p,
            Err(e) => { return Err(e) },
        };
        let (mediation_shares, o9) = match parse_shares_opt(bytes, o8) {
            Ok(p) => p,
            Err(e) => { return Err(e) },
        };
        let (n_items, o10) = match parse_u32(bytes, o9) {
            Ok(p) => p,
            Err(e) => { return Err(e) },
        };
        let (secondary_items, o11) = match parse_items(bytes, o10, n_items) {
            Ok(p) => p,
            Err(e) => { return Err(e) },
        };
        let (description, o12) = match parse_bytes(bytes, o11) {
            Ok(p) => p,
            Err(e) => { return Err(e) },
        };
        let (validator_name, o13) = match parse_bytes(bytes, o12) {
            Ok(p) => p,
            Err(e) => { return Err(e) },
        };
        let (validator_logo_url, o14) = match parse_bytes(bytes, o13) {
            Ok(p) => p,
            Err(e) => { return Err(e) },
        };
        let storage = Storage {
            validation_phrase,
            authorized_withdrawer,
            vote_account,
            authorized_withdrawer_cost,
            mediatable_date,
            purchase,
            request_mediation_date,
            mediation_date,
            mediation_shares,
            secondary_items,
            description,
            validator_name,
            validator_logo_url,
        };
        proof {
            match spec_parse_storage(bytes@) {
                Some((v, end)) => {
                    assert(storage@ =~= v);
                },
                None => {
                    assert(false);
                },
            }
        }
        Ok((storage, o14))
    }

    /// Reads the record back from its account's bytes and holds it to the
    /// record checks: owned by this program, carrying the expected validation
    /// phrase.
    pub fn parse(
        bytes: &Vec<u8>,
        storage_account: &AccountFacts,
        program_id: &Address,
    ) -> (r: Result<Storage, MarketError>)
        ensures
            ({
                match spec_parse_storage(bytes@) {
                    None => r == Err::<Storage, MarketError>(
                        MarketError::Ingl(InglError::InvalidData),
                    ),
                    Some((v, end)) => match crate::state::spec_check_parsed(
                        storage_account.owner,
                        *program_id,
                        v.validation_phrase,
                    ) {
                        Err(e) => r == Err::<Storage, MarketError>(e),
                        Ok(_) => r matches Ok(storage) && storage@ == v,
                    },
                }
            }),
    {
        let (storage, _consumed) = match Storage::deserialize(bytes) {
            Ok(p) => p,
            Err(e) => { return Err(e) },
        };
        if let Err(e) = storage.check_parsed(&storage_account.owner, program_id) {
            return Err(e);
        }
        Ok(storage)
    }
}


/// One item's persisted form fits the space the record reserves for it.
proof fn lemma_item_fits_its_space(item: StoredSecondaryItemView)
    ensures
        spec_serialize_item(item).len() <= crate::state::spec_item_space(item),
{
    lemma_le_bytes_len(item.cost as nat, 8);
    lemma_le_bytes_len(item.name.len(), 4);
    lemma_le_bytes_len(item.description.len(), 4);
    lemma_option_u32_len(item.date_validated);
}

/// The item list's persisted form fits the space the record reserves for it.
proof fn lemma_items_fit_their_space(items: Seq<StoredSecondaryItemView>)
    ensures
        spec_serialize_items(items).len() <= crate::state::spec_items_space(items),
    decreases items.len(),
{
    if items.len() > 0 {
        lemma_item_fits_its_space(items[0]);
        lemma_items_fit_their_space(items.subrange(1, items.len() as int));
    }
}

/// The record's persisted form always fits the space the listing allocates
/// for it: the account created at listing time can hold every state the
/// ledger reaches.
pub proof fn lemma_record_fits_its_space(s: StorageView)
    ensures
        spec_serialize_storage(s).len() <= crate::state::spec_storage_space(s),
{
    lemma_le_bytes_len(s.validation_phrase as nat, 4);
    lemma_address_bytes_len(s.authorized_withdrawer);
    lemma_address_bytes_len(s.vote_account);
    lemma_le_bytes_len(s.authorized_withdrawer_cost as nat, 8);
    lemma_le_bytes_len(s.mediatable_date as nat, 4);
    lemma_le_bytes_len(s.secondary_items.len(), 4);
    lemma_le_bytes_len(s.description.len(), 4);
    lemma_le_bytes_len(s.validator_name.len(), 4);
    lemma_le_bytes_len(s.validator_logo_url.len(), 4);
    lemma_option_u32_len(s.request_mediation_date);
    lemma_option_u32_len(s.mediation_date);
    match s.purchase {
        None => {},
        Some(p) => {
            lemma_address_bytes_len(p.buyer);
            lemma_le_bytes_len(p.date as nat, 4);
            lemma_option_u32_len(p.date_finalized);
        },
    }
    assert(spec_serialize_purchase_opt(s.purchase).len() <= 42);
    assert(spec_serialize_shares_opt(s.mediation_shares).len() <= 4);
    lemma_items_fit_their_space(s.secondary_items);
}

} // verus!
