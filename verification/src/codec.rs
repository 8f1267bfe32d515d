use crate::account::Pubkey;
use vstd::prelude::*;
use vstd::seq_lib::lemma_concat_associative;

verus! {

// ===========================================================================
// Wire format
//
// A campaign record is persisted as a flat byte string:
//
//   [admin: 32 bytes]
//   [name length: u32 LE][name bytes]
//   [description length: u32 LE][description bytes]
//   [image link length: u32 LE][image link bytes]
//   [amount donated: u64 LE]
//
// A withdraw request is a single u64 LE. Decoding consumes the whole buffer:
// a truncated buffer or trailing bytes are a structural violation and fail.
// The codec imposes no semantic validation, only this shape.
// ===========================================================================

/// The little-endian bytes of a 32-bit length.
pub open spec fn le32(n: u32) -> Seq<u8> {
    seq![
        (n % 0x100) as u8,
        ((n / 0x100) % 0x100) as u8,
        ((n / 0x1_0000) % 0x100) as u8,
        ((n / 0x100_0000) % 0x100) as u8,
    ]
}

/// The 32-bit value read from four little-endian bytes.
pub open spec fn from_le32(s: Seq<u8>) -> u32
    recommends
        s.len() == 4,
{
    ((s[0] as int) + (s[1] as int) * 0x100 + (s[2] as int) * 0x1_0000
        + (s[3] as int) * 0x100_0000) as u32
}

/// The little-endian bytes of a 64-bit amount.
pub open spec fn le64(n: u64) -> Seq<u8> {
    seq![
        (n % 0x100) as u8,
        ((n / 0x100) % 0x100) as u8,
        ((n / 0x1_0000) % 0x100) as u8,
        ((n / 0x100_0000) % 0x100) as u8,
        ((n / 0x1_0000_0000) % 0x100) as u8,
        ((n / 0x100_0000_0000) % 0x100) as u8,
        ((n / 0x1_0000_0000_0000) % 0x100) as u8,
        ((n / 0x100_0000_0000_0000) % 0x100) as u8,
    ]
}

/// The 64-bit value read from eight little-endian bytes.
pub open spec fn from_le64(s: Seq<u8>) -> u64
    recommends
        s.len() == 8,
{
    ((s[0] as int) + (s[1] as int) * 0x100 + (s[2] as int) * 0x1_0000
        + (s[3] as int) * 0x100_0000 + (s[4] as int) * 0x1_0000_0000
        + (s[5] as int) * 0x100_0000_0000 + (s[6] as int) * 0x1_0000_0000_0000
        + (s[7] as int) * 0x100_0000_0000_0000) as u64
}

/// Reading back the little-endian bytes of a 32-bit value yields the value.
pub proof fn lemma_le32_round_trip(n: u32)
    ensures
        from_le32(le32(n)) == n,
{
    assert(n == ((n % 0x100) + ((n / 0x100) % 0x100) * 0x100 + ((n / 0x1_0000) % 0x100) * 0x1_0000
        + ((n / 0x100_0000) % 0x100) * 0x100_0000)) by (bit_vector);
}

/// Reading back the little-endian bytes of a 64-bit value yields the value.
pub proof fn lemma_le64_round_trip(n: u64)
    ensures
        from_le64(le64(n)) == n,
{
    assert(n == ((n % 0x100) + ((n / 0x100) % 0x100) * 0x100 + ((n / 0x1_0000) % 0x100) * 0x1_0000
        + ((n / 0x100_0000) % 0x100) * 0x100_0000 + ((n / 0x1_0000_0000) % 0x100) * 0x1_0000_0000
        + ((n / 0x100_0000_0000) % 0x100) * 0x100_0000_0000
        + ((n / 0x1_0000_0000_0000) % 0x100) * 0x1_0000_0000_0000
        + ((n / 0x100_0000_0000_0000) % 0x100) * 0x100_0000_0000_0000)) by (bit_vector);
}

/// Re-encoding the 32-bit value read from four bytes yields the same bytes.
pub proof fn lemma_le32_of_from(s: Seq<u8>)
    requires
        s.len() == 4,
    ensures
        le32(from_le32(s)) == s,
{
    let a = s[0];
    let b = s[1];
    let c = s[2];
    let d = s[3];
    let n = from_le32(s);
    assert(n % 0x100 == a && (n / 0x100) % 0x100 == b && (n / 0x1_0000) % 0x100 == c && (n
        / 0x100_0000) % 0x100 == d) by (bit_vector)
        requires
            n == ((a as int) + (b as int) * 0x100 + (c as int) * 0x1_0000 + (d as int)
                * 0x100_0000) as u32,
    ;
    assert(le32(n) =~= s);
}

/// Re-encoding the 64-bit value read from eight bytes yields the same bytes.
pub proof fn lemma_le64_of_from(s: Seq<u8>)
    requires
        s.len() == 8,
    ensures
        le64(from_le64(s)) == s,
{
    let b0 = s[0];
    let b1 = s[1];
    let b2 = s[2];
    let b3 = s[3];
    let b4 = s[4];
    let b5 = s[5];
    let b6 = s[6];
    let b7 = s[7];
    let n = from_le64(s);
    assert(n % 0x100 == b0 && (n / 0x100) % 0x100 == b1 && (n / 0x1_0000) % 0x100 == b2 && (n
        / 0x100_0000) % 0x100 == b3 && (n / 0x1_0000_0000) % 0x100 == b4 && (n / 0x100_0000_0000)
        % 0x100 == b5 && (n / 0x1_0000_0000_0000) % 0x100 == b6 && (n / 0x100_0000_0000_0000)
        % 0x100 == b7) by (bit_vector)
        requires
            n == ((b0 as int) + (b1 as int) * 0x100 + (b2 as int) * 0x1_0000 + (b3 as int)
                * 0x100_0000 + (b4 as int) * 0x1_0000_0000 + (b5 as int) * 0x100_0000_0000 + (
            b6 as int) * 0x1_0000_0000_0000 + (b7 as int) * 0x100_0000_0000_0000) as u64,
    ;
    assert(le64(n) =~= s);
}

// ===========================================================================
// The campaign record and the withdraw request
// ===========================================================================

/// The mathematical model of a campaign record.
#[verifier::ext_equal]
pub ghost struct RecordModel {
    /// The identity authorized to withdraw funds. Set once at creation,
    /// immutable thereafter.
    pub admin: Seq<u8>,
    /// Opaque descriptive bytes.
    pub name: Seq<u8>,
    /// Opaque descriptive bytes.
    pub description: Seq<u8>,
    /// Opaque descriptive bytes.
    pub image_link: Seq<u8>,
    /// Unsigned accumulator of funds received.
    pub amount_donated: u64,
}

/// A record is valid when its admin is a full identity and each descriptive
/// field fits behind a 32-bit length prefix.
pub open spec fn record_wf(m: RecordModel) -> bool {
    &&& m.admin.len() == 32
    &&& m.name.len() <= u32::MAX
    &&& m.description.len() <= u32::MAX
    &&& m.image_link.len() <= u32::MAX
}

/// The campaign record persisted inside a program-owned account's data
/// region: who may withdraw, what the campaign is, and how much it has
/// received.
#[derive(Clone, Debug, PartialEq, Eq)]
pub struct CampaignDetails {
    pub admin: Pubkey,
    pub name: Vec<u8>,
    pub description: Vec<u8>,
    pub image_link: Vec<u8>,
    pub amount_donated: u64,
}

impl View for CampaignDetails {
    type V = RecordModel;

    open spec fn view(&self) -> RecordModel {
        RecordModel {
            admin: self.admin@,
            name: self.name@,
            description: self.description@,
            image_link: self.image_link@,
            amount_donated: self.amount_donated,
        }
    }
}

impl CampaignDetails {
    pub open spec fn wf(&self) -> bool {
        record_wf(self@)
    }
}

/// A requested withdrawal amount; transient, never persisted.
#[derive(Clone, Copy, Debug, PartialEq, Eq, Structural)]
pub struct WithdrawRequest {
    pub amount: u64,
}

/// A byte string behind its 32-bit little-endian length prefix.
pub open spec fn length_prefixed(b: Seq<u8>) -> Seq<u8> {
    le32(b.len() as u32) + b
}

/// The encoding of a record: the wire format written out.
pub open spec fn spec_encode_record(m: RecordModel) -> Seq<u8> {
    m.admin + length_prefixed(m.name) + length_prefixed(m.description) + length_prefixed(
        m.image_link,
    ) + le64(m.amount_donated)
}

/// Splits a length-prefixed byte string off the front of `s`: the payload
/// and the remainder, or nothing when `s` is truncated.
pub open spec fn spec_split_lp(s: Seq<u8>) -> Option<(Seq<u8>, Seq<u8>)> {
    if s.len() < 4 {
        None
    } else {
        let n = from_le32(s.subrange(0, 4)) as int;
        if s.len() < 4 + n {
            None
        } else {
            Some((s.subrange(4, 4 + n), s.skip(4 + n)))
        }
    }
}

/// The decoding of a record: exactly the buffers of the shape
/// `spec_encode_record` writes, each to the record it was written from.
pub open spec fn spec_decode_record(s: Seq<u8>) -> Option<RecordModel> {
    if s.len() < 32 {
        None
    } else {
        match spec_split_lp(s.skip(32)) {
            Some((name, r1)) => match spec_split_lp(r1) {
                Some((description, r2)) => match spec_split_lp(r2) {
                    Some((image_link, r3)) => if r3.len() == 8 {
                        Some(
                            RecordModel {
                                admin: s.subrange(0, 32),
                                name,
                                description,
                                image_link,
                                amount_donated: from_le64(r3),
                            },
                        )
                    } else {
                        None
                    },
                    None => None,
                },
                None => None,
            },
            None => None,
        }
    }
}

/// The encoding of a withdraw request.
pub open spec fn spec_encode_request(amount: u64) -> Seq<u8> {
    le64(amount)
}

/// The decoding of a withdraw request: exactly eight bytes.
pub open spec fn spec_decode_request(s: Seq<u8>) -> Option<u64> {
    if s.len() == 8 {
        Some(from_le64(s))
    } else {
        None
    }
}

/// A concatenation splits back into its two halves.
pub proof fn lemma_concat_split(a: Seq<u8>, b: Seq<u8>)
    ensures
        (a + b).subrange(0, a.len() as int) == a,
        (a + b).skip(a.len() as int) == b,
{
    assert((a + b).subrange(0, a.len() as int) =~= a);
    assert((a + b).skip(a.len() as int) =~= b);
}

/// Splitting recovers what was length-prefixed, and what followed it.
pub proof fn lemma_split_lp(payload: Seq<u8>, rest: Seq<u8>)
    requires
        payload.len() <= u32::MAX,
    ensures
        spec_split_lp(length_prefixed(payload) + rest) == Some((payload, rest)),
{
    let s = length_prefixed(payload) + rest;
    let n32 = payload.len() as u32;
    assert(s.subrange(0, 4) =~= le32(n32));
    lemma_le32_round_trip(n32);
    let n = from_le32(s.subrange(0, 4)) as int;
    assert(n == payload.len());
    assert(s.subrange(4, 4 + n) =~= payload);
    assert(s.skip(4 + n) =~= rest);
}

/// Decoding a buffer assembled from the four parts and the amount yields
/// exactly those parts.
proof fn lemma_decode_parts(
    admin: Seq<u8>,
    name: Seq<u8>,
    description: Seq<u8>,
    image_link: Seq<u8>,
    amount: u64,
)
    requires
        admin.len() == 32,
        name.len() <= u32::MAX,
        description.len() <= u32::MAX,
        image_link.len() <= u32::MAX,
    ensures
        spec_decode_record(
            admin + (length_prefixed(name) + (length_prefixed(description) + (length_prefixed(
                image_link,
            ) + le64(amount)))),
        ) == Some(RecordModel { admin, name, description, image_link, amount_donated: amount }),
{
    let rest2 = length_prefixed(image_link) + le64(amount);
    let rest1 = length_prefixed(description) + rest2;
    let t = length_prefixed(name) + rest1;
    let s = admin + t;
    lemma_concat_split(admin, t);
    lemma_split_lp(name, rest1);
    lemma_split_lp(description, rest2);
    lemma_split_lp(image_link, le64(amount));
    lemma_le64_round_trip(amount);
    assert(spec_decode_record(s) == Some(
        RecordModel { admin, name, description, image_link, amount_donated: amount },
    ));
}

/// Codec round trip: decoding an encoded record yields the record.
pub proof fn lemma_record_round_trip(m: RecordModel)
    requires
        record_wf(m),
    ensures
        spec_decode_record(spec_encode_record(m)) == Some(m),
{
    let lp_n = length_prefixed(m.name);
    let lp_d = length_prefixed(m.description);
    let lp_i = length_prefixed(m.image_link);
    let amt = le64(m.amount_donated);
    lemma_concat_associative(m.admin + lp_n + lp_d, lp_i, amt);
    lemma_concat_associative(m.admin + lp_n, lp_d, lp_i + amt);
    lemma_concat_associative(m.admin, lp_n, lp_d + (lp_i + amt));
    assert(spec_encode_record(m) == m.admin + (lp_n + (lp_d + (lp_i + amt))));
    lemma_decode_parts(m.admin, m.name, m.description, m.image_link, m.amount_donated);
    assert((RecordModel {
        admin: m.admin,
        name: m.name,
        description: m.description,
        image_link: m.image_link,
        amount_donated: m.amount_donated,
    }) =~= m);
}

/// Splitting is inverse to prefixing: whatever splits off stood
/// length-prefixed at the front, and fits behind its prefix.
pub proof fn lemma_split_lp_inverse(t: Seq<u8>)
    ensures
        spec_split_lp(t) matches Some(pr) ==> pr.0.len() <= u32::MAX && length_prefixed(pr.0)
            + pr.1 == t,
{
    if spec_split_lp(t) is Some {
        let four = t.subrange(0, 4);
        let n = from_le32(four) as int;
        let p = t.subrange(4, 4 + n);
        let r = t.skip(4 + n);
        lemma_le32_of_from(four);
        assert(le32(p.len() as u32) == four);
        assert(length_prefixed(p) + r =~= t);
    }
}

/// Encoding is inverse to decoding: every buffer that decodes at all is the
/// encoding of the valid record it decodes to. Together with
/// `lemma_record_round_trip`, the codec is mutually inverse between valid
/// records and well-shaped buffers.
pub proof fn lemma_record_reencode(s: Seq<u8>)
    ensures
        spec_decode_record(s) matches Some(m) ==> record_wf(m) && spec_encode_record(m) == s,
{
    if spec_decode_record(s) is Some {
        let m = spec_decode_record(s)->Some_0;
        let t = s.skip(32);
        lemma_split_lp_inverse(t);
        let pr1 = spec_split_lp(t)->Some_0;
        lemma_split_lp_inverse(pr1.1);
        let pr2 = spec_split_lp(pr1.1)->Some_0;
        lemma_split_lp_inverse(pr2.1);
        let pr3 = spec_split_lp(pr2.1)->Some_0;
        lemma_le64_of_from(pr3.1);
        let lp_n = length_prefixed(m.name);
        let lp_d = length_prefixed(m.description);
        let lp_i = length_prefixed(m.image_link);
        let amt = le64(m.amount_donated);
        assert(t == lp_n + (lp_d + (lp_i + amt)));
        lemma_concat_associative(m.admin, lp_n, lp_d + (lp_i + amt));
        lemma_concat_associative(m.admin + lp_n, lp_d, lp_i + amt);
        lemma_concat_associative(m.admin + lp_n + lp_d, lp_i, amt);
        assert(s =~= s.subrange(0, 32) + t);
        assert(spec_encode_record(m) == s.subrange(0, 32) + t);
    }
}

// ===========================================================================
// Executable codec
// ===========================================================================

/// Appends a copy of `src` to `out`.
fn append_bytes(out: &mut Vec<u8>, src: &Vec<u8>)
    ensures
        final(out)@ == old(out)@ + src@,
{
    let n = src.len();
    let mut i: usize = 0;
    while i < n
        invariant
            n == src@.len(),
            i <= n,
            out@ == old(out)@ + src@.subrange(0, i as int),
        decreases n - i,
    {
        out.push(src[i]);
        proof {
            assert(out@ =~= old(out)@ + src@.subrange(0, i + 1));
        }
        i += 1;
    }
    proof {
        assert(out@ =~= old(out)@ + src@);
    }
}

/// Appends a 32-bit length in little-endian order.
fn push_u32_le(out: &mut Vec<u8>, n: u32)
    ensures
        final(out)@ == old(out)@ + le32(n),
{
    out.push((n % 0x100) as u8);
    out.push(((n / 0x100) % 0x100) as u8);
    out.push(((n / 0x1_0000) % 0x100) as u8);
    out.push(((n / 0x100_0000) % 0x100) as u8);
    proof {
        assert(out@ =~= old(out)@ + le32(n));
    }
}

/// Appends a 64-bit amount in little-endian order.
fn push_u64_le(out: &mut Vec<u8>, n: u64)
    ensures
        final(out)@ == old(out)@ + le64(n),
{
    out.push((n % 0x100) as u8);
    out.push(((n / 0x100) % 0x100) as u8);
    out.push(((n / 0x1_0000) % 0x100) as u8);
    out.push(((n / 0x100_0000) % 0x100) as u8);
    out.push(((n / 0x1_0000_0000) % 0x100) as u8);
    out.push(((n / 0x100_0000_0000) % 0x100) as u8);
    out.push(((n / 0x1_0000_0000_0000) % 0x100) as u8);
    out.push(((n / 0x100_0000_0000_0000) % 0x100) as u8);
    proof {
        assert(out@ =~= old(out)@ + le64(n));
    }
}

/// Encodes a record to its wire format.
pub fn encode_record(r: &CampaignDetails) -> (out: Vec<u8>)
    requires
        r.wf(),
    ensures
        out@ == spec_encode_record(r@),
{
    let mut out: Vec<u8> = Vec::new();
    append_bytes(&mut out, &r.admin.bytes);
    push_u32_le(&mut out, r.name.len() as u32);
    append_bytes(&mut out, &r.name);
    push_u32_le(&mut out, r.description.len() as u32);
    append_bytes(&mut out, &r.description);
    push_u32_le(&mut out, r.image_link.len() as u32);
    append_bytes(&mut out, &r.image_link);
    push_u64_le(&mut out, r.amount_donated);
    proof {
        assert(out@ =~= spec_encode_record(r@));
    }
    out
}

/// Encodes a withdraw request to its wire format.
pub fn encode_request(r: &WithdrawRequest) -> (out: Vec<u8>)
    ensures
        out@ == spec_encode_request(r.amount),
{
    let mut out: Vec<u8> = Vec::new();
    push_u64_le(&mut out, r.amount);
    proof {
        assert(out@ =~= spec_encode_request(r.amount));
    }
    out
}

/// Copies `n` bytes of `data` starting at `start`.
pub(crate) fn read_bytes(data: &Vec<u8>, start: usize, n: usize) -> (out: Vec<u8>)
    requires
        start + n <= data@.len(),
    ensures
        out@ == data@.subrange(start as int, start as int + n as int),
{
    let dlen: usize = data.len();
    let mut out: Vec<u8> = Vec::new();
    let mut i: usize = 0;
    while i < n
        invariant
            dlen == data@.len(),
            start + n <= data@.len(),
            i <= n,
            out@ == data@.subrange(start as int, start as int + i as int),
        decreases n - i,
    {
        out.push(data[start + i]);
        proof {
            assert(out@ =~= data@.subrange(start as int, start as int + i + 1));
        }
        i += 1;
    }
    out
}

/// Reads a 32-bit little-endian length at `start`.
fn read_u32_le(data: &Vec<u8>, start: usize) -> (n: u32)
    requires
        start + 4 <= data@.len(),
    ensures
        n == from_le32(data@.subrange(start as int, start as int + 4)),
{
    let dlen: usize = data.len();
    let b0 = data[start] as u32;
    let b1 = data[start + 1] as u32;
    let b2 = data[start + 2] as u32;
    let b3 = data[start + 3] as u32;
    let n = b0 + b1 * 0x100 + b2 * 0x1_0000 + b3 * 0x100_0000;
    proof {
        let s = data@.subrange(start as int, start as int + 4);
        assert(n == from_le32(s));
    }
    n
}

/// Reads a 64-bit little-endian amount at `start`.
fn read_u64_le(data: &Vec<u8>, start: usize) -> (n: u64)
    requires
        start + 8 <= data@.len(),
    ensures
        n == from_le64(data@.subrange(start as int, start as int + 8)),
{
    let dlen: usize = data.len();
    let b0 = data[start] as u64;
    let b1 = data[start + 1] as u64;
    let b2 = data[start + 2] as u64;
    let b3 = data[start + 3] as u64;
    let b4 = data[start + 4] as u64;
    let b5 = data[start + 5] as u64;
    let b6 = data[start + 6] as u64;
    let b7 = data[start + 7] as u64;
    let n = b0 + b1 * 0x100 + b2 * 0x1_0000 + b3 * 0x100_0000 + b4 * 0x1_0000_0000 + b5
        * 0x100_0000_0000 + b6 * 0x1_0000_0000_0000 + b7 * 0x100_0000_0000_0000;
    proof {
        let s = data@.subrange(start as int, start as int + 8);
        assert(n == from_le64(s));
    }
    n
}

/// Reads a length-prefixed byte string at `pos`: the payload and the
/// position just past it.
fn read_lp(data: &Vec<u8>, pos: usize) -> (r: Option<(Vec<u8>, usize)>)
    requires
        pos <= data@.len(),
    ensures
        match r {
            Some(pr) => spec_split_lp(data@.skip(pos as int)) matches Some(s2) && pr.0@ == s2.0
                && data@.skip(pr.1 as int) == s2.1 && pos + 4 <= pr.1 && pr.1 <= data@.len()
                && pr.0@.len() <= u32::MAX,
            None => spec_split_lp(data@.skip(pos as int)) is None,
        },
{
    let ghost s = data@.skip(pos as int);
    if data.len() - pos < 4 {
        return None;
    }
    let n = read_u32_le(data, pos);
    proof {
        assert(s.subrange(0, 4) =~= data@.subrange(pos as int, pos as int + 4));
    }
    let n_us = n as usize;
    if data.len() - (pos + 4) < n_us {
        return None;
    }
    let payload = read_bytes(data, pos + 4, n_us);
    let end = pos + 4 + n_us;
    proof {
        assert(payload@ =~= s.subrange(4, 4 + n as int));
        assert(data@.skip(end as int) =~= s.skip(4 + n as int));
    }
    Some((payload, end))
}

/// Decodes the record stored at `start` in `data`; the whole remainder of
/// the buffer must be consumed. Returns exactly what `spec_decode_record`
/// reads there.
pub fn decode_record(data: &Vec<u8>, start: usize) -> (r: Option<CampaignDetails>)
    requires
        start <= data@.len(),
    ensures
        match spec_decode_record(data@.skip(start as int)) {
            Some(m) => r matches Some(rec) && rec@ == m && rec.wf(),
            None => r is None,
        },
{
    let ghost s = data@.skip(start as int);
    if data.len() - start < 32 {
        return None;
    }
    let admin_bytes = read_bytes(data, start, 32);
    proof {
        assert(admin_bytes@ =~= s.subrange(0, 32));
        assert(data@.skip(start as int + 32) =~= s.skip(32));
    }
    let p1 = start + 32;
    let (name, p2) = match read_lp(data, p1) {
        None => {
            return None;
        },
        Some(x) => x,
    };
    let (description, p3) = match read_lp(data, p2) {
        None => {
            return None;
        },
        Some(x) => x,
    };
    let (image_link, p4) = match read_lp(data, p3) {
        None => {
            return None;
        },
        Some(x) => x,
    };
    if data.len() - p4 != 8 {
        return None;
    }
    let amount = read_u64_le(data, p4);
    proof {
        assert(data@.subrange(p4 as int, p4 as int + 8) =~= data@.skip(p4 as int));
    }
    let rec = CampaignDetails {
        admin: Pubkey { bytes: admin_bytes },
        name,
        description,
        image_link,
        amount_donated: amount,
    };
    proof {
        assert(spec_decode_record(s) matches Some(m) && rec@ =~= m);
    }
    Some(rec)
}

/// Decodes the withdraw request stored at `start` in `data`; the whole
/// remainder of the buffer must be consumed.
pub fn decode_request(data: &Vec<u8>, start: usize) -> (r: Option<WithdrawRequest>)
    requires
        start <= data@.len(),
    ensures
        match spec_decode_request(data@.skip(start as int)) {
            Some(amount) => r == Some(WithdrawRequest { amount }),
            None => r is None,
        },
{
    if data.len() - start != 8 {
        return None;
    }
    let amount = read_u64_le(data, start);
    proof {
        assert(data@.subrange(start as int, start as int + 8) =~= data@.skip(start as int));
    }
    Some(WithdrawRequest { amount })
}

/// Request round trip: decoding an encoded request yields the amount.
pub proof fn lemma_request_round_trip(amount: u64)
    ensures
        spec_decode_request(spec_encode_request(amount)) == Some(amount),
{
    lemma_le64_round_trip(amount);
}

} // verus!
