//! The 80-byte parameter block exchanged with the SMC user client.
//!
//! The block is laid out as the C structure that the kernel extension expects
//! on a little-endian 64-bit machine:
//!
//! | offset | field                                              |
//! |--------|----------------------------------------------------|
//! | 0      | key (u32)                                          |
//! | 4      | version: major, minor, build, reserved (u8), release (u16) |
//! | 10     | two padding bytes                                  |
//! | 12     | power limits: version, length (u16), cpu, gpu, mem (u32) |
//! | 28     | key info: data size, data type (u32), attributes (u8), 3 padding bytes |
//! | 40     | result, status, selector (u8), one padding byte    |
//! | 44     | data32 (u32)                                       |
//! | 48     | bytes ([u8; 32])                                   |

use vstd::prelude::*;

verus! {

/// Length in bytes of an encoded [`SmcParam`].
pub const SMC_PARAM_LEN: usize = 80;

/// Selector asking the SMC for the type and size of a key.
pub const SMC_CMD_GET_KEY_INFO: u8 = 9;
/// Selector asking the SMC for the value bytes of a key.
pub const SMC_CMD_READ_KEY: u8 = 5;
/// Selector asking the SMC for the key stored at an index.
pub const SMC_CMD_GET_KEY_FROM_INDEX: u8 = 8;

#[derive(Debug, Clone, Copy, PartialEq, Eq)]
pub struct SmcVersion {
    pub major: u8,
    pub minor: u8,
    pub build: u8,
    pub reserved: u8,
    pub release: u16,
}

#[derive(Debug, Clone, Copy, PartialEq, Eq)]
pub struct SmcPLimit {
    pub version: u16,
    pub length: u16,
    pub cpu_plimit: u32,
    pub gpu_plimit: u32,
    pub mem_plimit: u32,
}

/// Type and size of an SMC key, as reported by the key-info command.
#[derive(Debug, Clone, Copy, PartialEq, Eq)]
pub struct SmcKeyInfo {
    pub data_size: u32,
    pub data_type: u32,
    pub data_attributes: u8,
}

/// One request or reply exchanged with the SMC.
#[derive(Debug, Clone, Copy, PartialEq, Eq)]
pub struct SmcParam {
    pub key: u32,
    pub vers: SmcVersion,
    pub p_limit: SmcPLimit,
    pub key_info: SmcKeyInfo,
    pub result: u8,
    pub status: u8,
    pub selector: u8,
    pub data32: u32,
    pub bytes: [u8; 32],
}

// ── little-endian byte strings ──────────────────────────────────────────────

pub open spec fn le16(v: u16) -> Seq<u8> {
    seq![(v & 0xff) as u8, (v >> 8u16) as u8]
}

pub open spec fn le32(v: u32) -> Seq<u8> {
    seq![(v & 0xff) as u8, ((v >> 8u32) & 0xff) as u8, ((v >> 16u32) & 0xff) as u8, (v >> 24u32) as u8]
}

/// The little-endian `u16` stored at `off`.
pub open spec fn get_le16(b: Seq<u8>, off: int) -> u16 {
    (b[off] as u16) | ((b[off + 1] as u16) << 8u16)
}

/// The little-endian `u32` stored at `off`.
pub open spec fn get_le32(b: Seq<u8>, off: int) -> u32 {
    (b[off] as u32) | ((b[off + 1] as u32) << 8u32) | ((b[off + 2] as u32) << 16u32)
        | ((b[off + 3] as u32) << 24u32)
}

pub proof fn lemma_le16_roundtrip(v: u16)
    ensures
        get_le16(le16(v), 0) == v,
{
    let b0 = (v & 0xff) as u8;
    let b1 = (v >> 8u16) as u8;
    assert((b0 as u16) | ((b1 as u16) << 8u16) == v) by (bit_vector)
        requires
            b0 == (v & 0xff) as u8,
            b1 == (v >> 8u16) as u8,
    ;
}

pub proof fn lemma_le32_roundtrip(v: u32)
    ensures
        get_le32(le32(v), 0) == v,
{
    let b0 = (v & 0xff) as u8;
    let b1 = ((v >> 8u32) & 0xff) as u8;
    let b2 = ((v >> 16u32) & 0xff) as u8;
    let b3 = (v >> 24u32) as u8;
    assert((b0 as u32) | ((b1 as u32) << 8u32) | ((b2 as u32) << 16u32) | ((b3 as u32) << 24u32)
        == v) by (bit_vector)
        requires
            b0 == (v & 0xff) as u8,
            b1 == ((v >> 8u32) & 0xff) as u8,
            b2 == ((v >> 16u32) & 0xff) as u8,
            b3 == (v >> 24u32) as u8,
    ;
}


// ── the encoded block ───────────────────────────────────────────────────────

pub open spec fn encode_version(v: SmcVersion) -> Seq<u8> {
    seq![v.major, v.minor, v.build, v.reserved] + le16(v.release)
}

pub open spec fn encode_p_limit(p: SmcPLimit) -> Seq<u8> {
    le16(p.version) + le16(p.length) + le32(p.cpu_plimit) + le32(p.gpu_plimit) + le32(p.mem_plimit)
}

pub open spec fn encode_key_info(k: SmcKeyInfo) -> Seq<u8> {
    le32(k.data_size) + le32(k.data_type) + seq![k.data_attributes, 0u8, 0u8, 0u8]
}

/// The bytes of `p` as the SMC reads them; every padding byte is zero.
pub open spec fn encode_param(p: SmcParam) -> Seq<u8> {
    le32(p.key) + encode_version(p.vers) + seq![0u8, 0u8] + encode_p_limit(p.p_limit)
        + encode_key_info(p.key_info) + seq![p.result, p.status, p.selector, 0u8] + le32(p.data32)
        + p.bytes@
}

/// `p` is what the 80 bytes `b` hold, padding bytes ignored.
pub open spec fn decodes_to(b: Seq<u8>, p: SmcParam) -> bool {
    &&& b.len() == SMC_PARAM_LEN
    &&& p.key == get_le32(b, 0)
    &&& p.vers == SmcVersion {
        major: b[4],
        minor: b[5],
        build: b[6],
        reserved: b[7],
        release: get_le16(b, 8),
    }
    &&& p.p_limit == SmcPLimit {
        version: get_le16(b, 12),
        length: get_le16(b, 14),
        cpu_plimit: get_le32(b, 16),
        gpu_plimit: get_le32(b, 20),
        mem_plimit: get_le32(b, 24),
    }
    &&& p.key_info == SmcKeyInfo {
        data_size: get_le32(b, 28),
        data_type: get_le32(b, 32),
        data_attributes: b[36],
    }
    &&& p.result == b[40]
    &&& p.status == b[41]
    &&& p.selector == b[42]
    &&& p.data32 == get_le32(b, 44)
    &&& p.bytes@ == b.subrange(48, 80)
}

/// The padding bytes of an 80-byte block are all zero.
pub open spec fn padding_is_zero(b: Seq<u8>) -> bool {
    &&& b[10] == 0 && b[11] == 0
    &&& b[37] == 0 && b[38] == 0 && b[39] == 0
    &&& b[43] == 0
}

fn push_le16(out: &mut Vec<u8>, v: u16)
    ensures
        final(out)@ == old(out)@ + le16(v),
{
    out.push((v & 0xff) as u8);
    out.push((v >> 8u16) as u8);
    assert(final(out)@ =~= old(out)@ + le16(v));
}

fn push_le32(out: &mut Vec<u8>, v: u32)
    ensures
        final(out)@ == old(out)@ + le32(v),
{
    out.push((v & 0xff) as u8);
    out.push(((v >> 8u32) & 0xff) as u8);
    out.push(((v >> 16u32) & 0xff) as u8);
    out.push((v >> 24u32) as u8);
    assert(final(out)@ =~= old(out)@ + le32(v));
}

fn read_le16(b: &[u8], off: usize) -> (v: u16)
    requires
        off + 2 <= b@.len(),
    ensures
        v == get_le16(b@, off as int),
{
    (b[off] as u16) | ((b[off + 1] as u16) << 8u16)
}

fn read_le32(b: &[u8], off: usize) -> (v: u32)
    requires
        off + 4 <= b@.len(),
    ensures
        v == get_le32(b@, off as int),
{
    (b[off] as u32) | ((b[off + 1] as u32) << 8u32) | ((b[off + 2] as u32) << 16u32) | ((
    b[off + 3] as u32) << 24u32)
}

impl SmcParam {
    /// Serialises the block into the 80 bytes that the SMC user client reads.
    pub fn encode(&self) -> (out: Vec<u8>)
        ensures
            out@ == encode_param(*self),
            out@.len() == SMC_PARAM_LEN,
    {
        let mut out: Vec<u8> = Vec::new();
        push_le32(&mut out, self.key);
        out.push(self.vers.major);
        out.push(self.vers.minor);
        out.push(self.vers.build);
        out.push(self.vers.reserved);
        push_le16(&mut out, self.vers.release);
        out.push(0u8);
        out.push(0u8);
        push_le16(&mut out, self.p_limit.version);
        push_le16(&mut out, self.p_limit.length);
        push_le32(&mut out, self.p_limit.cpu_plimit);
        push_le32(&mut out, self.p_limit.gpu_plimit);
        push_le32(&mut out, self.p_limit.mem_plimit);
        push_le32(&mut out, self.key_info.data_size);
        push_le32(&mut out, self.key_info.data_type);
        out.push(self.key_info.data_attributes);
        out.push(0u8);
        out.push(0u8);
        out.push(0u8);
        out.push(self.result);
        out.push(self.status);
        out.push(self.selector);
        out.push(0u8);
        push_le32(&mut out, self.data32);
        let ghost head = out@;
        assert(head =~= le32(self.key) + encode_version(self.vers) + seq![0u8, 0u8]
            + encode_p_limit(self.p_limit) + encode_key_info(self.key_info) + seq![
            self.result,
            self.status,
            self.selector,
            0u8,
        ] + le32(self.data32));
        let mut i: usize = 0;
        while i < 32
            invariant
                i <= 32,
                out@ == head + self.bytes@.subrange(0, i as int),
            decreases 32 - i,
        {
            out.push(self.bytes[i]);
            i = i + 1;
            assert(out@ =~= head + self.bytes@.subrange(0, i as int));
        }
        assert(self.bytes@.subrange(0, 32) =~= self.bytes@);
        out
    }

    /// Reads a block back from the 80 bytes that the SMC user client wrote.
    pub fn decode(b: &[u8]) -> (p: SmcParam)
        requires
            b@.len() == SMC_PARAM_LEN,
        ensures
            decodes_to(b@, p),
    {
        let mut bytes = [0u8; 32];
        let mut i: usize = 0;
        while i < 32
            invariant
                i <= 32,
                b@.len() == SMC_PARAM_LEN,
                bytes@.len() == 32,
                forall|j: int| 0 <= j < i ==> bytes@[j] == b@[48 + j],
            decreases 32 - i,
        {
            bytes[i] = b[48 + i];
            i = i + 1;
        }
        assert(bytes@ =~= b@.subrange(48, 80));
        SmcParam {
            key: read_le32(b, 0),
            vers: SmcVersion {
                major: b[4],
                minor: b[5],
                build: b[6],
                reserved: b[7],
                release: read_le16(b, 8),
            },
            p_limit: SmcPLimit {
                version: read_le16(b, 12),
                length: read_le16(b, 14),
                cpu_plimit: read_le32(b, 16),
                gpu_plimit: read_le32(b, 20),
                mem_plimit: read_le32(b, 24),
            },
            key_info: SmcKeyInfo {
                data_size: read_le32(b, 28),
                data_type: read_le32(b, 32),
                data_attributes: b[36],
            },
            result: b[40],
            status: b[41],
            selector: b[42],
            data32: read_le32(b, 44),
            bytes,
        }
    }
}


// ── laws of the codec ───────────────────────────────────────────────────────

proof fn lemma_get_le16_at(b: Seq<u8>, off: int, v: u16)
    requires
        0 <= off,
        off + 2 <= b.len(),
        b.subrange(off, off + 2) == le16(v),
    ensures
        get_le16(b, off) == v,
{
    lemma_le16_roundtrip(v);
    assert(b[off] == b.subrange(off, off + 2)[0]);
    assert(b[off + 1] == b.subrange(off, off + 2)[1]);
}

proof fn lemma_get_le32_at(b: Seq<u8>, off: int, v: u32)
    requires
        0 <= off,
        off + 4 <= b.len(),
        b.subrange(off, off + 4) == le32(v),
    ensures
        get_le32(b, off) == v,
{
    lemma_le32_roundtrip(v);
    assert(b[off] == b.subrange(off, off + 4)[0]);
    assert(b[off + 1] == b.subrange(off, off + 4)[1]);
    assert(b[off + 2] == b.subrange(off, off + 4)[2]);
    assert(b[off + 3] == b.subrange(off, off + 4)[3]);
}

/// Decoding what was encoded gives the block back.
pub proof fn lemma_decode_encode(p: SmcParam)
    ensures
        encode_param(p).len() == SMC_PARAM_LEN,
        padding_is_zero(encode_param(p)),
        decodes_to(encode_param(p), p),
{
    let e = encode_param(p);
    assert(e.len() == 80);
    assert(e.subrange(0, 4) =~= le32(p.key));
    lemma_get_le32_at(e, 0, p.key);
    assert(e.subrange(8, 10) =~= le16(p.vers.release));
    lemma_get_le16_at(e, 8, p.vers.release);
    assert(e.subrange(12, 14) =~= le16(p.p_limit.version));
    lemma_get_le16_at(e, 12, p.p_limit.version);
    assert(e.subrange(14, 16) =~= le16(p.p_limit.length));
    lemma_get_le16_at(e, 14, p.p_limit.length);
    assert(e.subrange(16, 20) =~= le32(p.p_limit.cpu_plimit));
    lemma_get_le32_at(e, 16, p.p_limit.cpu_plimit);
    assert(e.subrange(20, 24) =~= le32(p.p_limit.gpu_plimit));
    lemma_get_le32_at(e, 20, p.p_limit.gpu_plimit);
    assert(e.subrange(24, 28) =~= le32(p.p_limit.mem_plimit));
    lemma_get_le32_at(e, 24, p.p_limit.mem_plimit);
    assert(e.subrange(28, 32) =~= le32(p.key_info.data_size));
    lemma_get_le32_at(e, 28, p.key_info.data_size);
    assert(e.subrange(32, 36) =~= le32(p.key_info.data_type));
    lemma_get_le32_at(e, 32, p.key_info.data_type);
    assert(e.subrange(44, 48) =~= le32(p.data32));
    lemma_get_le32_at(e, 44, p.data32);
    assert(e.subrange(48, 80) =~= p.bytes@);
}

/// A block is fully determined by its bytes.
pub proof fn lemma_decode_unique(b: Seq<u8>, p: SmcParam, q: SmcParam)
    requires
        decodes_to(b, p),
        decodes_to(b, q),
    ensures
        p == q,
{
    assert(p.bytes =~= q.bytes);
}

/// Encoding a decoded block gives back the bytes, when their padding is zero.
pub proof fn lemma_encode_decode(b: Seq<u8>, p: SmcParam)
    requires
        decodes_to(b, p),
        padding_is_zero(b),
    ensures
        encode_param(p) == b,
{
    let e = encode_param(p);
    lemma_decode_encode(p);
    assert forall|i: int| 0 <= i < 80 implies e[i] == b[i] by {
        if 0 <= i < 4 {
            lemma_le32_bytes(b, 0);
            assert(e.subrange(0, 4) =~= le32(p.key));
            assert(e[i] == e.subrange(0, 4)[i]);
        } else if 8 <= i < 10 {
            lemma_le16_bytes(b, 8);
            assert(e.subrange(8, 10) =~= le16(p.vers.release));
            assert(e[i] == e.subrange(8, 10)[i - 8]);
        } else if 12 <= i < 14 {
            lemma_le16_bytes(b, 12);
            assert(e.subrange(12, 14) =~= le16(p.p_limit.version));
            assert(e[i] == e.subrange(12, 14)[i - 12]);
        } else if 14 <= i < 16 {
            lemma_le16_bytes(b, 14);
            assert(e.subrange(14, 16) =~= le16(p.p_limit.length));
            assert(e[i] == e.subrange(14, 16)[i - 14]);
        } else if 16 <= i < 20 {
            lemma_le32_bytes(b, 16);
            assert(e.subrange(16, 20) =~= le32(p.p_limit.cpu_plimit));
            assert(e[i] == e.subrange(16, 20)[i - 16]);
        } else if 20 <= i < 24 {
            lemma_le32_bytes(b, 20);
            assert(e.subrange(20, 24) =~= le32(p.p_limit.gpu_plimit));
            assert(e[i] == e.subrange(20, 24)[i - 20]);
        } else if 24 <= i < 28 {
            lemma_le32_bytes(b, 24);
            assert(e.subrange(24, 28) =~= le32(p.p_limit.mem_plimit));
            assert(e[i] == e.subrange(24, 28)[i - 24]);
        } else if 28 <= i < 32 {
            lemma_le32_bytes(b, 28);
            assert(e.subrange(28, 32) =~= le32(p.key_info.data_size));
            assert(e[i] == e.subrange(28, 32)[i - 28]);
        } else if 32 <= i < 36 {
            lemma_le32_bytes(b, 32);
            assert(e.subrange(32, 36) =~= le32(p.key_info.data_type));
            assert(e[i] == e.subrange(32, 36)[i - 32]);
        } else if 44 <= i < 48 {
            lemma_le32_bytes(b, 44);
            assert(e.subrange(44, 48) =~= le32(p.data32));
            assert(e[i] == e.subrange(44, 48)[i - 44]);
        } else if 48 <= i < 80 {
            assert(e.subrange(48, 80) =~= p.bytes@);
            assert(e[i] == e.subrange(48, 80)[i - 48]);
            assert(b[i] == b.subrange(48, 80)[i - 48]);
        }
    }
    assert(e =~= b);
}

/// The bytes at `off` are the little-endian encoding of the value read there.
proof fn lemma_le16_bytes(b: Seq<u8>, off: int)
    requires
        0 <= off,
        off + 2 <= b.len(),
    ensures
        le16(get_le16(b, off)) =~= b.subrange(off, off + 2),
{
    let b0 = b[off];
    let b1 = b[off + 1];
    let v = get_le16(b, off);
    assert((v & 0xff) as u8 == b0 && (v >> 8u16) as u8 == b1) by (bit_vector)
        requires
            v == (b0 as u16) | ((b1 as u16) << 8u16),
    ;
}

/// The bytes at `off` are the little-endian encoding of the value read there.
proof fn lemma_le32_bytes(b: Seq<u8>, off: int)
    requires
        0 <= off,
        off + 4 <= b.len(),
    ensures
        le32(get_le32(b, off)) =~= b.subrange(off, off + 4),
{
    let b0 = b[off];
    let b1 = b[off + 1];
    let b2 = b[off + 2];
    let b3 = b[off + 3];
    let v = get_le32(b, off);
    assert((v & 0xff) as u8 == b0 && ((v >> 8u32) & 0xff) as u8 == b1 && ((v >> 16u32) & 0xff) as u8
        == b2 && (v >> 24u32) as u8 == b3) by (bit_vector)
        requires
            v == (b0 as u32) | ((b1 as u32) << 8u32) | ((b2 as u32) << 16u32) | ((b3 as u32) << 24u32),
    ;
}


// ── the three requests the protocol uses ────────────────────────────────────

/// The all-zero block.
pub open spec fn blank_param() -> SmcParam {
    SmcParam {
        key: 0,
        vers: SmcVersion { major: 0, minor: 0, build: 0, reserved: 0, release: 0 },
        p_limit: SmcPLimit { version: 0, length: 0, cpu_plimit: 0, gpu_plimit: 0, mem_plimit: 0 },
        key_info: SmcKeyInfo { data_size: 0, data_type: 0, data_attributes: 0 },
        result: 0,
        status: 0,
        selector: 0,
        data32: 0,
        bytes: vstd::array::spec_array_fill_for_copy_type::<u8, 32>(0u8),
    }
}

/// Asks for the type and size of `key`.
pub open spec fn key_info_request(key: u32) -> SmcParam {
    SmcParam { key, selector: SMC_CMD_GET_KEY_INFO, ..blank_param() }
}

/// Asks for the value of `key`, whose type and size are `info`.
pub open spec fn read_key_request(key: u32, info: SmcKeyInfo) -> SmcParam {
    SmcParam { key, key_info: info, selector: SMC_CMD_READ_KEY, ..blank_param() }
}

/// Asks for the key stored at `index`.
pub open spec fn key_at_index_request(index: u32) -> SmcParam {
    SmcParam { selector: SMC_CMD_GET_KEY_FROM_INDEX, data32: index, ..blank_param() }
}

impl SmcParam {
    /// The all-zero block that every request starts from.
    pub fn blank() -> (p: SmcParam)
        ensures
            p == blank_param(),
    {
        let p = SmcParam {
            key: 0,
            vers: SmcVersion { major: 0, minor: 0, build: 0, reserved: 0, release: 0 },
            p_limit: SmcPLimit { version: 0, length: 0, cpu_plimit: 0, gpu_plimit: 0, mem_plimit: 0 },
            key_info: SmcKeyInfo { data_size: 0, data_type: 0, data_attributes: 0 },
            result: 0,
            status: 0,
            selector: 0,
            data32: 0,
            bytes: [0u8; 32],
        };
        assert(p.bytes =~= blank_param().bytes);
        p
    }

    /// The request for the type and size of `key`.
    pub fn for_key_info(key: u32) -> (p: SmcParam)
        ensures
            p == key_info_request(key),
    {
        SmcParam { key, selector: SMC_CMD_GET_KEY_INFO, ..SmcParam::blank() }
    }

    /// The request for the value of `key`, whose type and size are `info`.
    pub fn for_read_key(key: u32, info: SmcKeyInfo) -> (p: SmcParam)
        ensures
            p == read_key_request(key, info),
    {
        SmcParam { key, key_info: info, selector: SMC_CMD_READ_KEY, ..SmcParam::blank() }
    }

    /// The request for the key stored at `index`.
    pub fn for_key_at_index(index: u32) -> (p: SmcParam)
        ensures
            p == key_at_index_request(index),
    {
        SmcParam { selector: SMC_CMD_GET_KEY_FROM_INDEX, data32: index, ..SmcParam::blank() }
    }
}


// ── the layout, stated on byte values ───────────────────────────────────────

/// Law: a little-endian `u32` is its four bytes read as a base-256 number,
/// least significant first, and writing one gives back those bytes.
pub proof fn lemma_le32_value(b: Seq<u8>, off: int, v: u32)
    requires
        0 <= off,
        off + 4 <= b.len(),
    ensures
        get_le32(b, off) as int == b[off] + b[off + 1] * 0x100 + b[off + 2] * 0x1_0000 + b[off + 3]
            * 0x100_0000,
        le32(v)[0] == v % 0x100,
        le32(v)[1] == (v / 0x100) % 0x100,
        le32(v)[2] == (v / 0x1_0000) % 0x100,
        le32(v)[3] == v / 0x100_0000,
{
    let b0 = b[off];
    let b1 = b[off + 1];
    let b2 = b[off + 2];
    let b3 = b[off + 3];
    let w = get_le32(b, off);
    assert(w as int == b0 + b1 * 0x100 + b2 * 0x1_0000 + b3 * 0x100_0000) by (bit_vector)
        requires
            w == (b0 as u32) | ((b1 as u32) << 8u32) | ((b2 as u32) << 16u32) | ((b3 as u32) << 24u32),
    ;
    assert((v & 0xff) as u8 == v % 0x100 && ((v >> 8u32) & 0xff) as u8 == (v / 0x100) % 0x100 && ((v
        >> 16u32) & 0xff) as u8 == (v / 0x1_0000) % 0x100 && (v >> 24u32) as u8 == v / 0x100_0000)
        by (bit_vector);
}

/// Law: a little-endian `u16` is its two bytes read as a base-256 number,
/// least significant first, and writing one gives back those bytes.
pub proof fn lemma_le16_value(b: Seq<u8>, off: int, v: u16)
    requires
        0 <= off,
        off + 2 <= b.len(),
    ensures
        get_le16(b, off) as int == b[off] + b[off + 1] * 0x100,
        le16(v)[0] == v % 0x100,
        le16(v)[1] == v / 0x100,
{
    let b0 = b[off];
    let b1 = b[off + 1];
    let w = get_le16(b, off);
    assert(w as int == b0 + b1 * 0x100) by (bit_vector)
        requires
            w == (b0 as u16) | ((b1 as u16) << 8u16),
    ;
    assert((v & 0xff) as u8 == v % 0x100 && (v >> 8u16) as u8 == v / 0x100) by (bit_vector);
}

/// Law: where each field lies in the encoded block, stated on byte values:
/// the key in bytes 0..4, data size in 28..32 and data type in 32..36 (each
/// least significant byte first), attributes at 36, result at 40, status at
/// 41, selector at 42, data32 in 44..48 and the value bytes in 48..80.
pub proof fn lemma_encoded_layout(p: SmcParam)
    ensures
        ({
            let e = encode_param(p);
            &&& e.len() == 80
            &&& e[0] == p.key % 0x100 && e[1] == (p.key / 0x100) % 0x100 && e[2] == (p.key
                / 0x1_0000) % 0x100 && e[3] == p.key / 0x100_0000
            &&& e[4] == p.vers.major && e[5] == p.vers.minor && e[6] == p.vers.build && e[7]
                == p.vers.reserved
            &&& e[28] == p.key_info.data_size % 0x100 && e[29] == (p.key_info.data_size / 0x100)
                % 0x100 && e[30] == (p.key_info.data_size / 0x1_0000) % 0x100 && e[31]
                == p.key_info.data_size / 0x100_0000
            &&& e[32] == p.key_info.data_type % 0x100 && e[33] == (p.key_info.data_type / 0x100)
                % 0x100 && e[34] == (p.key_info.data_type / 0x1_0000) % 0x100 && e[35]
                == p.key_info.data_type / 0x100_0000
            &&& e[36] == p.key_info.data_attributes
            &&& e[40] == p.result && e[41] == p.status && e[42] == p.selector
            &&& e[44] == p.data32 % 0x100 && e[45] == (p.data32 / 0x100) % 0x100 && e[46] == (p.data32
                / 0x1_0000) % 0x100 && e[47] == p.data32 / 0x100_0000
            &&& forall|i: int| 0 <= i < 32 ==> e[48 + i] == p.bytes@[i]
        }),
{
    let e = encode_param(p);
    lemma_decode_encode(p);
    lemma_le32_value(e, 0, p.key);
    lemma_le32_value(e, 28, p.key_info.data_size);
    lemma_le32_value(e, 32, p.key_info.data_type);
    lemma_le32_value(e, 44, p.data32);
    assert(e.subrange(0, 4) =~= le32(p.key));
    assert(e.subrange(28, 32) =~= le32(p.key_info.data_size));
    assert(e.subrange(32, 36) =~= le32(p.key_info.data_type));
    assert(e.subrange(44, 48) =~= le32(p.data32));
    assert(e[0] == e.subrange(0, 4)[0] && e[1] == e.subrange(0, 4)[1] && e[2] == e.subrange(0, 4)[2]
        && e[3] == e.subrange(0, 4)[3]);
    assert(e[28] == e.subrange(28, 32)[0] && e[29] == e.subrange(28, 32)[1] && e[30] == e.subrange(
        28,
        32,
    )[2] && e[31] == e.subrange(28, 32)[3]);
    assert(e[32] == e.subrange(32, 36)[0] && e[33] == e.subrange(32, 36)[1] && e[34] == e.subrange(
        32,
        36,
    )[2] && e[35] == e.subrange(32, 36)[3]);
    assert(e[44] == e.subrange(44, 48)[0] && e[45] == e.subrange(44, 48)[1] && e[46] == e.subrange(
        44,
        48,
    )[2] && e[47] == e.subrange(44, 48)[3]);
    assert forall|i: int| 0 <= i < 32 implies e[48 + i] == p.bytes@[i] by {
        assert(e.subrange(48, 80)[i] == e[48 + i]);
    }
}

} // verus!
