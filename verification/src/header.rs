//! Stream-header parsing: descriptor, header, seek table.
//!
//! All parsing works on the stream's bytes; whoever owns the transport
//! hands them in.  Each reader says exactly on which inputs it succeeds
//! and which error each failure yields.

use vstd::prelude::*;

verus! {

use crate::error::ApeError;

/// The lowest format version this decoder reads.
pub const MIN_VERSION: u16 = 3990;

/// The 16-bit little-endian value at `p`.
pub open spec fn le16(d: Seq<u8>, p: int) -> u16 {
    (d[p] as u16) | ((d[p + 1] as u16) << 8u16)
}

/// The 32-bit little-endian value at `p`.
pub open spec fn le32(d: Seq<u8>, p: int) -> u32 {
    (d[p] as u32) | ((d[p + 1] as u32) << 8u32) | ((d[p + 2] as u32) << 16u32) | ((d[p
        + 3] as u32) << 24u32)
}

/// The 32-bit big-endian value at `p`.
pub open spec fn be32(d: Seq<u8>, p: int) -> u32 {
    ((d[p] as u32) << 24u32) | ((d[p + 1] as u32) << 16u32) | ((d[p + 2] as u32) << 8u32) | (d[p
        + 3] as u32)
}

/// Whether the magic bytes `MAC ` sit at `p`.
pub open spec fn has_magic_at(d: Seq<u8>, p: int) -> bool {
    &&& p + 4 <= d.len()
    &&& d[p] == 0x4Du8
    &&& d[p + 1] == 0x41u8
    &&& d[p + 2] == 0x43u8
    &&& d[p + 3] == 0x20u8
}

/// Whether the stream opens with an ID3v2 tag.
pub open spec fn has_id3_prefix(d: Seq<u8>) -> bool {
    &&& d.len() >= 4
    &&& d[0] == 0x49u8
    &&& d[1] == 0x44u8
    &&& d[2] == 0x33u8
}

/// Where an ID3v2 tag ends: a ten-byte head plus the 28-bit size spread
/// over the four bytes at offsets six to nine, seven bits each.
pub open spec fn id3_tag_end(d: Seq<u8>) -> int {
    10 + (((d[6] as u32) << 21u32) | ((d[7] as u32) << 14u32) | ((d[8] as u32) << 7u32) | (
    d[9] as u32))
}

/// Where the magic sits, if the stream carries it: at the very start,
/// or right after an ID3v2 tag.
pub open spec fn magic_offset(d: Seq<u8>) -> Option<int> {
    if has_magic_at(d, 0) {
        Some(0int)
    } else if has_id3_prefix(d) && d.len() >= 10 && has_magic_at(d, id3_tag_end(d)) {
        Some(id3_tag_end(d))
    } else {
        None
    }
}

/// First structure of a stream, right after the magic.
#[derive(Debug, Clone, Copy)]
pub struct ApeDescriptor {
    pub version: u16,
    pub descriptor_bytes: u32,
    pub header_bytes: u32,
    pub seek_table_bytes: u32,
    pub header_data_bytes: u32,
    pub ape_frame_data_bytes: u32,
    pub ape_frame_data_bytes_high: u32,
    pub terminating_data_bytes: u32,
    pub file_md5: [u8; 16],
}

/// Audio description, following the descriptor.
#[derive(Debug, Clone, Copy)]
pub struct ApeHeader {
    pub compression_level: u16,
    pub format_flags: u16,
    pub blocks_per_frame: u32,
    pub final_frame_blocks: u32,
    pub total_frames: u32,
    pub bits_per_sample: u16,
    pub channels: u16,
    pub sample_rate: u32,
}

/// Everything the decoder needs to know about a stream.
#[derive(Debug, Clone)]
pub struct ApeFileHeader {
    pub descriptor: ApeDescriptor,
    pub header: ApeHeader,
    /// Byte offset of each compressed frame's start.
    pub seek_table: Vec<u32>,
    /// Byte offset where compressed frame data begins.
    pub data_offset: u64,
}

/// The descriptor's fields read the bytes at `pos` as the layout says:
/// version, two padding bytes, seven sizes, then the stored digest.
pub open spec fn descriptor_matches(d: Seq<u8>, pos: int, r: ApeDescriptor) -> bool {
    &&& r.version == le16(d, pos)
    &&& r.descriptor_bytes == le32(d, pos + 4)
    &&& r.header_bytes == le32(d, pos + 8)
    &&& r.seek_table_bytes == le32(d, pos + 12)
    &&& r.header_data_bytes == le32(d, pos + 16)
    &&& r.ape_frame_data_bytes == le32(d, pos + 20)
    &&& r.ape_frame_data_bytes_high == le32(d, pos + 24)
    &&& r.terminating_data_bytes == le32(d, pos + 28)
    &&& r.file_md5@ == d.subrange(pos + 32, pos + 48)
}

/// The header's fields read the bytes at `pos` as the layout says.
pub open spec fn header_matches(d: Seq<u8>, pos: int, r: ApeHeader) -> bool {
    &&& r.compression_level == le16(d, pos)
    &&& r.format_flags == le16(d, pos + 2)
    &&& r.blocks_per_frame == le32(d, pos + 4)
    &&& r.final_frame_blocks == le32(d, pos + 8)
    &&& r.total_frames == le32(d, pos + 12)
    &&& r.bits_per_sample == le16(d, pos + 16)
    &&& r.channels == le16(d, pos + 18)
    &&& r.sample_rate == le32(d, pos + 20)
}

/// Whether the channel count is one this decoder plays.
pub open spec fn channels_ok(c: u16) -> bool {
    c == 1 || c == 2
}

/// Whether the sample depth is one this decoder plays.
pub open spec fn bits_ok(b: u16) -> bool {
    b == 8 || b == 16 || b == 24
}

/// Whether the compression level is one this decoder knows.
pub open spec fn level_ok(l: u16) -> bool {
    l == 1000 || l == 2000 || l == 3000 || l == 4000 || l == 5000
}

/// Read the 16-bit little-endian value at `pos`.
pub fn read_u16_le(d: &Vec<u8>, pos: usize) -> (r: Result<u16, ApeError>)
    ensures
        pos + 2 <= d@.len() ==> (r matches Ok(v) && v == le16(d@, pos as int)),
        pos + 2 > d@.len() ==> (r matches Err(ApeError::UnexpectedEof)),
{
    if pos < d.len() && d.len() - pos >= 2 {
        Ok((d[pos] as u16) | ((d[pos + 1] as u16) << 8u16))
    } else {
        Err(ApeError::UnexpectedEof)
    }
}

/// Read the 32-bit little-endian value at `pos`.
pub fn read_u32_le(d: &Vec<u8>, pos: usize) -> (r: Result<u32, ApeError>)
    ensures
        pos + 4 <= d@.len() ==> (r matches Ok(v) && v == le32(d@, pos as int)),
        pos + 4 > d@.len() ==> (r matches Err(ApeError::UnexpectedEof)),
{
    if pos < d.len() && d.len() - pos >= 4 {
        Ok(
            (d[pos] as u32) | ((d[pos + 1] as u32) << 8u32) | ((d[pos + 2] as u32) << 16u32) | ((d[
                pos + 3] as u32) << 24u32),
        )
    } else {
        Err(ApeError::UnexpectedEof)
    }
}

/// Find the magic, skipping one ID3v2 tag if the stream opens with one.
/// Gives the magic's byte offset.
pub fn find_magic(d: &Vec<u8>) -> (r: Result<usize, ApeError>)
    ensures
        magic_offset(d@) matches Some(p) ==> (r matches Ok(q) && q == p),
        d@.len() < 4 ==> (r matches Err(ApeError::UnexpectedEof)),
        d@.len() >= 4 && !has_magic_at(d@, 0) && !has_id3_prefix(d@) ==> (r matches Err(
            ApeError::InvalidMagic,
        )),
        has_id3_prefix(d@) && !has_magic_at(d@, 0) && d@.len() < 10 ==> (r matches Err(
            ApeError::UnexpectedEof,
        )),
        has_id3_prefix(d@) && !has_magic_at(d@, 0) && d@.len() >= 10 && id3_tag_end(d@) + 4 > d@.len()
            ==> (r matches Err(ApeError::UnexpectedEof)),
        has_id3_prefix(d@) && !has_magic_at(d@, 0) && d@.len() >= 10 && id3_tag_end(d@) + 4
            <= d@.len() && !has_magic_at(d@, id3_tag_end(d@)) ==> (r matches Err(
            ApeError::InvalidMagic,
        )),
{
    if d.len() < 4 {
        return Err(ApeError::UnexpectedEof);
    }
    if d[0] == 0x4D && d[1] == 0x41 && d[2] == 0x43 && d[3] == 0x20 {
        return Ok(0);
    }
    if d[0] == 0x49 && d[1] == 0x44 && d[2] == 0x33 {
        if d.len() < 10 {
            return Err(ApeError::UnexpectedEof);
        }
        let size: u32 = ((d[6] as u32) << 21u32) | ((d[7] as u32) << 14u32) | ((d[8] as u32)
            << 7u32) | (d[9] as u32);
        proof {
            let b6 = d@[6];
            let b7 = d@[7];
            let b8 = d@[8];
            let b9 = d@[9];
            assert(((b6 as u32) << 21u32) | ((b7 as u32) << 14u32) | ((b8 as u32) << 7u32) | (
            b9 as u32) < 0x2000_0000) by (bit_vector);
        }
        let offset: usize = 10 + size as usize;
        if offset + 4 > d.len() {
            return Err(ApeError::UnexpectedEof);
        }
        if d[offset] == 0x4D && d[offset + 1] == 0x41 && d[offset + 2] == 0x43 && d[offset + 3]
            == 0x20 {
            return Ok(offset);
        }
    }
    Err(ApeError::InvalidMagic)
}

/// Read the descriptor whose magic sits four bytes before `pos`.
/// Succeeds exactly when 48 bytes are there and the version is at
/// least 3990.
pub fn read_descriptor(d: &Vec<u8>, pos: usize) -> (r: Result<ApeDescriptor, ApeError>)
    ensures
        pos + 2 > d@.len() ==> (r matches Err(ApeError::UnexpectedEof)),
        pos + 2 <= d@.len() && le16(d@, pos as int) < MIN_VERSION ==> (r matches Err(
            ApeError::UnsupportedVersion(v),
        ) && v == le16(d@, pos as int)),
        pos + 2 <= d@.len() && le16(d@, pos as int) >= MIN_VERSION && pos + 48 > d@.len() ==> (
        r matches Err(ApeError::UnexpectedEof)),
        r is Ok <==> pos + 48 <= d@.len() && le16(d@, pos as int) >= MIN_VERSION,
        r matches Ok(desc) ==> (descriptor_matches(d@, pos as int, desc)),
{
    let version = match read_u16_le(d, pos) {
        Ok(v) => v,
        Err(e) => { return Err(e) },
    };
    if version < MIN_VERSION {
        return Err(ApeError::UnsupportedVersion(version));
    }
    if pos > d.len() || d.len() - pos < 48 {
        return Err(ApeError::UnexpectedEof);
    }
    let descriptor_bytes = match read_u32_le(d, pos + 4) {
        Ok(v) => v,
        Err(e) => { return Err(e) },
    };
    let header_bytes = match read_u32_le(d, pos + 8) {
        Ok(v) => v,
        Err(e) => { return Err(e) },
    };
    let seek_table_bytes = match read_u32_le(d, pos + 12) {
        Ok(v) => v,
        Err(e) => { return Err(e) },
    };
    let header_data_bytes = match read_u32_le(d, pos + 16) {
        Ok(v) => v,
        Err(e) => { return Err(e) },
    };
    let ape_frame_data_bytes = match read_u32_le(d, pos + 20) {
        Ok(v) => v,
        Err(e) => { return Err(e) },
    };
    let ape_frame_data_bytes_high = match read_u32_le(d, pos + 24) {
        Ok(v) => v,
        Err(e) => { return Err(e) },
    };
    let terminating_data_bytes = match read_u32_le(d, pos + 28) {
        Ok(v) => v,
        Err(e) => { return Err(e) },
    };
    let file_md5: [u8; 16] = [
        d[pos + 32],
        d[pos + 33],
        d[pos + 34],
        d[pos + 35],
        d[pos + 36],
        d[pos + 37],
        d[pos + 38],
        d[pos + 39],
        d[pos + 40],
        d[pos + 41],
        d[pos + 42],
        d[pos + 43],
        d[pos + 44],
        d[pos + 45],
        d[pos + 46],
        d[pos + 47],
    ];
    let r = ApeDescriptor {
        version,
        descriptor_bytes,
        header_bytes,
        seek_table_bytes,
        header_data_bytes,
        ape_frame_data_bytes,
        ape_frame_data_bytes_high,
        terminating_data_bytes,
        file_md5,
    };
    proof {
        assert(r.file_md5@ =~= d@.subrange(pos + 32, pos + 48));
    }
    Ok(r)
}

/// Read the audio header at `pos`.  Succeeds exactly when 24 bytes are
/// there, the channel count is 1 or 2, the depth is 8, 16 or 24 bits,
/// and the compression level is a known one.
pub fn read_header(d: &Vec<u8>, pos: usize) -> (r: Result<ApeHeader, ApeError>)
    ensures
        pos + 24 > d@.len() ==> (r matches Err(ApeError::UnexpectedEof)),
        pos + 24 <= d@.len() && !channels_ok(le16(d@, pos + 18)) ==> (r matches Err(
            ApeError::InvalidHeader(m),
        )),
        pos + 24 <= d@.len() && channels_ok(le16(d@, pos + 18)) && !bits_ok(le16(d@, pos + 16))
            ==> (r matches Err(ApeError::InvalidHeader(m))),
        pos + 24 <= d@.len() && channels_ok(le16(d@, pos + 18)) && bits_ok(le16(d@, pos + 16))
            && !level_ok(le16(d@, pos as int)) ==> (r matches Err(
            ApeError::UnsupportedCompressionLevel(l),
        ) && l == le16(d@, pos as int)),
        r is Ok <==> pos + 24 <= d@.len() && channels_ok(le16(d@, pos + 18)) && bits_ok(
            le16(d@, pos + 16),
        ) && level_ok(le16(d@, pos as int)),
        r matches Ok(h) ==> (header_matches(d@, pos as int, h)),
{
    if pos > d.len() || d.len() - pos < 24 {
        return Err(ApeError::UnexpectedEof);
    }
    let compression_level = match read_u16_le(d, pos) {
        Ok(v) => v,
        Err(e) => { return Err(e) },
    };
    let format_flags = match read_u16_le(d, pos + 2) {
        Ok(v) => v,
        Err(e) => { return Err(e) },
    };
    let blocks_per_frame = match read_u32_le(d, pos + 4) {
        Ok(v) => v,
        Err(e) => { return Err(e) },
    };
    let final_frame_blocks = match read_u32_le(d, pos + 8) {
        Ok(v) => v,
        Err(e) => { return Err(e) },
    };
    let total_frames = match read_u32_le(d, pos + 12) {
        Ok(v) => v,
        Err(e) => { return Err(e) },
    };
    let bits_per_sample = match read_u16_le(d, pos + 16) {
        Ok(v) => v,
        Err(e) => { return Err(e) },
    };
    let channels = match read_u16_le(d, pos + 18) {
        Ok(v) => v,
        Err(e) => { return Err(e) },
    };
    let sample_rate = match read_u32_le(d, pos + 20) {
        Ok(v) => v,
        Err(e) => { return Err(e) },
    };
    if channels == 0 || channels > 2 {
        return Err(ApeError::InvalidHeader("unsupported channel count".to_owned()));
    }
    if bits_per_sample != 8 && bits_per_sample != 16 && bits_per_sample != 24 {
        return Err(ApeError::InvalidHeader("unsupported bits per sample".to_owned()));
    }
    match compression_level {
        1000 | 2000 | 3000 | 4000 | 5000 => {},
        _ => { return Err(ApeError::UnsupportedCompressionLevel(compression_level)) },
    }
    Ok(
        ApeHeader {
            compression_level,
            format_flags,
            blocks_per_frame,
            final_frame_blocks,
            total_frames,
            bits_per_sample,
            channels,
            sample_rate,
        },
    )
}

/// Read the seek table at `pos`: one 32-bit offset per entry, as many
/// entries as the descriptor's table size holds.
pub fn read_seek_table(d: &Vec<u8>, pos: usize, descriptor: &ApeDescriptor) -> (r: Result<
    Vec<u32>,
    ApeError,
>)
    ensures
        r is Ok <==> pos + 4 * (descriptor.seek_table_bytes / 4) <= d@.len(),
        r matches Ok(t) ==> ({
            &&& t@.len() == descriptor.seek_table_bytes / 4
            &&& forall|i: int|
                0 <= i < t@.len() ==> t@[i] == le32(d@, pos + 4 * i)
        }),
        r is Err ==> (r matches Err(ApeError::UnexpectedEof)),
{
    let n = (descriptor.seek_table_bytes / 4) as usize;
    if (pos as u128) + 4 * (n as u128) > d.len() as u128 {
        return Err(ApeError::UnexpectedEof);
    }
    let mut table: Vec<u32> = Vec::new();
    let mut i: usize = 0;
    while i < n
        invariant
            i <= n,
            pos + 4 * n <= d@.len(),
            d@.len() <= usize::MAX,
            table@.len() == i,
            forall|j: int| 0 <= j < i ==> table@[j] == le32(d@, pos + 4 * j),
        decreases n - i,
    {
        let v = match read_u32_le(d, pos + 4 * i) {
            Ok(v) => v,
            Err(e) => { return Err(e) },
        };
        table.push(v);
        i = i + 1;
    }
    Ok(table)
}

/// Whether the bytes carry a complete, supported stream head: magic
/// found, descriptor and header in bounds, version and audio shape
/// supported, seek table in bounds.
pub open spec fn parse_ok(d: Seq<u8>) -> bool {
    &&& magic_offset(d) is Some
    &&& {
        let p = magic_offset(d).unwrap();
        let dpos = p + 4;
        &&& dpos + 48 <= d.len()
        &&& le16(d, dpos) >= MIN_VERSION
        &&& {
            let hpos = p + le32(d, dpos + 4);
            let stpos = p + le32(d, dpos + 4) + le32(d, dpos + 8);
            &&& hpos + 24 <= d.len()
            &&& channels_ok(le16(d, hpos + 18))
            &&& bits_ok(le16(d, hpos + 16))
            &&& level_ok(le16(d, hpos))
            &&& stpos + 4 * (le32(d, dpos + 12) / 4) <= d.len()
        }
    }
}

/// Parse the whole stream head.  On success the descriptor, header and
/// seek table all read back the bytes they came from, and the data
/// offset points right after the header data.
pub fn parse_header(d: &Vec<u8>) -> (r: Result<ApeFileHeader, ApeError>)
    ensures
        r is Ok <==> parse_ok(d@),
        r matches Ok(h) ==> ({
            let p = magic_offset(d@).unwrap();
            let dpos = p + 4;
            let hpos = p + h.descriptor.descriptor_bytes;
            let stpos = p + h.descriptor.descriptor_bytes + h.descriptor.header_bytes;
            &&& descriptor_matches(d@, dpos, h.descriptor)
            &&& header_matches(d@, hpos, h.header)
            &&& channels_ok(h.header.channels)
            &&& bits_ok(h.header.bits_per_sample)
            &&& level_ok(h.header.compression_level)
            &&& h.header.compression_level >= 1000
            &&& h.seek_table@.len() == h.descriptor.seek_table_bytes / 4
            &&& forall|i: int|
                0 <= i < h.seek_table@.len() ==> h.seek_table@[i] == le32(d@, stpos + 4 * i)
            &&& h.data_offset == stpos + h.descriptor.seek_table_bytes
                + h.descriptor.header_data_bytes
        }),
{
    let dlen = d.len();
    let desc_start = match find_magic(d) {
        Ok(p) => p,
        Err(e) => { return Err(e) },
    };
    proof {
        assert(magic_offset(d@) is Some);
        assert(desc_start + 4 <= dlen);
    }
    let descriptor = match read_descriptor(d, desc_start + 4) {
        Ok(x) => x,
        Err(e) => { return Err(e) },
    };

    // Offsets are composed in 128 bits so that no sum can wrap; every
    // offset must land inside the stream anyway.
    let hpos128: u128 = desc_start as u128 + descriptor.descriptor_bytes as u128;
    if hpos128 + 24 > d.len() as u128 {
        return Err(ApeError::UnexpectedEof);
    }
    let hpos: usize = hpos128 as usize;
    let header = match read_header(d, hpos) {
        Ok(x) => x,
        Err(e) => { return Err(e) },
    };

    let stpos128: u128 = hpos128 + descriptor.header_bytes as u128;
    let n_entries: u128 = (descriptor.seek_table_bytes / 4) as u128;
    if stpos128 + 4 * n_entries > d.len() as u128 {
        return Err(ApeError::UnexpectedEof);
    }
    let stpos: usize = stpos128 as usize;
    let seek_table = match read_seek_table(d, stpos, &descriptor) {
        Ok(x) => x,
        Err(e) => { return Err(e) },
    };

    let data_offset: u64 = (stpos128 + descriptor.seek_table_bytes as u128
        + descriptor.header_data_bytes as u128) as u64;

    Ok(ApeFileHeader { descriptor, header, seek_table, data_offset })
}

/// The block count a stream head announces: all frames but the last
/// carry `blocks_per_frame` blocks, the last its own count.
pub open spec fn spec_total_blocks(h: ApeHeader) -> int {
    if h.total_frames == 0 {
        0
    } else {
        (h.total_frames - 1) * h.blocks_per_frame + h.final_frame_blocks
    }
}

impl ApeFileHeader {
    /// Total number of blocks, wrapping in 64 bits on absurd headers.
    pub fn total_blocks(&self) -> (r: u64)
        ensures
            r == spec_total_blocks(self.header) % 0x1_0000_0000_0000_0000,
            spec_total_blocks(self.header) <= u64::MAX ==> r == spec_total_blocks(self.header),
    {
        if self.header.total_frames == 0 {
            return 0;
        }
        let full = (self.header.total_frames - 1) as u64;
        let r = full.wrapping_mul(self.header.blocks_per_frame as u64).wrapping_add(
            self.header.final_frame_blocks as u64,
        );
        proof {
            let m: int = 0x1_0000_0000_0000_0000;
            let a = full as int;
            let b = self.header.blocks_per_frame as int;
            let c = self.header.final_frame_blocks as int;
            vstd::arithmetic::div_mod::lemma_add_mod_noop(a * b, c, m);
            vstd::arithmetic::div_mod::lemma_mod_twice(a * b, m);
            vstd::arithmetic::div_mod::lemma_small_mod((c % m) as nat, m as nat);
            if a * b + c <= u64::MAX {
                vstd::arithmetic::div_mod::lemma_small_mod((a * b + c) as nat, m as nat);
            }
        }
        r
    }

    /// Total number of samples: blocks times channels, wrapping in 64
    /// bits on absurd headers.
    pub fn total_samples(&self) -> (r: u64)
        ensures
            r == (spec_total_blocks(self.header) * self.header.channels) % 0x1_0000_0000_0000_0000,
            spec_total_blocks(self.header) * self.header.channels <= u64::MAX ==> r
                == spec_total_blocks(self.header) * self.header.channels,
    {
        let blocks = self.total_blocks();
        let r = blocks.wrapping_mul(self.header.channels as u64);
        proof {
            let m: int = 0x1_0000_0000_0000_0000;
            let tb = spec_total_blocks(self.header);
            let c = self.header.channels as int;
            vstd::arithmetic::div_mod::lemma_mul_mod_noop_left(tb, c, m);
            if tb * c <= u64::MAX {
                vstd::arithmetic::div_mod::lemma_small_mod((tb * c) as nat, m as nat);
            }
        }
        r
    }
}

} // verus!
