//! Arithmetic range coder and adaptive Rice state: the entropy stage.
//!
//! One `decode_value` call turns compressed bytes into one signed residual.
//! Every register move is pinned down by the spec functions below, so the
//! contracts describe the decoded stream bit for bit.

use vstd::prelude::*;

verus! {

use vstd::arithmetic::div_mod::{
    lemma_fundamental_div_mod,
    lemma_div_is_ordered,
    lemma_div_is_ordered_by_denominator,
    lemma_mod_bound,
};
/// Normalization threshold: bytes are shifted in while `range` is at or
/// below this bound.
pub const BOTTOM_VALUE: u32 = 0x0080_0000;

/// `range` register value right after construction: 1 << 7.
pub const INITIAL_RANGE: u32 = 0x80;

// ── Ghost model of the registers ─────────────────────────────────────

/// The range coder registers as specifications see them.  `pos` is the
/// read cursor into the compressed bytes.
pub ghost struct RcState {
    pub buffer: u32,
    pub low: u32,
    pub range: u32,
    pub help: u32,
    pub pos: int,
}

/// The byte the coder reads at `pos`: past the end the stream yields
/// zero bytes (soft end of input).
pub open spec fn byte_at(d: Seq<u8>, pos: int) -> u8 {
    if 0 <= pos < d.len() {
        d[pos]
    } else {
        0
    }
}

/// Where the cursor stands after one read: it never runs past the end.
pub open spec fn next_pos(d: Seq<u8>, pos: int) -> int {
    if 0 <= pos < d.len() {
        pos + 1
    } else {
        pos
    }
}

/// One normalization round: shift in a byte, widen `range` by 8 bits.
pub open spec fn rc_norm_step(d: Seq<u8>, s: RcState) -> RcState {
    let buffer = (s.buffer << 8u32) | (byte_at(d, s.pos) as u32);
    RcState {
        buffer,
        low: (s.low << 8u32) | ((buffer >> 1u32) & 0xFF),
        range: s.range << 8u32,
        help: s.help,
        pos: next_pos(d, s.pos),
    }
}

/// The registers after normalizing: rounds repeat until `range` rises
/// above `BOTTOM_VALUE`.
pub open spec fn rc_normalized(d: Seq<u8>, s: RcState) -> RcState
    decreases 0x1_0000_0000 - s.range,
    when 1 <= s.range
    via rc_normalized_decreases
{
    if s.range > BOTTOM_VALUE {
        s
    } else {
        rc_normalized(d, rc_norm_step(d, s))
    }
}

#[via_fn]
proof fn rc_normalized_decreases(d: Seq<u8>, s: RcState) {
    let r = s.range;
    assert(1 <= r <= 0x0080_0000u32 ==> (r << 8u32) > r) by (bit_vector);
}

/// The registers at construction: the first byte seeds `buffer`, its top
/// seven bits seed `low`, and `range` starts at 1 << 7.
pub open spec fn rc_init(d: Seq<u8>) -> RcState {
    let b = byte_at(d, 0) as u32;
    RcState { buffer: b, low: b >> 1u32, range: INITIAL_RANGE, help: 0, pos: next_pos(d, 0) }
}

/// State and value of `decode_culshift(shift)`: normalize, cut `range`
/// into `1 << shift` cells, and read off which cell `low` falls in.
pub open spec fn rc_culshift(d: Seq<u8>, s: RcState, shift: u32) -> (RcState, u32) {
    let s1 = rc_normalized(d, s);
    let help = s1.range >> shift;
    let v = s1.low / help;
    (
        RcState { buffer: s1.buffer, low: s1.low, range: s1.range, help, pos: s1.pos },
        v,
    )
}

/// State and value of `decode_culfreq(tot)`: normalize, cut `range` into
/// `tot` cells, and read off which cell `low` falls in.
pub open spec fn rc_culfreq(d: Seq<u8>, s: RcState, tot: u32) -> (RcState, u32) {
    let s1 = rc_normalized(d, s);
    let help = s1.range / tot;
    let v = s1.low / help;
    (
        RcState { buffer: s1.buffer, low: s1.low, range: s1.range, help, pos: s1.pos },
        v,
    )
}

/// State after `decode_update(lt_f, sy_f)`: drop the cells below the
/// decoded symbol from `low` and narrow `range` to the symbol's cells.
pub open spec fn rc_update(s: RcState, lt_f: u32, sy_f: u32) -> RcState {
    RcState {
        buffer: s.buffer,
        low: (s.low - s.help * lt_f) as u32,
        range: (s.help * sy_f) as u32,
        help: s.help,
        pos: s.pos,
    }
}

// ── Frequency model ──────────────────────────────────────────────────

/// Cumulative frequency of the symbols below index `i`, out of 1 << 16.
pub open spec fn counts(i: int) -> u32 {
    if i <= 0 { 0 }
    else if i == 1 { 19578 }
    else if i == 2 { 36160 }
    else if i == 3 { 48417 }
    else if i == 4 { 56323 }
    else if i == 5 { 60899 }
    else if i == 6 { 63265 }
    else if i == 7 { 64435 }
    else if i == 8 { 64971 }
    else if i == 9 { 65232 }
    else if i == 10 { 65351 }
    else if i == 11 { 65416 }
    else if i == 12 { 65447 }
    else if i == 13 { 65466 }
    else if i == 14 { 65476 }
    else if i == 15 { 65482 }
    else if i == 16 { 65485 }
    else if i == 17 { 65488 }
    else if i == 18 { 65490 }
    else if i == 19 { 65491 }
    else if i == 20 { 65492 }
    else { 65493 }
}

/// Width of symbol `i`'s band in the frequency model.
pub open spec fn counts_diff(i: int) -> u32 {
    (counts(i + 1) - counts(i)) as u32
}

/// The symbol whose band holds `cf`: the largest `i` with
/// `counts(i) <= cf`, for `cf` below the escape threshold.
pub open spec fn symbol_index(cf: u32) -> int {
    if cf < 19578 { 0 }
    else if cf < 36160 { 1 }
    else if cf < 48417 { 2 }
    else if cf < 56323 { 3 }
    else if cf < 60899 { 4 }
    else if cf < 63265 { 5 }
    else if cf < 64435 { 6 }
    else if cf < 64971 { 7 }
    else if cf < 65232 { 8 }
    else if cf < 65351 { 9 }
    else if cf < 65416 { 10 }
    else if cf < 65447 { 11 }
    else if cf < 65466 { 12 }
    else if cf < 65476 { 13 }
    else if cf < 65482 { 14 }
    else if cf < 65485 { 15 }
    else if cf < 65488 { 16 }
    else if cf < 65490 { 17 }
    else if cf < 65491 { 18 }
    else if cf < 65492 { 19 }
    else { 20 }
}

/// State and symbol of `get_symbol`: one 16-bit slot read; slots above
/// 65492 escape to symbols 21 and up, the rest map through the model.
pub open spec fn rc_get_symbol(d: Seq<u8>, s: RcState) -> (RcState, u32) {
    let s1 = rc_culshift(d, s, 16).0;
    let cf = rc_culshift(d, s, 16).1;
    if cf > 65492 {
        (rc_update(s1, cf, 1), (cf - 65472) as u32)
    } else {
        let i = symbol_index(cf);
        (rc_update(s1, counts(i), counts_diff(i)), i as u32)
    }
}

/// State and overflow count of `get_overflow`: symbol 63 escapes to a
/// raw 32-bit count read as two 16-bit halves.
pub open spec fn rc_get_overflow(d: Seq<u8>, s: RcState) -> (RcState, u32) {
    let s1 = rc_get_symbol(d, s).0;
    let o = rc_get_symbol(d, s).1;
    if o == 63 {
        let s2 = rc_culshift(d, s1, 16).0;
        let hi = rc_culshift(d, s1, 16).1;
        let s3 = rc_update(s2, hi, 1);
        let s4 = rc_culshift(d, s3, 16).0;
        let lo = rc_culshift(d, s3, 16).1;
        let s5 = rc_update(s4, lo, 1);
        (s5, (hi << 16u32) | lo)
    } else {
        (s1, o)
    }
}

/// The smallest shift that brings `pivot` under 1 << 16.
pub open spec fn pivot_bbits(pivot: u32) -> int
    decreases pivot,
    via pivot_bbits_decreases
{
    if pivot < 0x10000 {
        0
    } else {
        1 + pivot_bbits(pivot >> 1u32)
    }
}

#[via_fn]
proof fn pivot_bbits_decreases(pivot: u32) {
    assert(pivot >= 0x10000 ==> (pivot >> 1u32) < pivot) by (bit_vector);
}

/// State and base of the base read: one `culfreq(pivot)` read for small
/// pivots, a 16-bit high part and a `bbits`-bit low part for large ones.
pub open spec fn rc_decode_base(d: Seq<u8>, s: RcState, pivot: u32) -> (RcState, u32) {
    if pivot < 0x10000 {
        let s1 = rc_culfreq(d, s, pivot).0;
        let b = rc_culfreq(d, s, pivot).1;
        (rc_update(s1, b, 1), b)
    } else {
        let bb = pivot_bbits(pivot) as u32;
        let hi_tot = ((pivot >> bb) + 1) as u32;
        let s1 = rc_culfreq(d, s, hi_tot).0;
        let hi = rc_culfreq(d, s, hi_tot).1;
        let s2 = rc_update(s1, hi, 1);
        let s3 = rc_culfreq(d, s2, 1u32 << bb).0;
        let lo = rc_culfreq(d, s2, 1u32 << bb).1;
        let s4 = rc_update(s3, lo, 1);
        (s4, vstd::wrapping::u32_specs::wrapping_add(hi << bb, lo))
    }
}

// ── Rice state ───────────────────────────────────────────────────────

/// Adaptive parameter pair steering the pivot of the residual split.
#[derive(Debug, Clone, Copy)]
pub struct RiceState {
    pub k: u32,
    pub ksum: u32,
}

/// The Rice parameter `k` stays in 0..=24.
pub open spec fn rice_wf(r: RiceState) -> bool {
    r.k <= 24
}

/// The expected magnitude of the next residual, never below 1.
pub open spec fn rice_pivot(r: RiceState) -> u32 {
    if (r.ksum >> 5u32) < 1 {
        1
    } else {
        r.ksum >> 5u32
    }
}

/// The Rice state after absorbing a decoded magnitude `x`: `ksum` moves
/// by an exponential average step, then `k` follows it so that `ksum`
/// stays near the band from 1 << (k+4) up to 1 << (k+5).
pub open spec fn rice_next(r: RiceState, x: u32) -> RiceState {
    let ksum = vstd::wrapping::u32_specs::wrapping_sub(
        vstd::wrapping::u32_specs::wrapping_add(
            r.ksum,
            vstd::wrapping::u32_specs::wrapping_add(x, 1) / 2,
        ),
        vstd::wrapping::u32_specs::wrapping_add(r.ksum, 16) >> 5u32,
    );
    let lim: u32 = if r.k > 0 {
        1u32 << ((r.k + 4) as u32)
    } else {
        0
    };
    let k: u32 = if ksum < lim {
        (r.k - 1) as u32
    } else if r.k < 24 && ksum >= (1u32 << ((r.k + 5) as u32)) {
        (r.k + 1) as u32
    } else {
        r.k
    };
    RiceState { k, ksum }
}

impl RiceState {
    /// The initial state: `k` at 10, `ksum` at 1 << 14, so the first
    /// pivot is 512.
    pub fn new() -> (r: RiceState)
        ensures
            r.k == 10,
            r.ksum == 16384,
            rice_wf(r),
    {
        RiceState { k: 10, ksum: 16384 }
    }

    /// Absorb one decoded magnitude.  After every update `k` stays in
    /// 0..=24.
    pub fn update(&mut self, x: u32)
        requires
            rice_wf(*old(self)),
        ensures
            *final(self) == rice_next(*old(self), x),
            rice_wf(*final(self)),
            final(self).k <= 24,
    {
        let add_part = x.wrapping_add(1) / 2;
        let sub_part = self.ksum.wrapping_add(16) >> 5u32;
        self.ksum = self.ksum.wrapping_add(add_part).wrapping_sub(sub_part);

        let lim: u32 = if self.k > 0 {
            1u32 << (self.k + 4)
        } else {
            0
        };
        if self.ksum < lim {
            self.k = self.k - 1;
        } else if self.k < 24 && self.ksum >= (1u32 << (self.k + 5)) {
            self.k = self.k + 1;
        }
    }

    /// The pivot for the next residual: `ksum >> 5`, floored at 1.
    pub fn pivot(&self) -> (r: u32)
        ensures
            r == rice_pivot(*self),
            r >= 1,
    {
        let p = self.ksum >> 5u32;
        if p < 1 {
            1
        } else {
            p
        }
    }
}

// ── Residual assembly ────────────────────────────────────────────────

/// Zigzag step: odd magnitudes become positive values, even ones zero
/// or negative.
pub open spec fn zigzag(x: u32) -> i32 {
    if x & 1 == 1 {
        vstd::wrapping::u32_specs::wrapping_add(x >> 1u32, 1) as i32
    } else {
        (-((x >> 1u32) as int)) as i32
    }
}

/// The inverse of `zigzag`: the magnitude a signed value came from.
/// The one positive value `zigzag` reaches by wrap-around is `i32::MIN`,
/// which stands for the largest magnitude.
pub open spec fn zigzag_inv(y: i32) -> u32 {
    if y > 0 {
        (2 * (y - 1) + 1) as u32
    } else if y == i32::MIN {
        0xFFFF_FFFFu32
    } else {
        (-2 * y) as u32
    }
}

/// The zigzag map loses nothing: every magnitude is recovered by
/// `zigzag_inv`, so equal decoded values come from equal magnitudes.
pub proof fn lemma_zigzag_bijective(x: u32)
    ensures
        zigzag_inv(zigzag(x)) == x,
{
    let h = x >> 1u32;
    assert(h <= 0x7FFF_FFFF && (x & 1 == 1 ==> x == 2 * h + 1) && (x & 1 != 1 ==> x == 2 * h))
        by (bit_vector)
        requires
            h == x >> 1u32,
    ;
    if x & 1 == 1 {
        if h == 0x7FFF_FFFF {
            assert(0x8000_0000u32 as i32 == i32::MIN) by (bit_vector);
        } else {
            assert(zigzag(x) == (h + 1) as i32);
        }
    }
}

/// State, Rice state, and value of one full residual decode.
pub open spec fn rc_decode_value(d: Seq<u8>, s: RcState, r: RiceState) -> (RcState, RiceState, i32) {
    let pivot = rice_pivot(r);
    let s1 = rc_get_overflow(d, s).0;
    let o = rc_get_overflow(d, s).1;
    let s2 = rc_decode_base(d, s1, pivot).0;
    let base = rc_decode_base(d, s1, pivot).1;
    let x = vstd::wrapping::u32_specs::wrapping_add(
        base,
        vstd::wrapping::u32_specs::wrapping_mul(o, pivot),
    );
    (s2, rice_next(r, x), zigzag(x))
}

// ── The executable coder ─────────────────────────────────────────────

/// Byte-level range coder over one frame's compressed bytes.
pub struct RangeCoder {
    /// The compressed bytes of the frame, after byte swap and prefix skip.
    data: Vec<u8>,
    /// Read cursor into `data`.
    pos: usize,
    /// Bit-shift register carrying bytes between normalizations.
    buffer: u32,
    pub low: u32,
    pub range: u32,
    /// Cell width of the last `culshift`/`culfreq`, consumed by `decode_update`.
    help: u32,
}

impl RangeCoder {
    /// The bytes the coder reads from.
    pub closed spec fn bytes(&self) -> Seq<u8> {
        self.data@
    }

    /// The registers, as the ghost model tracks them.
    pub closed spec fn st(&self) -> RcState {
        RcState {
            buffer: self.buffer,
            low: self.low,
            range: self.range,
            help: self.help,
            pos: self.pos as int,
        }
    }

    /// `range` stays positive and the cursor stays inside or just past
    /// the bytes.
    pub closed spec fn wf(&self) -> bool {
        1 <= self.range && self.pos <= self.data@.len()
    }

    /// Seed the registers from the first byte.  No normalization happens
    /// here; the first decode operation normalizes.
    pub fn new(data: Vec<u8>) -> (r: RangeCoder)
        ensures
            r.wf(),
            r.bytes() == data@,
            r.st() == rc_init(data@),
    {
        let mut rc = RangeCoder { data, pos: 0, buffer: 0, low: 0, range: INITIAL_RANGE, help: 0 };
        let first = rc.read_byte();
        rc.buffer = first as u32;
        rc.low = (first as u32) >> 1u32;
        rc
    }

    /// Read the byte under the cursor; past the end the stream yields
    /// zeroes and the cursor stays put.
    fn read_byte(&mut self) -> (b: u8)
        requires
            old(self).wf(),
        ensures
            final(self).wf(),
            final(self).bytes() == old(self).bytes(),
            b == byte_at(old(self).bytes(), old(self).st().pos),
            final(self).st() == (RcState {
                buffer: old(self).st().buffer,
                low: old(self).st().low,
                range: old(self).st().range,
                help: old(self).st().help,
                pos: next_pos(old(self).bytes(), old(self).st().pos),
            }),
    {
        if self.pos < self.data.len() {
            let b = self.data[self.pos];
            self.pos = self.pos + 1;
            b
        } else {
            0
        }
    }

    /// Shift bytes in until `range` rises above `BOTTOM_VALUE`.
    fn normalize(&mut self)
        requires
            old(self).wf(),
        ensures
            final(self).wf(),
            final(self).bytes() == old(self).bytes(),
            final(self).st() == rc_normalized(old(self).bytes(), old(self).st()),
            final(self).range > BOTTOM_VALUE,
    {
        while self.range <= BOTTOM_VALUE
            invariant
                self.wf(),
                self.bytes() == old(self).bytes(),
                rc_normalized(self.bytes(), self.st()) == rc_normalized(
                    old(self).bytes(),
                    old(self).st(),
                ),
            decreases 0x1_0000_0000 - self.range,
        {
            let ghost pre = self.st();
            let byte = self.read_byte();
            self.buffer = (self.buffer << 8u32) | (byte as u32);
            self.low = (self.low << 8u32) | ((self.buffer >> 1u32) & 0xFF);
            self.range = self.range << 8u32;
            proof {
                assert(self.st() == rc_norm_step(self.bytes(), pre));
                let r0 = pre.range;
                assert(1 <= r0 <= 0x0080_0000u32 ==> (r0 << 8u32) > r0) by (bit_vector);
            }
        }
    }

    /// Normalize, cut `range` into `1 << shift` cells, and return the
    /// cell `low` falls in.  The cell width stays in `help`.
    fn decode_culshift(&mut self, shift: u32) -> (v: u32)
        requires
            old(self).wf(),
            1 <= shift <= 16,
        ensures
            final(self).wf(),
            final(self).bytes() == old(self).bytes(),
            final(self).st() == rc_culshift(old(self).bytes(), old(self).st(), shift).0,
            v == rc_culshift(old(self).bytes(), old(self).st(), shift).1,
            final(self).st().help >= 1,
            shift == 16 ==> final(self).st().help <= 0xFFFF,
            final(self).st().help * v <= final(self).st().low,
            final(self).range > BOTTOM_VALUE,
    {
        self.normalize();
        proof {
            let r = self.range;
            assert(r > 0x0080_0000u32 && 1 <= shift <= 16 ==> (r >> shift) >= 1) by (bit_vector);
            assert((r >> 16u32) <= 0xFFFF) by (bit_vector);
        }
        self.help = self.range >> shift;
        let v = self.low / self.help;
        proof {
            lemma_fundamental_div_mod(self.low as int, self.help as int);
            lemma_mod_bound(self.low as int, self.help as int);
        }
        v
    }

    /// Normalize, cut `range` into `tot` cells, and return the cell
    /// `low` falls in.  The cell width stays in `help`.
    fn decode_culfreq(&mut self, tot: u32) -> (v: u32)
        requires
            old(self).wf(),
            1 <= tot <= 0x1_0000,
        ensures
            final(self).wf(),
            final(self).bytes() == old(self).bytes(),
            final(self).st() == rc_culfreq(old(self).bytes(), old(self).st(), tot).0,
            v == rc_culfreq(old(self).bytes(), old(self).st(), tot).1,
            final(self).st().help >= 1,
            final(self).st().help * v <= final(self).st().low,
            final(self).range > BOTTOM_VALUE,
    {
        self.normalize();
        proof {
            lemma_div_is_ordered_by_denominator(self.range as int, tot as int, 0x1_0000);
            lemma_div_is_ordered(0x0080_0001int, self.range as int, 0x1_0000);
        }
        self.help = self.range / tot;
        let v = self.low / self.help;
        proof {
            lemma_fundamental_div_mod(self.low as int, self.help as int);
            lemma_mod_bound(self.low as int, self.help as int);
        }
        v
    }

    /// Consume the decoded symbol: `lt_f` cells leave `low`, `sy_f`
    /// cells stay as the new `range`.  No normalization happens here.
    fn decode_update(&mut self, lt_f: u32, sy_f: u32)
        requires
            old(self).wf(),
            1 <= sy_f,
            1 <= old(self).st().help,
            old(self).st().help * lt_f <= old(self).st().low,
            old(self).st().help * sy_f <= u32::MAX,
        ensures
            final(self).wf(),
            final(self).bytes() == old(self).bytes(),
            final(self).st() == rc_update(old(self).st(), lt_f, sy_f),
    {
        proof {
            let h = self.help;
            assert(h * sy_f >= 1) by (nonlinear_arith)
                requires
                    h >= 1,
                    sy_f >= 1,
            ;
        }
        self.low = self.low - self.help * lt_f;
        self.range = self.help * sy_f;
    }

    /// Decode one symbol of the frequency model; slots above 65492 come
    /// back as escape symbols 21 and up.
    fn get_symbol(&mut self) -> (sym: u32)
        requires
            old(self).wf(),
        ensures
            final(self).wf(),
            final(self).bytes() == old(self).bytes(),
            final(self).st() == rc_get_symbol(old(self).bytes(), old(self).st()).0,
            sym == rc_get_symbol(old(self).bytes(), old(self).st()).1,
    {
        let cf = self.decode_culshift(16);
        if cf > 65492 {
            self.decode_update(cf, 1);
            cf - 65472
        } else {
            let i = self.search_symbol(cf);
            proof {
                let h = self.st().help;
                assert(h * counts(i as int) <= h * cf) by (nonlinear_arith)
                    requires
                        counts(i as int) <= cf,
                        h >= 0,
                ;
                assert(h * counts_diff(i as int) <= 0xFFFF * 19578) by (nonlinear_arith)
                    requires
                        h <= 0xFFFF,
                        counts_diff(i as int) <= 19578,
                ;
            }
            self.decode_update(self.count_at(i), self.count_diff_at(i));
            i as u32
        }
    }

    /// The largest model index whose cumulative count is at or below
    /// `cf`, found by binary search.
    fn search_symbol(&self, cf: u32) -> (i: usize)
        requires
            cf <= 65492,
        ensures
            i as int == symbol_index(cf),
            i <= 20,
    {
        let mut lo: usize = 0;
        let mut hi: usize = 20;
        while lo < hi
            invariant
                lo <= hi <= 20,
                counts(lo as int) <= cf,
                cf < counts(hi as int + 1),
            decreases hi - lo,
        {
            let mid = (lo + hi + 1) / 2;
            if self.count_at(mid) <= cf {
                lo = mid;
            } else {
                hi = mid - 1;
            }
        }
        lo
    }

    /// The cumulative count below index `i`.
    fn count_at(&self, i: usize) -> (r: u32)
        requires
            i <= 21,
        ensures
            r == counts(i as int),
    {
        match i {
            0 => 0,
            1 => 19578,
            2 => 36160,
            3 => 48417,
            4 => 56323,
            5 => 60899,
            6 => 63265,
            7 => 64435,
            8 => 64971,
            9 => 65232,
            10 => 65351,
            11 => 65416,
            12 => 65447,
            13 => 65466,
            14 => 65476,
            15 => 65482,
            16 => 65485,
            17 => 65488,
            18 => 65490,
            19 => 65491,
            20 => 65492,
            _ => 65493,
        }
    }

    /// The width of index `i`'s band.
    fn count_diff_at(&self, i: usize) -> (r: u32)
        requires
            i <= 20,
        ensures
            r == counts_diff(i as int),
    {
        let hi = self.count_at(i + 1);
        let lo = self.count_at(i);
        hi - lo
    }

    /// Decode the overflow count; symbol 63 escapes to a raw 32-bit
    /// count read as two 16-bit halves.
    fn get_overflow(&mut self) -> (o: u32)
        requires
            old(self).wf(),
        ensures
            final(self).wf(),
            final(self).bytes() == old(self).bytes(),
            final(self).st() == rc_get_overflow(old(self).bytes(), old(self).st()).0,
            o == rc_get_overflow(old(self).bytes(), old(self).st()).1,
    {
        let sym = self.get_symbol();
        if sym == 63 {
            let hi = self.decode_culshift(16);
            self.decode_update(hi, 1);
            let lo = self.decode_culshift(16);
            self.decode_update(lo, 1);
            (hi << 16u32) | lo
        } else {
            sym
        }
    }

    /// Decode one signed residual and move the Rice state along.
    pub fn decode_value(&mut self, rice: &mut RiceState) -> (v: i32)
        requires
            old(self).wf(),
            rice_wf(*old(rice)),
        ensures
            final(self).wf(),
            rice_wf(*final(rice)),
            final(self).bytes() == old(self).bytes(),
            final(self).st() == rc_decode_value(old(self).bytes(), old(self).st(), *old(rice)).0,
            *final(rice) == rc_decode_value(old(self).bytes(), old(self).st(), *old(rice)).1,
            v == rc_decode_value(old(self).bytes(), old(self).st(), *old(rice)).2,
    {
        let pivot = rice.pivot();
        let overflow = self.get_overflow();
        let base = self.decode_base(pivot);
        let x = base.wrapping_add(overflow.wrapping_mul(pivot));
        rice.update(x);
        if x & 1 == 1 {
            #[verifier::truncate]
            ((x >> 1u32).wrapping_add(1) as i32)
        } else {
            let h = (x >> 1u32);
            proof {
                assert((x >> 1u32) <= 0x7FFF_FFFF) by (bit_vector);
            }
            -(h as i32)
        }
    }

    /// Read the base part of a residual: one `culfreq(pivot)` read for
    /// small pivots, a 16-bit high part and a `bbits`-bit low part for
    /// large ones.
    fn decode_base(&mut self, pivot: u32) -> (base: u32)
        requires
            old(self).wf(),
            pivot >= 1,
        ensures
            final(self).wf(),
            final(self).bytes() == old(self).bytes(),
            final(self).st() == rc_decode_base(old(self).bytes(), old(self).st(), pivot).0,
            base == rc_decode_base(old(self).bytes(), old(self).st(), pivot).1,
    {
        if pivot < 0x10000 {
            let b = self.decode_culfreq(pivot);
            self.decode_update(b, 1);
            b
        } else {
            let bb = self.find_bbits(pivot);
            proof {
                assert(1 <= bb <= 16 ==> 1 <= (1u32 << bb) <= 0x1_0000) by (bit_vector);
            }
            let hi = self.decode_culfreq((pivot >> bb) + 1);
            self.decode_update(hi, 1);
            let lo = self.decode_culfreq(1u32 << bb);
            self.decode_update(lo, 1);
            (hi << bb).wrapping_add(lo)
        }
    }

    /// The smallest shift that brings `pivot` under 1 << 16.
    fn find_bbits(&self, pivot: u32) -> (bb: u32)
        requires
            pivot >= 0x10000,
        ensures
            bb as int == pivot_bbits(pivot),
            1 <= bb <= 16,
            (pivot >> bb) < 0x10000,
    {
        proof {
            assert(pivot >> 0u32 == pivot) by (bit_vector);
        }
        let mut bb: u32 = 0;
        let mut rest = pivot;
        while rest >= 0x10000
            invariant
                rest == pivot >> bb,
                bb <= 16,
                pivot_bbits(pivot) == bb + pivot_bbits(rest),
            decreases rest,
        {
            proof {
                let r0 = rest;
                let b0 = bb;
                assert(r0 >= 0x10000 ==> (r0 >> 1u32) < r0) by (bit_vector);
                assert(b0 <= 16 ==> (pivot >> b0) >> 1u32 == pivot >> ((b0 + 1) as u32))
                    by (bit_vector);
                assert(b0 <= 16 && (pivot >> b0) >= 0x10000 ==> b0 <= 15) by (bit_vector);
                assert(pivot_bbits(r0) == 1 + pivot_bbits(r0 >> 1u32));
            }
            rest = rest >> 1u32;
            bb = bb + 1;
        }
        proof {
            assert(pivot >> 0u32 == pivot) by (bit_vector);
        }
        bb
    }

    /// The cursor's byte position in the compressed data.
    pub fn position(&self) -> (r: usize)
        ensures
            r as int == self.st().pos,
    {
        self.pos
    }
}

} // verus!
