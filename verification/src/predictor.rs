//! Adaptive linear predictor: the long-term correlation stage.
//!
//! Per channel the predictor reverses an IIR feedback accumulator, a
//! four-tap FIR over the delay ring, in stereo a five-tap cross-channel
//! FIR, and finally the joint-stereo decorrelation.  All arithmetic is
//! two's-complement 64-bit with wrap on overflow; right shifts of
//! negative values sign-extend.

use vstd::prelude::*;

verus! {

use crate::nnfilter::sgn;

/// Live window of the delay ring.
pub const HISTORY_SIZE: usize = 512;

/// Tail kept across a ring wrap.
pub const PREDICTOR_SIZE: usize = 50;

/// Delay offsets relative to the ring cursor, channel Y then X.
pub const YDELAYA: usize = 50;

pub const YDELAYB: usize = 42;

pub const XDELAYA: usize = 34;

pub const XDELAYB: usize = 26;

/// Adaptation-sign offsets relative to the ring cursor.
pub const YADAPTCOEFFSA: usize = 18;

pub const XADAPTCOEFFSA: usize = 14;

pub const YADAPTCOEFFSB: usize = 10;

pub const XADAPTCOEFFSB: usize = 5;

/// Wrapping 64-bit sum.
pub open spec fn wadd(a: i64, b: i64) -> i64 {
    vstd::wrapping::i64_specs::wrapping_add(a, b)
}

/// Wrapping 64-bit difference.
pub open spec fn wsub(a: i64, b: i64) -> i64 {
    vstd::wrapping::i64_specs::wrapping_sub(a, b)
}

/// Wrapping 64-bit product.
pub open spec fn wmul(a: i64, b: i64) -> i64 {
    vstd::wrapping::i64_specs::wrapping_mul(a, b)
}

/// Sign of a 64-bit value, as a 64-bit value.
pub open spec fn sgn64(x: i64) -> i64 {
    sgn(x as int) as i64
}

/// Truncating division by two, as the stereo decorrelation uses it:
/// rounding is toward zero, also for negative values.
pub open spec fn tdiv2(y: i64) -> i64 {
    (if y >= 0 {
        (y as int) / 2
    } else {
        -((-(y as int)) / 2)
    }) as i64
}

/// The predictor as specifications see it.  Channel arrays sit flat:
/// `coeffs_a[4 * ch + j]` and `coeffs_b[5 * ch + j]`.
pub ghost struct PredModel {
    pub buf: Seq<i64>,
    pub buf_pos: int,
    pub last_a: Seq<i64>,
    pub filter_a: Seq<i64>,
    pub filter_b: Seq<i64>,
    pub coeffs_a: Seq<i64>,
    pub coeffs_b: Seq<i64>,
}

/// Shapes and cursor of the predictor hold together.
pub open spec fn pred_wf(p: PredModel) -> bool {
    &&& p.buf.len() == HISTORY_SIZE + PREDICTOR_SIZE
    &&& 0 <= p.buf_pos < HISTORY_SIZE
    &&& p.last_a.len() == 2
    &&& p.filter_a.len() == 2
    &&& p.filter_b.len() == 2
    &&& p.coeffs_a.len() == 8
    &&& p.coeffs_b.len() == 10
}

/// A freshly built or reset predictor: cleared ring and accumulators,
/// the four-tap coefficients at their seed values.
pub open spec fn pred_init() -> PredModel {
    PredModel {
        buf: Seq::new((HISTORY_SIZE + PREDICTOR_SIZE) as nat, |i: int| 0i64),
        buf_pos: 0,
        last_a: seq![0i64, 0i64],
        filter_a: seq![0i64, 0i64],
        filter_b: seq![0i64, 0i64],
        coeffs_a: seq![360i64, 317i64, -109i64, 98i64, 360i64, 317i64, -109i64, 98i64],
        coeffs_b: seq![0i64, 0i64, 0i64, 0i64, 0i64, 0i64, 0i64, 0i64, 0i64, 0i64],
    }
}

/// The ring after the cursor moves: on reaching the window's end the
/// tail slides to the front and the rest clears.
pub open spec fn advanced_buf(b: Seq<i64>, bp: int) -> Seq<i64> {
    if bp + 1 == HISTORY_SIZE {
        Seq::new(
            (HISTORY_SIZE + PREDICTOR_SIZE) as nat,
            |i: int|
                if i < PREDICTOR_SIZE {
                    b[HISTORY_SIZE + i]
                } else {
                    0i64
                },
        )
    } else {
        b
    }
}

/// The cursor after one block.
pub open spec fn advanced_pos(bp: int) -> int {
    if bp + 1 == HISTORY_SIZE {
        0
    } else {
        bp + 1
    }
}

/// One mono block through the predictor: write the delay and its delta,
/// guess from four taps, add the guess to the input, adapt the
/// coefficients by the stored signs, slide the ring, and run the IIR
/// feedback whose value is the sample.
pub open spec fn pred_mono_step(p: PredModel, input: i32) -> (PredModel, i32) {
    let a = input as i64;
    let bp = p.buf_pos;
    let b1 = p.buf.update(bp + YDELAYA, p.last_a[0]);
    let b2 = b1.update(bp + YDELAYA - 1, wsub(b1[bp + YDELAYA], b1[bp + YDELAYA - 1]));
    let pa = wadd(
        wadd(
            wadd(
                wmul(b2[bp + YDELAYA], p.coeffs_a[0]),
                wmul(b2[bp + YDELAYA - 1], p.coeffs_a[1]),
            ),
            wmul(b2[bp + YDELAYA - 2], p.coeffs_a[2]),
        ),
        wmul(b2[bp + YDELAYA - 3], p.coeffs_a[3]),
    );
    let cur = wadd(a, pa >> 10u64);
    let la = p.last_a.update(0, cur);
    let b3 = b2.update(bp + YADAPTCOEFFSA, sgn64(b2[bp + YDELAYA]));
    let b4 = b3.update(bp + YADAPTCOEFFSA - 1, sgn64(b3[bp + YDELAYA - 1]));
    let s = sgn64(a);
    let ca = if s != 0 {
        p.coeffs_a.update(0, wadd(p.coeffs_a[0], wmul(b4[bp + YADAPTCOEFFSA], s))).update(
            1,
            wadd(p.coeffs_a[1], wmul(b4[bp + YADAPTCOEFFSA - 1], s)),
        ).update(2, wadd(p.coeffs_a[2], wmul(b4[bp + YADAPTCOEFFSA - 2], s))).update(
            3,
            wadd(p.coeffs_a[3], wmul(b4[bp + YADAPTCOEFFSA - 3], s)),
        )
    } else {
        p.coeffs_a
    };
    let fa = p.filter_a.update(0, wadd(cur, wmul(p.filter_a[0], 31) >> 5u64));
    (
        PredModel {
            buf: advanced_buf(b4, bp),
            buf_pos: advanced_pos(bp),
            last_a: la,
            filter_a: fa,
            filter_b: p.filter_b,
            coeffs_a: ca,
            coeffs_b: p.coeffs_b,
        },
        fa[0] as i32,
    )
}

/// One channel of a stereo block: filter A as in mono, filter B fed by
/// the other channel's accumulator, both guesses joined, both
/// coefficient sets adapted.  The value is the channel's accumulator.
pub open spec fn pred_filter_step(
    p: PredModel,
    decoded: i64,
    ch: int,
    da: int,
    db: int,
    aa: int,
    ab: int,
) -> (PredModel, i64) {
    let bp = p.buf_pos;
    let b1 = p.buf.update(bp + da, p.last_a[ch]);
    let b2 = b1.update(bp + aa, sgn64(b1[bp + da]));
    let b3 = b2.update(bp + da - 1, wsub(b2[bp + da], b2[bp + da - 1]));
    let b4 = b3.update(bp + aa - 1, sgn64(b3[bp + da - 1]));
    let pa = wadd(
        wadd(
            wadd(wmul(b4[bp + da], p.coeffs_a[4 * ch]), wmul(b4[bp + da - 1], p.coeffs_a[4 * ch + 1])),
            wmul(b4[bp + da - 2], p.coeffs_a[4 * ch + 2]),
        ),
        wmul(b4[bp + da - 3], p.coeffs_a[4 * ch + 3]),
    );
    let b5 = b4.update(bp + db, wsub(p.filter_a[1 - ch], wmul(p.filter_b[ch], 31) >> 5u64));
    let b6 = b5.update(bp + ab, sgn64(b5[bp + db]));
    let b7 = b6.update(bp + db - 1, wsub(b6[bp + db], b6[bp + db - 1]));
    let b8 = b7.update(bp + ab - 1, sgn64(b7[bp + db - 1]));
    let fb = p.filter_b.update(ch, p.filter_a[1 - ch]);
    let pb = wadd(
        wadd(
            wadd(
                wadd(
                    wmul(b8[bp + db], p.coeffs_b[5 * ch]),
                    wmul(b8[bp + db - 1], p.coeffs_b[5 * ch + 1]),
                ),
                wmul(b8[bp + db - 2], p.coeffs_b[5 * ch + 2]),
            ),
            wmul(b8[bp + db - 3], p.coeffs_b[5 * ch + 3]),
        ),
        wmul(b8[bp + db - 4], p.coeffs_b[5 * ch + 4]),
    );
    let la_v = wadd(decoded, wadd(pa, pb >> 1u64) >> 10u64);
    let la = p.last_a.update(ch, la_v);
    let fa_v = wadd(la_v, wmul(p.filter_a[ch], 31) >> 5u64);
    let fa = p.filter_a.update(ch, fa_v);
    let s = sgn64(decoded);
    let ca = if s != 0 {
        p.coeffs_a.update(4 * ch, wadd(p.coeffs_a[4 * ch], wmul(b8[bp + aa], s))).update(
            4 * ch + 1,
            wadd(p.coeffs_a[4 * ch + 1], wmul(b8[bp + aa - 1], s)),
        ).update(4 * ch + 2, wadd(p.coeffs_a[4 * ch + 2], wmul(b8[bp + aa - 2], s))).update(
            4 * ch + 3,
            wadd(p.coeffs_a[4 * ch + 3], wmul(b8[bp + aa - 3], s)),
        )
    } else {
        p.coeffs_a
    };
    let cb = if s != 0 {
        p.coeffs_b.update(5 * ch, wadd(p.coeffs_b[5 * ch], wmul(b8[bp + ab], s))).update(
            5 * ch + 1,
            wadd(p.coeffs_b[5 * ch + 1], wmul(b8[bp + ab - 1], s)),
        ).update(5 * ch + 2, wadd(p.coeffs_b[5 * ch + 2], wmul(b8[bp + ab - 2], s))).update(
            5 * ch + 3,
            wadd(p.coeffs_b[5 * ch + 3], wmul(b8[bp + ab - 3], s)),
        ).update(5 * ch + 4, wadd(p.coeffs_b[5 * ch + 4], wmul(b8[bp + ab - 4], s)))
    } else {
        p.coeffs_b
    };
    (
        PredModel {
            buf: b8,
            buf_pos: bp,
            last_a: la,
            filter_a: fa,
            filter_b: fb,
            coeffs_a: ca,
            coeffs_b: cb,
        },
        fa_v,
    )
}

/// One stereo block: channel Y, then channel X, one ring advance, then
/// the inverse decorrelation into left and right.
pub open spec fn pred_stereo_step(p: PredModel, input_y: i32, input_x: i32) -> (
    PredModel,
    i32,
    i32,
) {
    let ry = pred_filter_step(
        p,
        input_y as i64,
        0,
        YDELAYA as int,
        YDELAYB as int,
        YADAPTCOEFFSA as int,
        YADAPTCOEFFSB as int,
    );
    let rx = pred_filter_step(
        ry.0,
        input_x as i64,
        1,
        XDELAYA as int,
        XDELAYB as int,
        XADAPTCOEFFSA as int,
        XADAPTCOEFFSB as int,
    );
    let p2 = rx.0;
    let bp = p2.buf_pos;
    let p3 = PredModel {
        buf: advanced_buf(p2.buf, bp),
        buf_pos: advanced_pos(bp),
        last_a: p2.last_a,
        filter_a: p2.filter_a,
        filter_b: p2.filter_b,
        coeffs_a: p2.coeffs_a,
        coeffs_b: p2.coeffs_b,
    };
    let left = wsub(rx.1, tdiv2(ry.1)) as i32;
    let right = vstd::wrapping::i32_specs::wrapping_add(left, ry.1 as i32);
    (p3, left, right)
}

/// Sign of a 64-bit value: 1 for positive, -1 for negative, 0 for zero.
pub fn apesign(x: i64) -> (r: i64)
    ensures
        r == sgn64(x),
{
    if x > 0 {
        1
    } else if x < 0 {
        -1
    } else {
        0
    }
}

/// The adaptive predictor of one decoder, mono or stereo.
pub struct Predictor {
    /// Delay ring: live window plus the tail kept across a wrap.
    buf: Vec<i64>,
    /// Ring cursor.
    buf_pos: usize,
    /// Last reconstructed value, per channel.
    last_a: Vec<i64>,
    /// IIR feedback accumulator, per channel.
    filter_a: Vec<i64>,
    /// Cross-channel accumulator, per channel.
    filter_b: Vec<i64>,
    /// Four-tap coefficients, flat: `[4 * ch + j]`.
    coeffs_a: Vec<i64>,
    /// Five-tap coefficients, flat: `[5 * ch + j]`.
    coeffs_b: Vec<i64>,
}

/// A vector of `n` zeroed 64-bit words.
fn zero_vec(n: usize) -> (r: Vec<i64>)
    ensures
        r@ =~= Seq::new(n as nat, |i: int| 0i64),
{
    let mut v: Vec<i64> = Vec::new();
    let mut i: usize = 0;
    while i < n
        invariant
            i <= n,
            v@ =~= Seq::new(i as nat, |j: int| 0i64),
        decreases n - i,
    {
        v.push(0);
        i = i + 1;
    }
    v
}

impl Predictor {
    /// The predictor as the ghost model sees it.
    pub closed spec fn view(&self) -> PredModel {
        PredModel {
            buf: self.buf@,
            buf_pos: self.buf_pos as int,
            last_a: self.last_a@,
            filter_a: self.filter_a@,
            filter_b: self.filter_b@,
            coeffs_a: self.coeffs_a@,
            coeffs_b: self.coeffs_b@,
        }
    }

    /// The predictor's shapes and cursor hold together.
    pub open spec fn wf(&self) -> bool {
        pred_wf(self.view())
    }

    /// A fresh predictor in its initial state.
    pub fn new() -> (r: Predictor)
        ensures
            r.wf(),
            r.view() == pred_init(),
    {
        let buf = zero_vec(HISTORY_SIZE + PREDICTOR_SIZE);
        let last_a = zero_vec(2);
        let filter_a = zero_vec(2);
        let filter_b = zero_vec(2);
        let mut coeffs_a: Vec<i64> = Vec::new();
        coeffs_a.push(360);
        coeffs_a.push(317);
        coeffs_a.push(-109);
        coeffs_a.push(98);
        coeffs_a.push(360);
        coeffs_a.push(317);
        coeffs_a.push(-109);
        coeffs_a.push(98);
        let coeffs_b = zero_vec(10);
        let r = Predictor { buf, buf_pos: 0, last_a, filter_a, filter_b, coeffs_a, coeffs_b };
        proof {
            assert(r.view().coeffs_a =~= pred_init().coeffs_a);
            assert(r.view().last_a =~= pred_init().last_a);
            assert(r.view().filter_a =~= pred_init().filter_a);
            assert(r.view().filter_b =~= pred_init().filter_b);
            assert(r.view().coeffs_b =~= pred_init().coeffs_b);
            assert(r.view() == pred_init());
        }
        r
    }

    /// Back to the initial state, as a frame boundary demands.
    pub fn reset(&mut self)
        requires
            old(self).wf(),
        ensures
            final(self).wf(),
            final(self).view() == pred_init(),
    {
        let fresh = Predictor::new();
        *self = fresh;
    }

    /// Decode one mono block; the value is the reconstructed sample.
    pub fn decode_mono(&mut self, input: i32) -> (r: i32)
        requires
            old(self).wf(),
        ensures
            final(self).wf(),
            final(self).view() == pred_mono_step(old(self).view(), input).0,
            r == pred_mono_step(old(self).view(), input).1,
    {
        let a = input as i64;
        let bp = self.buf_pos;

        let la0 = self.last_a[0];
        self.buf[bp + YDELAYA] = la0;
        let delta = self.buf[bp + YDELAYA].wrapping_sub(self.buf[bp + YDELAYA - 1]);
        self.buf[bp + YDELAYA - 1] = delta;

        let pa = self.buf[bp + YDELAYA].wrapping_mul(self.coeffs_a[0]).wrapping_add(
            self.buf[bp + YDELAYA - 1].wrapping_mul(self.coeffs_a[1]),
        ).wrapping_add(self.buf[bp + YDELAYA - 2].wrapping_mul(self.coeffs_a[2])).wrapping_add(
            self.buf[bp + YDELAYA - 3].wrapping_mul(self.coeffs_a[3]),
        );
        let cur = a.wrapping_add(pa >> 10u64);
        self.last_a[0] = cur;

        let sd = apesign(self.buf[bp + YDELAYA]);
        self.buf[bp + YADAPTCOEFFSA] = sd;
        let sd1 = apesign(self.buf[bp + YDELAYA - 1]);
        self.buf[bp + YADAPTCOEFFSA - 1] = sd1;

        let sign = apesign(a);
        if sign != 0 {
            let c0 = self.coeffs_a[0].wrapping_add(self.buf[bp + YADAPTCOEFFSA].wrapping_mul(sign));
            self.coeffs_a[0] = c0;
            let c1 = self.coeffs_a[1].wrapping_add(
                self.buf[bp + YADAPTCOEFFSA - 1].wrapping_mul(sign),
            );
            self.coeffs_a[1] = c1;
            let c2 = self.coeffs_a[2].wrapping_add(
                self.buf[bp + YADAPTCOEFFSA - 2].wrapping_mul(sign),
            );
            self.coeffs_a[2] = c2;
            let c3 = self.coeffs_a[3].wrapping_add(
                self.buf[bp + YADAPTCOEFFSA - 3].wrapping_mul(sign),
            );
            self.coeffs_a[3] = c3;
        }

        self.advance();

        let f0 = cur.wrapping_add(self.filter_a[0].wrapping_mul(31) >> 5u64);
        self.filter_a[0] = f0;
        proof {
            let m = pred_mono_step(old(self).view(), input).0;
            assert(self.buf@ =~= m.buf);
            assert(self.last_a@ =~= m.last_a);
            assert(self.filter_a@ =~= m.filter_a);
            assert(self.coeffs_a@ =~= m.coeffs_a);
            assert(self.view() == m);
        }
        #[verifier::truncate]
        (f0 as i32)
    }

    /// Decode one stereo block; the values are the left and right
    /// samples, in that order.
    pub fn decode_stereo(&mut self, input_y: i32, input_x: i32) -> (r: (i32, i32))
        requires
            old(self).wf(),
        ensures
            final(self).wf(),
            final(self).view() == pred_stereo_step(old(self).view(), input_y, input_x).0,
            r.0 == pred_stereo_step(old(self).view(), input_y, input_x).1,
            r.1 == pred_stereo_step(old(self).view(), input_y, input_x).2,
    {
        let decoded_y = self.update_filter(
            input_y as i64,
            0,
            YDELAYA,
            YDELAYB,
            YADAPTCOEFFSA,
            YADAPTCOEFFSB,
        );
        let decoded_x = self.update_filter(
            input_x as i64,
            1,
            XDELAYA,
            XDELAYB,
            XADAPTCOEFFSA,
            XADAPTCOEFFSB,
        );

        self.advance();

        let half_y = decoded_y / 2;
        let left64 = decoded_x.wrapping_sub(half_y);
        let left = #[verifier::truncate] (left64 as i32);
        let y32 = #[verifier::truncate] (decoded_y as i32);
        let right = left.wrapping_add(y32);
        proof {
            let m = pred_stereo_step(old(self).view(), input_y, input_x).0;
            assert(self.buf@ =~= m.buf);
            assert(self.view() == m);
        }
        (left, right)
    }

    /// Move the ring cursor one block on; at the window's end the tail
    /// slides to the front and the rest clears.
    fn advance(&mut self)
        requires
            old(self).wf(),
        ensures
            final(self).wf(),
            final(self).view().buf =~= advanced_buf(old(self).view().buf, old(self).view().buf_pos),
            final(self).view().buf_pos == advanced_pos(old(self).view().buf_pos),
            final(self).last_a@ == old(self).last_a@,
            final(self).filter_a@ == old(self).filter_a@,
            final(self).filter_b@ == old(self).filter_b@,
            final(self).coeffs_a@ == old(self).coeffs_a@,
            final(self).coeffs_b@ == old(self).coeffs_b@,
    {
        self.buf_pos = self.buf_pos + 1;
        if self.buf_pos == HISTORY_SIZE {
            let ghost b0 = self.buf@;
            let mut i: usize = 0;
            while i < PREDICTOR_SIZE
                invariant
                    i <= PREDICTOR_SIZE,
                    self.buf@.len() == HISTORY_SIZE + PREDICTOR_SIZE,
                    self.buf_pos == HISTORY_SIZE,
                    self.last_a@ == old(self).last_a@,
                    self.filter_a@ == old(self).filter_a@,
                    self.filter_b@ == old(self).filter_b@,
                    self.coeffs_a@ == old(self).coeffs_a@,
                    self.coeffs_b@ == old(self).coeffs_b@,
                    forall|j: int| 0 <= j < i ==> self.buf@[j] == b0[HISTORY_SIZE + j],
                    forall|j: int|
                        i <= j < HISTORY_SIZE + PREDICTOR_SIZE ==> self.buf@[j] == b0[j],
                decreases PREDICTOR_SIZE - i,
            {
                let v = self.buf[HISTORY_SIZE + i];
                self.buf[i] = v;
                i = i + 1;
            }
            let mut i: usize = PREDICTOR_SIZE;
            while i < HISTORY_SIZE + PREDICTOR_SIZE
                invariant
                    PREDICTOR_SIZE <= i <= HISTORY_SIZE + PREDICTOR_SIZE,
                    self.buf@.len() == HISTORY_SIZE + PREDICTOR_SIZE,
                    self.buf_pos == HISTORY_SIZE,
                    self.last_a@ == old(self).last_a@,
                    self.filter_a@ == old(self).filter_a@,
                    self.filter_b@ == old(self).filter_b@,
                    self.coeffs_a@ == old(self).coeffs_a@,
                    self.coeffs_b@ == old(self).coeffs_b@,
                    forall|j: int| 0 <= j < PREDICTOR_SIZE ==> self.buf@[j] == b0[HISTORY_SIZE + j],
                    forall|j: int| PREDICTOR_SIZE <= j < i ==> self.buf@[j] == 0i64,
                decreases HISTORY_SIZE + PREDICTOR_SIZE - i,
            {
                self.buf[i] = 0;
                i = i + 1;
            }
            self.buf_pos = 0;
        }
    }

    /// One channel of a stereo block; `ch` selects the channel and the
    /// offsets select its slots in the ring.
    #[verifier::rlimit(100)]
    fn update_filter(
        &mut self,
        decoded: i64,
        ch: usize,
        delay_a: usize,
        delay_b: usize,
        adapt_a: usize,
        adapt_b: usize,
    ) -> (r: i64)
        requires
            old(self).wf(),
            (ch == 0 && delay_a == YDELAYA && delay_b == YDELAYB && adapt_a == YADAPTCOEFFSA
                && adapt_b == YADAPTCOEFFSB) || (ch == 1 && delay_a == XDELAYA && delay_b == XDELAYB
                && adapt_a == XADAPTCOEFFSA && adapt_b == XADAPTCOEFFSB),
        ensures
            final(self).wf(),
            final(self).view() == pred_filter_step(
                old(self).view(),
                decoded,
                ch as int,
                delay_a as int,
                delay_b as int,
                adapt_a as int,
                adapt_b as int,
            ).0,
            r == pred_filter_step(
                old(self).view(),
                decoded,
                ch as int,
                delay_a as int,
                delay_b as int,
                adapt_a as int,
                adapt_b as int,
            ).1,
    {
        let bp = self.buf_pos;

        // Filter A: own-channel delay, sign, delta, delta's sign.
        let la = self.last_a[ch];
        self.buf[bp + delay_a] = la;
        let sda = apesign(self.buf[bp + delay_a]);
        self.buf[bp + adapt_a] = sda;
        let delta = self.buf[bp + delay_a].wrapping_sub(self.buf[bp + delay_a - 1]);
        self.buf[bp + delay_a - 1] = delta;
        let sda1 = apesign(self.buf[bp + delay_a - 1]);
        self.buf[bp + adapt_a - 1] = sda1;

        let pa = self.buf[bp + delay_a].wrapping_mul(self.coeffs_a[4 * ch]).wrapping_add(
            self.buf[bp + delay_a - 1].wrapping_mul(self.coeffs_a[4 * ch + 1]),
        ).wrapping_add(self.buf[bp + delay_a - 2].wrapping_mul(self.coeffs_a[4 * ch + 2]))
            .wrapping_add(self.buf[bp + delay_a - 3].wrapping_mul(self.coeffs_a[4 * ch + 3]));

        // Filter B: cross-channel accumulator, sign, delta, delta's sign.
        let other = self.filter_a[1 - ch];
        let vb = other.wrapping_sub(self.filter_b[ch].wrapping_mul(31) >> 5u64);
        self.buf[bp + delay_b] = vb;
        let sdb = apesign(self.buf[bp + delay_b]);
        self.buf[bp + adapt_b] = sdb;
        let deltab = self.buf[bp + delay_b].wrapping_sub(self.buf[bp + delay_b - 1]);
        self.buf[bp + delay_b - 1] = deltab;
        let sdb1 = apesign(self.buf[bp + delay_b - 1]);
        self.buf[bp + adapt_b - 1] = sdb1;
        self.filter_b[ch] = other;

        let pb = self.buf[bp + delay_b].wrapping_mul(self.coeffs_b[5 * ch]).wrapping_add(
            self.buf[bp + delay_b - 1].wrapping_mul(self.coeffs_b[5 * ch + 1]),
        ).wrapping_add(self.buf[bp + delay_b - 2].wrapping_mul(self.coeffs_b[5 * ch + 2]))
            .wrapping_add(self.buf[bp + delay_b - 3].wrapping_mul(self.coeffs_b[5 * ch + 3]))
            .wrapping_add(self.buf[bp + delay_b - 4].wrapping_mul(self.coeffs_b[5 * ch + 4]));

        // Reconstruct, then the IIR feedback.
        let la_v = decoded.wrapping_add(pa.wrapping_add(pb >> 1u64) >> 10u64);
        self.last_a[ch] = la_v;
        let fa_v = la_v.wrapping_add(self.filter_a[ch].wrapping_mul(31) >> 5u64);
        self.filter_a[ch] = fa_v;

        // Adapt both coefficient sets by the stored signs.
        let sign = apesign(decoded);
        if sign != 0 {
            let a0 = self.coeffs_a[4 * ch].wrapping_add(
                self.buf[bp + adapt_a].wrapping_mul(sign),
            );
            self.coeffs_a[4 * ch] = a0;
            let a1 = self.coeffs_a[4 * ch + 1].wrapping_add(
                self.buf[bp + adapt_a - 1].wrapping_mul(sign),
            );
            self.coeffs_a[4 * ch + 1] = a1;
            let a2 = self.coeffs_a[4 * ch + 2].wrapping_add(
                self.buf[bp + adapt_a - 2].wrapping_mul(sign),
            );
            self.coeffs_a[4 * ch + 2] = a2;
            let a3 = self.coeffs_a[4 * ch + 3].wrapping_add(
                self.buf[bp + adapt_a - 3].wrapping_mul(sign),
            );
            self.coeffs_a[4 * ch + 3] = a3;

            let b0 = self.coeffs_b[5 * ch].wrapping_add(
                self.buf[bp + adapt_b].wrapping_mul(sign),
            );
            self.coeffs_b[5 * ch] = b0;
            let b1 = self.coeffs_b[5 * ch + 1].wrapping_add(
                self.buf[bp + adapt_b - 1].wrapping_mul(sign),
            );
            self.coeffs_b[5 * ch + 1] = b1;
            let b2 = self.coeffs_b[5 * ch + 2].wrapping_add(
                self.buf[bp + adapt_b - 2].wrapping_mul(sign),
            );
            self.coeffs_b[5 * ch + 2] = b2;
            let b3 = self.coeffs_b[5 * ch + 3].wrapping_add(
                self.buf[bp + adapt_b - 3].wrapping_mul(sign),
            );
            self.coeffs_b[5 * ch + 3] = b3;
            let b4 = self.coeffs_b[5 * ch + 4].wrapping_add(
                self.buf[bp + adapt_b - 4].wrapping_mul(sign),
            );
            self.coeffs_b[5 * ch + 4] = b4;
        }
        proof {
            let m = pred_filter_step(
                old(self).view(),
                decoded,
                ch as int,
                delay_a as int,
                delay_b as int,
                adapt_a as int,
                adapt_b as int,
            ).0;
            assert(self.buf@ =~= m.buf);
            assert(self.last_a@ =~= m.last_a);
            assert(self.filter_a@ =~= m.filter_a);
            assert(self.filter_b@ =~= m.filter_b);
            assert(self.coeffs_a@ =~= m.coeffs_a);
            assert(self.coeffs_b@ =~= m.coeffs_b);
            assert(self.view() == m);
        }
        fa_v
    }
}

} // verus!
