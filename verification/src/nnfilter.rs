//! Adaptive FIR filter cascade: the short-term correlation stage.
//!
//! Each stage keeps a ring of its own past outputs and a coefficient set
//! stepped by the sign-sign rule: every coefficient moves by the stored
//! sign of a prior output, scaled by nothing but the per-level shift.

use vstd::prelude::*;

verus! {

/// Most stages a compression level can ask for.
pub const MAX_STAGES: usize = 3;

/// Sign of a value: 1 for positive, -1 for negative, 0 for zero.
pub open spec fn sgn(x: int) -> int {
    if x > 0 {
        1
    } else if x < 0 {
        -1
    } else {
        0
    }
}

/// Saturation of a wide value into the 16-bit signed range.
pub open spec fn sat_i16(x: int) -> i16 {
    if x > 32767 {
        32767i16
    } else if x < -32768 {
        -32768i16
    } else {
        x as i16
    }
}

/// Dot product of the first `n` coefficients with the history window
/// that starts at `hs`.
pub open spec fn stage_dot(c: Seq<i16>, h: Seq<i16>, hs: int, n: int) -> int
    decreases n,
{
    if n <= 0 {
        0
    } else {
        stage_dot(c, h, hs, n - 1) + c[n - 1] * h[hs + n - 1]
    }
}

/// Every coefficient stepped by `sign` times its stored adaptation sign,
/// saturating in 16 bits.
pub open spec fn adapted(c: Seq<i16>, a: Seq<i16>, hs: int, sign: int) -> Seq<i16> {
    Seq::new(c.len(), |i: int| sat_i16(c[i] + sign * a[hs + i]))
}

/// One filter stage as specifications see it.
pub ghost struct StageModel {
    pub order: int,
    pub fracbits: u8,
    pub coeffs: Seq<i16>,
    pub adapt_coeffs: Seq<i16>,
    pub history: Seq<i16>,
    pub delay_pos: int,
}

/// Shapes and cursor of a stage hold together.
pub open spec fn stage_wf(s: StageModel) -> bool {
    &&& 0 <= s.order <= 65536
    &&& s.fracbits < 64
    &&& s.coeffs.len() == s.order
    &&& s.adapt_coeffs.len() == 2 * s.order
    &&& s.history.len() == 2 * s.order
    &&& s.order > 0 ==> s.order <= s.delay_pos < 2 * s.order
    &&& s.order == 0 ==> s.delay_pos == 0
}

/// A freshly built or reset stage: cleared rings, cursor at `order`.
pub open spec fn stage_init(order: int, fracbits: u8) -> StageModel {
    StageModel {
        order,
        fracbits,
        coeffs: Seq::new(order as nat, |i: int| 0i16),
        adapt_coeffs: Seq::new((2 * order) as nat, |i: int| 0i16),
        history: Seq::new((2 * order) as nat, |i: int| 0i16),
        delay_pos: if order == 0 {
            0
        } else {
            order
        },
    }
}

/// One stage absorbing one value: add the filter's guess to the input,
/// step the coefficients by the sign-sign rule, remember the output's
/// clamped value and sign, and slide the rings.
pub open spec fn stage_step(s: StageModel, input: i32) -> (StageModel, i32) {
    if s.order == 0 {
        (s, input)
    } else {
        let hs = s.delay_pos - s.order;
        let sum = stage_dot(s.coeffs, s.history, hs, s.order);
        let filtered = ((sum as i64) >> (s.fracbits as u64)) as i32;
        let output = vstd::wrapping::i32_specs::wrapping_add(input, filtered);
        let sign = sgn(input as int);
        let c1 = if sign != 0 {
            adapted(s.coeffs, s.adapt_coeffs, hs, sign)
        } else {
            s.coeffs
        };
        let h1 = s.history.update(s.delay_pos, sat_i16(output as int));
        let a1 = s.adapt_coeffs.update(s.delay_pos, sgn(output as int) as i16);
        if s.delay_pos + 1 == 2 * s.order {
            (
                StageModel {
                    order: s.order,
                    fracbits: s.fracbits,
                    coeffs: c1,
                    adapt_coeffs: Seq::new(
                        (2 * s.order) as nat,
                        |i: int|
                            if i < s.order {
                                a1[s.order + i]
                            } else {
                                a1[i]
                            },
                    ),
                    history: Seq::new(
                        (2 * s.order) as nat,
                        |i: int|
                            if i < s.order {
                                h1[s.order + i]
                            } else {
                                h1[i]
                            },
                    ),
                    delay_pos: s.order,
                },
                output,
            )
        } else {
            (
                StageModel {
                    order: s.order,
                    fracbits: s.fracbits,
                    coeffs: c1,
                    adapt_coeffs: a1,
                    history: h1,
                    delay_pos: s.delay_pos + 1,
                },
                output,
            )
        }
    }
}

/// The sign-sign step keeps a stage well formed.
pub proof fn lemma_stage_step_wf(s: StageModel, input: i32)
    requires
        stage_wf(s),
    ensures
        stage_wf(stage_step(s, input).0),
{
}

/// A reset lands in a state that another reset keeps: the state after
/// a reset depends only on the stage's shape, and a reset keeps the
/// shape.
pub proof fn lemma_stage_reset_idempotent(s: StageModel)
    ensures
        ({
            let once = stage_init(s.order, s.fracbits);
            stage_init(once.order, once.fracbits) == once
        }),
{
}

/// One stage of the adaptive FIR filter.
pub struct NNFilterStage {
    /// Number of taps.
    order: usize,
    /// Right shift applied to the dot product.
    fracbits: u8,
    /// Filter coefficients, one per tap.
    coeffs: Vec<i16>,
    /// Stored signs of prior outputs, driving adaptation.
    adapt_coeffs: Vec<i16>,
    /// Ring of clamped prior outputs, twice the window size.
    history: Vec<i16>,
    /// Write cursor into the rings.
    delay_pos: usize,
}

impl NNFilterStage {
    /// The stage as the ghost model sees it.
    pub closed spec fn view(&self) -> StageModel {
        StageModel {
            order: self.order as int,
            fracbits: self.fracbits,
            coeffs: self.coeffs@,
            adapt_coeffs: self.adapt_coeffs@,
            history: self.history@,
            delay_pos: self.delay_pos as int,
        }
    }

    /// The stage's shapes and cursor hold together.
    pub open spec fn wf(&self) -> bool {
        stage_wf(self.view())
    }

    /// Build a stage with `order` taps, everything cleared.
    pub fn new(order: usize, fracbits: u8) -> (r: NNFilterStage)
        requires
            order <= 65536,
            fracbits < 64,
        ensures
            r.wf(),
            r.view() == stage_init(order as int, fracbits),
    {
        let mut coeffs: Vec<i16> = Vec::new();
        let mut adapt_coeffs: Vec<i16> = Vec::new();
        let mut history: Vec<i16> = Vec::new();
        let mut i: usize = 0;
        while i < order
            invariant
                i <= order,
                coeffs@ =~= Seq::new(i as nat, |j: int| 0i16),
            decreases order - i,
        {
            coeffs.push(0);
            i = i + 1;
        }
        let mut i: usize = 0;
        while i < 2 * order
            invariant
                order <= 65536,
                i <= 2 * order,
                adapt_coeffs@ =~= Seq::new(i as nat, |j: int| 0i16),
                history@ =~= Seq::new(i as nat, |j: int| 0i16),
            decreases 2 * order - i,
        {
            adapt_coeffs.push(0);
            history.push(0);
            i = i + 1;
        }
        NNFilterStage { order, fracbits, coeffs, adapt_coeffs, history, delay_pos: order }
    }

    /// Clear the rings and coefficients and park the cursor at `order`,
    /// as a frame boundary demands.
    pub fn reset(&mut self)
        requires
            old(self).wf(),
        ensures
            final(self).wf(),
            final(self).view() == stage_init(old(self).view().order, old(self).view().fracbits),
    {
        let order = self.order;
        let mut i: usize = 0;
        while i < order
            invariant
                i <= order,
                self.order == order,
                self.fracbits == old(self).fracbits,
                self.coeffs@.len() == order,
                self.adapt_coeffs@ == old(self).adapt_coeffs@,
                self.history@ == old(self).history@,
                self.delay_pos == old(self).delay_pos,
                forall|j: int| 0 <= j < i ==> self.coeffs@[j] == 0i16,
            decreases order - i,
        {
            self.coeffs[i] = 0;
            i = i + 1;
        }
        let mut i: usize = 0;
        while i < 2 * order
            invariant
                order <= 65536,
                i <= 2 * order,
                self.order == order,
                self.fracbits == old(self).fracbits,
                self.coeffs@.len() == order,
                forall|j: int| 0 <= j < order ==> self.coeffs@[j] == 0i16,
                self.adapt_coeffs@.len() == 2 * order,
                self.history@.len() == 2 * order,
                forall|j: int| 0 <= j < i ==> self.adapt_coeffs@[j] == 0i16,
                forall|j: int| 0 <= j < i ==> self.history@[j] == 0i16,
            decreases 2 * order - i,
        {
            self.adapt_coeffs[i] = 0;
            self.history[i] = 0;
            i = i + 1;
        }
        self.delay_pos = self.order;
        proof {
            assert(self.coeffs@ =~= stage_init(order as int, self.fracbits).coeffs);
            assert(self.adapt_coeffs@ =~= stage_init(order as int, self.fracbits).adapt_coeffs);
            assert(self.history@ =~= stage_init(order as int, self.fracbits).history);
        }
    }

    /// Run one value through the stage.
    pub fn decompress(&mut self, input: i32) -> (r: i32)
        requires
            old(self).wf(),
        ensures
            final(self).wf(),
            final(self).view() == stage_step(old(self).view(), input).0,
            r == stage_step(old(self).view(), input).1,
    {
        if self.order == 0 {
            return input;
        }
        let order = self.order;
        let dp = self.delay_pos;
        let hs = dp - order;
        let ghost hs_g = hs as int;
        let ghost c0 = self.coeffs@;
        let ghost h0 = self.history@;
        let ghost a0 = self.adapt_coeffs@;

        // Dot product of the coefficients with the history window.
        let mut sum: i64 = 0;
        let mut i: usize = 0;
        while i < order
            invariant
                i <= order,
                order == self.order,
                self.fracbits == old(self).fracbits,
                dp == self.delay_pos,
                hs == dp - order,
                self.wf(),
                self.coeffs@ == c0,
                self.history@ == h0,
                self.adapt_coeffs@ == a0,
                sum as int == stage_dot(c0, h0, hs as int, i as int),
                -0x4000_0000 * (i as int) <= sum as int <= 0x4000_0000 * (i as int),
            decreases order - i,
        {
            let c = self.coeffs[i];
            let h = self.history[hs + i];
            proof {
                assert(-0x4000_0000 <= (c as int) * (h as int) <= 0x4000_0000) by (nonlinear_arith)
                    requires
                        -32768 <= c as int <= 32767,
                        -32768 <= h as int <= 32767,
                ;
            }
            sum = sum + (c as i64) * (h as i64);
            i = i + 1;
        }

        // The filter's guess, then the reconstructed output.
        let filtered = #[verifier::truncate] ((sum >> (self.fracbits as u64)) as i32);
        let res = input.wrapping_add(filtered);

        // Step each coefficient by the sign-sign rule.
        let sign: i32 = if input > 0 {
            1
        } else if input < 0 {
            -1
        } else {
            0
        };
        if sign != 0 {
            let mut i: usize = 0;
            while i < order
                invariant
                    i <= order,
                    order == self.order,
                    self.fracbits == old(self).fracbits,
                    dp == self.delay_pos,
                    hs == dp - order,
                    self.wf(),
                    sign as int == sgn(input as int),
                    sign == 1 || sign == -1,
                    self.history@ == h0,
                    self.adapt_coeffs@ == a0,
                    self.coeffs@.len() == order,
                    forall|j: int|
                        0 <= j < i ==> self.coeffs@[j] == sat_i16(
                            c0[j] + sgn(input as int) * a0[hs + j],
                        ),
                    forall|j: int| i <= j < order ==> self.coeffs@[j] == c0[j],
                decreases order - i,
            {
                let a = self.adapt_coeffs[hs + i];
                let step: i32 = if sign > 0 {
                    a as i32
                } else {
                    -(a as i32)
                };
                let wide = self.coeffs[i] as i32 + step;
                let clamped: i16 = if wide > 32767 {
                    32767
                } else if wide < -32768 {
                    -32768
                } else {
                    wide as i16
                };
                self.coeffs[i] = clamped;
                i = i + 1;
            }
            proof {
                assert(self.coeffs@ =~= adapted(c0, a0, hs as int, sgn(input as int)));
            }
        }

        // Remember the clamped output and its sign, then slide the rings.
        let clamped_res: i16 = if res > 32767 {
            32767
        } else if res < -32768 {
            -32768
        } else {
            res as i16
        };
        self.history[dp] = clamped_res;
        let res_sign: i16 = if res > 0 {
            1
        } else if res < 0 {
            -1
        } else {
            0
        };
        self.adapt_coeffs[dp] = res_sign;
        self.delay_pos = dp + 1;

        let ghost h1 = self.history@;
        let ghost a1 = self.adapt_coeffs@;

        if self.delay_pos == 2 * order {
            let mut i: usize = 0;
            while i < order
                invariant
                    i <= order,
                    order == self.order,
                    order <= 65536,
                    self.fracbits == old(self).fracbits,
                    self.coeffs@.len() == order,
                    self.history@.len() == 2 * order,
                    self.adapt_coeffs@.len() == 2 * order,
                    self.coeffs@ == stage_step(old(self).view(), input).0.coeffs,
                    forall|j: int| 0 <= j < i ==> self.history@[j] == h1[order + j],
                    forall|j: int| i <= j < 2 * order ==> self.history@[j] == h1[j],
                    forall|j: int| 0 <= j < i ==> self.adapt_coeffs@[j] == a1[order + j],
                    forall|j: int| i <= j < 2 * order ==> self.adapt_coeffs@[j] == a1[j],
                decreases order - i,
            {
                let hv = self.history[order + i];
                self.history[i] = hv;
                let av = self.adapt_coeffs[order + i];
                self.adapt_coeffs[i] = av;
                i = i + 1;
            }
            self.delay_pos = order;
            proof {
                let m = stage_step(old(self).view(), input).0;
                assert(self.history@ =~= m.history);
                assert(self.adapt_coeffs@ =~= m.adapt_coeffs);
            }
        }
        proof {
            let m = stage_step(old(self).view(), input).0;
            assert(self.coeffs@ =~= m.coeffs);
            assert(self.history@ =~= m.history);
            assert(self.adapt_coeffs@ =~= m.adapt_coeffs);
            assert(self.order as int == m.order);
            assert(self.fracbits == m.fracbits);
            assert(self.delay_pos as int == m.delay_pos);
            assert(self.view() == m);
            lemma_stage_step_wf(old(self).view(), input);
        }
        res
    }
}

/// The whole cascade run over one value, stage by stage.
pub open spec fn cascade(ss: Seq<StageModel>, v: i32) -> (Seq<StageModel>, i32)
    decreases ss.len(),
{
    if ss.len() == 0 {
        (ss, v)
    } else {
        let first = stage_step(ss[0], v);
        let rest = cascade(ss.skip(1), first.1);
        (seq![first.0] + rest.0, rest.1)
    }
}

/// Every stage of a cascade stays well formed and keeps its shape:
/// the same tap count and shift, stage by stage.
pub proof fn lemma_cascade_wf(ss: Seq<StageModel>, v: i32)
    requires
        forall|i: int| 0 <= i < ss.len() ==> stage_wf(#[trigger] ss[i]),
    ensures
        cascade(ss, v).0.len() == ss.len(),
        forall|i: int| 0 <= i < ss.len() ==> stage_wf(#[trigger] cascade(ss, v).0[i]),
        forall|i: int|
            0 <= i < ss.len() ==> (#[trigger] cascade(ss, v).0[i]).order == ss[i].order && cascade(
                ss,
                v,
            ).0[i].fracbits == ss[i].fracbits,
    decreases ss.len(),
{
    if ss.len() > 0 {
        let first = stage_step(ss[0], v);
        lemma_stage_step_wf(ss[0], v);
        lemma_cascade_wf(ss.skip(1), first.1);
        assert forall|i: int| 0 <= i < ss.len() implies stage_wf(#[trigger] cascade(ss, v).0[i])
            && cascade(ss, v).0[i].order == ss[i].order && cascade(ss, v).0[i].fracbits
            == ss[i].fracbits by {
            if i > 0 {
                assert(cascade(ss, v).0[i] == cascade(ss.skip(1), first.1).0[i - 1]);
                assert(ss.skip(1)[i - 1] == ss[i]);
            }
        }
    }
}

/// The filter cascade of one channel: up to three stages, run in order.
pub struct NNFilter {
    stages: Vec<NNFilterStage>,
}

impl NNFilter {
    /// The cascade as the ghost model sees it.
    pub closed spec fn view(&self) -> Seq<StageModel> {
        Seq::new(self.stages@.len(), |i: int| self.stages@[i].view())
    }

    /// Every stage holds together and there are at most three.
    pub open spec fn wf(&self) -> bool {
        &&& self.view().len() <= 3
        &&& forall|i: int| 0 <= i < self.view().len() ==> stage_wf(#[trigger] self.view()[i])
    }

    /// The stage shapes a compression level asks for, by level set
    /// index `fset` = level / 1000 - 1.
    pub open spec fn stages_for(fset: int) -> Seq<(int, u8)> {
        if fset == 0 {
            Seq::empty()
        } else if fset == 1 {
            seq![(16int, 11u8)]
        } else if fset == 2 {
            seq![(64int, 11u8)]
        } else if fset == 3 {
            seq![(32int, 10u8), (256int, 13u8)]
        } else {
            seq![(16int, 11u8), (256int, 13u8), (1280int, 15u8)]
        }
    }

    /// Build the cascade for level set `fset`, every stage cleared.
    pub fn new(fset: usize) -> (r: NNFilter)
        requires
            fset <= 4,
        ensures
            r.wf(),
            r.view().len() == NNFilter::stages_for(fset as int).len(),
            forall|i: int|
                0 <= i < r.view().len() ==> #[trigger] r.view()[i] == stage_init(
                    NNFilter::stages_for(fset as int)[i].0,
                    NNFilter::stages_for(fset as int)[i].1,
                ),
    {
        let mut stages: Vec<NNFilterStage> = Vec::new();
        if fset == 1 {
            stages.push(NNFilterStage::new(16, 11));
        } else if fset == 2 {
            stages.push(NNFilterStage::new(64, 11));
        } else if fset == 3 {
            stages.push(NNFilterStage::new(32, 10));
            stages.push(NNFilterStage::new(256, 13));
        } else if fset == 4 {
            stages.push(NNFilterStage::new(16, 11));
            stages.push(NNFilterStage::new(256, 13));
            stages.push(NNFilterStage::new(1280, 15));
        }
        NNFilter { stages }
    }

    /// Reset every stage, as a frame boundary demands.
    pub fn reset(&mut self)
        requires
            old(self).wf(),
        ensures
            final(self).wf(),
            final(self).view().len() == old(self).view().len(),
            forall|i: int|
                0 <= i < old(self).view().len() ==> #[trigger] final(self).view()[i] == stage_init(
                    old(self).view()[i].order,
                    old(self).view()[i].fracbits,
                ),
    {
        let n = self.stages.len();
        let mut i: usize = 0;
        while i < n
            invariant
                i <= n,
                n == self.stages@.len(),
                self.view().len() == old(self).view().len(),
                forall|j: int| 0 <= j < n ==> stage_wf(#[trigger] self.view()[j]),
                forall|j: int|
                    0 <= j < i ==> #[trigger] self.view()[j] == stage_init(
                        old(self).view()[j].order,
                        old(self).view()[j].fracbits,
                    ),
                forall|j: int| i <= j < n ==> #[trigger] self.view()[j] == old(self).view()[j],
            decreases n - i,
        {
            let ghost pre = self.view();
            proof {
                assert(stage_wf(pre[i as int]));
            }
            let stage = &mut self.stages[i];
            stage.reset();
            proof {
                assert(self.view() =~= pre.update(
                    i as int,
                    stage_init(pre[i as int].order, pre[i as int].fracbits),
                ));
            }
            i = i + 1;
        }
    }

    /// Run one value through every stage in forward order.
    pub fn decompress(&mut self, value: i32) -> (r: i32)
        requires
            old(self).wf(),
        ensures
            final(self).wf(),
            final(self).view() == cascade(old(self).view(), value).0,
            r == cascade(old(self).view(), value).1,
    {
        let n = self.stages.len();
        let mut v = value;
        let mut i: usize = 0;
        proof {
            assert(self.view().skip(0) =~= self.view());
        }
        while i < n
            invariant
                i <= n,
                n == self.stages@.len(),
                self.view().len() == old(self).view().len(),
                forall|j: int| 0 <= j < n ==> stage_wf(#[trigger] self.view()[j]),
                cascade(old(self).view(), value).0 =~= self.view().take(i as int) + cascade(
                    self.view().skip(i as int),
                    v,
                ).0,
                cascade(old(self).view(), value).1 == cascade(self.view().skip(i as int), v).1,
                forall|j: int| i <= j < n ==> #[trigger] self.view()[j] == old(self).view()[j],
            decreases n - i,
        {
            let ghost pre = self.view();
            let ghost tail = self.view().skip(i as int);
            let stage = &mut self.stages[i];
            let v2 = stage.decompress(v);
            proof {
                assert(tail.len() > 0);
                assert(tail[0] == pre[i as int]);
                assert(tail.skip(1) =~= pre.skip(i as int + 1));
                assert(self.view() =~= pre.update(i as int, stage_step(pre[i as int], v).0));
                assert(self.view().skip(i as int + 1) =~= pre.skip(i as int + 1));
                assert(self.view().take(i as int + 1) =~= pre.take(i as int) + seq![
                    stage_step(pre[i as int], v).0,
                ]);
                assert(pre.take(i as int) =~= self.view().take(i as int));
                assert(cascade(tail, v).0 == seq![stage_step(tail[0], v).0] + cascade(
                    tail.skip(1),
                    stage_step(tail[0], v).1,
                ).0);
                assert(cascade(old(self).view(), value).0 =~= self.view().take(i as int + 1)
                    + cascade(self.view().skip(i as int + 1), v2).0);
            }
            v = v2;
            i = i + 1;
        }
        proof {
            assert(self.view().take(n as int) =~= self.view());
            assert(self.view().skip(n as int) =~= Seq::<StageModel>::empty());
            assert(cascade(self.view().skip(n as int), v).0 =~= Seq::<StageModel>::empty());
            assert(cascade(old(self).view(), value).0 =~= self.view());
        }
        v
    }

    /// How many stages the cascade holds.
    pub fn num_stages(&self) -> (r: usize)
        ensures
            r == self.view().len(),
    {
        self.stages.len()
    }
}

} // verus!
