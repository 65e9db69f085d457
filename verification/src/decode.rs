//! Frame orchestrator: byte swap, frame-header skip, block loop.
//!
//! A frame is decoded from the stream bytes alone: its byte window is
//! cut out of the stream, each aligned four-byte group is swapped, the
//! per-frame prefix is skipped, and the blocks run through the entropy
//! coder, the filter cascade and the predictor, whose state is reset at
//! every frame boundary.

use vstd::prelude::*;

verus! {

use crate::buffer::SampleBuffer;
use crate::error::ApeError;
use crate::header::{ApeFileHeader, be32, channels_ok, level_ok};
use crate::nnfilter::{NNFilter, StageModel, stage_wf, stage_init, cascade};
use crate::predictor::{Predictor, PredModel, pred_init, pred_mono_step, pred_stereo_step};
use crate::range_coder::{RangeCoder, RiceState, RcState, rc_init, rc_decode_value, rice_wf};

// ── Byte swap ────────────────────────────────────────────────────────

/// The frame window with each aligned four-byte group reversed; a
/// trailing partial group stays as it is.
pub open spec fn swapped(d: Seq<u8>) -> Seq<u8> {
    Seq::new(
        d.len(),
        |i: int|
            if i < (d.len() / 4) * 4 {
                d[(i / 4) * 4 + (3 - (i % 4))]
            } else {
                d[i]
            },
    )
}

/// Reverse each aligned four-byte group in place.
fn byte_swap_words(v: &mut Vec<u8>)
    ensures
        final(v)@ =~= swapped(old(v)@),
{
    let ghost d0 = v@;
    let total = v.len();
    let words = total / 4;
    proof {
        vstd::arithmetic::div_mod::lemma_fundamental_div_mod(total as int, 4);
        vstd::arithmetic::div_mod::lemma_mod_bound(total as int, 4);
    }
    let mut i: usize = 0;
    while i < words
        invariant
            i <= words,
            words == d0.len() / 4,
            4 * words <= d0.len() <= usize::MAX,
            v@.len() == d0.len(),
            forall|j: int| 0 <= j < 4 * i ==> v@[j] == swapped(d0)[j],
            forall|j: int| 4 * i <= j < d0.len() ==> v@[j] == d0[j],
        decreases words - i,
    {
        let a = v[4 * i];
        let b = v[4 * i + 1];
        let c = v[4 * i + 2];
        let e = v[4 * i + 3];
        v[4 * i] = e;
        v[4 * i + 1] = c;
        v[4 * i + 2] = b;
        v[4 * i + 3] = a;
        proof {
            vstd::arithmetic::div_mod::lemma_fundamental_div_mod_converse(
                4 * i as int,
                4,
                i as int,
                0,
            );
            vstd::arithmetic::div_mod::lemma_fundamental_div_mod_converse(
                4 * i as int + 1,
                4,
                i as int,
                1,
            );
            vstd::arithmetic::div_mod::lemma_fundamental_div_mod_converse(
                4 * i as int + 2,
                4,
                i as int,
                2,
            );
            vstd::arithmetic::div_mod::lemma_fundamental_div_mod_converse(
                4 * i as int + 3,
                4,
                i as int,
                3,
            );
            assert(forall|j: int| 0 <= j < 4 * (i + 1) ==> v@[j] == swapped(d0)[j]);
        }
        i = i + 1;
    }
    proof {
        assert(v@ =~= swapped(d0));
    }
}

/// The bytes of `v` from `from` on, as an owned vector.
fn copy_tail(v: &Vec<u8>, from: usize) -> (r: Vec<u8>)
    requires
        from <= v@.len(),
    ensures
        r@ =~= v@.skip(from as int),
{
    let mut out: Vec<u8> = Vec::new();
    let mut i: usize = from;
    while i < v.len()
        invariant
            from <= i <= v@.len(),
            out@.len() == i - from,
            forall|j: int| 0 <= j < out@.len() ==> out@[j] == v@[from + j],
        decreases v@.len() - i,
    {
        let x = v[i];
        out.push(x);
        i = i + 1;
    }
    out
}

// ── Frame geometry ───────────────────────────────────────────────────

/// How many blocks frame `f` holds: the last frame its own count, all
/// others the common one.
pub open spec fn frame_blocks(h: ApeFileHeader, f: int) -> u32 {
    if f == h.header.total_frames - 1 {
        h.header.final_frame_blocks
    } else {
        h.header.blocks_per_frame
    }
}

/// Where frame `f`'s raw window starts: its seek entry, aligned down to
/// a four-byte boundary.
pub open spec fn frame_start(h: ApeFileHeader, f: int) -> int {
    (h.seek_table@[f] & 0xFFFF_FFFCu32) as int
}

/// Where frame `f`'s raw window ends: the next seek entry, or for the
/// last frame the end of the frame data.
pub open spec fn frame_end(h: ApeFileHeader, f: int) -> int {
    if f + 1 < h.seek_table@.len() {
        h.seek_table@[f + 1] as int
    } else {
        h.data_offset + h.descriptor.ape_frame_data_bytes
            + h.descriptor.ape_frame_data_bytes_high * 0x1_0000_0000
    }
}

/// The intra-word skip of frame `f`: the low two bits of its seek entry.
pub open spec fn align_skip(h: ApeFileHeader, f: int) -> int {
    (h.seek_table@[f] & 3u32) as int
}

/// Whether frame `f`'s window sits inside the stream.
pub open spec fn frame_window_ok(h: ApeFileHeader, bytes: Seq<u8>, f: int) -> bool {
    &&& frame_start(h, f) < frame_end(h, f)
    &&& frame_end(h, f) <= bytes.len()
}

/// How many bytes of the swapped window the per-frame prefix takes:
/// the alignment skip, a four-byte checksum, four more bytes of flags
/// when the checksum's top bit is set, and one discard byte.  `None`
/// when the window ends inside the prefix.
pub open spec fn skip_amount(sw: Seq<u8>, askip: int) -> Option<int> {
    if askip + 4 > sw.len() {
        None
    } else {
        let crc = be32(sw, askip);
        let p1 = askip + 4;
        if crc & 0x8000_0000u32 != 0 {
            if p1 + 4 >= sw.len() {
                None
            } else {
                Some(p1 + 5)
            }
        } else {
            if p1 >= sw.len() {
                None
            } else {
                Some(p1 + 1)
            }
        }
    }
}

/// The range-coded payload of frame `f`: its window, swapped, with the
/// prefix dropped.
pub open spec fn frame_payload(h: ApeFileHeader, bytes: Seq<u8>, f: int) -> Seq<u8> {
    let sw = swapped(bytes.subrange(frame_start(h, f), frame_end(h, f)));
    sw.skip(skip_amount(sw, align_skip(h, f)).unwrap())
}

// ── Block pipeline ───────────────────────────────────────────────────

/// The Rice state every frame starts from.
pub open spec fn rice_init() -> RiceState {
    RiceState { k: 10u32, ksum: 16384u32 }
}

/// The filter cascade every frame starts from, by level set index.
pub open spec fn stages_init_seq(fset: int) -> Seq<StageModel> {
    Seq::new(
        NNFilter::stages_for(fset).len(),
        |i: int| stage_init(NNFilter::stages_for(fset)[i].0, NNFilter::stages_for(fset)[i].1),
    )
}

/// A cascade of the shape that level set `fset` asks for.
pub open spec fn filter_shape(ss: Seq<StageModel>, fset: int) -> bool {
    &&& ss.len() == NNFilter::stages_for(fset).len()
    &&& forall|i: int|
        0 <= i < ss.len() ==> stage_wf(#[trigger] ss[i]) && ss[i].order == NNFilter::stages_for(
            fset,
        )[i].0 && ss[i].fracbits == NNFilter::stages_for(fset)[i].1
}

/// Everything one mono block reads and writes.
pub ghost struct MonoState {
    pub rc: RcState,
    pub rice: RiceState,
    pub stages: Seq<StageModel>,
    pub pred: PredModel,
}

/// One mono block: entropy decode, filter cascade, predictor.
#[verifier::opaque]
pub open spec fn mono_block(d: Seq<u8>, st: MonoState) -> (MonoState, i32) {
    let dv = rc_decode_value(d, st.rc, st.rice);
    let fl = cascade(st.stages, dv.2);
    let pr = pred_mono_step(st.pred, fl.1);
    (MonoState { rc: dv.0, rice: dv.1, stages: fl.0, pred: pr.0 }, pr.1)
}

/// `n` mono blocks in sequence, with the samples they emit.
pub open spec fn mono_run(d: Seq<u8>, st: MonoState, n: nat) -> (MonoState, Seq<i32>)
    decreases n,
{
    if n == 0 {
        (st, Seq::empty())
    } else {
        let b = mono_block(d, st);
        let rest = mono_run(d, b.0, (n - 1) as nat);
        (rest.0, seq![b.1] + rest.1)
    }
}

/// Everything one stereo block reads and writes.
pub ghost struct StereoState {
    pub rc: RcState,
    pub rice_y: RiceState,
    pub rice_x: RiceState,
    pub stages_y: Seq<StageModel>,
    pub stages_x: Seq<StageModel>,
    pub pred: PredModel,
}

/// One stereo block: both channels' residuals, both cascades, then the
/// predictor with decorrelation; left before right.
#[verifier::opaque]
pub open spec fn stereo_block(d: Seq<u8>, st: StereoState) -> (StereoState, i32, i32) {
    let dy = rc_decode_value(d, st.rc, st.rice_y);
    let fy = cascade(st.stages_y, dy.2);
    let dx = rc_decode_value(d, dy.0, st.rice_x);
    let fx = cascade(st.stages_x, dx.2);
    let pr = pred_stereo_step(st.pred, fy.1, fx.1);
    (
        StereoState {
            rc: dx.0,
            rice_y: dy.1,
            rice_x: dx.1,
            stages_y: fy.0,
            stages_x: fx.0,
            pred: pr.0,
        },
        pr.1,
        pr.2,
    )
}

/// `n` stereo blocks in sequence, with the interleaved samples they
/// emit.
pub open spec fn stereo_run(d: Seq<u8>, st: StereoState, n: nat) -> (StereoState, Seq<i32>)
    decreases n,
{
    if n == 0 {
        (st, Seq::empty())
    } else {
        let b = stereo_block(d, st);
        let rest = stereo_run(d, b.0, (n - 1) as nat);
        (rest.0, seq![b.1, b.2] + rest.1)
    }
}

/// The samples frame `f` decodes to, from reset state: `n` blocks, one
/// sample each in mono, an interleaved pair each in stereo.
pub open spec fn frame_output(h: ApeFileHeader, bytes: Seq<u8>, f: int, fset: int) -> Seq<i32> {
    let d = frame_payload(h, bytes, f);
    let n = frame_blocks(h, f) as nat;
    if h.header.channels == 1 {
        mono_run(
            d,
            MonoState {
                rc: rc_init(d),
                rice: rice_init(),
                stages: stages_init_seq(fset),
                pred: pred_init(),
            },
            n,
        ).1
    } else {
        stereo_run(
            d,
            StereoState {
                rc: rc_init(d),
                rice_y: rice_init(),
                rice_x: rice_init(),
                stages_y: stages_init_seq(fset),
                stages_x: stages_init_seq(fset),
                pred: pred_init(),
            },
            n,
        ).1
    }
}

/// Run one mono block through the entropy coder, the first cascade and
/// the predictor.
fn mono_block_exec(
    rc: &mut RangeCoder,
    rice: &mut RiceState,
    filters: &mut Vec<NNFilter>,
    pred: &mut Predictor,
) -> (s: i32)
    requires
        old(rc).wf(),
        rice_wf(*old(rice)),
        old(filters)@.len() >= 1,
        old(filters)@[0].wf(),
        old(pred).wf(),
    ensures
        final(rc).wf(),
        rice_wf(*final(rice)),
        final(rc).bytes() == old(rc).bytes(),
        final(filters)@.len() == old(filters)@.len(),
        final(filters)@[0].wf(),
        final(pred).wf(),
        forall|j: int|
            1 <= j < old(filters)@.len() ==> final(filters)@[j] == old(filters)@[j],
        ({
            let st = MonoState {
                rc: old(rc).st(),
                rice: *old(rice),
                stages: old(filters)@[0].view(),
                pred: old(pred).view(),
            };
            let b = mono_block(old(rc).bytes(), st);
            &&& final(rc).st() == b.0.rc
            &&& *final(rice) == b.0.rice
            &&& final(filters)@[0].view() == b.0.stages
            &&& final(pred).view() == b.0.pred
            &&& s == b.1
        }),
{
    proof {
        reveal(mono_block);
    }
    let v = rc.decode_value(rice);
    let fv = {
        let filt = &mut filters[0];
        filt.decompress(v)
    };
    pred.decode_mono(fv)
}

/// Run one stereo block through the entropy coder, both cascades and
/// the predictor; left before right.
fn stereo_block_exec(
    rc: &mut RangeCoder,
    rice_y: &mut RiceState,
    rice_x: &mut RiceState,
    filters: &mut Vec<NNFilter>,
    pred: &mut Predictor,
) -> (r: (i32, i32))
    requires
        old(rc).wf(),
        rice_wf(*old(rice_y)),
        rice_wf(*old(rice_x)),
        old(filters)@.len() == 2,
        old(filters)@[0].wf(),
        old(filters)@[1].wf(),
        old(pred).wf(),
    ensures
        final(rc).wf(),
        rice_wf(*final(rice_y)),
        rice_wf(*final(rice_x)),
        final(rc).bytes() == old(rc).bytes(),
        final(filters)@.len() == 2,
        final(filters)@[0].wf(),
        final(filters)@[1].wf(),
        final(pred).wf(),
        ({
            let st = StereoState {
                rc: old(rc).st(),
                rice_y: *old(rice_y),
                rice_x: *old(rice_x),
                stages_y: old(filters)@[0].view(),
                stages_x: old(filters)@[1].view(),
                pred: old(pred).view(),
            };
            let b = stereo_block(old(rc).bytes(), st);
            &&& final(rc).st() == b.0.rc
            &&& *final(rice_y) == b.0.rice_y
            &&& *final(rice_x) == b.0.rice_x
            &&& final(filters)@[0].view() == b.0.stages_y
            &&& final(filters)@[1].view() == b.0.stages_x
            &&& final(pred).view() == b.0.pred
            &&& r.0 == b.1
            &&& r.1 == b.2
        }),
{
    proof {
        reveal(stereo_block);
    }
    let vy = rc.decode_value(rice_y);
    let fy = {
        let filt = &mut filters[0];
        filt.decompress(vy)
    };
    let vx = rc.decode_value(rice_x);
    let fx = {
        let filt = &mut filters[1];
        filt.decompress(vx)
    };
    pred.decode_stereo(fy, fx)
}

/// A mono run emits one sample per block.
pub proof fn lemma_mono_run_len(d: Seq<u8>, st: MonoState, n: nat)
    ensures
        mono_run(d, st, n).1.len() == n,
    decreases n,
{
    if n > 0 {
        lemma_mono_run_len(d, mono_block(d, st).0, (n - 1) as nat);
    }
}

/// A stereo run emits two samples per block.
pub proof fn lemma_stereo_run_len(d: Seq<u8>, st: StereoState, n: nat)
    ensures
        stereo_run(d, st, n).1.len() == 2 * n,
    decreases n,
{
    if n > 0 {
        lemma_stereo_run_len(d, stereo_block(d, st).0, (n - 1) as nat);
    }
}

/// One frame emits exactly its block count times the channel count.
pub proof fn lemma_frame_output_len(h: ApeFileHeader, bytes: Seq<u8>, f: int, fset: int)
    requires
        channels_ok(h.header.channels),
    ensures
        frame_output(h, bytes, f, fset).len() == frame_blocks(h, f) * h.header.channels,
{
    let d = frame_payload(h, bytes, f);
    let n = frame_blocks(h, f) as nat;
    if h.header.channels == 1 {
        let st = MonoState {
            rc: rc_init(d),
            rice: rice_init(),
            stages: stages_init_seq(fset),
            pred: pred_init(),
        };
        lemma_mono_run_len(d, st, n);
        assert(frame_output(h, bytes, f, fset) == mono_run(d, st, n).1);
    } else {
        let st = StereoState {
            rc: rc_init(d),
            rice_y: rice_init(),
            rice_x: rice_init(),
            stages_y: stages_init_seq(fset),
            stages_x: stages_init_seq(fset),
            pred: pred_init(),
        };
        lemma_stereo_run_len(d, st, n);
        assert(frame_output(h, bytes, f, fset) == stereo_run(d, st, n).1);
        assert(frame_blocks(h, f) * h.header.channels == 2 * n);
    }
}

/// The whole stream's samples: every frame's output, in frame order.
pub open spec fn stream_output(h: ApeFileHeader, bytes: Seq<u8>, fset: int, n: nat) -> Seq<i32>
    decreases n,
{
    if n == 0 {
        Seq::empty()
    } else {
        stream_output(h, bytes, fset, (n - 1) as nat) + frame_output(
            h,
            bytes,
            n - 1,
            fset,
        )
    }
}

/// The sample count over a whole stream: every frame but the last
/// carries the common block count, the last its own, each block one
/// sample per channel.
pub proof fn lemma_stream_output_len(h: ApeFileHeader, bytes: Seq<u8>, fset: int, n: nat)
    requires
        channels_ok(h.header.channels),
        n <= h.header.total_frames,
    ensures
        n < h.header.total_frames ==> stream_output(h, bytes, fset, n).len() == n
            * h.header.blocks_per_frame * h.header.channels,
        n == h.header.total_frames && n > 0 ==> stream_output(h, bytes, fset, n).len() == ((n - 1)
            * h.header.blocks_per_frame + h.header.final_frame_blocks) * h.header.channels,
    decreases n,
{
    let bpf = h.header.blocks_per_frame as int;
    let ch = h.header.channels as int;
    if n > 0 {
        lemma_stream_output_len(h, bytes, fset, (n - 1) as nat);
        lemma_frame_output_len(h, bytes, n - 1, fset);
        assert(stream_output(h, bytes, fset, n).len() == stream_output(
            h,
            bytes,
            fset,
            (n - 1) as nat,
        ).len() + frame_output(h, bytes, n - 1, fset).len());
        if n < h.header.total_frames {
            assert(frame_blocks(h, n - 1) == h.header.blocks_per_frame);
            assert(stream_output(h, bytes, fset, (n - 1) as nat).len() == (n - 1) * bpf * ch);
            assert(frame_output(h, bytes, n - 1, fset).len() == bpf * ch);
            assert((n - 1) * bpf * ch + bpf * ch == n * bpf * ch) by (nonlinear_arith);
        } else {
            if n - 1 < h.header.total_frames - 1 {
                assert(frame_blocks(h, n - 1) == h.header.blocks_per_frame);
            }
            assert((n - 1) * bpf * ch + h.header.final_frame_blocks * ch == ((n - 1) * bpf
                + h.header.final_frame_blocks) * ch) by (nonlinear_arith);
        }
    } else {
        assert(n * bpf * ch == 0) by (nonlinear_arith)
            requires
                n == 0,
        ;
    }
}

/// Decoding is a function of the bytes alone: equal streams decode to
/// equal sample sequences, frame by frame.
pub proof fn lemma_decode_deterministic(
    h: ApeFileHeader,
    b1: Seq<u8>,
    b2: Seq<u8>,
    f: int,
    fset: int,
)
    requires
        b1 == b2,
    ensures
        frame_output(h, b1, f, fset) == frame_output(h, b2, f, fset),
{
}

// ── The decoder ──────────────────────────────────────────────────────

/// Frame-by-frame decoder over the whole stream's bytes.
pub struct Decoder {
    /// The stream's bytes, whole.
    pub data: Vec<u8>,
    /// The parsed stream head.
    pub header: ApeFileHeader,
    /// Index of the next frame to decode.
    pub current_frame: u32,
    /// Whether every frame has been decoded.
    pub finished: bool,
    /// Decoded samples not yet handed out.
    pub buffer: SampleBuffer,
    /// One filter cascade per channel.
    pub filters: Vec<NNFilter>,
    /// The predictor, shared by both channels.
    pub predictor: Predictor,
    /// Level set index: compression level / 1000 - 1.
    pub fset: usize,
}

impl Decoder {
    /// The stream's bytes.
    pub closed spec fn bytes(&self) -> Seq<u8> {
        self.data@
    }

    /// The next frame to decode.
    pub closed spec fn frame(&self) -> int {
        self.current_frame as int
    }

    /// The level set index.
    pub closed spec fn fset_sp(&self) -> int {
        self.fset as int
    }

    /// How many filter cascades the decoder holds.
    pub closed spec fn n_filters(&self) -> int {
        self.filters@.len() as int
    }

    /// Channel `c`'s filter cascade.
    pub closed spec fn filter_view(&self, c: int) -> Seq<StageModel> {
        self.filters@[c].view()
    }

    /// The predictor's state.
    pub closed spec fn pred_view(&self) -> PredModel {
        self.predictor.view()
    }

    /// The decoder's shapes hold together: a supported header, one
    /// cascade per channel of the level's shape, sound predictor and
    /// buffer.
    pub open spec fn wf(&self) -> bool {
        &&& channels_ok(self.header.header.channels)
        &&& level_ok(self.header.header.compression_level)
        &&& self.fset_sp() == self.header.header.compression_level / 1000 - 1
        &&& self.n_filters() == self.header.header.channels
        &&& filter_shape(self.filter_view(0), self.fset_sp())
        &&& self.n_filters() == 2 ==> filter_shape(self.filter_view(1), self.fset_sp())
        &&& crate::predictor::pred_wf(self.pred_view())
        &&& self.buffer.wf()
    }

    /// Build a decoder over a stream's bytes and its parsed head.
    pub fn new(data: Vec<u8>, header: ApeFileHeader) -> (r: Decoder)
        requires
            channels_ok(header.header.channels),
            level_ok(header.header.compression_level),
        ensures
            r.wf(),
            r.bytes() == data@,
            r.header == header,
            r.frame() == 0,
            !r.finished,
            r.buffer.pending() =~= Seq::<i32>::empty(),
            r.filter_view(0) =~= stages_init_seq(r.fset_sp()),
            r.n_filters() == 2 ==> r.filter_view(1) =~= stages_init_seq(r.fset_sp()),
            r.pred_view() == pred_init(),
    {
        let fset = (header.header.compression_level / 1000 - 1) as usize;
        let channels = header.header.channels as usize;
        let mut filters: Vec<NNFilter> = Vec::new();
        let f0 = NNFilter::new(fset);
        proof {
            assert(f0.view() =~= stages_init_seq(fset as int));
        }
        filters.push(f0);
        if channels == 2 {
            let f1 = NNFilter::new(fset);
            proof {
                assert(f1.view() =~= stages_init_seq(fset as int));
            }
            filters.push(f1);
        }
        Decoder {
            data,
            header,
            current_frame: 0,
            finished: false,
            buffer: SampleBuffer::new(),
            filters,
            predictor: Predictor::new(),
            fset,
        }
    }

    /// Hand out the next buffered sample, oldest first.
    pub fn next_sample(&mut self) -> (r: Option<i32>)
        requires
            old(self).wf(),
        ensures
            final(self).wf(),
            old(self).buffer.pending().len() == 0 ==> r is None && final(self).buffer.pending()
                =~= old(self).buffer.pending(),
            old(self).buffer.pending().len() > 0 ==> r == Some(old(self).buffer.pending()[0])
                && final(self).buffer.pending() =~= old(self).buffer.pending().skip(1),
            final(self).header == old(self).header,
            final(self).bytes() == old(self).bytes(),
            final(self).frame() == old(self).frame(),
            final(self).finished == old(self).finished,
            final(self).fset_sp() == old(self).fset_sp(),
            final(self).n_filters() == old(self).n_filters(),
            forall|c: int|
                0 <= c < old(self).n_filters() ==> final(self).filter_view(c) == old(self).filter_view(c),
            final(self).pred_view() == old(self).pred_view(),
    {
        self.buffer.next_sample()
    }

    /// Cut frame `current_frame`'s window out of the stream and swap
    /// each aligned four-byte group.
    fn read_frame_data(&self) -> (r: Result<Vec<u8>, ApeError>)
        requires
            self.wf(),
        ensures
            self.frame() >= self.header.seek_table@.len() ==> (r matches Err(
                ApeError::InvalidSeekTable,
            )),
            self.frame() < self.header.seek_table@.len() && !frame_window_ok(
                self.header,
                self.bytes(),
                self.frame(),
            ) ==> (r matches Err(ApeError::UnexpectedEof)),
            r is Ok <==> self.frame() < self.header.seek_table@.len() && frame_window_ok(
                self.header,
                self.bytes(),
                self.frame(),
            ),
            r matches Ok(v) ==> (v@ =~= swapped(
                self.bytes().subrange(
                    frame_start(self.header, self.frame()),
                    frame_end(self.header, self.frame()),
                ),
            )),
    {
        let frame_idx = self.current_frame as usize;
        let dlen = self.data.len();
        if frame_idx >= self.header.seek_table.len() {
            return Err(ApeError::InvalidSeekTable);
        }
        let start: u64 = (self.header.seek_table[frame_idx] & 0xFFFF_FFFC) as u64;
        let end128: u128 = if frame_idx + 1 < self.header.seek_table.len() {
            self.header.seek_table[frame_idx + 1] as u128
        } else {
            self.header.data_offset as u128 + self.header.descriptor.ape_frame_data_bytes as u128
                + self.header.descriptor.ape_frame_data_bytes_high as u128 * 0x1_0000_0000
        };
        if end128 <= start as u128 || end128 > dlen as u128 {
            return Err(ApeError::UnexpectedEof);
        }
        let s = start as usize;
        let e = end128 as usize;
        let mut window: Vec<u8> = Vec::new();
        let mut i: usize = s;
        while i < e
            invariant
                s <= i <= e <= self.data@.len(),
                window@.len() == i - s,
                forall|j: int| 0 <= j < window@.len() ==> window@[j] == self.data@[s + j],
            decreases e - i,
        {
            let x = self.data[i];
            window.push(x);
            i = i + 1;
        }
        proof {
            assert(window@ =~= self.bytes().subrange(
                frame_start(self.header, self.frame()),
                frame_end(self.header, self.frame()),
            ));
        }
        byte_swap_words(&mut window);
        Ok(window)
    }

    /// How many bytes of the swapped window the per-frame prefix takes:
    /// alignment skip, checksum, optional flags, one discard byte.
    fn skip_frame_header(&self, frame_data: &Vec<u8>) -> (r: Result<usize, ApeError>)
        requires
            self.wf(),
            self.frame() < self.header.seek_table@.len(),
        ensures
            skip_amount(frame_data@, align_skip(self.header, self.frame())) matches Some(p) ==> (
            r matches Ok(q) && q == p),
            skip_amount(frame_data@, align_skip(self.header, self.frame())) is None ==> (
            r matches Err(ApeError::UnexpectedEof)),
    {
        let askip = (self.header.seek_table[self.current_frame as usize] & 3) as usize;
        let mut pos = askip;
        if pos > frame_data.len() || frame_data.len() - pos < 4 {
            return Err(ApeError::UnexpectedEof);
        }
        let crc: u32 = ((frame_data[pos] as u32) << 24u32) | ((frame_data[pos + 1] as u32)
            << 16u32) | ((frame_data[pos + 2] as u32) << 8u32) | (frame_data[pos + 3] as u32);
        pos = pos + 4;
        if crc & 0x8000_0000 != 0 {
            if frame_data.len() - pos < 4 {
                return Err(ApeError::UnexpectedEof);
            }
            pos = pos + 4;
        }
        if pos >= frame_data.len() {
            return Err(ApeError::UnexpectedEof);
        }
        Ok(pos + 1)
    }

    /// Decode one mono frame's blocks from the swapped window, pushing
    /// one sample per block.
    #[verifier::rlimit(100)]
    fn decode_frame_mono(&mut self, frame_data: &Vec<u8>, nblocks: u32) -> (r: Result<
        (),
        ApeError,
    >)
        requires
            old(self).wf(),
            old(self).header.header.channels == 1,
            old(self).frame() < old(self).header.seek_table@.len(),
        ensures
            final(self).wf(),
            final(self).header == old(self).header,
            final(self).bytes() == old(self).bytes(),
            final(self).frame() == old(self).frame(),
            final(self).finished == old(self).finished,
            final(self).fset_sp() == old(self).fset_sp(),
            final(self).n_filters() == old(self).n_filters(),
            r is Ok <==> skip_amount(frame_data@, align_skip(old(self).header, old(self).frame()))
                is Some,
            r is Err ==> (r matches Err(ApeError::UnexpectedEof)) && final(self).buffer.pending()
                =~= old(self).buffer.pending() && final(self).filter_view(0) == old(self).filter_view(0) && final(self).pred_view() == old(self).pred_view(),
            r is Ok ==> ({
                let d = frame_data@.skip(
                    skip_amount(
                        frame_data@,
                        align_skip(old(self).header, old(self).frame()),
                    ).unwrap(),
                );
                let run = mono_run(
                    d,
                    MonoState {
                        rc: rc_init(d),
                        rice: rice_init(),
                        stages: old(self).filter_view(0),
                        pred: old(self).pred_view(),
                    },
                    nblocks as nat,
                );
                &&& final(self).buffer.pending() =~= old(self).buffer.pending() + run.1
                &&& final(self).filter_view(0) == run.0.stages
                &&& final(self).pred_view() == run.0.pred
            }),
    {
        let p = match self.skip_frame_header(frame_data) {
            Ok(p) => p,
            Err(e) => { return Err(e) },
        };
        let payload = copy_tail(frame_data, p);
        let ghost d = payload@;
        let mut rc = RangeCoder::new(payload);
        let mut rice = RiceState::new();
        let ghost init = MonoState {
            rc: rc.st(),
            rice: rice,
            stages: old(self).filter_view(0),
            pred: old(self).pred_view(),
        };
        let ghost mut out = Seq::<i32>::empty();
        let mut k: u32 = 0;
        while k < nblocks
            invariant
                k <= nblocks,
                rc.wf(),
                rc.bytes() == d,
                rice_wf(rice),
                self.wf(),
                self.header == old(self).header,
                self.bytes() == old(self).bytes(),
                self.frame() == old(self).frame(),
                self.finished == old(self).finished,
                self.fset_sp() == old(self).fset_sp(),
                self.n_filters() == old(self).n_filters(),
                self.header.header.channels == 1,
                self.buffer.pending() =~= old(self).buffer.pending() + out,
                mono_run(d, init, nblocks as nat).0 == mono_run(
                    d,
                    MonoState {
                        rc: rc.st(),
                        rice: rice,
                        stages: self.filter_view(0),
                        pred: self.pred_view(),
                    },
                    (nblocks - k) as nat,
                ).0,
                mono_run(d, init, nblocks as nat).1 =~= out + mono_run(
                    d,
                    MonoState {
                        rc: rc.st(),
                        rice: rice,
                        stages: self.filter_view(0),
                        pred: self.pred_view(),
                    },
                    (nblocks - k) as nat,
                ).1,
            decreases nblocks - k,
        {
            let ghost pre = MonoState {
                rc: rc.st(),
                rice: rice,
                stages: self.filter_view(0),
                pred: self.pred_view(),
            };
            let s = mono_block_exec(&mut rc, &mut rice, &mut self.filters, &mut self.predictor);
            self.buffer.push(s);
            proof {
                let cur = MonoState {
                    rc: rc.st(),
                    rice: rice,
                    stages: self.filter_view(0),
                    pred: self.pred_view(),
                };
                assert(mono_block(d, pre).0 == cur);
                assert(mono_run(d, pre, (nblocks - k) as nat).0 == mono_run(
                    d,
                    cur,
                    (nblocks - k - 1) as nat,
                ).0);
                assert(mono_run(d, pre, (nblocks - k) as nat).1 =~= seq![s] + mono_run(
                    d,
                    cur,
                    (nblocks - k - 1) as nat,
                ).1);
                out = out.push(s);
                assert(out + mono_run(d, cur, (nblocks - k - 1) as nat).1 =~= (out.drop_last()
                    + seq![s]) + mono_run(d, cur, (nblocks - k - 1) as nat).1);
                assert(filter_shape(cur.stages, self.fset_sp())) by {
                    reveal(mono_block);
                    crate::nnfilter::lemma_cascade_wf(
                        pre.stages,
                        rc_decode_value(d, pre.rc, pre.rice).2,
                    );
                }
            }
            k = k + 1;
        }
        Ok(())
    }

    /// Decode one stereo frame's blocks from the swapped window,
    /// pushing a left-right pair per block.
    #[verifier::rlimit(100)]
    fn decode_frame_stereo(&mut self, frame_data: &Vec<u8>, nblocks: u32) -> (r: Result<
        (),
        ApeError,
    >)
        requires
            old(self).wf(),
            old(self).header.header.channels == 2,
            old(self).frame() < old(self).header.seek_table@.len(),
        ensures
            final(self).wf(),
            final(self).header == old(self).header,
            final(self).bytes() == old(self).bytes(),
            final(self).frame() == old(self).frame(),
            final(self).finished == old(self).finished,
            final(self).fset_sp() == old(self).fset_sp(),
            final(self).n_filters() == old(self).n_filters(),
            r is Ok <==> skip_amount(frame_data@, align_skip(old(self).header, old(self).frame()))
                is Some,
            r is Err ==> (r matches Err(ApeError::UnexpectedEof)) && final(self).buffer.pending()
                =~= old(self).buffer.pending() && final(self).filter_view(0) == old(self).filter_view(0) && final(self).filter_view(1) == old(self).filter_view(1) && final(self).pred_view() == old(self).pred_view(),
            r is Ok ==> ({
                let d = frame_data@.skip(
                    skip_amount(
                        frame_data@,
                        align_skip(old(self).header, old(self).frame()),
                    ).unwrap(),
                );
                let run = stereo_run(
                    d,
                    StereoState {
                        rc: rc_init(d),
                        rice_y: rice_init(),
                        rice_x: rice_init(),
                        stages_y: old(self).filter_view(0),
                        stages_x: old(self).filter_view(1),
                        pred: old(self).pred_view(),
                    },
                    nblocks as nat,
                );
                &&& final(self).buffer.pending() =~= old(self).buffer.pending() + run.1
                &&& final(self).filter_view(0) == run.0.stages_y
                &&& final(self).filter_view(1) == run.0.stages_x
                &&& final(self).pred_view() == run.0.pred
            }),
    {
        let p = match self.skip_frame_header(frame_data) {
            Ok(p) => p,
            Err(e) => { return Err(e) },
        };
        let payload = copy_tail(frame_data, p);
        let ghost d = payload@;
        let mut rc = RangeCoder::new(payload);
        let mut rice_y = RiceState::new();
        let mut rice_x = RiceState::new();
        let ghost init = StereoState {
            rc: rc.st(),
            rice_y: rice_y,
            rice_x: rice_x,
            stages_y: old(self).filter_view(0),
            stages_x: old(self).filter_view(1),
            pred: old(self).pred_view(),
        };
        let ghost mut out = Seq::<i32>::empty();
        let mut k: u32 = 0;
        while k < nblocks
            invariant
                k <= nblocks,
                rc.wf(),
                rc.bytes() == d,
                rice_wf(rice_y),
                rice_wf(rice_x),
                self.wf(),
                self.header == old(self).header,
                self.bytes() == old(self).bytes(),
                self.frame() == old(self).frame(),
                self.finished == old(self).finished,
                self.fset_sp() == old(self).fset_sp(),
                self.n_filters() == old(self).n_filters(),
                self.header.header.channels == 2,
                self.buffer.pending() =~= old(self).buffer.pending() + out,
                stereo_run(d, init, nblocks as nat).0 == stereo_run(
                    d,
                    StereoState {
                        rc: rc.st(),
                        rice_y: rice_y,
                        rice_x: rice_x,
                        stages_y: self.filter_view(0),
                        stages_x: self.filter_view(1),
                        pred: self.pred_view(),
                    },
                    (nblocks - k) as nat,
                ).0,
                stereo_run(d, init, nblocks as nat).1 =~= out + stereo_run(
                    d,
                    StereoState {
                        rc: rc.st(),
                        rice_y: rice_y,
                        rice_x: rice_x,
                        stages_y: self.filter_view(0),
                        stages_x: self.filter_view(1),
                        pred: self.pred_view(),
                    },
                    (nblocks - k) as nat,
                ).1,
            decreases nblocks - k,
        {
            let ghost pre = StereoState {
                rc: rc.st(),
                rice_y: rice_y,
                rice_x: rice_x,
                stages_y: self.filter_view(0),
                stages_x: self.filter_view(1),
                pred: self.pred_view(),
            };
            let (left, right) = stereo_block_exec(
                &mut rc,
                &mut rice_y,
                &mut rice_x,
                &mut self.filters,
                &mut self.predictor,
            );
            self.buffer.push_stereo(left, right);
            proof {
                let cur = StereoState {
                    rc: rc.st(),
                    rice_y: rice_y,
                    rice_x: rice_x,
                    stages_y: self.filter_view(0),
                    stages_x: self.filter_view(1),
                    pred: self.pred_view(),
                };
                assert(stereo_block(d, pre).0 == cur);
                assert(stereo_run(d, pre, (nblocks - k) as nat).0 == stereo_run(
                    d,
                    cur,
                    (nblocks - k - 1) as nat,
                ).0);
                assert(stereo_run(d, pre, (nblocks - k) as nat).1 =~= seq![left, right]
                    + stereo_run(d, cur, (nblocks - k - 1) as nat).1);
                out = out.push(left).push(right);
                assert(filter_shape(cur.stages_y, self.fset_sp()) && filter_shape(
                    cur.stages_x,
                    self.fset_sp(),
                )) by {
                    reveal(stereo_block);
                    crate::nnfilter::lemma_cascade_wf(
                        pre.stages_y,
                        rc_decode_value(d, pre.rc, pre.rice_y).2,
                    );
                    crate::nnfilter::lemma_cascade_wf(
                        pre.stages_x,
                        rc_decode_value(d, rc_decode_value(d, pre.rc, pre.rice_y).0, pre.rice_x).2,
                    );
                }
                assert(out + stereo_run(d, cur, (nblocks - k - 1) as nat).1 =~= (out.drop_last()
                    .drop_last() + seq![left, right]) + stereo_run(
                    d,
                    cur,
                    (nblocks - k - 1) as nat,
                ).1);
            }
            k = k + 1;
        }
        Ok(())
    }

    /// Decode the next frame into the buffer, replacing what was there.
    /// `Ok(true)` when a frame was decoded, `Ok(false)` at the end of
    /// the stream.
    pub fn decode_next_frame(&mut self) -> (r: Result<bool, ApeError>)
        requires
            old(self).wf(),
        ensures
            final(self).wf(),
            final(self).header == old(self).header,
            final(self).bytes() == old(self).bytes(),
            final(self).fset_sp() == old(self).fset_sp(),
            final(self).n_filters() == old(self).n_filters(),
            old(self).frame() >= old(self).header.header.total_frames || frame_blocks(
                old(self).header,
                old(self).frame(),
            ) == 0 ==> ((r matches Ok(b) && b == false) && final(self).finished
                && final(self).frame() == old(self).frame()
                && final(self).buffer.pending() =~= old(self).buffer.pending()),
            old(self).frame() < old(self).header.header.total_frames && frame_blocks(
                old(self).header,
                old(self).frame(),
            ) > 0 ==> ({
                let h = old(self).header;
                let f = old(self).frame();
                &&& f >= h.seek_table@.len() ==> (r matches Err(ApeError::InvalidSeekTable))
                    && final(self).frame() == f && final(self).buffer.pending() =~= old(self).buffer.pending()
                &&& f < h.seek_table@.len() && !frame_window_ok(h, old(self).bytes(), f) ==> (
                r matches Err(ApeError::UnexpectedEof)) && final(self).frame() == f && final(self).buffer.pending() =~= old(self).buffer.pending()
                &&& f < h.seek_table@.len() && frame_window_ok(h, old(self).bytes(), f)
                    && skip_amount(
                    swapped(old(self).bytes().subrange(frame_start(h, f), frame_end(h, f))),
                    align_skip(h, f),
                ) is None ==> (r matches Err(ApeError::UnexpectedEof)) && final(self).frame() == f
                &&& f < h.seek_table@.len() && frame_window_ok(h, old(self).bytes(), f)
                    && skip_amount(
                    swapped(old(self).bytes().subrange(frame_start(h, f), frame_end(h, f))),
                    align_skip(h, f),
                ) is Some ==> ((r matches Ok(b) && b == true) && final(self).frame() == f + 1
                    && final(self).finished == old(self).finished
                    && final(self).buffer.pending()
                    =~= frame_output(h, old(self).bytes(), f, old(self).fset_sp()))
            }),
    {
        if self.current_frame >= self.header.header.total_frames {
            self.finished = true;
            return Ok(false);
        }
        let nblocks = if self.current_frame == self.header.header.total_frames - 1 {
            self.header.header.final_frame_blocks
        } else {
            self.header.header.blocks_per_frame
        };
        if nblocks == 0 {
            self.finished = true;
            return Ok(false);
        }

        let frame_data = match self.read_frame_data() {
            Ok(v) => v,
            Err(e) => { return Err(e) },
        };

        // Fresh filter, predictor and output state for this frame.
        {
            let filt = &mut self.filters[0];
            filt.reset();
        }
        proof {
            assert(self.filter_view(0) =~= stages_init_seq(self.fset_sp()));
        }
        if self.filters.len() > 1 {
            {
                let filt = &mut self.filters[1];
                filt.reset();
            }
            proof {
                assert(self.filter_view(0) =~= stages_init_seq(self.fset_sp()));
                assert(self.filter_view(1) =~= stages_init_seq(self.fset_sp()));
            }
        }
        self.predictor.reset();
        self.buffer.clear();

        let res = if self.header.header.channels == 1 {
            self.decode_frame_mono(&frame_data, nblocks)
        } else {
            self.decode_frame_stereo(&frame_data, nblocks)
        };
        match res {
            Ok(()) => {},
            Err(e) => { return Err(e) },
        }

        self.current_frame = self.current_frame + 1;
        Ok(true)
    }
}

} // verus!
