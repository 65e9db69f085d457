//! Decoder core for the Monkey's Audio (APE) lossless container,
//! format version 3990 and later.
//!
//! Given the bytes of an APE stream, the decoder reconstructs the
//! original PCM samples exactly: an entropy stage (range coder with
//! adaptive Rice state), an adaptive FIR filter cascade, a linear
//! predictor with stereo decorrelation, and a frame orchestrator that
//! ties them together.  Whoever owns the transport reads the stream
//! into memory and hands the bytes in.

use vstd::prelude::*;

pub mod buffer;
pub mod decode;
pub mod error;
pub mod header;
pub mod nnfilter;
pub mod predictor;
pub mod range_coder;

verus! {

use crate::decode::{
    Decoder, frame_blocks, frame_output, frame_start, frame_end, frame_window_ok, swapped,
    skip_amount, align_skip,
};
use crate::error::ApeError;
use crate::header::{parse_ok, spec_total_blocks};

/// What the stream says about its audio.
#[derive(Debug, Clone, Copy)]
pub struct ApeInfo {
    /// Sample rate in Hz.
    pub sample_rate: u32,
    /// Number of channels: 1 or 2.
    pub channels: u16,
    /// Bits per sample: 8, 16 or 24.
    pub bits_per_sample: u16,
    /// Total number of samples, blocks times channels.
    pub total_samples: u64,
    /// Compression level, 1000 through 5000.
    pub compression_level: u16,
    /// Format version, 3990 and up.
    pub format_version: u16,
}

/// A reader that decodes one APE stream from its bytes.
pub struct ApeReader {
    /// The frame decoder over the stream.
    pub decoder: Decoder,
    /// The stream's audio description.
    pub info: ApeInfo,
}

impl ApeReader {
    /// Parse the stream head and stand a decoder up over the bytes.
    /// Succeeds exactly when the head parses as supported.
    pub fn new(data: Vec<u8>) -> (r: Result<ApeReader, ApeError>)
        ensures
            r is Ok <==> parse_ok(data@),
            r matches Ok(a) ==> ({
                &&& a.decoder.wf()
                &&& a.decoder.bytes() == data@
                &&& a.decoder.frame() == 0
                &&& !a.decoder.finished
                &&& a.decoder.buffer.pending() =~= Seq::<i32>::empty()
                &&& a.info.sample_rate == a.decoder.header.header.sample_rate
                &&& a.info.channels == a.decoder.header.header.channels
                &&& a.info.bits_per_sample == a.decoder.header.header.bits_per_sample
                &&& a.info.compression_level == a.decoder.header.header.compression_level
                &&& a.info.format_version == a.decoder.header.descriptor.version
                &&& spec_total_blocks(a.decoder.header.header) * a.decoder.header.header.channels
                    <= u64::MAX ==> a.info.total_samples == spec_total_blocks(
                    a.decoder.header.header,
                ) * a.decoder.header.header.channels
            }),
    {
        let file_header = match crate::header::parse_header(&data) {
            Ok(h) => h,
            Err(e) => { return Err(e) },
        };
        let total_samples = file_header.total_samples();
        let info = ApeInfo {
            sample_rate: file_header.header.sample_rate,
            channels: file_header.header.channels,
            bits_per_sample: file_header.header.bits_per_sample,
            total_samples,
            compression_level: file_header.header.compression_level,
            format_version: file_header.descriptor.version,
        };
        let decoder = Decoder::new(data, file_header);
        Ok(ApeReader { decoder, info })
    }

    /// The stream's audio description.
    pub fn info(&self) -> (r: &ApeInfo)
        ensures
            *r == self.info,
    {
        &self.info
    }

    /// Turn the reader into a sample stream; samples come interleaved,
    /// left before right in stereo.
    pub fn samples(self) -> (r: ApeSamples)
        ensures
            r.decoder == self.decoder,
    {
        ApeSamples { decoder: self.decoder }
    }
}

/// The decoded sample stream of one APE stream.
pub struct ApeSamples {
    /// The frame decoder that feeds the stream.
    pub decoder: Decoder,
}

impl ApeSamples {
    /// Hand out the next sample; a frame is decoded whenever the
    /// buffered ones run out.  `None` after the last sample; a decode
    /// failure comes out as an error item.
    pub fn next(&mut self) -> (r: Option<Result<i32, ApeError>>)
        requires
            old(self).decoder.wf(),
        ensures
            final(self).decoder.wf(),
            final(self).decoder.bytes() == old(self).decoder.bytes(),
            final(self).decoder.header == old(self).decoder.header,
            old(self).decoder.buffer.pending().len() > 0 ==> ((r matches Some(s) && s matches Ok(v)
                && v == old(self).decoder.buffer.pending()[0])
                && final(self).decoder.buffer.pending()
                =~= old(self).decoder.buffer.pending().skip(1)
                && final(self).decoder.frame() == old(self).decoder.frame()),
            old(self).decoder.buffer.pending().len() == 0 && old(self).decoder.finished ==> r
                is None,
            old(self).decoder.buffer.pending().len() == 0 && !old(self).decoder.finished && (old(
                self,
            ).decoder.frame() >= old(self).decoder.header.header.total_frames || frame_blocks(
                old(self).decoder.header,
                old(self).decoder.frame(),
            ) == 0) ==> (r is None && final(self).decoder.finished),
            old(self).decoder.buffer.pending().len() == 0 && !old(self).decoder.finished && old(
                self,
            ).decoder.frame() < old(self).decoder.header.header.total_frames && frame_blocks(
                old(self).decoder.header,
                old(self).decoder.frame(),
            ) > 0 ==> ({
                let h = old(self).decoder.header;
                let f = old(self).decoder.frame();
                let bytes = old(self).decoder.bytes();
                &&& f >= h.seek_table@.len() ==> (r matches Some(s) && s matches Err(
                    ApeError::InvalidSeekTable,
                ))
                &&& f < h.seek_table@.len() && !frame_window_ok(h, bytes, f) ==> (r matches Some(
                    s,
                ) && s matches Err(ApeError::UnexpectedEof))
                &&& f < h.seek_table@.len() && frame_window_ok(h, bytes, f) && skip_amount(
                    swapped(bytes.subrange(frame_start(h, f), frame_end(h, f))),
                    align_skip(h, f),
                ) is None ==> (r matches Some(s) && s matches Err(ApeError::UnexpectedEof))
                &&& f < h.seek_table@.len() && frame_window_ok(h, bytes, f) && skip_amount(
                    swapped(bytes.subrange(frame_start(h, f), frame_end(h, f))),
                    align_skip(h, f),
                ) is Some ==> ({
                    let produced = frame_output(h, bytes, f, old(self).decoder.fset_sp());
                    &&& (r matches Some(s) && s matches Ok(v) && v == produced[0])
                    &&& final(self).decoder.buffer.pending() =~= produced.skip(1)
                    &&& final(self).decoder.frame() == f + 1
                })
            }),
    {
        match self.decoder.next_sample() {
            Some(s) => { return Some(Ok(s)) },
            None => {},
        }
        if self.decoder.finished {
            return None;
        }
        let ghost h = self.decoder.header;
        let ghost f = self.decoder.frame();
        match self.decoder.decode_next_frame() {
            Ok(true) => {
                proof {
                    crate::decode::lemma_frame_output_len(
                        h,
                        self.decoder.bytes(),
                        f,
                        self.decoder.fset_sp(),
                    );
                }
                match self.decoder.next_sample() {
                    Some(s) => Some(Ok(s)),
                    None => None,
                }
            },
            Ok(false) => None,
            Err(e) => Some(Err(e)),
        }
    }
}


} // verus!
