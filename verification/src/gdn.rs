//! The gated-DeltaNet decode step in `f32`.

use crate::encoder::{
    Buffer, CommandView, ComputeCommandEncoder, EncoderParam, Output, ParamView, Pipeline,
};
use crate::label::{append_decimal, decimal};
use crate::size::MTLSize;
use crate::trace::binds;
use vstd::prelude::*;

verus! {

/// The shader sources that kernels are loaded from.
#[derive(Clone, Copy, Debug, PartialEq, Eq, Structural)]
pub enum Source {
    Gdn,
}

/// The kernel of the decode step, in [`Source::Gdn`].
pub const DECODE_STEP_KERNEL: &'static str = "kernel_gdn_decode_step_f32";

/// The most threads in a threadgroup.
pub const MAX_GROUP_WIDTH: usize = 64;

/// The low 32 bits of `n`.
pub open spec fn low_word(n: usize) -> u32 {
    (n as int % 0x1_0000_0000) as u32
}

/// The constants that the kernel takes, in the order in which it reads them.
#[derive(Clone, Copy, Debug, PartialEq, Eq, Structural)]
pub struct GdnStepArgs {
    pub hk: u32,
    pub hv: u32,
    pub h: u32,
}

impl EncoderParam for GdnStepArgs {
    open spec fn param(self) -> ParamView {
        ParamView::Bytes(seq![self.hk, self.hv, self.h])
    }

    fn set_param(encoder: &mut ComputeCommandEncoder, position: usize, data: Self)
        ensures
            final(encoder)@.drop_last() == old(encoder)@,
            final(encoder)@.last() matches CommandView::Bind { index, param } && index == position
                && (param matches ParamView::Bytes(words) && {
                &&& words.len() == 3
                &&& words[0] == data.hk
                &&& words[1] == data.hv
                &&& words[2] == data.h
            }),
    {
        let words: Vec<u32> = vec![data.hk, data.hv, data.h];
        assert(words@ =~= seq![data.hk, data.hv, data.h]);
        encoder.set_bytes(position, words);
        assert(encoder@.drop_last() =~= old(encoder)@);
    }
}

/// Cuts `n` down to its low 32 bits.
fn to_word(n: usize) -> (w: u32)
    ensures
        w == low_word(n),
{
    let m: u64 = n as u64;
    assert(m as u32 == m % 0x1_0000_0000) by (bit_vector);
    m as u32
}

/// `gdn_decode_step b=.. h=.. hk=.. hv=..`, with the numbers in decimal.
pub open spec fn decode_step_label_text(b: usize, h: usize, hk: usize, hv: usize) -> Seq<char> {
    "gdn_decode_step b="@ + decimal(b as nat) + " h="@ + decimal(h as nat) + " hk="@ + decimal(
        hk as nat,
    ) + " hv="@ + decimal(hv as nat)
}

/// The arguments of one decode step.
pub struct DecodeStep {
    pub b: usize,
    pub h: usize,
    pub hk: usize,
    pub hv: usize,
    pub q: Buffer,
    pub k: Buffer,
    pub v: Buffer,
    pub g: Buffer,
    pub beta: Buffer,
    pub state_in: Buffer,
    pub state_out: Buffer,
    pub out: Buffer,
}

impl DecodeStep {
    /// The label of the step's debug group.
    pub open spec fn label(self) -> Seq<char> {
        decode_step_label_text(self.b, self.h, self.hk, self.hv)
    }

    /// The constants: the low 32 bits of each dimension but the batch.
    pub open spec fn args(self) -> GdnStepArgs {
        GdnStepArgs { hk: low_word(self.hk), hv: low_word(self.hv), h: low_word(self.h) }
    }

    /// What the argument slots hold, from slot zero on.
    pub open spec fn params(self) -> Seq<ParamView> {
        seq![
            ParamView::Read(self.q),
            ParamView::Read(self.k),
            ParamView::Read(self.v),
            ParamView::Read(self.g),
            ParamView::Read(self.beta),
            ParamView::Read(self.state_in),
            ParamView::Write(self.state_out),
            ParamView::Write(self.out),
            self.args().param(),
        ]
    }

    /// One thread for each element of `out`.
    pub open spec fn grid(self) -> MTLSize {
        MTLSize { width: self.hv, height: self.h, depth: self.b }
    }

    /// Threadgroups lie along the value dimension.
    pub open spec fn group(self) -> MTLSize {
        MTLSize {
            width: if self.hv <= MAX_GROUP_WIDTH {
                self.hv
            } else {
                MAX_GROUP_WIDTH
            },
            height: 1,
            depth: 1,
        }
    }

    /// The commands of the step on `pipeline`.
    pub open spec fn commands(self, pipeline: Pipeline) -> Seq<CommandView> {
        seq![CommandView::SetPipeline(pipeline), CommandView::DebugGroup(self.label())] + binds(
            self.params(),
        ) + seq![CommandView::DispatchThreads { grid: self.grid(), group: self.group() }]
    }

    /// What the step does once loading its pipeline gave `loaded`: it encodes
    /// its commands behind what is encoded already, or it hands the error on
    /// with nothing encoded.
    pub open spec fn outcome<E>(
        self,
        loaded: Result<Pipeline, E>,
        before: Seq<CommandView>,
        after: Seq<CommandView>,
        result: Result<(), E>,
    ) -> bool {
        match loaded {
            Ok(pipeline) => result == Ok::<(), E>(()) && after == before + self.commands(pipeline),
            Err(e) => result == Err::<(), E>(e) && after == before,
        }
    }
}

/// The label of a decode step's debug group.
fn decode_step_label(b: usize, h: usize, hk: usize, hv: usize) -> (label: String)
    ensures
        label@ == decode_step_label_text(b, h, hk, hv),
{
    let mut label: String = String::new();
    label.append("gdn_decode_step b=");
    append_decimal(&mut label, b);
    label.append(" h=");
    append_decimal(&mut label, h);
    label.append(" hk=");
    append_decimal(&mut label, hk);
    label.append(" hv=");
    append_decimal(&mut label, hv);
    label
}

/// Encodes a decode step whose pipeline has been loaded, or hands on the error
/// with which loading it failed.
///
/// Buffers are as in [`call_gdn_decode_step_f32`].
#[allow(clippy::too_many_arguments)]
pub fn encode_gdn_decode_step_f32<E>(
    loaded: Result<Pipeline, E>,
    encoder: &mut ComputeCommandEncoder,
    b: usize,
    h: usize,
    hk: usize,
    hv: usize,
    q: &Buffer,
    k: &Buffer,
    v: &Buffer,
    g: &Buffer,
    beta: &Buffer,
    state_in: &Buffer,
    state_out: &mut Buffer,
    out: &mut Buffer,
) -> (result: Result<(), E>)
    ensures
        (DecodeStep {
            b,
            h,
            hk,
            hv,
            q: *q,
            k: *k,
            v: *v,
            g: *g,
            beta: *beta,
            state_in: *state_in,
            state_out: *old(state_out),
            out: *old(out),
        }).outcome(loaded, old(encoder)@, final(encoder)@, result),
        *final(state_out) == *old(state_out),
        *final(out) == *old(out),
{
    let ghost step = DecodeStep {
        b,
        h,
        hk,
        hv,
        q: *q,
        k: *k,
        v: *v,
        g: *g,
        beta: *beta,
        state_in: *state_in,
        state_out: *state_out,
        out: *out,
    };
    let pipeline: Pipeline = match loaded {
        Ok(pipeline) => pipeline,
        Err(e) => {
            return Err(e);
        },
    };
    encoder.set_compute_pipeline_state(&pipeline);
    encoder.debug_group(decode_step_label(b, h, hk, hv));
    let args = GdnStepArgs { hk: to_word(hk), hv: to_word(hv), h: to_word(h) };
    EncoderParam::set_param(encoder, 0, q);
    EncoderParam::set_param(encoder, 1, k);
    EncoderParam::set_param(encoder, 2, v);
    EncoderParam::set_param(encoder, 3, g);
    EncoderParam::set_param(encoder, 4, beta);
    EncoderParam::set_param(encoder, 5, state_in);
    EncoderParam::set_param(encoder, 6, Output::new(state_out));
    EncoderParam::set_param(encoder, 7, Output::new(out));
    EncoderParam::set_param(encoder, 8, args);
    let grid = MTLSize { width: hv, height: h, depth: b };
    let group = MTLSize { width: hv.min(MAX_GROUP_WIDTH), height: 1, depth: 1 };
    encoder.dispatch_threads(grid, group);
    assert(encoder@ =~= old(encoder)@ + step.commands(pipeline));
    Ok(())
}

/// Fused gated-DeltaNet decode step: one dispatch that reads `state_in` and
/// writes `state_out` and `out`.
///
/// The pipeline comes from `load_pipeline`, which is asked once, for
/// [`DECODE_STEP_KERNEL`] of [`Source::Gdn`]. Where it fails, its error is
/// returned and nothing is encoded.
///
/// Shapes, all contiguous `f32`: `q` and `k` are `[b, h, hk]`; `v` is
/// `[b, h, hv]`; `g` and `beta` are `[b, h]`, with `g` the decay gate itself and
/// not its logarithm; `state_in` and `state_out` are `[b, h, hk, hv]`; `out` is
/// `[b, h, hv]`. `state_out` has to be a fresh buffer.
///
/// `state_out` and `out` are bound for writing. Bound for reading, they would
/// leave the read of `state_out` by the next decode step without a barrier
/// wherever the encoder orders dispatches by their bindings alone.
#[allow(clippy::too_many_arguments)]
pub fn call_gdn_decode_step_f32<E, L: FnOnce(Source, &'static str) -> Result<Pipeline, E>>(
    load_pipeline: L,
    encoder: &mut ComputeCommandEncoder,
    b: usize,
    h: usize,
    hk: usize,
    hv: usize,
    q: &Buffer,
    k: &Buffer,
    v: &Buffer,
    g: &Buffer,
    beta: &Buffer,
    state_in: &Buffer,
    state_out: &mut Buffer,
    out: &mut Buffer,
) -> (result: Result<(), E>)
    requires
        load_pipeline.requires((Source::Gdn, DECODE_STEP_KERNEL)),
    ensures
        exists|loaded: Result<Pipeline, E>| #[trigger]
            load_pipeline.ensures((Source::Gdn, DECODE_STEP_KERNEL), loaded) && (DecodeStep {
                b,
                h,
                hk,
                hv,
                q: *q,
                k: *k,
                v: *v,
                g: *g,
                beta: *beta,
                state_in: *state_in,
                state_out: *old(state_out),
                out: *old(out),
            }).outcome(loaded, old(encoder)@, final(encoder)@, result),
        *final(state_out) == *old(state_out),
        *final(out) == *old(out),
{
    let loaded = load_pipeline(Source::Gdn, DECODE_STEP_KERNEL);
    encode_gdn_decode_step_f32(
        loaded,
        encoder,
        b,
        h,
        hk,
        hv,
        q,
        k,
        v,
        g,
        beta,
        state_in,
        state_out,
        out,
    )
}

} // verus!
