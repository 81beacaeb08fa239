//! Processor kinds, the representation each one works on, and sample-type conversions.

use vstd::prelude::*;

use crate::audio::{AudioFormat, AudioSpec, SampleFormat};

verus! {

/// A processor that does nothing and passes audio through.
pub struct IdentityProcessor;

/// How a normalizer measures the level it scales to.
#[derive(Debug, Clone, Copy, PartialEq, Eq, Structural)]
pub enum NormalizationType {
    /// Scales the signal so that the highest peak reaches the target level.
    Peak,
    /// Scales the signal so that the average power (RMS) reaches the target level.
    Rms,
}

/// The kinds of processor a pipeline can hold.
#[derive(Debug, Clone, Copy, PartialEq, Eq, Structural)]
pub enum ProcessorKind {
    Identity,
    Denoiser,
    Resampler,
    ChannelConverter,
    Compressor,
    Normalizer,
    Pipeline,
    IndicatorDiag,
    WavDumpDiag,
}

impl ProcessorKind {
    /// Processors of whole audio chunks: the identity and nested pipelines.
    pub open spec fn spec_is_audio(self) -> bool {
        self is Identity || self is Pipeline
    }

    /// Returns `true` if this is a high-level audio processor.
    pub fn is_audio(&self) -> (b: bool)
        ensures
            b == self.spec_is_audio(),
    {
        match self {
            ProcessorKind::Identity | ProcessorKind::Pipeline => true,
            _ => false,
        }
    }

    /// Returns `true` if this is a low-level DSP processor: every kind but the
    /// identity (a nested pipeline is both).
    pub fn is_dsp(&self) -> (b: bool)
        ensures
            b == (self is Pipeline || !self.spec_is_audio()),
    {
        match self {
            ProcessorKind::Pipeline => true,
            _ => !self.is_audio(),
        }
    }
}

/// What a pipeline does before running one processor, and the representation it is in after.
#[derive(Debug, Clone, Copy, PartialEq, Eq, Structural)]
pub struct PipelineStep {
    /// Convert the PCM scratch buffer back to an audio chunk first.
    pub to_audio: bool,
    /// Convert the audio chunk to the PCM scratch buffer first.
    pub to_pcm: bool,
    /// Run the processor on the audio chunk (`true`) or on the PCM buffer (`false`).
    pub run_on_audio: bool,
}

/// The step for running a processor of `kind` while the data is held as PCM
/// (`in_pcm`) or as an audio chunk: convert only when the processor needs the other one.
pub open spec fn spec_pipeline_step(in_pcm: bool, kind: ProcessorKind) -> PipelineStep {
    if kind.spec_is_audio() {
        PipelineStep { to_audio: in_pcm, to_pcm: false, run_on_audio: true }
    } else {
        PipelineStep { to_audio: false, to_pcm: !in_pcm, run_on_audio: false }
    }
}

/// The step for running a processor of `kind` while the data is held as PCM
/// (`in_pcm`) or as an audio chunk.
pub fn pipeline_step(in_pcm: bool, kind: ProcessorKind) -> (step: PipelineStep)
    ensures
        step == spec_pipeline_step(in_pcm, kind),
{
    if kind.is_audio() {
        PipelineStep { to_audio: in_pcm, to_pcm: false, run_on_audio: true }
    } else {
        PipelineStep { to_audio: false, to_pcm: !in_pcm, run_on_audio: false }
    }
}

/// Where a run of a pipeline stands: how many processors have run, which
/// representation the data is held in, and whether a processor asked for
/// more input (which ends the run without output).
pub struct PipelineRun {
    ran: usize,
    in_pcm: bool,
    stopped: bool,
}

impl View for PipelineRun {
    type V = (nat, bool, bool);

    /// Processors run so far, data held as PCM, run stopped.
    closed spec fn view(&self) -> (nat, bool, bool) {
        (self.ran as nat, self.in_pcm, self.stopped)
    }
}

/// How a run ends.
#[derive(Debug, Clone, Copy, PartialEq, Eq, Structural)]
pub enum RunEnd {
    /// A processor needs more input: there is no output yet.
    NeedsInput,
    /// Every processor produced output; `to_audio` when the result is held as
    /// PCM and must be turned back into an audio chunk.
    Output { to_audio: bool },
}

impl PipelineRun {
    /// A run that has not started, with the data held as PCM (`in_pcm`) or as an audio chunk.
    pub fn start(in_pcm: bool) -> (run: Self)
        ensures
            run@ == (0nat, in_pcm, false),
    {
        PipelineRun { ran: 0, in_pcm, stopped: false }
    }

    /// True once a processor asked for more input: no further processor runs.
    pub fn is_stopped(&self) -> (stopped: bool)
        ensures
            stopped == self@.2,
    {
        self.stopped
    }

    /// The step before running the next processor, of kind `kind`; the data
    /// is then held where that processor works on it.
    pub fn step(&mut self, kind: ProcessorKind) -> (step: PipelineStep)
        requires
            !old(self)@.2,
        ensures
            step == spec_pipeline_step(old(self)@.1, kind),
            final(self)@ == (old(self)@.0, !step.run_on_audio, false),
    {
        let step = pipeline_step(self.in_pcm, kind);
        self.in_pcm = !step.run_on_audio;
        step
    }

    /// Records whether the processor that just ran produced output; the run
    /// stops at the first one that did not.
    pub fn record(&mut self, ready: bool)
        requires
            !old(self)@.2,
            old(self)@.0 < usize::MAX,
        ensures
            final(self)@ == (old(self)@.0 + 1, old(self)@.1, !ready),
    {
        self.ran = self.ran + 1;
        self.stopped = !ready;
    }

    /// How the run ends when it wants an audio chunk back.
    pub fn end_as_audio(&self) -> (end: RunEnd)
        ensures
            end == (if self@.2 { RunEnd::NeedsInput } else { RunEnd::Output { to_audio: self@.1 } }),
    {
        if self.stopped {
            RunEnd::NeedsInput
        } else {
            RunEnd::Output { to_audio: self.in_pcm }
        }
    }

    /// How the run ends when it wants PCM back (`to_audio` then says the
    /// result is held as an audio chunk and must be turned back into PCM).
    pub fn end_as_pcm(&self) -> (end: RunEnd)
        ensures
            end == (if self@.2 { RunEnd::NeedsInput } else { RunEnd::Output { to_audio: !self@.1 } }),
    {
        if self.stopped {
            RunEnd::NeedsInput
        } else {
            RunEnd::Output { to_audio: !self.in_pcm }
        }
    }
}

/// Running the processors `kinds` in order with every one producing output
/// takes the steps of the plan, and leaves the data where the last one
/// worked on it.
pub proof fn lemma_run_follows_plan(in_pcm: bool, kinds: Seq<ProcessorKind>, i: int)
    requires
        0 < i <= kinds.len(),
    ensures
        spec_pipeline_plan(in_pcm, kinds)[i - 1] == spec_pipeline_step(
            if i == 1 { in_pcm } else { !spec_pipeline_plan(in_pcm, kinds)[i - 2].run_on_audio },
            kinds[i - 1],
        ),
        !spec_pipeline_plan(in_pcm, kinds)[i - 1].run_on_audio == !kinds[i - 1].spec_is_audio(),
    decreases kinds.len(),
{
    lemma_pipeline_plan_len(in_pcm, kinds);
    if i > 1 {
        let step = spec_pipeline_step(in_pcm, kinds[0]);
        lemma_run_follows_plan(!step.run_on_audio, kinds.drop_first(), i - 1);
        if i > 2 {
            assert(kinds.drop_first()[i - 3] == kinds[i - 2]);
        }
        assert(kinds.drop_first()[i - 2] == kinds[i - 1]);
    }
}

/// The steps for running `kinds` in order, starting in the given representation.
pub open spec fn spec_pipeline_plan(in_pcm: bool, kinds: Seq<ProcessorKind>) -> Seq<PipelineStep>
    decreases kinds.len(),
{
    if kinds.len() == 0 {
        Seq::empty()
    } else {
        let step = spec_pipeline_step(in_pcm, kinds[0]);
        seq![step] + spec_pipeline_plan(!step.run_on_audio, kinds.drop_first())
    }
}

/// After each step, the processor that follows runs on the representation it
/// needs; a conversion happens only where that representation changes.
pub proof fn lemma_pipeline_plan_runs_each_kind_on_its_representation(
    in_pcm: bool,
    kinds: Seq<ProcessorKind>,
    i: int,
)
    requires
        0 <= i < kinds.len(),
    ensures
        spec_pipeline_plan(in_pcm, kinds).len() == kinds.len(),
        spec_pipeline_plan(in_pcm, kinds)[i].run_on_audio == kinds[i].spec_is_audio(),
        spec_pipeline_plan(in_pcm, kinds)[i].to_audio ==> kinds[i].spec_is_audio(),
        spec_pipeline_plan(in_pcm, kinds)[i].to_pcm ==> !kinds[i].spec_is_audio(),
        i > 0 ==> (spec_pipeline_plan(in_pcm, kinds)[i].to_audio || spec_pipeline_plan(in_pcm, kinds)[i].to_pcm
            <==> kinds[i - 1].spec_is_audio() != kinds[i].spec_is_audio()),
    decreases kinds.len(),
{
    lemma_pipeline_plan_len(in_pcm, kinds);
    if i > 0 {
        let step = spec_pipeline_step(in_pcm, kinds[0]);
        lemma_pipeline_plan_runs_each_kind_on_its_representation(!step.run_on_audio, kinds.drop_first(), i - 1);
        if i > 1 {
            assert(kinds.drop_first()[i - 2] == kinds[i - 1]);
        }
    }
}

proof fn lemma_pipeline_plan_len(in_pcm: bool, kinds: Seq<ProcessorKind>)
    ensures
        spec_pipeline_plan(in_pcm, kinds).len() == kinds.len(),
    decreases kinds.len(),
{
    if kinds.len() > 0 {
        let step = spec_pipeline_step(in_pcm, kinds[0]);
        lemma_pipeline_plan_len(!step.run_on_audio, kinds.drop_first());
    }
}

/// One format conversion of a pipeline between two stream formats.
#[derive(Debug, Clone, Copy, PartialEq, Eq, Structural)]
pub enum ConversionStep {
    /// Convert to this many channels.
    Channels(usize),
    /// Resample a stream of `input` to `output_rate`.
    Resample { input: AudioSpec, output_rate: u32 },
}

/// The conversions from a capture format `from` to `to`: the channel count
/// first (so that fewer channels are resampled), then the rate.
pub open spec fn spec_input_plan(from: AudioFormat, to: AudioFormat) -> Seq<ConversionStep> {
    let channels = if from.channels != to.channels {
        seq![ConversionStep::Channels(to.channels as usize)]
    } else {
        Seq::empty()
    };
    let current = AudioSpec {
        rate: from.sample_rate,
        channels: if from.channels != to.channels { to.channels as usize } else { from.channels as usize },
    };
    let rate = if from.sample_rate != to.sample_rate {
        seq![ConversionStep::Resample { input: current, output_rate: to.sample_rate }]
    } else {
        Seq::empty()
    };
    channels + rate
}

/// The conversions from `from` to a playback format `to`: the rate first,
/// then the channel count.
pub open spec fn spec_output_plan(from: AudioFormat, to: AudioFormat) -> Seq<ConversionStep> {
    let rate = if from.sample_rate != to.sample_rate {
        seq![ConversionStep::Resample {
            input: AudioSpec { rate: from.sample_rate, channels: from.channels as usize },
            output_rate: to.sample_rate,
        }]
    } else {
        Seq::empty()
    };
    let channels = if from.channels != to.channels {
        seq![ConversionStep::Channels(to.channels as usize)]
    } else {
        Seq::empty()
    };
    rate + channels
}

/// The conversions an input pipeline from `from` to `to` runs, in order.
pub fn input_plan(from: AudioFormat, to: AudioFormat) -> (steps: Vec<ConversionStep>)
    ensures
        steps@ == spec_input_plan(from, to),
{
    let mut steps: Vec<ConversionStep> = Vec::new();
    let mut current = from.spec();
    if from.channels != to.channels {
        steps.push(ConversionStep::Channels(to.channels as usize));
        current = AudioSpec { rate: from.sample_rate, channels: to.channels as usize };
    }
    if from.sample_rate != to.sample_rate {
        steps.push(ConversionStep::Resample { input: current, output_rate: to.sample_rate });
    }
    proof {
        let c = if from.channels != to.channels {
            seq![ConversionStep::Channels(to.channels as usize)]
        } else {
            Seq::<ConversionStep>::empty()
        };
        if from.sample_rate == to.sample_rate {
            assert(spec_input_plan(from, to) =~= c);
        }
    }
    steps
}

/// The conversions an output pipeline from `from` to `to` runs, in order.
pub fn output_plan(from: AudioFormat, to: AudioFormat) -> (steps: Vec<ConversionStep>)
    ensures
        steps@ == spec_output_plan(from, to),
{
    let mut steps: Vec<ConversionStep> = Vec::new();
    if from.sample_rate != to.sample_rate {
        steps.push(ConversionStep::Resample { input: from.spec(), output_rate: to.sample_rate });
    }
    if from.channels != to.channels {
        steps.push(ConversionStep::Channels(to.channels as usize));
    }
    proof {
        let r = if from.sample_rate != to.sample_rate {
            seq![ConversionStep::Resample {
                input: AudioSpec { rate: from.sample_rate, channels: from.channels as usize },
                output_rate: to.sample_rate,
            }]
        } else {
            Seq::<ConversionStep>::empty()
        };
        if from.channels == to.channels {
            assert(spec_output_plan(from, to) =~= r);
        } else if from.sample_rate == to.sample_rate {
            assert(spec_output_plan(from, to) =~= seq![ConversionStep::Channels(to.channels as usize)]);
        }
    }
    steps
}

/// A pipeline between two formats converts nothing exactly when they agree on
/// rate and channels; otherwise it has one step for each part that differs,
/// and the input and output pipelines run the same kinds of step in opposite order.
pub proof fn lemma_plans_convert_what_differs(from: AudioFormat, to: AudioFormat)
    ensures
        spec_input_plan(from, to).len() == spec_output_plan(from, to).len(),
        spec_input_plan(from, to).len() == (if from.channels != to.channels { 1int } else { 0int }) + (if from.sample_rate
            != to.sample_rate { 1int } else { 0int }),
        forall|i: int| 0 <= i < spec_input_plan(from, to).len() ==> (#[trigger] spec_input_plan(from, to)[i] is Channels
            <==> spec_output_plan(from, to)[spec_output_plan(from, to).len() - 1 - i] is Channels),
{
}

/// Every step of a conversion plan from `from` to `to` converts toward the
/// target: a channel step converts to the target's channel count, a
/// resampling step resamples to the target's rate from the source's rate (in
/// the input plan after the channels are already the target's, in the output
/// plan with the source's channels). A plan has a channel step exactly when
/// the channel counts differ and a resampling step exactly when the rates differ.
pub proof fn lemma_plans_convert_to_target(from: AudioFormat, to: AudioFormat)
    ensures
        forall|i: int| 0 <= i < spec_input_plan(from, to).len() ==> match #[trigger] spec_input_plan(from, to)[i] {
            ConversionStep::Channels(n) => n == to.channels as usize,
            ConversionStep::Resample { input, output_rate } => output_rate == to.sample_rate
                && input == (AudioSpec { rate: from.sample_rate, channels: to.channels as usize }),
        },
        forall|i: int| 0 <= i < spec_output_plan(from, to).len() ==> match #[trigger] spec_output_plan(from, to)[i] {
            ConversionStep::Channels(n) => n == to.channels as usize,
            ConversionStep::Resample { input, output_rate } => output_rate == to.sample_rate
                && input == (AudioSpec { rate: from.sample_rate, channels: from.channels as usize }),
        },
        (exists|i: int| 0 <= i < spec_input_plan(from, to).len() && #[trigger] spec_input_plan(from, to)[i] is Channels)
            <==> from.channels != to.channels,
        (exists|i: int| 0 <= i < spec_output_plan(from, to).len() && #[trigger] spec_output_plan(from, to)[i] is Channels)
            <==> from.channels != to.channels,
        (exists|i: int| 0 <= i < spec_input_plan(from, to).len() && #[trigger] spec_input_plan(from, to)[i] is Resample)
            <==> from.sample_rate != to.sample_rate,
        (exists|i: int| 0 <= i < spec_output_plan(from, to).len() && #[trigger] spec_output_plan(from, to)[i] is Resample)
            <==> from.sample_rate != to.sample_rate,
{
    let ip = spec_input_plan(from, to);
    let op = spec_output_plan(from, to);
    if from.channels != to.channels && from.sample_rate != to.sample_rate {
        assert(ip[0] is Channels && ip[1] is Resample);
        assert(op[0] is Resample && op[1] is Channels);
    } else if from.channels != to.channels {
        assert(ip[0] is Channels);
        assert(op[0] is Channels);
    } else if from.sample_rate != to.sample_rate {
        assert(ip[0] is Resample);
        assert(op[0] is Resample);
    }
}

/// Exactly the identity and nested pipelines work on audio chunks; every
/// other kind (denoiser, resampler, channel converter, compressor,
/// normalizer and the diagnostics) is a DSP processor: the pipeline hands it
/// the PCM buffer, converting to PCM first when the data is an audio chunk.
pub proof fn lemma_dsp_kinds_run_on_pcm(in_pcm: bool)
    ensures
        spec_pipeline_step(in_pcm, ProcessorKind::Identity) == (PipelineStep {
            to_audio: in_pcm,
            to_pcm: false,
            run_on_audio: true,
        }),
        spec_pipeline_step(in_pcm, ProcessorKind::Pipeline) == (PipelineStep {
            to_audio: in_pcm,
            to_pcm: false,
            run_on_audio: true,
        }),
        spec_pipeline_step(in_pcm, ProcessorKind::Denoiser) == (PipelineStep {
            to_audio: false,
            to_pcm: !in_pcm,
            run_on_audio: false,
        }),
        spec_pipeline_step(in_pcm, ProcessorKind::Resampler) == (PipelineStep {
            to_audio: false,
            to_pcm: !in_pcm,
            run_on_audio: false,
        }),
        spec_pipeline_step(in_pcm, ProcessorKind::ChannelConverter) == (PipelineStep {
            to_audio: false,
            to_pcm: !in_pcm,
            run_on_audio: false,
        }),
        spec_pipeline_step(in_pcm, ProcessorKind::Compressor) == (PipelineStep {
            to_audio: false,
            to_pcm: !in_pcm,
            run_on_audio: false,
        }),
        spec_pipeline_step(in_pcm, ProcessorKind::Normalizer) == (PipelineStep {
            to_audio: false,
            to_pcm: !in_pcm,
            run_on_audio: false,
        }),
        spec_pipeline_step(in_pcm, ProcessorKind::IndicatorDiag) == (PipelineStep {
            to_audio: false,
            to_pcm: !in_pcm,
            run_on_audio: false,
        }),
        spec_pipeline_step(in_pcm, ProcessorKind::WavDumpDiag) == (PipelineStep {
            to_audio: false,
            to_pcm: !in_pcm,
            run_on_audio: false,
        }),
        ProcessorKind::Identity.spec_is_audio() && ProcessorKind::Pipeline.spec_is_audio(),
        !ProcessorKind::Denoiser.spec_is_audio() && !ProcessorKind::Resampler.spec_is_audio()
            && !ProcessorKind::ChannelConverter.spec_is_audio() && !ProcessorKind::Compressor.spec_is_audio()
            && !ProcessorKind::Normalizer.spec_is_audio() && !ProcessorKind::IndicatorDiag.spec_is_audio()
            && !ProcessorKind::WavDumpDiag.spec_is_audio(),
{
}

/// The conversions a sample converter performs.
#[derive(Debug, Clone, Copy, PartialEq, Eq, Structural)]
pub enum SampleConversion {
    /// Source and target types are the same: the audio passes through.
    Passthrough,
    /// 32-bit float to 16-bit integer.
    F32ToI16,
    /// 16-bit integer to 32-bit float.
    I16ToF32,
}

/// Converts audio between two sample types.
pub struct SampleConverter {
    from: SampleFormat,
    to: SampleFormat,
}

impl SampleConverter {
    /// The source and target sample types.
    pub closed spec fn spec_formats(&self) -> (SampleFormat, SampleFormat) {
        (self.from, self.to)
    }

    /// A converter from one sample type to another.
    pub fn new(from: SampleFormat, to: SampleFormat) -> (c: Self)
        ensures
            c.spec_formats() == (from, to),
    {
        SampleConverter { from, to }
    }

    /// The conversion this converter performs, or `None` when the pair of
    /// types is not supported.
    pub fn conversion(&self) -> (c: Option<SampleConversion>)
        ensures
            self.spec_formats().0 == self.spec_formats().1 ==> c == Some(SampleConversion::Passthrough),
            self.spec_formats().0 != self.spec_formats().1 ==> c == (match self.spec_formats() {
                (SampleFormat::F32, SampleFormat::I16) => Some(SampleConversion::F32ToI16),
                (SampleFormat::I16, SampleFormat::F32) => Some(SampleConversion::I16ToF32),
                _ => None,
            }),
    {
        if self.from == self.to {
            return Some(SampleConversion::Passthrough);
        }
        match (self.from, self.to) {
            (SampleFormat::F32, SampleFormat::I16) => Some(SampleConversion::F32ToI16),
            (SampleFormat::I16, SampleFormat::F32) => Some(SampleConversion::I16ToF32),
            _ => None,
        }
    }
}

} // verus!
