//! The analysis side of the audio path: the window function choice, the
//! supported analysis sizes, and the buffer that turns sample blocks of any
//! length into analysis windows of exactly the configured length.

use crate::handoff::{Handoff, HandoffView};
use vstd::prelude::*;
use vstd::slice::slice_subrange;

verus! {

/// Smallest analysis window, in samples.
pub const MIN_FFT_SIZE: usize = 32;

/// Largest analysis window, in samples.
pub const MAX_FFT_SIZE: usize = 4096;

/// Analysis window of a freshly made engine, in samples.
pub const DEFAULT_FFT_SIZE: usize = 1024;

/// Taper applied to an analysis window before the transform.
#[derive(Debug, Clone, Copy, PartialEq, Eq, Structural)]
pub enum FFTWindow {
    Rectangular,
    Hanning,
    Hamming,
    Blackman,
}

/// A taper in cosine-sum form, in hundredths. At position `n` of a window of
/// `len` samples the multiplier is
/// `(constant - first * cos(2 pi n / (len - 1)) + second * cos(4 pi n / (len - 1))) / 100`.
#[derive(Debug, Clone, Copy, PartialEq, Eq, Structural)]
pub struct WindowTerms {
    pub constant: u32,
    pub first: u32,
    pub second: u32,
}

impl WindowTerms {
    /// A hundred times the multiplier of the first and of the last sample of
    /// a window, where both cosines are one.
    pub open spec fn edge(self) -> int {
        self.constant - self.first + self.second
    }

    /// A hundred times the multiplier at the middle of a window, where the
    /// first cosine is minus one and the second is one.
    pub open spec fn middle(self) -> int {
        self.constant + self.first + self.second
    }

    /// The multiplier is one at every position: no cosine takes part.
    pub open spec fn flat(self) -> bool {
        self.constant == 100 && self.first == 0 && self.second == 0
    }

    /// Whether the multiplier is one at every position.
    pub fn is_flat(&self) -> (flat: bool)
        ensures
            flat == self.flat(),
    {
        self.constant == 100 && self.first == 0 && self.second == 0
    }
}

impl FFTWindow {
    /// The cosine-sum form of each taper.
    pub open spec fn spec_terms(self) -> WindowTerms {
        match self {
            FFTWindow::Rectangular => WindowTerms { constant: 100, first: 0, second: 0 },
            FFTWindow::Hanning => WindowTerms { constant: 50, first: 50, second: 0 },
            FFTWindow::Hamming => WindowTerms { constant: 54, first: 46, second: 0 },
            FFTWindow::Blackman => WindowTerms { constant: 42, first: 50, second: 8 },
        }
    }

    /// The cosine-sum form of this taper.
    #[verifier::when_used_as_spec(spec_terms)]
    pub fn terms(self) -> (terms: WindowTerms)
        ensures
            terms == self.spec_terms(),
    {
        match self {
            FFTWindow::Rectangular => WindowTerms { constant: 100, first: 0, second: 0 },
            FFTWindow::Hanning => WindowTerms { constant: 50, first: 50, second: 0 },
            FFTWindow::Hamming => WindowTerms { constant: 54, first: 46, second: 0 },
            FFTWindow::Blackman => WindowTerms { constant: 42, first: 50, second: 8 },
        }
    }
}

/// The rectangular taper is the only flat one: it leaves every sample as it
/// is.
pub proof fn lemma_only_rectangular_is_flat(window: FFTWindow)
    ensures
        window.terms().flat() <==> window == FFTWindow::Rectangular,
{
}

/// At the first and the last sample of a window the Hanning and the Blackman
/// taper are zero, the Hamming taper is eight hundredths, and the
/// rectangular taper is one. In the middle every taper is one.
pub proof fn lemma_taper_at_edges_and_middle(window: FFTWindow)
    ensures
        window.terms().edge() == match window {
            FFTWindow::Rectangular => 100int,
            FFTWindow::Hanning => 0int,
            FFTWindow::Hamming => 8int,
            FFTWindow::Blackman => 0int,
        },
        window.terms().middle() == 100,
{
}

/// The samples of frame `index` of a block of interleaved frames of
/// `channels` samples each.
pub open spec fn frame_of(data: Seq<u32>, channels: int, index: int) -> Seq<u32> {
    data.subrange(index * channels, (index + 1) * channels)
}

/// `sample` is what `average` gives for a frame that holds `frame`.
pub open spec fn mixed<F: Fn(&[u32]) -> u32>(average: F, frame: Seq<u32>, sample: u32) -> bool {
    exists|held: &[u32]| held@ == frame && call_ensures(average, (held,), sample)
}

/// Mixes a block of interleaved frames down to one channel: one sample for
/// each complete frame, in order, each the `average` of its frame's samples.
/// Samples behind the last complete frame are left out.
pub fn downmix<F: Fn(&[u32]) -> u32>(data: &[u32], channels: usize, average: F) -> (mono: Vec<u32>)
    requires
        channels >= 1,
        forall|frame: &[u32]| frame@.len() == channels ==> call_requires(average, (frame,)),
    ensures
        mono@.len() == data@.len() as int / channels as int,
        forall|index: int|
            0 <= index < mono@.len() ==> mixed(
                average,
                frame_of(data@, channels as int, index),
                #[trigger] mono@[index],
            ),
{
    let frames: usize = data.len() / channels;
    let mut mono: Vec<u32> = Vec::with_capacity(frames);
    let mut index: usize = 0;
    proof {
        let len = data@.len() as int;
        let width = channels as int;
        vstd::arithmetic::div_mod::lemma_fundamental_div_mod(len, width);
        assert((len / width) * width <= len) by (nonlinear_arith)
            requires
                len == width * (len / width) + len % width,
                0 <= len % width,
        ;
    }
    while index < frames
        invariant
            channels >= 1,
            index <= frames,
            frames == data@.len() as int / channels as int,
            frames * channels <= data@.len() <= usize::MAX,
            mono@.len() == index,
            forall|frame: &[u32]| frame@.len() == channels ==> call_requires(average, (frame,)),
            forall|done: int|
                0 <= done < index ==> mixed(
                    average,
                    frame_of(data@, channels as int, done),
                    #[trigger] mono@[done],
                ),
        decreases frames - index,
    {
        assert((index + 1) * channels <= frames * channels && (index + 1) * channels == index
            * channels + channels && 0 <= index * channels) by (nonlinear_arith)
            requires
                0 <= index < frames,
                channels >= 1,
        ;
        let start: usize = index * channels;
        let frame = slice_subrange(data, start, start + channels);
        let sample = average(frame);
        assert(mixed(average, frame_of(data@, channels as int, index as int), sample));
        mono.push(sample);
        index += 1;
    }
    mono
}

/// Two to the power `k`.
pub open spec fn two_to(k: nat) -> nat
    decreases k,
{
    if k == 0 {
        1
    } else {
        2 * two_to((k - 1) as nat)
    }
}

/// The analysis sizes the engine works with: the powers of two from
/// `MIN_FFT_SIZE` to `MAX_FFT_SIZE`.
pub open spec fn supported_fft_size(n: int) -> bool {
    n == 32 || n == 64 || n == 128 || n == 256 || n == 512 || n == 1024 || n == 2048 || n == 4096
}

/// The supported size nearest to `n` on a logarithmic scale: the power of two
/// `s` with `s / sqrt(2) <= n < s * sqrt(2)`, held to the supported range.
pub open spec fn rounded_fft_size(n: int) -> int {
    if n * n < 2 * 32 * 32 {
        32
    } else if n * n < 2 * 64 * 64 {
        64
    } else if n * n < 2 * 128 * 128 {
        128
    } else if n * n < 2 * 256 * 256 {
        256
    } else if n * n < 2 * 512 * 512 {
        512
    } else if n * n < 2 * 1024 * 1024 {
        1024
    } else if n * n < 2 * 2048 * 2048 {
        2048
    } else {
        4096
    }
}

/// Rounds a requested analysis size to the supported size nearest to it on a
/// logarithmic scale.
pub fn round_fft_size(fftsize: usize) -> (size: usize)
    ensures
        size as int == rounded_fft_size(fftsize as int),
{
    if fftsize >= 4096 {
        assert(fftsize * fftsize >= 2 * 2048 * 2048) by (nonlinear_arith)
            requires
                fftsize >= 4096,
        ;
        return 4096;
    }
    assert(fftsize * fftsize < 4096 * 4096) by (nonlinear_arith)
        requires
            fftsize < 4096,
    ;
    let square: usize = fftsize * fftsize;
    if square < 2 * 32 * 32 {
        32
    } else if square < 2 * 64 * 64 {
        64
    } else if square < 2 * 128 * 128 {
        128
    } else if square < 2 * 256 * 256 {
        256
    } else if square < 2 * 512 * 512 {
        512
    } else if square < 2 * 1024 * 1024 {
        1024
    } else if square < 2 * 2048 * 2048 {
        2048
    } else {
        4096
    }
}

/// Number of bins in the one-sided spectrum of a transform of `n` points:
/// bins `0` to `n / 2`, both included.
pub open spec fn spectrum_len(n: int) -> int {
    n / 2 + 1
}

/// Keeps the non-redundant half of a transform's output: the bins from the
/// first up to and including the middle one, in their order.
pub fn one_sided(bins: Vec<u32>) -> (spectrum: Vec<u32>)
    requires
        bins@.len() >= 1,
    ensures
        spectrum@ == bins@.subrange(0, spectrum_len(bins@.len() as int)),
{
    let mut spectrum = bins;
    let kept: usize = spectrum.len() / 2 + 1;
    spectrum.truncate(kept);
    spectrum
}

/// Whether `n` is one of the supported analysis sizes.
pub fn is_supported_fft_size(n: usize) -> (supported: bool)
    ensures
        supported == supported_fft_size(n as int),
{
    n == 32 || n == 64 || n == 128 || n == 256 || n == 512 || n == 1024 || n == 2048 || n == 4096
}

/// What a spectrum frame holds, as plain values.
pub struct SpectrumFrameView {
    /// Magnitudes of the bins from the first to the middle one.
    pub magnitudes: Seq<u32>,
    /// Number of samples that stayed buffered when the frame's window left.
    pub backlog: nat,
    /// Length of the window that the frame was made from.
    pub fft_size: nat,
}

impl SpectrumFrameView {
    /// The frame comes from a window of a supported size and holds exactly
    /// that size's one-sided spectrum.
    pub open spec fn wf(self) -> bool {
        &&& supported_fft_size(self.fft_size as int)
        &&& self.magnitudes.len() == spectrum_len(self.fft_size as int)
    }

    /// The frame of a transform with the magnitudes `bins`, one for each of
    /// its points, made while `backlog` samples stayed buffered.
    pub open spec fn of(bins: Seq<u32>, backlog: nat) -> SpectrumFrameView {
        SpectrumFrameView {
            magnitudes: bins.subrange(0, spectrum_len(bins.len() as int)),
            backlog,
            fft_size: bins.len(),
        }
    }
}

/// The result of one analysis: a one-sided magnitude spectrum, the size of
/// the window it was made from, and the backlog at that time. A frame cannot
/// be changed once it is made.
#[derive(Debug)]
pub struct SpectrumFrame {
    magnitudes: Vec<u32>,
    backlog: usize,
    fft_size: usize,
}

impl View for SpectrumFrame {
    type V = SpectrumFrameView;

    closed spec fn view(&self) -> SpectrumFrameView {
        SpectrumFrameView {
            magnitudes: self.magnitudes@,
            backlog: self.backlog as nat,
            fft_size: self.fft_size as nat,
        }
    }
}

impl SpectrumFrame {
    /// Makes a frame from the magnitudes of all points of a transform, in
    /// their order, keeping the one-sided half. A transform whose number of
    /// points is not a supported analysis size gives no frame.
    pub fn new(bins: Vec<u32>, backlog: usize) -> (frame: Option<Self>)
        ensures
            supported_fft_size(bins@.len() as int) ==> {
                &&& frame matches Some(made)
                &&& made@ == SpectrumFrameView::of(bins@, backlog as nat)
                &&& made@.wf()
            },
            !supported_fft_size(bins@.len() as int) ==> frame is None,
    {
        let fft_size: usize = bins.len();
        if is_supported_fft_size(fft_size) {
            Some(SpectrumFrame { magnitudes: one_sided(bins), backlog, fft_size })
        } else {
            None
        }
    }

    /// Magnitudes of the bins from the first to the middle one.
    pub fn magnitudes(&self) -> (magnitudes: &Vec<u32>)
        ensures
            magnitudes@ == self@.magnitudes,
    {
        &self.magnitudes
    }

    /// Number of samples that stayed buffered when the frame's window left.
    pub fn backlog(&self) -> (backlog: usize)
        ensures
            backlog == self@.backlog,
    {
        self.backlog
    }

    /// Length of the window that the frame was made from.
    pub fn fft_size(&self) -> (fft_size: usize)
        ensures
            fft_size == self@.fft_size,
    {
        self.fft_size
    }
}

/// What an engine holds, as plain values.
pub struct AudioView {
    /// Samples received and not yet handed out, oldest first.
    pub pending: Seq<u32>,
    /// Length of the next analysis window.
    pub fft_size: nat,
    /// Taper for the next analysis window.
    pub fft_window: FFTWindow,
}

impl AudioView {
    /// A window can be drained: more samples are buffered than one window
    /// holds.
    pub open spec fn ready(self) -> bool {
        self.pending.len() > self.fft_size
    }

    /// The state after `block` has arrived.
    pub open spec fn fed(self, block: Seq<u32>) -> AudioView {
        AudioView { pending: self.pending + block, ..self }
    }

    /// The samples of the next window: the oldest `fft_size` ones.
    pub open spec fn window(self) -> Seq<u32> {
        self.pending.subrange(0, self.fft_size as int)
    }

    /// The state after the next window has left.
    pub open spec fn drained(self) -> AudioView {
        AudioView {
            pending: self.pending.subrange(self.fft_size as int, self.pending.len() as int),
            ..self
        }
    }
}

/// The spectrum engine's state: the samples waiting for analysis and the
/// current analysis settings.
pub struct Audio {
    pending: Vec<u32>,
    fftsize: usize,
    fftwindow: FFTWindow,
}

impl View for Audio {
    type V = AudioView;

    closed spec fn view(&self) -> AudioView {
        AudioView {
            pending: self.pending@,
            fft_size: self.fftsize as nat,
            fft_window: self.fftwindow,
        }
    }
}

impl Audio {
    /// The analysis size is always one of the supported powers of two.
    pub open spec fn wf(&self) -> bool {
        supported_fft_size(self@.fft_size as int)
    }

    /// An engine with nothing buffered, the default analysis size and the
    /// Hanning taper.
    pub fn new() -> (audio: Self)
        ensures
            audio.wf(),
            audio@.pending == Seq::<u32>::empty(),
            audio@.fft_size == DEFAULT_FFT_SIZE,
            audio@.fft_window == FFTWindow::Hanning,
    {
        Audio { pending: Vec::new(), fftsize: DEFAULT_FFT_SIZE, fftwindow: FFTWindow::Hanning }
    }

    /// Length of the next analysis window.
    pub fn fft_size(&self) -> (size: usize)
        ensures
            size == self@.fft_size,
    {
        self.fftsize
    }

    /// Taper for the next analysis window.
    pub fn fft_window(&self) -> (window: FFTWindow)
        ensures
            window == self@.fft_window,
    {
        self.fftwindow
    }

    /// Number of samples buffered and not yet handed out.
    pub fn backlog(&self) -> (count: usize)
        ensures
            count == self@.pending.len(),
    {
        self.pending.len()
    }

    /// Selects the taper for the windows drained from now on. Buffered samples
    /// are untouched.
    pub fn set_fft_window_func(&mut self, window_func: FFTWindow)
        ensures
            final(self)@ == (AudioView { fft_window: window_func, ..old(self)@ }),
    {
        self.fftwindow = window_func;
    }

    /// Selects the analysis size for the windows drained from now on: the
    /// supported size nearest to the request. Buffered samples are untouched.
    pub fn set_fft_size(&mut self, fftsize: usize)
        ensures
            final(self).wf(),
            final(self)@ == (AudioView {
                fft_size: rounded_fft_size(fftsize as int) as nat,
                ..old(self)@
            }),
    {
        self.fftsize = round_fft_size(fftsize);
    }

    /// Appends one block of samples behind those already buffered.
    pub fn push_block(&mut self, block: &[u32])
        ensures
            final(self)@ == old(self)@.fed(block@),
    {
        self.pending.extend_from_slice(block);
        assert(self.pending@ =~= old(self).pending@ + block@);
    }

    /// Hands out the next analysis window when one is ready.
    ///
    /// A window is ready when more samples are buffered than one window
    /// holds. Then the oldest `fft_size` samples leave the buffer, in their
    /// order, and come back together with the number of samples that stay
    /// behind. Otherwise nothing changes and nothing is returned.
    pub fn fetch_data(&mut self) -> (frame: Option<(Vec<u32>, usize)>)
        ensures
            old(self)@.ready() ==> {
                &&& frame matches Some((window, backlog))
                &&& window@ == old(self)@.window()
                &&& backlog == old(self)@.drained().pending.len()
                &&& final(self)@ == old(self)@.drained()
            },
            !old(self)@.ready() ==> {
                &&& frame is None
                &&& final(self)@ == old(self)@
            },
    {
        if self.pending.len() > self.fftsize {
            let mut window = self.pending.split_off(self.fftsize);
            std::mem::swap(&mut window, &mut self.pending);
            let backlog: usize = self.pending.len();
            Some((window, backlog))
        } else {
            None
        }
    }

    /// Takes in everything that waits in `source` and then hands out the
    /// next analysis window when one is ready.
    ///
    /// The samples from `source` stand behind those already buffered, in
    /// their order, and `source` is left empty. What comes back is what
    /// `fetch_data` gives on the buffer so filled.
    pub fn poll(&mut self, source: &mut Handoff) -> (frame: Option<(Vec<u32>, usize)>)
        ensures
            final(source)@ == old(source)@.emptied(),
            old(self)@.fed(old(source)@.queued).ready() ==> {
                &&& frame matches Some((window, backlog))
                &&& window@ == old(self)@.fed(old(source)@.queued).window()
                &&& backlog == old(self)@.fed(old(source)@.queued).drained().pending.len()
                &&& final(self)@ == old(self)@.fed(old(source)@.queued).drained()
            },
            !old(self)@.fed(old(source)@.queued).ready() ==> {
                &&& frame is None
                &&& final(self)@ == old(self)@.fed(old(source)@.queued)
            },
    {
        let arrived = source.take_all();
        self.push_block(arrived.as_slice());
        self.fetch_data()
    }
}

/// The supported sizes are exactly the powers of two from the fifth to the
/// twelfth.
pub proof fn lemma_supported_sizes_are_powers_of_two(n: int)
    ensures
        supported_fft_size(n) <==> exists|k: nat| 5 <= k <= 12 && n == #[trigger] two_to(k),
{
    reveal_with_fuel(two_to, 13);
    if supported_fft_size(n) {
        let k: nat = if n == 32 {
            5
        } else if n == 64 {
            6
        } else if n == 128 {
            7
        } else if n == 256 {
            8
        } else if n == 512 {
            9
        } else if n == 1024 {
            10
        } else if n == 2048 {
            11
        } else {
            12
        };
        assert(5 <= k <= 12 && n == two_to(k));
    }
}

/// Rounding always lands on a supported size.
pub proof fn lemma_rounded_size_is_supported(n: int)
    ensures
        supported_fft_size(rounded_fft_size(n)),
{
}

/// Rounding leaves a supported size as it is.
pub proof fn lemma_rounding_keeps_supported_sizes(n: int)
    requires
        supported_fft_size(n),
    ensures
        rounded_fft_size(n) == n,
{
}

/// Rounding a rounded size changes nothing.
pub proof fn lemma_rounding_is_idempotent(n: int)
    ensures
        rounded_fft_size(rounded_fft_size(n)) == rounded_fft_size(n),
{
    lemma_rounded_size_is_supported(n);
    lemma_rounding_keeps_supported_sizes(rounded_fft_size(n));
}

/// Rounding picks the nearest power of two on a logarithmic scale: the
/// request lies less than half an octave from the result, unless the result
/// is the end of the supported range that the request lies beyond.
pub proof fn lemma_rounded_size_is_nearest(n: int)
    requires
        n >= 0,
    ensures
        ({
            let s = rounded_fft_size(n);
            &&& s == MIN_FFT_SIZE || s * s <= 2 * (n * n)
            &&& s == MAX_FFT_SIZE || n * n < 2 * (s * s)
        }),
{
    let s = rounded_fft_size(n);
    assert(supported_fft_size(s));
    assert(s * s == if s == 32 {
        1024int
    } else if s == 64 {
        4096
    } else if s == 128 {
        16384
    } else if s == 256 {
        65536
    } else if s == 512 {
        262144
    } else if s == 1024 {
        1048576
    } else if s == 2048 {
        4194304
    } else {
        16777216
    }) by (nonlinear_arith)
        requires
            supported_fft_size(s),
    ;
}

/// Rounding never reorders two requests.
pub proof fn lemma_rounding_is_monotonic(a: int, b: int)
    requires
        0 <= a <= b,
    ensures
        rounded_fft_size(a) <= rounded_fft_size(b),
{
    assert(a * a <= b * b) by (nonlinear_arith)
        requires
            0 <= a <= b,
    ;
}

/// A drained window holds exactly one window's worth of samples, the buffer
/// shrinks by exactly that many, and window and remainder together are the
/// buffer as it was: nothing is lost, repeated or reordered.
pub proof fn lemma_drain_takes_one_window(state: AudioView)
    requires
        state.ready(),
    ensures
        state.window().len() == state.fft_size,
        state.drained().pending.len() == state.pending.len() - state.fft_size,
        state.window() + state.drained().pending == state.pending,
{
    assert(state.window() + state.drained().pending =~= state.pending);
}

/// Two windows drained one after the other are adjacent stretches of the
/// buffer: together they are its oldest two windows' worth of samples.
pub proof fn lemma_successive_windows_are_adjacent(state: AudioView)
    requires
        state.ready(),
        state.drained().ready(),
    ensures
        state.window() + state.drained().window() == state.pending.subrange(
            0,
            2 * state.fft_size as int,
        ),
        state.drained().drained().pending == state.pending.subrange(
            2 * state.fft_size as int,
            state.pending.len() as int,
        ),
{
    assert(state.window() + state.drained().window() =~= state.pending.subrange(
        0,
        2 * state.fft_size as int,
    ));
    assert(state.drained().drained().pending =~= state.pending.subrange(
        2 * state.fft_size as int,
        state.pending.len() as int,
    ));
}

/// A block makes a window ready exactly when it brings the buffer above one
/// window's worth of samples: as long as fewer samples than that have
/// accumulated, nothing is handed out, and the block only lengthens the
/// buffer.
pub proof fn lemma_ready_needs_more_than_a_window(state: AudioView, block: Seq<u32>)
    ensures
        state.fed(block).ready() <==> state.pending.len() + block.len() > state.fft_size,
        state.pending.len() + block.len() < state.fft_size ==> !state.fed(block).ready(),
        state.fed(block).pending.len() == state.pending.len() + block.len(),
        state.fed(block).fft_size == state.fft_size,
{
}

/// An engine that is polled until no window is ready holds at most one
/// window's worth of samples, and what a poll takes in from a hand-off adds
/// at most the hand-off's capacity to that.
pub proof fn lemma_buffered_samples_are_bounded(state: AudioView, source: HandoffView)
    requires
        !state.ready(),
        source.wf(),
    ensures
        state.pending.len() <= state.fft_size,
        state.fed(source.queued).pending.len() <= state.fft_size + source.capacity,
{
}

/// Feeding one window's worth of samples into a buffer that already holds at
/// least one makes a window ready, for every supported size, and the frame
/// made from a transform of that window is well formed and has
/// `fft_size / 2 + 1` magnitudes.
pub proof fn lemma_full_feed_is_ready(state: AudioView, block: Seq<u32>, bins: Seq<u32>)
    requires
        supported_fft_size(state.fft_size as int),
        state.pending.len() >= 1,
        block.len() == state.fft_size,
        bins.len() == state.fed(block).window().len(),
    ensures
        state.fed(block).ready(),
        SpectrumFrameView::of(bins, state.fed(block).drained().pending.len()).wf(),
        SpectrumFrameView::of(bins, state.fed(block).drained().pending.len()).magnitudes.len()
            == state.fft_size / 2 + 1,
{
}

/// Every window that an engine with a supported analysis size hands out
/// gives a well-formed frame: its transform has as many points as the
/// window has samples, and the frame holds `fft_size / 2 + 1` magnitudes.
pub proof fn lemma_frame_of_a_window_is_well_formed(state: AudioView, bins: Seq<u32>, backlog: nat)
    requires
        supported_fft_size(state.fft_size as int),
        state.ready(),
        bins.len() == state.window().len(),
    ensures
        SpectrumFrameView::of(bins, backlog).wf(),
        SpectrumFrameView::of(bins, backlog).fft_size == state.fft_size,
        SpectrumFrameView::of(bins, backlog).magnitudes.len() == state.fft_size / 2 + 1,
{
}

/// The one-sided spectrum of every supported size has at least one bin and
/// about half as many bins as the window has samples.
pub proof fn lemma_spectrum_len_of_supported_size(n: int)
    requires
        supported_fft_size(n),
    ensures
        spectrum_len(n) == n / 2 + 1,
        17 <= spectrum_len(n) <= 2049,
{
}

} // verus!
