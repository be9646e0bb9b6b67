//! The waterfall stage: the record that carries one spectrum to the graphics
//! device, and the bookkeeping of the two textures that take turns as the
//! image being written and the image being shown.

use crate::audio::{spectrum_len, supported_fft_size, SpectrumFrame, SpectrumFrameView};
use vstd::prelude::*;

verus! {

/// Number of magnitude slots in the record sent to the graphics device.
pub const MAX_BUFFER_SIZE: usize = 4096;

/// Width of one tile of the compute grid, in texels.
pub const WORKGROUP_WIDTH: u32 = 32;

/// Height of one tile of the compute grid, in texels.
pub const WORKGROUP_HEIGHT: u32 = 8;

/// Display gain of a record that no spectrum has been written to yet: the
/// bit pattern of the single-precision number nearest to 0.15.
pub const DEFAULT_FACTOR: u32 = 0x3E19_999A;

/// One spectrum laid out for the graphics device: a fixed number of
/// magnitude slots, how many of them are filled, and the display gain.
#[derive(Debug)]
pub struct SampleData {
    pub data: Vec<u32>,
    pub length: u32,
    pub factor: u32,
}

/// A spectrum that has more magnitudes than the record has slots.
#[derive(Debug, Clone, Copy, PartialEq, Eq, Structural)]
pub struct FrameTooLong {
    pub length: usize,
}

/// Number of bytes of a well-formed record as the graphics device sees it.
pub const RECORD_BYTES: usize = 16392;

/// The four bytes of a word, least significant first.
pub open spec fn word_le(word: u32) -> Seq<u8> {
    seq![
        (word % 256) as u8,
        (word / 256 % 256) as u8,
        (word / 65536 % 256) as u8,
        (word / 16777216) as u8,
    ]
}

/// The bytes of `words` in their order, each word written least significant
/// byte first.
pub open spec fn little_endian(words: Seq<u32>) -> Seq<u8> {
    Seq::new(4 * words.len(), |i: int| word_le(words[i / 4])[i % 4])
}

/// The bytes of `words` in their order, each word written most significant
/// byte first.
pub open spec fn big_endian(words: Seq<u32>) -> Seq<u8> {
    Seq::new(4 * words.len(), |i: int| word_le(words[i / 4])[3 - i % 4])
}

/// `bytes` is how `words` lie in memory on a machine of either byte order.
pub open spec fn memory_image(words: Seq<u32>, bytes: Seq<u8>) -> bool {
    bytes == little_endian(words) || bytes == big_endian(words)
}

/// Calls `bytemuck::cast_slice` from 32-bit words to bytes and copies what it
/// gives. The cast reinterprets the words' memory: the result has four bytes
/// for each word, the words in their order, and within each word the bytes
/// in the machine's byte order, which is one of the two for all words.
#[verifier::external_body]
fn words_as_bytes(words: &[u32]) -> (bytes: Vec<u8>)
    ensures
        memory_image(words@, bytes@),
{
    bytemuck::cast_slice::<u32, u8>(words).to_vec()
}

/// `filled` followed by zeros up to the full number of slots.
pub open spec fn padded(filled: Seq<u32>) -> Seq<u32>
    recommends
        filled.len() <= MAX_BUFFER_SIZE,
{
    filled + Seq::new((MAX_BUFFER_SIZE - filled.len()) as nat, |i: int| 0u32)
}

impl SampleData {
    /// Every slot is present and the fill count is within them.
    pub open spec fn wf(&self) -> bool {
        &&& self.data@.len() == MAX_BUFFER_SIZE
        &&& self.length <= MAX_BUFFER_SIZE
    }

    /// The magnitudes the record carries: the filled slots, in order.
    pub open spec fn magnitudes(&self) -> Seq<u32>
        recommends
            self.wf(),
    {
        self.data@.subrange(0, self.length as int)
    }

    /// The record as a sequence of words: every slot, then the fill count,
    /// then the gain.
    pub open spec fn words(&self) -> Seq<u32> {
        self.data@ + seq![self.length, self.factor]
    }

    /// The record as the graphics device receives it: the words of the slots,
    /// of the fill count and of the gain, in this order with no gaps, each in
    /// the machine's byte order.
    pub fn to_bytes(&self) -> (bytes: Vec<u8>)
        ensures
            memory_image(self.words(), bytes@),
            bytes@.len() == 4 * (self.data@.len() + 2),
            self.wf() ==> bytes@.len() == RECORD_BYTES,
    {
        let mut words: Vec<u32> = Vec::new();
        words.extend_from_slice(self.data.as_slice());
        words.push(self.length);
        words.push(self.factor);
        assert(words@ =~= self.words());
        words_as_bytes(words.as_slice())
    }

    /// A record with `data` in its first slots, zeros behind them, the number
    /// of magnitudes as fill count, and `factor` as gain.
    pub fn pack(data: &[u32], factor: u32) -> (record: Self)
        requires
            data@.len() <= MAX_BUFFER_SIZE,
        ensures
            record.wf(),
            record.data@ == padded(data@),
            record.length == data@.len(),
            record.factor == factor,
            record.magnitudes() == data@,
    {
        let count: usize = data.len();
        let mut slots: Vec<u32> = Vec::new();
        slots.extend_from_slice(data);
        let ghost copied = slots@;
        assert(copied =~= data@);
        slots.resize(MAX_BUFFER_SIZE, 0u32);
        assert forall|i: int| 0 <= i < MAX_BUFFER_SIZE implies slots@[i] == padded(data@)[i] by {
            if i < count {
                assert(slots@.subrange(0, count as int)[i] == copied[i]);
            }
        }
        assert(slots@ =~= padded(data@));
        assert(slots@.subrange(0, count as int) =~= data@);
        SampleData { data: slots, length: count as u32, factor }
    }

    /// The record before any spectrum has arrived: all slots zero and counted
    /// as filled, with the default gain.
    pub fn new() -> (record: Self)
        ensures
            record.wf(),
            record.data@ == padded(Seq::<u32>::empty()),
            record.length == MAX_BUFFER_SIZE,
            record.factor == DEFAULT_FACTOR,
    {
        let mut data: Vec<u32> = Vec::new();
        data.resize(MAX_BUFFER_SIZE, 0u32);
        assert(data@ =~= padded(Seq::<u32>::empty()));
        SampleData { data, length: 4096, factor: DEFAULT_FACTOR }
    }
}

/// Width and height of a texture, in texels.
#[derive(Debug, Clone, Copy, PartialEq, Eq, Structural)]
pub struct TextureSize {
    pub width: u32,
    pub height: u32,
}

/// One step of the waterfall: which texture is read, which is written, their
/// sizes, and how many tiles of the compute grid to launch in each direction.
#[derive(Debug, Clone, Copy, PartialEq, Eq, Structural)]
pub struct Dispatch {
    /// Index of the texture read as the image so far.
    pub history: usize,
    /// Index of the texture the new image is written to.
    pub current: usize,
    /// Size of the texture that is read.
    pub history_size: TextureSize,
    /// Size of the texture that is written.
    pub current_size: TextureSize,
    pub groups_x: u32,
    pub groups_y: u32,
    pub groups_z: u32,
}

/// What to do for one spectrum: whether the textures have to be made anew
/// first, the record to send, and the step to launch.
#[derive(Debug)]
pub struct FrameStep {
    pub resized: bool,
    pub record: SampleData,
    pub step: Dispatch,
}

/// Number of tiles of `tile` texels needed to cover `extent` texels, the last
/// tile possibly reaching beyond.
pub open spec fn tiles(extent: int, tile: int) -> int
    recommends
        tile > 0,
{
    (extent + tile - 1) / tile
}

/// Number of rows of the waterfall for an analysis size: one row for each
/// frequency bin below the middle one.
pub open spec fn bin_rows(fft_size: int) -> int {
    fft_size / 2
}

/// What the waterfall stage holds, as plain values.
pub struct ComputeView {
    /// Sizes of the two textures, by index.
    pub textures: Seq<TextureSize>,
    /// Index of the texture that the next step writes: 0 or 1.
    pub current_index: int,
    /// Number of rows the stage works with.
    pub height: u32,
}

impl ComputeView {
    /// Both textures exist, the index names one of them, and both have the
    /// height the stage works with.
    pub open spec fn wf(self) -> bool {
        &&& self.textures.len() == 2
        &&& 0 <= self.current_index < 2
        &&& self.textures[0].height == self.height
        &&& self.textures[1].height == self.height
    }

    /// Index of the texture that holds the last finished image: the one
    /// that the next step does not write.
    pub open spec fn output(self) -> int {
        1 - self.current_index
    }

    /// The stage after both textures were made anew for a display of
    /// `width` texels and `height` rows. The roles stay as they are.
    pub open spec fn resized(self, width: u32, height: u32) -> ComputeView {
        let size = TextureSize { width, height };
        ComputeView { textures: seq![size, size], current_index: self.current_index, height }
    }

    /// The stage brought to the number of rows that an analysis of `fft_size`
    /// samples needs: made anew when the number differs, else as it is.
    pub open spec fn fitted(self, width: u32, fft_size: u32) -> ComputeView {
        if self.height != bin_rows(fft_size as int) {
            self.resized(width, bin_rows(fft_size as int) as u32)
        } else {
            self
        }
    }

    /// The step that the stage takes next on a display of `width` texels.
    pub open spec fn plan(self, width: u32) -> Dispatch
        recommends
            self.wf(),
    {
        Dispatch {
            history: self.output() as usize,
            current: self.current_index as usize,
            history_size: self.textures[self.output()],
            current_size: self.textures[self.current_index],
            groups_x: tiles(width as int, WORKGROUP_WIDTH as int) as u32,
            groups_y: tiles(self.height as int, WORKGROUP_HEIGHT as int) as u32,
            groups_z: 1,
        }
    }

    /// The stage after one step: the two textures have changed roles.
    pub open spec fn updated(self) -> ComputeView {
        ComputeView { current_index: 1 - self.current_index, ..self }
    }

    /// The stage after `n` steps.
    pub open spec fn after_updates(self, n: nat) -> ComputeView
        decreases n,
    {
        if n == 0 {
            self
        } else {
            self.after_updates((n - 1) as nat).updated()
        }
    }
}

/// The waterfall stage's state: the sizes of its two textures and which of
/// them is written next.
pub struct Compute {
    textures: [TextureSize; 2],
    current_index: u8,
    height: u32,
}

impl View for Compute {
    type V = ComputeView;

    closed spec fn view(&self) -> ComputeView {
        ComputeView {
            textures: self.textures@,
            current_index: self.current_index as int,
            height: self.height,
        }
    }
}

impl Compute {
    /// The size of a texture for a display of `width` texels and `height`
    /// rows.
    pub fn create_texture(width: u32, height: u32) -> (size: TextureSize)
        ensures
            size == (TextureSize { width, height }),
    {
        TextureSize { width, height }
    }

    /// A stage with two textures of `width` by `height` texels, of which the
    /// first is written first.
    pub fn new(width: u32, height: u32) -> (stage: Self)
        ensures
            stage@.wf(),
            stage@.textures == seq![TextureSize { width, height }, TextureSize { width, height }],
            stage@.current_index == 0,
            stage@.height == height,
    {
        let texture_a = Self::create_texture(width, height);
        let texture_b = Self::create_texture(width, height);
        let stage = Compute { textures: [texture_a, texture_b], current_index: 0, height };
        assert(stage@.textures =~= seq![
            TextureSize { width, height },
            TextureSize { width, height },
        ]);
        stage
    }

    /// Number of rows the stage works with.
    pub fn height(&self) -> (height: u32)
        ensures
            height == self@.height,
    {
        self.height
    }

    /// Size of the texture with the given index.
    pub fn texture_size(&self, index: usize) -> (size: TextureSize)
        requires
            index < 2,
        ensures
            size == self@.textures[index as int],
    {
        self.textures[index]
    }

    /// Number of rows of the waterfall for an analysis of `fft_size` samples.
    pub fn rows_for(fft_size: u32) -> (rows: u32)
        ensures
            rows == bin_rows(fft_size as int),
    {
        fft_size / 2
    }

    /// Makes both textures anew for a display of `width` texels and `height`
    /// rows. Which texture is written next does not change.
    pub fn on_resize(&mut self, width: u32, height: u32)
        requires
            old(self)@.wf(),
        ensures
            final(self)@.wf(),
            final(self)@ == old(self)@.resized(width, height),
    {
        self.height = height;
        self.textures = [
            Self::create_texture(width, height),
            Self::create_texture(width, height),
        ];
        assert(self@.textures =~= old(self)@.resized(width, height).textures);
    }

    /// Brings the stage to the number of rows that an analysis size needs.
    /// Returns whether the textures had to be made anew.
    pub fn fit_fft_size(&mut self, width: u32, fft_size: u32) -> (resized: bool)
        requires
            old(self)@.wf(),
        ensures
            final(self)@.wf(),
            resized == (old(self)@.height != bin_rows(fft_size as int)),
            final(self)@ == old(self)@.fitted(width, fft_size),
    {
        let rows: u32 = Self::rows_for(fft_size);
        if self.height != rows {
            self.on_resize(width, rows);
            true
        } else {
            false
        }
    }

    /// Handles one spectrum frame on a display of `width` texels: fits the
    /// textures to the frame's analysis size, packs its magnitudes, and takes
    /// one step, in this order. The step so returned never works on textures
    /// of another size than the frame needs.
    pub fn process_frame(&mut self, width: u32, frame: &SpectrumFrame, factor: u32) -> (outcome:
        FrameStep)
        requires
            old(self)@.wf(),
            frame@.wf(),
        ensures
            final(self)@.wf(),
            outcome.resized == (old(self)@.height != bin_rows(frame@.fft_size as int)),
            outcome.record.wf(),
            outcome.record.data@ == padded(frame@.magnitudes),
            outcome.record.length == frame@.magnitudes.len(),
            outcome.record.factor == factor,
            outcome.step == old(self)@.fitted(width, frame@.fft_size as u32).plan(width),
            outcome.step.current_size.height == bin_rows(frame@.fft_size as int),
            outcome.step.history_size.height == bin_rows(frame@.fft_size as int),
            final(self)@ == old(self)@.fitted(width, frame@.fft_size as u32).updated(),
    {
        let record = SampleData::pack(frame.magnitudes().as_slice(), factor);
        let resized = self.fit_fft_size(width, frame.fft_size() as u32);
        let step = self.update(width);
        FrameStep { resized, record, step }
    }

    /// Takes one step on a display of `width` texels: returns what to bind
    /// and launch, and then lets the two textures change roles.
    pub fn update(&mut self, width: u32) -> (step: Dispatch)
        requires
            old(self)@.wf(),
        ensures
            final(self)@.wf(),
            step == old(self)@.plan(width),
            final(self)@ == old(self)@.updated(),
    {
        let current: u8 = self.current_index % 2;
        let history: u8 = 1 - current;
        let step = Dispatch {
            history: history as usize,
            current: current as usize,
            history_size: self.textures[history as usize],
            current_size: self.textures[current as usize],
            groups_x: Self::tile_count(width, WORKGROUP_WIDTH),
            groups_y: Self::tile_count(self.height, WORKGROUP_HEIGHT),
            groups_z: 1,
        };
        self.current_index = history;
        step
    }

    /// Index of the texture that holds the last finished image.
    pub fn output(&self) -> (index: usize)
        requires
            self@.wf(),
        ensures
            index == self@.output(),
    {
        (1 - self.current_index % 2) as usize
    }

    /// Number of tiles of `tile` texels that cover `extent` texels.
    pub fn tile_count(extent: u32, tile: u32) -> (count: u32)
        requires
            tile > 0,
        ensures
            count == tiles(extent as int, tile as int),
    {
        let whole: u32 = extent / tile;
        let partial: u32 = extent % tile;
        proof {
            lemma_tiles_split(extent as int, tile as int);
            vstd::arithmetic::div_mod::lemma_fundamental_div_mod(extent as int, tile as int);
        }
        if partial == 0 {
            whole
        } else {
            assert(whole < u32::MAX) by (nonlinear_arith)
                requires
                    extent == tile * whole + partial,
                    0 < partial < tile,
                    extent <= u32::MAX,
                    whole >= 0,
            ;
            whole + 1
        }
    }

    /// Writes one spectrum and its display gain into a fresh record.
    ///
    /// The magnitudes fill the first slots in their order, every slot behind
    /// them is zero, and the fill count is their number. A spectrum with more
    /// magnitudes than slots is refused, and the refusal carries its length.
    pub fn update_data(&self, data: &[u32], factor: u32) -> (packed: Result<SampleData, FrameTooLong>)
        ensures
            data@.len() <= MAX_BUFFER_SIZE ==> {
                &&& packed matches Ok(record)
                &&& record.wf()
                &&& record.data@ == padded(data@)
                &&& record.length == data@.len()
                &&& record.factor == factor
                &&& record.magnitudes() == data@
            },
            data@.len() > MAX_BUFFER_SIZE ==> {
                &&& packed matches Err(refusal)
                &&& refusal.length == data@.len()
            },
    {
        let count: usize = data.len();
        if count > MAX_BUFFER_SIZE {
            Err(FrameTooLong { length: count })
        } else {
            Ok(SampleData::pack(data, factor))
        }
    }
}

/// Rounding up to whole tiles adds one tile exactly when a remainder is left.
pub proof fn lemma_tiles_split(extent: int, tile: int)
    requires
        extent >= 0,
        tile > 0,
    ensures
        tiles(extent, tile) == extent / tile + if extent % tile == 0 {
            0int
        } else {
            1int
        },
{
    vstd::arithmetic::div_mod::lemma_fundamental_div_mod(extent, tile);
    let q = extent / tile;
    let r = extent % tile;
    assert(extent + tile - 1 == q * tile + (r + tile - 1)) by (nonlinear_arith)
        requires
            extent == tile * q + r,
    ;
    if r == 0 {
        vstd::arithmetic::div_mod::lemma_fundamental_div_mod_converse(
            extent + tile - 1,
            tile,
            q,
            tile - 1,
        );
    } else {
        assert(extent + tile - 1 == (q + 1) * tile + (r - 1)) by (nonlinear_arith)
            requires
                extent == tile * q + r,
        ;
        vstd::arithmetic::div_mod::lemma_fundamental_div_mod_converse(
            extent + tile - 1,
            tile,
            q + 1,
            r - 1,
        );
    }
}

/// Whole tiles cover the extent, and one tile fewer would not.
pub proof fn lemma_tiles_cover(extent: int, tile: int)
    requires
        extent >= 0,
        tile > 0,
    ensures
        tiles(extent, tile) * tile >= extent,
        (tiles(extent, tile) - 1) * tile < extent,
{
    lemma_tiles_split(extent, tile);
    vstd::arithmetic::div_mod::lemma_fundamental_div_mod(extent, tile);
    let q = extent / tile;
    let r = extent % tile;
    assert((q + 1) * tile == q * tile + tile && (q - 1) * tile == q * tile - tile
        && q * tile == tile * q) by (nonlinear_arith);
}

/// The one-sided spectrum of every supported analysis size fits the record,
/// so packing it is never refused.
pub proof fn lemma_supported_spectrum_fits_record(fft_size: int)
    requires
        supported_fft_size(fft_size),
    ensures
        spectrum_len(fft_size) <= MAX_BUFFER_SIZE,
{
}

/// The magnitudes of every well-formed frame fit the record, and the rows
/// that the frame needs are one fewer than its magnitudes.
pub proof fn lemma_frame_fits_record(frame: SpectrumFrameView)
    requires
        frame.wf(),
    ensures
        frame.magnitudes.len() <= MAX_BUFFER_SIZE,
        bin_rows(frame.fft_size as int) == frame.magnitudes.len() - 1,
{
}

/// Two steps bring both textures back to the roles they had, and a single
/// step always changes which texture is shown.
pub proof fn lemma_roles_have_period_two(stage: ComputeView)
    requires
        stage.wf(),
    ensures
        stage.updated().wf(),
        stage.updated().updated() == stage,
        stage.updated().output() != stage.output(),
{
}

/// After `n` steps the texture shown is the one shown at the start when `n`
/// is even and the other one when `n` is odd. Steps change neither the
/// textures nor the number of rows.
pub proof fn lemma_output_alternates(stage: ComputeView, n: nat)
    requires
        stage.wf(),
    ensures
        stage.after_updates(n).wf(),
        stage.after_updates(n).textures == stage.textures,
        stage.after_updates(n).height == stage.height,
        stage.after_updates(n).output() == if n % 2 == 0 {
            stage.output()
        } else {
            1 - stage.output()
        },
    decreases n,
{
    if n > 0 {
        lemma_output_alternates(stage, (n - 1) as nat);
    }
}

/// A stage that writes its first texture first shows the first texture after
/// an odd number of steps and the second after an even number.
pub proof fn lemma_output_of_fresh_stage(stage: ComputeView, n: nat)
    requires
        stage.wf(),
        stage.current_index == 0,
    ensures
        stage.after_updates(n).output() == if n % 2 == 1 {
            0int
        } else {
            1int
        },
{
    lemma_output_alternates(stage, n);
}

/// A step reads the texture that is shown and writes the other one; once the
/// step is taken, the texture shown is the one it wrote, and the step after
/// it reads that texture.
pub proof fn lemma_output_is_last_written(stage: ComputeView, width: u32, next_width: u32)
    requires
        stage.wf(),
    ensures
        stage.plan(width).history == stage.output(),
        stage.plan(width).current != stage.output(),
        stage.updated().output() == stage.plan(width).current,
        stage.updated().plan(next_width).history == stage.plan(width).current,
{
}

/// Every step works on textures of the stage's own number of rows, with a
/// grid that covers the display's width and all rows.
pub proof fn lemma_step_covers_stage(stage: ComputeView, width: u32)
    requires
        stage.wf(),
    ensures
        stage.plan(width).history_size.height == stage.height,
        stage.plan(width).current_size.height == stage.height,
        stage.plan(width).groups_x * WORKGROUP_WIDTH >= width,
        stage.plan(width).groups_y * WORKGROUP_HEIGHT >= stage.height,
{
    lemma_tiles_cover(width as int, WORKGROUP_WIDTH as int);
    lemma_tiles_cover(stage.height as int, WORKGROUP_HEIGHT as int);
}

/// After the textures were made anew, the next step reads and writes
/// textures of the new size only, whatever the stage held before.
pub proof fn lemma_step_after_resize_uses_new_size(stage: ComputeView, width: u32, height: u32)
    requires
        stage.wf(),
    ensures
        stage.resized(width, height).wf(),
        stage.resized(width, height).plan(width).history_size == (TextureSize { width, height }),
        stage.resized(width, height).plan(width).current_size == (TextureSize { width, height }),
        stage.resized(width, height).plan(width).groups_y * WORKGROUP_HEIGHT >= height,
        stage.resized(width, height).output() == stage.output(),
{
    lemma_step_covers_stage(stage.resized(width, height), width);
}

} // verus!
