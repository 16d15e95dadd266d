//! Bit-plane encoding for the parallel LED-strip bus: 16 strips share one
//! SPI clock/data line, so each 16-bit word on the wire carries one bit
//! plane of the packed 32-bit LED words of all rows at once.
//!
//! Per pixel the packed word is `(min(alpha, 31) | 0xE0) << 24 | blue << 16
//! | green << 8 | red`. For column `col` and plane index `k` (MSB first,
//! `nk = 31 - k`), bit `row` of the output word `buf[col * 32 + k]` is bit
//! `nk` of the packed word of `(col, row)`.

use crate::channel::{FrameSlot, SubmitOutcome};
use crate::error::PipelineError;
use crate::fps::FpsCounter;
use crate::frame::{FrameView, RgbaFrame};
use crate::protocol::{plan_view, spec_transmission_plan, transmission_plan, HwAction};
use vstd::prelude::*;

verus! {

/// Bit `i` of a 32-bit word.
pub open spec fn bit32(w: u32, i: u32) -> bool {
    w & (1u32 << i) != 0
}

/// Bit `i` of a 16-bit word.
pub open spec fn bit16(w: u16, i: u16) -> bool {
    w & (1u16 << i) != 0
}

/// The brightness byte on the wire: alpha clamped to its 5 significant bits,
/// under the fixed `0xE0` command bits.
pub open spec fn brightness_byte(a: u8) -> u8 {
    (if a < 31 {
        a
    } else {
        31u8
    }) | 0xe0
}

/// The packed 32-bit LED word of one RGBA pixel.
pub open spec fn packed_word(r: u8, g: u8, b: u8, a: u8) -> u32 {
    ((brightness_byte(a) as u32) << 24) | ((b as u32) << 16) | ((g as u32) << 8) | (r as u32)
}

/// The packed word of the pixel at `(col, row)` of a frame.
pub open spec fn pixel_word(image: RgbaFrame, col: int, row: int) -> u32 {
    packed_word(
        image.chan(col, row, 0),
        image.chan(col, row, 1),
        image.chan(col, row, 2),
        image.chan(col, row, 3),
    )
}

/// Bit `row` of the output word for column `col`, plane index `k`.
pub open spec fn out_bit(buf: Seq<u16>, col: int, k: int, row: int) -> bool {
    bit16(buf[col * 32 + k], row as u16)
}

/// `buf` is the bit-plane transposition of `image`: for every column and
/// every plane `nk = 31 - k`, bit `row` of the 16-bit output word is bit
/// `nk` of the packed word at `(col, row)`, and row bits beyond the frame
/// height are clear.
pub open spec fn is_bit_plane_encoding(buf: Seq<u16>, image: RgbaFrame) -> bool {
    &&& buf.len() == 32 * image@.width
    &&& forall|col: int, k: int, row: int|
        0 <= col < image@.width && 0 <= k < 32 && 0 <= row < 16 ==> #[trigger] out_bit(
            buf,
            col,
            k,
            row,
        ) == (row < image@.height && bit32(pixel_word(image, col, row), (31 - k) as u32))
}

/// Pack one pixel into its 32-bit LED word.
fn pack_pixel(image: &RgbaFrame, col: u32, row: u32) -> (w: u32)
    requires
        image.wf(),
        col < image@.width,
        row < image@.height,
    ensures
        w == pixel_word(*image, col as int, row as int),
{
    let r = image.get(col, row, 0);
    let g = image.get(col, row, 1);
    let b = image.get(col, row, 2);
    let a = image.get(col, row, 3);
    let bright = if a < 31 {
        a
    } else {
        31
    };
    let cmd: u8 = bright | 0xe0;
    ((cmd as u32) << 24) | ((b as u32) << 16) | ((g as u32) << 8) | (r as u32)
}

/// The selected plane bit of `w`, shifted into row position, is either the
/// single bit `1 << row` or zero.
proof fn lemma_plane_term(w: u32, nk: u32, row: u32, t: u32)
    by (bit_vector)
    requires
        nk < 32,
        row < 16,
        row < nk ==> t == (w & (1u32 << nk)) >> ((nk - row) as u32),
        !(row < nk) ==> t == (w & (1u32 << nk)) << ((row - nk) as u32),
    ensures
        t == if w & (1u32 << nk) != 0 {
            1u32 << row
        } else {
            0u32
        },
{
}

/// Bitwise or merges bit sets.
proof fn lemma_or_bit(a: u32, b: u32, i: u32)
    by (bit_vector)
    requires
        i < 32,
    ensures
        ((a | b) & (1u32 << i) != 0) == ((a & (1u32 << i) != 0) || (b & (1u32 << i) != 0)),
{
}

/// `1 << row` has exactly the bit `row`.
proof fn lemma_single_bit(row: u32, i: u32)
    by (bit_vector)
    requires
        row < 32,
        i < 32,
    ensures
        ((1u32 << row) & (1u32 << i) != 0) == (i == row),
        0u32 & (1u32 << i) == 0,
{
}

/// Truncating to 16 bits keeps the low 16 bits.
proof fn lemma_trunc16(v: u32, i: u16)
    by (bit_vector)
    requires
        i < 16,
    ensures
        ((v as u16) & (1u16 << i) != 0) == (v & (1u32 << (i as u32)) != 0),
{
}

/// Transpose a frame into bit planes: 32 16-bit words per column, MSB-first
/// plane order, bit `row` of each word carrying that row's plane bit.
pub fn to_output_buffer(image: &RgbaFrame) -> (buf: Vec<u16>)
    requires
        image.wf(),
        image@.height <= 16,
        32 * image@.width <= usize::MAX,
    ensures
        is_bit_plane_encoding(buf@, *image),
{
    let cols: u32 = image.width();
    let rows: u32 = image.height();
    let mut buf: Vec<u16> = Vec::new();
    let mut col: u32 = 0;
    while col < cols
        invariant
            image.wf(),
            cols == image@.width,
            rows == image@.height,
            rows <= 16,
            32 * cols <= usize::MAX,
            col <= cols,
            buf@.len() == 32 * col,
            forall|c: int, k: int, r: int|
                0 <= c < col && 0 <= k < 32 && 0 <= r < 16 ==> #[trigger] out_bit(buf@, c, k, r)
                    == (r < rows && bit32(pixel_word(*image, c, r), (31 - k) as u32)),
        decreases cols - col,
    {
        let mut k: u32 = 0;
        while k < 32
            invariant
                image.wf(),
                cols == image@.width,
                rows == image@.height,
                rows <= 16,
                32 * cols <= usize::MAX,
                col < cols,
                k <= 32,
                buf@.len() == 32 * col + k,
                forall|c: int, k2: int, r: int|
                    0 <= c < col && 0 <= k2 < 32 && 0 <= r < 16 ==> #[trigger] out_bit(
                        buf@,
                        c,
                        k2,
                        r,
                    ) == (r < rows && bit32(pixel_word(*image, c, r), (31 - k2) as u32)),
                forall|k2: int, r: int|
                    0 <= k2 < k && 0 <= r < 16 ==> #[trigger] out_bit(buf@, col as int, k2, r) == (
                    r < rows && bit32(pixel_word(*image, col as int, r), (31 - k2) as u32)),
            decreases 32 - k,
        {
            let ghost buf_pre = buf@;
            let nk: u32 = 31 - k;
            let mut v: u32 = 0;
            let mut row: u32 = 0;
            proof {
                assert forall|i: u32| i < 32 implies !bit32(0u32, i) by {
                    lemma_single_bit(0, i);
                }
            }
            while row < rows
                invariant
                    image.wf(),
                    cols == image@.width,
                    rows == image@.height,
                    rows <= 16,
                    col < cols,
                    nk < 32,
                    row <= rows,
                    forall|i: u32|
                        i < 32 ==> #[trigger] bit32(v, i) == (i < row && bit32(
                            pixel_word(*image, col as int, i as int),
                            nk,
                        )),
                decreases rows - row,
            {
                let w = pack_pixel(image, col, row);
                let s = w & (1u32 << nk);
                let t = if row < nk {
                    s >> (nk - row)
                } else {
                    s << (row - nk)
                };
                let v2 = v | t;
                proof {
                    lemma_plane_term(w, nk, row, t);
                    assert forall|i: u32| i < 32 implies #[trigger] bit32(v2, i) == (i < row + 1
                        && bit32(pixel_word(*image, col as int, i as int), nk)) by {
                        lemma_or_bit(v, t, i);
                        lemma_single_bit(row, i);
                        assert(bit32(v, i) == (i < row && bit32(
                            pixel_word(*image, col as int, i as int),
                            nk,
                        )));
                    }
                }
                v = v2;
                row = row + 1;
            }
            buf.push(#[verifier::truncate] (v as u16));
            proof {
                assert forall|r: int| 0 <= r < 16 implies #[trigger] out_bit(
                    buf@,
                    col as int,
                    k as int,
                    r,
                ) == (r < rows && bit32(pixel_word(*image, col as int, r), nk)) by {
                    lemma_trunc16(v, r as u16);
                    assert(buf@[col as int * 32 + k as int] == v as u16);
                    assert(bit32(v, r as u32) == ((r as u32) < rows && bit32(
                        pixel_word(*image, col as int, (r as u32) as int),
                        nk,
                    )));
                }
                assert forall|k2: int, r: int| 0 <= k2 < k && 0 <= r < 16 implies #[trigger] out_bit(
                    buf@,
                    col as int,
                    k2,
                    r,
                ) == (r < rows && bit32(pixel_word(*image, col as int, r), (31 - k2) as u32)) by {
                    assert(buf@[col as int * 32 + k2] == buf_pre[col as int * 32 + k2]);
                    assert(out_bit(buf_pre, col as int, k2, r) == (r < rows && bit32(
                        pixel_word(*image, col as int, r),
                        (31 - k2) as u32,
                    )));
                }
                assert forall|c: int, k2: int, r: int|
                    0 <= c < col && 0 <= k2 < 32 && 0 <= r < 16 implies #[trigger] out_bit(
                    buf@,
                    c,
                    k2,
                    r,
                ) == (r < rows && bit32(pixel_word(*image, c, r), (31 - k2) as u32)) by {
                    assert(buf@[c * 32 + k2] == buf_pre[c * 32 + k2]);
                    assert(out_bit(buf_pre, c, k2, r) == (r < rows && bit32(
                        pixel_word(*image, c, r),
                        (31 - k2) as u32,
                    )));
                }
            }
            k = k + 1;
        }
        col = col + 1;
    }
    buf
}

/// The big-endian serialization of a sequence of 16-bit words.
pub open spec fn be_bytes(words: Seq<u16>) -> Seq<u8> {
    Seq::new(
        2 * words.len(),
        |i: int|
            if i % 2 == 0 {
                (words[i / 2] >> 8) as u8
            } else {
                (words[i / 2] & 0xff) as u8
            },
    )
}

/// Serialize the 16-bit plane words big-endian, two bytes per word, as the
/// SPI bus transmits them.
pub fn to_bytes(input: &[u16]) -> (bytes: Vec<u8>)
    ensures
        bytes@ == be_bytes(input@),
        bytes@.len() == 2 * input@.len(),
        forall|i: int|
            0 <= i < input@.len() ==> bytes@[2 * i] == (#[trigger] input@[i] >> 8) as u8
                && bytes@[2 * i + 1] == (input@[i] & 0xff) as u8,
{
    let n: usize = input.len();
    let mut bytes: Vec<u8> = Vec::new();
    let mut i: usize = 0;
    while i < n
        invariant
            n == input@.len(),
            i <= n,
            bytes@.len() == 2 * i,
            forall|j: int|
                0 <= j < i ==> bytes@[2 * j] == (#[trigger] input@[j] >> 8) as u8 && bytes@[2 * j
                    + 1] == (input@[j] & 0xff) as u8,
        decreases n - i,
    {
        let v: u16 = input[i];
        bytes.push((v >> 8) as u8);
        bytes.push((v & 0xff) as u8);
        i = i + 1;
    }
    proof {
        assert forall|j: int| 0 <= j < bytes@.len() implies bytes@[j] == be_bytes(input@)[j] by {
            let h = j / 2;
            assert(j == 2 * h || j == 2 * h + 1);
        }
        assert(bytes@ =~= be_bytes(input@));
    }
    bytes
}

/// The packed word of an all-zero pixel is the bare command byte
/// `0xE0000000`: only the three fixed command bits are set.
pub proof fn lemma_zero_pixel_word()
    ensures
        packed_word(0, 0, 0, 0) == 0xe0000000u32,
{
    assert(((brightness_byte(0) as u32) << 24) | ((0u8 as u32) << 16) | ((0u8 as u32) << 8) | (
    0u8 as u32) == 0xe0000000u32) by (bit_vector);
}

/// The command-byte word has no bits below position 29.
proof fn lemma_command_word_low_bits(j: u32)
    by (bit_vector)
    requires
        j < 29,
    ensures
        0xe0000000u32 & (1u32 << j) == 0,
{
}

/// Offer a frame to a strip backend's channel, enforcing the backend's
/// fixed geometry: a frame of the wrong shape is rejected and the slot is
/// left untouched, so it can never reach the hardware.
pub fn submit_rgba(
    slot: &mut FrameSlot<RgbaFrame>,
    width: u32,
    height: u32,
    frame: RgbaFrame,
) -> (r: Result<SubmitOutcome, PipelineError>)
    requires
        old(slot).wf(),
    ensures
        final(slot).wf(),
        final(slot).policy() == old(slot).policy(),
        final(slot).is_closed() == old(slot).is_closed(),
        final(slot).delivered() == old(slot).delivered(),
        r == Err::<SubmitOutcome, PipelineError>(PipelineError::ShapeMismatch) <==> !(frame@.width
            == width && frame@.height == height),
        r == Err::<SubmitOutcome, PipelineError>(PipelineError::ShapeMismatch) ==> *final(slot)
            == *old(slot),
        frame@.width == width && frame@.height == height ==> {
            &&& (r == Err::<SubmitOutcome, PipelineError>(PipelineError::ChannelClosed)
                <==> old(slot).is_closed())
            &&& (r == Ok::<SubmitOutcome, PipelineError>(SubmitOutcome::Accepted)
                <==> !old(slot).is_closed() && old(slot).pending().len() == 0)
            &&& (r == Ok::<SubmitOutcome, PipelineError>(SubmitOutcome::Accepted)
                ==> final(slot).pending() == seq![frame]
                && final(slot).accepted() == old(slot).accepted().push(frame))
            &&& (r != Ok::<SubmitOutcome, PipelineError>(SubmitOutcome::Accepted)
                ==> final(slot).pending() == old(slot).pending()
                && final(slot).accepted() == old(slot).accepted())
        },
{
    if frame.width() != width || frame.height() != height {
        return Err(PipelineError::ShapeMismatch);
    }
    slot.submit(frame)
}

/// The hardware thread's view of a strip backend: fixed geometry, the
/// counter preset, and the telemetry counter. Each received frame of the
/// right shape is encoded into bit planes, serialized, and wrapped in the
/// full transmission sequence; any other shape is rejected before it can
/// desynchronize the bus.
pub struct StripBackend {
    length: u32,
    rows: u32,
    preset: u8,
    fps: FpsCounter,
    sent: Ghost<Seq<FrameView>>,
}

impl StripBackend {
    /// LEDs per strip: the width every submitted frame must have.
    pub closed spec fn spec_length(self) -> u32 {
        self.length
    }

    /// Number of strips: the height every submitted frame must have.
    pub closed spec fn spec_rows(self) -> u32 {
        self.rows
    }

    /// The counter preset loaded before every transmission.
    pub closed spec fn spec_preset(self) -> u8 {
        self.preset
    }

    pub closed spec fn frames_in_window(self) -> u32 {
        self.fps.count()
    }

    /// The frames whose transmission sequences were handed to the bus, in
    /// order: encoding and transmission of one frame completes before the
    /// next is started, and a rejected frame never appears here.
    pub closed spec fn frames_sent(self) -> Seq<FrameView> {
        self.sent@
    }

    pub open spec fn wf(self) -> bool {
        &&& self.spec_rows() <= 16
        &&& 32 * self.spec_length() <= usize::MAX
        &&& self.frames_in_window() < 256
    }

    /// A backend for `rows` strips of `length` LEDs each. The bus carries
    /// 16 parallel chains, so at most 16 rows; an absent preset defaults
    /// to 15, as the hardware counter expects.
    pub fn new(length: u32, rows: u32, preset: Option<u8>) -> (b: StripBackend)
        requires
            rows <= 16,
            32 * length <= usize::MAX,
        ensures
            b.wf(),
            b.spec_length() == length,
            b.spec_rows() == rows,
            b.spec_preset() == (match preset {
                Some(p) => p,
                None => 15u8,
            }),
            b.frames_in_window() == 0,
            b.frames_sent() == Seq::<FrameView>::empty(),
    {
        let p = match preset {
            Some(p) => p,
            None => 15,
        };
        StripBackend { length, rows, preset: p, fps: FpsCounter::new(), sent: Ghost(Seq::empty()) }
    }

    /// Handle one frame received from the channel: reject a wrong shape
    /// without touching the hardware; otherwise produce the complete
    /// transmission sequence for the frame's bit-plane encoding, and count
    /// the frame for telemetry.
    pub fn handle_frame(&mut self, frame: &RgbaFrame) -> (r: Result<
        (Vec<HwAction>, bool),
        PipelineError,
    >)
        requires
            old(self).wf(),
            frame.wf(),
        ensures
            final(self).wf(),
            final(self).spec_length() == old(self).spec_length(),
            final(self).spec_rows() == old(self).spec_rows(),
            final(self).spec_preset() == old(self).spec_preset(),
            r is Err <==> !(frame@.width == old(self).spec_length() && frame@.height
                == old(self).spec_rows()),
            r is Err ==> r == Err::<(Vec<HwAction>, bool), PipelineError>(
                PipelineError::ShapeMismatch,
            ) && final(self).frames_in_window() == old(self).frames_in_window()
                && final(self).frames_sent() == old(self).frames_sent(),
            r is Ok ==> final(self).frames_sent() == old(self).frames_sent().push(frame@),
            r is Ok ==> exists|words: Seq<u16>|
                #[trigger] is_bit_plane_encoding(words, *frame) && plan_view(r->Ok_0.0@)
                    == spec_transmission_plan(old(self).spec_preset(), be_bytes(words)),
            r is Ok ==> r->Ok_0.1 == (old(self).frames_in_window() + 1 == 256)
                && final(self).frames_in_window() == (if old(self).frames_in_window() + 1 == 256 {
                0u32
            } else {
                (old(self).frames_in_window() + 1) as u32
            }),
    {
        if frame.width() != self.length || frame.height() != self.rows {
            return Err(PipelineError::ShapeMismatch);
        }
        let words = to_output_buffer(frame);
        let bytes = to_bytes(words.as_slice());
        let plan = transmission_plan(self.preset, &bytes);
        let fired = self.fps.tick();
        proof {
            self.sent@ = self.sent@.push(frame@);
            assert(is_bit_plane_encoding(words@, *frame) && plan_view(plan@)
                == spec_transmission_plan(self.preset, be_bytes(words@)));
        }
        Ok((plan, fired))
    }
}

/// Rows composite without cross-talk. If every pixel outside row `row0` is
/// all-zero, then in every plane `k >= 3` — the planes that carry the
/// brightness magnitude and the color bits; planes 0, 1 and 2 carry the
/// fixed command bits, which every pixel of every row contributes — the
/// only row bit that can be set in the output word is `row0`'s, and it
/// equals bit `31 - k` of row0's packed word.
pub proof fn lemma_single_row_no_crosstalk(
    buf: Seq<u16>,
    image: RgbaFrame,
    col: int,
    row0: int,
    k: int,
)
    requires
        is_bit_plane_encoding(buf, image),
        image@.height <= 16,
        0 <= col < image@.width,
        0 <= row0 < image@.height,
        3 <= k < 32,
        forall|r: int, c: int|
            0 <= r < image@.height && r != row0 && 0 <= c < 4 ==> #[trigger] image.chan(col, r, c)
                == 0,
    ensures
        forall|r: int|
            0 <= r < 16 && r != row0 ==> !(#[trigger] out_bit(buf, col, k, r)),
        out_bit(buf, col, k, row0) == bit32(pixel_word(image, col, row0), (31 - k) as u32),
{
    lemma_zero_pixel_word();
    assert forall|r: int| 0 <= r < 16 && r != row0 implies !(#[trigger] out_bit(
        buf,
        col,
        k,
        r,
    )) by {
        if r < image@.height {
            assert(image.chan(col, r, 0) == 0);
            assert(image.chan(col, r, 1) == 0);
            assert(image.chan(col, r, 2) == 0);
            assert(image.chan(col, r, 3) == 0);
            assert(pixel_word(image, col, r) == 0xe0000000u32);
            lemma_command_word_low_bits((31 - k) as u32);
        }
    }
    assert(out_bit(buf, col, k, row0) == (row0 < image@.height && bit32(
        pixel_word(image, col, row0),
        (31 - k) as u32,
    )));
}

} // verus!
