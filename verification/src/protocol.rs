//! Hardware transmission sequence of the parallel strip bus, once per
//! encoded frame: pulse reset low for 100 µs and let it settle 100 µs,
//! load the counter preset (pins from the preset's low four bits, a low
//! pulse on counter-load while one dummy byte clocks the bus), open the
//! latch window, write the byte stream in chunks of at most 4096 bytes,
//! write a 16-byte `0xFF` trailer and a 128-byte zero trailer, and close
//! the latch window.
//!
//! The sequence is computed here as a plan of primitive actions with an
//! exact contract; the thread that owns the SPI and GPIO handles performs
//! the actions in order.

use vstd::prelude::*;

verus! {

/// One primitive operation against the strip hardware.
#[derive(Debug, Clone, PartialEq, Eq)]
pub enum HwAction {
    /// Drive the active-low reset line.
    SetReset(bool),
    /// Drive the four counter preset pins `cnt_p0 ..= cnt_p3`.
    SetCounterPins(bool, bool, bool, bool),
    /// Drive the active-low counter-load-enable line.
    SetCounterLoad(bool),
    /// Drive the active-low latch-clock-enable line.
    SetLatchEnable(bool),
    /// Write these bytes over the SPI bus.
    SpiWrite(Vec<u8>),
    /// Sleep this many microseconds.
    WaitMicros(u64),
}

/// Mathematical view of an action, with byte payloads as sequences.
pub enum ActionView {
    SetReset(bool),
    SetCounterPins(bool, bool, bool, bool),
    SetCounterLoad(bool),
    SetLatchEnable(bool),
    SpiWrite(Seq<u8>),
    WaitMicros(u64),
}

impl View for HwAction {
    type V = ActionView;

    open spec fn view(&self) -> ActionView {
        match self {
            HwAction::SetReset(b) => ActionView::SetReset(*b),
            HwAction::SetCounterPins(p0, p1, p2, p3) => ActionView::SetCounterPins(
                *p0,
                *p1,
                *p2,
                *p3,
            ),
            HwAction::SetCounterLoad(b) => ActionView::SetCounterLoad(*b),
            HwAction::SetLatchEnable(b) => ActionView::SetLatchEnable(*b),
            HwAction::SpiWrite(v) => ActionView::SpiWrite(v@),
            HwAction::WaitMicros(n) => ActionView::WaitMicros(*n),
        }
    }
}

/// The views of a plan's actions, in order.
pub open spec fn plan_view(plan: Seq<HwAction>) -> Seq<ActionView> {
    plan.map_values(|a: HwAction| a@)
}

/// Bit `i` of the counter preset value.
pub open spec fn preset_pin(preset: u8, i: u8) -> bool {
    preset & (1u8 << i) != 0
}

/// The reset pulse: low, 100 µs, high, 100 µs settle.
pub open spec fn reset_pulse_actions() -> Seq<ActionView> {
    seq![
        ActionView::SetReset(false),
        ActionView::WaitMicros(100),
        ActionView::SetReset(true),
        ActionView::WaitMicros(100),
    ]
}

/// Loading the counter preset: pins from the preset's bits, then a low
/// pulse on counter-load while one dummy byte clocks the bus.
pub open spec fn counter_preset_actions(preset: u8) -> Seq<ActionView> {
    seq![
        ActionView::SetCounterPins(
            preset_pin(preset, 0),
            preset_pin(preset, 1),
            preset_pin(preset, 2),
            preset_pin(preset, 3),
        ),
        ActionView::SetCounterLoad(false),
        ActionView::SpiWrite(seq![0u8]),
        ActionView::SetCounterLoad(true),
    ]
}

/// The byte stream split into SPI writes of at most 4096 bytes each,
/// in order.
pub open spec fn data_chunk_actions(data: Seq<u8>) -> Seq<ActionView>
    decreases data.len(),
{
    if data.len() <= 4096 {
        seq![ActionView::SpiWrite(data)]
    } else {
        seq![ActionView::SpiWrite(data.take(4096))] + data_chunk_actions(data.skip(4096))
    }
}

/// The end-frame padding: 16 bytes of `0xFF`, then 128 zero bytes.
pub open spec fn trailer_actions() -> Seq<ActionView> {
    seq![
        ActionView::SpiWrite(Seq::new(16, |i: int| 0xffu8)),
        ActionView::SpiWrite(Seq::new(128, |i: int| 0u8)),
    ]
}

/// The whole per-frame transmission sequence.
pub open spec fn spec_transmission_plan(preset: u8, data: Seq<u8>) -> Seq<ActionView> {
    reset_pulse_actions() + counter_preset_actions(preset) + seq![ActionView::SetLatchEnable(
        false,
    )] + data_chunk_actions(data) + trailer_actions() + seq![ActionView::SetLatchEnable(true)]
}

/// Copy `data[start .. end]` into a fresh buffer.
fn copy_range(data: &Vec<u8>, start: usize, end: usize) -> (out: Vec<u8>)
    requires
        start <= end <= data@.len(),
    ensures
        out@ == data@.subrange(start as int, end as int),
{
    let mut out: Vec<u8> = Vec::new();
    let mut i: usize = start;
    while i < end
        invariant
            start <= i <= end <= data@.len(),
            out@ =~= data@.subrange(start as int, i as int),
        decreases end - i,
    {
        out.push(data[i]);
        proof {
            assert(out@ =~= data@.subrange(start as int, i + 1 as int));
        }
        i = i + 1;
    }
    out
}

/// A buffer of `n` copies of `value`.
fn filled(value: u8, n: usize) -> (out: Vec<u8>)
    ensures
        out@ == Seq::new(n as nat, |i: int| value),
{
    let mut out: Vec<u8> = Vec::new();
    let mut i: usize = 0;
    while i < n
        invariant
            i <= n,
            out@.len() == i,
            forall|j: int| 0 <= j < i ==> out@[j] == value,
        decreases n - i,
    {
        out.push(value);
        i = i + 1;
    }
    proof {
        assert(out@ =~= Seq::new(n as nat, |i: int| value));
    }
    out
}

/// Compute the per-frame transmission sequence for the given counter
/// preset and encoded byte stream.
pub fn transmission_plan(preset: u8, data: &Vec<u8>) -> (plan: Vec<HwAction>)
    ensures
        plan_view(plan@) == spec_transmission_plan(preset, data@),
{
    let ghost head = reset_pulse_actions() + counter_preset_actions(preset) + seq![
        ActionView::SetLatchEnable(false),
    ];
    let mut plan: Vec<HwAction> = Vec::new();
    plan.push(HwAction::SetReset(false));
    plan.push(HwAction::WaitMicros(100));
    plan.push(HwAction::SetReset(true));
    plan.push(HwAction::WaitMicros(100));
    let p0 = preset & (1u8 << 0) != 0;
    let p1 = preset & (1u8 << 1) != 0;
    let p2 = preset & (1u8 << 2) != 0;
    let p3 = preset & (1u8 << 3) != 0;
    plan.push(HwAction::SetCounterPins(p0, p1, p2, p3));
    plan.push(HwAction::SetCounterLoad(false));
    let mut dummy: Vec<u8> = Vec::new();
    dummy.push(0);
    proof {
        assert(dummy@ =~= seq![0u8]);
    }
    plan.push(HwAction::SpiWrite(dummy));
    plan.push(HwAction::SetCounterLoad(true));
    plan.push(HwAction::SetLatchEnable(false));
    proof {
        assert(plan_view(plan@) =~= head);
        assert(data@.skip(0) =~= data@);
    }
    let n: usize = data.len();
    let mut off: usize = 0;
    while n - off > 4096
        invariant
            off <= n,
            n == data@.len(),
            plan_view(plan@) + data_chunk_actions(data@.skip(off as int)) =~= head
                + data_chunk_actions(data@),
        decreases n - off,
    {
        let ghost plan_pre = plan@;
        let chunk = copy_range(data, off, off + 4096);
        plan.push(HwAction::SpiWrite(chunk));
        proof {
            let rest = data@.skip(off as int);
            assert(rest.take(4096) =~= data@.subrange(off as int, off + 4096 as int));
            assert(rest.skip(4096) =~= data@.skip(off + 4096 as int));
            assert(plan_view(plan@) =~= plan_view(plan_pre) + seq![
                ActionView::SpiWrite(rest.take(4096)),
            ]);
            assert(plan_view(plan@) + data_chunk_actions(data@.skip(off + 4096 as int)) =~= head
                + data_chunk_actions(data@));
        }
        off = off + 4096;
    }
    let ghost plan_pre = plan@;
    let last = copy_range(data, off, n);
    plan.push(HwAction::SpiWrite(last));
    proof {
        let rest = data@.skip(off as int);
        assert(rest =~= data@.subrange(off as int, n as int));
        assert(plan_view(plan@) =~= plan_view(plan_pre) + seq![ActionView::SpiWrite(rest)]);
        assert(plan_view(plan@) =~= head + data_chunk_actions(data@));
    }
    let ghost plan_data = plan@;
    let ff = filled(0xff, 16);
    plan.push(HwAction::SpiWrite(ff));
    let zeros = filled(0, 128);
    plan.push(HwAction::SpiWrite(zeros));
    plan.push(HwAction::SetLatchEnable(true));
    proof {
        assert(plan_view(plan@) =~= plan_view(plan_data) + trailer_actions() + seq![
            ActionView::SetLatchEnable(true),
        ]);
        assert(plan_view(plan@) =~= spec_transmission_plan(preset, data@));
    }
    plan
}

/// The SPI payloads of a sequence of actions, concatenated in order.
pub open spec fn spi_payloads(actions: Seq<ActionView>) -> Seq<u8>
    decreases actions.len(),
{
    if actions.len() == 0 {
        Seq::empty()
    } else {
        (match actions[0] {
            ActionView::SpiWrite(p) => p,
            _ => Seq::empty(),
        }) + spi_payloads(actions.skip(1))
    }
}

/// The data section of the plan covers the byte stream exactly: the chunks
/// are all SPI writes of at most 4096 bytes, and reassembling them in
/// order gives back the encoded buffer unchanged.
pub proof fn lemma_data_chunks_reassemble(data: Seq<u8>)
    ensures
        spi_payloads(data_chunk_actions(data)) == data,
        forall|i: int|
            0 <= i < data_chunk_actions(data).len() ==> (#[trigger] data_chunk_actions(
                data,
            )[i]) is SpiWrite && data_chunk_actions(data)[i]->SpiWrite_0.len() <= 4096,
    decreases data.len(),
{
    if data.len() <= 4096 {
        let actions = data_chunk_actions(data);
        assert(actions.skip(1) =~= Seq::<ActionView>::empty());
        assert(spi_payloads(Seq::<ActionView>::empty()) == Seq::<u8>::empty());
        assert(actions[0] == ActionView::SpiWrite(data));
        assert(spi_payloads(actions) =~= data + Seq::<u8>::empty());
        assert(data + Seq::<u8>::empty() =~= data);
    } else {
        lemma_data_chunks_reassemble(data.skip(4096));
        let actions = data_chunk_actions(data);
        let rest = data_chunk_actions(data.skip(4096));
        assert(actions.skip(1) =~= rest);
        assert(spi_payloads(actions) =~= data.take(4096) + spi_payloads(rest));
        assert(data.take(4096) + data.skip(4096) =~= data);
    }
}

} // verus!
