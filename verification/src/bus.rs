use vstd::prelude::*;

verus! {

/// One step on the panel's bus, as a mathematical value.
pub enum BusStep {
    /// Drive the data/command line: `false` is command, `true` is data.
    Dc(bool),
    /// Drive the chip-select line: `false` selects the panel.
    Cs(bool),
    /// Drive the reset line.
    Rst(bool),
    /// Send these bytes over SPI.
    Write(Seq<u8>),
    /// Send these bytes over SPI the given number of times in a row.
    WriteRepeated(Seq<u8>, nat),
    /// Wait this many milliseconds.
    DelayMs(nat),
}

/// One step on the panel's bus, as the driver hands it to the hardware.
#[derive(Debug, PartialEq, Eq)]
pub enum BusOp {
    Dc(bool),
    Cs(bool),
    Rst(bool),
    Write(Vec<u8>),
    WriteRepeated(Vec<u8>, u32),
    DelayMs(u32),
}

impl View for BusOp {
    type V = BusStep;

    open spec fn view(&self) -> BusStep {
        match self {
            BusOp::Dc(l) => BusStep::Dc(*l),
            BusOp::Cs(l) => BusStep::Cs(*l),
            BusOp::Rst(l) => BusStep::Rst(*l),
            BusOp::Write(b) => BusStep::Write(b@),
            BusOp::WriteRepeated(b, n) => BusStep::WriteRepeated(b@, *n as nat),
            BusOp::DelayMs(ms) => BusStep::DelayMs(*ms as nat),
        }
    }
}

/// The views of a sequence of bus operations.
pub open spec fn steps_of(ops: Seq<BusOp>) -> Seq<BusStep> {
    ops.map_values(|o: BusOp| o@)
}

/// Whether chip-select is low (the panel selected) before step `i` of
/// `steps`, starting from `low`.
pub open spec fn cs_low_at(steps: Seq<BusStep>, i: int, low: bool) -> bool
    decreases i,
{
    if i <= 0 {
        low
    } else {
        match steps[i - 1] {
            BusStep::Cs(level) => !level,
            _ => cs_low_at(steps, i - 1, low),
        }
    }
}

/// Whether chip-select is low after all of `steps`.
pub open spec fn cs_low_after(steps: Seq<BusStep>, low: bool) -> bool {
    cs_low_at(steps, steps.len() as int, low)
}

/// A step sends data only with the panel selected, in whole 16-bit words.
pub open spec fn write_ok(step: BusStep, selected: bool) -> bool {
    match step {
        BusStep::Write(b) => selected && b.len() % 2 == 0,
        BusStep::WriteRepeated(b, _) => selected && b.len() % 2 == 0,
        _ => true,
    }
}

/// Every SPI transfer in `steps` happens with the panel selected and is a
/// whole number of 16-bit words.
pub open spec fn writes_framed(steps: Seq<BusStep>, low: bool) -> bool {
    forall|i: int| 0 <= i < steps.len() ==> write_ok(#[trigger] steps[i], cs_low_at(steps, i, low))
}

/// The bus discipline of the panel: starting deselected, every transfer is
/// 16-bit aligned and framed by chip-select, and the panel is deselected
/// again at the end.
pub open spec fn bus_protocol_ok(steps: Seq<BusStep>) -> bool {
    writes_framed(steps, false) && !cs_low_after(steps, false)
}

/// Number of bytes sent over SPI by `steps`.
pub open spec fn bytes_sent(steps: Seq<BusStep>) -> nat
    decreases steps.len(),
{
    if steps.len() == 0 {
        0
    } else {
        bytes_sent(steps.drop_last()) + match steps.last() {
            BusStep::Write(b) => b.len(),
            BusStep::WriteRepeated(b, n) => b.len() * n,
            _ => 0,
        }
    }
}

pub proof fn lemma_steps_of_push(ops: Seq<BusOp>, op: BusOp)
    ensures
        steps_of(ops.push(op)) == steps_of(ops).push(op@),
{
    assert(steps_of(ops.push(op)) =~= steps_of(ops).push(op@));
}

pub proof fn lemma_cs_prefix(a: Seq<BusStep>, b: Seq<BusStep>, i: int, low: bool)
    requires
        0 <= i <= a.len(),
    ensures
        cs_low_at(a + b, i, low) == cs_low_at(a, i, low),
    decreases i,
{
    if i > 0 {
        assert((a + b)[i - 1] == a[i - 1]);
        lemma_cs_prefix(a, b, i - 1, low);
    }
}

pub proof fn lemma_cs_suffix(a: Seq<BusStep>, b: Seq<BusStep>, j: int, low: bool)
    requires
        0 <= j <= b.len(),
    ensures
        cs_low_at(a + b, a.len() + j, low) == cs_low_at(b, j, cs_low_after(a, low)),
    decreases j,
{
    if j == 0 {
        lemma_cs_prefix(a, b, a.len() as int, low);
    } else {
        assert((a + b)[a.len() + j - 1] == b[j - 1]);
        lemma_cs_suffix(a, b, j - 1, low);
    }
}

pub proof fn lemma_cs_after_concat(a: Seq<BusStep>, b: Seq<BusStep>, low: bool)
    ensures
        cs_low_after(a + b, low) == cs_low_after(b, cs_low_after(a, low)),
{
    lemma_cs_suffix(a, b, b.len() as int, low);
}

pub proof fn lemma_framed_concat(a: Seq<BusStep>, b: Seq<BusStep>, low: bool)
    requires
        writes_framed(a, low),
        writes_framed(b, cs_low_after(a, low)),
    ensures
        writes_framed(a + b, low),
{
    assert forall|i: int| 0 <= i < (a + b).len() implies write_ok(
        #[trigger] (a + b)[i],
        cs_low_at(a + b, i, low),
    ) by {
        if i < a.len() {
            lemma_cs_prefix(a, b, i, low);
            assert((a + b)[i] == a[i]);
        } else {
            lemma_cs_suffix(a, b, i - a.len(), low);
            assert((a + b)[i] == b[i - a.len()]);
        }
    }
}

pub proof fn lemma_bytes_sent_concat(a: Seq<BusStep>, b: Seq<BusStep>)
    ensures
        bytes_sent(a + b) == bytes_sent(a) + bytes_sent(b),
    decreases b.len(),
{
    if b.len() == 0 {
        assert(a + b =~= a);
    } else {
        assert((a + b).drop_last() =~= a + b.drop_last());
        assert((a + b).last() == b.last());
        lemma_bytes_sent_concat(a, b.drop_last());
    }
}

/// A segment that starts and ends with the panel deselected and keeps the
/// discipline can be appended to a well-behaved history.
pub proof fn lemma_protocol_append(a: Seq<BusStep>, b: Seq<BusStep>)
    requires
        bus_protocol_ok(a),
        bus_protocol_ok(b),
    ensures
        bus_protocol_ok(a + b),
{
    lemma_cs_after_concat(a, b, false);
    lemma_framed_concat(a, b, false);
}

} // verus!
