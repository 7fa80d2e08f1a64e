//! The fault model: what a fault is, and the bytes it puts in place of the
//! instructions it hits.

use vstd::prelude::*;
use crate::encoding::{nop_bytes, nop_fill, NOP_HIGH, NOP_LOW};
use crate::memory::{lemma_write_back_restores, Memory, MemoryView};

verus! {

/// The kinds of fault.
#[derive(Clone, Copy, Debug, PartialEq, Eq, Structural)]
pub enum FaultType {
    /// No kind chosen yet: a candidate site taken from a trace. It has to be
    /// given a kind before it can change memory.
    Uninitialized,
    /// Replace this many instructions, from the fault address on, by
    /// no-operations.
    NopCached(usize),
    /// Flip the bit at this position of the instruction at the fault
    /// address; bit 0 is the lowest bit of its first byte.
    BitFlipCached(usize),
}

/// A fault site: an instruction address, with the size and the hit count that
/// a trace recorded for it, and the fault to inject there.
#[derive(Clone, Copy, Debug, PartialEq, Eq, Structural)]
pub struct SimulationData {
    pub address: u64,
    pub size: usize,
    pub count: usize,
    pub fault_type: FaultType,
}

impl SimulationData {
    /// Whether a fault kind has been chosen.
    pub open spec fn is_resolved(&self) -> bool {
        self.fault_type != FaultType::Uninitialized
    }

    /// Chooses the kind of fault to inject at this site.
    pub fn set_fault_type(&mut self, fault_type: FaultType)
        ensures
            *final(self) == (SimulationData { fault_type, ..*old(self) }),
    {
        self.fault_type = fault_type;
    }

    /// Whether a fault kind has been chosen.
    pub fn resolved(&self) -> (yes: bool)
        ensures
            yes == self.is_resolved(),
    {
        match self.fault_type {
            FaultType::Uninitialized => false,
            _ => true,
        }
    }
}

/// Mathematical model of a [`FaultData`].
pub struct FaultDataView {
    /// The bytes that were in memory before the fault.
    pub data: Seq<u8>,
    /// The bytes that the fault puts in their place.
    pub data_changed: Seq<u8>,
    /// The fault.
    pub fault: SimulationData,
}

/// A fault made concrete: the bytes it replaces and the bytes it writes.
#[derive(Debug, PartialEq, Eq)]
pub struct FaultData {
    pub data: Vec<u8>,
    pub data_changed: Vec<u8>,
    pub fault: SimulationData,
}

impl View for FaultData {
    type V = FaultDataView;

    open spec fn view(&self) -> FaultDataView {
        FaultDataView { data: self.data@, data_changed: self.data_changed@, fault: self.fault }
    }
}

/// The models of a list of fault records, in order.
pub open spec fn records_view(records: Seq<FaultData>) -> Seq<FaultDataView> {
    records.map_values(|record: FaultData| record@)
}

/// `data` with the bit at `position` flipped: bit `position % 8` of byte
/// `position / 8`.
pub open spec fn spec_bit_flip(data: Seq<u8>, position: nat) -> Seq<u8> {
    data.update(
        (position / 8) as int,
        data[(position / 8) as int] ^ (1u8 << ((position % 8) as u8)),
    )
}

/// What the fault `record` does to `memory`, where it can be injected: for an
/// instruction skip, every instruction of the run can be classified and the
/// whole run can be read; for a bit flip, the instruction can be read and
/// `position` lies inside it.
pub open spec fn spec_fault_data(memory: MemoryView, record: SimulationData) -> Option<
    FaultDataView,
> {
    let address = record.address as int;
    match record.fault_type {
        FaultType::Uninitialized => None,
        FaultType::NopCached(number) => match memory.span(address, number as nat) {
            None => None,
            Some(span) => if memory.readable(address, span) {
                Some(
                    FaultDataView {
                        data: memory.read(address, span),
                        data_changed: nop_fill(span),
                        fault: record,
                    },
                )
            } else {
                None
            },
        },
        FaultType::BitFlipCached(position) => match memory.cmd_size_at(address) {
            None => None,
            Some(width) => if memory.readable(address, width) && position / 8 < width {
                Some(
                    FaultDataView {
                        data: memory.read(address, width),
                        data_changed: spec_bit_flip(memory.read(address, width), position as nat),
                        fault: record,
                    },
                )
            } else {
                None
            },
        },
    }
}

/// A copy of `bytes`.
pub fn copy_bytes(bytes: &Vec<u8>) -> (copy: Vec<u8>)
    ensures
        copy@ == bytes@,
{
    let mut copy: Vec<u8> = Vec::new();
    let mut i: usize = 0;
    while i < bytes.len()
        invariant
            i <= bytes@.len(),
            copy@ == bytes@.subrange(0, i as int),
        decreases bytes@.len() - i,
    {
        copy.push(bytes[i]);
        i = i + 1;
        assert(copy@ =~= bytes@.subrange(0, i as int));
    }
    assert(copy@ =~= bytes@);
    copy
}

impl Clone for FaultData {
    fn clone(&self) -> (copy: Self)
        ensures
            copy@ == self@,
    {
        FaultData {
            data: copy_bytes(&self.data),
            data_changed: copy_bytes(&self.data_changed),
            fault: self.fault,
        }
    }
}

/// A copy of a list of fault records.
pub fn copy_records(records: &Vec<FaultData>) -> (copy: Vec<FaultData>)
    ensures
        records_view(copy@) == records_view(records@),
{
    let mut copy: Vec<FaultData> = Vec::new();
    let mut i: usize = 0;
    while i < records.len()
        invariant
            i <= records@.len(),
            copy@.len() == i,
            forall|k: int| 0 <= k < i ==> copy@[k]@ == records@[k]@,
        decreases records@.len() - i,
    {
        copy.push(records[i].clone());
        i = i + 1;
    }
    assert(records_view(copy@) =~= records_view(records@));
    copy
}

impl FaultData {
    /// A record that holds no bytes, for a site at address 0 whose fault kind
    /// is not chosen.
    pub fn new() -> (record: Self)
        ensures
            record@ == (FaultDataView {
                data: Seq::empty(),
                data_changed: Seq::empty(),
                fault: SimulationData {
                    address: 0,
                    size: 0,
                    count: 0,
                    fault_type: FaultType::Uninitialized,
                },
            }),
    {
        FaultData {
            data: Vec::new(),
            data_changed: Vec::new(),
            fault: SimulationData {
                address: 0,
                size: 0,
                count: 0,
                fault_type: FaultType::Uninitialized,
            },
        }
    }

    /// Makes the fault `record` concrete against `memory`: captures the bytes
    /// it replaces and computes the bytes it writes. Nothing where the fault
    /// cannot be injected there.
    pub fn capture(memory: &Memory, record: SimulationData) -> (fault: Option<FaultData>)
        requires
            memory.wf(),
            record.is_resolved(),
        ensures
            fault is Some <==> spec_fault_data(memory@, record) is Some,
            fault matches Some(f) ==> Some(f@) == spec_fault_data(memory@, record),
    {
        match record.fault_type {
            FaultType::NopCached(number) => {
                let mut address: u64 = record.address;
                let mut span: usize = 0;
                let mut done: usize = 0;
                while done < number
                    invariant
                        memory.wf(),
                        done <= number,
                        record.fault_type == FaultType::NopCached(number),
                        address == record.address + span,
                        memory@.span(record.address as int, number as nat) == match memory@.span(
                            address as int,
                            (number - done) as nat,
                        ) {
                            None => None::<nat>,
                            Some(rest) => Some((span + rest) as nat),
                        },
                    decreases number - done,
                {
                    let width: usize = match memory.get_asm_cmd_size(address) {
                        Some(width) => width,
                        None => {
                            return None;
                        },
                    };
                    if width as u64 > u64::MAX - address || width > usize::MAX - span {
                        return None;
                    }
                    span = span + width;
                    address = address + width as u64;
                    done = done + 1;
                }
                let data = match memory.mem_read(record.address, span) {
                    Some(data) => data,
                    None => {
                        return None;
                    },
                };
                let data_changed = nop_bytes(span);
                Some(FaultData { data, data_changed, fault: record })
            },
            FaultType::BitFlipCached(position) => {
                let width: usize = match memory.get_asm_cmd_size(record.address) {
                    Some(width) => width,
                    None => {
                        return None;
                    },
                };
                let data = match memory.mem_read(record.address, width) {
                    Some(data) => data,
                    None => {
                        return None;
                    },
                };
                let index: usize = position / 8;
                if index >= width {
                    return None;
                }
                let mut data_changed = copy_bytes(&data);
                let flipped: u8 = data[index] ^ (1u8 << ((position % 8) as u8));
                data_changed.set(index, flipped);
                Some(FaultData { data, data_changed, fault: record })
            },
            FaultType::Uninitialized => None,
        }
    }
}

/// A run of instructions is a whole number of halfwords, between two and four
/// bytes for each instruction.
pub proof fn lemma_span_bounds(memory: MemoryView, address: int, count: nat)
    requires
        memory.span(address, count) is Some,
    ensures
        memory.span(address, count)->0 % 2 == 0,
        2 * count <= memory.span(address, count)->0 <= 4 * count,
    decreases count,
{
    if count > 0 {
        let width = memory.cmd_size_at(address)->0;
        lemma_span_bounds(memory, address + width, (count - 1) as nat);
    }
}

/// An instruction skip replaces exactly the bytes of the instructions it
/// skips, each as wide as its encoding says, and writes no-operations over all
/// of them; the bytes it captures are those that were in memory.
pub proof fn lemma_skip_covers_instructions(memory: MemoryView, record: SimulationData)
    requires
        record.fault_type is NopCached,
        spec_fault_data(memory, record) is Some,
    ensures
        ({
            let fault = spec_fault_data(memory, record)->0;
            let span = memory.span(record.address as int, record.fault_type->NopCached_0 as nat);
            &&& span is Some
            &&& fault.data_changed.len() == span->0
            &&& fault.data.len() == span->0
            &&& fault.data == memory.read(record.address as int, span->0)
            &&& forall|i: int|
                0 <= i < fault.data.len() ==> fault.data[i] == memory.bytes[record.address
                    - memory.base + i]
            &&& span->0 % 2 == 0
            &&& 2 * record.fault_type->NopCached_0 <= span->0 <= 4 * record.fault_type->NopCached_0
            &&& forall|i: int|
                0 <= i < span->0 ==> #[trigger] fault.data_changed[i] == if i % 2 == 0 {
                    NOP_LOW
                } else {
                    NOP_HIGH
                }
        }),
{
    let number = record.fault_type->NopCached_0;
    lemma_span_bounds(memory, record.address as int, number as nat);
}

/// Where an instruction skip has been written, memory holds no-operations:
/// every halfword of the run it replaced is a two-byte instruction, and the
/// memory outside the run is untouched.
pub proof fn lemma_skipped_run_is_nops(memory: MemoryView, record: SimulationData)
    requires
        record.fault_type is NopCached,
        spec_fault_data(memory, record) is Some,
    ensures
        ({
            let fault = spec_fault_data(memory, record)->0;
            let after = memory.write(record.address as int, fault.data_changed);
            &&& after.read(record.address as int, fault.data_changed.len()) == nop_fill(
                fault.data_changed.len(),
            )
            &&& forall|offset: int|
                0 <= offset < fault.data_changed.len() && offset % 2 == 0
                    ==> #[trigger] after.cmd_size_at(record.address + offset) == Some(2nat)
            &&& forall|a: int|
                memory.base <= a < memory.end() && !(record.address <= a < record.address
                    + fault.data_changed.len()) ==> #[trigger] after.bytes[a - memory.base]
                    == memory.bytes[a - memory.base]
        }),
{
    let fault = spec_fault_data(memory, record)->0;
    let address = record.address as int;
    let span = fault.data_changed.len();
    let after = memory.write(address, fault.data_changed);
    lemma_span_bounds(memory, address, record.fault_type->NopCached_0 as nat);
    crate::memory::lemma_write_then_read(memory, address, fault.data_changed);
    assert forall|offset: int| 0 <= offset < span && offset % 2 == 0 implies #[trigger] after
        .cmd_size_at(address + offset) == Some(2nat) by {
        assert(after.readable(address + offset, 2));
        assert(after.read(address + offset, 2)[1] == fault.data_changed[offset + 1]);
        assert(fault.data_changed[offset + 1] == NOP_HIGH);
    }
}

/// A bit flip changes one bit and no more: the captured and the written bytes
/// have the same length, differ only in byte `position / 8`, and there only
/// in bit `position % 8`.
pub proof fn lemma_bit_flip_changes_one_bit(memory: MemoryView, record: SimulationData)
    requires
        record.fault_type is BitFlipCached,
        spec_fault_data(memory, record) is Some,
    ensures
        ({
            let fault = spec_fault_data(memory, record)->0;
            let position = record.fault_type->BitFlipCached_0;
            let index = (position / 8) as int;
            &&& fault.data == memory.read(record.address as int, fault.data.len())
            &&& Some(fault.data.len()) == memory.cmd_size_at(record.address as int)
            &&& fault.data_changed.len() == fault.data.len()
            &&& 0 <= index < fault.data.len()
            &&& forall|i: int|
                0 <= i < fault.data.len() && i != index ==> fault.data_changed[i] == fault.data[i]
            &&& fault.data_changed[index] ^ fault.data[index] == 1u8 << ((position % 8) as u8)
            &&& fault.data_changed[index] != fault.data[index]
        }),
{
    let fault = spec_fault_data(memory, record)->0;
    let position = record.fault_type->BitFlipCached_0;
    let index = (position / 8) as int;
    let before: u8 = fault.data[index];
    let shift: u8 = (position % 8) as u8;
    assert((before ^ (1u8 << shift)) ^ before == 1u8 << shift) by (bit_vector);
    assert(shift < 8 ==> (before ^ (1u8 << shift)) != before) by (bit_vector);
}

/// Writing the captured bytes back over an injected fault restores memory
/// bit for bit.
pub proof fn lemma_restore_undoes_fault(memory: MemoryView, record: SimulationData)
    requires
        spec_fault_data(memory, record) is Some,
    ensures
        ({
            let fault = spec_fault_data(memory, record)->0;
            let address = record.address as int;
            &&& fault.data_changed.len() == fault.data.len()
            &&& memory.readable(address, fault.data.len())
            &&& memory.write(address, fault.data_changed).write(address, fault.data) == memory
        }),
{
    let fault = spec_fault_data(memory, record)->0;
    lemma_write_back_restores(memory, record.address as int, fault.data_changed);
}

} // verus!
