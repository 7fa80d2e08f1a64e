use fault_simulation::{FaultData, FaultType, Memory, SimulationData};

const BASE: u64 = 0x0800_0000;

// nop; bl (4 bytes); bx lr; mov.w (4 bytes); movs; nop
const CODE: [u8; 16] = [
    0x00, 0xBF, 0x00, 0xF0, 0x01, 0xF8, 0x70, 0x47, 0x4F, 0xEA, 0x00, 0x00, 0x01, 0x20, 0x00,
    0xBF,
];

fn code_memory() -> Memory {
    let mut memory = Memory::new(BASE, CODE.len()).unwrap();
    assert!(memory.mem_write(BASE, &CODE.to_vec()));
    memory
}

fn site(address: u64, fault_type: FaultType) -> SimulationData {
    SimulationData { address, size: 2, count: 1, fault_type }
}

#[test]
fn new_fault_data_is_empty() {
    let fault = FaultData::new();
    assert!(fault.data.is_empty());
    assert!(fault.data_changed.is_empty());
    assert_eq!(fault.fault.address, 0);
    assert_eq!(fault.fault.size, 0);
    assert_eq!(fault.fault.count, 0);
    assert_eq!(fault.fault.fault_type, FaultType::Uninitialized);
}

#[test]
fn set_fault_type_changes_only_the_kind() {
    let mut record = SimulationData {
        address: 0x1234,
        size: 4,
        count: 7,
        fault_type: FaultType::Uninitialized,
    };
    assert!(!record.resolved());
    record.set_fault_type(FaultType::NopCached(2));
    assert_eq!(
        record,
        SimulationData { address: 0x1234, size: 4, count: 7, fault_type: FaultType::NopCached(2) }
    );
    assert!(record.resolved());
    record.set_fault_type(FaultType::BitFlipCached(9));
    assert_eq!(record.fault_type, FaultType::BitFlipCached(9));
}

#[test]
fn skip_of_one_narrow_instruction() {
    let memory = code_memory();
    let record = site(BASE, FaultType::NopCached(1));
    let fault = FaultData::capture(&memory, record).unwrap();
    assert_eq!(fault.data, vec![0x00, 0xBF]);
    assert_eq!(fault.data_changed, vec![0x00, 0xBF]);
    assert_eq!(fault.fault, record);
}

#[test]
fn skip_of_one_wide_instruction_covers_four_bytes() {
    let memory = code_memory();
    let fault = FaultData::capture(&memory, site(BASE + 2, FaultType::NopCached(1))).unwrap();
    assert_eq!(fault.data, vec![0x00, 0xF0, 0x01, 0xF8]);
    assert_eq!(fault.data_changed, vec![0x00, 0xBF, 0x00, 0xBF]);
}

#[test]
fn skip_of_two_instructions_sums_their_widths() {
    let memory = code_memory();
    let fault = FaultData::capture(&memory, site(BASE, FaultType::NopCached(2))).unwrap();
    assert_eq!(fault.data, vec![0x00, 0xBF, 0x00, 0xF0, 0x01, 0xF8]);
    assert_eq!(fault.data_changed, vec![0x00, 0xBF, 0x00, 0xBF, 0x00, 0xBF]);
}

#[test]
fn skip_of_four_instructions_sums_their_widths() {
    let memory = code_memory();
    let fault = FaultData::capture(&memory, site(BASE, FaultType::NopCached(4))).unwrap();
    assert_eq!(fault.data, CODE[0..12].to_vec());
    assert_eq!(fault.data.len(), 2 + 4 + 2 + 4);
    assert_eq!(fault.data_changed, [0x00u8, 0xBF].repeat(6));
}

#[test]
fn skip_of_no_instruction_is_empty() {
    let memory = code_memory();
    let fault = FaultData::capture(&memory, site(BASE + 4, FaultType::NopCached(0))).unwrap();
    assert!(fault.data.is_empty());
    assert!(fault.data_changed.is_empty());
}

#[test]
fn skip_that_leaves_memory_cannot_be_injected() {
    let memory = code_memory();
    // Seven instructions would end past the last byte.
    assert!(FaultData::capture(&memory, site(BASE, FaultType::NopCached(7))).is_none());
    assert!(FaultData::capture(&memory, site(BASE + 16, FaultType::NopCached(1))).is_none());
    assert!(FaultData::capture(&memory, site(BASE - 2, FaultType::NopCached(1))).is_none());
    assert!(FaultData::capture(&memory, site(BASE, FaultType::NopCached(usize::MAX))).is_none());
    // Six instructions fill the memory exactly.
    let all = FaultData::capture(&memory, site(BASE, FaultType::NopCached(6))).unwrap();
    assert_eq!(all.data, CODE.to_vec());
}

#[test]
fn skip_of_a_wide_instruction_cut_off_by_the_end_cannot_be_injected() {
    let mut memory = Memory::new(BASE, 4).unwrap();
    assert!(memory.mem_write(BASE, &vec![0x00, 0xBF, 0x00, 0xF0]));
    assert!(FaultData::capture(&memory, site(BASE + 2, FaultType::NopCached(1))).is_none());
    assert!(FaultData::capture(&memory, site(BASE, FaultType::NopCached(2))).is_none());
    assert!(FaultData::capture(&memory, site(BASE, FaultType::NopCached(1))).is_some());
}

#[test]
fn bit_flip_changes_exactly_one_bit() {
    let memory = code_memory();
    for position in 0..16usize {
        let record = site(BASE + 6, FaultType::BitFlipCached(position));
        let fault = FaultData::capture(&memory, record).unwrap();
        assert_eq!(fault.data, vec![0x70, 0x47]);
        assert_eq!(fault.data_changed.len(), 2);
        let index = position / 8;
        for i in 0..2 {
            if i == index {
                assert_eq!(fault.data[i] ^ fault.data_changed[i], 1u8 << (position % 8));
            } else {
                assert_eq!(fault.data[i], fault.data_changed[i]);
            }
        }
        let differing: u32 =
            (0..2).map(|i| (fault.data[i] ^ fault.data_changed[i]).count_ones()).sum();
        assert_eq!(differing, 1);
    }
}

#[test]
fn bit_flip_exact_values() {
    let memory = code_memory();
    let low = FaultData::capture(&memory, site(BASE + 6, FaultType::BitFlipCached(0))).unwrap();
    assert_eq!(low.data_changed, vec![0x71, 0x47]);
    let high = FaultData::capture(&memory, site(BASE + 6, FaultType::BitFlipCached(15))).unwrap();
    assert_eq!(high.data_changed, vec![0x70, 0xC7]);
    let wide = FaultData::capture(&memory, site(BASE + 2, FaultType::BitFlipCached(26))).unwrap();
    assert_eq!(wide.data, vec![0x00, 0xF0, 0x01, 0xF8]);
    assert_eq!(wide.data_changed, vec![0x00, 0xF0, 0x01, 0xFC]);
}

#[test]
fn bit_flip_outside_the_instruction_cannot_be_injected() {
    let memory = code_memory();
    assert!(FaultData::capture(&memory, site(BASE + 6, FaultType::BitFlipCached(16))).is_none());
    assert!(FaultData::capture(&memory, site(BASE + 2, FaultType::BitFlipCached(31))).is_some());
    assert!(FaultData::capture(&memory, site(BASE + 2, FaultType::BitFlipCached(32))).is_none());
    assert!(
        FaultData::capture(&memory, site(BASE + 6, FaultType::BitFlipCached(usize::MAX))).is_none()
    );
    assert!(FaultData::capture(&memory, site(BASE + 16, FaultType::BitFlipCached(0))).is_none());
}

#[test]
fn writing_the_captured_bytes_back_restores_memory() {
    for record in [
        site(BASE, FaultType::NopCached(1)),
        site(BASE + 2, FaultType::NopCached(2)),
        site(BASE, FaultType::NopCached(4)),
        site(BASE + 8, FaultType::BitFlipCached(21)),
    ] {
        let mut memory = code_memory();
        let fault = FaultData::capture(&memory, record).unwrap();
        assert!(memory.mem_write(record.address, &fault.data_changed));
        assert_eq!(
            memory.mem_read(record.address, fault.data.len()),
            Some(fault.data_changed.clone())
        );
        assert!(memory.mem_write(record.address, &fault.data));
        assert_eq!(memory.contents(), CODE.to_vec());
    }
}

#[test]
fn skipped_instructions_read_back_as_narrow_nops() {
    let mut memory = code_memory();
    let fault = FaultData::capture(&memory, site(BASE + 2, FaultType::NopCached(1))).unwrap();
    assert!(memory.mem_write(BASE + 2, &fault.data_changed));
    assert_eq!(memory.get_asm_cmd_size(BASE + 2), Some(2));
    assert_eq!(memory.get_asm_cmd_size(BASE + 4), Some(2));
    assert_eq!(memory.mem_read(BASE, 8), Some(vec![0x00, 0xBF, 0x00, 0xBF, 0x00, 0xBF, 0x70, 0x47]));
}

#[test]
fn clone_of_fault_data_is_equal() {
    let memory = code_memory();
    let fault = FaultData::capture(&memory, site(BASE, FaultType::NopCached(2))).unwrap();
    let copy = fault.clone();
    assert_eq!(copy, fault);
}
