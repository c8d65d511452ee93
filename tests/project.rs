use uc_explorer::format::ControlWord;
use uc_explorer::project::{bits, project};

#[test]
fn all_ones_gives_each_field_its_maximum() {
    let m = project(&ControlWord { address: 0, low: u64::MAX, high: 0xffff_ffff_ffff });
    assert_eq!(m.a_mem_read_address, 4095);
    assert_eq!(m.a_mem_r_base, 3);
    assert_eq!(m.sequencer_function, 3);
    assert_eq!(m.b_mem_read_address, 255);
    assert_eq!(m.magic_number, 15);
    assert_eq!(m.condition_select, 31);
    assert_eq!(m.condition_function, 3);
    assert_eq!(m.alu_function, 15);
    assert_eq!(m.byte_function, 3);
    assert_eq!(m.next_address_field, 16383);
    assert_eq!(m.clock_speed, 3);
    assert_eq!(m.type_map_select, 63);
    assert_eq!(m.fpa_control, 255);
    assert_eq!(m.parity_bit, 1);
    assert_eq!(m.fields().len(), 29);
}

#[test]
fn all_ones_low_half_leaves_high_fields_zero() {
    let m = project(&ControlWord { address: 0, low: u64::MAX, high: 0 });
    assert_eq!(m.alu_function, 0);
    assert_eq!(m.next_address_field, 0);
    assert_eq!(m.parity_bit, 0);
    assert_eq!(m.condition_function, 3);
}

#[test]
fn fields_read_back_what_was_placed() {
    let low = (0xabcu64) | (0x2u64 << 30) | (0x5au64 << 32) | (0x9u64 << 53) | (0x15u64 << 57) | (0x1u64 << 62);
    let high = (0x7u64) | (0x2u64 << 4) | (0x1234u64 << 16) | (0x1u64 << 30) | (0x2au64 << 32) | (0xc3u64 << 38) | (1u64 << 47);
    let m = project(&ControlWord { address: 5, low, high });
    assert_eq!(m.a_mem_read_address, 0xabc);
    assert_eq!(m.a_mem_r_base, (0xabc >> 9) & 3);
    assert_eq!(m.sequencer_function, 2);
    assert_eq!(m.b_mem_read_address, 0x5a);
    assert_eq!(m.magic_number, 9);
    assert_eq!(m.condition_select, 0x15);
    assert_eq!(m.condition_function, 1);
    assert_eq!(m.alu_function, 7);
    assert_eq!(m.byte_function, 2);
    assert_eq!(m.next_address_field, 0x1234);
    assert_eq!(m.clock_speed, 1);
    assert_eq!(m.type_map_select, 0x2a);
    assert_eq!(m.fpa_control, 0xc3);
    assert_eq!(m.parity_bit, 1);
}

#[test]
fn overlapping_fields_are_both_extracted() {
    let m = project(&ControlWord { address: 0, low: 0b110_0000_0000, high: 0 });
    assert_eq!(m.a_mem_read_address, 0o3000);
    assert_eq!(m.a_mem_r_base, 3);
}

#[test]
fn bits_extracts_a_range() {
    assert_eq!(bits(0xf0, 4, 4), 0xf);
    assert_eq!(bits(0x8000_0000_0000_0000, 63, 1), 1);
    assert_eq!(bits(0x1234_5678, 8, 8), 0x56);
}
