//! The fields of a control word, projected from its two halves.
use vstd::prelude::*;
use vstd::arithmetic::power2::{pow2, lemma2_to64, lemma2_to64_rest, lemma_pow2_adds, lemma_pow2_pos, lemma_pow2_strictly_increases};
use vstd::arithmetic::div_mod::{lemma_div_multiples_vanish, lemma_fundamental_div_mod_converse, lemma_small_mod};
use vstd::arithmetic::mul::lemma_mul_is_commutative;
use vstd::bits::{
    low_bits_mask, lemma_u64_low_bits_mask_is_mod, lemma_u64_pow2_no_overflow, lemma_u64_shl_is_mul,
    lemma_u64_shr_is_div,
};
use crate::format::ControlWord;

verus! {

/// The `width` bits of `w` that start at bit `offset`.
pub open spec fn field_of(w: nat, offset: nat, width: nat) -> nat {
    (w / pow2(offset)) % pow2(width)
}

/// Extracts the `width` bits of `w` that start at bit `offset`.
pub fn bits(w: u64, offset: u64, width: u64) -> (r: u16)
    requires
        1 <= width <= 14,
        offset + width <= 64,
    ensures
        r as nat == field_of(w as nat, offset as nat, width as nat),
{
    proof {
        lemma_u64_shr_is_div(w, offset);
        lemma_u64_pow2_no_overflow(width as nat);
        lemma_u64_shl_is_mul(1, width);
        lemma_u64_low_bits_mask_is_mod(w >> offset, width as nat);
        lemma_pow2_pos(width as nat);
        if width < 14 {
            lemma_pow2_strictly_increases(width as nat, 14);
        }
        lemma2_to64();
    }
    let mask: u64 = (1u64 << width) - 1;
    assert(mask == low_bits_mask(width as nat) as u64);
    let v = (w >> offset) & mask;
    assert(v < pow2(width as nat));
    v as u16
}

/// The named fields of one control word. Some bit ranges overlap, as they do
/// in the hardware encoding.
#[derive(Clone, Copy, Debug, PartialEq, Eq, Structural)]
pub struct MicroInstruction {
    pub a_mem_read_address: u16,
    pub a_mem_r_base: u16,
    pub a_mem_write_select: u16,
    pub b_mem_write_select: u16,
    pub obus_cdr_function: u16,
    pub obus_high_type: u16,
    pub obus_low_type: u16,
    pub special_function: u16,
    pub sequencer_function: u16,
    pub b_mem_read_address: u16,
    pub b_mem_r_base: u16,
    pub byte_rotate: u16,
    pub byte_size: u16,
    pub x_bus_select: u16,
    pub magic_number: u16,
    pub condition_select: u16,
    pub condition_function: u16,
    pub alu_function: u16,
    pub byte_function: u16,
    pub alu_carry_in: u16,
    pub alu_output_select: u16,
    pub obus_control: u16,
    pub memory_control: u16,
    pub next_address_field: u16,
    pub clock_speed: u16,
    pub type_map_select: u16,
    pub fpa_control: u16,
    pub interrupt_enable: u16,
    pub parity_bit: u16,
}

/// The fields of an instruction, by name, in the order of the layout.
pub open spec fn spec_fields(m: MicroInstruction) -> Seq<(&'static str, u16)> {
    seq![
        ("A-Mem-Read-Address", m.a_mem_read_address),
        ("A-Mem-R-Base", m.a_mem_r_base),
        ("A-Mem-Write-Select", m.a_mem_write_select),
        ("B-Mem-Write-Select", m.b_mem_write_select),
        ("OBus-CDR-Function", m.obus_cdr_function),
        ("OBus-High-Type", m.obus_high_type),
        ("OBus-Low-Type", m.obus_low_type),
        ("Special-Function", m.special_function),
        ("Sequencer-Function", m.sequencer_function),
        ("B-Mem-Read-Address", m.b_mem_read_address),
        ("B-Mem-R-Base", m.b_mem_r_base),
        ("Byte-Rotate", m.byte_rotate),
        ("Byte-Size", m.byte_size),
        ("X-Bus-Select", m.x_bus_select),
        ("Magic-Number", m.magic_number),
        ("Condition-Select", m.condition_select),
        ("Condition-Function", m.condition_function),
        ("ALU-Function", m.alu_function),
        ("Byte-Function", m.byte_function),
        ("ALU-Carry-In", m.alu_carry_in),
        ("ALU-Output-Select", m.alu_output_select),
        ("OBus-Control", m.obus_control),
        ("Memory-Control", m.memory_control),
        ("Next-Address-Field", m.next_address_field),
        ("Clock-Speed", m.clock_speed),
        ("Type-Map-Select", m.type_map_select),
        ("FPA-Control", m.fpa_control),
        ("Interrupt-Enable", m.interrupt_enable),
        ("Parity-Bit", m.parity_bit),
    ]
}

impl MicroInstruction {
    /// The fields by name, in the order of the layout.
    pub fn fields(&self) -> (r: Vec<(&'static str, u16)>)
        ensures
            r@ == spec_fields(*self),
    {
        let mut v: Vec<(&'static str, u16)> = Vec::new();
        v.push(("A-Mem-Read-Address", self.a_mem_read_address));
        v.push(("A-Mem-R-Base", self.a_mem_r_base));
        v.push(("A-Mem-Write-Select", self.a_mem_write_select));
        v.push(("B-Mem-Write-Select", self.b_mem_write_select));
        v.push(("OBus-CDR-Function", self.obus_cdr_function));
        v.push(("OBus-High-Type", self.obus_high_type));
        v.push(("OBus-Low-Type", self.obus_low_type));
        v.push(("Special-Function", self.special_function));
        v.push(("Sequencer-Function", self.sequencer_function));
        v.push(("B-Mem-Read-Address", self.b_mem_read_address));
        v.push(("B-Mem-R-Base", self.b_mem_r_base));
        v.push(("Byte-Rotate", self.byte_rotate));
        v.push(("Byte-Size", self.byte_size));
        v.push(("X-Bus-Select", self.x_bus_select));
        v.push(("Magic-Number", self.magic_number));
        v.push(("Condition-Select", self.condition_select));
        v.push(("Condition-Function", self.condition_function));
        v.push(("ALU-Function", self.alu_function));
        v.push(("Byte-Function", self.byte_function));
        v.push(("ALU-Carry-In", self.alu_carry_in));
        v.push(("ALU-Output-Select", self.alu_output_select));
        v.push(("OBus-Control", self.obus_control));
        v.push(("Memory-Control", self.memory_control));
        v.push(("Next-Address-Field", self.next_address_field));
        v.push(("Clock-Speed", self.clock_speed));
        v.push(("Type-Map-Select", self.type_map_select));
        v.push(("FPA-Control", self.fpa_control));
        v.push(("Interrupt-Enable", self.interrupt_enable));
        v.push(("Parity-Bit", self.parity_bit));
        v
    }
}

/// The field layout: each field is `field_of` of one half of the word, at
/// its offset and width.
pub open spec fn spec_project(w: ControlWord) -> MicroInstruction {
    let lo = w.low as nat;
    let hi = w.high as nat;
    MicroInstruction {
        a_mem_read_address: field_of(lo, 0, 12) as u16,
        a_mem_r_base: field_of(lo, 9, 2) as u16,
        a_mem_write_select: field_of(lo, 12, 2) as u16,
        b_mem_write_select: field_of(lo, 14, 2) as u16,
        obus_cdr_function: field_of(lo, 16, 3) as u16,
        obus_high_type: field_of(lo, 19, 2) as u16,
        obus_low_type: field_of(lo, 21, 4) as u16,
        special_function: field_of(lo, 25, 5) as u16,
        sequencer_function: field_of(lo, 30, 2) as u16,
        b_mem_read_address: field_of(lo, 32, 8) as u16,
        b_mem_r_base: field_of(lo, 40, 2) as u16,
        byte_rotate: field_of(lo, 42, 5) as u16,
        byte_size: field_of(lo, 47, 5) as u16,
        x_bus_select: field_of(lo, 52, 1) as u16,
        magic_number: field_of(lo, 53, 4) as u16,
        condition_select: field_of(lo, 57, 5) as u16,
        condition_function: field_of(lo, 62, 2) as u16,
        alu_function: field_of(hi, 0, 4) as u16,
        byte_function: field_of(hi, 4, 2) as u16,
        alu_carry_in: field_of(hi, 6, 1) as u16,
        alu_output_select: field_of(hi, 7, 3) as u16,
        obus_control: field_of(hi, 10, 2) as u16,
        memory_control: field_of(hi, 12, 4) as u16,
        next_address_field: field_of(hi, 16, 14) as u16,
        clock_speed: field_of(hi, 30, 2) as u16,
        type_map_select: field_of(hi, 32, 6) as u16,
        fpa_control: field_of(hi, 38, 8) as u16,
        interrupt_enable: field_of(hi, 46, 1) as u16,
        parity_bit: field_of(hi, 47, 1) as u16,
    }
}

/// Projects a control word onto its named fields. Every bit pattern is
/// accepted.
pub fn project(w: &ControlWord) -> (r: MicroInstruction)
    ensures
        r == spec_project(*w),
{
    let lo = w.low;
    let hi = w.high;
    MicroInstruction {
        a_mem_read_address: bits(lo, 0, 12),
        a_mem_r_base: bits(lo, 9, 2),
        a_mem_write_select: bits(lo, 12, 2),
        b_mem_write_select: bits(lo, 14, 2),
        obus_cdr_function: bits(lo, 16, 3),
        obus_high_type: bits(lo, 19, 2),
        obus_low_type: bits(lo, 21, 4),
        special_function: bits(lo, 25, 5),
        sequencer_function: bits(lo, 30, 2),
        b_mem_read_address: bits(lo, 32, 8),
        b_mem_r_base: bits(lo, 40, 2),
        byte_rotate: bits(lo, 42, 5),
        byte_size: bits(lo, 47, 5),
        x_bus_select: bits(lo, 52, 1),
        magic_number: bits(lo, 53, 4),
        condition_select: bits(lo, 57, 5),
        condition_function: bits(lo, 62, 2),
        alu_function: bits(hi, 0, 4),
        byte_function: bits(hi, 4, 2),
        alu_carry_in: bits(hi, 6, 1),
        alu_output_select: bits(hi, 7, 3),
        obus_control: bits(hi, 10, 2),
        memory_control: bits(hi, 12, 4),
        next_address_field: bits(hi, 16, 14),
        clock_speed: bits(hi, 30, 2),
        type_map_select: bits(hi, 32, 6),
        fpa_control: bits(hi, 38, 8),
        interrupt_enable: bits(hi, 46, 1),
        parity_bit: bits(hi, 47, 1),
    }
}

/// A value that fits in `width` bits, placed at bit `offset`, is read back
/// unchanged from that field.
pub proof fn lemma_field_round_trip(v: nat, offset: nat, width: nat)
    requires
        v < pow2(width),
    ensures
        field_of(v * pow2(offset), offset, width) == v,
{
    lemma_pow2_pos(offset);
    lemma_mul_is_commutative(v as int, pow2(offset) as int);
    lemma_div_multiples_vanish(v as int, pow2(offset) as int);
    lemma_small_mod(v, pow2(width));
}

/// In a word of `n` one bits, every field that fits holds its largest value.
pub proof fn lemma_field_of_all_ones(n: nat, offset: nat, width: nat)
    requires
        offset + width <= n,
    ensures
        field_of((pow2(n) - 1) as nat, offset, width) == pow2(width) - 1,
{
    let rest = (n - offset - width) as nat;
    lemma_pow2_adds(width, rest);
    lemma_pow2_adds(offset, (n - offset) as nat);
    lemma_pow2_pos(offset);
    lemma_pow2_pos(width);
    lemma_pow2_pos(rest);
    let a = pow2(offset) as int;
    let b = pow2((n - offset) as nat) as int;
    // 2^n - 1 == (2^(n-offset) - 1) * 2^offset + (2^offset - 1)
    assert((pow2(n) - 1) as int == (b - 1) * a + (a - 1)) by (nonlinear_arith)
        requires
            pow2(n) == a * b,
    ;
    lemma_fundamental_div_mod_converse((pow2(n) - 1) as int, a, b - 1, a - 1);
    let c = pow2(width) as int;
    let d = pow2(rest) as int;
    // 2^(n-offset) - 1 == (2^rest - 1) * 2^width + (2^width - 1)
    assert(b - 1 == (d - 1) * c + (c - 1)) by (nonlinear_arith)
        requires
            b == c * d,
    ;
    lemma_fundamental_div_mod_converse(b - 1, c, d - 1, c - 1);
}

/// A control word whose bits are all ones projects every field to its
/// largest value.
pub proof fn lemma_project_all_ones(address: u16)
    ensures
        ({
            let m = spec_project(ControlWord { address, low: 0xFFFF_FFFF_FFFF_FFFF, high: 0xFFFF_FFFF_FFFF });
            &&& m.a_mem_read_address == 4095
            &&& m.a_mem_r_base == 3
            &&& m.a_mem_write_select == 3
            &&& m.b_mem_write_select == 3
            &&& m.obus_cdr_function == 7
            &&& m.obus_high_type == 3
            &&& m.obus_low_type == 15
            &&& m.special_function == 31
            &&& m.sequencer_function == 3
            &&& m.b_mem_read_address == 255
            &&& m.b_mem_r_base == 3
            &&& m.byte_rotate == 31
            &&& m.byte_size == 31
            &&& m.x_bus_select == 1
            &&& m.magic_number == 15
            &&& m.condition_select == 31
            &&& m.condition_function == 3
            &&& m.alu_function == 15
            &&& m.byte_function == 3
            &&& m.alu_carry_in == 1
            &&& m.alu_output_select == 7
            &&& m.obus_control == 3
            &&& m.memory_control == 15
            &&& m.next_address_field == 16383
            &&& m.clock_speed == 3
            &&& m.type_map_select == 63
            &&& m.fpa_control == 255
            &&& m.interrupt_enable == 1
            &&& m.parity_bit == 1
        }),
{
    lemma2_to64();
    lemma2_to64_rest();
    let lo = (pow2(64) - 1) as nat;
    let hi = (pow2(48) - 1) as nat;
    assert(lo == 0xFFFF_FFFF_FFFF_FFFF);
    assert(hi == 0xFFFF_FFFF_FFFF);
    lemma_field_of_all_ones(64, 0, 12);
    lemma_field_of_all_ones(64, 9, 2);
    lemma_field_of_all_ones(64, 12, 2);
    lemma_field_of_all_ones(64, 14, 2);
    lemma_field_of_all_ones(64, 16, 3);
    lemma_field_of_all_ones(64, 19, 2);
    lemma_field_of_all_ones(64, 21, 4);
    lemma_field_of_all_ones(64, 25, 5);
    lemma_field_of_all_ones(64, 30, 2);
    lemma_field_of_all_ones(64, 32, 8);
    lemma_field_of_all_ones(64, 40, 2);
    lemma_field_of_all_ones(64, 42, 5);
    lemma_field_of_all_ones(64, 47, 5);
    lemma_field_of_all_ones(64, 52, 1);
    lemma_field_of_all_ones(64, 53, 4);
    lemma_field_of_all_ones(64, 57, 5);
    lemma_field_of_all_ones(64, 62, 2);
    lemma_field_of_all_ones(48, 0, 4);
    lemma_field_of_all_ones(48, 4, 2);
    lemma_field_of_all_ones(48, 6, 1);
    lemma_field_of_all_ones(48, 7, 3);
    lemma_field_of_all_ones(48, 10, 2);
    lemma_field_of_all_ones(48, 12, 4);
    lemma_field_of_all_ones(48, 16, 14);
    lemma_field_of_all_ones(48, 30, 2);
    lemma_field_of_all_ones(48, 32, 6);
    lemma_field_of_all_ones(48, 38, 8);
    lemma_field_of_all_ones(48, 46, 1);
    lemma_field_of_all_ones(48, 47, 1);
}

} // verus!
