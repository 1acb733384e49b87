//! The five immediate formats of the base instruction set. Each format
//! scatters the bits of an immediate value over fixed positions of the
//! instruction word; encoding gathers the value's bits into those positions,
//! decoding collects them back and sign-extends where the format is signed.
use vstd::prelude::*;

verus! {

/// Every bit from `lsb` upwards set when bit 31 of `word` is set, else no bit.
pub open spec fn sign_fill(word: u32, lsb: u32) -> u32 {
    if word >> 31u32 == 1 {
        0xFFFF_FFFFu32 << lsb
    } else {
        0
    }
}

/// The bits of an instruction word that carry an I-format immediate.
pub const I_BITS: u32 = 0xFFF0_0000;

/// The bits of an instruction word that carry an S- or B-format immediate.
pub const S_BITS: u32 = 0xFE00_0F80;

/// The bits of an instruction word that carry a U- or J-format immediate.
pub const U_BITS: u32 = 0xFFFF_F000;

/// I format: `imm[11:0]` at bits 31..20.
pub open spec fn i_field(v: u32) -> u32 {
    (v & 0xFFF) << 20u32
}

/// The value that the I-format bits of `word` hold, sign-extended from bit 11.
pub open spec fn i_value(word: u32) -> u32 {
    sign_fill(word, 11) | ((word >> 20u32) & 0x7FF)
}

/// S format: `imm[11:5]` at bits 31..25, `imm[4:0]` at bits 11..7.
pub open spec fn s_field(v: u32) -> u32 {
    (((v >> 5u32) & 0x7F) << 25u32) | ((v & 0x1F) << 7u32)
}

/// The value that the S-format bits of `word` hold, sign-extended from bit 11.
pub open spec fn s_value(word: u32) -> u32 {
    sign_fill(word, 11) | (((word >> 25u32) & 0x3F) << 5u32) | ((word >> 7u32) & 0x1F)
}

/// B format: `imm[12]` at bit 31, `imm[10:5]` at bits 30..25, `imm[4:1]` at
/// bits 11..8 and `imm[11]` at bit 7; bit 0 of the value is not stored.
pub open spec fn b_field(v: u32) -> u32 {
    (((v >> 12u32) & 1) << 31u32) | (((v >> 5u32) & 0x3F) << 25u32) | (((v >> 1u32) & 0xF)
        << 8u32) | (((v >> 11u32) & 1) << 7u32)
}

/// The value that the B-format bits of `word` hold, sign-extended from bit 12.
pub open spec fn b_value(word: u32) -> u32 {
    sign_fill(word, 12) | (((word >> 7u32) & 1) << 11u32) | (((word >> 25u32) & 0x3F) << 5u32)
        | (((word >> 8u32) & 0xF) << 1u32)
}

/// U format: bits 31..12 of the value stay where they are.
pub open spec fn u_field(v: u32) -> u32 {
    v & 0xFFFF_F000
}

/// The value that the U-format bits of `word` hold: bits 31..12, the rest zero.
pub open spec fn u_value(word: u32) -> u32 {
    word & 0xFFFF_F000
}

/// J format: `imm[20]` at bit 31, `imm[10:1]` at bits 30..21, `imm[11]` at
/// bit 20 and `imm[19:12]` at bits 19..12; bit 0 of the value is not stored.
pub open spec fn j_field(v: u32) -> u32 {
    (((v >> 20u32) & 1) << 31u32) | (((v >> 1u32) & 0x3FF) << 21u32) | (((v >> 11u32) & 1)
        << 20u32) | (((v >> 12u32) & 0xFF) << 12u32)
}

/// The value that the J-format bits of `word` hold, sign-extended from bit 20.
pub open spec fn j_value(word: u32) -> u32 {
    sign_fill(word, 20) | (((word >> 12u32) & 0xFF) << 12u32) | (((word >> 20u32) & 1) << 11u32)
        | (((word >> 21u32) & 0x3FF) << 1u32)
}

/// The 32-bit patterns of the integers in `[-2^11, 2^11)`.
pub open spec fn fits_12(v: u32) -> bool {
    v < 0x800 || v >= 0xFFFF_F800
}

/// The 32-bit patterns of the even integers in `[-2^12, 2^12)`.
pub open spec fn fits_b(v: u32) -> bool {
    v & 1 == 0 && (v < 0x1000 || v >= 0xFFFF_F000)
}

/// The 32-bit patterns whose low 12 bits are zero.
pub open spec fn fits_u(v: u32) -> bool {
    v & 0xFFF == 0
}

/// The 32-bit patterns of the even integers in `[-2^20, 2^20)`.
pub open spec fn fits_j(v: u32) -> bool {
    v & 1 == 0 && (v < 0x10_0000 || v >= 0xFFF0_0000)
}

/// Decoding the I-format bits recovers every value the format can hold, with
/// any other instruction fields set alongside.
pub proof fn lemma_i_round_trip(v: u32, other: u32)
    requires
        fits_12(v),
        other & I_BITS == 0,
    ensures
        i_value(i_field(v) | other) == v,
{
    assert(i_value(i_field(v) | other) == v) by (bit_vector)
        requires
            v < 0x800 || v >= 0xFFFF_F800,
            other & 0xFFF0_0000 == 0,
    ;
}

/// Decoding the S-format bits recovers every value the format can hold, with
/// any other instruction fields set alongside.
pub proof fn lemma_s_round_trip(v: u32, other: u32)
    requires
        fits_12(v),
        other & S_BITS == 0,
    ensures
        s_value(s_field(v) | other) == v,
{
    assert(s_value(s_field(v) | other) == v) by (bit_vector)
        requires
            v < 0x800 || v >= 0xFFFF_F800,
            other & 0xFE00_0F80 == 0,
    ;
}

/// Decoding the B-format bits recovers every value the format can hold, with
/// any other instruction fields set alongside.
pub proof fn lemma_b_round_trip(v: u32, other: u32)
    requires
        fits_b(v),
        other & S_BITS == 0,
    ensures
        b_value(b_field(v) | other) == v,
{
    assert(b_value(b_field(v) | other) == v) by (bit_vector)
        requires
            v & 1 == 0,
            v < 0x1000 || v >= 0xFFFF_F000,
            other & 0xFE00_0F80 == 0,
    ;
}

/// Decoding the U-format bits recovers every value the format can hold, with
/// any other instruction fields set alongside.
pub proof fn lemma_u_round_trip(v: u32, other: u32)
    requires
        fits_u(v),
        other & U_BITS == 0,
    ensures
        u_value(u_field(v) | other) == v,
{
    assert(u_value(u_field(v) | other) == v) by (bit_vector)
        requires
            v & 0xFFF == 0,
            other & 0xFFFF_F000 == 0,
    ;
}

/// Decoding the J-format bits recovers every value the format can hold, with
/// any other instruction fields set alongside.
pub proof fn lemma_j_round_trip(v: u32, other: u32)
    requires
        fits_j(v),
        other & U_BITS == 0,
    ensures
        j_value(j_field(v) | other) == v,
{
    assert(j_value(j_field(v) | other) == v) by (bit_vector)
        requires
            v & 1 == 0,
            v < 0x10_0000 || v >= 0xFFF0_0000,
            other & 0xFFFF_F000 == 0,
    ;
}

/// An immediate operand, held as the 32-bit pattern of its value.
pub trait Immediate: Sized {
    /// The value held.
    spec fn value(&self) -> u32;

    /// The instruction bits that encode `v` in this format; every other bit
    /// is zero.
    spec fn field_of(v: u32) -> u32;

    /// The value that the format's bits of `instruction` encode.
    spec fn value_of(instruction: u32) -> u32;

    fn to_instruction_bitmask(&self) -> (r: u32)
        ensures
            r == Self::field_of(self.value()),
    ;

    fn from_instruction(instruction: u32) -> (r: Self)
        ensures
            r.value() == Self::value_of(instruction),
    ;

    /// The sign of `instruction` (its bit 31) copied into bits 31..`lsb`.
    fn sign_extend(instruction: u32, lsb: usize) -> (r: u32)
        requires
            lsb < 32,
        ensures
            r == sign_fill(instruction, lsb as u32),
    {
        let shift = lsb as u32;
        if instruction >> 31u32 == 1 {
            0xFFFF_FFFFu32 << shift
        } else {
            0
        }
    }
}

/// An immediate in the I format.
#[derive(Debug, Clone, Copy, PartialEq, Eq, Structural)]
pub struct IImmediate {
    imm: u32,
}

impl IImmediate {
    pub fn new(imm: u32) -> (r: Self)
        ensures
            r.value() == imm,
    {
        IImmediate { imm }
    }

    pub fn get(&self) -> (r: u32)
        ensures
            r == self.value(),
    {
        self.imm
    }
}

impl Immediate for IImmediate {
    closed spec fn value(&self) -> u32 {
        self.imm
    }

    open spec fn field_of(v: u32) -> u32 {
        i_field(v)
    }

    open spec fn value_of(instruction: u32) -> u32 {
        i_value(instruction)
    }

    fn to_instruction_bitmask(&self) -> (r: u32) {
        (self.imm & 0xFFF) << 20u32
    }

    fn from_instruction(instruction: u32) -> (r: Self) {
        let imm = Self::sign_extend(instruction, 11) | ((instruction >> 20u32) & 0x7FF);
        IImmediate { imm }
    }
}

impl From<u32> for IImmediate {
    fn from(value: u32) -> (r: Self) {
        IImmediate::new(value)
    }
}

impl vstd::std_specs::convert::FromSpecImpl<u32> for IImmediate {
    open spec fn obeys_from_spec() -> bool {
        true
    }

    closed spec fn from_spec(v: u32) -> Self {
        IImmediate { imm: v }
    }
}

impl From<IImmediate> for u32 {
    fn from(value: IImmediate) -> (r: u32) {
        value.get()
    }
}

impl vstd::std_specs::convert::FromSpecImpl<IImmediate> for u32 {
    open spec fn obeys_from_spec() -> bool {
        true
    }

    open spec fn from_spec(v: IImmediate) -> u32 {
        v.value()
    }
}

/// An immediate in the S format.
#[derive(Debug, Clone, Copy, PartialEq, Eq, Structural)]
pub struct SImmediate {
    imm: u32,
}

impl SImmediate {
    pub fn new(imm: u32) -> (r: Self)
        ensures
            r.value() == imm,
    {
        SImmediate { imm }
    }

    pub fn get(&self) -> (r: u32)
        ensures
            r == self.value(),
    {
        self.imm
    }
}

impl Immediate for SImmediate {
    closed spec fn value(&self) -> u32 {
        self.imm
    }

    open spec fn field_of(v: u32) -> u32 {
        s_field(v)
    }

    open spec fn value_of(instruction: u32) -> u32 {
        s_value(instruction)
    }

    fn to_instruction_bitmask(&self) -> (r: u32) {
        (((self.imm >> 5u32) & 0x7F) << 25u32) | ((self.imm & 0x1F) << 7u32)
    }

    fn from_instruction(instruction: u32) -> (r: Self) {
        let imm = Self::sign_extend(instruction, 11) | (((instruction >> 25u32) & 0x3F) << 5u32) | ((instruction
            >> 7u32) & 0x1F);
        SImmediate { imm }
    }
}

impl From<u32> for SImmediate {
    fn from(value: u32) -> (r: Self) {
        SImmediate::new(value)
    }
}

impl vstd::std_specs::convert::FromSpecImpl<u32> for SImmediate {
    open spec fn obeys_from_spec() -> bool {
        true
    }

    closed spec fn from_spec(v: u32) -> Self {
        SImmediate { imm: v }
    }
}

impl From<SImmediate> for u32 {
    fn from(value: SImmediate) -> (r: u32) {
        value.get()
    }
}

impl vstd::std_specs::convert::FromSpecImpl<SImmediate> for u32 {
    open spec fn obeys_from_spec() -> bool {
        true
    }

    open spec fn from_spec(v: SImmediate) -> u32 {
        v.value()
    }
}

/// An immediate in the B format.
#[derive(Debug, Clone, Copy, PartialEq, Eq, Structural)]
pub struct BImmediate {
    imm: u32,
}

impl BImmediate {
    pub fn new(imm: u32) -> (r: Self)
        ensures
            r.value() == imm,
    {
        BImmediate { imm }
    }

    pub fn get(&self) -> (r: u32)
        ensures
            r == self.value(),
    {
        self.imm
    }
}

impl Immediate for BImmediate {
    closed spec fn value(&self) -> u32 {
        self.imm
    }

    open spec fn field_of(v: u32) -> u32 {
        b_field(v)
    }

    open spec fn value_of(instruction: u32) -> u32 {
        b_value(instruction)
    }

    fn to_instruction_bitmask(&self) -> (r: u32) {
        (((self.imm >> 12u32) & 1) << 31u32) | (((self.imm >> 5u32) & 0x3F) << 25u32) | (((self.imm
            >> 1u32) & 0xF) << 8u32) | (((self.imm >> 11u32) & 1) << 7u32)
    }

    fn from_instruction(instruction: u32) -> (r: Self) {
        let imm = Self::sign_extend(instruction, 12) | (((instruction >> 7u32) & 1) << 11u32) | (((instruction
            >> 25u32) & 0x3F) << 5u32) | (((instruction >> 8u32) & 0xF) << 1u32);
        BImmediate { imm }
    }
}

impl From<u32> for BImmediate {
    fn from(value: u32) -> (r: Self) {
        BImmediate::new(value)
    }
}

impl vstd::std_specs::convert::FromSpecImpl<u32> for BImmediate {
    open spec fn obeys_from_spec() -> bool {
        true
    }

    closed spec fn from_spec(v: u32) -> Self {
        BImmediate { imm: v }
    }
}

impl From<BImmediate> for u32 {
    fn from(value: BImmediate) -> (r: u32) {
        value.get()
    }
}

impl vstd::std_specs::convert::FromSpecImpl<BImmediate> for u32 {
    open spec fn obeys_from_spec() -> bool {
        true
    }

    open spec fn from_spec(v: BImmediate) -> u32 {
        v.value()
    }
}

/// An immediate in the U format.
#[derive(Debug, Clone, Copy, PartialEq, Eq, Structural)]
pub struct UImmediate {
    imm: u32,
}

impl UImmediate {
    pub fn new(imm: u32) -> (r: Self)
        ensures
            r.value() == imm,
    {
        UImmediate { imm }
    }

    pub fn get(&self) -> (r: u32)
        ensures
            r == self.value(),
    {
        self.imm
    }
}

impl Immediate for UImmediate {
    closed spec fn value(&self) -> u32 {
        self.imm
    }

    open spec fn field_of(v: u32) -> u32 {
        u_field(v)
    }

    open spec fn value_of(instruction: u32) -> u32 {
        u_value(instruction)
    }

    fn to_instruction_bitmask(&self) -> (r: u32) {
        self.imm & 0xFFFF_F000
    }

    fn from_instruction(instruction: u32) -> (r: Self) {
        let imm = instruction & 0xFFFF_F000;
        UImmediate { imm }
    }
}

impl From<u32> for UImmediate {
    fn from(value: u32) -> (r: Self) {
        UImmediate::new(value)
    }
}

impl vstd::std_specs::convert::FromSpecImpl<u32> for UImmediate {
    open spec fn obeys_from_spec() -> bool {
        true
    }

    closed spec fn from_spec(v: u32) -> Self {
        UImmediate { imm: v }
    }
}

impl From<UImmediate> for u32 {
    fn from(value: UImmediate) -> (r: u32) {
        value.get()
    }
}

impl vstd::std_specs::convert::FromSpecImpl<UImmediate> for u32 {
    open spec fn obeys_from_spec() -> bool {
        true
    }

    open spec fn from_spec(v: UImmediate) -> u32 {
        v.value()
    }
}

/// An immediate in the J format.
#[derive(Debug, Clone, Copy, PartialEq, Eq, Structural)]
pub struct JImmediate {
    imm: u32,
}

impl JImmediate {
    pub fn new(imm: u32) -> (r: Self)
        ensures
            r.value() == imm,
    {
        JImmediate { imm }
    }

    pub fn get(&self) -> (r: u32)
        ensures
            r == self.value(),
    {
        self.imm
    }
}

impl Immediate for JImmediate {
    closed spec fn value(&self) -> u32 {
        self.imm
    }

    open spec fn field_of(v: u32) -> u32 {
        j_field(v)
    }

    open spec fn value_of(instruction: u32) -> u32 {
        j_value(instruction)
    }

    fn to_instruction_bitmask(&self) -> (r: u32) {
        (((self.imm >> 20u32) & 1) << 31u32) | (((self.imm >> 1u32) & 0x3FF) << 21u32) | (((self.imm
            >> 11u32) & 1) << 20u32) | (((self.imm >> 12u32) & 0xFF) << 12u32)
    }

    fn from_instruction(instruction: u32) -> (r: Self) {
        let imm = Self::sign_extend(instruction, 20) | (((instruction >> 12u32) & 0xFF) << 12u32) | (((instruction
            >> 20u32) & 1) << 11u32) | (((instruction >> 21u32) & 0x3FF) << 1u32);
        JImmediate { imm }
    }
}

impl From<u32> for JImmediate {
    fn from(value: u32) -> (r: Self) {
        JImmediate::new(value)
    }
}

impl vstd::std_specs::convert::FromSpecImpl<u32> for JImmediate {
    open spec fn obeys_from_spec() -> bool {
        true
    }

    closed spec fn from_spec(v: u32) -> Self {
        JImmediate { imm: v }
    }
}

impl From<JImmediate> for u32 {
    fn from(value: JImmediate) -> (r: u32) {
        value.get()
    }
}

impl vstd::std_specs::convert::FromSpecImpl<JImmediate> for u32 {
    open spec fn obeys_from_spec() -> bool {
        true
    }

    open spec fn from_spec(v: JImmediate) -> u32 {
        v.value()
    }
}

} // verus!
