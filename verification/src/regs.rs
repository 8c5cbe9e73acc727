//! The R8's registers: eight 8-bit registers, addressable in pairs as four 16-bit
//! registers, and the 16-bit stack pointer.
use vstd::prelude::*;

use crate::text::eq_chars_str;

verus! {

/// The registers, with their numeric IDs (0x00-0x0C) in declaration order.
#[non_exhaustive]
#[derive(Copy, Clone, Debug, PartialEq, Eq, Structural)]
pub enum Reg {
    A,
    B,
    C,
    D,
    E,
    F,
    G,
    H,
    AB,
    CD,
    EF,
    GH,
    SP,
}

/// The numeric register ID used in instruction encodings.
pub open spec fn reg_id(r: Reg) -> u8 {
    match r {
        Reg::A => 0x00,
        Reg::B => 0x01,
        Reg::C => 0x02,
        Reg::D => 0x03,
        Reg::E => 0x04,
        Reg::F => 0x05,
        Reg::G => 0x06,
        Reg::H => 0x07,
        Reg::AB => 0x08,
        Reg::CD => 0x09,
        Reg::EF => 0x0A,
        Reg::GH => 0x0B,
        Reg::SP => 0x0C,
    }
}

/// The register with numeric ID `id`, if any.
pub open spec fn reg_from_id(id: u8) -> Option<Reg> {
    if id == 0x00 {
        Some(Reg::A)
    } else if id == 0x01 {
        Some(Reg::B)
    } else if id == 0x02 {
        Some(Reg::C)
    } else if id == 0x03 {
        Some(Reg::D)
    } else if id == 0x04 {
        Some(Reg::E)
    } else if id == 0x05 {
        Some(Reg::F)
    } else if id == 0x06 {
        Some(Reg::G)
    } else if id == 0x07 {
        Some(Reg::H)
    } else if id == 0x08 {
        Some(Reg::AB)
    } else if id == 0x09 {
        Some(Reg::CD)
    } else if id == 0x0A {
        Some(Reg::EF)
    } else if id == 0x0B {
        Some(Reg::GH)
    } else if id == 0x0C {
        Some(Reg::SP)
    } else {
        None
    }
}

/// True for the 16-bit registers (the four pairs and `sp`).
pub open spec fn reg_is16(r: Reg) -> bool {
    r is AB || r is CD || r is EF || r is GH || r is SP
}

/// The assembly-language name of a register.
pub open spec fn reg_name(r: Reg) -> Seq<char> {
    match r {
        Reg::A => seq!['a'],
        Reg::B => seq!['b'],
        Reg::C => seq!['c'],
        Reg::D => seq!['d'],
        Reg::E => seq!['e'],
        Reg::F => seq!['f'],
        Reg::G => seq!['g'],
        Reg::H => seq!['h'],
        Reg::AB => seq!['a', 'b'],
        Reg::CD => seq!['c', 'd'],
        Reg::EF => seq!['e', 'f'],
        Reg::GH => seq!['g', 'h'],
        Reg::SP => seq!['s', 'p'],
    }
}

/// The register whose name is `name`, if any.
pub open spec fn reg_from_name(name: Seq<char>) -> Option<Reg> {
    if name == reg_name(Reg::A) {
        Some(Reg::A)
    } else if name == reg_name(Reg::B) {
        Some(Reg::B)
    } else if name == reg_name(Reg::C) {
        Some(Reg::C)
    } else if name == reg_name(Reg::D) {
        Some(Reg::D)
    } else if name == reg_name(Reg::E) {
        Some(Reg::E)
    } else if name == reg_name(Reg::F) {
        Some(Reg::F)
    } else if name == reg_name(Reg::G) {
        Some(Reg::G)
    } else if name == reg_name(Reg::H) {
        Some(Reg::H)
    } else if name == reg_name(Reg::AB) {
        Some(Reg::AB)
    } else if name == reg_name(Reg::CD) {
        Some(Reg::CD)
    } else if name == reg_name(Reg::EF) {
        Some(Reg::EF)
    } else if name == reg_name(Reg::GH) {
        Some(Reg::GH)
    } else if name == reg_name(Reg::SP) {
        Some(Reg::SP)
    } else {
        None
    }
}

impl Reg {
    /// Returns true if `reg` is a 16-bit register pair (or `sp`).
    pub fn is16(&self) -> (r: bool)
        ensures
            r == reg_is16(*self),
    {
        match *self {
            Reg::AB | Reg::CD | Reg::EF | Reg::GH | Reg::SP => true,
            _ => false,
        }
    }

    /// Returns the register's numeric ID.
    pub fn id(&self) -> (r: u8)
        ensures
            r == reg_id(*self),
    {
        match *self {
            Reg::A => 0x00,
            Reg::B => 0x01,
            Reg::C => 0x02,
            Reg::D => 0x03,
            Reg::E => 0x04,
            Reg::F => 0x05,
            Reg::G => 0x06,
            Reg::H => 0x07,
            Reg::AB => 0x08,
            Reg::CD => 0x09,
            Reg::EF => 0x0A,
            Reg::GH => 0x0B,
            Reg::SP => 0x0C,
        }
    }

    /// Returns the register with numeric ID `id`, or `None` if there is none.
    pub fn from_id(id: u8) -> (r: Option<Reg>)
        ensures
            r == reg_from_id(id),
    {
        match id {
            0x00 => Some(Reg::A),
            0x01 => Some(Reg::B),
            0x02 => Some(Reg::C),
            0x03 => Some(Reg::D),
            0x04 => Some(Reg::E),
            0x05 => Some(Reg::F),
            0x06 => Some(Reg::G),
            0x07 => Some(Reg::H),
            0x08 => Some(Reg::AB),
            0x09 => Some(Reg::CD),
            0x0A => Some(Reg::EF),
            0x0B => Some(Reg::GH),
            0x0C => Some(Reg::SP),
            _ => None,
        }
    }

    /// Returns the register's assembly-language name.
    pub fn name(&self) -> (r: &'static str)
        ensures
            r@ == reg_name(*self),
    {
        match *self {
            Reg::A => {
                proof { reveal_strlit("a"); }
                "a"
            },
            Reg::B => {
                proof { reveal_strlit("b"); }
                "b"
            },
            Reg::C => {
                proof { reveal_strlit("c"); }
                "c"
            },
            Reg::D => {
                proof { reveal_strlit("d"); }
                "d"
            },
            Reg::E => {
                proof { reveal_strlit("e"); }
                "e"
            },
            Reg::F => {
                proof { reveal_strlit("f"); }
                "f"
            },
            Reg::G => {
                proof { reveal_strlit("g"); }
                "g"
            },
            Reg::H => {
                proof { reveal_strlit("h"); }
                "h"
            },
            Reg::AB => {
                proof { reveal_strlit("ab"); }
                "ab"
            },
            Reg::CD => {
                proof { reveal_strlit("cd"); }
                "cd"
            },
            Reg::EF => {
                proof { reveal_strlit("ef"); }
                "ef"
            },
            Reg::GH => {
                proof { reveal_strlit("gh"); }
                "gh"
            },
            Reg::SP => {
                proof { reveal_strlit("sp"); }
                "sp"
            },
        }
    }

    /// Returns the register named `name`, or `None` if no register has that name.
    pub fn from_name(name: &[char]) -> (r: Option<Reg>)
        ensures
            r == reg_from_name(name@),
    {
        if eq_chars_str(name, Reg::A.name()) {
            Some(Reg::A)
        } else if eq_chars_str(name, Reg::B.name()) {
            Some(Reg::B)
        } else if eq_chars_str(name, Reg::C.name()) {
            Some(Reg::C)
        } else if eq_chars_str(name, Reg::D.name()) {
            Some(Reg::D)
        } else if eq_chars_str(name, Reg::E.name()) {
            Some(Reg::E)
        } else if eq_chars_str(name, Reg::F.name()) {
            Some(Reg::F)
        } else if eq_chars_str(name, Reg::G.name()) {
            Some(Reg::G)
        } else if eq_chars_str(name, Reg::H.name()) {
            Some(Reg::H)
        } else if eq_chars_str(name, Reg::AB.name()) {
            Some(Reg::AB)
        } else if eq_chars_str(name, Reg::CD.name()) {
            Some(Reg::CD)
        } else if eq_chars_str(name, Reg::EF.name()) {
            Some(Reg::EF)
        } else if eq_chars_str(name, Reg::GH.name()) {
            Some(Reg::GH)
        } else if eq_chars_str(name, Reg::SP.name()) {
            Some(Reg::SP)
        } else {
            None
        }
    }
}

/// Every register's ID maps back to that register.
pub proof fn lemma_reg_id_round_trip(r: Reg)
    ensures
        reg_from_id(reg_id(r)) == Some(r),
        reg_id(r) <= 0x0C,
{
}

/// Every valid ID is the ID of the register it decodes to.
pub proof fn lemma_reg_from_id_inverse(id: u8)
    ensures
        reg_from_id(id) is Some <==> id <= 0x0C,
        reg_from_id(id) matches Some(r) ==> reg_id(r) == id,
{
}

/// Different registers have different names.
pub proof fn lemma_reg_names_distinct(x: Reg, y: Reg)
    requires
        x != y,
    ensures
        reg_name(x) != reg_name(y),
{
    let sx = reg_name(x);
    let sy = reg_name(y);
    if sx.len() == sy.len() {
        assert(sx[0] != sy[0] || sx[sx.len() - 1] != sy[sy.len() - 1]);
    }
}

/// Every register's name parses back to that register.
pub proof fn lemma_reg_name_round_trip(r: Reg)
    ensures
        reg_from_name(reg_name(r)) == Some(r),
{
    assert forall|x: Reg| x != r implies reg_name(x) != reg_name(r) by {
        lemma_reg_names_distinct(x, r);
    }
}

/// The abstract contents of the register file.
pub struct RegsView {
    pub a: u8,
    pub b: u8,
    pub c: u8,
    pub d: u8,
    pub e: u8,
    pub f: u8,
    pub g: u8,
    pub h: u8,
    pub sp: u16,
}

/// The 16-bit value of a register pair with high byte `hi` and low byte `lo`.
pub open spec fn pair(hi: u8, lo: u8) -> u16 {
    (hi as int * 256 + lo as int) as u16
}

impl RegsView {
    /// The value in register `r`; for 8-bit registers the high byte is zero.
    pub open spec fn get(self, r: Reg) -> u16 {
        match r {
            Reg::A => self.a as u16,
            Reg::B => self.b as u16,
            Reg::C => self.c as u16,
            Reg::D => self.d as u16,
            Reg::E => self.e as u16,
            Reg::F => self.f as u16,
            Reg::G => self.g as u16,
            Reg::H => self.h as u16,
            Reg::AB => pair(self.a, self.b),
            Reg::CD => pair(self.c, self.d),
            Reg::EF => pair(self.e, self.f),
            Reg::GH => pair(self.g, self.h),
            Reg::SP => self.sp,
        }
    }

    /// The register file after setting `r` to `val`; for 8-bit registers only the low
    /// byte of `val` is kept, and a pair stores its high byte in the first register.
    pub open spec fn set(self, r: Reg, val: u16) -> RegsView {
        let lo = (val % 256) as u8;
        let hi = (val / 256) as u8;
        match r {
            Reg::A => RegsView { a: lo, ..self },
            Reg::B => RegsView { b: lo, ..self },
            Reg::C => RegsView { c: lo, ..self },
            Reg::D => RegsView { d: lo, ..self },
            Reg::E => RegsView { e: lo, ..self },
            Reg::F => RegsView { f: lo, ..self },
            Reg::G => RegsView { g: lo, ..self },
            Reg::H => RegsView { h: lo, ..self },
            Reg::AB => RegsView { a: hi, b: lo, ..self },
            Reg::CD => RegsView { c: hi, d: lo, ..self },
            Reg::EF => RegsView { e: hi, f: lo, ..self },
            Reg::GH => RegsView { g: hi, h: lo, ..self },
            Reg::SP => RegsView { sp: val, ..self },
        }
    }

    /// All registers zero.
    pub open spec fn zeroed() -> RegsView {
        RegsView { a: 0, b: 0, c: 0, d: 0, e: 0, f: 0, g: 0, h: 0, sp: 0 }
    }
}

/// The CPU registers.
#[derive(Debug)]
pub struct Regs {
    ra: u8,
    rb: u8,
    rc: u8,
    rd: u8,
    re: u8,
    rf: u8,
    rg: u8,
    rh: u8,
    sp: u16,
}

impl View for Regs {
    type V = RegsView;

    closed spec fn view(&self) -> RegsView {
        RegsView {
            a: self.ra,
            b: self.rb,
            c: self.rc,
            d: self.rd,
            e: self.re,
            f: self.rf,
            g: self.rg,
            h: self.rh,
            sp: self.sp,
        }
    }
}

impl Default for Regs {
    /// All registers zero.
    fn default() -> (r: Regs)
        ensures
            r@ == RegsView::zeroed(),
    {
        Regs { ra: 0, rb: 0, rc: 0, rd: 0, re: 0, rf: 0, rg: 0, rh: 0, sp: 0 }
    }
}

impl Regs {
    /// Returns the value in register `reg`.
    ///
    /// For 8-bit registers, the high byte will always be 0.
    pub fn get(&self, reg: Reg) -> (r: u16)
        ensures
            r == self@.get(reg),
    {
        match reg {
            Reg::A => self.ra as u16,
            Reg::B => self.rb as u16,
            Reg::C => self.rc as u16,
            Reg::D => self.rd as u16,
            Reg::E => self.re as u16,
            Reg::F => self.rf as u16,
            Reg::G => self.rg as u16,
            Reg::H => self.rh as u16,
            Reg::AB => (self.ra as u16) * 256 + (self.rb as u16),
            Reg::CD => (self.rc as u16) * 256 + (self.rd as u16),
            Reg::EF => (self.re as u16) * 256 + (self.rf as u16),
            Reg::GH => (self.rg as u16) * 256 + (self.rh as u16),
            Reg::SP => self.sp,
        }
    }

    /// Sets register `reg` to the value `val`, returning the register's new value.
    ///
    /// For 8-bit registers, the high byte is ignored.
    pub fn set(&mut self, reg: Reg, val: u16) -> (r: u16)
        ensures
            final(self)@ == old(self)@.set(reg, val),
            r == final(self)@.get(reg),
    {
        let lo = (val % 256) as u8;
        let hi = (val / 256) as u8;
        match reg {
            Reg::A => self.ra = lo,
            Reg::B => self.rb = lo,
            Reg::C => self.rc = lo,
            Reg::D => self.rd = lo,
            Reg::E => self.re = lo,
            Reg::F => self.rf = lo,
            Reg::G => self.rg = lo,
            Reg::H => self.rh = lo,
            Reg::AB => {
                self.ra = hi;
                self.rb = lo;
            },
            Reg::CD => {
                self.rc = hi;
                self.rd = lo;
            },
            Reg::EF => {
                self.re = hi;
                self.rf = lo;
            },
            Reg::GH => {
                self.rg = hi;
                self.rh = lo;
            },
            Reg::SP => self.sp = val,
        }
        self.get(reg)
    }
}

/// Reading a register gives back what was last written to it: all 16 bits for a
/// 16-bit register, the low byte for an 8-bit one.
pub proof fn lemma_regs_set_get(regs: RegsView, r: Reg, val: u16)
    ensures
        reg_is16(r) ==> regs.set(r, val).get(r) == val,
        !reg_is16(r) ==> regs.set(r, val).get(r) == val % 256,
{
}

/// Writing one register leaves every register that does not share storage with it
/// unchanged.
pub proof fn lemma_regs_set_other(regs: RegsView, r: Reg, val: u16, other: Reg)
    requires
        !overlaps(r, other),
    ensures
        regs.set(r, val).get(other) == regs.get(other),
{
}

/// True if registers `x` and `y` share storage (a pair overlaps its two halves).
pub open spec fn overlaps(x: Reg, y: Reg) -> bool {
    x == y || halves(x).contains(y) || halves(y).contains(x)
}

/// The 8-bit registers that make up a pair (none for the others).
pub open spec fn halves(r: Reg) -> Seq<Reg> {
    match r {
        Reg::AB => seq![Reg::A, Reg::B],
        Reg::CD => seq![Reg::C, Reg::D],
        Reg::EF => seq![Reg::E, Reg::F],
        Reg::GH => seq![Reg::G, Reg::H],
        _ => Seq::empty(),
    }
}

/// A register pair reads as its first register times 256 plus its second.
pub proof fn lemma_pair_is_halves(regs: RegsView, r: Reg)
    requires
        halves(r).len() == 2,
    ensures
        regs.get(r) == regs.get(halves(r)[0]) as int * 256 + regs.get(halves(r)[1]) as int,
{
}

/// Returns the source and target registers specified by `regs`.
///
/// The source register ID is encoded in the high nibble, the target register in the low
/// nibble. For example, in the instruction `ld a, (cd)` (load register indirect), the
/// source register is `cd` and the target register is `a`. The instruction is followed
/// by an operand byte encoding these registers as 0x91 (9 = 0b1001 = `cd`, 1 = 0b0001 =
/// `a`).
pub fn source_and_target_from(regs: u8) -> (r: Option<(Reg, Reg)>)
    ensures
        r == spec_source_and_target(regs),
{
    match (Reg::from_id(regs / 16), Reg::from_id(regs % 16)) {
        (Some(source), Some(target)) => Some((source, target)),
        _ => None,
    }
}

/// The source and target registers encoded in the nibbles of `regs`, if both are valid.
pub open spec fn spec_source_and_target(regs: u8) -> Option<(Reg, Reg)> {
    match (reg_from_id(regs / 16), reg_from_id(regs % 16)) {
        (Some(source), Some(target)) => Some((source, target)),
        _ => None,
    }
}

/// Returns the source register encoded in the high nibble of `regs`, ignoring the low
/// nibble.
pub fn source_from(regs: u8) -> (r: Option<Reg>)
    ensures
        r == reg_from_id(regs / 16),
{
    Reg::from_id(regs / 16)
}

/// Returns the operand byte encoding `source` and `target` registers.
///
/// See [`source_and_target_from`] for details of the encoding.
pub fn u8_from(source: Reg, target: Reg) -> (r: u8)
    ensures
        r == spec_u8_from(source, target),
{
    source.id() * 16 + target.id()
}

/// The operand byte encoding `source` (high nibble) and `target` (low nibble).
pub open spec fn spec_u8_from(source: Reg, target: Reg) -> u8 {
    (reg_id(source) * 16 + reg_id(target)) as u8
}

/// Encoding two registers in an operand byte and decoding it gives them back.
pub proof fn lemma_source_target_round_trip(source: Reg, target: Reg)
    ensures
        spec_source_and_target(spec_u8_from(source, target)) == Some((source, target)),
        reg_from_id(spec_u8_from(source, target) / 16) == Some(source),
{
}

} // verus!
