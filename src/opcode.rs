use vstd::prelude::*;

verus! {

/// One 16-bit instruction word together with its pre-extracted fields.
#[derive(Debug, Clone, Copy, PartialEq, Eq)]
pub struct Opcode {
    /// The raw instruction word.
    pub opcode: u16,
    /// The four 4-bit nibbles, most significant first.
    pub nibbles: (u8, u8, u8, u8),
    /// The low 12 bits: a memory address operand.
    pub nnn: usize,
    /// The low 4 bits: a sprite height operand.
    pub n: usize,
    /// Bits 8 to 11: a register index.
    pub x: usize,
    /// Bits 4 to 7: a register index.
    pub y: usize,
    /// The low 8 bits: an immediate byte.
    pub kk: u8,
}

impl Opcode {
    /// The decoding of the word `w`.
    pub open spec fn decode(w: u16) -> Opcode {
        Opcode {
            opcode: w,
            nibbles: (
                (w as int / 4096) as u8,
                (w as int / 256 % 16) as u8,
                (w as int / 16 % 16) as u8,
                (w as int % 16) as u8,
            ),
            nnn: (w as int % 4096) as usize,
            n: (w as int % 16) as usize,
            x: (w as int / 256 % 16) as usize,
            y: (w as int / 16 % 16) as usize,
            kk: (w as int % 256) as u8,
        }
    }

    /// The fields agree with the instruction word.
    pub open spec fn wf(&self) -> bool {
        *self == Opcode::decode(self.opcode)
    }

    /// Splits an instruction word into its fields.
    pub fn new(opcode: u16) -> (r: Opcode)
        ensures
            r == Opcode::decode(opcode),
            r.wf(),
    {
        let w = opcode;
        assert((w & 0xF000u16) >> 12u16 == w / 4096) by (bit_vector);
        assert((w & 0x0F00u16) >> 8u16 == (w / 256) % 16) by (bit_vector);
        assert((w & 0x00F0u16) >> 4u16 == (w / 16) % 16) by (bit_vector);
        assert(w & 0x000Fu16 == w % 16) by (bit_vector);
        assert(w & 0x0FFFu16 == w % 4096) by (bit_vector);
        assert(w & 0x00FFu16 == w % 256) by (bit_vector);
        Opcode {
            opcode,
            nibbles: (
                ((opcode & 0xF000) >> 12) as u8,
                ((opcode & 0x0F00) >> 8) as u8,
                ((opcode & 0x00F0) >> 4) as u8,
                (opcode & 0x000F) as u8,
            ),
            nnn: (opcode & 0x0FFF) as usize,
            n: (opcode & 0x000F) as usize,
            x: ((opcode & 0x0F00) >> 8) as usize,
            y: ((opcode & 0x00F0) >> 4) as usize,
            kk: (opcode & 0x00FF) as u8,
        }
    }
}

impl From<u16> for Opcode {
    fn from(opcode: u16) -> Opcode {
        Opcode::new(opcode)
    }
}

impl vstd::std_specs::convert::FromSpecImpl<u16> for Opcode {
    open spec fn obeys_from_spec() -> bool {
        true
    }

    open spec fn from_spec(opcode: u16) -> Opcode {
        Opcode::decode(opcode)
    }
}

} // verus!
