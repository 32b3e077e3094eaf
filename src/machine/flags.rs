use vstd::prelude::*;

verus! {

/// The processor status register, one field per flag.
///
/// Packed into a byte as C=bit0, Z=bit1, I=bit2, D=bit3, B=bit4, V=bit6, N=bit7;
/// bit 5 is not stored and reads as 0.
#[derive(Clone, Copy, Debug)]
pub struct Flags {
    pub carry: bool,
    pub zero: bool,
    pub interrupt_disable: bool,
    pub decimal_mode: bool,
    pub break_command: bool,
    pub overflow: bool,
    pub negative: bool,
}

/// 1 when `b` holds, else 0.
pub open spec fn bit(b: bool) -> u8 {
    if b { 1 } else { 0 }
}

impl Flags {
    /// All flags clear.
    pub open spec fn cleared() -> Flags {
        Flags {
            carry: false,
            zero: false,
            interrupt_disable: false,
            decimal_mode: false,
            break_command: false,
            overflow: false,
            negative: false,
        }
    }

    /// The packed status byte.
    pub open spec fn byte(self) -> u8 {
        (bit(self.carry) + 2 * bit(self.zero) + 4 * bit(self.interrupt_disable) + 8 * bit(
            self.decimal_mode,
        ) + 16 * bit(self.break_command) + 64 * bit(self.overflow) + 128 * bit(
            self.negative,
        )) as u8
    }

    /// The flags that a status byte packs.
    pub open spec fn of_byte(b: u8) -> Flags {
        Flags {
            carry: b & 0x01 != 0,
            zero: b & 0x02 != 0,
            interrupt_disable: b & 0x04 != 0,
            decimal_mode: b & 0x08 != 0,
            break_command: b & 0x10 != 0,
            overflow: b & 0x40 != 0,
            negative: b & 0x80 != 0,
        }
    }

    pub fn new() -> (r: Flags)
        ensures
            r == Flags::cleared(),
    {
        Flags {
            carry: false,
            zero: false,
            interrupt_disable: false,
            decimal_mode: false,
            break_command: false,
            overflow: false,
            negative: false,
        }
    }

    pub fn set_carry(&mut self, value: bool)
        ensures
            *final(self) == (Flags { carry: value, ..*old(self) }),
    {
        self.carry = value;
    }

    pub fn carry(&self) -> (r: bool)
        ensures
            r == self.carry,
    {
        self.carry
    }

    pub fn set_zero(&mut self, value: bool)
        ensures
            *final(self) == (Flags { zero: value, ..*old(self) }),
    {
        self.zero = value;
    }

    pub fn zero(&self) -> (r: bool)
        ensures
            r == self.zero,
    {
        self.zero
    }

    pub fn set_interrupt(&mut self, value: bool)
        ensures
            *final(self) == (Flags { interrupt_disable: value, ..*old(self) }),
    {
        self.interrupt_disable = value;
    }

    pub fn interrupt(&self) -> (r: bool)
        ensures
            r == self.interrupt_disable,
    {
        self.interrupt_disable
    }

    pub fn set_decimal(&mut self, value: bool)
        ensures
            *final(self) == (Flags { decimal_mode: value, ..*old(self) }),
    {
        self.decimal_mode = value;
    }

    pub fn decimal(&self) -> (r: bool)
        ensures
            r == self.decimal_mode,
    {
        self.decimal_mode
    }

    pub fn set_break(&mut self, value: bool)
        ensures
            *final(self) == (Flags { break_command: value, ..*old(self) }),
    {
        self.break_command = value;
    }

    pub fn break_cmd(&self) -> (r: bool)
        ensures
            r == self.break_command,
    {
        self.break_command
    }

    pub fn set_overflow(&mut self, value: bool)
        ensures
            *final(self) == (Flags { overflow: value, ..*old(self) }),
    {
        self.overflow = value;
    }

    pub fn overflow(&self) -> (r: bool)
        ensures
            r == self.overflow,
    {
        self.overflow
    }

    pub fn set_negative(&mut self, value: bool)
        ensures
            *final(self) == (Flags { negative: value, ..*old(self) }),
    {
        self.negative = value;
    }

    pub fn negative(&self) -> (r: bool)
        ensures
            r == self.negative,
    {
        self.negative
    }

    /// Packs the flags into the status byte (bit 5 reads as 0).
    pub fn as_byte(&self) -> (r: u8)
        ensures
            r == self.byte(),
    {
        let mut b: u8 = 0;
        if self.carry {
            b = b + 1;
        }
        if self.zero {
            b = b + 2;
        }
        if self.interrupt_disable {
            b = b + 4;
        }
        if self.decimal_mode {
            b = b + 8;
        }
        if self.break_command {
            b = b + 16;
        }
        if self.overflow {
            b = b + 64;
        }
        if self.negative {
            b = b + 128;
        }
        b
    }

    /// Unpacks a status byte into the flags (bit 5 is ignored).
    pub fn from_byte(&mut self, byte: u8)
        ensures
            *final(self) == Flags::of_byte(byte),
    {
        self.carry = byte & 0x01 != 0;
        self.zero = byte & 0x02 != 0;
        self.interrupt_disable = byte & 0x04 != 0;
        self.decimal_mode = byte & 0x08 != 0;
        self.break_command = byte & 0x10 != 0;
        self.overflow = byte & 0x40 != 0;
        self.negative = byte & 0x80 != 0;
    }
}

/// Unpacking a packed status byte gives back the same flags.
pub proof fn lemma_flags_round_trip(f: Flags)
    ensures
        Flags::of_byte(f.byte()) == f,
{
    let (c, z, i, d, b, v, n) = (
        bit(f.carry),
        bit(f.zero),
        bit(f.interrupt_disable),
        bit(f.decimal_mode),
        bit(f.break_command),
        bit(f.overflow),
        bit(f.negative),
    );
    let x = f.byte();
    assert(x == (c + 2 * z + 4 * i + 8 * d + 16 * b + 64 * v + 128 * n) as u8);
    assert(c <= 1 && z <= 1 && i <= 1 && d <= 1 && b <= 1 && v <= 1 && n <= 1);
    assert(x == c | (z << 1u8) | (i << 2u8) | (d << 3u8) | (b << 4u8) | (v << 6u8) | (n << 7u8))
        by (bit_vector)
        requires
            x == (c + 2 * z + 4 * i + 8 * d + 16 * b + 64 * v + 128 * n) as u8,
            c <= 1 && z <= 1 && i <= 1 && d <= 1 && b <= 1 && v <= 1 && n <= 1,
    ;
    assert((x & 0x01 != 0) == (c == 1) && (x & 0x02 != 0) == (z == 1) && (x & 0x04 != 0) == (i
        == 1) && (x & 0x08 != 0) == (d == 1) && (x & 0x10 != 0) == (b == 1) && (x & 0x40 != 0)
        == (v == 1) && (x & 0x80 != 0) == (n == 1)) by (bit_vector)
        requires
            x == c | (z << 1u8) | (i << 2u8) | (d << 3u8) | (b << 4u8) | (v << 6u8) | (n << 7u8),
            c <= 1 && z <= 1 && i <= 1 && d <= 1 && b <= 1 && v <= 1 && n <= 1,
    ;
}

} // verus!
