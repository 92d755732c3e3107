//! The semantics of each instruction, one method per operation.
use vstd::prelude::*;
use crate::model::{
    bit_set, calls, clears, collides, computes, draws, drawn, sprite_at, index_addr, loaded_regs, returns_from_call, skips_if, stored_regs, stores_bcd,
    writes_reg,
};
use crate::{Chip8, Chip8Error};

verus! {

/// Whether pixel `p` lies on a set bit of the sprite among the bits drawn so
/// far: the rows above `row`, and the first `col` bits of row `row`.
spec fn covered(mem: Seq<u8>, i: u16, cx: int, cy: int, n: int, row: int, col: int, p: int) -> bool {
    &&& sprite_at(mem, i, cx, cy, n, p % 64, p / 64)
    &&& (p / 64 - cy < row || (p / 64 - cy == row && p % 64 - cx < col))
}

/// Pixel `p` was on before the draw and has been covered so far.
spec fn hit(d0: Seq<bool>, mem: Seq<u8>, i: u16, cx: int, cy: int, n: int, row: int, col: int, p: int) -> bool {
    0 <= p < 2048 && d0[p] && covered(mem, i, cx, cy, n, row, col, p)
}

proof fn lemma_pixel_split(p: int)
    requires
        0 <= p < 2048,
    ensures
        p == (p / 64) * 64 + p % 64,
        0 <= p % 64 < 64,
        0 <= p / 64 < 32,
{
}

proof fn lemma_pixel_index(px: int, py: int)
    requires
        0 <= px < 64,
        0 <= py < 32,
    ensures
        (px + py * 64) % 64 == px,
        (px + py * 64) / 64 == py,
{
    vstd::arithmetic::div_mod::lemma_fundamental_div_mod_converse(px + py * 64, 64, py, px);
}

impl Chip8 {
    /// 00E0: turns every pixel off.
    pub fn clear_screen(&mut self)
        ensures
            clears(*old(self), *final(self)),
    {
        let mut p: usize = 0;
        while p < 2048
            invariant
                0 <= p <= 2048,
                *self == (Chip8 { display: self.display, ..*old(self) }),
                forall|q: int| 0 <= q < p ==> !#[trigger] self.display@[q],
            decreases 2048 - p,
        {
            self.display[p] = false;
            p = p + 1;
        }
    }

    /// 1nnn: the program counter becomes `value`.
    pub fn jump_to(&mut self, value: u16)
        ensures
            *final(self) == (Chip8 { pc: value, ..*old(self) }),
    {
        self.pc = value;
    }

    /// 6xnn: register `register` becomes `value`.
    pub fn set_register(&mut self, register: u16, value: u16)
        requires
            register < 16,
            value < 256,
        ensures
            writes_reg(*old(self), *final(self), register as int, value as u8),
    {
        self.v[register as usize] = value as u8;
    }

    /// 7xnn: adds `value` to register `register`, wrapping at 256; VF is
    /// left alone.
    pub fn add_value_to_register(&mut self, register: u16, value: u16)
        requires
            register < 16,
            value < 256,
        ensures
            writes_reg(
                *old(self),
                *final(self),
                register as int,
                ((old(self).v@[register as int] + value) % 256) as u8,
            ),
    {
        let r = register as usize;
        self.v[r] = self.v[r].wrapping_add(value as u8);
    }

    /// Annn: the index register becomes `value`.
    pub fn set_index_register(&mut self, value: u16)
        ensures
            *final(self) == (Chip8 { i: value, ..*old(self) }),
    {
        self.i = value;
    }

    /// 2nnn: pushes the program counter and jumps to `value`, unless the
    /// stack is full.
    pub fn call_subroutine(&mut self, value: u16) -> (res: Result<(), Chip8Error>)
        ensures
            calls(*old(self), *final(self), value, res),
    {
        if self.stack.len() >= 16 {
            return Err(Chip8Error::StackOverflow);
        }
        self.stack.push(self.pc);
        self.pc = value;
        Ok(())
    }

    /// 00EE: pops the last return address into the program counter; with an
    /// empty stack nothing happens.
    pub fn return_subroutine(&mut self)
        ensures
            returns_from_call(*old(self), *final(self)),
    {
        if self.stack.len() > 0 {
            match self.stack.pop() {
                Some(it) => self.pc = it,
                None => {},
            }
        }
    }

    /// 3xnn: skips the next instruction if Vx equals `value`.
    pub fn skip_if_value_equal(&mut self, register_id: u16, value: u16)
        requires
            register_id < 16,
        ensures
            skips_if(*old(self), *final(self), old(self).v@[register_id as int] == value),
    {
        if self.v[register_id as usize] as u16 == value {
            self.pc = ((self.pc as u32 + 2) % 4096) as u16;
        }
    }

    /// 4xnn: skips the next instruction if Vx differs from `value`.
    pub fn skip_if_value_not_equal(&mut self, register_id: u16, value: u16)
        requires
            register_id < 16,
        ensures
            skips_if(*old(self), *final(self), old(self).v@[register_id as int] != value),
    {
        if self.v[register_id as usize] as u16 != value {
            self.pc = ((self.pc as u32 + 2) % 4096) as u16;
        }
    }

    /// 5xy0: skips the next instruction if Vx equals Vy.
    pub fn skip_if_register_equals(&mut self, register_1: u16, register2: u16)
        requires
            register_1 < 16,
            register2 < 16,
        ensures
            skips_if(
                *old(self),
                *final(self),
                old(self).v@[register_1 as int] == old(self).v@[register2 as int],
            ),
    {
        if self.v[register_1 as usize] == self.v[register2 as usize] {
            self.pc = ((self.pc as u32 + 2) % 4096) as u16;
        }
    }

    /// 9xy0: skips the next instruction if Vx differs from Vy.
    pub fn skip_if_register_not_equals(&mut self, register_1: u16, register2: u16)
        requires
            register_1 < 16,
            register2 < 16,
        ensures
            skips_if(
                *old(self),
                *final(self),
                old(self).v@[register_1 as int] != old(self).v@[register2 as int],
            ),
    {
        if self.v[register_1 as usize] != self.v[register2 as usize] {
            self.pc = ((self.pc as u32 + 2) % 4096) as u16;
        }
    }

    /// Bnnn: jumps to V0 + `value`, wrapping around the address space.
    pub fn jump_with_offset(&mut self, value: u16)
        requires
            value < 4096,
        ensures
            *final(self) == (Chip8 {
                pc: ((old(self).v@[0] + value) % 4096) as u16,
                ..*old(self)
            }),
    {
        self.pc = ((self.v[0] as u16 + value) % 4096) as u16;
    }

    /// Cxnn: register `register` becomes `random & value`, where `random`
    /// is a byte drawn by the caller.
    pub fn random_number(&mut self, register: u16, value: u16, random: u8)
        requires
            register < 16,
            value < 256,
        ensures
            writes_reg(*old(self), *final(self), register as int, random & (value as u8)),
    {
        self.v[register as usize] = random & (value as u8);
    }

    /// Ex9E / ExA1: key skips need a keypad, which this interpreter lacks.
    pub fn skip_if_key(&mut self, x: u16, y: u16, n: u16) -> (res: Result<(), Chip8Error>)
        ensures
            res == Err::<(), Chip8Error>(Chip8Error::Unsupported { op: 0xE, x, y, n }),
            *final(self) == *old(self),
    {
        Err(Chip8Error::Unsupported { op: 0xE, x, y, n })
    }

    /// Fx07: Vx becomes the delay timer.
    pub fn set_to_delay_timer(&mut self, register: u16)
        requires
            register < 16,
        ensures
            writes_reg(*old(self), *final(self), register as int, old(self).delay_timer),
    {
        self.v[register as usize] = self.delay_timer;
    }

    /// Fx15: the delay timer becomes Vx.
    pub fn set_delay_timer(&mut self, register: u16)
        requires
            register < 16,
        ensures
            *final(self) == (Chip8 { delay_timer: old(self).v@[register as int], ..*old(self) }),
    {
        self.delay_timer = self.v[register as usize];
    }

    /// Fx18: the sound timer becomes Vx.
    pub fn set_sound_timer(&mut self, register: u16)
        requires
            register < 16,
        ensures
            *final(self) == (Chip8 { sound_timer: old(self).v@[register as int], ..*old(self) }),
    {
        self.sound_timer = self.v[register as usize];
    }

    /// Fx1E: adds Vx to the index register, wrapping at 16 bits; VF is left
    /// alone.
    pub fn add_to_index(&mut self, register: u16)
        requires
            register < 16,
        ensures
            *final(self) == (Chip8 {
                i: ((old(self).i + old(self).v@[register as int]) % 65536) as u16,
                ..*old(self)
            }),
    {
        self.i = self.i.wrapping_add(self.v[register as usize] as u16);
    }

    /// Fx0A: waiting for a key needs a keypad, which this interpreter lacks.
    pub fn get_key(&mut self, register: u16) -> (res: Result<(), Chip8Error>)
        ensures
            res == Err::<(), Chip8Error>(Chip8Error::Unsupported { op: 0xF, x: register, y: 0, n: 0xA }),
            *final(self) == *old(self),
    {
        Err(Chip8Error::Unsupported { op: 0xF, x: register, y: 0, n: 0xA })
    }

    /// Fx29: font lookup needs font data in memory, which this interpreter
    /// does not load.
    pub fn font_character(&mut self, register: u16) -> (res: Result<(), Chip8Error>)
        ensures
            res == Err::<(), Chip8Error>(Chip8Error::Unsupported { op: 0xF, x: register, y: 2, n: 9 }),
            *final(self) == *old(self),
    {
        Err(Chip8Error::Unsupported { op: 0xF, x: register, y: 2, n: 9 })
    }

    /// Fx33: writes the hundreds, tens and ones digits of Vx to I, I + 1 and
    /// I + 2.
    pub fn decimal_conversion(&mut self, register: u16)
        requires
            register < 16,
        ensures
            stores_bcd(*old(self), *final(self), register as int),
    {
        let vx = self.v[register as usize];
        let base = self.i as usize;
        self.memory[base % 4096] = vx / 100;
        self.memory[(base + 1) % 4096] = (vx / 10) % 10;
        self.memory[(base + 2) % 4096] = vx % 10;
    }

    /// Fx55: writes V0 to Vx, inclusive, to memory from I on.
    pub fn store_to_memory(&mut self, register: u16)
        requires
            register < 16,
        ensures
            final(self).memory@ == stored_regs(
                old(self).memory@,
                old(self).v@,
                old(self).i,
                register as int,
            ),
            *final(self) == (Chip8 { memory: final(self).memory, ..*old(self) }),
    {
        let base = self.i as usize;
        let mut k: usize = 0;
        while k <= register as usize
            invariant
                k <= register + 1,
                register < 16,
                base == old(self).i,
                *self == (Chip8 { memory: self.memory, ..*old(self) }),
                self.memory@ == stored_regs(old(self).memory@, old(self).v@, old(self).i, k - 1),
            decreases register + 1 - k,
        {
            self.memory[(base + k) % 4096] = self.v[k];
            assert(self.memory@ =~= stored_regs(old(self).memory@, old(self).v@, old(self).i, k as int));
            k = k + 1;
        }
    }

    /// Fx65: reads V0 to Vx, inclusive, from memory from I on.
    pub fn load_from_memory(&mut self, register: u16)
        requires
            register < 16,
        ensures
            final(self).v@ == loaded_regs(
                old(self).memory@,
                old(self).v@,
                old(self).i,
                register as int,
            ),
            *final(self) == (Chip8 { v: final(self).v, ..*old(self) }),
    {
        let base = self.i as usize;
        let mut k: usize = 0;
        while k <= register as usize
            invariant
                k <= register + 1,
                register < 16,
                base == old(self).i,
                *self == (Chip8 { v: self.v, ..*old(self) }),
                self.v@ == loaded_regs(old(self).memory@, old(self).v@, old(self).i, k - 1),
            decreases register + 1 - k,
        {
            self.v[k] = self.memory[(base + k) % 4096];
            assert(self.v@ =~= loaded_regs(old(self).memory@, old(self).v@, old(self).i, k as int));
            k = k + 1;
        }
    }
    /// 8xyn: the ALU group, selected by `identifier`. Vx takes the result and
    /// then VF the carry, borrow or shifted-out bit, for the operations that
    /// have one.
    pub fn handle_arithemetics(&mut self, x: u16, y: u16, identifier: u16) -> (res: Result<(), Chip8Error>)
        requires
            x < 16,
            y < 16,
        ensures
            computes(*old(self), *final(self), x as int, y as int, identifier as int, res),
    {
        let xi = x as usize;
        let vx = self.v[xi];
        let vy = self.v[y as usize];
        match identifier {
            0 => self.v[xi] = vy,
            1 => self.v[xi] = vx | vy,
            2 => self.v[xi] = vx & vy,
            3 => self.v[xi] = vx ^ vy,
            4 => {
                let sum: u16 = vx as u16 + vy as u16;
                self.v[xi] = (sum % 256) as u8;
                self.v[15] = if sum > 255 { 1 } else { 0 };
            },
            5 => {
                self.v[xi] = vx.wrapping_sub(vy);
                self.v[15] = if vx >= vy { 1 } else { 0 };
            },
            6 => {
                assert(vy >> 1u8 == vy / 2 && vy & 1u8 == vy % 2) by (bit_vector);
                self.v[xi] = vy >> 1u8;
                self.v[15] = vy & 1u8;
            },
            7 => {
                self.v[xi] = vy.wrapping_sub(vx);
                self.v[15] = if vy >= vx { 1 } else { 0 };
            },
            0xE => {
                assert(vy >> 7u8 == vy / 128) by (bit_vector);
                self.v[xi] = ((vy as u16 * 2) % 256) as u8;
                self.v[15] = vy >> 7u8;
            },
            _ => {
                return Err(Chip8Error::InvalidInstruction { op: 8, x, y, n: identifier });
            },
        }
        Ok(())
    }
    /// Dxyn: XORs the `n`-row sprite at I onto the screen with its top left
    /// corner at (Vx mod 64, Vy mod 32), clipping at the right and bottom
    /// edges. VF becomes 1 if a pixel that was on is turned off, else 0.
    pub fn draw(&mut self, x: u16, y: u16, n: u16)
        requires
            x < 16,
            y < 16,
            n < 16,
        ensures
            draws(*old(self), *final(self), x as int, y as int, n as int),
    {
        let cx: usize = (self.v[x as usize] % 64) as usize;
        let cy: usize = (self.v[y as usize] % 32) as usize;
        let base = self.i as usize;
        let rows = n as usize;
        let ghost d0 = old(self).display@;
        let ghost mem = old(self).memory@;
        let ghost i0 = old(self).i;
        proof {
            assert(d0.len() == 2048);
            assert(mem.len() == 4096);
        }
        let mut collided = false;
        let mut row: usize = 0;
        while row < rows
            invariant
                row <= rows,
                x < 16,
                y < 16,
                rows == n,
                n < 16,
                cx < 64,
                cy < 32,
                cx == old(self).v@[x as int] % 64,
                cy == old(self).v@[y as int] % 32,
                base == i0,
                i0 == old(self).i,
                mem == old(self).memory@,
                d0 == old(self).display@,
                d0.len() == 2048,
                mem.len() == 4096,
                self.display@.len() == 2048,
                *self == (Chip8 { display: self.display, ..*old(self) }),
                forall|p: int|
                    0 <= p < 2048 ==> self.display@[p] == (d0[p] != #[trigger] covered(
                        mem, i0, cx as int, cy as int, rows as int, row as int, 0, p,
                    )),
                collided == exists|p: int| #[trigger] hit(d0, mem, i0, cx as int, cy as int, rows as int, row as int, 0, p),
            decreases rows - row,
        {
            let byte = self.memory[(base + row) % 4096];
            let mut col: u8 = 0;
            while col < 8
                invariant
                    col <= 8,
                    row < rows,
                    rows == n,
                    n < 16,
                    cx < 64,
                    cy < 32,
                    base == i0,
                    mem == self.memory@,
                    byte == mem[(i0 + row) % 4096],
                    d0.len() == 2048,
                    mem.len() == 4096,
                    self.display@.len() == 2048,
                    *self == (Chip8 { display: self.display, ..*old(self) }),
                    forall|p: int|
                        0 <= p < 2048 ==> self.display@[p] == (d0[p] != #[trigger] covered(
                            mem, i0, cx as int, cy as int, rows as int, row as int, col as int, p,
                        )),
                    collided == exists|p: int| #[trigger] hit(d0, mem, i0, cx as int, cy as int, rows as int, row as int, col as int, p),
                decreases 8 - col,
            {
                let px = cx + col as usize;
                let py = cy + row;
                let ghost c = col as int;
                let ghost before = self.display@;
                let ghost was = collided;
                if byte & (0x80u8 >> col) != 0 && px < 64 && py < 32 {
                    let idx = px + py * 64;
                    proof {
                        lemma_pixel_index(px as int, py as int);
                    }
                    if self.display[idx] {
                        collided = true;
                    }
                    self.display[idx] = !self.display[idx];
                }
                proof {
                    let on = bit_set(byte, c) && px < 64 && py < 32;
                    let at = px + py * 64;
                    if on {
                        lemma_pixel_index(px as int, py as int);
                        assert(self.display@ == before.update(at, !before[at]));
                        assert(!covered(mem, i0, cx as int, cy as int, rows as int, row as int, c, at));
                        assert(before[at] == d0[at]);
                    } else {
                        assert(self.display@ == before);
                    }
                    assert forall|p: int| 0 <= p < 2048 implies self.display@[p] == (d0[p] != #[trigger] covered(
                            mem, i0, cx as int, cy as int, rows as int, row as int, c + 1, p,
                        )) by {
                        lemma_pixel_split(p);
                        assert(before[p] == (d0[p] != covered(mem, i0, cx as int, cy as int, rows as int, row as int, c, p)));
                    }
                    if was {
                        let w = choose|p: int| #[trigger] hit(d0, mem, i0, cx as int, cy as int, rows as int, row as int, c, p);
                        lemma_pixel_split(w);
                        assert(hit(d0, mem, i0, cx as int, cy as int, rows as int, row as int, c + 1, w));
                    }
                    if collided && !was {
                        assert(hit(d0, mem, i0, cx as int, cy as int, rows as int, row as int, c + 1, at));
                    }
                    if exists|p: int| #[trigger] hit(d0, mem, i0, cx as int, cy as int, rows as int, row as int, c + 1, p) {
                        let w = choose|p: int| #[trigger] hit(d0, mem, i0, cx as int, cy as int, rows as int, row as int, c + 1, p);
                        lemma_pixel_split(w);
                        if !(on && w == at) {
                            assert(hit(d0, mem, i0, cx as int, cy as int, rows as int, row as int, c, w));
                        }
                    }
                }
                col = col + 1;
            }
            proof {
                assert forall|p: int| 0 <= p < 2048 implies self.display@[p] == (d0[p] != #[trigger] covered(
                        mem, i0, cx as int, cy as int, rows as int, row + 1, 0, p,
                    )) by {
                    assert(self.display@[p] == (d0[p] != covered(mem, i0, cx as int, cy as int, rows as int, row as int, 8, p)));
                }
                if collided {
                    let w = choose|p: int| #[trigger] hit(d0, mem, i0, cx as int, cy as int, rows as int, row as int, 8, p);
                    assert(hit(d0, mem, i0, cx as int, cy as int, rows as int, row + 1, 0, w));
                }
                if exists|p: int| #[trigger] hit(d0, mem, i0, cx as int, cy as int, rows as int, row + 1, 0, p) {
                    let w = choose|p: int| #[trigger] hit(d0, mem, i0, cx as int, cy as int, rows as int, row + 1, 0, p);
                    assert(hit(d0, mem, i0, cx as int, cy as int, rows as int, row as int, 8, w));
                }
            }
            row = row + 1;
        }
        proof {
            let cxi = cx as int;
            let cyi = cy as int;
            assert forall|p: int| 0 <= p < 2048 implies self.display@[p] == drawn(d0, mem, i0, cxi, cyi, rows as int)[p] by {
                assert(self.display@[p] == (d0[p] != covered(mem, i0, cxi, cyi, rows as int, rows as int, 0, p)));
            }
            assert(self.display@ =~= drawn(d0, mem, i0, cxi, cyi, rows as int));
            if collided {
                let w = choose|p: int| #[trigger] hit(d0, mem, i0, cxi, cyi, rows as int, rows as int, 0, p);
                assert(sprite_at(mem, i0, cxi, cyi, rows as int, w % 64, w / 64));
            }
            if collides(d0, mem, i0, cxi, cyi, rows as int) {
                let w = choose|p: int| 0 <= p < 2048 && d0[p] && #[trigger] sprite_at(mem, i0, cxi, cyi, rows as int, p % 64, p / 64);
                assert(hit(d0, mem, i0, cxi, cyi, rows as int, rows as int, 0, w));
            }
        }
        self.v[15] = if collided { 1 } else { 0 };
    }
}

} // verus!
