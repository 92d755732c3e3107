//! A CHIP-8 interpreter core: machine state, instruction decoding and the
//! semantics of each instruction, with contracts proved by Verus.
use vstd::prelude::*;

pub mod error;
pub mod model;
pub mod instructions;
pub mod laws;
mod rng;

pub use error::Chip8Error;

verus! {

/// Number of bytes in the address space.
pub const MEMORY_SIZE: usize = 4096;

/// Width of the framebuffer in pixels.
pub const SCREEN_WIDTH: usize = 64;

/// Height of the framebuffer in pixels.
pub const SCREEN_HEIGHT: usize = 32;

/// Number of pixels in the framebuffer.
pub const SCREEN_SIZE: usize = 2048;

/// Address at which programs are loaded and execution starts.
pub const PROGRAM_START: u16 = 0x200;

/// Most return addresses the call stack holds.
pub const STACK_LIMIT: usize = 16;

/// The whole state of a CHIP-8 machine.
///
/// Every address that the interpreter computes is taken modulo the size of
/// the address space, so any value of the fields is a state it can run from.
pub struct Chip8 {
    /// 4 KiB of RAM.
    pub memory: [u8; 4096],
    /// 64 x 32 monochrome framebuffer, row-major (index = x + y * 64).
    pub display: [bool; 2048],
    /// Program counter.
    pub pc: u16,
    /// Index register.
    pub i: u16,
    /// Return addresses of the active subroutine calls.
    pub stack: Vec<u16>,
    /// Delay timer, decremented by the host at 60 Hz.
    pub delay_timer: u8,
    /// Sound timer, decremented by the host at 60 Hz.
    pub sound_timer: u8,
    /// General-purpose registers V0 to VF; VF doubles as the flag register.
    pub v: [u8; 16],
}

impl Chip8 {
    /// The call stack stays within its bound.
    pub open spec fn wf(&self) -> bool {
        self.stack@.len() <= STACK_LIMIT
    }
}

/// A machine with cleared memory, registers, timers and screen, an empty
/// stack, and the program counter at the program start.
pub fn new() -> (c: Chip8)
    ensures
        c.wf(),
        c.pc == PROGRAM_START,
        c.i == 0,
        c.stack@.len() == 0,
        c.delay_timer == 0,
        c.sound_timer == 0,
        forall|a: int| 0 <= a < MEMORY_SIZE ==> c.memory@[a] == 0,
        forall|p: int| 0 <= p < SCREEN_SIZE ==> !c.display@[p],
        forall|r: int| 0 <= r < 16 ==> c.v@[r] == 0,
{
    Chip8 {
        memory: [0u8; 4096],
        display: [false; 2048],
        pc: PROGRAM_START,
        i: 0,
        stack: Vec::new(),
        delay_timer: 0,
        sound_timer: 0,
        v: [0u8; 16],
    }
}

impl Chip8 {
    /// Reads the big-endian instruction word at the program counter and
    /// advances the program counter past it.
    pub fn fetch(&mut self) -> (r: u16)
        ensures
            r == model::fetch_word(*old(self)),
            *final(self) == model::advanced(*old(self)),
    {
        let pc = self.pc as usize % MEMORY_SIZE;
        let hi = self.memory[pc];
        let lo = self.memory[(pc + 1) % MEMORY_SIZE];
        let opcode: u16 = ((hi as u16) << 8u16) | (lo as u16);
        assert(((hi as u16) << 8u16) | (lo as u16) == hi as u16 * 256 + lo as u16) by (bit_vector);
        self.pc = ((self.pc as u32 + 2) % 4096) as u16;
        opcode
    }

    /// Splits an instruction word into its fields
    /// `(op, x, y, n, nn, nnn)`: the four nibbles from the most significant
    /// down, the low byte and the low twelve bits.
    pub fn decode(&self, opcode: u16) -> (r: (u16, u16, u16, u16, u16, u16))
        ensures
            r == model::fields(opcode),
    {
        let op = (opcode & 0xF000) >> 12;
        let x = (opcode & 0x0F00) >> 8;
        let y = (opcode & 0x00F0) >> 4;
        let n = opcode & 0x000F;
        let nn = opcode & 0x00FF;
        let nnn = opcode & 0x0FFF;
        assert((opcode & 0xF000) >> 12 == opcode / 4096) by (bit_vector);
        assert((opcode & 0x0F00) >> 8 == (opcode / 256) % 16) by (bit_vector);
        assert((opcode & 0x00F0) >> 4 == (opcode / 16) % 16) by (bit_vector);
        assert(opcode & 0x000F == opcode % 16) by (bit_vector);
        assert(opcode & 0x00FF == opcode % 256) by (bit_vector);
        assert(opcode & 0x0FFF == opcode % 4096) by (bit_vector);
        (op, x, y, n, nn, nnn)
    }
    /// Executes one decoded instruction with `random` as the byte that Cxnn
    /// draws.
    pub fn execute_with_random(
        &mut self,
        op: u16,
        x: u16,
        y: u16,
        n: u16,
        nn: u16,
        nnn: u16,
        random: u8,
    ) -> (res: Result<(), Chip8Error>)
        requires
            op < 16,
            x < 16,
            y < 16,
            n < 16,
            nn < 256,
            nnn < 4096,
        ensures
            model::executes(*old(self), *final(self), op, x, y, n, nn, nnn, random, res),
            old(self).wf() ==> final(self).wf(),
    {
        if op == 0 && x == 0 && y == 0xE && n == 0 {
            self.clear_screen();
            Ok(())
        } else if op == 1 {
            self.jump_to(nnn);
            Ok(())
        } else if op == 2 {
            self.call_subroutine(nnn)
        } else if op == 0 && x == 0 && y == 0xE && n == 0xE {
            self.return_subroutine();
            Ok(())
        } else if op == 3 {
            self.skip_if_value_equal(x, nn);
            Ok(())
        } else if op == 4 {
            self.skip_if_value_not_equal(x, nn);
            Ok(())
        } else if op == 5 && n == 0 {
            self.skip_if_register_equals(x, y);
            Ok(())
        } else if op == 9 && n == 0 {
            self.skip_if_register_not_equals(x, y);
            Ok(())
        } else if op == 6 {
            self.set_register(x, nn);
            Ok(())
        } else if op == 7 {
            self.add_value_to_register(x, nn);
            Ok(())
        } else if op == 8 {
            self.handle_arithemetics(x, y, n)
        } else if op == 0xA {
            self.set_index_register(nnn);
            Ok(())
        } else if op == 0xB {
            self.jump_with_offset(nnn);
            Ok(())
        } else if op == 0xC {
            self.random_number(x, nn, random);
            Ok(())
        } else if op == 0xD {
            self.draw(x, y, n);
            Ok(())
        } else if op == 0xE {
            self.skip_if_key(x, y, n)
        } else if op == 0xF && y == 0 && n == 7 {
            self.set_to_delay_timer(x);
            Ok(())
        } else if op == 0xF && y == 1 && n == 5 {
            self.set_delay_timer(x);
            Ok(())
        } else if op == 0xF && y == 1 && n == 8 {
            self.set_sound_timer(x);
            Ok(())
        } else if op == 0xF && y == 1 && n == 0xE {
            self.add_to_index(x);
            Ok(())
        } else if op == 0xF && y == 0 && n == 0xA {
            self.get_key(x)
        } else if op == 0xF && y == 2 && n == 9 {
            self.font_character(x)
        } else if op == 0xF && y == 3 && n == 3 {
            self.decimal_conversion(x);
            Ok(())
        } else if op == 0xF && y == 5 && n == 5 {
            self.store_to_memory(x);
            Ok(())
        } else if op == 0xF && y == 6 && n == 5 {
            self.load_from_memory(x);
            Ok(())
        } else {
            Err(Chip8Error::InvalidInstruction { op, x, y, n })
        }
    }

    /// Executes one decoded instruction; Cxnn draws its byte from the
    /// thread-local random generator.
    pub fn execute(&mut self, op: u16, x: u16, y: u16, n: u16, nn: u16, nnn: u16) -> (res: Result<
        (),
        Chip8Error,
    >)
        requires
            op < 16,
            x < 16,
            y < 16,
            n < 16,
            nn < 256,
            nnn < 4096,
        ensures
            exists|rnd: u8| model::executes(*old(self), *final(self), op, x, y, n, nn, nnn, rnd, res),
            old(self).wf() ==> final(self).wf(),
    {
        let random: u8 = if op == 0xC {
            rng::random_byte()
        } else {
            0
        };
        self.execute_with_random(op, x, y, n, nn, nnn, random)
    }

    /// Fetches, decodes and executes one instruction.
    pub fn advance_game_loop(&mut self) -> (res: Result<(), Chip8Error>)
        ensures
            exists|rnd: u8| model::steps(*old(self), *final(self), rnd, res),
            old(self).wf() ==> final(self).wf(),
    {
        let opcode = self.fetch();
        let ghost mid = *self;
        let (op, x, y, n, nn, nnn) = self.decode(opcode);
        assert(opcode / 4096 < 16) by (bit_vector);
        let res = self.execute(op, x, y, n, nn, nnn);
        proof {
            let rnd = choose|rnd: u8| model::executes(mid, *self, op, x, y, n, nn, nnn, rnd, res);
            assert(model::steps(*old(self), *self, rnd, res));
        }
        res
    }

    /// Copies `program` into memory from `offset` on; bytes that would land
    /// past the end of the address space are dropped.
    pub fn load_program(&mut self, program: &[u8], offset: u16)
        ensures
            final(self).memory@ == model::loaded_program(old(self).memory@, program@, offset as int),
            *final(self) == (Chip8 { memory: final(self).memory, ..*old(self) }),
    {
        let start = offset as usize;
        let mut k: usize = 0;
        while k < program.len() && start + k < MEMORY_SIZE
            invariant
                k <= program@.len(),
                start == offset,
                start + k <= MEMORY_SIZE || k == 0,
                *self == (Chip8 { memory: self.memory, ..*old(self) }),
                self.memory@ == model::loaded_program(old(self).memory@, program@.take(k as int), offset as int),
            decreases program@.len() - k,
        {
            self.memory[start + k] = program[k];
            assert(self.memory@ =~= model::loaded_program(old(self).memory@, program@.take(k + 1), offset as int));
            k = k + 1;
        }
        assert(self.memory@ =~= model::loaded_program(old(self).memory@, program@, offset as int));
    }

    /// Loads a program image at the program start address.
    pub fn load_rom(&mut self, rom: &[u8])
        ensures
            final(self).memory@ == model::loaded_program(old(self).memory@, rom@, PROGRAM_START as int),
            *final(self) == (Chip8 { memory: final(self).memory, ..*old(self) }),
    {
        self.load_program(rom, PROGRAM_START);
    }

    /// One 60 Hz tick: each timer drops by one, stopping at zero.
    pub fn tick_timers(&mut self)
        ensures
            *final(self) == (Chip8 {
                delay_timer: model::ticked(old(self).delay_timer),
                sound_timer: model::ticked(old(self).sound_timer),
                ..*old(self)
            }),
    {
        if self.delay_timer > 0 {
            self.delay_timer = self.delay_timer - 1;
        }
        if self.sound_timer > 0 {
            self.sound_timer = self.sound_timer - 1;
        }
    }
}

} // verus!
