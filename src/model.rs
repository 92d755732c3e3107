//! Spec-level description of the machine: instruction words, their fields,
//! and what each instruction does to the state.
use vstd::prelude::*;
use crate::{Chip8, Chip8Error};

verus! {

/// The word formed by the byte at `a` (high) and the byte after it (low).
pub open spec fn word_at(mem: Seq<u8>, a: int) -> u16 {
    (mem[a % 4096] as int * 256 + mem[(a + 1) % 4096] as int) as u16
}

/// The instruction word at the program counter.
pub open spec fn fetch_word(c: Chip8) -> u16 {
    word_at(c.memory@, c.pc as int)
}

/// The address two bytes on from `pc`, wrapping around the address space.
pub open spec fn next_pc(pc: u16) -> u16 {
    ((pc as int + 2) % 4096) as u16
}

/// The state after the program counter has moved past one instruction.
pub open spec fn advanced(c: Chip8) -> Chip8 {
    Chip8 { pc: next_pc(c.pc), ..c }
}

/// The fields `(op, x, y, n, nn, nnn)` of an instruction word.
pub open spec fn fields(w: u16) -> (u16, u16, u16, u16, u16, u16) {
    (
        (w / 4096) as u16,
        ((w / 256) % 16) as u16,
        ((w / 16) % 16) as u16,
        (w % 16) as u16,
        (w % 256) as u16,
        (w % 4096) as u16,
    )
}

/// `post` is `pre` with register `x` set to `val`.
pub open spec fn writes_reg(pre: Chip8, post: Chip8, x: int, val: u8) -> bool {
    post.v@ == pre.v@.update(x, val) && post == Chip8 { v: post.v, ..pre }
}

/// `post` is `pre` with register `x` set to `val` and then VF set to `flag`.
pub open spec fn writes_reg_flag(pre: Chip8, post: Chip8, x: int, val: u8, flag: u8) -> bool {
    post.v@ == pre.v@.update(x, val).update(15, flag) && post == Chip8 { v: post.v, ..pre }
}

/// `post` is `pre` with the program counter moved past one more
/// instruction when `cond` holds.
pub open spec fn skips_if(pre: Chip8, post: Chip8, cond: bool) -> bool {
    post == Chip8 { pc: if cond { next_pc(pre.pc) } else { pre.pc }, ..pre }
}

/// Clear screen: every pixel off, nothing else changed.
pub open spec fn clears(pre: Chip8, post: Chip8) -> bool {
    &&& post == Chip8 { display: post.display, ..pre }
    &&& forall|p: int| 0 <= p < 2048 ==> !#[trigger] post.display@[p]
}

/// Call: on success the current program counter is pushed and control
/// moves to `nnn`; a full stack leaves the state as it was.
pub open spec fn calls(pre: Chip8, post: Chip8, nnn: u16, res: Result<(), Chip8Error>) -> bool {
    if pre.stack@.len() < 16 {
        &&& res is Ok
        &&& post.stack@ == pre.stack@.push(pre.pc)
        &&& post == Chip8 { stack: post.stack, pc: nnn, ..pre }
    } else {
        res == Err::<(), Chip8Error>(Chip8Error::StackOverflow) && post == pre
    }
}

/// Return: the last return address is popped into the program counter; an
/// empty stack leaves the state as it was.
pub open spec fn returns_from_call(pre: Chip8, post: Chip8) -> bool {
    if pre.stack@.len() > 0 {
        &&& post.stack@ == pre.stack@.drop_last()
        &&& post == Chip8 { stack: post.stack, pc: pre.stack@.last(), ..pre }
    } else {
        post == pre
    }
}

/// Whether bit `col` (0 = most significant) of `byte` is set.
pub open spec fn bit_set(byte: u8, col: int) -> bool {
    byte & (0x80u8 >> (col as u8)) != 0
}

/// Whether the sprite of `n` rows read from `mem` at `i`, drawn with its top
/// left corner at `(cx, cy)`, has a set bit at pixel `(px, py)`.
pub open spec fn sprite_at(mem: Seq<u8>, i: u16, cx: int, cy: int, n: int, px: int, py: int) -> bool {
    &&& cx <= px < cx + 8
    &&& cy <= py < cy + n
    &&& bit_set(mem[(i + (py - cy)) % 4096], px - cx)
}

/// The framebuffer `d` with the sprite XORed onto it; pixels past the right
/// or bottom edge are clipped.
pub open spec fn drawn(d: Seq<bool>, mem: Seq<u8>, i: u16, cx: int, cy: int, n: int) -> Seq<bool> {
    Seq::new(2048, |p: int| d[p] != sprite_at(mem, i, cx, cy, n, p % 64, p / 64))
}

/// Whether the sprite turns off a pixel of `d` that was on.
pub open spec fn collides(d: Seq<bool>, mem: Seq<u8>, i: u16, cx: int, cy: int, n: int) -> bool {
    exists|p: int| 0 <= p < 2048 && d[p] && #[trigger] sprite_at(mem, i, cx, cy, n, p % 64, p / 64)
}

/// Draw `n` rows from memory at I at (Vx mod 64, Vy mod 32); VF records a
/// collision.
pub open spec fn draws(pre: Chip8, post: Chip8, x: int, y: int, n: int) -> bool {
    let cx = pre.v@[x] as int % 64;
    let cy = pre.v@[y] as int % 32;
    &&& post.display@ == drawn(pre.display@, pre.memory@, pre.i, cx, cy, n)
    &&& post.v@ == pre.v@.update(15, if collides(pre.display@, pre.memory@, pre.i, cx, cy, n) { 1u8 } else { 0u8 })
    &&& post == Chip8 { display: post.display, v: post.v, ..pre }
}

/// The address `k` bytes past the index register.
pub open spec fn index_addr(i: u16, k: int) -> int {
    (i + k) % 4096
}

/// BCD: the hundreds, tens and ones of Vx go to I, I + 1 and I + 2.
pub open spec fn stores_bcd(pre: Chip8, post: Chip8, x: int) -> bool {
    let vx = pre.v@[x];
    &&& post.memory@ == pre.memory@.update(index_addr(pre.i, 0), vx / 100).update(
        index_addr(pre.i, 1),
        (vx / 10) % 10,
    ).update(index_addr(pre.i, 2), vx % 10)
    &&& post == Chip8 { memory: post.memory, ..pre }
}

/// Memory after V0 to Vx are written from I on.
pub open spec fn stored_regs(mem: Seq<u8>, v: Seq<u8>, i: u16, x: int) -> Seq<u8> {
    Seq::new(4096, |a: int| if (a - i) % 4096 <= x { v[(a - i) % 4096] } else { mem[a] })
}

/// Registers after V0 to Vx are read from I on.
pub open spec fn loaded_regs(mem: Seq<u8>, v: Seq<u8>, i: u16, x: int) -> Seq<u8> {
    Seq::new(16, |k: int| if k <= x { mem[index_addr(i, k)] } else { v[k] })
}

/// The result and flag of ALU operation `8xyn`, or `None` when `n` names
/// no operation.
pub open spec fn alu(vx: u8, vy: u8, n: int) -> Option<(u8, Option<u8>)> {
    if n == 0 {
        Some((vy, None))
    } else if n == 1 {
        Some((vx | vy, None))
    } else if n == 2 {
        Some((vx & vy, None))
    } else if n == 3 {
        Some((vx ^ vy, None))
    } else if n == 4 {
        Some((((vx + vy) % 256) as u8, Some(if vx + vy > 255 { 1u8 } else { 0u8 })))
    } else if n == 5 {
        Some((((vx - vy) % 256) as u8, Some(if vx >= vy { 1u8 } else { 0u8 })))
    } else if n == 6 {
        Some((vy / 2, Some(vy % 2)))
    } else if n == 7 {
        Some((((vy - vx) % 256) as u8, Some(if vy >= vx { 1u8 } else { 0u8 })))
    } else if n == 0xE {
        Some((((vy * 2) % 256) as u8, Some(vy / 128)))
    } else {
        None
    }
}

/// ALU operation `8xyn`: Vx takes the result and then VF the flag, if the
/// operation has one; an unknown `n` is an error that changes nothing.
pub open spec fn computes(pre: Chip8, post: Chip8, x: int, y: int, n: int, res: Result<(), Chip8Error>) -> bool {
    match alu(pre.v@[x], pre.v@[y], n) {
        Some((val, None)) => res is Ok && writes_reg(pre, post, x, val),
        Some((val, Some(flag))) => res is Ok && writes_reg_flag(pre, post, x, val, flag),
        None => res == Err::<(), Chip8Error>(
            Chip8Error::InvalidInstruction { op: 8, x: x as u16, y: y as u16, n: n as u16 },
        ) && post == pre,
    }
}

} // verus!

verus! {

/// What instruction `(op, x, y, n, nn, nnn)` does to `pre`, given the byte
/// `rnd` that Cxnn draws from a random source: the state it leaves in
/// `post` and the outcome `res`.
pub open spec fn executes(
    pre: Chip8,
    post: Chip8,
    op: u16,
    x: u16,
    y: u16,
    n: u16,
    nn: u16,
    nnn: u16,
    rnd: u8,
    res: Result<(), Chip8Error>,
) -> bool {
    let xi = x as int;
    let yi = y as int;
    if op == 0 && x == 0 && y == 0xE && n == 0 {
        res is Ok && clears(pre, post)
    } else if op == 1 {
        res is Ok && post == Chip8 { pc: nnn, ..pre }
    } else if op == 2 {
        calls(pre, post, nnn, res)
    } else if op == 0 && x == 0 && y == 0xE && n == 0xE {
        res is Ok && returns_from_call(pre, post)
    } else if op == 3 {
        res is Ok && skips_if(pre, post, pre.v@[xi] == nn)
    } else if op == 4 {
        res is Ok && skips_if(pre, post, pre.v@[xi] != nn)
    } else if op == 5 && n == 0 {
        res is Ok && skips_if(pre, post, pre.v@[xi] == pre.v@[yi])
    } else if op == 9 && n == 0 {
        res is Ok && skips_if(pre, post, pre.v@[xi] != pre.v@[yi])
    } else if op == 6 {
        res is Ok && writes_reg(pre, post, xi, nn as u8)
    } else if op == 7 {
        res is Ok && writes_reg(pre, post, xi, ((pre.v@[xi] + nn) % 256) as u8)
    } else if op == 8 {
        computes(pre, post, xi, yi, n as int, res)
    } else if op == 0xA {
        res is Ok && post == Chip8 { i: nnn, ..pre }
    } else if op == 0xB {
        res is Ok && post == Chip8 { pc: ((pre.v@[0] + nnn) % 4096) as u16, ..pre }
    } else if op == 0xC {
        res is Ok && writes_reg(pre, post, xi, rnd & (nn as u8))
    } else if op == 0xD {
        res is Ok && draws(pre, post, xi, yi, n as int)
    } else if op == 0xF && y == 0 && n == 7 {
        res is Ok && writes_reg(pre, post, xi, pre.delay_timer)
    } else if op == 0xF && y == 1 && n == 5 {
        res is Ok && post == Chip8 { delay_timer: pre.v@[xi], ..pre }
    } else if op == 0xF && y == 1 && n == 8 {
        res is Ok && post == Chip8 { sound_timer: pre.v@[xi], ..pre }
    } else if op == 0xF && y == 1 && n == 0xE {
        res is Ok && post == Chip8 { i: ((pre.i + pre.v@[xi]) % 65536) as u16, ..pre }
    } else if op == 0xF && y == 3 && n == 3 {
        res is Ok && stores_bcd(pre, post, xi)
    } else if op == 0xF && y == 5 && n == 5 {
        &&& res is Ok
        &&& post.memory@ == stored_regs(pre.memory@, pre.v@, pre.i, xi)
        &&& post == Chip8 { memory: post.memory, ..pre }
    } else if op == 0xF && y == 6 && n == 5 {
        &&& res is Ok
        &&& post.v@ == loaded_regs(pre.memory@, pre.v@, pre.i, xi)
        &&& post == Chip8 { v: post.v, ..pre }
    } else if op == 0xE || (op == 0xF && y == 0 && n == 0xA) || (op == 0xF && y == 2 && n == 9) {
        res == Err::<(), Chip8Error>(Chip8Error::Unsupported { op, x, y, n }) && post == pre
    } else {
        res == Err::<(), Chip8Error>(Chip8Error::InvalidInstruction { op, x, y, n }) && post == pre
    }
}

/// One step: the word at the program counter is fetched, the program
/// counter moves past it, and the word is executed.
pub open spec fn steps(pre: Chip8, post: Chip8, rnd: u8, res: Result<(), Chip8Error>) -> bool {
    let (op, x, y, n, nn, nnn) = fields(fetch_word(pre));
    executes(advanced(pre), post, op, x, y, n, nn, nnn, rnd, res)
}

/// Memory after `program` is copied in from `offset` on; bytes that would
/// land past the end of the address space are dropped.
pub open spec fn loaded_program(mem: Seq<u8>, program: Seq<u8>, offset: int) -> Seq<u8> {
    Seq::new(4096, |a: int| if offset <= a < offset + program.len() { program[a - offset] } else { mem[a] })
}

/// A timer one tick later: one less, but never below zero.
pub open spec fn ticked(t: u8) -> u8 {
    if t > 0 { (t - 1) as u8 } else { 0 }
}

} // verus!
