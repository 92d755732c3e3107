//! Properties that relate instructions to each other and to the state they
//! leave, proved from the spec of each instruction.
use vstd::prelude::*;
use crate::model::{executes, fetch_word, fields, next_pc, steps, word_at};
use crate::Chip8;
use crate::Chip8Error;

verus! {

/// 8xy4 stores the sum of Vx and Vy modulo 256 in Vx and sets VF to 1
/// exactly when the unwrapped sum exceeds 255. (With x = F the flag
/// overwrites the sum, so VF is left out.)
pub proof fn lemma_add_carry(
    pre: Chip8,
    post: Chip8,
    x: u16,
    y: u16,
    nn: u16,
    nnn: u16,
    rnd: u8,
    res: Result<(), Chip8Error>,
)
    requires
        x < 15,
        y < 16,
        executes(pre, post, 8, x, y, 4, nn, nnn, rnd, res),
    ensures
        res is Ok,
        post.v@[x as int] == (pre.v@[x as int] + pre.v@[y as int]) % 256,
        post.v@[15] == (if pre.v@[x as int] + pre.v@[y as int] > 255 { 1u8 } else { 0u8 }),
{
}

/// 8xy5 stores Vx - Vy modulo 256 in Vx and sets VF to 1 exactly when
/// Vx >= Vy. (With x = F the flag overwrites the difference, so VF is left
/// out.)
pub proof fn lemma_sub_borrow(
    pre: Chip8,
    post: Chip8,
    x: u16,
    y: u16,
    nn: u16,
    nnn: u16,
    rnd: u8,
    res: Result<(), Chip8Error>,
)
    requires
        x < 15,
        y < 16,
        executes(pre, post, 8, x, y, 5, nn, nnn, rnd, res),
    ensures
        res is Ok,
        post.v@[x as int] == (pre.v@[x as int] - pre.v@[y as int]) % 256,
        post.v@[15] == (if pre.v@[x as int] >= pre.v@[y as int] { 1u8 } else { 0u8 }),
{
}

/// After 00E0 every pixel of the framebuffer reads as off.
pub proof fn lemma_clear_then_read(
    pre: Chip8,
    post: Chip8,
    nn: u16,
    nnn: u16,
    rnd: u8,
    res: Result<(), Chip8Error>,
    p: int,
)
    requires
        executes(pre, post, 0, 0, 0xE, 0, nn, nnn, rnd, res),
        0 <= p < 2048,
    ensures
        res is Ok,
        !post.display@[p],
{
}

/// Drawing the same sprite at the same place twice in a row gives back the
/// framebuffer as it was, as long as neither coordinate register is VF
/// (the first draw's collision flag would move the second sprite).
pub proof fn lemma_draw_twice_restores(
    s0: Chip8,
    s1: Chip8,
    s2: Chip8,
    x: u16,
    y: u16,
    n: u16,
    nn: u16,
    nnn: u16,
    r1: u8,
    r2: u8,
    res1: Result<(), Chip8Error>,
    res2: Result<(), Chip8Error>,
)
    requires
        x < 15,
        y < 15,
        n < 16,
        executes(s0, s1, 0xD, x, y, n, nn, nnn, r1, res1),
        executes(s1, s2, 0xD, x, y, n, nn, nnn, r2, res2),
    ensures
        s2.display@ == s0.display@,
{
    assert(s1.v@[x as int] == s0.v@[x as int]);
    assert(s1.v@[y as int] == s0.v@[y as int]);
    assert(s2.display@ =~= s0.display@);
}

/// A call followed by the return at its target leaves the program counter
/// at the instruction after the call and the stack as it was.
pub proof fn lemma_call_then_return(
    s0: Chip8,
    s1: Chip8,
    s2: Chip8,
    r1: u8,
    r2: u8,
    res1: Result<(), Chip8Error>,
    res2: Result<(), Chip8Error>,
)
    requires
        s0.stack@.len() < 16,
        fields(fetch_word(s0)).0 == 2,
        steps(s0, s1, r1, res1),
        fetch_word(s1) == 0x00EE,
        steps(s1, s2, r2, res2),
    ensures
        res1 is Ok,
        res2 is Ok,
        s2.pc == next_pc(s0.pc),
        s2.stack@ == s0.stack@,
{
    assert(fields(0x00EE) == (0u16, 0u16, 0xEu16, 0xEu16, 0xEEu16, 0xEEu16));
    assert(s2.stack@ =~= s0.stack@);
}

/// 1nnn sets the program counter to nnn, so the next fetch reads the word
/// at nnn.
pub proof fn lemma_jump_then_fetch(
    pre: Chip8,
    post: Chip8,
    x: u16,
    y: u16,
    n: u16,
    nn: u16,
    nnn: u16,
    rnd: u8,
    res: Result<(), Chip8Error>,
)
    requires
        executes(pre, post, 1, x, y, n, nn, nnn, rnd, res),
    ensures
        res is Ok,
        post.pc == nnn,
        fetch_word(post) == word_at(pre.memory@, nnn as int),
{
}

} // verus!
