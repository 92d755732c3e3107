use chip8_core::{new, Chip8, Chip8Error};

fn run(c: &mut Chip8, word: u16) -> Result<(), Chip8Error> {
    let (op, x, y, n, nn, nnn) = c.decode(word);
    c.execute(op, x, y, n, nn, nnn)
}

#[test]
fn new_machine_starts_at_program_start() {
    let c = new();
    assert_eq!(c.pc, 0x200);
    assert_eq!(c.i, 0);
    assert!(c.stack.is_empty());
    assert_eq!(c.delay_timer, 0);
    assert_eq!(c.sound_timer, 0);
    assert!(c.v.iter().all(|&r| r == 0));
    assert!(c.memory.iter().all(|&b| b == 0));
    assert!(c.display.iter().all(|&p| !p));
}

#[test]
fn decode_splits_fields() {
    let c = new();
    assert_eq!(c.decode(0xD123), (0xD, 1, 2, 3, 0x23, 0x123));
    assert_eq!(c.decode(0x00EE), (0, 0, 0xE, 0xE, 0xEE, 0x0EE));
    assert_eq!(c.decode(0xFFFF), (0xF, 0xF, 0xF, 0xF, 0xFF, 0xFFF));
}

#[test]
fn fetch_is_big_endian_and_advances() {
    let mut c = new();
    c.memory[0x200] = 0xAB;
    c.memory[0x201] = 0xCD;
    assert_eq!(c.fetch(), 0xABCD);
    assert_eq!(c.pc, 0x202);
}

#[test]
fn fetch_wraps_at_end_of_memory() {
    let mut c = new();
    c.pc = 0xFFF;
    c.memory[0xFFF] = 0x12;
    c.memory[0] = 0x34;
    assert_eq!(c.fetch(), 0x1234);
    assert_eq!(c.pc, 0x001);
}

#[test]
fn add_sets_carry_and_wraps() {
    let mut c = new();
    c.v[1] = 200;
    c.v[2] = 100;
    assert_eq!(run(&mut c, 0x8124), Ok(()));
    assert_eq!(c.v[1], 44);
    assert_eq!(c.v[0xF], 1);
    c.v[3] = 10;
    c.v[4] = 20;
    assert_eq!(run(&mut c, 0x8344), Ok(()));
    assert_eq!(c.v[3], 30);
    assert_eq!(c.v[0xF], 0);
    c.v[5] = 255;
    c.v[6] = 0;
    assert_eq!(run(&mut c, 0x8564), Ok(()));
    assert_eq!(c.v[5], 255);
    assert_eq!(c.v[0xF], 0);
}

#[test]
fn subtract_sets_no_borrow_flag() {
    let mut c = new();
    c.v[1] = 5;
    c.v[2] = 10;
    assert_eq!(run(&mut c, 0x8125), Ok(()));
    assert_eq!(c.v[1], 251);
    assert_eq!(c.v[0xF], 0);
    c.v[1] = 10;
    c.v[2] = 5;
    assert_eq!(run(&mut c, 0x8125), Ok(()));
    assert_eq!(c.v[1], 5);
    assert_eq!(c.v[0xF], 1);
    c.v[1] = 7;
    c.v[2] = 7;
    assert_eq!(run(&mut c, 0x8125), Ok(()));
    assert_eq!(c.v[1], 0);
    assert_eq!(c.v[0xF], 1);
}

#[test]
fn reverse_subtract_and_logic() {
    let mut c = new();
    c.v[1] = 10;
    c.v[2] = 3;
    assert_eq!(run(&mut c, 0x8127), Ok(()));
    assert_eq!(c.v[1], 249);
    assert_eq!(c.v[0xF], 0);
    c.v[1] = 0b1100;
    c.v[2] = 0b1010;
    assert_eq!(run(&mut c, 0x8121), Ok(()));
    assert_eq!(c.v[1], 0b1110);
    c.v[1] = 0b1100;
    assert_eq!(run(&mut c, 0x8122), Ok(()));
    assert_eq!(c.v[1], 0b1000);
    c.v[1] = 0b1100;
    assert_eq!(run(&mut c, 0x8123), Ok(()));
    assert_eq!(c.v[1], 0b0110);
    assert_eq!(run(&mut c, 0x8120), Ok(()));
    assert_eq!(c.v[1], 0b1010);
}

#[test]
fn shifts_use_vy_and_flag_the_bit_out() {
    let mut c = new();
    c.v[2] = 0b1000_0011;
    assert_eq!(run(&mut c, 0x8126), Ok(()));
    assert_eq!(c.v[1], 0b0100_0001);
    assert_eq!(c.v[0xF], 1);
    assert_eq!(run(&mut c, 0x812E), Ok(()));
    assert_eq!(c.v[1], 0b0000_0110);
    assert_eq!(c.v[0xF], 1);
    c.v[2] = 0b0000_0010;
    assert_eq!(run(&mut c, 0x812E), Ok(()));
    assert_eq!(c.v[1], 0b0000_0100);
    assert_eq!(c.v[0xF], 0);
}

#[test]
fn unknown_alu_operation_is_an_error() {
    let mut c = new();
    let before_v = c.v;
    assert_eq!(
        run(&mut c, 0x8128),
        Err(Chip8Error::InvalidInstruction { op: 8, x: 1, y: 2, n: 8 })
    );
    assert_eq!(c.v, before_v);
}

#[test]
fn clear_screen_turns_every_pixel_off() {
    let mut c = new();
    c.display = [true; 2048];
    assert_eq!(run(&mut c, 0x00E0), Ok(()));
    assert!(c.display.iter().all(|&p| !p));
}

#[test]
fn draw_twice_restores_the_screen() {
    let mut c = new();
    c.i = 0x300;
    c.memory[0x300] = 0b1111_0000;
    c.memory[0x301] = 0b1001_0000;
    c.v[1] = 10;
    c.v[2] = 5;
    c.display[0] = true;
    c.display[10 + 5 * 64] = true;
    let before = c.display;
    assert_eq!(run(&mut c, 0xD122), Ok(()));
    assert_eq!(c.v[0xF], 1);
    assert!(!c.display[10 + 5 * 64]);
    assert!(c.display[11 + 5 * 64]);
    assert!(c.display[10 + 6 * 64]);
    assert!(!c.display[11 + 6 * 64]);
    assert!(c.display[13 + 6 * 64]);
    assert_eq!(run(&mut c, 0xD122), Ok(()));
    assert_eq!(c.display, before);
}

#[test]
fn draw_without_overlap_clears_flag() {
    let mut c = new();
    c.i = 0x300;
    c.memory[0x300] = 0b1000_0000;
    c.v[0xF] = 1;
    assert_eq!(run(&mut c, 0xD011), Ok(()));
    assert_eq!(c.v[0xF], 0);
    assert!(c.display[0]);
}

#[test]
fn draw_wraps_origin_and_clips_edges() {
    let mut c = new();
    c.i = 0x300;
    c.memory[0x300] = 0xFF;
    c.memory[0x301] = 0xFF;
    c.v[1] = 64 + 60;
    c.v[2] = 32 + 31;
    assert_eq!(run(&mut c, 0xD122), Ok(()));
    let lit: Vec<usize> = (0..2048).filter(|&p| c.display[p]).collect();
    assert_eq!(lit, vec![60 + 31 * 64, 61 + 31 * 64, 62 + 31 * 64, 63 + 31 * 64]);
}

#[test]
fn call_then_return_restores_pc_and_stack() {
    let mut c = new();
    c.load_rom(&[0x23, 0x00]);
    c.memory[0x300] = 0x00;
    c.memory[0x301] = 0xEE;
    assert_eq!(c.advance_game_loop(), Ok(()));
    assert_eq!(c.pc, 0x300);
    assert_eq!(c.stack, vec![0x202]);
    assert_eq!(c.advance_game_loop(), Ok(()));
    assert_eq!(c.pc, 0x202);
    assert!(c.stack.is_empty());
}

#[test]
fn call_on_full_stack_overflows() {
    let mut c = new();
    c.stack = vec![0x200; 16];
    assert_eq!(run(&mut c, 0x2400), Err(Chip8Error::StackOverflow));
    assert_eq!(c.pc, 0x200);
    assert_eq!(c.stack.len(), 16);
}

#[test]
fn return_on_empty_stack_does_nothing() {
    let mut c = new();
    c.pc = 0x234;
    assert_eq!(run(&mut c, 0x00EE), Ok(()));
    assert_eq!(c.pc, 0x234);
    assert!(c.stack.is_empty());
}

#[test]
fn jump_then_fetch_reads_target() {
    let mut c = new();
    c.load_rom(&[0x13, 0x00]);
    c.memory[0x300] = 0x61;
    c.memory[0x301] = 0x42;
    assert_eq!(c.advance_game_loop(), Ok(()));
    assert_eq!(c.pc, 0x300);
    assert_eq!(c.fetch(), 0x6142);
}

#[test]
fn skips_compare_values_and_registers() {
    let mut c = new();
    c.v[1] = 7;
    c.v[2] = 7;
    assert_eq!(run(&mut c, 0x3107), Ok(()));
    assert_eq!(c.pc, 0x202);
    assert_eq!(run(&mut c, 0x3108), Ok(()));
    assert_eq!(c.pc, 0x202);
    assert_eq!(run(&mut c, 0x4108), Ok(()));
    assert_eq!(c.pc, 0x204);
    assert_eq!(run(&mut c, 0x5120), Ok(()));
    assert_eq!(c.pc, 0x206);
    assert_eq!(run(&mut c, 0x9120), Ok(()));
    assert_eq!(c.pc, 0x206);
}

#[test]
fn set_and_add_immediate() {
    let mut c = new();
    assert_eq!(run(&mut c, 0x61F0), Ok(()));
    assert_eq!(c.v[1], 0xF0);
    assert_eq!(run(&mut c, 0x7120), Ok(()));
    assert_eq!(c.v[1], 0x10);
    assert_eq!(c.v[0xF], 0);
}

#[test]
fn index_and_offset_jump() {
    let mut c = new();
    assert_eq!(run(&mut c, 0xA123), Ok(()));
    assert_eq!(c.i, 0x123);
    c.v[0] = 0x10;
    assert_eq!(run(&mut c, 0xBFF8), Ok(()));
    assert_eq!(c.pc, 0x008);
    c.v[3] = 0xFF;
    c.i = 0xFFF0;
    assert_eq!(run(&mut c, 0xF31E), Ok(()));
    assert_eq!(c.i, 0x00EF);
    assert_eq!(c.v[0xF], 0);
}

#[test]
fn random_is_masked() {
    let mut c = new();
    c.v[4] = 0xAA;
    assert_eq!(run(&mut c, 0xC400), Ok(()));
    assert_eq!(c.v[4], 0);
    assert_eq!(run(&mut c, 0xC40F), Ok(()));
    assert!(c.v[4] <= 0x0F);
    c.random_number(5, 0x3C, 0xFF);
    assert_eq!(c.v[5], 0x3C);
}

#[test]
fn timers_copy_and_tick() {
    let mut c = new();
    c.v[2] = 3;
    assert_eq!(run(&mut c, 0xF215), Ok(()));
    assert_eq!(run(&mut c, 0xF218), Ok(()));
    assert_eq!(c.delay_timer, 3);
    assert_eq!(c.sound_timer, 3);
    c.tick_timers();
    assert_eq!(run(&mut c, 0xF507), Ok(()));
    assert_eq!(c.v[5], 2);
    c.sound_timer = 0;
    c.tick_timers();
    assert_eq!(c.delay_timer, 1);
    assert_eq!(c.sound_timer, 0);
}

#[test]
fn bcd_of_234() {
    let mut c = new();
    c.v[3] = 234;
    c.i = 0x300;
    assert_eq!(run(&mut c, 0xF333), Ok(()));
    assert_eq!(&c.memory[0x300..0x303], &[2, 3, 4]);
}

#[test]
fn bcd_wraps_at_end_of_memory() {
    let mut c = new();
    c.v[0] = 109;
    c.i = 0xFFF;
    assert_eq!(run(&mut c, 0xF033), Ok(()));
    assert_eq!(c.memory[0xFFF], 1);
    assert_eq!(c.memory[0], 0);
    assert_eq!(c.memory[1], 9);
}

#[test]
fn store_and_load_registers_inclusive() {
    let mut c = new();
    for r in 0..16 {
        c.v[r] = r as u8 + 1;
    }
    c.i = 0x400;
    assert_eq!(run(&mut c, 0xF255), Ok(()));
    assert_eq!(&c.memory[0x400..0x404], &[1, 2, 3, 0]);
    assert_eq!(c.i, 0x400);
    c.memory[0x400] = 9;
    c.memory[0x401] = 8;
    assert_eq!(run(&mut c, 0xF165), Ok(()));
    assert_eq!(c.v[0], 9);
    assert_eq!(c.v[1], 8);
    assert_eq!(c.v[2], 3);
}

#[test]
fn unsupported_and_invalid_instructions() {
    let mut c = new();
    assert_eq!(
        run(&mut c, 0xE19E),
        Err(Chip8Error::Unsupported { op: 0xE, x: 1, y: 9, n: 0xE })
    );
    assert_eq!(
        run(&mut c, 0xF20A),
        Err(Chip8Error::Unsupported { op: 0xF, x: 2, y: 0, n: 0xA })
    );
    assert_eq!(
        run(&mut c, 0xF329),
        Err(Chip8Error::Unsupported { op: 0xF, x: 3, y: 2, n: 9 })
    );
    assert_eq!(
        run(&mut c, 0x5121),
        Err(Chip8Error::InvalidInstruction { op: 5, x: 1, y: 2, n: 1 })
    );
    assert_eq!(
        run(&mut c, 0x0123),
        Err(Chip8Error::InvalidInstruction { op: 0, x: 1, y: 2, n: 3 })
    );
    assert_eq!(
        run(&mut c, 0xF0FF),
        Err(Chip8Error::InvalidInstruction { op: 0xF, x: 0, y: 0xF, n: 0xF })
    );
    assert_eq!(c.pc, 0x200);
}

#[test]
fn load_and_step_clear_screen() {
    let mut c = new();
    c.display = [true; 2048];
    c.load_program(&[0x00, 0xE0], 0x200);
    assert_eq!(c.advance_game_loop(), Ok(()));
    assert!(c.display.iter().all(|&p| !p));
    assert_eq!(c.pc, 0x202);
}

#[test]
fn load_program_drops_bytes_past_the_end() {
    let mut c = new();
    c.load_program(&[1, 2, 3, 4], 0xFFE);
    assert_eq!(c.memory[0xFFE], 1);
    assert_eq!(c.memory[0xFFF], 2);
    assert_eq!(c.memory[0], 0);
    assert_eq!(c.memory[1], 0);
}
