use chip8_rust::chip8;
use chip8_rust::{build_processor, NEXT_PC, SKIPPED_PC, START_PC};

#[test]
#[allow(non_snake_case)]
fn test_00E0() {
    let mut c8 = chip8::CPU::init();
    c8.screen = [[1; 64]; 32];
    c8.execute(0x00E0);
    for yy in 0..32 {
        for xx in 0..64 {
            assert_eq!(c8.screen[yy][xx], 0);
        }
    }
}

#[test]
fn test_op_00ee() {
    let mut processor = chip8::CPU::init();
    processor.sp = 5;
    processor.stack[4] = 0x6666;
    processor.execute(0x00ee);
    assert_eq!(processor.sp, 4);
    assert_eq!(processor.pc, 0x6666);
}

#[test]
fn test_2nnn() {
    let mut processor = build_processor();
    processor.execute(0x2888);
    assert_eq!(processor.pc, 0x0888);
    assert_eq!(processor.sp, 1);
    assert_eq!(processor.stack[0], NEXT_PC);
}

#[test]
fn init_places_fonts_and_program_counter() {
    let c8 = chip8::CPU::init();
    assert_eq!(c8.pc, 0x200);
    assert_eq!(c8.sp, 0);
    assert_eq!(c8.key_pressed, chip8::NO_KEY);
    for d in 0..16 {
        for r in 0..5 {
            assert_eq!(c8.mem[0x50 + 5 * d + r], chip8::FONTS[d][r]);
        }
    }
    assert_eq!(c8.mem[0x4F], 0);
    assert_eq!(c8.mem[0xA0], 0);
    assert_eq!(c8.mem[0x50], 0xF0);
    assert_eq!(c8.mem[0x55], 0x20);
}

#[test]
fn build_processor_registers() {
    let p = build_processor();
    assert_eq!(p.pc, START_PC);
    assert_eq!(p.v, [0, 0, 1, 1, 2, 2, 3, 3, 4, 4, 5, 5, 6, 6, 7, 7]);
}

#[test]
fn fetch_is_big_endian() {
    let mut c8 = chip8::CPU::init();
    c8.mem[0x200] = 0x12;
    c8.mem[0x201] = 0x34;
    assert_eq!(c8.fetch(), 0x1234);
}

#[test]
fn call_then_return_resumes_after_call() {
    let mut p = build_processor();
    p.execute(0x2888);
    p.execute(0x00EE);
    assert_eq!(p.pc, NEXT_PC);
    assert_eq!(p.sp, 0);
    assert_eq!(p.stack[0], NEXT_PC);
}

#[test]
fn jump_and_jump_with_offset() {
    let mut p = build_processor();
    p.execute(0x1ABC);
    assert_eq!(p.pc, 0xABC);
    let mut q = build_processor();
    q.v[0] = 5;
    q.execute(0xB300);
    assert_eq!(q.pc, 0x305);
}

#[test]
fn conditional_skips() {
    let mut p = build_processor();
    p.execute(0x3201);
    assert_eq!(p.pc, SKIPPED_PC);
    let mut p = build_processor();
    p.execute(0x3202);
    assert_eq!(p.pc, NEXT_PC);
    let mut p = build_processor();
    p.execute(0x4202);
    assert_eq!(p.pc, SKIPPED_PC);
    let mut p = build_processor();
    p.execute(0x5230);
    assert_eq!(p.pc, SKIPPED_PC);
    let mut p = build_processor();
    p.execute(0x9240);
    assert_eq!(p.pc, SKIPPED_PC);
    let mut p = build_processor();
    p.key_pressed = 1;
    p.execute(0xE29E);
    assert_eq!(p.pc, SKIPPED_PC);
    let mut p = build_processor();
    p.key_pressed = 1;
    p.execute(0xE2A1);
    assert_eq!(p.pc, NEXT_PC);
}

#[test]
fn set_and_add_immediate() {
    let mut p = build_processor();
    p.execute(0x6AFE);
    assert_eq!(p.v[0xA], 0xFE);
    p.execute(0x7A03);
    assert_eq!(p.v[0xA], 0x01);
    assert_eq!(p.v[0xF], 7);
}

#[test]
fn logic_ops() {
    let mut p = build_processor();
    p.v[1] = 0b1100;
    p.v[2] = 0b1010;
    p.execute(0x8121);
    assert_eq!(p.v[1], 0b1110);
    p.v[1] = 0b1100;
    p.execute(0x8122);
    assert_eq!(p.v[1], 0b1000);
    p.v[1] = 0b1100;
    p.execute(0x8123);
    assert_eq!(p.v[1], 0b0110);
    p.execute(0x8120);
    assert_eq!(p.v[1], 0b1010);
}

#[test]
fn add_with_and_without_carry() {
    let mut p = build_processor();
    p.v[1] = 200;
    p.v[2] = 100;
    p.v[0xF] = 0;
    p.add_x_y(1, 2);
    assert_eq!(p.v[1], 44);
    assert_eq!(p.v[0xF], 1);
    assert_eq!(p.v[0xF] as u16 * 256 + p.v[1] as u16, 300);
    let mut q = build_processor();
    q.v[1] = 20;
    q.v[2] = 30;
    q.v[0xF] = 9;
    q.add_x_y(1, 2);
    assert_eq!(q.v[1], 50);
    assert_eq!(q.v[0xF], 9);
}

#[test]
fn subtractions_set_borrow_flag() {
    let mut p = build_processor();
    p.v[1] = 10;
    p.v[2] = 3;
    p.sub_x_with_y(1, 2);
    assert_eq!(p.v[1], 7);
    assert_eq!(p.v[0xF], 1);
    p.v[1] = 3;
    p.v[2] = 10;
    p.sub_x_with_y(1, 2);
    assert_eq!(p.v[1], 249);
    assert_eq!(p.v[0xF], 0);
    p.v[1] = 3;
    p.v[2] = 10;
    p.sub_x_with_y_x(1, 2);
    assert_eq!(p.v[1], 7);
    assert_eq!(p.v[0xF], 1);
    p.v[1] = 10;
    p.v[2] = 3;
    p.sub_x_with_y_x(1, 2);
    assert_eq!(p.v[1], 249);
    assert_eq!(p.v[0xF], 0);
}

#[test]
fn add_then_sub_restores_register() {
    let mut p = build_processor();
    p.v[4] = 250;
    p.v[5] = 17;
    p.execute(0x8454);
    p.execute(0x8455);
    assert_eq!(p.v[4], 250);
    assert_eq!(p.v[5], 17);
    assert_eq!(p.pc, SKIPPED_PC);
}

#[test]
fn shifts_keep_shifted_bit() {
    let mut p = build_processor();
    p.v[2] = 0b1000_0011;
    p.shift_right(1, 2);
    assert_eq!(p.v[1], 0b0100_0001);
    assert_eq!(p.v[0xF], 1);
    p.v[2] = 0b1000_0011;
    p.shift_left(1, 2);
    assert_eq!(p.v[1], 0b0000_0110);
    assert_eq!(p.v[0xF], 1);
    p.v[2] = 0b0100_0010;
    p.shift_right(1, 2);
    assert_eq!(p.v[1], 0b0010_0001);
    assert_eq!(p.v[0xF], 0);
    p.shift_left(1, 2);
    assert_eq!(p.v[1], 0b1000_0100);
    assert_eq!(p.v[0xF], 0);
}

#[test]
fn index_register_ops() {
    let mut p = build_processor();
    p.execute(0xA123);
    assert_eq!(p._I, 0x123);
    p.execute(0xF71E);
    assert_eq!(p._I, 0x126);
    p.v[7] = 0x1B;
    p.execute(0xF729);
    assert_eq!(p._I, 0x50 + 5 * 0xB);
    assert_eq!(p._I, 0x87);
}

#[test]
fn font_index_points_at_digit_sprite() {
    let mut c = chip8::CPU::init();
    c.v[3] = 0x0A;
    c.execute(0xF329);
    assert_eq!(c._I, 0x82);
    assert_eq!(c.pc, 0x202);
    assert_eq!(&c.mem[0x82..0x87], &chip8::FONTS[0xA][..]);
}

#[test]
fn get_key_waits_for_any_register_number() {
    let mut c = chip8::CPU::init();
    c.get_key(99);
    assert_eq!(c.pc, 0x1FE);
    assert_eq!(c.v, [0; 16]);
}

#[test]
fn timers() {
    let mut p = build_processor();
    p.execute(0xF715);
    assert_eq!(p.dt, 3);
    p.execute(0xF518);
    assert_eq!(p.st, 2);
    p.dt = 42;
    p.execute(0xF007);
    assert_eq!(p.v[0], 42);
}

#[test]
fn binary_coded_decimal() {
    let mut p = build_processor();
    p.v[3] = 156;
    p._I = 0x300;
    p.execute(0xF333);
    assert_eq!(p.mem[0x300], 1);
    assert_eq!(p.mem[0x301], 5);
    assert_eq!(p.mem[0x302], 6);
    p.v[3] = 7;
    p.dec_conv(3);
    assert_eq!(p.mem[0x300], 0);
    assert_eq!(p.mem[0x301], 0);
    assert_eq!(p.mem[0x302], 7);
}

#[test]
fn get_key_waits_then_stores() {
    let mut p = build_processor();
    p.execute(0xF40A);
    assert_eq!(p.pc, START_PC);
    assert_eq!(p.v[4], 2);
    p.key_pressed = 0xC;
    p.execute(0xF40A);
    assert_eq!(p.pc, NEXT_PC);
    assert_eq!(p.v[4], 0xC);
}

#[test]
fn random_is_masked() {
    let mut p = build_processor();
    p.random(3, 0x00);
    assert_eq!(p.v[3], 0);
    for _ in 0..32 {
        p.execute(0xC30F);
        assert!(p.v[3] < 16);
    }
    p.store_random(3, 0xF0, 0xAB);
    assert_eq!(p.v[3], 0xA0);
}

#[test]
fn draw_font_sprite() {
    let mut p = chip8::CPU::init();
    p.v[0] = 10;
    p.v[1] = 5;
    p._I = 0x50;
    p.execute(0xD015);
    let zero = [0xF0u8, 0x90, 0x90, 0x90, 0xF0];
    for r in 0..5 {
        for c in 0..8 {
            let bit = (zero[r] >> (7 - c)) & 1;
            assert_eq!(p.screen[5 + r][10 + c], bit);
        }
    }
    assert_eq!(p.screen[4][10], 0);
    assert_eq!(p.screen[10][10], 0);
    assert_eq!(p.screen[5][18], 0);
}

#[test]
fn draw_clips_at_edges() {
    let mut p = chip8::CPU::init();
    p.v[0] = 60;
    p.v[1] = 30;
    p._I = 0x50;
    p.draw(0, 1, 5);
    assert_eq!(p.screen[30][60], 1);
    assert_eq!(p.screen[30][63], 1);
    assert_eq!(p.screen[31][60], 1);
    assert_eq!(p.screen[31][61], 0);
    assert_eq!(p.screen[31][63], 1);
    p.v[0] = 70;
    p._I = 0xFFF;
    p.draw(0, 1, 15);
}

#[test]
fn load_bytes_copies_program() {
    let mut p = chip8::CPU::init();
    p.load_bytes(&[0x00, 0xE0, 0x12, 0x00]);
    assert_eq!(p.mem[0x200], 0x00);
    assert_eq!(p.mem[0x201], 0xE0);
    assert_eq!(p.mem[0x203], 0x00);
    assert_eq!(p.mem[0x202], 0x12);
    assert_eq!(p.mem[0x204], 0);
    assert_eq!(p.fetch(), 0x00E0);
}

#[test]
fn tick_fetches_and_executes() {
    let mut p = chip8::CPU::init();
    p.load_bytes(&[0x6A, 0x42, 0x12, 0x00]);
    p.tick(0);
    assert_eq!(p.v[0xA], 0x42);
    assert_eq!(p.pc, 0x202);
    p.tick(0);
    assert_eq!(p.pc, 0x200);
}

#[test]
fn stack_fills_to_sixteen_slots() {
    let mut p = build_processor();
    for k in 0..16 {
        assert_eq!(p.sp, k);
        p.execute(0x2F00);
    }
    assert_eq!(p.sp, 16);
    assert_eq!(p.stack[15], 0xF02);
    p.execute(0x00EE);
    assert_eq!(p.sp, 15);
    assert_eq!(p.pc, 0xF02);
}

#[test]
fn pixels_stay_binary() {
    let mut p = chip8::CPU::init();
    for d in 0..16u16 {
        p.v[0] = (d * 4) as u8;
        p.v[1] = (d * 2) as u8;
        p._I = 0x50 + 5 * d as usize;
        p.execute(0xD015);
    }
    for y in 0..32 {
        for x in 0..64 {
            assert!(p.screen[y][x] <= 1);
        }
    }
}
