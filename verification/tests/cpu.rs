use chip_8::cpu::Cpu;
use chip_8::display::Pixel;
use chip_8::state::{ExecError, LoadError, DEFAULT_FONTS, MAX_PROGRAM_SIZE, START_ADDRESS};

#[test]
fn default_initialized() -> Result<(), LoadError> {
    let data = [0; 0x200];
    let cpu = Cpu::new(&data)?;
    assert_eq!(&cpu.memory()[0x200..0x400], &[0; 0x200]);
    assert_eq!(cpu.registers(), &[0; 16]);
    assert_eq!(cpu.stack(), &[0; 24]);

    assert_eq!(cpu.sound_timer(), 0);
    assert_eq!(cpu.delay_timer(), 0);
    assert_eq!(cpu.address_register(), 0);
    assert_eq!(cpu.stack_pointer(), 0);
    assert_eq!(cpu.program_counter(), START_ADDRESS);

    Ok(())
}

#[test]
fn clear_display() -> Result<(), LoadError> {
    let data = [0x00, 0xE0];
    let mut cpu = Cpu::new(&data)?;

    cpu.set_pixel(1, 1, Pixel::On);

    assert_eq!(Pixel::On, cpu.get_display().get_pixel(1, 1));

    cpu.next().unwrap();
    assert_eq!(Pixel::Off, cpu.get_display().get_pixel(1, 1));

    Ok(())
}

#[test]
fn test_jump() -> Result<(), LoadError> {
    let instructions = [0x1F, 0xFF];
    let mut cpu = Cpu::new(&instructions)?;
    cpu.next().unwrap();
    assert_eq!(cpu.program_counter(), 0x0FFF, "El pc se actualizó");
    Ok(())
}

#[test]
fn call_ret() -> Result<(), LoadError> {
    let data = [0x2A, 0xBC];
    let mut cpu = Cpu::new(&data)?;

    cpu.write_memory(0x0ABC, 0x00);
    cpu.write_memory(0x0ABD, 0xEE);

    // call 0x0ABC
    cpu.next().unwrap();
    // return
    cpu.next().unwrap();

    assert_eq!(
        cpu.program_counter(),
        START_ADDRESS + 0x02,
        "the program counter is updated to the new address"
    );
    assert_eq!(cpu.stack_pointer(), 0, "the stack pointer is decremented");
    Ok(())
}

#[test]
fn sne_vx_byte() -> Result<(), LoadError> {
    let data = [0x45, 0x90, 0x45, 0x91];
    let mut cpu = Cpu::new(&data)?;
    cpu.set_register(5, 0x90);

    cpu.next().unwrap();

    // 0x90 == 0x90
    assert_eq!(cpu.program_counter(), START_ADDRESS + 2, "not skips");

    cpu.next().unwrap();

    // 0x90 != 0x91
    assert_eq!(cpu.program_counter(), START_ADDRESS + 6, "skips");

    Ok(())
}

#[test]
fn se_vx_byte() -> Result<(), LoadError> {
    let data = [0x35, 0x90, 0x00, 0x00, 0x35, 0x91];
    let mut cpu = Cpu::new(&data)?;
    cpu.set_register(5, 0x90);

    cpu.next().unwrap();

    // 0x90 == 0x90
    assert_eq!(cpu.program_counter(), START_ADDRESS + 4, "skips");

    cpu.next().unwrap();

    // 0x90 != 0x91
    assert_eq!(cpu.program_counter(), START_ADDRESS + 6, "not skips");

    Ok(())
}

#[test]
fn se_vx_vy() -> Result<(), LoadError> {
    let data = [0x55, 0x00, 0x55, 0x10];
    let mut cpu = Cpu::new(&data)?;
    cpu.set_register(5, 0x90);
    cpu.set_register(0, 0x91);
    cpu.set_register(1, 0x90);

    cpu.next().unwrap();

    // 0x90 != 0x91
    assert_eq!(cpu.program_counter(), START_ADDRESS + 2, "not skips");

    cpu.next().unwrap();

    // 0x90 == 0x90
    assert_eq!(cpu.program_counter(), START_ADDRESS + 6, "skips");

    Ok(())
}

#[test]
fn ld_vx_byte() -> Result<(), LoadError> {
    let data = [0x60, 0xAA, 0x80, 0x10];
    let mut cpu = Cpu::new(&data)?;
    cpu.next().unwrap();
    assert_eq!(cpu.registers()[0], 0xAA);
    cpu.next().unwrap();
    assert_eq!(cpu.registers()[0], 0x00);

    Ok(())
}

#[test]
fn add_vx_byte() -> Result<(), LoadError> {
    let data = [0x75, 0x01];
    let mut cpu = Cpu::new(&data)?;
    cpu.set_register(5, 3);

    cpu.next().unwrap();

    assert_eq!(cpu.registers()[5], 4, "Se incrementó en 1");

    Ok(())
}

#[test]
fn opcode_axxx() {
    let data = [0xAF, 0xAF];
    let mut cpu = Cpu::new(&data).unwrap();
    cpu.next().unwrap();

    assert_eq!(cpu.address_register(), 0x0FAF, "the 'i' register is updated");
    assert_eq!(
        cpu.program_counter(),
        0x202,
        "the program counter is advanced two bytes"
    );
}

#[test]
fn opcode_ld_i_addr() {
    let data = [0x61, 0xAA, 0x62, 0x1A, 0x6A, 0x15];

    let mut cpu = Cpu::new(&data).unwrap();

    cpu.next().unwrap();
    assert_eq!(cpu.registers()[1], 0xAA, "V1 is set");
    assert_eq!(
        cpu.program_counter(),
        0x202,
        "the program counter is advanced two bytes"
    );

    cpu.next().unwrap();
    assert_eq!(cpu.registers()[2], 0x1A, "V2 is set");
    assert_eq!(
        cpu.program_counter(),
        0x204,
        "the program counter is advanced two bytes"
    );

    cpu.next().unwrap();
    assert_eq!(cpu.registers()[10], 0x15, "V10 is set");
    assert_eq!(
        cpu.program_counter(),
        0x206,
        "the program counter is advanced two bytes"
    );
}

fn machine(program: &[u8]) -> Box<Cpu> {
    Cpu::new(program).unwrap()
}

#[test]
fn new_places_font_and_program() {
    let cpu = machine(&[0x12, 0x34, 0x56]);
    assert_eq!(&cpu.memory()[0..80], &DEFAULT_FONTS[..]);
    assert_eq!(&cpu.memory()[80..0x200], &[0u8; 0x200 - 80][..]);
    assert_eq!(&cpu.memory()[0x200..0x203], &[0x12, 0x34, 0x56]);
    assert_eq!(&cpu.memory()[0x203..], &[0u8; 4096 - 0x203][..]);
    assert_eq!(cpu.program_counter(), 0x200);
    for key in 0..16 {
        assert_eq!(cpu.get_display().get_pixel(key, 0), Pixel::Off);
    }
}

#[test]
fn new_accepts_largest_program() {
    let program = vec![0xAB; MAX_PROGRAM_SIZE];
    let cpu = Cpu::new(&program).unwrap();
    assert_eq!(cpu.memory()[0x200], 0xAB);
    assert_eq!(cpu.memory()[4095], 0xAB);
    assert_eq!(cpu.memory()[0x1FF], 0);
}

#[test]
fn new_refuses_program_that_is_too_large() {
    let program = vec![0; MAX_PROGRAM_SIZE + 1];
    assert_eq!(Cpu::new(&program).err(), Some(LoadError::ProgramTooLarge));
}

#[test]
fn fetch_is_big_endian() {
    let cpu = machine(&[0x12, 0x34]);
    assert_eq!(cpu.get_next_instruction(), Some(0x1234));
}

#[test]
fn fetch_outside_memory_is_refused() {
    let mut cpu = machine(&[0x1F, 0xFF]);
    cpu.next().unwrap();
    assert_eq!(cpu.get_next_instruction(), None);
    assert_eq!(cpu.next(), Err(ExecError::ProgramCounterOutOfBounds));
    assert_eq!(cpu.program_counter(), 0x0FFF);
    assert_eq!(
        cpu.execute_opcode(0x6012, 0),
        Err(ExecError::ProgramCounterOutOfBounds)
    );
    assert_eq!(cpu.registers()[0], 0);
}

#[test]
fn return_with_empty_stack_underflows() {
    let mut cpu = machine(&[0x00, 0xEE]);
    assert_eq!(cpu.next(), Err(ExecError::StackUnderflow));
    assert_eq!(cpu.program_counter(), 0x200);
    assert_eq!(cpu.stack_pointer(), 0);
}

#[test]
fn seventeenth_nested_call_overflows() {
    let mut cpu = machine(&[0x22, 0x00]);
    for depth in 1..=16 {
        assert_eq!(cpu.next(), Ok(()));
        assert_eq!(cpu.stack_pointer(), depth);
        assert_eq!(cpu.program_counter(), 0x200);
    }
    assert_eq!(&cpu.stack()[..16], &[0x202u16; 16]);
    assert_eq!(&cpu.stack()[16..], &[0u16; 8]);
    assert_eq!(cpu.next(), Err(ExecError::StackOverflow));
    assert_eq!(cpu.stack_pointer(), 16);
    assert_eq!(cpu.program_counter(), 0x200);
}

#[test]
fn nested_calls_return_in_reverse_order() {
    let mut cpu = machine(&[0x23, 0x00]);
    cpu.write_memory(0x300, 0x24);
    cpu.write_memory(0x301, 0x00);
    cpu.write_memory(0x400, 0x00);
    cpu.write_memory(0x401, 0xEE);
    cpu.write_memory(0x302, 0x00);
    cpu.write_memory(0x303, 0xEE);
    cpu.next().unwrap();
    cpu.next().unwrap();
    assert_eq!(cpu.stack_pointer(), 2);
    assert_eq!(&cpu.stack()[..2], &[0x202, 0x302]);
    cpu.next().unwrap();
    assert_eq!(cpu.program_counter(), 0x302);
    assert_eq!(&cpu.stack()[..2], &[0x202, 0]);
    cpu.next().unwrap();
    assert_eq!(cpu.program_counter(), 0x202);
    assert_eq!(cpu.stack_pointer(), 0);
    assert_eq!(cpu.stack(), &[0; 24]);
}

#[test]
fn unknown_opcodes_only_advance() {
    for opcode in [0x0000u16, 0x0123, 0x5121, 0x8128, 0x812F, 0x9121, 0xE100, 0xF1FF] {
        let mut cpu = machine(&[]);
        cpu.set_register(1, 7);
        cpu.set_register(2, 9);
        assert_eq!(cpu.execute_opcode(opcode, 0x5A), Ok(()));
        assert_eq!(cpu.program_counter(), 0x202);
        let mut expected = [0u8; 16];
        expected[1] = 7;
        expected[2] = 9;
        assert_eq!(cpu.registers(), &expected);
        assert_eq!(cpu.address_register(), 0);
        assert_eq!(cpu.stack_pointer(), 0);
    }
}

#[test]
fn skip_if_registers_differ() {
    let mut cpu = machine(&[]);
    cpu.set_register(1, 4);
    cpu.set_register(2, 4);
    cpu.execute_opcode(0x9120, 0).unwrap();
    assert_eq!(cpu.program_counter(), 0x202);
    cpu.set_register(2, 5);
    cpu.execute_opcode(0x9120, 0).unwrap();
    assert_eq!(cpu.program_counter(), 0x206);
}

#[test]
fn add_immediate_wraps_and_keeps_flag() {
    let mut cpu = machine(&[]);
    cpu.set_register(3, 0xFF);
    cpu.set_register(15, 0x77);
    cpu.execute_opcode(0x7302, 0).unwrap();
    assert_eq!(cpu.registers()[3], 0x01);
    assert_eq!(cpu.registers()[15], 0x77);
}

fn alu(vx: u8, vy: u8, n: u16) -> (u8, u8) {
    let mut cpu = machine(&[]);
    cpu.set_register(1, vx);
    cpu.set_register(2, vy);
    cpu.set_register(15, 0x55);
    cpu.execute_opcode(0x8120 | n, 0).unwrap();
    assert_eq!(cpu.registers()[2], vy);
    assert_eq!(cpu.program_counter(), 0x202);
    (cpu.registers()[1], cpu.registers()[15])
}

#[test]
fn logic_instructions_leave_flag_alone() {
    assert_eq!(alu(0x0F, 0x3C, 0x0), (0x3C, 0x55));
    assert_eq!(alu(0x0F, 0x3C, 0x1), (0x3F, 0x55));
    assert_eq!(alu(0x0F, 0x3C, 0x2), (0x0C, 0x55));
    assert_eq!(alu(0x0F, 0x3C, 0x3), (0x33, 0x55));
}

#[test]
fn add_sets_flag_on_carry() {
    assert_eq!(alu(200, 100, 0x4), (44, 1));
    assert_eq!(alu(200, 55, 0x4), (255, 0));
    assert_eq!(alu(255, 1, 0x4), (0, 1));
    assert_eq!(alu(0, 0, 0x4), (0, 0));
}

#[test]
fn subtract_sets_flag_when_nothing_is_borrowed() {
    assert_eq!(alu(5, 3, 0x5), (2, 1));
    assert_eq!(alu(3, 5, 0x5), (254, 0));
    assert_eq!(alu(7, 7, 0x5), (0, 1));
}

#[test]
fn reverse_subtract_sets_flag_when_nothing_is_borrowed() {
    assert_eq!(alu(3, 5, 0x7), (2, 1));
    assert_eq!(alu(5, 3, 0x7), (254, 0));
    assert_eq!(alu(7, 7, 0x7), (0, 1));
}

#[test]
fn shifts_take_their_operand_from_vy() {
    assert_eq!(alu(0xFF, 0x05, 0x6), (0x02, 1));
    assert_eq!(alu(0xFF, 0x04, 0x6), (0x02, 0));
    assert_eq!(alu(0xFF, 0x81, 0xE), (0x02, 1));
    assert_eq!(alu(0xFF, 0x41, 0xE), (0x82, 0));
}

#[test]
fn flag_survives_when_vf_is_the_destination() {
    let mut cpu = machine(&[]);
    cpu.set_register(15, 200);
    cpu.set_register(2, 100);
    cpu.execute_opcode(0x8F24, 0).unwrap();
    assert_eq!(cpu.registers()[15], 1);

    cpu.set_register(15, 5);
    cpu.set_register(2, 3);
    cpu.execute_opcode(0x8F25, 0).unwrap();
    assert_eq!(cpu.registers()[15], 1);

    cpu.set_register(15, 3);
    cpu.set_register(2, 5);
    cpu.execute_opcode(0x8F25, 0).unwrap();
    assert_eq!(cpu.registers()[15], 0);
}

#[test]
fn shift_reads_vf_before_writing_it() {
    let mut cpu = machine(&[]);
    cpu.set_register(15, 0x06);
    cpu.execute_opcode(0x81F6, 0).unwrap();
    assert_eq!(cpu.registers()[1], 0x03);
    assert_eq!(cpu.registers()[15], 0);
}

#[test]
fn jump_with_offset_adds_v0() {
    let mut cpu = machine(&[]);
    cpu.set_register(0, 0x12);
    cpu.execute_opcode(0xB300, 0).unwrap();
    assert_eq!(cpu.program_counter(), 0x312);
    let mut cpu = machine(&[]);
    cpu.set_register(0, 0xFF);
    cpu.execute_opcode(0xBFFF, 0).unwrap();
    assert_eq!(cpu.program_counter(), 0x10FE);
}

#[test]
fn random_is_masked_by_immediate() {
    let mut cpu = machine(&[0xC1, 0x0F]);
    cpu.next_with(0xAB).unwrap();
    assert_eq!(cpu.registers()[1], 0x0B);
    assert_eq!(cpu.program_counter(), 0x202);

    let mut cpu = machine(&[]);
    cpu.execute_opcode(0xC2F0, 0xAB).unwrap();
    assert_eq!(cpu.registers()[2], 0xA0);
}

#[test]
fn next_draws_a_random_byte_for_cxnn() {
    let mut seen = [false; 256];
    for _ in 0..200 {
        let mut cpu = machine(&[0xC1, 0x3C, 0xC2, 0x00, 0xC3, 0xFF]);
        cpu.next().unwrap();
        cpu.next().unwrap();
        cpu.next().unwrap();
        assert_eq!(cpu.registers()[1] & !0x3C, 0);
        assert_eq!(cpu.registers()[2], 0);
        seen[cpu.registers()[3] as usize] = true;
        assert_eq!(cpu.program_counter(), 0x206);
    }
    assert!(seen.iter().filter(|s| **s).count() > 1);
}

#[test]
fn next_is_deterministic_without_cxnn() {
    let program = [0x61, 0x05, 0x71, 0x03, 0x81, 0x14];
    let mut a = machine(&program);
    let mut b = machine(&program);
    for _ in 0..3 {
        a.next().unwrap();
        b.next_with(0xFF).unwrap();
        assert_eq!(a.registers(), b.registers());
        assert_eq!(a.program_counter(), b.program_counter());
    }
    assert_eq!(a.registers()[1], 16);
}

#[test]
fn draw_glyph_and_redraw_restores_screen() {
    // I = glyph of 2, then draw five rows at (V1, V2)
    let mut cpu = machine(&[0x60, 0x02, 0xF0, 0x29, 0xD1, 0x25, 0xD1, 0x25]);
    cpu.set_register(1, 4);
    cpu.set_register(2, 3);
    cpu.set_register(15, 9);
    cpu.next().unwrap();
    cpu.next().unwrap();
    assert_eq!(cpu.address_register(), 10);
    cpu.next().unwrap();
    assert_eq!(cpu.registers()[15], 0);
    let glyph = [0xF0u8, 0x10, 0xF0, 0x80, 0xF0];
    for row in 0..32 {
        for column in 0..64 {
            let on = row >= 3
                && row < 8
                && column >= 4
                && column < 12
                && (glyph[row - 3] >> (7 - (column - 4))) & 1 == 1;
            assert_eq!(cpu.get_display().is_pixel_set(column, row), on);
        }
    }
    cpu.next().unwrap();
    assert_eq!(cpu.registers()[15], 1);
    assert_eq!(cpu.get_display().get_video_mem(), &[0u8; 2048]);
    assert_eq!(cpu.program_counter(), 0x208);
}

#[test]
fn draw_with_no_rows_changes_nothing_but_flag() {
    let mut cpu = machine(&[]);
    cpu.set_pixel(0, 0, Pixel::On);
    cpu.set_register(15, 3);
    cpu.execute_opcode(0xD010, 0).unwrap();
    assert_eq!(cpu.registers()[15], 0);
    assert!(cpu.get_display().is_pixel_set(0, 0));
}

#[test]
fn draw_beyond_memory_is_refused() {
    let mut cpu = machine(&[0xAF, 0xFF, 0xD0, 0x02, 0xD0, 0x01]);
    cpu.next().unwrap();
    assert_eq!(cpu.next(), Err(ExecError::AddressOutOfBounds));
    assert_eq!(cpu.program_counter(), 0x202);
    assert_eq!(cpu.get_display().get_video_mem(), &[0u8; 2048]);
    cpu.execute_opcode(0x1204, 0).unwrap();
    assert_eq!(cpu.next(), Ok(()));
}

#[test]
fn key_skips() {
    let mut cpu = machine(&[]);
    cpu.set_register(4, 0xB);
    cpu.execute_opcode(0xE49E, 0).unwrap();
    assert_eq!(cpu.program_counter(), 0x202);
    cpu.execute_opcode(0xE4A1, 0).unwrap();
    assert_eq!(cpu.program_counter(), 0x206);
    cpu.set_key(0xB, true);
    cpu.execute_opcode(0xE49E, 0).unwrap();
    assert_eq!(cpu.program_counter(), 0x20A);
    cpu.execute_opcode(0xE4A1, 0).unwrap();
    assert_eq!(cpu.program_counter(), 0x20C);
    cpu.set_key(0xB, false);
    cpu.execute_opcode(0xE49E, 0).unwrap();
    assert_eq!(cpu.program_counter(), 0x20E);
}

#[test]
fn key_skip_with_unknown_key_is_refused() {
    let mut cpu = machine(&[]);
    cpu.set_register(4, 0x10);
    assert_eq!(cpu.execute_opcode(0xE49E, 0), Err(ExecError::KeyOutOfRange));
    assert_eq!(cpu.execute_opcode(0xE4A1, 0), Err(ExecError::KeyOutOfRange));
    assert_eq!(cpu.program_counter(), 0x200);
    assert_eq!(cpu.execute_opcode(0xE400, 0), Ok(()));
}

#[test]
fn wait_for_key_blocks_until_a_key_is_down() {
    let mut cpu = machine(&[0xF3, 0x0A, 0x63, 0x01]);
    for _ in 0..5 {
        cpu.next().unwrap();
        assert_eq!(cpu.program_counter(), 0x200);
        assert_eq!(cpu.registers()[3], 0);
    }
    cpu.set_key(0xC, true);
    cpu.set_key(0x7, true);
    cpu.next().unwrap();
    assert_eq!(cpu.program_counter(), 0x202);
    assert_eq!(cpu.registers()[3], 0x7);
}

#[test]
fn timers_are_read_written_and_floored() {
    let mut cpu = machine(&[]);
    cpu.set_register(1, 2);
    cpu.set_register(2, 1);
    cpu.execute_opcode(0xF115, 0).unwrap();
    cpu.execute_opcode(0xF218, 0).unwrap();
    assert_eq!(cpu.delay_timer(), 2);
    assert_eq!(cpu.sound_timer(), 1);
    assert!(cpu.should_play_sound());
    cpu.execute_opcode(0xF507, 0).unwrap();
    assert_eq!(cpu.registers()[5], 2);
    cpu.decrease_timers();
    assert_eq!(cpu.delay_timer(), 1);
    assert_eq!(cpu.sound_timer(), 0);
    assert!(!cpu.should_play_sound());
    cpu.decrease_timers();
    cpu.decrease_timers();
    assert_eq!(cpu.delay_timer(), 0);
    assert_eq!(cpu.sound_timer(), 0);
    assert_eq!(cpu.program_counter(), 0x206);
}

#[test]
fn add_to_address_register_wraps() {
    let mut cpu = machine(&[]);
    cpu.set_register(1, 0xFF);
    cpu.execute_opcode(0xA123, 0).unwrap();
    cpu.execute_opcode(0xF11E, 0).unwrap();
    assert_eq!(cpu.address_register(), 0x222);
    // 0x222 + 256 * 0xFF = 0x10122, which wraps to 0x0122
    for _ in 0..256 {
        cpu.execute_opcode(0xF11E, 0).unwrap();
    }
    assert_eq!(cpu.address_register(), 0x0122);
}

#[test]
fn font_address_is_five_times_the_digit() {
    let mut cpu = machine(&[]);
    cpu.set_register(6, 0xA);
    cpu.execute_opcode(0xF629, 0).unwrap();
    assert_eq!(cpu.address_register(), 50);
    cpu.set_register(6, 0xFF);
    cpu.execute_opcode(0xF629, 0).unwrap();
    assert_eq!(cpu.address_register(), 1275);
}

#[test]
fn binary_coded_decimal() {
    let mut cpu = machine(&[]);
    cpu.set_register(7, 254);
    cpu.execute_opcode(0xA300, 0).unwrap();
    cpu.execute_opcode(0xF733, 0).unwrap();
    assert_eq!(&cpu.memory()[0x300..0x303], &[2, 5, 4]);
    cpu.set_register(7, 7);
    cpu.execute_opcode(0xF733, 0).unwrap();
    assert_eq!(&cpu.memory()[0x300..0x303], &[0, 0, 7]);
    assert_eq!(cpu.address_register(), 0x300);
}

#[test]
fn binary_coded_decimal_beyond_memory_is_refused() {
    let mut cpu = machine(&[]);
    cpu.set_register(7, 123);
    cpu.execute_opcode(0xAFFE, 0).unwrap();
    assert_eq!(cpu.execute_opcode(0xF733, 0), Err(ExecError::AddressOutOfBounds));
    assert_eq!(&cpu.memory()[0xFFE..], &[0, 0]);
    cpu.execute_opcode(0xAFFD, 0).unwrap();
    assert_eq!(cpu.execute_opcode(0xF733, 0), Ok(()));
    assert_eq!(&cpu.memory()[0xFFD..], &[1, 2, 3]);
}

#[test]
fn store_and_load_round_trip() {
    let mut cpu = machine(&[]);
    for r in 0..16 {
        cpu.set_register(r, 0x10 + r as u8);
    }
    cpu.execute_opcode(0xA400, 0).unwrap();
    cpu.execute_opcode(0xF555, 0).unwrap();
    assert_eq!(cpu.address_register(), 0x406);
    assert_eq!(
        &cpu.memory()[0x400..0x407],
        &[0x10, 0x11, 0x12, 0x13, 0x14, 0x15, 0x00]
    );
    for r in 0..16 {
        cpu.set_register(r, 0xEE);
    }
    cpu.execute_opcode(0xA400, 0).unwrap();
    cpu.execute_opcode(0xF565, 0).unwrap();
    assert_eq!(cpu.address_register(), 0x406);
    assert_eq!(&cpu.registers()[..6], &[0x10, 0x11, 0x12, 0x13, 0x14, 0x15]);
    assert_eq!(&cpu.registers()[6..], &[0xEE; 10]);
}

#[test]
fn store_and_load_beyond_memory_are_refused() {
    let mut cpu = machine(&[]);
    cpu.set_register(0, 1);
    cpu.set_register(1, 2);
    cpu.execute_opcode(0xAFFF, 0).unwrap();
    assert_eq!(cpu.execute_opcode(0xF155, 0), Err(ExecError::AddressOutOfBounds));
    assert_eq!(cpu.execute_opcode(0xF165, 0), Err(ExecError::AddressOutOfBounds));
    assert_eq!(cpu.memory()[0xFFF], 0);
    assert_eq!(cpu.address_register(), 0xFFF);
    assert_eq!(cpu.execute_opcode(0xF055, 0), Ok(()));
    assert_eq!(cpu.memory()[0xFFF], 1);
    assert_eq!(cpu.address_register(), 0x1000);
}

#[test]
fn set_key_is_last_write_wins() {
    let mut cpu = machine(&[0xE0, 0x9E]);
    cpu.set_key(0, true);
    cpu.set_key(0, false);
    cpu.set_key(0, true);
    cpu.next().unwrap();
    assert_eq!(cpu.program_counter(), 0x204);
}
