use chip8::cpu::CpuError;
use chip8::cpu::TickResult;
use chip8::cpu::CPU;
use chip8::decode::decode;
use chip8::decode::AluOp;
use chip8::decode::Instruction;
use chip8::nibbles::nibbles_to_bytes;

fn machine_with(program: &[u8]) -> CPU {
    let mut cpu = CPU::new();
    cpu.write_bytes(0x200, &program.to_vec()).unwrap();
    cpu.go(0x200);
    cpu
}

fn run(cpu: &mut CPU, n: usize) {
    for _ in 0..n {
        assert_eq!(cpu.clock(0, 0), Ok(TickResult::Executed));
    }
}

#[test]
fn new_machine_is_zeroed() {
    let cpu = CPU::new();
    assert_eq!(cpu.get_pc(), 0);
    assert_eq!(cpu.get_sp(), 0x200);
    assert_eq!(cpu.get_i(), 0);
    assert_eq!(cpu.read_memory(), vec![0u8; 4096]);
    for x in 0..16 {
        assert_eq!(cpu.get_reg(x), 0);
    }
}

#[test]
fn write_byte_then_read_byte() {
    let mut cpu = CPU::new();
    for (a, b) in [(0u16, 1u8), (0x123, 0xab), (4095, 0xff)] {
        assert_eq!(cpu.write_byte(a, b), Ok(()));
        assert_eq!(cpu.read_byte(a), Ok(b));
    }
}

#[test]
fn byte_access_out_of_range() {
    let mut cpu = CPU::new();
    assert_eq!(cpu.write_byte(4096, 1), Err(CpuError::AddressOutOfRange { addr: 4096 }));
    assert_eq!(cpu.read_byte(0xffff), Err(CpuError::AddressOutOfRange { addr: 0xffff }));
    assert_eq!(cpu.read_memory(), vec![0u8; 4096]);
}

#[test]
fn words_are_big_endian() {
    let mut cpu = CPU::new();
    assert_eq!(cpu.write_word(0x300, 0xa1b2), Ok(()));
    assert_eq!(cpu.read_byte(0x300), Ok(0xa1));
    assert_eq!(cpu.read_byte(0x301), Ok(0xb2));
    assert_eq!(cpu.read_word(0x300), Ok(0xa1b2));
    assert_eq!(cpu.write_word(4095, 1), Err(CpuError::AddressOutOfRange { addr: 4095 }));
    assert_eq!(cpu.read_word(4095), Err(CpuError::AddressOutOfRange { addr: 4095 }));
    assert_eq!(cpu.read_word(4094), Ok(0));
}

#[test]
fn block_transfers() {
    let mut cpu = CPU::new();
    assert_eq!(cpu.write_bytes(0x200, &vec![1, 2, 3]), Ok(()));
    assert_eq!(cpu.read_bytes(0x1ff, 5), Ok(vec![0, 1, 2, 3, 0]));
    assert_eq!(cpu.read_bytes(4094, 2), Ok(vec![0, 0]));
    assert_eq!(cpu.read_bytes(4094, 3), Err(CpuError::AddressOutOfRange { addr: 4094 }));
    assert_eq!(
        cpu.write_bytes(4095, &vec![9, 9]),
        Err(CpuError::AddressOutOfRange { addr: 4095 })
    );
    assert_eq!(cpu.read_byte(4095), Ok(0));
}

#[test]
fn push_and_pop() {
    let mut cpu = CPU::new();
    assert_eq!(cpu.pop_word(), Err(CpuError::StackFault { sp: 0x200 }));
    assert_eq!(cpu.push_word(0x1234), Ok(()));
    assert_eq!(cpu.get_sp(), 0x1fe);
    assert_eq!(cpu.read_word(0x1fe), Ok(0x1234));
    assert_eq!(cpu.push_word(0x5678), Ok(()));
    assert_eq!(cpu.pop_word(), Ok(0x5678));
    assert_eq!(cpu.pop_word(), Ok(0x1234));
    assert_eq!(cpu.get_sp(), 0x200);
}

#[test]
fn stack_overflow_faults() {
    let mut cpu = CPU::new();
    for k in 0..256u16 {
        assert_eq!(cpu.push_word(k), Ok(()));
    }
    assert_eq!(cpu.get_sp(), 0);
    assert_eq!(cpu.push_word(7), Err(CpuError::StackFault { sp: 0 }));
    assert_eq!(cpu.get_sp(), 0);
}

#[test]
fn nibbles_pack_into_bytes() {
    assert_eq!(nibbles_to_bytes(&[0xa, 0x1, 0x2, 0x3]), vec![0xa1, 0x23]);
    assert_eq!(nibbles_to_bytes(&[0x1, 0x2, 0x3]), vec![0x12, 0x03]);
    assert_eq!(nibbles_to_bytes(&[]), Vec::<u8>::new());
}

#[test]
fn decode_fields() {
    assert_eq!(decode(0x00e0), Ok(Instruction::ClearScreen));
    assert_eq!(decode(0x00ee), Ok(Instruction::Return));
    assert_eq!(decode(0x1abc), Ok(Instruction::Jump { addr: 0xabc }));
    assert_eq!(decode(0x8ab4), Ok(Instruction::Alu { x: 0xa, y: 0xb, op: AluOp::Add }));
    assert_eq!(decode(0x8abe), Ok(Instruction::Alu { x: 0xa, y: 0xb, op: AluOp::Shl }));
    assert_eq!(decode(0xd125), Ok(Instruction::Draw { x: 1, y: 2, n: 5 }));
    assert_eq!(decode(0xf365), Ok(Instruction::LoadRegs { x: 3 }));
}

#[test]
fn set_index_register() {
    let mut cpu = machine_with(&[0xa1, 0x23]);
    assert_eq!(cpu.clock(1, 0), Ok(TickResult::Executed));
    assert_eq!(cpu.get_i(), 0x123);
    assert_eq!(cpu.get_pc(), 0x202);
}

#[test]
fn call_then_return() {
    let mut cpu = machine_with(&[0x23, 0x00]);
    cpu.write_word(0x300, 0x00ee).unwrap();
    assert_eq!(cpu.clock(0, 0), Ok(TickResult::Executed));
    assert_eq!(cpu.get_pc(), 0x300);
    assert_eq!(cpu.get_sp(), 0x1fe);
    assert_eq!(cpu.read_word(0x1fe), Ok(0x202));
    assert_eq!(cpu.clock(0, 0), Ok(TickResult::Executed));
    assert_eq!(cpu.get_pc(), 0x202);
    assert_eq!(cpu.get_sp(), 0x200);
}

#[test]
fn return_on_empty_stack_faults() {
    let mut cpu = machine_with(&[0x00, 0xee]);
    assert_eq!(cpu.clock(0, 0), Err(CpuError::StackFault { sp: 0x200 }));
    assert_eq!(cpu.get_pc(), 0x200);
}

#[test]
fn load_then_skip_if_equal() {
    let mut cpu = machine_with(&[0x65, 0x42, 0x35, 0x42, 0x00, 0x00, 0x00, 0x00]);
    run(&mut cpu, 1);
    assert_eq!(cpu.get_reg(5), 0x42);
    assert_eq!(cpu.get_pc(), 0x202);
    run(&mut cpu, 1);
    assert_eq!(cpu.get_pc(), 0x206);
}

#[test]
fn skip_if_not_equal_and_register_compares() {
    let mut cpu = machine_with(&[0x61, 0x01, 0x41, 0x01, 0x51, 0x00, 0x00, 0x00, 0x91, 0x00]);
    run(&mut cpu, 2);
    assert_eq!(cpu.get_pc(), 0x204);
    run(&mut cpu, 1);
    assert_eq!(cpu.get_pc(), 0x206);
    cpu.go(0x208);
    run(&mut cpu, 1);
    assert_eq!(cpu.get_pc(), 0x20c);
}

#[test]
fn add_immediate_wraps_without_flag() {
    let mut cpu = machine_with(&[0x63, 0xf0, 0x73, 0x20]);
    run(&mut cpu, 2);
    assert_eq!(cpu.get_reg(3), 0x10);
    assert_eq!(cpu.get_reg(0xf), 0);
}

#[test]
fn add_registers_sets_carry() {
    let mut cpu = machine_with(&[0x61, 0xff, 0x62, 0x01, 0x81, 0x24, 0x83, 0x44]);
    run(&mut cpu, 3);
    assert_eq!(cpu.get_reg(1), 0x00);
    assert_eq!(cpu.get_reg(0xf), 1);
    run(&mut cpu, 1);
    assert_eq!(cpu.get_reg(3), 0);
    assert_eq!(cpu.get_reg(0xf), 0);
}

#[test]
fn add_registers_without_carry() {
    let mut cpu = machine_with(&[0x61, 0x80, 0x62, 0x7f, 0x6f, 0x09, 0x81, 0x24]);
    run(&mut cpu, 4);
    assert_eq!(cpu.get_reg(1), 0xff);
    assert_eq!(cpu.get_reg(0xf), 0);
}

#[test]
fn subtraction_flags() {
    let mut cpu = machine_with(&[0x61, 0x05, 0x62, 0x05, 0x81, 0x25, 0x63, 0x03, 0x64, 0x01, 0x83, 0x47]);
    run(&mut cpu, 3);
    assert_eq!(cpu.get_reg(1), 0);
    assert_eq!(cpu.get_reg(0xf), 1);
    run(&mut cpu, 3);
    assert_eq!(cpu.get_reg(3), 0xfe);
    assert_eq!(cpu.get_reg(0xf), 0);
}

#[test]
fn shifts_and_bitwise() {
    let mut cpu = machine_with(&[
        0x61, 0x81, 0x81, 0x06, 0x62, 0x81, 0x82, 0x0e, 0x63, 0x0c, 0x64, 0x0a, 0x83, 0x41,
        0x65, 0x0c, 0x85, 0x42, 0x66, 0x0c, 0x86, 0x43, 0x87, 0x60,
    ]);
    run(&mut cpu, 2);
    assert_eq!(cpu.get_reg(1), 0x40);
    assert_eq!(cpu.get_reg(0xf), 1);
    run(&mut cpu, 2);
    assert_eq!(cpu.get_reg(2), 0x02);
    assert_eq!(cpu.get_reg(0xf), 1);
    run(&mut cpu, 3);
    assert_eq!(cpu.get_reg(3), 0x0e);
    run(&mut cpu, 2);
    assert_eq!(cpu.get_reg(5), 0x08);
    run(&mut cpu, 2);
    assert_eq!(cpu.get_reg(6), 0x06);
    run(&mut cpu, 1);
    assert_eq!(cpu.get_reg(7), 0x06);
}

#[test]
fn random_sequence_is_fixed() {
    let program = [0xc0, 0xff, 0xc1, 0xff, 0xc2, 0x0f, 0xc3, 0xff];
    let mut a = machine_with(&program);
    let mut b = machine_with(&program);
    run(&mut a, 4);
    run(&mut b, 4);
    assert_eq!(a.get_reg(0), 0xbb);
    assert_eq!(a.get_reg(1), 0x76);
    assert_eq!(a.get_reg(2), 0x0a);
    assert_eq!(a.get_reg(3), 0x3f);
    for x in 0..4 {
        assert_eq!(a.get_reg(x), b.get_reg(x));
    }
}

#[test]
fn five_short_ticks_equal_one_long_tick() {
    let program = [0x60, 0x0a, 0xf0, 0x15, 0xf0, 0x18, 0x12, 0x06];
    let mut a = machine_with(&program);
    let mut b = machine_with(&program);
    run(&mut a, 3);
    run(&mut b, 3);
    assert_eq!(a.get_delay_timer(), 10);
    assert_eq!(a.get_sound_timer(), 10);
    for _ in 0..5 {
        assert_eq!(a.clock(4, 0), Ok(TickResult::Executed));
    }
    assert_eq!(b.clock(20, 0), Ok(TickResult::Executed));
    assert_eq!(a.get_delay_timer(), 9);
    assert_eq!(b.get_delay_timer(), 9);
    assert_eq!(a.get_sound_timer(), b.get_sound_timer());
    assert_eq!(a.clock(12, 0), Ok(TickResult::Executed));
    assert_eq!(b.clock(12, 0), Ok(TickResult::Executed));
    assert_eq!(a.get_delay_timer(), 8);
    assert_eq!(b.get_delay_timer(), 8);
}

#[test]
fn timers_stop_at_zero() {
    let mut cpu = machine_with(&[0x60, 0x02, 0xf0, 0x15, 0x12, 0x04]);
    run(&mut cpu, 2);
    assert_eq!(cpu.clock(1000, 0), Ok(TickResult::Executed));
    assert_eq!(cpu.get_delay_timer(), 0);
    assert_eq!(cpu.get_sound_timer(), 0);
}

#[test]
fn load_delay_timer() {
    let mut cpu = machine_with(&[0x60, 0x30, 0xf0, 0x15, 0xf7, 0x07]);
    run(&mut cpu, 2);
    assert_eq!(cpu.clock(32, 0), Ok(TickResult::Executed));
    assert_eq!(cpu.get_reg(7), 0x2e);
}

#[test]
fn store_then_load_registers() {
    let mut cpu = machine_with(&[0xa3, 0x00, 0xf3, 0x55, 0xf3, 0x65]);
    for x in 0..16u8 {
        cpu.set_reg(x, 0x10 + x);
    }
    run(&mut cpu, 2);
    assert_eq!(cpu.read_bytes(0x300, 5), Ok(vec![0x10, 0x11, 0x12, 0x13, 0]));
    for x in 0..4u8 {
        cpu.set_reg(x, 0);
    }
    run(&mut cpu, 1);
    for x in 0..16u8 {
        assert_eq!(cpu.get_reg(x), 0x10 + x);
    }
}

#[test]
fn store_registers_out_of_range() {
    let mut cpu = machine_with(&[0xaf, 0xfe, 0xf2, 0x55]);
    run(&mut cpu, 1);
    assert_eq!(cpu.clock(0, 0), Err(CpuError::AddressOutOfRange { addr: 0xffe }));
    assert_eq!(cpu.get_pc(), 0x202);
    assert_eq!(cpu.read_byte(0xffe), Ok(0));
}

#[test]
fn unknown_opcodes_are_reported() {
    for word in [0xffffu16, 0x5001, 0x8008, 0x0123, 0xe000, 0xf0ff] {
        let mut cpu = machine_with(&[(word >> 8) as u8, word as u8]);
        let before = cpu.read_memory();
        assert_eq!(cpu.clock(0, 0), Err(CpuError::UnknownOpcode { opcode: word }));
        assert_eq!(cpu.get_pc(), 0x200);
        assert_eq!(cpu.read_memory(), before);
    }
}

#[test]
fn fetch_past_end_of_memory() {
    let mut cpu = CPU::new();
    cpu.go(4095);
    assert_eq!(cpu.clock(0, 0), Err(CpuError::AddressOutOfRange { addr: 4095 }));
}

#[test]
fn jumps() {
    let mut cpu = machine_with(&[0x12, 0x06, 0x00, 0x00, 0x00, 0x00, 0x60, 0x10, 0xb3, 0x00]);
    run(&mut cpu, 1);
    assert_eq!(cpu.get_pc(), 0x206);
    run(&mut cpu, 2);
    assert_eq!(cpu.get_pc(), 0x310);
}

#[test]
fn index_arithmetic_and_font() {
    let mut cpu = machine_with(&[0xaf, 0xff, 0x60, 0x02, 0xf0, 0x1e, 0x61, 0x0a, 0xf1, 0x29]);
    run(&mut cpu, 3);
    assert_eq!(cpu.get_i(), 0x1001);
    run(&mut cpu, 2);
    assert_eq!(cpu.get_i(), 50);
}

#[test]
fn index_addition_wraps() {
    let mut cpu = machine_with(&[0x60, 0x05, 0xf0, 0x1e]);
    cpu.set_i(0xfffe);
    run(&mut cpu, 2);
    assert_eq!(cpu.get_i(), 3);
}

#[test]
fn binary_coded_decimal() {
    let mut cpu = machine_with(&[0x60, 0xfe, 0xa3, 0x00, 0xf0, 0x33]);
    run(&mut cpu, 3);
    assert_eq!(cpu.read_bytes(0x300, 3), Ok(vec![2, 5, 4]));
}

#[test]
fn clear_and_draw_are_handed_to_host() {
    let mut cpu = machine_with(&[0x00, 0xe0, 0x61, 0x07, 0x62, 0x09, 0xa0, 0x0a, 0xd1, 0x25]);
    assert_eq!(cpu.clock(0, 0), Ok(TickResult::ClearScreen));
    run(&mut cpu, 3);
    assert_eq!(cpu.clock(0, 0), Ok(TickResult::Draw { x: 7, y: 9, n: 5 }));
    assert_eq!(cpu.get_pc(), 0x20a);
    cpu.set_vf_cond(true);
    assert_eq!(cpu.get_reg(0xf), 1);
    cpu.clear_vf();
    assert_eq!(cpu.get_reg(0xf), 0);
    cpu.set_vf();
    assert_eq!(cpu.get_reg(0xf), 1);
}

#[test]
fn skip_on_key() {
    let mut cpu = machine_with(&[0x60, 0x03, 0xe0, 0x9e, 0x00, 0x00, 0xe0, 0xa1]);
    run(&mut cpu, 1);
    assert_eq!(cpu.clock(0, 1 << 3), Ok(TickResult::Executed));
    assert_eq!(cpu.get_pc(), 0x206);
    assert_eq!(cpu.clock(0, 1 << 3), Ok(TickResult::Executed));
    assert_eq!(cpu.get_pc(), 0x208);
}

#[test]
fn wait_for_key() {
    let mut cpu = machine_with(&[0xf4, 0x0a, 0x00, 0xe0]);
    assert_eq!(cpu.clock(0, 0), Ok(TickResult::WaitingForKey));
    assert!(cpu.is_waiting_for_key());
    assert_eq!(cpu.get_pc(), 0x200);
    assert_eq!(cpu.clock(0, 0), Ok(TickResult::WaitingForKey));
    assert_eq!(cpu.get_pc(), 0x200);
    assert_eq!(cpu.clock(0, 0b1010_0000_0000), Ok(TickResult::Executed));
    assert!(!cpu.is_waiting_for_key());
    assert_eq!(cpu.get_reg(4), 9);
    assert_eq!(cpu.get_pc(), 0x202);
    assert_eq!(cpu.clock(0, 0), Ok(TickResult::ClearScreen));
}

#[test]
fn empty_block_at_end_of_memory_is_out_of_range() {
    let mut cpu = CPU::new();
    assert_eq!(cpu.read_bytes(4096, 0), Err(CpuError::AddressOutOfRange { addr: 4096 }));
    assert_eq!(cpu.write_bytes(4096, &vec![]), Err(CpuError::AddressOutOfRange { addr: 4096 }));
    assert_eq!(cpu.read_bytes(4095, 0), Ok(vec![]));
    assert_eq!(cpu.write_bytes(4095, &vec![]), Ok(()));
}

#[test]
fn empty_sprite_at_end_of_memory_is_out_of_range() {
    let mut cpu = machine_with(&[0xd1, 0x20]);
    cpu.set_i(4096);
    assert_eq!(cpu.clock(0, 0), Err(CpuError::AddressOutOfRange { addr: 4096 }));
    assert_eq!(cpu.get_pc(), 0x200);
}

#[test]
fn load_registers_out_of_range() {
    let mut cpu = machine_with(&[0xaf, 0xfe, 0xf2, 0x65]);
    cpu.write_bytes(0xffe, &vec![7, 8]).unwrap();
    cpu.set_reg(0, 1);
    cpu.set_reg(1, 2);
    cpu.set_reg(2, 3);
    run(&mut cpu, 1);
    assert_eq!(cpu.clock(0, 0), Err(CpuError::AddressOutOfRange { addr: 0xffe }));
    assert_eq!(cpu.get_pc(), 0x202);
    assert_eq!(cpu.get_reg(0), 1);
    assert_eq!(cpu.get_reg(1), 2);
    assert_eq!(cpu.get_reg(2), 3);
}
