use pintrace::common::get_bit;
use pintrace::cpu::Cpu;
use pintrace::memory::{Addressable, Ram, Rom};
use pintrace::save::{read_value, Saveable};

#[test]
fn get_bit_reads_each_position() {
    let v: u8 = 0b1010_0110;
    assert!(!get_bit(v, 0));
    assert!(get_bit(v, 1));
    assert!(get_bit(v, 2));
    assert!(!get_bit(v, 3));
    assert!(!get_bit(v, 4));
    assert!(get_bit(v, 5));
    assert!(!get_bit(v, 6));
    assert!(get_bit(v, 7));
}

#[test]
fn ram_reads_back_writes() {
    let mut ram = Ram::new(65536);
    assert_eq!(ram.read(0x1234), 0);
    ram.write(0x1234, 0xab);
    assert_eq!(ram.read(0x1234), 0xab);
    assert_eq!(ram.read16(0x1233), 0xab00);
    ram.write(0x1233, 0xcd);
    assert_eq!(ram.read16(0x1233), 0xabcd);
    ram.write_offset(0x1200, 0x34, 0x77);
    assert_eq!(ram.read_offset(0x1230, 0x04), 0x77);
}

#[test]
fn rom_holds_its_bytes() {
    let mut bytes = vec![0u8; 65536];
    bytes[0] = 0x11;
    bytes[65535] = 0x99;
    let rom = Rom::new(bytes);
    assert_eq!(rom.read(0), 0x11);
    assert_eq!(rom.read(65535), 0x99);
}

#[test]
fn cpu_new_state() {
    let cpu = Cpu::new(Ram::new(65536));
    assert_eq!(cpu.a, 0);
    assert_eq!(cpu.x, 0);
    assert_eq!(cpu.y, 0);
    assert_eq!(cpu.pc, 0xfffc);
    assert_eq!(cpu.sp, 0xfd);
    assert!(!cpu.c && !cpu.z && !cpu.i && !cpu.d && !cpu.v && !cpu.n);
    assert_eq!(cpu.counter, 0);
    assert_eq!(cpu.cycles_left, 6);
}

#[test]
fn cpu_pause_stalls() {
    let mut cpu = Cpu::new(Ram::new(65536));
    cpu.pause(3);
    assert_eq!(cpu.cycles_left, 3);
}

#[test]
fn cpu_psr_round_trip() {
    let mut cpu = Cpu::new(Ram::new(65536));
    cpu.set_psr(0b1100_1111);
    assert!(cpu.c && cpu.z && cpu.i && cpu.d && cpu.v && cpu.n);
    assert_eq!(cpu.get_psr(false), 0b1100_1111);
    assert_eq!(cpu.get_psr(true), 0b1110_1111);
    cpu.set_psr(0);
    assert!(!cpu.c && !cpu.z && !cpu.i && !cpu.d && !cpu.v && !cpu.n);
}

#[test]
fn cpu_nmi_jumps_through_vector() {
    let mut memory = Ram::new(65536);
    memory.write(0xfffa, 0x34);
    memory.write(0xfffb, 0x12);
    let mut cpu = Cpu::new(memory);
    cpu.pc = 0xbeef;
    cpu.nmi();
    assert_eq!(cpu.pc, 0x1234);
    assert_eq!(cpu.sp, 0xfa);
    // The old program counter sits on the stack, high byte first.
    assert_eq!(cpu.memory.read(0x01fd), 0xbe);
    assert_eq!(cpu.memory.read(0x01fc), 0xef);
}

#[test]
fn cpu_irq_respects_interrupt_disable() {
    let mut memory = Ram::new(65536);
    memory.write(0xfffe, 0x00);
    memory.write(0xffff, 0x80);
    let mut cpu = Cpu::new(memory);
    cpu.pc = 0xc000;
    cpu.i = true;
    cpu.irq();
    assert_eq!(cpu.pc, 0xc000);
    cpu.i = false;
    cpu.irq();
    assert_eq!(cpu.pc, 0x8000);
}

#[test]
fn cpu_runs_a_small_program() {
    let mut memory = Ram::new(65536);
    let program: [u8; 7] = [
        0xa9, 0x21, // LDA #$21
        0x69, 0x12, // ADC #$12
        0x8d, 0x00, 0x02, // STA $0200
    ];
    for (i, b) in program.iter().enumerate() {
        memory.write(0xc000 + i as u16, *b);
    }
    let mut cpu = Cpu::new(memory);
    cpu.pc = 0xc000;
    cpu.run_instructions(3);
    assert_eq!(cpu.a, 0x33);
    assert_eq!(cpu.memory.read(0x0200), 0x33);
}

#[test]
fn save_round_trip_scalars() {
    let mut out: Vec<u8> = Vec::new();
    true.save(&mut out);
    0xabu8.save(&mut out);
    0x1234u16.save(&mut out);
    0xdeadbeefu32.save(&mut out);
    0x1122334455667788u64.save(&mut out);
    42usize.save(&mut out);

    let mut pos: usize = 0;
    let b: bool = read_value(&out, &mut pos).unwrap();
    assert_eq!(b, true);
    let v8: u8 = read_value(&out, &mut pos).unwrap();
    assert_eq!(v8, 0xab);
    let v16: u16 = read_value(&out, &mut pos).unwrap();
    assert_eq!(v16, 0x1234);
    let v32: u32 = read_value(&out, &mut pos).unwrap();
    assert_eq!(v32, 0xdeadbeef);
    let v64: u64 = read_value(&out, &mut pos).unwrap();
    assert_eq!(v64, 0x1122334455667788);
    let vus: usize = read_value(&out, &mut pos).unwrap();
    assert_eq!(vus, 42);
    assert_eq!(pos, out.len());
}

#[test]
fn save_layout_is_little_endian() {
    let mut out: Vec<u8> = Vec::new();
    0x0102u16.save(&mut out);
    assert_eq!(out, vec![0x02, 0x01]);
    out.clear();
    0x01020304u32.save(&mut out);
    assert_eq!(out, vec![0x04, 0x03, 0x02, 0x01]);
}

#[test]
fn save_round_trip_vec() {
    let v: Vec<u16> = vec![1, 2, 300, 40000];
    let mut out: Vec<u8> = Vec::new();
    v.save(&mut out);
    assert_eq!(out.len(), 8 + 4 * 2);
    let mut pos: usize = 0;
    let back: Vec<u16> = read_value(&out, &mut pos).unwrap();
    assert_eq!(back, v);
    assert_eq!(pos, out.len());
}

#[test]
fn load_fails_on_truncated_data() {
    let mut out: Vec<u8> = Vec::new();
    0x1234u16.save(&mut out);
    out.pop();
    let mut pos: usize = 0;
    let r: Option<u16> = read_value(&out, &mut pos);
    assert!(r.is_none());
}

#[test]
fn load_rejects_a_malformed_flag_byte() {
    let data: Vec<u8> = vec![2];
    let mut pos: usize = 0;
    let r: Option<bool> = read_value(&data, &mut pos);
    assert!(r.is_none());
}

#[test]
fn cpu_snapshot_round_trip() {
    let mut memory = Ram::new(256);
    memory.write(7, 0x5a);
    let mut cpu = Cpu::new(memory);
    cpu.a = 0x11;
    cpu.x = 0x22;
    cpu.y = 0x33;
    cpu.pc = 0x4455;
    cpu.c = true;
    cpu.n = true;

    let mut out: Vec<u8> = Vec::new();
    cpu.save(&mut out);

    let mut other = Cpu::new(Ram::new(1));
    let mut pos: usize = 0;
    assert!(other.load(&out, &mut pos));
    assert_eq!(pos, out.len());
    assert_eq!(other.a, 0x11);
    assert_eq!(other.x, 0x22);
    assert_eq!(other.y, 0x33);
    assert_eq!(other.pc, 0x4455);
    assert!(other.c && other.n && !other.z);
    assert_eq!(other.memory.read(7), 0x5a);
}
