use pintrace::cpu::Cpu;
use pintrace::memory::{Addressable, Ram};

const ADDRESS_TEST: u16 = 0xc000;

fn create_test_cpu(program: &Vec<u8>) -> Cpu<Ram> {
    let mut memory = Ram::new(65536);
    for (byte, index) in program.iter().zip(0..65536) {
        memory.write(ADDRESS_TEST + index as u16, *byte);
    }
    let mut cpu = Cpu::new(memory);
    cpu.pc = ADDRESS_TEST;
    cpu
}

fn with_acc_op_imm(op: u8) -> (Vec<u8>, usize, u16, u16) {
    let program = vec![
        0xa9, 0x00, // LDA #$00
        op, 0x00, // op  #$00
    ];
    (program, 2, 1, 3)
}

fn with_acc_op_zpg(op: u8) -> (Vec<u8>, usize, u16, u16) {
    let program: Vec<u8> = vec![
        0xa9, 0x00, // LDA #$00
        0x85, 0x2f, // STA $2F
        0xa9, 0x00, // LDA #$00
        op, 0x2f, // op  $2F
    ];
    (program, 4, 5, 1)
}

fn with_acc_op_zpx(op: u8) -> (Vec<u8>, usize, u16, u16) {
    let program: Vec<u8> = vec![
        0xa9, 0x00, // LDA #$00
        0x85, 0x2e, // STA $2E
        0xa9, 0x00, // LDA #$00
        0xa2, 0xff, // LDX #$FF
        op, 0x2f, // op  $2F,X
    ];
    (program, 5, 5, 1)
}

fn with_acc_op_abs(op: u8) -> (Vec<u8>, usize, u16, u16) {
    let program: Vec<u8> = vec![
        0xa9, 0x00, // LDA #$00
        0x8d, 0xc1, 0x06, // STA $06C1
        0xa9, 0x00, // LDA #$00
        op, 0xc1, 0x06, // op  $06C1
    ];
    (program, 4, 6, 1)
}

fn with_acc_op_abx(op: u8) -> (Vec<u8>, usize, u16, u16) {
    let program: Vec<u8> = vec![
        0xa9, 0x00, // LDA #$00
        0x8d, 0xf0, 0x06, // STA $06F0
        0xa9, 0x00, // LDA #$00
        0xa2, 0x2f, // LDX #$2F
        op, 0xc1, 0x06, // op  $06C1,X
    ];
    (program, 5, 6, 1)
}

fn with_acc_op_aby(op: u8) -> (Vec<u8>, usize, u16, u16) {
    let program: Vec<u8> = vec![
        0xa9, 0x00, // LDA #$00
        0x8d, 0xf0, 0x06, // STA $06F0
        0xa9, 0x00, // LDA #$00
        0xa0, 0x2f, // LDY #$2F
        op, 0xc1, 0x06, // op  $06C1,Y
    ];
    (program, 5, 6, 1)
}

fn with_acc_op_inx(op: u8) -> (Vec<u8>, usize, u16, u16) {
    let program: Vec<u8> = vec![
        0xa9, 0x00, // LDA #$00
        0x8d, 0xc1, 0x06, // STA $06C1
        0xa9, 0xc1, // LDA #$C1
        0x85, 0x2e, // STA $2E
        0xa9, 0x06, // LDA #$06
        0x85, 0x2f, // STA $2F
        0xa9, 0x00, // LDA #$00
        0xa2, 0xff, // LDX #$FF
        op, 0x2f, // op  ($2F,X)
    ];
    (program, 9, 14, 1)
}

fn with_acc_op_iny(op: u8) -> (Vec<u8>, usize, u16, u16) {
    let program: Vec<u8> = vec![
        0xa9, 0x00, // LDA #$00
        0x8d, 0xcc, 0x06, // STA $06CC
        0xa9, 0xc1, // LDA #$C1
        0x85, 0x2f, // STA $2F
        0xa9, 0x06, // LDA #$06
        0x85, 0x30, // STA $30
        0xa9, 0x00, // LDA #$00
        0xa0, 0x0b, // LDY #$0B
        op, 0x2f, // op  ($2F),Y
    ];
    (program, 9, 14, 1)
}

fn run_adc_tests((program, len, offset1, offset2): (Vec<u8>, usize, u16, u16)) {
    let mut cpu = create_test_cpu(&program);

    for n1 in (0 as u8)..=(255 as u8) {
        for n2 in (0 as u8)..=(255 as u8) {
            for c in (0 as u8)..=(1 as u8) {
                cpu.memory.write(ADDRESS_TEST + offset1, n1);
                cpu.memory.write(ADDRESS_TEST + offset2, n2);
                cpu.pc = ADDRESS_TEST;
                cpu.set_psr(c);
                cpu.run_instructions(len);

                let (temp, c1) = n1.overflowing_add(n2);
                let (result, c2) = temp.overflowing_add(c);
                let result2c = (n1 as i8 as i16) + (n2 as i8 as i16) + (c as i16);
                let carry = c1 | c2;
                let overflow = result2c < -128 || result2c > 127;
                let negative = result & 0x80 > 0;
                let zero = result == 0;

                assert_eq!(result, cpu.a);
                assert_eq!(negative, cpu.n);
                assert_eq!(overflow, cpu.v);
                assert_eq!(zero, cpu.z);
                assert_eq!(carry, cpu.c);
            }
        }
    }
}

#[test]
fn adc_imm() {
    run_adc_tests(with_acc_op_imm(0x69));
}

#[test]
fn adc_zpg() {
    run_adc_tests(with_acc_op_zpg(0x65));
}

#[test]
fn adc_zpx() {
    run_adc_tests(with_acc_op_zpx(0x75));
}

#[test]
fn adc_abs() {
    run_adc_tests(with_acc_op_abs(0x6d));
}

#[test]
fn adc_abx() {
    run_adc_tests(with_acc_op_abx(0x7d));
}

#[test]
fn adc_aby() {
    run_adc_tests(with_acc_op_aby(0x79));
}

#[test]
fn adc_inx() {
    run_adc_tests(with_acc_op_inx(0x61));
}

#[test]
fn adc_iny() {
    run_adc_tests(with_acc_op_iny(0x71));
}

fn run_and_tests((program, len, offset1, offset2): (Vec<u8>, usize, u16, u16)) {
    let mut cpu = create_test_cpu(&program);

    for n1 in (0 as u8)..=(255 as u8) {
        for n2 in (0 as u8)..=(255 as u8) {
            cpu.memory.write(ADDRESS_TEST + offset1, n1);
            cpu.memory.write(ADDRESS_TEST + offset2, n2);
            cpu.pc = ADDRESS_TEST;
            cpu.set_psr(0x00);
            cpu.run_instructions(len);

            let result = n1 & n2;
            let negative = result & 0x80 > 0;
            let zero = result == 0;

            assert_eq!(result, cpu.a);
            assert_eq!(negative, cpu.n);
            assert_eq!(zero, cpu.z);
        }
    }
}

#[test]
fn and_imm() {
    run_and_tests(with_acc_op_imm(0x29));
}

#[test]
fn and_zpg() {
    run_and_tests(with_acc_op_zpg(0x25));
}

#[test]
fn and_zpx() {
    run_and_tests(with_acc_op_zpx(0x35));
}

#[test]
fn and_abs() {
    run_and_tests(with_acc_op_abs(0x2d));
}

#[test]
fn and_abx() {
    run_and_tests(with_acc_op_abx(0x3d));
}

#[test]
fn and_aby() {
    run_and_tests(with_acc_op_aby(0x39));
}

#[test]
fn and_inx() {
    run_and_tests(with_acc_op_inx(0x21));
}

#[test]
fn and_iny() {
    run_and_tests(with_acc_op_iny(0x31));
}

fn run_cmp_tests((program, len, offset1, offset2): (Vec<u8>, usize, u16, u16)) {
    let mut cpu = create_test_cpu(&program);

    for n1 in (0 as u8)..=(255 as u8) {
        for n2 in (0 as u8)..=(255 as u8) {
            cpu.memory.write(ADDRESS_TEST + offset1, n1);
            cpu.memory.write(ADDRESS_TEST + offset2, n2);
            cpu.pc = ADDRESS_TEST;
            cpu.set_psr(0x00);
            cpu.run_instructions(len);

            let negative = n1.wrapping_sub(n2) & 0x80 > 0;
            let zero = n1 == n2;
            let carry = n1 >= n2;

            assert_eq!(n1, cpu.a);
            assert_eq!(negative, cpu.n);
            assert_eq!(zero, cpu.z);
            assert_eq!(carry, cpu.c);
        }
    }
}

#[test]
fn cmp_imm() {
    run_cmp_tests(with_acc_op_imm(0xc9));
}

#[test]
fn cmp_zpg() {
    run_cmp_tests(with_acc_op_zpg(0xc5));
}

#[test]
fn cmp_zpx() {
    run_cmp_tests(with_acc_op_zpx(0xd5));
}

#[test]
fn cmp_abs() {
    run_cmp_tests(with_acc_op_abs(0xcd));
}

#[test]
fn cmp_abx() {
    run_cmp_tests(with_acc_op_abx(0xdd));
}

#[test]
fn cmp_aby() {
    run_cmp_tests(with_acc_op_aby(0xd9));
}

#[test]
fn cmp_inx() {
    run_cmp_tests(with_acc_op_inx(0xc1));
}

#[test]
fn cmp_iny() {
    run_cmp_tests(with_acc_op_iny(0xd1));
}

fn run_eor_tests((program, len, offset1, offset2): (Vec<u8>, usize, u16, u16)) {
    let mut cpu = create_test_cpu(&program);

    for n1 in (0 as u8)..=(255 as u8) {
        for n2 in (0 as u8)..=(255 as u8) {
            cpu.memory.write(ADDRESS_TEST + offset1, n1);
            cpu.memory.write(ADDRESS_TEST + offset2, n2);
            cpu.pc = ADDRESS_TEST;
            cpu.set_psr(0x00);
            cpu.run_instructions(len);

            let result = n1 ^ n2;
            let negative = result & 0x80 > 0;
            let zero = result == 0;

            assert_eq!(result, cpu.a);
            assert_eq!(negative, cpu.n);
            assert_eq!(zero, cpu.z);
        }
    }
}

#[test]
fn eor_imm() {
    run_eor_tests(with_acc_op_imm(0x49));
}

#[test]
fn eor_zpg() {
    run_eor_tests(with_acc_op_zpg(0x45));
}

#[test]
fn eor_zpx() {
    run_eor_tests(with_acc_op_zpx(0x55));
}

#[test]
fn eor_abs() {
    run_eor_tests(with_acc_op_abs(0x4d));
}

#[test]
fn eor_abx() {
    run_eor_tests(with_acc_op_abx(0x5d));
}

#[test]
fn eor_aby() {
    run_eor_tests(with_acc_op_aby(0x59));
}

#[test]
fn eor_inx() {
    run_eor_tests(with_acc_op_inx(0x41));
}

#[test]
fn eor_iny() {
    run_eor_tests(with_acc_op_iny(0x51));
}

fn run_ora_tests((program, len, offset1, offset2): (Vec<u8>, usize, u16, u16)) {
    let mut cpu = create_test_cpu(&program);

    for n1 in (0 as u8)..=(255 as u8) {
        for n2 in (0 as u8)..=(255 as u8) {
            cpu.memory.write(ADDRESS_TEST + offset1, n1);
            cpu.memory.write(ADDRESS_TEST + offset2, n2);
            cpu.pc = ADDRESS_TEST;
            cpu.set_psr(0x00);
            cpu.run_instructions(len);

            let result = n1 | n2;
            let negative = result & 0x80 > 0;
            let zero = result == 0;

            assert_eq!(result, cpu.a);
            assert_eq!(negative, cpu.n);
            assert_eq!(zero, cpu.z);
        }
    }
}

#[test]
fn ora_imm() {
    run_ora_tests(with_acc_op_imm(0x09));
}

#[test]
fn ora_zpg() {
    run_ora_tests(with_acc_op_zpg(0x05));
}

#[test]
fn ora_zpx() {
    run_ora_tests(with_acc_op_zpx(0x15));
}

#[test]
fn ora_abs() {
    run_ora_tests(with_acc_op_abs(0x0d));
}

#[test]
fn ora_abx() {
    run_ora_tests(with_acc_op_abx(0x1d));
}

#[test]
fn ora_aby() {
    run_ora_tests(with_acc_op_aby(0x19));
}

#[test]
fn ora_inx() {
    run_ora_tests(with_acc_op_inx(0x01));
}

#[test]
fn ora_iny() {
    run_ora_tests(with_acc_op_iny(0x11));
}

fn run_sbc_tests((program, len, offset1, offset2): (Vec<u8>, usize, u16, u16)) {
    let mut cpu = create_test_cpu(&program);

    for n1 in (0 as u8)..=(255 as u8) {
        for n2 in (0 as u8)..=(255 as u8) {
            for c in (0 as u8)..=(1 as u8) {
                cpu.memory.write(ADDRESS_TEST + offset1, n1);
                cpu.memory.write(ADDRESS_TEST + offset2, n2);
                cpu.pc = ADDRESS_TEST;
                cpu.set_psr(c);
                cpu.run_instructions(len);

                let (temp, c1) = n1.overflowing_sub(n2);
                let (result, c2) = temp.overflowing_sub(1 - c);
                let result2c = (n1 as i8 as i16) - (n2 as i8 as i16) - (1 - (c as i16));
                let carry = !(c1 | c2);
                let overflow = result2c < -128 || result2c > 127;
                let negative = result & 0x80 > 0;
                let zero = result == 0;

                assert_eq!(result, cpu.a);
                assert_eq!(negative, cpu.n);
                assert_eq!(overflow, cpu.v);
                assert_eq!(zero, cpu.z);
                assert_eq!(carry, cpu.c);
            }
        }
    }
}

#[test]
fn sbc_imm() {
    run_sbc_tests(with_acc_op_imm(0xe9));
}

#[test]
fn sbc_zpg() {
    run_sbc_tests(with_acc_op_zpg(0xe5));
}

#[test]
fn sbc_zpx() {
    run_sbc_tests(with_acc_op_zpx(0xf5));
}

#[test]
fn sbc_abs() {
    run_sbc_tests(with_acc_op_abs(0xed));
}

#[test]
fn sbc_abx() {
    run_sbc_tests(with_acc_op_abx(0xfd));
}

#[test]
fn sbc_aby() {
    run_sbc_tests(with_acc_op_aby(0xf9));
}

#[test]
fn sbc_inx() {
    run_sbc_tests(with_acc_op_inx(0xe1));
}

#[test]
fn sbc_iny() {
    run_sbc_tests(with_acc_op_iny(0xf1));
}
