//! One test per instruction: the word is placed at the program start,
//! fetched, decoded and executed, and the affected state is checked.

use chip8::cpu::Cpu;
use chip8::opcode::Instruction;

#[test]
fn test_fonts() {
    let memory = Cpu::init();

    let exp_result = [
        0xF0, 0x90, 0x90, 0x90, 0xF0, // 0
        0x20, 0x60, 0x20, 0x20, 0x70, // 1
        0xF0, 0x10, 0xF0, 0x80, 0xF0, // 2
        0xF0, 0x10, 0xF0, 0x10, 0xF0, // 3
        0x90, 0x90, 0xF0, 0x10, 0x10, // 4
        0xF0, 0x80, 0xF0, 0x10, 0xF0, // 5
        0xF0, 0x80, 0xF0, 0x90, 0xF0, // 6
        0xF0, 0x10, 0x20, 0x40, 0x40, // 7
        0xF0, 0x90, 0xF0, 0x90, 0xF0, // 8
        0xF0, 0x90, 0xF0, 0x10, 0xF0, // 9
        0xF0, 0x90, 0xF0, 0x90, 0x90, // A
        0xE0, 0x90, 0xE0, 0x90, 0xE0, // B
        0xF0, 0x80, 0x80, 0x80, 0xF0, // C
        0xE0, 0x90, 0x90, 0x90, 0xE0, // D
        0xF0, 0x80, 0xF0, 0x80, 0xF0, // E
        0xF0, 0x80, 0xF0, 0x80, 0x80, // F
    ];

    assert_eq!(memory.ram[0x000..0x050], exp_result);
}

#[test]
fn test_display() {
    let mut display = Cpu::init();

    let screen_copy: Vec<bool> = vec![false; 2048];

    display.screen[0..32].fill(true);

    let mut exp_result: Vec<bool> = vec![false; 2048];
    exp_result[0..32].fill(true);

    let result: Vec<bool> = display
        .screen
        .iter()
        .zip(screen_copy.iter())
        .map(|(&x1, &x2)| x1 ^ x2)
        .collect();

    assert_eq!(exp_result, result);
}

#[test]
fn test_00e0() {
    // CLS
    let mut cpu = Cpu::init();
    cpu.screen = vec![true; 64 * 32];

    cpu.ram[0x200] = 0x00;
    cpu.ram[0x201] = 0xe0;

    let opcode = cpu.fetch().unwrap();
    let ins = Instruction::decode(opcode).unwrap();
    let _ = cpu.execute(ins);

    assert_eq!(cpu.screen, vec![false; 64 * 32]);
}

#[test]
fn test_00ee() {
    // RET
    for stack_idx in 1..=15 {
        let mut cpu = Cpu::init();
        let ret_addr: u16 = 0x250;
        cpu.sp = stack_idx;
        cpu.stack[cpu.sp as usize] = ret_addr;

        cpu.ram[0x200] = 0x00;
        cpu.ram[0x201] = 0xee;

        let opcode = cpu.fetch().unwrap();
        let ins = Instruction::decode(opcode).unwrap();
        let _ = cpu.execute(ins);

        assert_eq!(cpu.pc, ret_addr);
        assert_eq!(cpu.sp, stack_idx - 1);
    }
}

#[test]
fn test_1nnn() {
    // JP addr
    let mut cpu = Cpu::init();
    let jp_addr: u16 = 0x250;

    let tmp = 0x1000 | jp_addr;
    cpu.ram[0x200] = (tmp >> 8) as u8;
    cpu.ram[0x201] = tmp as u8;

    let opcode = cpu.fetch().unwrap();
    let ins = Instruction::decode(opcode).unwrap();
    let _ = cpu.execute(ins);

    assert_eq!(cpu.pc, jp_addr);
}

#[test]
fn test_2nnn() {
    // CALL addr
    for stack_idx in 0..=14 {
        let mut cpu = Cpu::init();
        let sr_addr: u16 = 0x250;
        cpu.sp = stack_idx;

        let tmp = 0x2000 | sr_addr;
        cpu.ram[0x200] = (tmp >> 8) as u8;
        cpu.ram[0x201] = tmp as u8;

        let opcode = cpu.fetch().unwrap();
        let ins = Instruction::decode(opcode).unwrap();
        let _ = cpu.execute(ins);

        assert_eq!(cpu.stack[cpu.sp as usize], 0x202);
        assert_eq!(cpu.pc, 0x250);
        assert_eq!(cpu.sp, stack_idx + 1);
    }
}

#[test]
fn test_3xkk() {
    // SE x, kk
    let mut cpu = Cpu::init();
    let kk: u8 = 0x25;
    let x: u8 = 0x1;
    cpu.vx[x as usize] = kk;

    let tmp: u16 = 0x3000 | ((x as u16) << 8) | (kk as u16);
    cpu.ram[0x200] = (tmp >> 8) as u8;
    cpu.ram[0x201] = tmp as u8;

    let instruction = cpu.fetch().unwrap();
    let ins = Instruction::decode(instruction).unwrap();
    let _ = cpu.execute(ins);

    assert_eq!(cpu.pc, 0x204);
}

#[test]
fn test_4xkk() {
    // SNE x, kk
    let mut cpu = Cpu::init();
    let kk: u8 = 0x24;
    let x: u8 = 0x1;
    cpu.vx[x as usize] = kk + 1;

    let tmp: u16 = 0x4000 | ((x as u16) << 8) | (kk as u16);
    cpu.ram[0x200] = (tmp >> 8) as u8;
    cpu.ram[0x201] = tmp as u8;

    let instruction = cpu.fetch().unwrap();
    let ins = Instruction::decode(instruction).unwrap();
    let _ = cpu.execute(ins);

    assert_eq!(cpu.pc, 0x204);
}

#[test]
fn test_5xy0() {
    // SE x, y
    let mut cpu = Cpu::init();
    let x: u8 = 0x1;
    let y: u8 = 0xA;
    let val: u8 = 0x25;
    cpu.vx[x as usize] = val;
    cpu.vx[y as usize] = val;

    let tmp: u16 = 0x5000 | ((x as u16) << 8) | ((y as u16) << 4);
    cpu.ram[0x200] = (tmp >> 8) as u8;
    cpu.ram[0x201] = tmp as u8;

    let instruction = cpu.fetch().unwrap();
    let ins = Instruction::decode(instruction).unwrap();
    let _ = cpu.execute(ins);

    assert_eq!(cpu.pc, 0x204);
}

#[test]
fn test_6xkk() {
    // LD x, kk
    let mut cpu = Cpu::init();
    let x: u8 = 0x1;
    let kk: u8 = 0x25;

    let tmp: u16 = 0x6000 | ((x as u16) << 8) | (kk as u16);
    cpu.ram[0x200] = (tmp >> 8) as u8;
    cpu.ram[0x201] = tmp as u8;

    let instruction = cpu.fetch().unwrap();
    let ins = Instruction::decode(instruction).unwrap();
    let _ = cpu.execute(ins);

    assert_eq!(cpu.vx[x as usize], kk);
}

#[test]
fn test_7xkk() {
    // ADD x, kk
    let mut cpu = Cpu::init();
    let x: u8 = 0x1;
    let kk: u8 = 0x25;
    let orig: u8 = 0x40;
    cpu.vx[x as usize] = orig;

    let tmp = 0x7000 | ((x as u16) << 8) | (kk as u16);
    cpu.ram[0x200] = (tmp >> 8) as u8;
    cpu.ram[0x201] = tmp as u8;

    let instruction = cpu.fetch().unwrap();
    let ins = Instruction::decode(instruction).unwrap();
    let _ = cpu.execute(ins);

    assert_eq!(cpu.vx[x as usize], orig + kk);
}

#[test]
fn test_8xy0() {
    // LD x, y
    let mut cpu = Cpu::init();
    let x: u8 = 0x1;
    let y: u8 = 0xA;
    cpu.vx[y as usize] = 0x25;

    let tmp = 0x8000 | ((x as u16) << 8) | ((y as u16) << 4);
    cpu.ram[0x200] = (tmp >> 8) as u8;
    cpu.ram[0x201] = tmp as u8;

    let instruction = cpu.fetch().unwrap();
    let ins = Instruction::decode(instruction).unwrap();
    let _ = cpu.execute(ins);

    assert_eq!(cpu.vx[x as usize], cpu.vx[y as usize]);
}

#[test]
fn test_8xy1() {
    // OR x, y
    let mut cpu = Cpu::init();
    let x: u8 = 0x1;
    let y: u8 = 0xA;
    let x_val: u8 = 0x25;
    let y_val: u8 = 0x80;
    cpu.vx[x as usize] = x_val;
    cpu.vx[y as usize] = y_val;

    let tmp = 0x8000 | ((x as u16) << 8) | ((y as u16) << 4) | 0x1;
    cpu.ram[0x200] = (tmp >> 8) as u8;
    cpu.ram[0x201] = tmp as u8;

    let instruction = cpu.fetch().unwrap();
    let ins = Instruction::decode(instruction).unwrap();
    let _ = cpu.execute(ins);

    assert_eq!(cpu.vx[x as usize], x_val | y_val);
}

#[test]
fn test_8xy2() {
    // AND x, y
    let mut cpu = Cpu::init();
    let x: u8 = 0x1;
    let y: u8 = 0xA;
    let x_val: u8 = 0x25;
    let y_val: u8 = 0x80;
    cpu.vx[x as usize] = x_val;
    cpu.vx[y as usize] = y_val;

    let tmp = 0x8000 | ((x as u16) << 8) | ((y as u16) << 4) | 0x2;
    cpu.ram[0x200] = (tmp >> 8) as u8;
    cpu.ram[0x201] = tmp as u8;

    let instruction = cpu.fetch().unwrap();
    let ins = Instruction::decode(instruction).unwrap();
    let _ = cpu.execute(ins);

    assert_eq!(cpu.vx[x as usize], x_val & y_val);
}

#[test]
fn test_8xy3() {
    // XOR x, y
    let mut cpu = Cpu::init();
    let x: u8 = 0x1;
    let y: u8 = 0xA;
    let x_val: u8 = 0x25;
    let y_val: u8 = 0x80;
    cpu.vx[x as usize] = x_val;
    cpu.vx[y as usize] = y_val;

    let tmp = 0x8000 | ((x as u16) << 8) | ((y as u16) << 4) | 0x3;
    cpu.ram[0x200] = (tmp >> 8) as u8;
    cpu.ram[0x201] = tmp as u8;

    let instruction = cpu.fetch().unwrap();
    let ins = Instruction::decode(instruction).unwrap();
    let _ = cpu.execute(ins);

    assert_eq!(cpu.vx[x as usize], x_val ^ y_val);
}

#[test]
fn test_8xy4() {
    // ADD x, y
    let mut cpu = Cpu::init();
    let x: u8 = 0x1;
    let y: u8 = 0xA;
    let x_val: u8 = 0x01;
    let y_val: u8 = 0xFF;
    cpu.vx[x as usize] = x_val;
    cpu.vx[y as usize] = y_val;
    let sum: u16 = (x_val as u16) + (y_val as u16);

    let tmp = 0x8000 | ((x as u16) << 8) | ((y as u16) << 4) | 0x4;
    cpu.ram[0x200] = (tmp >> 8) as u8;
    cpu.ram[0x201] = tmp as u8;

    let instruction = cpu.fetch().unwrap();
    let ins = Instruction::decode(instruction).unwrap();
    let _ = cpu.execute(ins);

    assert_eq!(cpu.vx[x as usize], sum as u8);
    assert_eq!(cpu.vx[0xF] == 1, (0xFF00 & sum) > 1);
}

#[test]
fn test_8xy5() {
    // SUB x, y
    let mut cpu = Cpu::init();
    let x: u8 = 0x1;
    let y: u8 = 0xA;
    let x_val: u8 = 0x05;
    let y_val: u8 = 0xC0;
    cpu.vx[x as usize] = x_val;
    cpu.vx[y as usize] = y_val;
    let diff: u16 = if x_val >= y_val {
        (x_val as u16) - (y_val as u16)
    } else {
        0x100 + (x_val as u16) - (y_val as u16)
    };

    let tmp = 0x8000 | ((x as u16) << 8) | ((y as u16) << 4) | 0x5;
    cpu.ram[0x200] = (tmp >> 8) as u8;
    cpu.ram[0x201] = tmp as u8;

    let instruction = cpu.fetch().unwrap();
    let ins = Instruction::decode(instruction).unwrap();
    let _ = cpu.execute(ins);

    assert_eq!(cpu.vx[x as usize], diff as u8);
    assert_eq!(cpu.vx[0xF] == 1, x_val > y_val);
}

#[test]
fn test_8xy6() {
    // SHR x {, y}
    let mut cpu = Cpu::init();
    let x: u8 = 0x1;
    let y: u8 = 0xA;
    let x_val: u8 = 0x4;
    cpu.vx[x as usize] = x_val;

    let tmp = 0x8000 | ((x as u16) << 8) | ((y as u16) << 4) | 0x6;
    cpu.ram[0x200] = (tmp >> 8) as u8;
    cpu.ram[0x201] = tmp as u8;

    let instruction = cpu.fetch().unwrap();
    let ins = Instruction::decode(instruction).unwrap();
    let _ = cpu.execute(ins);

    assert_eq!(cpu.vx[x as usize], x_val >> 1);
    assert_eq!(cpu.vx[0xF] == 1, x_val.trailing_ones() > 1);
}

#[test]
fn test_8xy7() {
    // SUBN x, y
    let mut cpu = Cpu::init();
    let x: u8 = 0x1;
    let y: u8 = 0xA;
    let x_val: u8 = 0xFF;
    let y_val: u8 = 0x01;
    cpu.vx[x as usize] = x_val;
    cpu.vx[y as usize] = y_val;
    let diff: u16 = if y_val >= x_val {
        (y_val as u16) - (x_val as u16)
    } else {
        0x100 + (y_val as u16) - (x_val as u16)
    };

    let tmp = 0x8000 | ((x as u16) << 8) | ((y as u16) << 4) | 0x7;
    cpu.ram[0x200] = (tmp >> 8) as u8;
    cpu.ram[0x201] = tmp as u8;

    let instruction = cpu.fetch().unwrap();
    let ins = Instruction::decode(instruction).unwrap();
    let _ = cpu.execute(ins);

    assert_eq!(cpu.vx[x as usize], diff as u8);
    assert_eq!(cpu.vx[0xF] == 1, y_val > x_val);
}

#[test]
fn test_8xye() {
    // SHL x {, y}
    let mut cpu = Cpu::init();
    let x: u8 = 0x1;
    let y: u8 = 0xA;
    let x_val: u8 = 0x4;
    cpu.vx[x as usize] = x_val;

    let tmp = 0x8000 | ((x as u16) << 8) | ((y as u16) << 4) | 0xE;
    cpu.ram[0x200] = (tmp >> 8) as u8;
    cpu.ram[0x201] = tmp as u8;

    let instruction = cpu.fetch().unwrap();
    let ins = Instruction::decode(instruction).unwrap();
    let _ = cpu.execute(ins);

    assert_eq!(cpu.vx[x as usize], x_val << 1);
    assert_eq!(cpu.vx[0xF] == 1, x_val.leading_ones() > 1);
}

#[test]
fn test_9xy0() {
    // SNE x, y
    let mut cpu = Cpu::init();
    let x: u8 = 0x1;
    let y: u8 = 0xA;
    let val: u8 = 0x25;
    cpu.vx[x as usize] = val;
    cpu.vx[y as usize] = val + 1;

    let tmp: u16 = 0x9000 | ((x as u16) << 8) | ((y as u16) << 4);
    cpu.ram[0x200] = (tmp >> 8) as u8;
    cpu.ram[0x201] = tmp as u8;

    let instruction = cpu.fetch().unwrap();
    let ins = Instruction::decode(instruction).unwrap();
    let _ = cpu.execute(ins);

    assert_eq!(cpu.pc, 0x204);
}

#[test]
fn test_annn() {
    // LD I, addr
    let mut cpu = Cpu::init();
    let addr: u16 = 0x250;

    let tmp: u16 = 0xA000 | addr;
    cpu.ram[0x200] = (tmp >> 8) as u8;
    cpu.ram[0x201] = tmp as u8;

    let instruction = cpu.fetch().unwrap();
    let ins = Instruction::decode(instruction).unwrap();
    let _ = cpu.execute(ins);

    assert_eq!(cpu.ir, addr);
}

#[test]
fn test_bnnn() {
    // JP V0, addr
    let mut cpu = Cpu::init();
    cpu.vx[0x0] = 0x25;
    let addr: u16 = 0x250;

    let tmp: u16 = 0xB000 | addr;
    cpu.ram[0x200] = (tmp >> 8) as u8;
    cpu.ram[0x201] = tmp as u8;

    let instruction = cpu.fetch().unwrap();
    let ins = Instruction::decode(instruction).unwrap();
    let _ = cpu.execute(ins);

    assert_eq!(cpu.pc, (cpu.vx[0x0] as u16) + addr);
}

#[test]
fn test_cxkk() {
    // RND x, kk
    let mut cpu = Cpu::init();
    let x: u8 = 0xF;
    let kk: u8 = 0xFF;
    let val: u8 = 0xF;
    cpu.vx[x as usize] = val;

    let tmp: u16 = 0xC000 | (x as u16) << 8 | (kk as u16);
    cpu.ram[0x200] = (tmp >> 8) as u8;
    cpu.ram[0x201] = tmp as u8;

    let instruction = cpu.fetch().unwrap();
    let ins = Instruction::decode(instruction).unwrap();
    let _ = cpu.execute_with(ins, 0);

    assert_eq!(cpu.vx[x as usize], 0);
}

#[test]
fn test_dxyn() {
    // DRW x, y, n
    let mut cpu = Cpu::init();
    let x: u8 = 0x1;
    let y: u8 = 0xA;
    cpu.vx[x as usize] = 0x5;
    cpu.vx[y as usize] = 0x7;
    cpu.ir = 0x250;
    let n: u8 = 2;

    let tmp: u16 = 0xD000 | ((x as u16) << 8) | ((y as u16) << 4) | (n as u16);
    cpu.ram[0x200] = (tmp >> 8) as u8;
    cpu.ram[0x201] = tmp as u8;
    for i in 0..n {
        cpu.ram[(cpu.ir + i as u16) as usize] = i;
    }
    cpu.screen[0x20C] = true;

    let instruction = cpu.fetch().unwrap();
    let ins = Instruction::decode(instruction).unwrap();
    let _ = cpu.execute(ins);

    assert_eq!(cpu.vx[0xF], 1);
    assert_eq!(cpu.screen[0x20C], false);
}

#[test]
fn test_ex9e() {
    // SKP x
    let mut cpu = Cpu::init();
    let x: u8 = 0x1;
    let key: u8 = 0x5;
    cpu.vx[x as usize] = key;
    cpu.kp[key as usize] = true;

    let tmp: u16 = 0xE000 | ((x as u16) << 8) | 0x9E;
    cpu.ram[0x200] = (tmp >> 8) as u8;
    cpu.ram[0x201] = tmp as u8;

    let instruction = cpu.fetch().unwrap();
    let ins = Instruction::decode(instruction).unwrap();
    let _ = cpu.execute(ins);

    assert_eq!(cpu.pc, 0x204);
}

#[test]
fn test_exa1() {
    // SKNP x
    let mut cpu = Cpu::init();
    let x: u8 = 0x1;
    let key: u8 = 0x5;
    cpu.vx[x as usize] = key;
    cpu.kp[(key - 1) as usize] = true;

    let tmp: u16 = 0xE000 | ((x as u16) << 8) | 0xA1;
    cpu.ram[0x200] = (tmp >> 8) as u8;
    cpu.ram[0x201] = tmp as u8;

    let instruction = cpu.fetch().unwrap();
    let ins = Instruction::decode(instruction).unwrap();
    let _ = cpu.execute(ins);

    assert_eq!(cpu.pc, 0x204);
}

#[test]
fn test_fx07() {
    // LD x, dt
    let mut cpu = Cpu::init();
    let x: u8 = 0x1;
    cpu.dt = 0x25;

    let tmp: u16 = 0xF000 | ((x as u16) << 8) | 0x7;
    cpu.ram[0x200] = (tmp >> 8) as u8;
    cpu.ram[0x201] = tmp as u8;

    let instruction = cpu.fetch().unwrap();
    let ins = Instruction::decode(instruction).unwrap();
    let _ = cpu.execute(ins);

    assert_eq!(cpu.vx[x as usize], cpu.dt);
}

#[test]
fn test_fx0a() {
    // LD x, kp
    let mut cpu = Cpu::init();
    let x: u8 = 0x1;
    let key: u8 = 0x5;
    cpu.kp[key as usize] = true;

    let tmp: u16 = 0xF000 | ((x as u16) << 8) | 0xA;
    cpu.ram[0x200] = (tmp >> 8) as u8;
    cpu.ram[0x201] = tmp as u8;

    let instruction = cpu.fetch().unwrap();
    let ins = Instruction::decode(instruction).unwrap();
    let _ = cpu.execute(ins);

    assert_eq!(cpu.vx[x as usize], key);
}

#[test]
fn test_fx15() {
    // LD dt, x
    let mut cpu = Cpu::init();
    let x: u8 = 0x1;
    cpu.dt = 0x25;

    let tmp: u16 = 0xF000 | ((x as u16) << 8) | 0x15;
    cpu.ram[0x200] = (tmp >> 8) as u8;
    cpu.ram[0x201] = tmp as u8;

    let instruction = cpu.fetch().unwrap();
    let ins = Instruction::decode(instruction).unwrap();
    let _ = cpu.execute(ins);

    assert_eq!(cpu.vx[x as usize], cpu.dt);
}

#[test]
fn test_fx18() {
    // LD st, x
    let mut cpu = Cpu::init();
    let x: u8 = 0x1;
    cpu.st = 0x25;

    let tmp: u16 = 0xF000 | ((x as u16) << 8) | 0x18;
    cpu.ram[0x200] = (tmp >> 8) as u8;
    cpu.ram[0x201] = tmp as u8;

    let instruction = cpu.fetch().unwrap();
    let ins = Instruction::decode(instruction).unwrap();
    let _ = cpu.execute(ins);

    assert_eq!(cpu.vx[x as usize], cpu.st);
}

#[test]
fn test_fx1e() {
    // ADD ir, x
    let mut cpu = Cpu::init();
    let x: u8 = 0x1;
    let initial_ir: u16 = 0xF01E;
    cpu.ir = initial_ir;
    cpu.vx[x as usize] = 0x25;

    let tmp: u16 = 0xF000 | ((x as u16) << 8) | 0x1E;
    cpu.ram[0x200] = (tmp >> 8) as u8;
    cpu.ram[0x201] = tmp as u8;

    let instruction = cpu.fetch().unwrap();
    let ins = Instruction::decode(instruction).unwrap();
    let _ = cpu.execute(ins);

    assert_eq!(cpu.ir, (cpu.vx[x as usize] as u16) + initial_ir);
}

#[test]
fn test_fx29() {
    // LD F, vx
    let mut cpu = Cpu::init();
    let x: u8 = 0x1;
    cpu.vx[x as usize] = 0x25;

    let tmp: u16 = 0xF000 | ((x as u16) << 8) | 0x29;
    cpu.ram[0x200] = (tmp >> 8) as u8;
    cpu.ram[0x201] = tmp as u8;

    let instruction = cpu.fetch().unwrap();
    let ins = Instruction::decode(instruction).unwrap();
    let _ = cpu.execute(ins);

    assert_eq!(cpu.ir, (cpu.vx[x as usize] as u16) * 5);
}

#[test]
fn test_fx33() {
    // LD B, x
    let mut cpu = Cpu::init();
    let x: u8 = 0x1;
    cpu.vx[x as usize] = 137;
    cpu.ir = 0x250;

    let tmp: u16 = 0xF000 | ((x as u16) << 8) | 0x33;
    cpu.ram[0x200] = (tmp >> 8) as u8;
    cpu.ram[0x201] = tmp as u8;

    let instruction = cpu.fetch().unwrap();
    let ins = Instruction::decode(instruction).unwrap();
    let _ = cpu.execute(ins);

    assert_eq!(cpu.ram[cpu.ir as usize], 1);
    assert_eq!(cpu.ram[(cpu.ir + 1) as usize], 3);
    assert_eq!(cpu.ram[(cpu.ir + 2) as usize], 7);
}

#[test]
fn test_fx55() {
    // LD [ir], x
    let mut cpu = Cpu::init();
    let x: u8 = 0x5;
    for i in 0..x {
        cpu.vx[i as usize] = i * 16;
    }

    let tmp: u16 = 0xF000 | ((x as u16) << 8) | 0x55;
    cpu.ram[0x200] = (tmp >> 8) as u8;
    cpu.ram[0x201] = tmp as u8;

    let instruction = cpu.fetch().unwrap();
    let ins = Instruction::decode(instruction).unwrap();
    let _ = cpu.execute(ins);

    assert_eq!(
        cpu.ram[(cpu.ir as usize)..=((cpu.ir + (x as u16)) as usize)],
        cpu.vx[0..=(x as usize)]
    );
}

#[test]
fn test_fx65() {
    // LD x, [ir]
    let mut cpu = Cpu::init();
    let x: u8 = 0x5;
    cpu.ir = 0x250;
    for i in 0..x {
        cpu.ram[(cpu.ir as usize) + (i as usize)] = i * 16;
    }

    let tmp: u16 = 0xF000 | ((x as u16) << 8) | 0x65;
    cpu.ram[0x200] = (tmp >> 8) as u8;
    cpu.ram[0x201] = tmp as u8;

    let instruction = cpu.fetch().unwrap();
    let ins = Instruction::decode(instruction).unwrap();
    let _ = cpu.execute(ins);

    assert_eq!(
        cpu.ram[(cpu.ir as usize)..=((cpu.ir + (x as u16)) as usize)],
        cpu.vx[0..=(x as usize)]
    );
}
