use iz80::Cpu;
use iz80::Machine;
use iz80::PlainMachine;
use iz80::Reg16;
use izilogmcz::floppy::HeaderPolicy;
use izilogmcz::media::Media;
use izilogmcz::pds_machine::PdsMachine;
use izilogmcz::scheduler::Registers;
use izilogmcz::scheduler::Scheduler;
use izilogmcz::step::before_step;

const DESCRIPTOR: u16 = 0x2000;
const TARGET: u16 = 0x3000;
const FLAG: u16 = 0x4000;

struct Wired {
    machine: PdsMachine,
}

impl Machine for Wired {
    fn peek(&mut self, address: u16) -> u8 {
        self.machine.peek(address)
    }

    fn poke(&mut self, address: u16, value: u8) {
        self.machine.poke(address, value);
    }

    fn port_in(&mut self, address: u16) -> u8 {
        if address & 0xff == 0xde && !self.machine.is_key_ready() {
            self.machine.feed_key(b'\r');
        }
        self.machine.port_in(address)
    }

    fn port_out(&mut self, address: u16, value: u8) {
        self.machine.port_out(address, value);
    }
}

fn firmware(main: &[u8]) -> Vec<u8> {
    let mut rom = vec![0u8; 0x0798];
    rom[..main.len()].copy_from_slice(main);
    // Completion routine: LD A,1 / LD (FLAG),A / RET
    rom[0x0100..0x0106].copy_from_slice(&[0x3e, 0x01, 0x32, 0x00, 0x40, 0xc9]);
    // Error routine: LD A,2 / LD (FLAG),A / RET
    rom[0x0200..0x0206].copy_from_slice(&[0x3e, 0x02, 0x32, 0x00, 0x40, 0xc9]);
    // The body of the floppy routine must never run: it would halt.
    for address in 0x0780..0x0797 {
        rom[address] = 0x76;
    }
    rom[0x0797] = 0xc9;
    rom
}

fn patterned_drive() -> Media {
    let mut bytes = Vec::with_capacity(335_104);
    for track in 0..77usize {
        for sector in 0..32usize {
            bytes.push(sector as u8 | 0x80);
            bytes.push(track as u8);
            for j in 0..128usize {
                bytes.push(((track + sector + j) % 256) as u8);
            }
            bytes.extend_from_slice(&[1, 2, 3, 4, 5, 6]);
        }
    }
    Media::new_from_bytes(&bytes).unwrap()
}

fn describe(machine: &mut PdsMachine, code: u8, volume: u8, sector: u8, track: u8) {
    machine.poke(DESCRIPTOR + 1, code);
    machine.poke(DESCRIPTOR + 2, TARGET as u8);
    machine.poke(DESCRIPTOR + 3, (TARGET >> 8) as u8);
    machine.poke(DESCRIPTOR + 4, 128);
    machine.poke(DESCRIPTOR + 5, 0);
    machine.poke(DESCRIPTOR + 6, 0x00);
    machine.poke(DESCRIPTOR + 7, 0x01);
    machine.poke(DESCRIPTOR + 8, 0x00);
    machine.poke(DESCRIPTOR + 9, 0x02);
    machine.poke(DESCRIPTOR + 11, (volume << 5) | sector);
    machine.poke(DESCRIPTOR + 12, track);
}

/// Steps the processor until it halts. Returns, for every step at which the
/// peripherals changed the program counter, the step's number and the new
/// program counter.
fn run(wired: &mut Wired, drives: &mut Vec<Media>, limit: usize) -> (Cpu, Vec<(usize, u16)>) {
    let mut cpu = Cpu::new_z80();
    let mut scheduler = Scheduler::new();
    let mut redirected = Vec::new();
    for step in 0..limit {
        let regs = Registers {
            pc: cpu.registers().pc(),
            sp: cpu.registers().get16(Reg16::SP),
            iy: cpu.registers().get16(Reg16::IY),
        };
        let after =
            before_step(&mut wired.machine, drives, &mut scheduler, HeaderPolicy::Strict, regs)
                .unwrap();
        if after.pc != regs.pc {
            redirected.push((step, after.pc));
        }
        cpu.registers().set16(Reg16::SP, after.sp);
        cpu.registers().set_pc(after.pc);
        cpu.execute_instruction(wired);
        if cpu.is_halted() {
            return (cpu, redirected);
        }
    }
    panic!("the program did not halt within {} steps", limit);
}

#[test]
fn word_reads_agree_with_the_processor_library() {
    let mut ours = PdsMachine::new(Vec::new(), false);
    let mut theirs = PlainMachine::new();
    for (address, value) in [(0x0000u16, 0x12u8), (0x0001, 0x34), (0x7fff, 0x56), (0x8000, 0x78), (0xffff, 0x9a)] {
        ours.poke(address, value);
        theirs.poke(address, value);
    }
    for address in [0x0000u16, 0x0001, 0x7ffe, 0x7fff, 0x8000, 0xfffe, 0xffff] {
        assert_eq!(ours.peek16(address), theirs.peek16(address));
    }
    assert_eq!(ours.peek16(0xffff), 0x129a);
}

#[test]
fn synchronous_request_is_served_in_place_of_the_routine() {
    // LD SP,9000 / LD IY,2000 / CALL 0780 / HALT
    let main = [0x31, 0x00, 0x90, 0xfd, 0x21, 0x00, 0x20, 0xcd, 0x80, 0x07, 0x76];
    let mut wired = Wired { machine: PdsMachine::new(firmware(&main), false) };
    let mut drives = vec![patterned_drive()];
    describe(&mut wired.machine, 0x0a, 0, 4, 2);
    let (mut cpu, redirected) = run(&mut wired, &mut drives, 100);
    assert_eq!(redirected, vec![(3, 0x0797)]);
    assert_eq!(cpu.registers().get16(Reg16::SP), 0x9000);
    assert_eq!(wired.machine.peek(DESCRIPTOR + 10), 0x80);
    for j in 0..128u16 {
        assert_eq!(wired.machine.peek(TARGET + j), (2 + 4 + j) as u8);
    }
    assert_eq!(wired.machine.peek(0x12b4), 1);
    assert_eq!(wired.machine.peek(0x12b9), 6);
    assert_eq!(wired.machine.peek(FLAG), 0);
}

#[test]
fn asynchronous_request_calls_its_completion_routine_after_the_delay() {
    // LD SP,9000 / LD IY,2000 / CALL 0780 / LD A,(4000) / OR A / JR Z,-6 / HALT
    let main = [
        0x31, 0x00, 0x90, 0xfd, 0x21, 0x00, 0x20, 0xcd, 0x80, 0x07, 0x3a, 0x00, 0x40, 0xb7, 0x28,
        0xfa, 0x76,
    ];
    let mut wired = Wired { machine: PdsMachine::new(firmware(&main), false) };
    let mut drives = vec![patterned_drive()];
    describe(&mut wired.machine, 0x0b, 0, 0, 0);
    let (mut cpu, redirected) = run(&mut wired, &mut drives, 20_000);
    assert_eq!(redirected, vec![(3, 0x0797), (10_003, 0x0100)]);
    assert_eq!(wired.machine.peek(FLAG), 1);
    assert_eq!(wired.machine.peek(DESCRIPTOR + 10), 0x80);
    assert_eq!(wired.machine.peek(TARGET + 5), 5);
    assert_eq!(cpu.registers().get16(Reg16::SP), 0x9000);
}

#[test]
fn asynchronous_failure_calls_its_error_routine_after_the_delay() {
    let main = [
        0x31, 0x00, 0x90, 0xfd, 0x21, 0x00, 0x20, 0xcd, 0x80, 0x07, 0x3a, 0x00, 0x40, 0xb7, 0x28,
        0xfa, 0x76,
    ];
    let mut wired = Wired { machine: PdsMachine::new(firmware(&main), false) };
    let mut drives = vec![patterned_drive()];
    describe(&mut wired.machine, 0x0f, 1, 0, 0);
    let (_, redirected) = run(&mut wired, &mut drives, 20_000);
    assert_eq!(redirected, vec![(3, 0x0797), (10_003, 0x0200)]);
    assert_eq!(wired.machine.peek(FLAG), 2);
    assert_eq!(wired.machine.peek(DESCRIPTOR + 10), 0xc2);
}

#[test]
fn program_reads_a_key_and_echoes_it() {
    // IN A,(DF) / AND 2 / JR Z,-6 / IN A,(DE) / OUT (DE),A / HALT
    let main = [0xdb, 0xdf, 0xe6, 0x02, 0x28, 0xfa, 0xdb, 0xde, 0xd3, 0xde, 0x76];
    let mut wired = Wired { machine: PdsMachine::new(firmware(&main), false) };
    let mut drives: Vec<Media> = Vec::new();
    wired.machine.feed_key(b'Z');
    let (_, redirected) = run(&mut wired, &mut drives, 100);
    assert!(redirected.is_empty());
    assert_eq!(wired.machine.take_output(), vec![b'Z']);
    assert!(!wired.machine.is_key_ready());
}
