//! The bus of the machine: one 64 KiB address space in which the firmware
//! shadows the memory below its own length, and an 8-bit port space with the
//! console on two of its ports.
//!
//! The console is a pair of byte queues. Keys typed at the terminal are fed
//! into one; characters the program emits collect in the other until the
//! owner takes them.

use vstd::prelude::*;

verus! {

/// Entry address of the firmware's floppy routine.
pub const FLOPPY_HANDLER: u16 = 0x0780;

/// Scratch bytes of the firmware that hold the link pointers and the CRC of
/// the last sector transferred.
pub const FLOPPY_POINTERS: u16 = 0x12b4;

/// Bytes of the address space.
pub const MEMORY_SIZE: usize = 65536;

/// Port of the baud rate jumpers.
pub const PORT_SWITCH: u8 = 0xdd;

/// Data port of the console.
pub const PORT_SERDAT: u8 = 0xde;

/// Control and status port of the console.
pub const PORT_SERCON: u8 = 0xdf;

/// Port of the fourth timer channel.
pub const PORT_CLK3: u8 = 0xd7;

/// What the baud rate jumpers read: 4800 baud.
pub const SWITCH_4800_BAUD: u8 = 10;

/// Status bit of the console: the transmitter is ready. Always set.
pub const STATUS_TX_READY: u8 = 1;

/// Status bit of the console: a character waits to be read.
pub const STATUS_RX_READY: u8 = 2;

/// What a port with no device behind it reads.
pub const UNMAPPED_PORT: u8 = 0xbb;

/// What the bus returns at an address: firmware below the firmware's length,
/// memory from there on.
pub open spec fn bus_read(rom: Seq<u8>, ram: Seq<u8>, address: int) -> u8 {
    if address < rom.len() {
        rom[address]
    } else {
        ram[address]
    }
}

/// An address reduced to sixteen bits: address arithmetic wraps at 64 KiB.
pub open spec fn wrap16(address: int) -> int {
    address % 0x10000
}

/// The little-endian word the bus returns at an address.
pub open spec fn bus_read16(rom: Seq<u8>, ram: Seq<u8>, address: int) -> int {
    bus_read(rom, ram, address) + 256 * bus_read(rom, ram, wrap16(address + 1))
}

/// The device a port address selects: its low eight bits.
pub open spec fn port_of(address: u16) -> u8 {
    (address % 256) as u8
}

/// What the machine holds.
pub struct MachineState {
    /// Firmware image.
    pub rom: Seq<u8>,
    /// Memory behind the whole address space.
    pub ram: Seq<u8>,
    /// Keys fed in and not yet read, oldest first.
    pub keys: Seq<u8>,
    /// Characters emitted and not yet taken, oldest first.
    pub output: Seq<u8>,
    /// Whether port traffic is to be traced.
    pub trace_io: bool,
}

/// The machine: firmware, memory and console.
pub struct PdsMachine {
    rom: Vec<u8>,
    ram: Vec<u8>,
    trace_io: bool,
    keys: Vec<u8>,
    output: Vec<u8>,
}

impl View for PdsMachine {
    type V = MachineState;

    /// What the machine holds.
    closed spec fn view(&self) -> MachineState {
        MachineState {
            rom: self.rom@,
            ram: self.ram@,
            keys: self.keys@,
            output: self.output@,
            trace_io: self.trace_io,
        }
    }
}

impl PdsMachine {
    /// The memory spans the whole address space.
    pub open spec fn wf(&self) -> bool {
        self@.ram.len() == 65536
    }

    /// What a read of `address` returns.
    pub open spec fn read(&self, address: u16) -> u8 {
        bus_read(self@.rom, self@.ram, address as int)
    }

    /// What a read of the word at `address` returns.
    pub open spec fn read16(&self, address: u16) -> int {
        bus_read16(self@.rom, self@.ram, address as int)
    }

    /// A machine with the given firmware, zeroed memory and an idle console.
    pub fn new(rom: Vec<u8>, trace_io: bool) -> (machine: PdsMachine)
        ensures
            machine.wf(),
            machine@ == (MachineState {
                rom: rom@,
                ram: Seq::new(65536, |i: int| 0u8),
                keys: Seq::empty(),
                output: Seq::empty(),
                trace_io,
            }),
    {
        let ram: Vec<u8> = vec![0u8; MEMORY_SIZE];
        assert(ram@ =~= Seq::new(65536, |i: int| 0u8));
        PdsMachine { rom, ram, trace_io, keys: Vec::new(), output: Vec::new() }
    }

    /// Whether a key waits to be read.
    pub fn is_key_ready(&self) -> (ready: bool)
        ensures
            ready == (self@.keys.len() > 0),
    {
        self.keys.len() > 0
    }

    /// Takes the oldest key that waits.
    pub fn get_key(&mut self) -> (key: u8)
        requires
            old(self)@.keys.len() > 0,
        ensures
            key == old(self)@.keys[0],
            final(self)@ == (MachineState { keys: old(self)@.keys.drop_first(), ..old(self)@ }),
    {
        let key: u8 = self.keys.remove(0);
        assert(self.keys@ =~= old(self)@.keys.drop_first());
        key
    }

    /// Emits a character to the console.
    pub fn put_char(&mut self, ch: u8)
        ensures
            final(self)@ == (MachineState { output: old(self)@.output.push(ch), ..old(self)@ }),
    {
        self.output.push(ch);
    }

    /// Enters a key typed at the terminal behind those that already wait.
    pub fn feed_key(&mut self, key: u8)
        ensures
            final(self)@ == (MachineState { keys: old(self)@.keys.push(key), ..old(self)@ }),
    {
        self.keys.push(key);
    }

    /// Hands out the characters emitted since the last call, oldest first.
    pub fn take_output(&mut self) -> (emitted: Vec<u8>)
        ensures
            emitted@ == old(self)@.output,
            final(self)@ == (MachineState { output: Seq::empty(), ..old(self)@ }),
    {
        let mut emitted: Vec<u8> = Vec::new();
        core::mem::swap(&mut self.output, &mut emitted);
        emitted
    }

    /// Reads the byte at an address.
    pub fn peek(&self, address: u16) -> (value: u8)
        requires
            self.wf(),
        ensures
            value == self.read(address),
    {
        let a: usize = address as usize;
        if a < self.rom.len() {
            self.rom[a]
        } else {
            self.ram[a]
        }
    }

    /// Writes a byte to memory. Below the firmware's length the write lands
    /// in the shadowed memory and no read will show it.
    pub fn poke(&mut self, address: u16, value: u8)
        requires
            old(self).wf(),
        ensures
            final(self).wf(),
            final(self)@ == (MachineState {
                ram: old(self)@.ram.update(address as int, value),
                ..old(self)@
            }),
    {
        self.ram[address as usize] = value;
    }

    /// Reads the little-endian word at an address. The high byte is taken
    /// from the next address, which wraps at the top of the address space.
    pub fn peek16(&self, address: u16) -> (value: u16)
        requires
            self.wf(),
        ensures
            value == self.read16(address),
    {
        let lo: u8 = self.peek(address);
        let hi: u8 = self.peek(address.wrapping_add(1));
        let high: u16 = (hi as u16) << 8;
        assert(high == 256 * (hi as u16)) by (bit_vector)
            requires
                high == (hi as u16) << 8,
        ;
        lo as u16 + high
    }

    /// Whether a write to the port is to be traced: tracing is on and the
    /// port is not the console's data port.
    pub fn traces_out(&self, address: u16) -> (traced: bool)
        ensures
            traced == (self@.trace_io && port_of(address) != 0xde),
    {
        self.trace_io && port_number(address) != PORT_SERDAT
    }

    /// Whether a read of the port is to be traced: tracing is on and the port
    /// is not the console's status port.
    pub fn traces_in(&self, address: u16) -> (traced: bool)
        ensures
            traced == (self@.trace_io && port_of(address) != 0xdf),
    {
        self.trace_io && port_number(address) != PORT_SERCON
    }

    /// Writes a byte to a port. The console's data port emits it as a
    /// character; every other port ignores it.
    pub fn port_out(&mut self, address: u16, value: u8)
        ensures
            final(self)@ == port_out_state(old(self)@, address, value),
    {
        let port: u8 = port_number(address);
        if port == PORT_SERDAT {
            self.put_char(value);
        }
    }

    /// Reads a byte from a port. Reading the console's data port consumes the
    /// oldest key, so one must wait there.
    pub fn port_in(&mut self, address: u16) -> (value: u8)
        requires
            port_of(address) == 0xde ==> old(self)@.keys.len() > 0,
        ensures
            value == port_in_value(old(self)@, address),
            final(self)@ == port_in_state(old(self)@, address),
    {
        let port: u8 = port_number(address);
        if port == PORT_SWITCH {
            SWITCH_4800_BAUD
        } else if port == PORT_SERDAT {
            self.get_key()
        } else if port == PORT_SERCON {
            if self.is_key_ready() {
                assert(1u8 | 2u8 == 3u8) by (bit_vector);
                STATUS_TX_READY | STATUS_RX_READY
            } else {
                STATUS_TX_READY
            }
        } else if port == PORT_CLK3 {
            0xff
        } else {
            UNMAPPED_PORT
        }
    }
}

/// The machine after a write of `value` to a port.
pub open spec fn port_out_state(before: MachineState, address: u16, value: u8) -> MachineState {
    if port_of(address) == 0xde {
        MachineState { output: before.output.push(value), ..before }
    } else {
        before
    }
}

/// What a read of a port returns.
pub open spec fn port_in_value(before: MachineState, address: u16) -> u8 {
    let port = port_of(address);
    if port == 0xdd {
        10
    } else if port == 0xde {
        before.keys[0]
    } else if port == 0xdf {
        if before.keys.len() > 0 {
            3
        } else {
            1
        }
    } else if port == 0xd7 {
        0xff
    } else {
        0xbb
    }
}

/// The machine after a read of a port.
pub open spec fn port_in_state(before: MachineState, address: u16) -> MachineState {
    if port_of(address) == 0xde {
        MachineState { keys: before.keys.drop_first(), ..before }
    } else {
        before
    }
}

/// The device a port address selects.
pub fn port_number(address: u16) -> (port: u8)
    ensures
        port == port_of(address),
{
    let low: u16 = address & 0xff;
    assert(low == address % 256) by (bit_vector)
        requires
            low == address & 0xff,
    ;
    low as u8
}

/// The name of a port as the hardware manual has it.
pub open spec fn port_label(port: u8) -> Seq<char> {
    if port == 0xcf {
        "DSKDAT"@
    } else if port == 0xd0 {
        "DSKCOM/DSSTAT"@
    } else if port == 0xd1 {
        "DSKSEL"@
    } else if port == 0xd2 {
        "DSKCOM1"@
    } else if port == 0xd3 {
        "DSKSEL1"@
    } else if port == 0xd4 {
        "CLK0"@
    } else if port == 0xd5 {
        "CLK1"@
    } else if port == 0xd6 {
        "CLK2"@
    } else if port == 0xd7 {
        "CLK3"@
    } else if port == 0xdd {
        "SWITCH"@
    } else if port == 0xde {
        "SERDAT"@
    } else if port == 0xdf {
        "SERCON"@
    } else {
        "unknown"@
    }
}

/// Names a port: the disk controller's, the timer channels, the jumpers and
/// the console's two; any other is "unknown".
pub fn port_name(port: u8) -> (name: &'static str)
    ensures
        name@ == port_label(port),
{
    match port {
        0xCF => "DSKDAT",
        0xD0 => "DSKCOM/DSSTAT",
        0xD1 => "DSKSEL",
        0xD2 => "DSKCOM1",
        0xD3 => "DSKSEL1",
        0xD4 => "CLK0",
        0xD5 => "CLK1",
        0xD6 => "CLK2",
        0xD7 => "CLK3",
        0xDD => "SWITCH",
        0xDE => "SERDAT",
        0xDF => "SERCON",
        _ => "unknown",
    }
}

} // verus!
