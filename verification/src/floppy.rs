//! The floppy disk controller.
//!
//! The firmware describes a transfer in a block of memory and calls the
//! controller with the block's address. The controller moves whole sectors
//! between the selected disk and memory, writes a completion code into the
//! block, and says where an asynchronous request is to resume.

use vstd::prelude::*;
use crate::media::Geometry;
use crate::media::Media;
use crate::media::MediaError;
use crate::media::put_record;
use crate::pds_machine::bus_read;
use crate::pds_machine::bus_read16;
use crate::pds_machine::wrap16;
use crate::pds_machine::MachineState;
use crate::pds_machine::PdsMachine;
use crate::pds_machine::FLOPPY_POINTERS;

verus! {

/// Request code: read, completing before the call returns.
pub const RBDIN_SYNC: u8 = 0x0a;

/// Request code: read, completing later.
pub const RBDIN_ASYNC: u8 = 0x0b;

/// Request code: write, completing before the call returns.
pub const WRTBIN_SYNC: u8 = 0x0e;

/// Request code: write, completing later.
pub const WRTBIN_ASYNC: u8 = 0x0f;

/// Completion code: the transfer was made.
pub const COMPLETION_NORMAL: u8 = 0x80;

/// Completion code: the request code names no operation.
pub const COMPLETION_INVALID_REQUEST: u8 = 0xc1;

/// Completion code: the volume names no drive.
pub const COMPLETION_NOT_READY: u8 = 0xc2;

/// Completion code: the disk is write-protected. Reserved: no image carries a
/// write-protect flag, so the controller never reports it.
pub const COMPLETION_WRITE_PROTECTED: u8 = 0xc3;

/// Offset of the request code in the descriptor.
pub const OFFSET_REQUEST: u16 = 1;

/// Offset of the data address in the descriptor.
pub const OFFSET_DATA_ADDRESS: u16 = 2;

/// Offset of the data length in the descriptor.
pub const OFFSET_DATA_LENGTH: u16 = 4;

/// Offset of the completion address in the descriptor.
pub const OFFSET_COMPLETION_ADDRESS: u16 = 6;

/// Offset of the error address in the descriptor.
pub const OFFSET_ERROR_ADDRESS: u16 = 8;

/// Offset of the completion code in the descriptor.
pub const OFFSET_COMPLETION_CODE: u16 = 10;

/// Offset of the volume and sector byte in the descriptor.
pub const OFFSET_VOLUME_SECTOR: u16 = 11;

/// Offset of the track in the descriptor.
pub const OFFSET_TRACK: u16 = 12;

/// The operations the controller knows, and one for every other code.
#[derive(Clone, Copy, Debug, PartialEq, Eq, Structural)]
pub enum RequestKind {
    ReadSync,
    ReadAsync,
    WriteSync,
    WriteAsync,
    Unknown,
}

impl RequestKind {
    /// The operation reads from the disk.
    pub open spec fn reads(self) -> bool {
        self == RequestKind::ReadSync || self == RequestKind::ReadAsync
    }

    /// The operation writes to the disk.
    pub open spec fn writes(self) -> bool {
        self == RequestKind::WriteSync || self == RequestKind::WriteAsync
    }

    /// The operation completes after the call has returned.
    pub open spec fn deferred(self) -> bool {
        self == RequestKind::ReadAsync || self == RequestKind::WriteAsync
    }
}

/// The operation a request code names.
pub open spec fn kind_of(code: u8) -> RequestKind {
    if code == 0x0a {
        RequestKind::ReadSync
    } else if code == 0x0b {
        RequestKind::ReadAsync
    } else if code == 0x0e {
        RequestKind::WriteSync
    } else if code == 0x0f {
        RequestKind::WriteAsync
    } else {
        RequestKind::Unknown
    }
}

/// Names the operation of a request code.
pub fn classify(code: u8) -> (kind: RequestKind)
    ensures
        kind == kind_of(code),
{
    if code == RBDIN_SYNC {
        RequestKind::ReadSync
    } else if code == RBDIN_ASYNC {
        RequestKind::ReadAsync
    } else if code == WRTBIN_SYNC {
        RequestKind::WriteSync
    } else if code == WRTBIN_ASYNC {
        RequestKind::WriteAsync
    } else {
        RequestKind::Unknown
    }
}

/// A request descriptor as the firmware laid it out in memory.
#[derive(Clone, Copy, Debug, PartialEq, Eq, Structural)]
pub struct Request {
    /// Request code.
    pub code: u8,
    /// First address of the transfer buffer.
    pub data_address: u16,
    /// Bytes asked for.
    pub data_length: u16,
    /// Where an asynchronous request resumes after success.
    pub completion_address: u16,
    /// Where an asynchronous request resumes after failure.
    pub error_address: u16,
    /// Index of the drive: the high three bits of the volume and sector byte.
    pub volume: u8,
    /// First sector: the low five bits of the volume and sector byte.
    pub sector: u8,
    /// Track of the transfer.
    pub track: u8,
}

/// The descriptor that memory holds at `base`.
pub open spec fn request_at(rom: Seq<u8>, ram: Seq<u8>, base: u16) -> Request {
    let volume_sector = bus_read(rom, ram, wrap16(base + 11));
    Request {
        code: bus_read(rom, ram, wrap16(base + 1)),
        data_address: bus_read16(rom, ram, wrap16(base + 2)) as u16,
        data_length: bus_read16(rom, ram, wrap16(base + 4)) as u16,
        completion_address: bus_read16(rom, ram, wrap16(base + 6)) as u16,
        error_address: bus_read16(rom, ram, wrap16(base + 8)) as u16,
        volume: volume_sector / 32,
        sector: volume_sector % 32,
        track: bus_read(rom, ram, wrap16(base + 12)),
    }
}

/// Whole sectors that cover `length` bytes.
pub open spec fn sectors_for(length: int) -> int {
    (length + 127) / 128
}

/// Reads the byte of the descriptor at `base` that lies `offset` bytes in.
fn field8(machine: &PdsMachine, base: u16, offset: u16) -> (value: u8)
    requires
        machine.wf(),
    ensures
        value == bus_read(machine@.rom, machine@.ram, wrap16(base + offset)),
{
    machine.peek(base.wrapping_add(offset))
}

/// Reads the word of the descriptor at `base` that lies `offset` bytes in.
fn field16(machine: &PdsMachine, base: u16, offset: u16) -> (value: u16)
    requires
        machine.wf(),
    ensures
        value == bus_read16(machine@.rom, machine@.ram, wrap16(base + offset)),
{
    machine.peek16(base.wrapping_add(offset))
}

/// Reads the descriptor at `iy`.
pub fn read_request(machine: &PdsMachine, iy: u16) -> (request: Request)
    requires
        machine.wf(),
    ensures
        request == request_at(machine@.rom, machine@.ram, iy),
        request.volume < 8,
        request.sector < 32,
{
    let code: u8 = field8(machine, iy, OFFSET_REQUEST);
    let data_address: u16 = field16(machine, iy, OFFSET_DATA_ADDRESS);
    let data_length: u16 = field16(machine, iy, OFFSET_DATA_LENGTH);
    let completion_address: u16 = field16(machine, iy, OFFSET_COMPLETION_ADDRESS);
    let error_address: u16 = field16(machine, iy, OFFSET_ERROR_ADDRESS);
    let volume_sector: u8 = field8(machine, iy, OFFSET_VOLUME_SECTOR);
    let track: u8 = field8(machine, iy, OFFSET_TRACK);
    let volume: u8 = volume_sector >> 5;
    let sector: u8 = volume_sector & 0x1f;
    assert(volume == volume_sector / 32 && sector == volume_sector % 32) by (bit_vector)
        requires
            volume == volume_sector >> 5,
            sector == volume_sector & 0x1f,
    ;
    Request {
        code,
        data_address,
        data_length,
        completion_address,
        error_address,
        volume,
        sector,
        track,
    }
}

/// Counts the whole sectors that cover `length` bytes.
pub fn sector_count(length: u16) -> (sectors: usize)
    ensures
        sectors == sectors_for(length as int),
        sectors * 128 >= length,
        sectors * 128 < length + 128,
        sectors <= 512,
{
    let padded: usize = length as usize + 127;
    padded / 128
}

/// Memory after `bytes` were stored one by one from `address` on, each
/// address reduced to sixteen bits.
pub open spec fn store_bytes(ram: Seq<u8>, address: int, bytes: Seq<u8>) -> Seq<u8>
    decreases bytes.len(),
{
    if bytes.len() == 0 {
        ram
    } else {
        store_bytes(ram, address, bytes.drop_last()).update(
            wrap16(address + bytes.len() - 1),
            bytes.last(),
        )
    }
}

/// Memory after a record was delivered: its payload at `address`, then its
/// trailer in the firmware's scratch bytes. An empty record is no data and
/// leaves memory as it was.
pub open spec fn store_record(ram: Seq<u8>, address: int, record: Seq<u8>) -> Seq<u8> {
    if record.len() == 0 {
        ram
    } else {
        store_bytes(
            store_bytes(ram, address, record.subrange(2, 130)),
            0x12b4,
            record.subrange(130, 136),
        )
    }
}

/// The bytes that the bus returns at `count` addresses from `address` on.
pub open spec fn load_bytes(rom: Seq<u8>, ram: Seq<u8>, address: int, count: nat) -> Seq<u8> {
    Seq::new(count, |j: int| bus_read(rom, ram, wrap16(address + j)))
}

/// The first header byte of a record written for `sector`: the low five bits
/// of the sector number, and its high bit kept as it is.
pub open spec fn header_byte(sector: u8) -> u8 {
    (sector % 32 + (sector / 128) * 128) as u8
}

/// The record that a write assembles: sector, track, the payload found at
/// `address`, and the trailer found in the firmware's scratch bytes.
pub open spec fn build_record(
    rom: Seq<u8>,
    ram: Seq<u8>,
    address: int,
    sector: u8,
    track: u8,
) -> Seq<u8> {
    seq![header_byte(sector), track] + load_bytes(rom, ram, address, 128) + load_bytes(
        rom,
        ram,
        0x12b4,
        6,
    )
}

/// Stores `bytes[from..to]` in memory from `address` on.
fn store_range(machine: &mut PdsMachine, address: u16, bytes: &[u8], from: usize, to: usize)
    requires
        old(machine).wf(),
        from <= to <= bytes@.len(),
        to - from <= 0x10000,
    ensures
        final(machine).wf(),
        final(machine)@ == (MachineState {
            ram: store_bytes(old(machine)@.ram, address as int, bytes@.subrange(from as int, to as int)),
            ..old(machine)@
        }),
{
    let count: usize = to - from;
    let mut i: usize = 0;
    while i < count
        invariant
            0 <= i <= count,
            count == to - from,
            from <= to <= bytes@.len(),
            count <= 0x10000,
            machine.wf(),
            machine@ == (MachineState {
                ram: store_bytes(
                    old(machine)@.ram,
                    address as int,
                    bytes@.subrange(from as int, from + i),
                ),
                ..old(machine)@
            }),
        decreases count - i,
    {
        let step: u16 = (i % 0x10000) as u16;
        machine.poke(address.wrapping_add(step), bytes[from + i]);
        proof {
            let next = bytes@.subrange(from as int, from + i + 1);
            assert(next.drop_last() =~= bytes@.subrange(from as int, from + i));
            assert(next.last() == bytes@[from + i]);
            assert(wrap16(address + next.len() - 1) == address.wrapping_add(step) as int);
        }
        i = i + 1;
    }
}

/// Delivers one sector to memory: the payload at `address`, the trailer in
/// the firmware's scratch bytes. Coordinates outside the disk deliver
/// nothing.
pub fn read_disk_sector(
    machine: &mut PdsMachine,
    media: &Media,
    address: u16,
    sector: u8,
    track: u8,
)
    requires
        old(machine).wf(),
        media.wf(),
        media.geometry() == Geometry::spec_standard(),
    ensures
        final(machine).wf(),
        final(machine)@ == (MachineState {
            ram: store_record(
                old(machine)@.ram,
                address as int,
                media.record(track as int, sector as int),
            ),
            ..old(machine)@
        }),
{
    let data: &[u8] = media.read_sector(track as usize, sector as usize);
    if data.len() == 0 {
        return ;
    }
    store_range(machine, address, data, 2, 130);
    store_range(machine, FLOPPY_POINTERS, data, 130, 136);
}

/// Appends to `record` the bytes that the bus returns at `count` addresses
/// from `address` on.
fn load_range(machine: &PdsMachine, address: u16, count: usize, record: &mut Vec<u8>)
    requires
        machine.wf(),
        count <= 0x10000,
    ensures
        final(record)@ == old(record)@ + load_bytes(
            machine@.rom,
            machine@.ram,
            address as int,
            count as nat,
        ),
{
    let mut i: usize = 0;
    while i < count
        invariant
            0 <= i <= count,
            count <= 0x10000,
            machine.wf(),
            record@ == old(record)@ + load_bytes(
                machine@.rom,
                machine@.ram,
                address as int,
                i as nat,
            ),
        decreases count - i,
    {
        let step: u16 = (i % 0x10000) as u16;
        let value: u8 = machine.peek(address.wrapping_add(step));
        record.push(value);
        i = i + 1;
        assert(record@ =~= old(record)@ + load_bytes(
            machine@.rom,
            machine@.ram,
            address as int,
            i as nat,
        ));
    }
}

/// Assembles a record from memory and writes it to the disk. The write is
/// refused where the coordinates are outside the disk.
pub fn write_disk_sector(
    machine: &PdsMachine,
    media: &mut Media,
    address: u16,
    sector: u8,
    track: u8,
) -> (r: Result<(), MediaError>)
    requires
        machine.wf(),
        old(media).wf(),
        old(media).geometry() == Geometry::spec_standard(),
    ensures
        final(media).wf(),
        final(media).geometry() == old(media).geometry(),
        final(media).backed() == old(media).backed(),
        match r {
            Ok(()) => {
                &&& old(media).geometry().holds(track as int, sector as int)
                &&& final(media)@ == put_record(
                    old(media)@,
                    old(media).geometry().offset(track as int, sector as int),
                    build_record(machine@.rom, machine@.ram, address as int, sector, track),
                )
                &&& final(media).dirty() == if old(media).backed() {
                    old(media).dirty().push(
                        old(media).geometry().offset(track as int, sector as int) as usize,
                    )
                } else {
                    old(media).dirty()
                }
            },
            Err(e) => {
                &&& !old(media).geometry().holds(track as int, sector as int)
                &&& e == MediaError::InvalidCoordinates {
                    track: track as usize,
                    sector: sector as usize,
                }
                &&& final(media)@ == old(media)@
                &&& final(media).dirty() == old(media).dirty()
            },
        },
{
    let low: u8 = sector & 0x1f;
    let high: u8 = sector & 0x80;
    let first: u8 = low | high;
    assert(first == header_byte(sector)) by {
        assert(first == sector % 32 + (sector / 128) * 128) by (bit_vector)
            requires
                first == (sector & 0x1f) | (sector & 0x80),
        ;
    }
    let mut record: Vec<u8> = Vec::new();
    record.push(first);
    record.push(track);
    load_range(machine, address, 128, &mut record);
    load_range(machine, FLOPPY_POINTERS, 6, &mut record);
    assert(record@ =~= build_record(machine@.rom, machine@.ram, address as int, sector, track));
    media.write_sector(track as usize, sector as usize, record.as_slice())
}

/// How a mismatch between the coordinates asked for and the header of the
/// record found there is treated.
#[derive(Clone, Copy, Debug, PartialEq, Eq, Structural)]
pub enum HeaderPolicy {
    /// Headers are not looked at.
    Advisory,
    /// A read of a record whose header names another sector or track is a
    /// fault.
    Strict,
}

/// Violations of the contract between firmware and controller. None of them
/// is reported to the firmware: the emulation cannot go on.
#[derive(Clone, Copy, Debug, PartialEq, Eq, Structural)]
pub enum Fault {
    /// The sectors asked for run past the end of the track.
    TrackOverrun,
    /// A write names a track outside the disk.
    WriteOutOfRange,
    /// Under the strict policy, a record to be read carries the header of
    /// another sector or track.
    HeaderMismatch,
    /// An asynchronous completion was still pending when a request arrived or
    /// another completion was to be armed.
    CompletionPending,
}

/// How a request ended.
#[derive(Clone, Copy, Debug, PartialEq, Eq, Structural)]
pub struct Completion {
    /// The completion code written into the descriptor.
    pub code: u8,
    /// Where an asynchronous request resumes once its delay has passed;
    /// nothing for a synchronous one.
    pub resume: Option<u16>,
}

impl RequestKind {
    /// Tests whether the operation reads from the disk.
    pub fn is_read(&self) -> (b: bool)
        ensures
            b == self.reads(),
    {
        match self {
            RequestKind::ReadSync => true,
            RequestKind::ReadAsync => true,
            _ => false,
        }
    }

    /// Tests whether the operation writes to the disk.
    pub fn is_write(&self) -> (b: bool)
        ensures
            b == self.writes(),
    {
        match self {
            RequestKind::WriteSync => true,
            RequestKind::WriteAsync => true,
            _ => false,
        }
    }

    /// Tests whether the operation completes after the call has returned.
    pub fn is_deferred(&self) -> (b: bool)
        ensures
            b == self.deferred(),
    {
        match self {
            RequestKind::ReadAsync => true,
            RequestKind::WriteAsync => true,
            _ => false,
        }
    }
}

/// Every drive holds a well-formed image of the standard geometry.
pub open spec fn drives_wf(drives: Seq<Media>) -> bool {
    forall|j: int|
        0 <= j < drives.len() ==> (#[trigger] drives[j]).wf() && drives[j].geometry()
            == Geometry::spec_standard()
}

/// The header of a record names the coordinates it was read from. The high
/// bit of the sector byte is not part of the sector number. An empty record
/// has no header to disagree.
pub open spec fn header_matches(record: Seq<u8>, track: int, sector: int) -> bool {
    record.len() >= 2 ==> record[0] % 128 == sector && record[1] == track
}

/// The header of the `i`-th record from `sector` on names its coordinates.
pub open spec fn sector_header_ok(media: Media, track: int, sector: int, i: int) -> bool {
    header_matches(media.record(track, sector + i), track, sector + i)
}

/// The headers of `count` records from `sector` on name their coordinates.
pub open spec fn headers_match(media: Media, track: int, sector: int, count: int) -> bool {
    forall|i: int| 0 <= i < count ==> #[trigger] sector_header_ok(media, track, sector, i)
}

/// The fault a request raises, if any. The track boundary is tested before
/// the volume; the other two arise only where a drive is selected.
pub open spec fn fault_of(request: Request, drives: Seq<Media>, policy: HeaderPolicy) -> Option<
    Fault,
> {
    let count = sectors_for(request.data_length as int);
    let kind = kind_of(request.code);
    if request.sector + count > 32 {
        Some(Fault::TrackOverrun)
    } else if request.volume >= drives.len() {
        None
    } else if kind.writes() && count > 0 && request.track >= 77 {
        Some(Fault::WriteOutOfRange)
    } else if kind.reads() && policy == HeaderPolicy::Strict && !headers_match(
        drives[request.volume as int],
        request.track as int,
        request.sector as int,
        count,
    ) {
        Some(Fault::HeaderMismatch)
    } else {
        None
    }
}

/// The completion code of a request that raises no fault.
pub open spec fn completion_code(request: Request, drive_count: int) -> u8 {
    if request.volume >= drive_count {
        0xc2
    } else if kind_of(request.code) == RequestKind::Unknown {
        0xc1
    } else {
        0x80
    }
}

/// Where a request resumes: nowhere if it is synchronous, at its completion
/// address after a normal completion, at its error address after any other.
pub open spec fn resume_address(request: Request, code: u8) -> Option<u16> {
    if !kind_of(request.code).deferred() {
        None
    } else if code == 0x80 {
        Some(request.completion_address)
    } else {
        Some(request.error_address)
    }
}

/// Memory after `count` consecutive sectors of a track were delivered, the
/// first at `address` and each next one 128 bytes further on.
pub open spec fn ram_after_read(
    ram: Seq<u8>,
    media: Media,
    track: int,
    sector: int,
    address: int,
    count: nat,
) -> Seq<u8>
    decreases count,
{
    if count == 0 {
        ram
    } else {
        store_record(
            ram_after_read(ram, media, track, sector, address, (count - 1) as nat),
            wrap16(address + 128 * (count - 1)),
            media.record(track, sector + count - 1),
        )
    }
}

/// The image after `count` consecutive sectors of a track were written from
/// memory, the first taken from `address` and each next one 128 bytes
/// further on.
pub open spec fn content_after_write(
    content: Seq<u8>,
    rom: Seq<u8>,
    ram: Seq<u8>,
    track: u8,
    sector: int,
    address: int,
    count: nat,
) -> Seq<u8>
    decreases count,
{
    if count == 0 {
        content
    } else {
        put_record(
            content_after_write(content, rom, ram, track, sector, address, (count - 1) as nat),
            Geometry::spec_standard().offset(track as int, sector + count - 1),
            build_record(
                rom,
                ram,
                wrap16(address + 128 * (count - 1)),
                (sector + count - 1) as u8,
                track,
            ),
        )
    }
}

/// The pending offsets of a mirrored image after `count` consecutive sectors
/// of a track were written.
pub open spec fn dirty_after_write(dirty: Seq<usize>, track: int, sector: int, count: nat) -> Seq<
    usize,
>
    decreases count,
{
    if count == 0 {
        dirty
    } else {
        dirty_after_write(dirty, track, sector, (count - 1) as nat).push(
            Geometry::spec_standard().offset(track, sector + count - 1) as usize,
        )
    }
}

/// Sectors that a request moves in either direction.
pub open spec fn sectors_moved(request: Request, drive_count: int, wanted: bool) -> nat {
    if request.volume < drive_count && wanted {
        sectors_for(request.data_length as int) as nat
    } else {
        0
    }
}

/// Memory after a request that raises no fault: the sectors read, if it is a
/// read, and then the completion code in the descriptor.
pub open spec fn machine_after(
    before: MachineState,
    drives: Seq<Media>,
    base: u16,
) -> MachineState {
    let request = request_at(before.rom, before.ram, base);
    let count = sectors_moved(request, drives.len() as int, kind_of(request.code).reads());
    let delivered = if count > 0 {
        ram_after_read(
            before.ram,
            drives[request.volume as int],
            request.track as int,
            request.sector as int,
            request.data_address as int,
            count,
        )
    } else {
        before.ram
    };
    MachineState {
        ram: delivered.update(
            wrap16(base + 10),
            completion_code(request, drives.len() as int),
        ),
        ..before
    }
}

/// The drives after a request that raises no fault. Only a write to a drive
/// that exists changes anything, and only on that drive.
pub open spec fn drives_after(
    before: Seq<Media>,
    after: Seq<Media>,
    machine: MachineState,
    base: u16,
) -> bool {
    let request = request_at(machine.rom, machine.ram, base);
    let count = sectors_moved(request, before.len() as int, kind_of(request.code).writes());
    let volume = request.volume as int;
    &&& after.len() == before.len()
    &&& forall|j: int| 0 <= j < before.len() && j != volume ==> after[j] == before[j]
    &&& count == 0 ==> after == before
    &&& count > 0 ==> {
        &&& after[volume].geometry() == before[volume].geometry()
        &&& after[volume].backed() == before[volume].backed()
        &&& after[volume]@ == content_after_write(
            before[volume]@,
            machine.rom,
            machine.ram,
            request.track,
            request.sector as int,
            request.data_address as int,
            count,
        )
        &&& after[volume].dirty() == if before[volume].backed() {
            dirty_after_write(
                before[volume].dirty(),
                request.track as int,
                request.sector as int,
                count,
            )
        } else {
            before[volume].dirty()
        }
    }
}

/// Tests the headers of `count` records from `sector` on against their
/// coordinates.
fn check_headers(media: &Media, track: u8, sector: u8, count: usize) -> (ok: bool)
    requires
        media.wf(),
        media.geometry() == Geometry::spec_standard(),
        sector + count <= 32,
    ensures
        ok == headers_match(*media, track as int, sector as int, count as int),
{
    let mut i: usize = 0;
    while i < count
        invariant
            0 <= i <= count,
            sector + count <= 32,
            media.wf(),
            media.geometry() == Geometry::spec_standard(),
            headers_match(*media, track as int, sector as int, i as int),
        decreases count - i,
    {
        let current: usize = sector as usize + i;
        let record: &[u8] = media.read_sector(track as usize, current);
        if record.len() >= 2 {
            let first: u8 = record[0];
            let number: u8 = first & 0x7f;
            assert(number == first % 128) by (bit_vector)
                requires
                    number == first & 0x7f,
            ;
            if number as usize != current || record[1] != track {
                assert(!sector_header_ok(*media, track as int, sector as int, i as int));
                return false;
            }
        }
        assert(sector_header_ok(*media, track as int, sector as int, i as int));
        i = i + 1;
    }
    true
}

/// Finds the fault a request raises, if any.
pub fn find_fault(request: &Request, drives: &Vec<Media>, policy: HeaderPolicy) -> (fault: Option<
    Fault,
>)
    requires
        drives_wf(drives@),
    ensures
        fault == fault_of(*request, drives@, policy),
{
    let count: usize = sector_count(request.data_length);
    let kind: RequestKind = classify(request.code);
    if request.sector as usize + count > crate::media::SECTOR_COUNT {
        return Some(Fault::TrackOverrun);
    }
    if request.volume as usize >= drives.len() {
        return None;
    }
    if kind.is_write() && count > 0 && request.track as usize >= crate::media::TRACK_COUNT {
        return Some(Fault::WriteOutOfRange);
    }
    if kind.is_read() {
        match policy {
            HeaderPolicy::Strict => {
                let media: &Media = &drives[request.volume as usize];
                if !check_headers(media, request.track, request.sector, count) {
                    return Some(Fault::HeaderMismatch);
                }
            },
            HeaderPolicy::Advisory => {},
        }
    }
    None
}

/// Delivers `count` consecutive sectors of a track to memory.
fn read_sectors(
    machine: &mut PdsMachine,
    media: &Media,
    address: u16,
    sector: u8,
    track: u8,
    count: usize,
)
    requires
        old(machine).wf(),
        media.wf(),
        media.geometry() == Geometry::spec_standard(),
        sector + count <= 32,
    ensures
        final(machine).wf(),
        final(machine)@ == (MachineState {
            ram: ram_after_read(
                old(machine)@.ram,
                *media,
                track as int,
                sector as int,
                address as int,
                count as nat,
            ),
            ..old(machine)@
        }),
{
    let mut i: usize = 0;
    let mut current: u16 = address;
    while i < count
        invariant
            0 <= i <= count,
            sector + count <= 32,
            media.wf(),
            media.geometry() == Geometry::spec_standard(),
            machine.wf(),
            current == wrap16(address + 128 * i),
            machine@ == (MachineState {
                ram: ram_after_read(
                    old(machine)@.ram,
                    *media,
                    track as int,
                    sector as int,
                    address as int,
                    i as nat,
                ),
                ..old(machine)@
            }),
        decreases count - i,
    {
        let offset: u8 = i as u8;
        read_disk_sector(machine, media, current, sector + offset, track);
        current = current.wrapping_add(128);
        i = i + 1;
    }
}

/// Writes `count` consecutive sectors of a track from memory to the drive
/// at `volume`.
fn write_sectors(
    machine: &PdsMachine,
    drives: &mut Vec<Media>,
    volume: usize,
    address: u16,
    sector: u8,
    track: u8,
    count: usize,
)
    requires
        machine.wf(),
        drives_wf(old(drives)@),
        volume < old(drives)@.len(),
        sector + count <= 32,
        track < 77,
    ensures
        drives_wf(final(drives)@),
        final(drives)@.len() == old(drives)@.len(),
        forall|j: int|
            0 <= j < old(drives)@.len() && j != volume ==> final(drives)@[j] == old(drives)@[j],
        count == 0 ==> final(drives)@ == old(drives)@,
        final(drives)@[volume as int].geometry() == old(drives)@[volume as int].geometry(),
        final(drives)@[volume as int].backed() == old(drives)@[volume as int].backed(),
        final(drives)@[volume as int]@ == content_after_write(
            old(drives)@[volume as int]@,
            machine@.rom,
            machine@.ram,
            track,
            sector as int,
            address as int,
            count as nat,
        ),
        final(drives)@[volume as int].dirty() == if old(drives)@[volume as int].backed() {
            dirty_after_write(
                old(drives)@[volume as int].dirty(),
                track as int,
                sector as int,
                count as nat,
            )
        } else {
            old(drives)@[volume as int].dirty()
        },
{
    let mut i: usize = 0;
    let mut current: u16 = address;
    while i < count
        invariant
            0 <= i <= count,
            sector + count <= 32,
            track < 77,
            machine.wf(),
            drives_wf(drives@),
            drives@.len() == old(drives)@.len(),
            volume < drives@.len(),
            current == wrap16(address + 128 * i),
            forall|j: int|
                0 <= j < old(drives)@.len() && j != volume ==> drives@[j] == old(drives)@[j],
            i == 0 ==> drives@ == old(drives)@,
            drives@[volume as int].geometry() == old(drives)@[volume as int].geometry(),
            drives@[volume as int].backed() == old(drives)@[volume as int].backed(),
            drives@[volume as int]@ == content_after_write(
                old(drives)@[volume as int]@,
                machine@.rom,
                machine@.ram,
                track,
                sector as int,
                address as int,
                i as nat,
            ),
            drives@[volume as int].dirty() == if old(drives)@[volume as int].backed() {
                dirty_after_write(
                    old(drives)@[volume as int].dirty(),
                    track as int,
                    sector as int,
                    i as nat,
                )
            } else {
                old(drives)@[volume as int].dirty()
            },
        decreases count - i,
    {
        let offset: u8 = i as u8;
        let written: Result<(), MediaError> = write_disk_sector(
            machine,
            &mut drives[volume],
            current,
            sector + offset,
            track,
        );
        assert(written.is_ok());
        current = current.wrapping_add(128);
        i = i + 1;
    }
}

/// Serves the request whose descriptor lies at `iy`.
///
/// A request that raises a fault changes nothing. Any other moves its
/// sectors, writes its completion code into the descriptor, and returns that
/// code with the address at which an asynchronous request is to resume.
pub fn rom_floopy(
    machine: &mut PdsMachine,
    drives: &mut Vec<Media>,
    iy: u16,
    policy: HeaderPolicy,
) -> (r: Result<Completion, Fault>)
    requires
        old(machine).wf(),
        drives_wf(old(drives)@),
    ensures
        final(machine).wf(),
        drives_wf(final(drives)@),
        match r {
            Err(fault) => {
                &&& fault_of(
                    request_at(old(machine)@.rom, old(machine)@.ram, iy),
                    old(drives)@,
                    policy,
                ) == Some(fault)
                &&& final(machine)@ == old(machine)@
                &&& final(drives)@ == old(drives)@
            },
            Ok(completion) => {
                &&& fault_of(
                    request_at(old(machine)@.rom, old(machine)@.ram, iy),
                    old(drives)@,
                    policy,
                ) is None
                &&& completion.code == completion_code(
                    request_at(old(machine)@.rom, old(machine)@.ram, iy),
                    old(drives)@.len() as int,
                )
                &&& completion.resume == resume_address(
                    request_at(old(machine)@.rom, old(machine)@.ram, iy),
                    completion.code,
                )
                &&& final(machine)@ == machine_after(old(machine)@, old(drives)@, iy)
                &&& drives_after(old(drives)@, final(drives)@, old(machine)@, iy)
            },
        },
{
    let request: Request = read_request(machine, iy);
    match find_fault(&request, drives, policy) {
        Some(fault) => {
            return Err(fault);
        },
        None => {},
    }
    let count: usize = sector_count(request.data_length);
    let kind: RequestKind = classify(request.code);
    let volume: usize = request.volume as usize;
    let code: u8 = if volume >= drives.len() {
        COMPLETION_NOT_READY
    } else if kind.is_read() {
        read_sectors(
            machine,
            &drives[volume],
            request.data_address,
            request.sector,
            request.track,
            count,
        );
        COMPLETION_NORMAL
    } else if kind.is_write() {
        if count > 0 {
            write_sectors(
                machine,
                drives,
                volume,
                request.data_address,
                request.sector,
                request.track,
                count,
            );
        }
        COMPLETION_NORMAL
    } else {
        COMPLETION_INVALID_REQUEST
    };
    machine.poke(iy.wrapping_add(OFFSET_COMPLETION_CODE), code);
    let resume: Option<u16> = if !kind.is_deferred() {
        None
    } else if code == COMPLETION_NORMAL {
        Some(request.completion_address)
    } else {
        Some(request.error_address)
    };
    Ok(Completion { code, resume })
}

} // verus!
