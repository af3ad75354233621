//! What holds of every request the controller serves.

use vstd::prelude::*;
use crate::floppy::build_record;
use crate::floppy::completion_code;
use crate::floppy::content_after_write;
use crate::floppy::drives_after;
use crate::floppy::drives_wf;
use crate::floppy::fault_of;
use crate::floppy::kind_of;
use crate::floppy::machine_after;
use crate::floppy::ram_after_read;
use crate::floppy::request_at;
use crate::floppy::resume_address;
use crate::floppy::sectors_for;
use crate::floppy::store_bytes;
use crate::floppy::store_record;
use crate::floppy::HeaderPolicy;
use crate::floppy::RequestKind;
use crate::media::put_record;
use crate::media::Geometry;
use crate::media::Media;
use crate::pds_machine::wrap16;
use crate::pds_machine::MachineState;

verus! {

/// The sectors of a request cover its length and no whole sector more:
/// the count is the length divided by 128, rounded up.
pub proof fn lemma_sectors_cover(length: u16)
    ensures
        sectors_for(length as int) * 128 >= length,
        sectors_for(length as int) * 128 < length + 128,
        length % 128 == 0 ==> sectors_for(length as int) == length / 128,
        length % 128 != 0 ==> sectors_for(length as int) == length / 128 + 1,
{
}

/// Storing bytes keeps the size of memory.
pub proof fn lemma_store_bytes_len(ram: Seq<u8>, address: int, bytes: Seq<u8>)
    requires
        ram.len() == 0x10000,
        0 <= address,
    ensures
        store_bytes(ram, address, bytes).len() == 0x10000,
    decreases bytes.len(),
{
    if bytes.len() > 0 {
        lemma_store_bytes_len(ram, address, bytes.drop_last());
    }
}

/// Bytes stored in a buffer that does not run past the end of the address
/// space are found there in order, and every other byte of memory is as it
/// was.
pub proof fn lemma_store_bytes_at(ram: Seq<u8>, address: int, bytes: Seq<u8>, at: int)
    requires
        ram.len() == 0x10000,
        0 <= address,
        address + bytes.len() <= 0x10000,
        0 <= at < 0x10000,
    ensures
        store_bytes(ram, address, bytes)[at] == if address <= at < address + bytes.len() {
            bytes[at - address]
        } else {
            ram[at]
        },
    decreases bytes.len(),
{
    if bytes.len() > 0 {
        lemma_store_bytes_len(ram, address, bytes.drop_last());
        lemma_store_bytes_at(ram, address, bytes.drop_last(), at);
    }
}

/// Delivering a record keeps the size of memory.
pub proof fn lemma_store_record_len(ram: Seq<u8>, address: int, record: Seq<u8>)
    requires
        ram.len() == 0x10000,
        0 <= address,
        record.len() == 0 || record.len() == 136,
    ensures
        store_record(ram, address, record).len() == 0x10000,
{
    if record.len() > 0 {
        lemma_store_bytes_len(ram, address, record.subrange(2, 130));
        lemma_store_bytes_len(
            store_bytes(ram, address, record.subrange(2, 130)),
            0x12b4,
            record.subrange(130, 136),
        );
    }
}

/// A record delivered to a buffer clear of the scratch bytes leaves its
/// payload in the buffer, its trailer in the scratch bytes, and the rest of
/// memory as it was.
pub proof fn lemma_store_record_at(ram: Seq<u8>, address: int, record: Seq<u8>, at: int)
    requires
        ram.len() == 0x10000,
        record.len() == 136,
        0 <= address,
        address + 128 <= 0x12b4 || (0x12ba <= address && address + 128 <= 0x10000),
        0 <= at < 0x10000,
    ensures
        store_record(ram, address, record)[at] == if address <= at < address + 128 {
            record[2 + at - address]
        } else if 0x12b4 <= at < 0x12ba {
            record[130 + at - 0x12b4]
        } else {
            ram[at]
        },
{
    let payload = record.subrange(2, 130);
    let trailer = record.subrange(130, 136);
    lemma_store_bytes_len(ram, address, payload);
    lemma_store_bytes_at(ram, address, payload, at);
    lemma_store_bytes_at(store_bytes(ram, address, payload), 0x12b4, trailer, at);
}

/// Reading sectors keeps the size of memory.
pub proof fn lemma_read_len(
    ram: Seq<u8>,
    media: Media,
    track: int,
    sector: int,
    address: int,
    count: nat,
)
    requires
        ram.len() == 0x10000,
        media.wf(),
        media.geometry() == Geometry::spec_standard(),
        0 <= address,
    ensures
        ram_after_read(ram, media, track, sector, address, count).len() == 0x10000,
    decreases count,
{
    if count > 0 {
        lemma_read_len(ram, media, track, sector, address, (count - 1) as nat);
        let record = media.record(track, sector + count - 1);
        media.lemma_record_len(track, sector + count - 1);
        lemma_store_record_len(
            ram_after_read(ram, media, track, sector, address, (count - 1) as nat),
            wrap16(address + 128 * (count - 1)),
            record,
        );
    }
}

/// A read delivers every sector it was asked for. Where the sectors are on
/// the disk and the buffer neither runs past the end of the address space nor
/// touches the scratch bytes, the payload of the `index`-th sector lies in
/// the buffer 128 bytes after that of the one before, byte for byte.
pub proof fn lemma_read_delivers(
    ram: Seq<u8>,
    media: Media,
    track: int,
    sector: int,
    address: int,
    count: nat,
    index: int,
    byte: int,
)
    requires
        ram.len() == 0x10000,
        media.wf(),
        media.geometry() == Geometry::spec_standard(),
        0 <= track < 77,
        0 <= sector,
        sector + count <= 32,
        0 <= address,
        address + 128 * count <= 0x12b4 || (0x12ba <= address && address + 128 * count
            <= 0x10000),
        0 <= index < count,
        0 <= byte < 128,
    ensures
        ram_after_read(ram, media, track, sector, address, count)[address + 128 * index + byte]
            == media.record(track, sector + index)[2 + byte],
    decreases count,
{
    let before = ram_after_read(ram, media, track, sector, address, (count - 1) as nat);
    let last = media.record(track, sector + count - 1);
    let at = address + 128 * index + byte;
    lemma_read_len(ram, media, track, sector, address, (count - 1) as nat);
    media.lemma_record_len(track, sector + count - 1);
    media.lemma_record_len(track, sector + index);
    lemma_store_record_at(before, address + 128 * (count - 1), last, at);
    if index < count - 1 {
        lemma_read_delivers(ram, media, track, sector, address, (count - 1) as nat, index, byte);
    }
}

/// After a read of at least one sector the scratch bytes hold the trailer of
/// the last sector delivered.
pub proof fn lemma_read_leaves_trailer(
    ram: Seq<u8>,
    media: Media,
    track: int,
    sector: int,
    address: int,
    count: nat,
    byte: int,
)
    requires
        ram.len() == 0x10000,
        media.wf(),
        media.geometry() == Geometry::spec_standard(),
        0 <= track < 77,
        0 <= sector,
        sector + count <= 32,
        0 <= address,
        address + 128 * count <= 0x12b4 || (0x12ba <= address && address + 128 * count
            <= 0x10000),
        count > 0,
        0 <= byte < 6,
    ensures
        ram_after_read(ram, media, track, sector, address, count)[0x12b4 + byte] == media.record(
            track,
            sector + count - 1,
        )[130 + byte],
{
    let before = ram_after_read(ram, media, track, sector, address, (count - 1) as nat);
    let last = media.record(track, sector + count - 1);
    lemma_read_len(ram, media, track, sector, address, (count - 1) as nat);
    media.lemma_record_len(track, sector + count - 1);
    lemma_store_record_at(before, address + 128 * (count - 1), last, 0x12b4 + byte);
}

/// Writing sectors keeps the size of the image.
pub proof fn lemma_write_len(
    content: Seq<u8>,
    rom: Seq<u8>,
    ram: Seq<u8>,
    track: u8,
    sector: int,
    address: int,
    count: nat,
)
    ensures
        content_after_write(content, rom, ram, track, sector, address, count).len()
            == content.len(),
    decreases count,
{
    if count > 0 {
        lemma_write_len(content, rom, ram, track, sector, address, (count - 1) as nat);
    }
}

/// A write stores every sector it was asked for. Where the sectors are on
/// the disk, the record of the `index`-th sector is the one assembled from
/// the memory 128 bytes after that of the one before.
pub proof fn lemma_write_stores(
    content: Seq<u8>,
    rom: Seq<u8>,
    ram: Seq<u8>,
    track: u8,
    sector: int,
    address: int,
    count: nat,
    index: int,
)
    requires
        content.len() == Geometry::spec_standard().total(),
        track < 77,
        0 <= sector,
        sector + count <= 32,
        0 <= index < count,
    ensures
        content_after_write(content, rom, ram, track, sector, address, count).subrange(
            Geometry::spec_standard().offset(track as int, sector + index),
            Geometry::spec_standard().offset(track as int, sector + index) + 136,
        ) == build_record(
            rom,
            ram,
            wrap16(address + 128 * index),
            (sector + index) as u8,
            track,
        ),
    decreases count,
{
    let g = Geometry::spec_standard();
    let before = content_after_write(content, rom, ram, track, sector, address, (count - 1) as nat);
    let last = build_record(
        rom,
        ram,
        wrap16(address + 128 * (count - 1)),
        (sector + count - 1) as u8,
        track,
    );
    let after = content_after_write(content, rom, ram, track, sector, address, count);
    let at = g.offset(track as int, sector + index);
    lemma_write_len(content, rom, ram, track, sector, address, (count - 1) as nat);
    g.lemma_offset_bounds(track as int, sector + count - 1);
    g.lemma_offset_bounds(track as int, sector + index);
    assert(after == put_record(before, g.offset(track as int, sector + count - 1), last));
    if index < count - 1 {
        lemma_write_stores(content, rom, ram, track, sector, address, (count - 1) as nat, index);
        g.lemma_offset_disjoint(track as int, sector + count - 1, track as int, sector + index);
        assert(after.subrange(at, at + 136) =~= before.subrange(at, at + 136));
    } else {
        assert(after.subrange(at, at + 136) =~= last);
    }
}

/// A write changes no byte of the image outside the records of its sectors.
pub proof fn lemma_write_keeps_rest(
    content: Seq<u8>,
    rom: Seq<u8>,
    ram: Seq<u8>,
    track: u8,
    sector: int,
    address: int,
    count: nat,
    at: int,
)
    requires
        content.len() == Geometry::spec_standard().total(),
        track < 77,
        0 <= sector,
        sector + count <= 32,
        0 <= at < content.len(),
        at < Geometry::spec_standard().offset(track as int, sector) || at
            >= Geometry::spec_standard().offset(track as int, sector + count),
    ensures
        content_after_write(content, rom, ram, track, sector, address, count)[at] == content[at],
    decreases count,
{
    if count > 0 {
        let g = Geometry::spec_standard();
        assert(g.offset(track as int, sector + count) == (track * 32 + sector + count) * 136);
        assert(g.offset(track as int, sector + count - 1) == (track * 32 + sector + count - 1)
            * 136);
        assert(g.offset(track as int, sector) == (track * 32 + sector) * 136);
        lemma_write_len(content, rom, ram, track, sector, address, (count - 1) as nat);
        lemma_write_keeps_rest(content, rom, ram, track, sector, address, (count - 1) as nat, at);
    }
}

/// A request that names a drive which does not exist is answered "disk not
/// ready": that code is written into the descriptor, memory is otherwise as
/// it was, no image changes, and an asynchronous request resumes at its
/// error address. A request whose sectors run past the end of the track is
/// a fault whatever volume it names, and is left out here.
pub proof fn lemma_absent_volume(
    machine: MachineState,
    drives: Seq<Media>,
    after: Seq<Media>,
    base: u16,
    policy: HeaderPolicy,
)
    requires
        request_at(machine.rom, machine.ram, base).volume >= drives.len(),
        request_at(machine.rom, machine.ram, base).sector + sectors_for(
            request_at(machine.rom, machine.ram, base).data_length as int,
        ) <= 32,
        drives_after(drives, after, machine, base),
    ensures
        fault_of(request_at(machine.rom, machine.ram, base), drives, policy) is None,
        completion_code(request_at(machine.rom, machine.ram, base), drives.len() as int) == 0xc2,
        machine_after(machine, drives, base) == (MachineState {
            ram: machine.ram.update(wrap16(base + 10), 0xc2u8),
            ..machine
        }),
        after == drives,
        kind_of(request_at(machine.rom, machine.ram, base).code).deferred() ==> resume_address(
            request_at(machine.rom, machine.ram, base),
            0xc2,
        ) == Some(request_at(machine.rom, machine.ram, base).error_address),
{
}

/// A request whose code names no operation is answered "invalid operation
/// request": that code is written into the descriptor, memory is otherwise
/// as it was, no image changes, and nothing is resumed later. The volume is
/// tested before the request code, and the track boundary before both, so
/// the request must name a drive that exists and stay on its track.
pub proof fn lemma_unknown_request(
    machine: MachineState,
    drives: Seq<Media>,
    after: Seq<Media>,
    base: u16,
    policy: HeaderPolicy,
)
    requires
        kind_of(request_at(machine.rom, machine.ram, base).code) == RequestKind::Unknown,
        request_at(machine.rom, machine.ram, base).volume < drives.len(),
        request_at(machine.rom, machine.ram, base).sector + sectors_for(
            request_at(machine.rom, machine.ram, base).data_length as int,
        ) <= 32,
        drives_after(drives, after, machine, base),
    ensures
        fault_of(request_at(machine.rom, machine.ram, base), drives, policy) is None,
        completion_code(request_at(machine.rom, machine.ram, base), drives.len() as int) == 0xc1,
        machine_after(machine, drives, base) == (MachineState {
            ram: machine.ram.update(wrap16(base + 10), 0xc1u8),
            ..machine
        }),
        after == drives,
        resume_address(request_at(machine.rom, machine.ram, base), 0xc1) is None,
{
}

/// A read request moves as many whole sectors as cover its length. Where
/// the sectors are on the disk and the buffer neither runs past the end of
/// the address space nor touches the scratch bytes, every byte of every one
/// of them is in the buffer afterwards, but for the one byte of the
/// descriptor that received the completion code, should the buffer cover it.
pub proof fn lemma_read_request_delivers(
    machine: MachineState,
    drives: Seq<Media>,
    base: u16,
    index: int,
    byte: int,
)
    requires
        machine.ram.len() == 0x10000,
        drives_wf(drives),
        kind_of(request_at(machine.rom, machine.ram, base).code).reads(),
        request_at(machine.rom, machine.ram, base).volume < drives.len(),
        request_at(machine.rom, machine.ram, base).track < 77,
        request_at(machine.rom, machine.ram, base).sector + sectors_for(
            request_at(machine.rom, machine.ram, base).data_length as int,
        ) <= 32,
        request_at(machine.rom, machine.ram, base).data_address + 128 * sectors_for(
            request_at(machine.rom, machine.ram, base).data_length as int,
        ) <= 0x12b4 || (0x12ba <= request_at(machine.rom, machine.ram, base).data_address
            && request_at(machine.rom, machine.ram, base).data_address + 128 * sectors_for(
            request_at(machine.rom, machine.ram, base).data_length as int,
        ) <= 0x10000),
        0 <= index < sectors_for(request_at(machine.rom, machine.ram, base).data_length as int),
        0 <= byte < 128,
        request_at(machine.rom, machine.ram, base).data_address + 128 * index + byte != wrap16(
            base + 10,
        ),
    ensures
        machine_after(machine, drives, base).ram[request_at(
            machine.rom,
            machine.ram,
            base,
        ).data_address + 128 * index + byte] == drives[request_at(
            machine.rom,
            machine.ram,
            base,
        ).volume as int].record(
            request_at(machine.rom, machine.ram, base).track as int,
            request_at(machine.rom, machine.ram, base).sector + index,
        )[2 + byte],
{
    let request = request_at(machine.rom, machine.ram, base);
    let count = sectors_for(request.data_length as int) as nat;
    let media = drives[request.volume as int];
    lemma_read_len(
        machine.ram,
        media,
        request.track as int,
        request.sector as int,
        request.data_address as int,
        count,
    );
    lemma_read_delivers(
        machine.ram,
        media,
        request.track as int,
        request.sector as int,
        request.data_address as int,
        count,
        index,
        byte,
    );
}

/// A write request moves as many whole sectors as cover its length. Where
/// the sectors are on the disk, the record of every one of them is
/// afterwards the one assembled from memory as it was when the request
/// arrived.
pub proof fn lemma_write_request_stores(
    machine: MachineState,
    drives: Seq<Media>,
    after: Seq<Media>,
    base: u16,
    index: int,
)
    requires
        drives_wf(drives),
        kind_of(request_at(machine.rom, machine.ram, base).code).writes(),
        request_at(machine.rom, machine.ram, base).volume < drives.len(),
        request_at(machine.rom, machine.ram, base).track < 77,
        request_at(machine.rom, machine.ram, base).sector + sectors_for(
            request_at(machine.rom, machine.ram, base).data_length as int,
        ) <= 32,
        drives_after(drives, after, machine, base),
        0 <= index < sectors_for(request_at(machine.rom, machine.ram, base).data_length as int),
    ensures
        after[request_at(machine.rom, machine.ram, base).volume as int].record(
            request_at(machine.rom, machine.ram, base).track as int,
            request_at(machine.rom, machine.ram, base).sector + index,
        ) == build_record(
            machine.rom,
            machine.ram,
            wrap16(request_at(machine.rom, machine.ram, base).data_address + 128 * index),
            (request_at(machine.rom, machine.ram, base).sector + index) as u8,
            request_at(machine.rom, machine.ram, base).track,
        ),
{
    let request = request_at(machine.rom, machine.ram, base);
    let count = sectors_for(request.data_length as int) as nat;
    let before = drives[request.volume as int];
    before.lemma_record_len(request.track as int, request.sector + index);
    lemma_write_stores(
        before@,
        machine.rom,
        machine.ram,
        request.track,
        request.sector as int,
        request.data_address as int,
        count,
        index,
    );
}

} // verus!
