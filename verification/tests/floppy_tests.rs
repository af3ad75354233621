use izilogmcz::floppy::classify;
use izilogmcz::floppy::find_fault;
use izilogmcz::floppy::read_disk_sector;
use izilogmcz::floppy::read_request;
use izilogmcz::floppy::rom_floopy;
use izilogmcz::floppy::sector_count;
use izilogmcz::floppy::write_disk_sector;
use izilogmcz::floppy::Completion;
use izilogmcz::floppy::Fault;
use izilogmcz::floppy::HeaderPolicy;
use izilogmcz::floppy::Request;
use izilogmcz::floppy::RequestKind;
use izilogmcz::floppy::COMPLETION_INVALID_REQUEST;
use izilogmcz::floppy::COMPLETION_NORMAL;
use izilogmcz::floppy::COMPLETION_NOT_READY;
use izilogmcz::floppy::COMPLETION_WRITE_PROTECTED;
use izilogmcz::floppy::RBDIN_ASYNC;
use izilogmcz::floppy::RBDIN_SYNC;
use izilogmcz::floppy::WRTBIN_ASYNC;
use izilogmcz::floppy::WRTBIN_SYNC;
use izilogmcz::media::Media;
use izilogmcz::media::MediaError;
use izilogmcz::pds_machine::PdsMachine;

const BASE: u16 = 0x2000;
const BUFFER: u16 = 0x3000;
const SCRATCH: u16 = 0x12b4;

fn payload_byte(seed: usize, track: usize, sector: usize, j: usize) -> u8 {
    ((seed + track * 31 + sector * 7 + j) % 251) as u8
}

fn trailer_byte(seed: usize, track: usize, sector: usize, k: usize) -> u8 {
    (0x40 + (seed + track + 3 * sector + k) % 64) as u8
}

fn formatted_image(seed: usize) -> Vec<u8> {
    let mut bytes = Vec::with_capacity(335_104);
    for track in 0..77usize {
        for sector in 0..32usize {
            bytes.push(sector as u8 | 0x80);
            bytes.push(track as u8);
            for j in 0..128usize {
                bytes.push(payload_byte(seed, track, sector, j));
            }
            for k in 0..6usize {
                bytes.push(trailer_byte(seed, track, sector, k));
            }
        }
    }
    bytes
}

fn one_drive() -> Vec<Media> {
    vec![Media::new_from_bytes(&formatted_image(0)).unwrap()]
}

fn describe(
    machine: &mut PdsMachine,
    base: u16,
    code: u8,
    data_address: u16,
    data_length: u16,
    volume: u8,
    sector: u8,
    track: u8,
) {
    machine.poke(base.wrapping_add(1), code);
    machine.poke(base.wrapping_add(2), data_address as u8);
    machine.poke(base.wrapping_add(3), (data_address >> 8) as u8);
    machine.poke(base.wrapping_add(4), data_length as u8);
    machine.poke(base.wrapping_add(5), (data_length >> 8) as u8);
    machine.poke(base.wrapping_add(6), 0x55);
    machine.poke(base.wrapping_add(7), 0x44);
    machine.poke(base.wrapping_add(8), 0x77);
    machine.poke(base.wrapping_add(9), 0x66);
    machine.poke(base.wrapping_add(11), (volume << 5) | sector);
    machine.poke(base.wrapping_add(12), track);
}

fn memory(machine: &PdsMachine, address: u16, count: usize) -> Vec<u8> {
    (0..count).map(|i| machine.peek(address.wrapping_add(i as u16))).collect()
}

fn payload(seed: usize, track: usize, sector: usize) -> Vec<u8> {
    (0..128).map(|j| payload_byte(seed, track, sector, j)).collect()
}

fn trailer(seed: usize, track: usize, sector: usize) -> Vec<u8> {
    (0..6).map(|k| trailer_byte(seed, track, sector, k)).collect()
}

#[test]
fn request_and_completion_codes() {
    assert_eq!(RBDIN_SYNC, 0x0a);
    assert_eq!(RBDIN_ASYNC, 0x0b);
    assert_eq!(WRTBIN_SYNC, 0x0e);
    assert_eq!(WRTBIN_ASYNC, 0x0f);
    assert_eq!(COMPLETION_NORMAL, 0x80);
    assert_eq!(COMPLETION_INVALID_REQUEST, 0xc1);
    assert_eq!(COMPLETION_NOT_READY, 0xc2);
    assert_eq!(COMPLETION_WRITE_PROTECTED, 0xc3);
}

#[test]
fn request_codes_are_classified() {
    assert_eq!(classify(0x0a), RequestKind::ReadSync);
    assert_eq!(classify(0x0b), RequestKind::ReadAsync);
    assert_eq!(classify(0x0e), RequestKind::WriteSync);
    assert_eq!(classify(0x0f), RequestKind::WriteAsync);
    assert_eq!(classify(0x00), RequestKind::Unknown);
    assert_eq!(classify(0x0c), RequestKind::Unknown);
    assert_eq!(classify(0xff), RequestKind::Unknown);
    assert!(RequestKind::ReadAsync.is_read());
    assert!(!RequestKind::ReadAsync.is_write());
    assert!(RequestKind::ReadAsync.is_deferred());
    assert!(RequestKind::WriteSync.is_write());
    assert!(!RequestKind::WriteSync.is_deferred());
    assert!(!RequestKind::Unknown.is_read());
    assert!(!RequestKind::Unknown.is_write());
    assert!(!RequestKind::Unknown.is_deferred());
}

#[test]
fn sector_count_rounds_up() {
    assert_eq!(sector_count(0), 0);
    assert_eq!(sector_count(1), 1);
    assert_eq!(sector_count(127), 1);
    assert_eq!(sector_count(128), 1);
    assert_eq!(sector_count(129), 2);
    assert_eq!(sector_count(256), 2);
    assert_eq!(sector_count(4096), 32);
    assert_eq!(sector_count(65535), 512);
}

#[test]
fn descriptor_is_parsed_at_its_offsets() {
    let mut machine = PdsMachine::new(Vec::new(), false);
    describe(&mut machine, BASE, 0x0b, 0x3456, 0x0180, 7, 5, 42);
    assert_eq!(machine.peek(BASE + 11), 0xe5);
    assert_eq!(
        read_request(&machine, BASE),
        Request {
            code: 0x0b,
            data_address: 0x3456,
            data_length: 0x0180,
            completion_address: 0x4455,
            error_address: 0x6677,
            volume: 7,
            sector: 5,
            track: 42,
        }
    );
}

#[test]
fn descriptor_wraps_at_the_top_of_memory() {
    let mut machine = PdsMachine::new(Vec::new(), false);
    let mut drives = one_drive();
    describe(&mut machine, 0xfff8, RBDIN_SYNC, BUFFER, 128, 0, 2, 1);
    assert_eq!(machine.peek(0x0003), 0x02);
    assert_eq!(machine.peek(0x0004), 1);
    let done = rom_floopy(&mut machine, &mut drives, 0xfff8, HeaderPolicy::Advisory);
    assert_eq!(done, Ok(Completion { code: 0x80, resume: None }));
    assert_eq!(machine.peek(0x0002), 0x80);
    assert_eq!(memory(&machine, BUFFER, 128), payload(0, 1, 2));
}

#[test]
fn read_delivers_payload_and_trailer() {
    let mut machine = PdsMachine::new(Vec::new(), false);
    let mut drives = one_drive();
    describe(&mut machine, BASE, RBDIN_SYNC, BUFFER, 128, 0, 3, 5);
    let done = rom_floopy(&mut machine, &mut drives, BASE, HeaderPolicy::Advisory);
    assert_eq!(done, Ok(Completion { code: 0x80, resume: None }));
    assert_eq!(memory(&machine, BUFFER, 128), payload(0, 5, 3));
    assert_eq!(memory(&machine, SCRATCH, 6), trailer(0, 5, 3));
    assert_eq!(machine.peek(BASE + 10), 0x80);
    assert_eq!(machine.peek(BUFFER - 1), 0);
    assert_eq!(machine.peek(BUFFER + 128), 0);
    assert_eq!(machine.peek(SCRATCH - 1), 0);
    assert_eq!(machine.peek(SCRATCH + 6), 0);
}

#[test]
fn read_moves_whole_sectors_for_any_length() {
    for (length, sectors) in [(0u16, 0usize), (1, 1), (128, 1), (129, 2), (300, 3), (512, 4)] {
        let mut machine = PdsMachine::new(Vec::new(), false);
        let mut drives = one_drive();
        describe(&mut machine, BASE, RBDIN_SYNC, BUFFER, length, 0, 4, 9);
        let done = rom_floopy(&mut machine, &mut drives, BASE, HeaderPolicy::Advisory);
        assert_eq!(done, Ok(Completion { code: 0x80, resume: None }));
        for i in 0..sectors {
            assert_eq!(memory(&machine, BUFFER + 128 * i as u16, 128), payload(0, 9, 4 + i));
        }
        assert_eq!(memory(&machine, BUFFER + 128 * sectors as u16, 128), vec![0u8; 128]);
        if sectors > 0 {
            assert_eq!(memory(&machine, SCRATCH, 6), trailer(0, 9, 4 + sectors - 1));
        } else {
            assert_eq!(memory(&machine, SCRATCH, 6), vec![0u8; 6]);
        }
    }
}

#[test]
fn read_buffer_wraps_at_the_top_of_memory() {
    let mut machine = PdsMachine::new(Vec::new(), false);
    let mut drives = one_drive();
    describe(&mut machine, BASE, RBDIN_SYNC, 0xffc0, 256, 0, 0, 0);
    let done = rom_floopy(&mut machine, &mut drives, BASE, HeaderPolicy::Advisory);
    assert_eq!(done, Ok(Completion { code: 0x80, resume: None }));
    let first = payload(0, 0, 0);
    let second = payload(0, 0, 1);
    assert_eq!(memory(&machine, 0xffc0, 64), first[..64].to_vec());
    assert_eq!(memory(&machine, 0x0000, 64), first[64..].to_vec());
    assert_eq!(memory(&machine, 0x0040, 128), second);
}

#[test]
fn read_into_firmware_range_stays_hidden() {
    let mut machine = PdsMachine::new(vec![0xee; 0x40], false);
    let mut drives = one_drive();
    describe(&mut machine, BASE, RBDIN_SYNC, 0x0000, 128, 0, 0, 0);
    rom_floopy(&mut machine, &mut drives, BASE, HeaderPolicy::Advisory).unwrap();
    assert_eq!(memory(&machine, 0x0000, 0x40), vec![0xee; 0x40]);
    assert_eq!(memory(&machine, 0x0040, 0x40), payload(0, 0, 0)[0x40..].to_vec());
}

#[test]
fn completion_code_is_written_after_the_transfer() {
    let mut machine = PdsMachine::new(Vec::new(), false);
    let mut drives = one_drive();
    describe(&mut machine, BASE, RBDIN_SYNC, BASE, 128, 0, 1, 1);
    rom_floopy(&mut machine, &mut drives, BASE, HeaderPolicy::Advisory).unwrap();
    let mut expected = payload(0, 1, 1);
    expected[10] = 0x80;
    assert_eq!(memory(&machine, BASE, 128), expected);
}

#[test]
fn asynchronous_read_resumes_at_the_completion_address() {
    let mut machine = PdsMachine::new(Vec::new(), false);
    let mut drives = one_drive();
    describe(&mut machine, BASE, RBDIN_ASYNC, BUFFER, 128, 0, 3, 5);
    let done = rom_floopy(&mut machine, &mut drives, BASE, HeaderPolicy::Advisory);
    assert_eq!(done, Ok(Completion { code: 0x80, resume: Some(0x4455) }));
    assert_eq!(memory(&machine, BUFFER, 128), payload(0, 5, 3));
}

#[test]
fn asynchronous_request_may_resume_at_address_zero() {
    let mut machine = PdsMachine::new(Vec::new(), false);
    let mut drives = one_drive();
    describe(&mut machine, BASE, WRTBIN_ASYNC, BUFFER, 0, 0, 0, 0);
    machine.poke(BASE + 6, 0);
    machine.poke(BASE + 7, 0);
    let done = rom_floopy(&mut machine, &mut drives, BASE, HeaderPolicy::Advisory);
    assert_eq!(done, Ok(Completion { code: 0x80, resume: Some(0) }));
}

#[test]
fn volume_selects_the_drive() {
    let mut machine = PdsMachine::new(Vec::new(), false);
    let mut drives = vec![
        Media::new_from_bytes(&formatted_image(0)).unwrap(),
        Media::new_from_bytes(&formatted_image(100)).unwrap(),
        Media::new_from_bytes(&formatted_image(200)).unwrap(),
    ];
    describe(&mut machine, BASE, RBDIN_SYNC, BUFFER, 128, 2, 6, 10);
    rom_floopy(&mut machine, &mut drives, BASE, HeaderPolicy::Advisory).unwrap();
    assert_eq!(memory(&machine, BUFFER, 128), payload(200, 10, 6));
    assert_eq!(memory(&machine, SCRATCH, 6), trailer(200, 10, 6));
}

#[test]
fn absent_volume_is_not_ready() {
    for code in [RBDIN_SYNC, WRTBIN_SYNC, 0x33] {
        let mut machine = PdsMachine::new(Vec::new(), false);
        let mut drives = one_drive();
        describe(&mut machine, BASE, code, BUFFER, 256, 1, 3, 5);
        machine.poke(BUFFER, 0x11);
        let done = rom_floopy(&mut machine, &mut drives, BASE, HeaderPolicy::Strict);
        assert_eq!(done, Ok(Completion { code: 0xc2, resume: None }));
        assert_eq!(machine.peek(BASE + 10), 0xc2);
        assert_eq!(machine.peek(BUFFER), 0x11);
        assert_eq!(memory(&machine, BUFFER + 1, 255), vec![0u8; 255]);
        assert_eq!(memory(&machine, SCRATCH, 6), vec![0u8; 6]);
        assert_eq!(drives[0].content(), &formatted_image(0)[..]);
    }
}

#[test]
fn absent_volume_with_no_drives_at_all() {
    let mut machine = PdsMachine::new(Vec::new(), false);
    let mut drives: Vec<Media> = Vec::new();
    describe(&mut machine, BASE, RBDIN_SYNC, BUFFER, 128, 0, 0, 0);
    let done = rom_floopy(&mut machine, &mut drives, BASE, HeaderPolicy::Advisory);
    assert_eq!(done, Ok(Completion { code: 0xc2, resume: None }));
    assert_eq!(machine.peek(BASE + 10), 0xc2);
}

#[test]
fn asynchronous_failure_resumes_at_the_error_address() {
    for code in [RBDIN_ASYNC, WRTBIN_ASYNC] {
        let mut machine = PdsMachine::new(Vec::new(), false);
        let mut drives = one_drive();
        describe(&mut machine, BASE, code, BUFFER, 128, 7, 3, 5);
        let done = rom_floopy(&mut machine, &mut drives, BASE, HeaderPolicy::Advisory);
        assert_eq!(done, Ok(Completion { code: 0xc2, resume: Some(0x6677) }));
        assert_eq!(drives[0].content(), &formatted_image(0)[..]);
    }
}

#[test]
fn unknown_request_is_invalid() {
    for code in [0x00u8, 0x09, 0x0c, 0x0d, 0x10, 0xff] {
        let mut machine = PdsMachine::new(Vec::new(), false);
        let mut drives = vec![Media::new_from_file(formatted_image(0), true).unwrap()];
        describe(&mut machine, BASE, code, BUFFER, 256, 0, 3, 5);
        machine.poke(BUFFER, 0x11);
        let done = rom_floopy(&mut machine, &mut drives, BASE, HeaderPolicy::Strict);
        assert_eq!(done, Ok(Completion { code: 0xc1, resume: None }));
        assert_eq!(machine.peek(BASE + 10), 0xc1);
        assert_eq!(machine.peek(BUFFER), 0x11);
        assert_eq!(memory(&machine, BUFFER + 1, 255), vec![0u8; 255]);
        assert_eq!(memory(&machine, SCRATCH, 6), vec![0u8; 6]);
        assert_eq!(drives[0].content(), &formatted_image(0)[..]);
        assert!(drives[0].take_dirty().is_empty());
    }
}

#[test]
fn volume_is_tested_before_the_request_code() {
    let mut machine = PdsMachine::new(Vec::new(), false);
    let mut drives = one_drive();
    describe(&mut machine, BASE, 0x33, BUFFER, 128, 4, 0, 0);
    let done = rom_floopy(&mut machine, &mut drives, BASE, HeaderPolicy::Advisory);
    assert_eq!(done, Ok(Completion { code: 0xc2, resume: None }));
}

#[test]
fn request_past_the_end_of_the_track_is_a_fault() {
    for (code, volume) in [(RBDIN_SYNC, 0u8), (WRTBIN_ASYNC, 0), (RBDIN_SYNC, 5), (0x33, 0)] {
        let mut machine = PdsMachine::new(Vec::new(), false);
        let mut drives = one_drive();
        describe(&mut machine, BASE, code, BUFFER, 129, volume, 31, 0);
        let done = rom_floopy(&mut machine, &mut drives, BASE, HeaderPolicy::Advisory);
        assert_eq!(done, Err(Fault::TrackOverrun));
        assert_eq!(machine.peek(BASE + 10), 0);
        assert_eq!(memory(&machine, BUFFER, 256), vec![0u8; 256]);
        assert_eq!(drives[0].content(), &formatted_image(0)[..]);
    }
}

#[test]
fn request_may_end_with_the_track() {
    let mut machine = PdsMachine::new(Vec::new(), false);
    let mut drives = one_drive();
    describe(&mut machine, BASE, RBDIN_SYNC, 0x4000, 4096, 0, 0, 76);
    let done = rom_floopy(&mut machine, &mut drives, BASE, HeaderPolicy::Strict);
    assert_eq!(done, Ok(Completion { code: 0x80, resume: None }));
    assert_eq!(memory(&machine, 0x4000 + 31 * 128, 128), payload(0, 76, 31));
    describe(&mut machine, BASE, RBDIN_SYNC, 0x4000, 4097, 0, 0, 76);
    let done = rom_floopy(&mut machine, &mut drives, BASE, HeaderPolicy::Strict);
    assert_eq!(done, Err(Fault::TrackOverrun));
    describe(&mut machine, BASE, RBDIN_SYNC, 0x4000, 128, 0, 31, 76);
    let done = rom_floopy(&mut machine, &mut drives, BASE, HeaderPolicy::Strict);
    assert_eq!(done, Ok(Completion { code: 0x80, resume: None }));
    assert_eq!(memory(&machine, 0x4000, 128), payload(0, 76, 31));
}

#[test]
fn write_assembles_records_from_memory() {
    let mut machine = PdsMachine::new(Vec::new(), false);
    let mut drives = one_drive();
    describe(&mut machine, BASE, WRTBIN_SYNC, BUFFER, 200, 0, 7, 2);
    for i in 0..256u16 {
        machine.poke(BUFFER + i, (i % 200) as u8 + 1);
    }
    for k in 0..6u16 {
        machine.poke(SCRATCH + k, 0xf0 + k as u8);
    }
    let done = rom_floopy(&mut machine, &mut drives, BASE, HeaderPolicy::Advisory);
    assert_eq!(done, Ok(Completion { code: 0x80, resume: None }));
    assert_eq!(machine.peek(BASE + 10), 0x80);

    let mut first = vec![7u8, 2];
    first.extend((0..128u16).map(|i| (i % 200) as u8 + 1));
    first.extend_from_slice(&[0xf0, 0xf1, 0xf2, 0xf3, 0xf4, 0xf5]);
    let mut second = vec![8u8, 2];
    second.extend((128..256u16).map(|i| (i % 200) as u8 + 1));
    second.extend_from_slice(&[0xf0, 0xf1, 0xf2, 0xf3, 0xf4, 0xf5]);
    assert_eq!(drives[0].read_sector(2, 7), &first[..]);
    assert_eq!(drives[0].read_sector(2, 8), &second[..]);

    let image = formatted_image(0);
    assert_eq!(drives[0].read_sector(2, 6), &image[70 * 136..71 * 136]);
    assert_eq!(drives[0].read_sector(2, 9), &image[73 * 136..74 * 136]);
    assert_eq!(&drives[0].content()[..71 * 136], &image[..71 * 136]);
    assert_eq!(&drives[0].content()[73 * 136..], &image[73 * 136..]);
}

#[test]
fn write_reads_the_bus_not_the_hidden_memory() {
    let mut machine = PdsMachine::new(vec![0x5a; 0x20], false);
    let mut drives = one_drive();
    for i in 0..0x80u16 {
        machine.poke(i, 0x11);
    }
    describe(&mut machine, BASE, WRTBIN_SYNC, 0x0000, 128, 0, 0, 0);
    rom_floopy(&mut machine, &mut drives, BASE, HeaderPolicy::Advisory).unwrap();
    let record = drives[0].read_sector(0, 0);
    assert_eq!(&record[2..0x22], &[0x5a; 0x20][..]);
    assert_eq!(&record[0x22..130], &[0x11; 0x60][..]);
}

#[test]
fn write_to_a_mirrored_drive_lists_the_records() {
    let mut machine = PdsMachine::new(Vec::new(), false);
    let mut drives = vec![
        Media::new_from_file(formatted_image(0), false).unwrap(),
        Media::new_from_file(formatted_image(1), true).unwrap(),
    ];
    describe(&mut machine, BASE, WRTBIN_ASYNC, BUFFER, 384, 1, 7, 2);
    let done = rom_floopy(&mut machine, &mut drives, BASE, HeaderPolicy::Advisory);
    assert_eq!(done, Ok(Completion { code: 0x80, resume: Some(0x4455) }));
    assert_eq!(drives[1].take_dirty(), vec![9656, 9792, 9928]);
    assert!(drives[0].take_dirty().is_empty());
    assert_eq!(drives[0].content(), &formatted_image(0)[..]);
}

#[test]
fn write_outside_the_disk_is_a_fault() {
    let mut machine = PdsMachine::new(Vec::new(), false);
    let mut drives = one_drive();
    describe(&mut machine, BASE, WRTBIN_SYNC, BUFFER, 128, 0, 0, 77);
    let done = rom_floopy(&mut machine, &mut drives, BASE, HeaderPolicy::Advisory);
    assert_eq!(done, Err(Fault::WriteOutOfRange));
    assert_eq!(machine.peek(BASE + 10), 0);
    assert_eq!(drives[0].content(), &formatted_image(0)[..]);
    describe(&mut machine, BASE, WRTBIN_SYNC, BUFFER, 0, 0, 0, 77);
    let done = rom_floopy(&mut machine, &mut drives, BASE, HeaderPolicy::Advisory);
    assert_eq!(done, Ok(Completion { code: 0x80, resume: None }));
}

#[test]
fn read_outside_the_disk_delivers_nothing() {
    let mut machine = PdsMachine::new(Vec::new(), false);
    let mut drives = one_drive();
    describe(&mut machine, BASE, RBDIN_ASYNC, BUFFER, 256, 0, 0, 200);
    let done = rom_floopy(&mut machine, &mut drives, BASE, HeaderPolicy::Strict);
    assert_eq!(done, Ok(Completion { code: 0x80, resume: Some(0x4455) }));
    assert_eq!(memory(&machine, BUFFER, 256), vec![0u8; 256]);
    assert_eq!(memory(&machine, SCRATCH, 6), vec![0u8; 6]);
}

#[test]
fn strict_policy_checks_the_headers_read() {
    let mut image = formatted_image(0);
    image[(5 * 32 + 4) * 136 + 1] = 6;
    let mut machine = PdsMachine::new(Vec::new(), false);
    let mut drives = vec![Media::new_from_bytes(&image).unwrap()];
    describe(&mut machine, BASE, RBDIN_SYNC, BUFFER, 256, 0, 3, 5);
    let done = rom_floopy(&mut machine, &mut drives, BASE, HeaderPolicy::Strict);
    assert_eq!(done, Err(Fault::HeaderMismatch));
    assert_eq!(machine.peek(BASE + 10), 0);
    assert_eq!(memory(&machine, BUFFER, 256), vec![0u8; 256]);
    let done = rom_floopy(&mut machine, &mut drives, BASE, HeaderPolicy::Advisory);
    assert_eq!(done, Ok(Completion { code: 0x80, resume: None }));
    assert_eq!(memory(&machine, BUFFER + 128, 128), payload(0, 5, 4));
    describe(&mut machine, BASE, RBDIN_SYNC, BUFFER, 128, 0, 3, 5);
    let done = rom_floopy(&mut machine, &mut drives, BASE, HeaderPolicy::Strict);
    assert_eq!(done, Ok(Completion { code: 0x80, resume: None }));
}

#[test]
fn strict_policy_checks_the_sector_number_without_its_high_bit() {
    let mut image = formatted_image(0);
    image[(5 * 32 + 3) * 136] = 3;
    image[(5 * 32 + 4) * 136] = 0x85;
    let mut machine = PdsMachine::new(Vec::new(), false);
    let mut drives = vec![Media::new_from_bytes(&image).unwrap()];
    describe(&mut machine, BASE, RBDIN_SYNC, BUFFER, 128, 0, 3, 5);
    let done = rom_floopy(&mut machine, &mut drives, BASE, HeaderPolicy::Strict);
    assert_eq!(done, Ok(Completion { code: 0x80, resume: None }));
    describe(&mut machine, BASE, RBDIN_SYNC, BUFFER, 128, 0, 4, 5);
    let done = rom_floopy(&mut machine, &mut drives, BASE, HeaderPolicy::Strict);
    assert_eq!(done, Err(Fault::HeaderMismatch));
}

#[test]
fn strict_policy_accepts_what_the_controller_wrote() {
    let mut machine = PdsMachine::new(Vec::new(), false);
    let mut drives = vec![Media::new_from_bytes(&vec![0u8; 335_104]).unwrap()];
    describe(&mut machine, BASE, RBDIN_SYNC, BUFFER, 256, 0, 9, 3);
    let done = rom_floopy(&mut machine, &mut drives, BASE, HeaderPolicy::Strict);
    assert_eq!(done, Err(Fault::HeaderMismatch));
    describe(&mut machine, BASE, WRTBIN_SYNC, BUFFER, 256, 0, 9, 3);
    let done = rom_floopy(&mut machine, &mut drives, BASE, HeaderPolicy::Strict);
    assert_eq!(done, Ok(Completion { code: 0x80, resume: None }));
    describe(&mut machine, BASE, RBDIN_SYNC, BUFFER, 256, 0, 9, 3);
    let done = rom_floopy(&mut machine, &mut drives, BASE, HeaderPolicy::Strict);
    assert_eq!(done, Ok(Completion { code: 0x80, resume: None }));
}

#[test]
fn faults_are_found_without_serving() {
    let mut machine = PdsMachine::new(Vec::new(), false);
    let drives = one_drive();
    describe(&mut machine, BASE, WRTBIN_SYNC, BUFFER, 128, 0, 0, 77);
    let request = read_request(&machine, BASE);
    assert_eq!(find_fault(&request, &drives, HeaderPolicy::Advisory), Some(Fault::WriteOutOfRange));
    describe(&mut machine, BASE, WRTBIN_SYNC, BUFFER, 128, 0, 0, 76);
    let request = read_request(&machine, BASE);
    assert_eq!(find_fault(&request, &drives, HeaderPolicy::Strict), None);
    describe(&mut machine, BASE, WRTBIN_SYNC, BUFFER, 256, 0, 31, 76);
    let request = read_request(&machine, BASE);
    assert_eq!(find_fault(&request, &drives, HeaderPolicy::Strict), Some(Fault::TrackOverrun));
}

#[test]
fn single_sector_read_and_write() {
    let mut machine = PdsMachine::new(Vec::new(), false);
    let mut media = Media::new_from_bytes(&formatted_image(7)).unwrap();
    read_disk_sector(&mut machine, &media, 0x5000, 12, 34);
    assert_eq!(memory(&machine, 0x5000, 128), payload(7, 34, 12));
    assert_eq!(memory(&machine, SCRATCH, 6), trailer(7, 34, 12));
    read_disk_sector(&mut machine, &media, 0x6000, 32, 34);
    assert_eq!(memory(&machine, 0x6000, 128), vec![0u8; 128]);
    assert_eq!(memory(&machine, SCRATCH, 6), trailer(7, 34, 12));

    assert_eq!(write_disk_sector(&machine, &mut media, 0x5000, 13, 35), Ok(()));
    let mut expected = vec![13u8, 35];
    expected.extend(payload(7, 34, 12));
    expected.extend(trailer(7, 34, 12));
    assert_eq!(media.read_sector(35, 13), &expected[..]);
    assert_eq!(
        write_disk_sector(&machine, &mut media, 0x5000, 13, 77),
        Err(MediaError::InvalidCoordinates { track: 77, sector: 13 })
    );
    assert_eq!(
        write_disk_sector(&machine, &mut media, 0x5000, 0x85, 0),
        Err(MediaError::InvalidCoordinates { track: 0, sector: 0x85 })
    );
}
