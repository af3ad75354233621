//! Disk images: a fixed geometry of tracks and sectors over a flat byte buffer.
//!
//! Every sector is stored as one record: the sector number, the track number,
//! the payload, and six trailer bytes (two link pointers and a CRC) that this
//! layer passes through untouched.

use vstd::prelude::*;
use vstd::slice::slice_subrange;
use vstd::slice::slice_to_vec;

verus! {

/// Payload bytes of a sector in the standard format.
pub const SECTOR_SIZE: usize = 128;

/// Bytes that frame the payload of every record: two header bytes and six
/// trailer bytes.
pub const RECORD_OVERHEAD: usize = 8;

/// Bytes of a whole record in the standard format.
pub const SECTOR_SIZE_IN_FILE: usize = SECTOR_SIZE + 8;

/// Sectors of a track in the standard format.
pub const SECTOR_COUNT: usize = 32;

/// Tracks of a disk in the standard format.
pub const TRACK_COUNT: usize = 77;

/// Shape of a disk: how many tracks, how many sectors on each, how many
/// payload bytes in each sector.
#[derive(Clone, Copy, Debug, PartialEq, Eq, Structural)]
pub struct Geometry {
    pub tracks: usize,
    pub sectors: usize,
    pub sector_size: usize,
}

impl Geometry {
    /// Bytes of one record: the payload and its frame.
    pub open spec fn record_size(self) -> int {
        self.sector_size + 8
    }

    /// Bytes of a whole image.
    pub open spec fn total(self) -> int {
        self.tracks * self.sectors * self.record_size()
    }

    /// The image size is representable.
    pub open spec fn valid(self) -> bool {
        self.total() <= usize::MAX && self.record_size() <= usize::MAX
    }

    /// The coordinates name a sector of this disk.
    pub open spec fn holds(self, track: int, sector: int) -> bool {
        0 <= track < self.tracks && 0 <= sector < self.sectors
    }

    /// Byte offset of a record: track-major, sector-minor.
    pub open spec fn offset(self, track: int, sector: int) -> int {
        (track * self.sectors + sector) * self.record_size()
    }

    /// The geometry of the standard single-sided disk.
    pub open spec fn spec_standard() -> Geometry {
        Geometry { tracks: 77, sectors: 32, sector_size: 128 }
    }

    /// Every record of a disk lies inside the image, and records do not
    /// overlap.
    pub proof fn lemma_offset_bounds(self, track: int, sector: int)
        requires
            self.holds(track, sector),
        ensures
            0 <= track * self.sectors <= self.tracks * self.sectors,
            0 <= track * self.sectors + sector < self.tracks * self.sectors,
            0 <= self.offset(track, sector),
            self.offset(track, sector) + self.record_size() <= self.total(),
    {
        let rs = self.record_size();
        let idx = track * self.sectors + sector;
        let count = self.tracks * self.sectors;
        assert(0 <= track * self.sectors && idx + 1 <= count) by (nonlinear_arith)
            requires
                0 <= track < self.tracks,
                0 <= sector < self.sectors,
                idx == track * self.sectors + sector,
                count == self.tracks * self.sectors,
        ;
        assert(0 <= idx * rs && idx * rs + rs <= count * rs) by (nonlinear_arith)
            requires
                0 <= idx,
                idx + 1 <= count,
                rs >= 8,
        ;
        assert(track * self.sectors <= count) by (nonlinear_arith)
            requires
                0 <= track < self.tracks,
                0 <= self.sectors,
                count == self.tracks * self.sectors,
        ;
    }

    /// Distinct sectors have disjoint records.
    pub proof fn lemma_offset_disjoint(self, t1: int, s1: int, t2: int, s2: int)
        requires
            self.holds(t1, s1),
            self.holds(t2, s2),
            t1 != t2 || s1 != s2,
        ensures
            self.offset(t1, s1) + self.record_size() <= self.offset(t2, s2) || self.offset(t2, s2)
                + self.record_size() <= self.offset(t1, s1),
    {
        let rs = self.record_size();
        let i1 = t1 * self.sectors + s1;
        let i2 = t2 * self.sectors + s2;
        assert(i1 != i2) by (nonlinear_arith)
            requires
                0 <= s1 < self.sectors,
                0 <= s2 < self.sectors,
                t1 != t2 || s1 != s2,
                i1 == t1 * self.sectors + s1,
                i2 == t2 * self.sectors + s2,
        ;
        assert(i1 * rs + rs <= i2 * rs || i2 * rs + rs <= i1 * rs) by (nonlinear_arith)
            requires
                i1 != i2,
                rs >= 8,
        ;
    }

    /// The standard geometry: 77 tracks of 32 sectors of 128 bytes.
    pub fn standard() -> (g: Geometry)
        ensures
            g == Self::spec_standard(),
            g.valid(),
            g.total() == 335104,
    {
        assert(77 * 32 * (128 + 8) == 335104) by (nonlinear_arith);
        Geometry { tracks: TRACK_COUNT, sectors: SECTOR_COUNT, sector_size: SECTOR_SIZE }
    }

    /// The image size in bytes, where it is representable.
    pub fn image_len(&self) -> (n: Option<usize>)
        ensures
            self.valid() <==> n.is_some(),
            n.is_some() ==> n.unwrap() == self.total(),
    {
        let rs: usize = match self.sector_size.checked_add(RECORD_OVERHEAD) {
            Some(v) => v,
            None => {
                return None;
            },
        };
        if self.tracks == 0 || self.sectors == 0 {
            assert(self.tracks * self.sectors * self.record_size() == 0) by (nonlinear_arith)
                requires
                    self.tracks == 0 || self.sectors == 0,
            ;
            return Some(0);
        }
        let count: usize = match self.tracks.checked_mul(self.sectors) {
            Some(v) => v,
            None => {
                assert(self.tracks * self.sectors * self.record_size() > usize::MAX)
                    by (nonlinear_arith)
                    requires
                        self.tracks * self.sectors > usize::MAX,
                        self.record_size() >= 8,
                ;
                return None;
            },
        };
        count.checked_mul(rs)
    }

    /// Byte offset of the record at the coordinates.
    pub fn record_offset(&self, track: usize, sector: usize) -> (start: usize)
        requires
            self.valid(),
            self.holds(track as int, sector as int),
        ensures
            start == self.offset(track as int, sector as int),
            start + self.record_size() <= self.total(),
    {
        proof {
            self.lemma_offset_bounds(track as int, sector as int);
            assert(self.tracks * self.sectors <= self.tracks * self.sectors * self.record_size())
                by (nonlinear_arith)
                requires
                    self.record_size() >= 8,
                    0 <= self.tracks * self.sectors,
            ;
        }
        let rs: usize = self.sector_size + RECORD_OVERHEAD;
        let row: usize = track * self.sectors;
        let index: usize = row + sector;
        assert(index * rs <= self.total()) by {
            assert(index * rs == self.offset(track as int, sector as int));
        }
        index * rs
    }

    /// Tests whether the coordinates name a sector of this disk.
    pub fn contains(&self, track: usize, sector: usize) -> (b: bool)
        ensures
            b == self.holds(track as int, sector as int),
    {
        track < self.tracks && sector < self.sectors
    }
}

/// Why an image or a sector write was refused.
#[derive(Clone, Copy, Debug, PartialEq, Eq, Structural)]
pub enum MediaError {
    /// The geometry describes an image too large to address.
    InvalidGeometry,
    /// The image does not have the length its geometry demands.
    UnrecognizedFormat { len: usize },
    /// The coordinates name no sector of the disk.
    InvalidCoordinates { track: usize, sector: usize },
    /// The bytes handed in are not one whole record.
    RecordLength { len: usize },
}

/// The image that results from replacing the bytes at `offset` by `data`.
pub open spec fn put_record(content: Seq<u8>, offset: int, data: Seq<u8>) -> Seq<u8> {
    Seq::new(
        content.len(),
        |i: int|
            if offset <= i < offset + data.len() {
                data[i - offset]
            } else {
                content[i]
            },
    )
}

/// One disk image, held in memory.
///
/// An image opened from a writable file is `backed`: every record written to
/// it is also entered in a list of pending offsets, in the order of the
/// writes, for the owner to copy to the file.
pub struct Media {
    geometry: Geometry,
    content: Vec<u8>,
    backed: bool,
    dirty: Vec<usize>,
}

impl View for Media {
    type V = Seq<u8>;

    /// The bytes of the image.
    closed spec fn view(&self) -> Seq<u8> {
        self.content@
    }
}

impl Media {
    /// The geometry the image was loaded with.
    pub closed spec fn geometry(&self) -> Geometry {
        self.geometry
    }

    /// Whether writes are to be mirrored to a backing store.
    pub closed spec fn backed(&self) -> bool {
        self.backed
    }

    /// Offsets of the records written since the list was last taken.
    pub closed spec fn dirty(&self) -> Seq<usize> {
        self.dirty@
    }

    /// The image has the length of its geometry, and every pending offset
    /// names a whole record inside it.
    pub closed spec fn wf(&self) -> bool {
        &&& self.geometry.valid()
        &&& self.content@.len() == self.geometry.total()
        &&& forall|k: int|
            0 <= k < self.dirty@.len() ==> #[trigger] self.dirty@[k] + self.geometry.record_size()
                <= self.content@.len()
    }

    /// The record at the coordinates, or nothing where they are out of range.
    pub open spec fn record(&self, track: int, sector: int) -> Seq<u8> {
        if self.geometry().holds(track, sector) {
            self@.subrange(
                self.geometry().offset(track, sector),
                self.geometry().offset(track, sector) + self.geometry().record_size(),
            )
        } else {
            Seq::empty()
        }
    }

    /// A well-formed image has the length of its geometry, and each of its
    /// records is whole.
    pub proof fn lemma_record_len(&self, track: int, sector: int)
        requires
            self.wf(),
        ensures
            self.geometry().valid(),
            self@.len() == self.geometry().total(),
            self.record(track, sector).len() == if self.geometry().holds(track, sector) {
                self.geometry().record_size()
            } else {
                0
            },
    {
        if self.geometry().holds(track, sector) {
            self.geometry().lemma_offset_bounds(track, sector);
        }
    }

    /// Loads an image of the given geometry.
    pub fn with_geometry(geometry: Geometry, content: Vec<u8>, backed: bool) -> (r: Result<
        Media,
        MediaError,
    >)
        ensures
            match r {
                Ok(m) => {
                    &&& geometry.valid()
                    &&& content@.len() == geometry.total()
                    &&& m.wf()
                    &&& m.geometry() == geometry
                    &&& m@ == content@
                    &&& m.backed() == backed
                    &&& m.dirty() == Seq::<usize>::empty()
                },
                Err(e) => {
                    &&& !geometry.valid() || content@.len() != geometry.total()
                    &&& e == if !geometry.valid() {
                        MediaError::InvalidGeometry
                    } else {
                        MediaError::UnrecognizedFormat { len: content.len() }
                    }
                },
            },
    {
        match geometry.image_len() {
            None => Err(MediaError::InvalidGeometry),
            Some(n) => {
                if content.len() != n {
                    Err(MediaError::UnrecognizedFormat { len: content.len() })
                } else {
                    Ok(Media { geometry, content, backed, dirty: Vec::new() })
                }
            },
        }
    }

    /// Loads a standard image from bytes held in memory. Nothing is mirrored.
    pub fn new_from_bytes(content: &[u8]) -> (r: Result<Media, MediaError>)
        ensures
            match r {
                Ok(m) => {
                    &&& content@.len() == 335104
                    &&& m.wf()
                    &&& m.geometry() == Geometry::spec_standard()
                    &&& m@ == content@
                    &&& !m.backed()
                    &&& m.dirty() == Seq::<usize>::empty()
                },
                Err(e) => {
                    &&& content@.len() != 335104
                    &&& e == MediaError::UnrecognizedFormat { len: content.len() }
                },
            },
    {
        Self::with_geometry(Geometry::standard(), slice_to_vec(content), false)
    }

    /// Loads a standard image from the bytes read out of a file. `writable`
    /// says whether the file could be opened for writing: only then are
    /// later writes mirrored to it.
    pub fn new_from_file(content: Vec<u8>, writable: bool) -> (r: Result<Media, MediaError>)
        ensures
            match r {
                Ok(m) => {
                    &&& content@.len() == 335104
                    &&& m.wf()
                    &&& m.geometry() == Geometry::spec_standard()
                    &&& m@ == content@
                    &&& m.backed() == writable
                    &&& m.dirty() == Seq::<usize>::empty()
                },
                Err(e) => {
                    &&& content@.len() != 335104
                    &&& e == MediaError::UnrecognizedFormat { len: content.len() }
                },
            },
    {
        Self::with_geometry(Geometry::standard(), content, writable)
    }

    /// The geometry of the image.
    pub fn shape(&self) -> (g: Geometry)
        requires
            self.wf(),
        ensures
            g == self.geometry(),
            g.valid(),
    {
        self.geometry
    }

    /// The bytes of the whole image.
    pub fn content(&self) -> (bytes: &[u8])
        requires
            self.wf(),
        ensures
            bytes@ == self@,
            bytes@.len() == self.geometry().total(),
    {
        self.content.as_slice()
    }

    /// Whether writes are to be mirrored to a backing store.
    pub fn is_backed(&self) -> (b: bool)
        ensures
            b == self.backed(),
    {
        self.backed
    }

    /// Reads one record. Coordinates out of range give an empty slice.
    pub fn read_sector(&self, track: usize, sector: usize) -> (record: &[u8])
        requires
            self.wf(),
        ensures
            record@ == self.record(track as int, sector as int),
            self.geometry().holds(track as int, sector as int) ==> record@.len()
                == self.geometry().record_size(),
            !self.geometry().holds(track as int, sector as int) ==> record@.len() == 0,
    {
        if !self.geometry.contains(track, sector) {
            return slice_subrange(self.content.as_slice(), 0, 0);
        }
        proof {
            self.geometry.lemma_offset_bounds(track as int, sector as int);
        }
        let rs: usize = self.geometry.sector_size + RECORD_OVERHEAD;
        let start: usize = self.geometry.record_offset(track, sector);
        slice_subrange(self.content.as_slice(), start, start + rs)
    }

    /// Writes one record. The coordinates are tested first, then the length
    /// of `data`; a refused write changes nothing.
    pub fn write_sector(&mut self, track: usize, sector: usize, data: &[u8]) -> (r: Result<
        (),
        MediaError,
    >)
        requires
            old(self).wf(),
        ensures
            final(self).wf(),
            final(self).geometry() == old(self).geometry(),
            final(self).backed() == old(self).backed(),
            match r {
                Ok(()) => {
                    &&& old(self).geometry().holds(track as int, sector as int)
                    &&& data@.len() == old(self).geometry().record_size()
                    &&& final(self)@ == put_record(
                        old(self)@,
                        old(self).geometry().offset(track as int, sector as int),
                        data@,
                    )
                    &&& final(self).dirty() == if old(self).backed() {
                        old(self).dirty().push(
                            old(self).geometry().offset(track as int, sector as int) as usize,
                        )
                    } else {
                        old(self).dirty()
                    }
                },
                Err(e) => {
                    &&& final(self)@ == old(self)@
                    &&& final(self).dirty() == old(self).dirty()
                    &&& e == if !old(self).geometry().holds(track as int, sector as int) {
                        MediaError::InvalidCoordinates { track, sector }
                    } else {
                        MediaError::RecordLength { len: data.len() }
                    }
                    &&& !old(self).geometry().holds(track as int, sector as int) || data@.len()
                        != old(self).geometry().record_size()
                },
            },
    {
        if !self.geometry.contains(track, sector) {
            return Err(MediaError::InvalidCoordinates { track, sector });
        }
        let rs: usize = self.geometry.sector_size + RECORD_OVERHEAD;
        if data.len() != rs {
            return Err(MediaError::RecordLength { len: data.len() });
        }
        let start: usize = self.geometry.record_offset(track, sector);
        let mut i: usize = 0;
        while i < rs
            invariant
                0 <= i <= rs,
                rs == data@.len(),
                rs == self.geometry.record_size(),
                start + rs <= self.content@.len(),
                self.geometry == old(self).geometry,
                self.backed == old(self).backed,
                self.dirty == old(self).dirty,
                self.wf(),
                self.content@ == put_record(old(self).content@, start as int, data@.take(i as int)),
            decreases rs - i,
        {
            self.content[start + i] = data[i];
            i = i + 1;
            assert(self.content@ =~= put_record(
                old(self).content@,
                start as int,
                data@.take(i as int),
            ));
        }
        assert(data@.take(rs as int) =~= data@);
        if self.backed {
            self.dirty.push(start);
        }
        Ok(())
    }

    /// Hands out the offsets of the records written since the last call, in
    /// the order of the writes, and empties the list.
    pub fn take_dirty(&mut self) -> (offsets: Vec<usize>)
        requires
            old(self).wf(),
        ensures
            final(self).wf(),
            offsets@ == old(self).dirty(),
            final(self).dirty() == Seq::<usize>::empty(),
            final(self)@ == old(self)@,
            final(self).geometry() == old(self).geometry(),
            final(self).backed() == old(self).backed(),
            forall|k: int|
                0 <= k < offsets@.len() ==> #[trigger] offsets@[k] + old(
                    self,
                ).geometry().record_size() <= old(self)@.len(),
    {
        let mut offsets: Vec<usize> = Vec::new();
        core::mem::swap(&mut self.dirty, &mut offsets);
        offsets
    }
}

/// A record that was written is the record that is read back: after a write
/// of `data` at coordinates inside the geometry, reading the same coordinates
/// gives exactly `data`.
pub proof fn lemma_write_then_read(before: Media, after: Media, track: int, sector: int, data: Seq<u8>)
    requires
        before.wf(),
        before.geometry().holds(track, sector),
        data.len() == before.geometry().record_size(),
        after.geometry() == before.geometry(),
        after@ == put_record(before@, before.geometry().offset(track, sector), data),
    ensures
        after.record(track, sector) == data,
{
    before.geometry().lemma_offset_bounds(track, sector);
    assert(after.record(track, sector) =~= data);
}

/// A write leaves every other sector as it was.
pub proof fn lemma_write_keeps_others(
    before: Media,
    after: Media,
    track: int,
    sector: int,
    data: Seq<u8>,
    other_track: int,
    other_sector: int,
)
    requires
        before.wf(),
        before.geometry().holds(track, sector),
        data.len() == before.geometry().record_size(),
        after.geometry() == before.geometry(),
        after@ == put_record(before@, before.geometry().offset(track, sector), data),
        other_track != track || other_sector != sector,
    ensures
        after.record(other_track, other_sector) == before.record(other_track, other_sector),
{
    let g = before.geometry();
    if g.holds(other_track, other_sector) {
        g.lemma_offset_bounds(track, sector);
        g.lemma_offset_bounds(other_track, other_sector);
        g.lemma_offset_disjoint(track, sector, other_track, other_sector);
        assert(after.record(other_track, other_sector) =~= before.record(
            other_track,
            other_sector,
        ));
    }
}

} // verus!
