//! FORMAT's steps: after the question, the tracks are filled, the
//! partition table (hard disk), boot sector, FATs and root directory are
//! written, the tracks are read back when asked, and a summary is shown.
//!
//! `FormatJob::request` tells what outside work the current phase needs,
//! and `FormatJob::advance` takes the answer and decides what follows.

use vstd::prelude::*;
use crate::text::{string_of, upper_byte, ascii_upper};
use crate::memory::{MemoryAccess, image, Image};
use crate::commands::format::{
    BpbParams, floppy_bpb, floppy_bpb_params, hdd_bpb, hdd_bpb_params, hdd_layout_converges, hdd_layout_solvable,
    zeros, div_ceil, partition_sector, partition_table_sector, hdd_boot, hdd_boot_sector,
    floppy_boot, floppy_boot_sector, fat_image, fat_sectors_image, volume_space, summary_text,
    format_summary, format_request, format_arguments, warning_text, format_warning,
};

verus! {

/// Where a format stands.
#[derive(Clone, Copy, Debug, PartialEq, Eq, Structural)]
pub enum FormatPhase {
    Confirm,
    FormatTrack,
    WritePartitionTable,
    WriteBootSector,
    WriteFat,
    WriteRootDir,
    VerifyTrack,
    Summary,
    /// The command ended with this exit code.
    Done(u8),
}

/// The state of a format: the drive (index and DA/UA), its geometry, the
/// track being worked on, where the partition starts (hard disk), and the
/// switches.
#[derive(Clone, Copy, Debug)]
pub struct FormatJob {
    pub drive_index: u8,
    pub da_ua: u8,
    pub heads: u8,
    pub sectors_per_track: u8,
    pub sector_size: u16,
    pub total_sectors: u32,
    pub total_tracks: u32,
    pub current_track: u32,
    pub partition_offset: u32,
    pub is_hdd: bool,
    pub quick: bool,
    pub verify: bool,
    pub phase: FormatPhase,
}

/// The outside work that the current phase needs.
#[derive(Debug)]
pub enum FormatRequest {
    /// Whether a key is waiting, and which.
    Key,
    /// Write these sectors in order (first sector, data), stopping at the
    /// first that fails.
    Write { da_ua: u8, writes: Vec<(u32, Vec<u8>)> },
    /// Read `count` sectors from `lba`.
    Read { da_ua: u8, lba: u32, count: u32 },
    /// Nothing: the phase decides on its own.
    Proceed,
    /// Nothing more: the command has ended.
    Finished(u8),
}

/// The answer to a request.
#[derive(Debug, Clone, Copy, PartialEq, Eq, Structural)]
pub enum FormatReply {
    NoKey,
    Key(u8),
    /// Whether all the writes succeeded.
    Written(bool),
    /// Whether the read succeeded.
    Read(bool),
    Proceed,
}

/// What one step asks of the caller besides the new state.
pub struct FormatStep {
    /// Text to show.
    pub output: String,
    /// Take the waiting key from the keyboard buffer.
    pub take_key: bool,
    /// Forget what is cached of this drive's volume.
    pub invalidate_drive: Option<u8>,
}

/// A request as the contracts see it.
pub enum RequestView {
    Key,
    Write(u8, Seq<(u32, Seq<u8>)>),
    Read(u8, u32, u32),
    Proceed,
    Finished(u8),
}

pub open spec fn request_view(r: FormatRequest) -> RequestView {
    match r {
        FormatRequest::Key => RequestView::Key,
        FormatRequest::Write { da_ua, writes } => RequestView::Write(
            da_ua,
            writes_view(writes@),
        ),
        FormatRequest::Read { da_ua, lba, count } => RequestView::Read(da_ua, lba, count),
        FormatRequest::Proceed => RequestView::Proceed,
        FormatRequest::Finished(c) => RequestView::Finished(c),
    }
}

/// The sectors of the volume: the partition on a hard disk, the whole
/// disk on a floppy.
pub open spec fn volume_sectors(v: FormatJob) -> u32 {
    if v.is_hdd {
        (v.total_sectors - v.partition_offset) as u32
    } else {
        v.total_sectors
    }
}

/// The BPB the format writes.
#[verifier::opaque]
pub open spec fn job_bpb(v: FormatJob) -> BpbParams {
    if v.is_hdd {
        hdd_bpb(v.sector_size, volume_sectors(v))
    } else {
        floppy_bpb(v.da_ua & 0xF0)
    }
}

/// The first sector of the first FAT.
pub open spec fn fat_base(v: FormatJob) -> int {
    (if v.is_hdd {
        v.partition_offset as int
    } else {
        0
    }) + job_bpb(v).reserved_sectors
}

/// The first sector of the root directory.
pub open spec fn root_base(v: FormatJob) -> int {
    fat_base(v) + job_bpb(v).num_fats * job_bpb(v).sectors_per_fat
}

/// The sectors of the root directory.
pub open spec fn root_sectors(v: FormatJob) -> nat {
    div_ceil(job_bpb(v).root_entry_count as nat * 32, v.sector_size as nat)
}

/// A job whose steps can work: the drive letter exists, sectors are large
/// enough for a boot sector, a floppy is of a known type (and gets no
/// partition table), a hard disk has room for its partition, and sector
/// numbers fit.
pub open spec fn format_wf(v: FormatJob) -> bool {
    &&& v.drive_index < 26
    &&& v.sector_size >= 36
    &&& v.total_tracks * v.sectors_per_track <= u32::MAX
    &&& !v.is_hdd ==> ((v.da_ua & 0xF0) == 0x90 || (v.da_ua & 0xF0) == 0x70)
    &&& v.phase == FormatPhase::WritePartitionTable ==> v.is_hdd
    &&& v.is_hdd ==> {
        &&& v.heads > 0
        &&& v.sectors_per_track > 0
        &&& v.total_sectors >= 1
        &&& v.total_sectors >= v.partition_offset
    }
}

/// What the steps that write the file system need: the partition's FAT
/// layout can be found (hard disk), and the file system's sectors are
/// numbered within 32 bits with room for its FAT marks.
#[verifier::opaque]
pub open spec fn layout_ready(v: FormatJob) -> bool {
    &&& v.is_hdd ==> hdd_layout_converges(v.sector_size, volume_sectors(v))
    &&& job_bpb(v).sectors_per_fat * v.sector_size >= 4
    &&& root_base(v) + root_sectors(v) <= u32::MAX
}

/// The track fill: the current track's sectors, all F6h.
#[verifier::opaque]
pub open spec fn track_fill_writes(v: FormatJob) -> Seq<(u32, Seq<u8>)> {
    seq![
        (
            (v.current_track * v.sectors_per_track) as u32,
            Seq::new((v.sectors_per_track * v.sector_size) as nat, |i: int| 0xF6u8),
        ),
    ]
}

/// The hard disk's first sectors: the IPL sector cleared, then the
/// partition table.
#[verifier::opaque]
pub open spec fn partition_writes(v: FormatJob) -> Seq<(u32, Seq<u8>)> {
    seq![
        (0u32, zeros(v.sector_size as nat)),
        (1u32, partition_sector(v.sector_size as nat, v.total_sectors, v.heads, v.sectors_per_track)),
    ]
}

/// The boot sector, at the partition's start on a hard disk, at sector 0
/// on a floppy.
#[verifier::opaque]
pub open spec fn boot_writes(v: FormatJob) -> Seq<(u32, Seq<u8>)> {
    let ss = v.sector_size as nat;
    seq![
        if v.is_hdd {
            (
                v.partition_offset,
                hdd_boot(ss, volume_sectors(v), job_bpb(v), v.sectors_per_track, v.heads, v.partition_offset),
            )
        } else {
            (0u32, floppy_boot(ss, v.total_sectors, job_bpb(v), v.sectors_per_track, v.heads))
        },
    ]
}

/// The root directory's sectors, cleared.
#[verifier::opaque]
pub open spec fn root_writes(v: FormatJob) -> Seq<(u32, Seq<u8>)> {
    seq![(root_base(v) as u32, zeros(root_sectors(v) * v.sector_size as nat))]
}

/// The request of a phase.
pub open spec fn request_of(v: FormatJob) -> RequestView {
    match v.phase {
        FormatPhase::Confirm => RequestView::Key,
        FormatPhase::FormatTrack => if v.current_track < v.total_tracks {
            RequestView::Write(v.da_ua, track_fill_writes(v))
        } else {
            RequestView::Proceed
        },
        FormatPhase::WritePartitionTable => RequestView::Write(v.da_ua, partition_writes(v)),
        FormatPhase::WriteBootSector => RequestView::Write(v.da_ua, boot_writes(v)),
        FormatPhase::WriteFat => RequestView::Write(
            v.da_ua,
            fat_write_list(job_bpb(v), fat_base(v) as u32, v.sector_size as nat),
        ),
        FormatPhase::WriteRootDir => RequestView::Write(v.da_ua, root_writes(v)),
        FormatPhase::VerifyTrack => if v.current_track < v.total_tracks {
            RequestView::Read(
                v.da_ua,
                (v.current_track * v.sectors_per_track) as u32,
                v.sectors_per_track as u32,
            )
        } else {
            RequestView::Proceed
        },
        FormatPhase::Summary => RequestView::Proceed,
        FormatPhase::Done(c) => RequestView::Finished(c),
    }
}

/// The view of a list of sector writes.
pub open spec fn writes_view(w: Seq<(u32, Vec<u8>)>) -> Seq<(u32, Seq<u8>)> {
    w.map_values(|w: (u32, Vec<u8>)| (w.0, w.1@))
}

/// The reply answers the request.
pub open spec fn reply_fits(v: FormatJob, r: FormatReply) -> bool {
    match request_of(v) {
        RequestView::Key => r is NoKey || r is Key,
        RequestView::Write(..) => r is Written,
        RequestView::Read(..) => r is Read,
        _ => r is Proceed,
    }
}

/// The job after a step, the text shown, whether a key is taken, and the
/// drive whose cached volume is dropped.
pub open spec fn next_of(v: FormatJob, r: FormatReply) -> (FormatJob, Seq<char>, bool, Option<u8>) {
    let done = |c: u8| FormatJob { phase: FormatPhase::Done(c), ..v };
    let write_error = (done(1), "Write error\r\n"@, false, None::<u8>);
    match v.phase {
        FormatPhase::Confirm => match r {
            FormatReply::Key(k) => if upper_byte(k) == 0x59 {
                (
                    FormatJob {
                        phase: if v.is_hdd {
                            FormatPhase::WritePartitionTable
                        } else if v.quick {
                            FormatPhase::WriteBootSector
                        } else {
                            FormatPhase::FormatTrack
                        },
                        ..v
                    },
                    "\r\n"@,
                    true,
                    None,
                )
            } else {
                (done(0), "\r\nFormat terminated.\r\n"@, true, None)
            },
            _ => (v, Seq::empty(), false, None),
        },
        FormatPhase::FormatTrack => if v.current_track >= v.total_tracks {
            (FormatJob { phase: FormatPhase::WriteBootSector, ..v }, Seq::empty(), false, None)
        } else if r == FormatReply::Written(true) {
            (
                FormatJob { current_track: (v.current_track + 1) as u32, ..v },
                Seq::empty(),
                false,
                None,
            )
        } else {
            (done(1), "Write error during format\r\n"@, false, None)
        },
        FormatPhase::WritePartitionTable => if r == FormatReply::Written(true) {
            (FormatJob { phase: FormatPhase::WriteBootSector, ..v }, Seq::empty(), false, None)
        } else {
            write_error
        },
        FormatPhase::WriteBootSector => if r == FormatReply::Written(true) {
            (FormatJob { phase: FormatPhase::WriteFat, ..v }, Seq::empty(), false, None)
        } else {
            write_error
        },
        FormatPhase::WriteFat => if r == FormatReply::Written(true) {
            (FormatJob { phase: FormatPhase::WriteRootDir, ..v }, Seq::empty(), false, None)
        } else {
            write_error
        },
        FormatPhase::WriteRootDir => if r == FormatReply::Written(true) {
            if !v.is_hdd && v.verify {
                (
                    FormatJob { current_track: 0, phase: FormatPhase::VerifyTrack, ..v },
                    Seq::empty(),
                    false,
                    None,
                )
            } else {
                (FormatJob { phase: FormatPhase::Summary, ..v }, Seq::empty(), false, None)
            }
        } else {
            write_error
        },
        FormatPhase::VerifyTrack => if v.current_track >= v.total_tracks {
            (FormatJob { phase: FormatPhase::Summary, ..v }, Seq::empty(), false, None)
        } else if r == FormatReply::Read(true) {
            (
                FormatJob { current_track: (v.current_track + 1) as u32, ..v },
                Seq::empty(),
                false,
                None,
            )
        } else {
            (done(1), "Verify error\r\n"@, false, None)
        },
        FormatPhase::Summary => {
            let space = volume_space(volume_sectors(v), v.sector_size, job_bpb(v));
            (done(0), summary_text(space.0, space.1), false, Some(v.drive_index))
        },
        FormatPhase::Done(_) => (v, Seq::empty(), false, None),
    }
}

/// The writes of the FATs: each FAT's image at its place, one after the
/// other from `base`.
#[verifier::opaque]
pub open spec fn fat_write_list(bpb: BpbParams, base: u32, sector_size: nat) -> Seq<(u32, Seq<u8>)> {
    Seq::new(
        bpb.num_fats as nat,
        |i: int| ((base + i * bpb.sectors_per_fat) as u32, fat_image(bpb, sector_size)),
    )
}

fn fat_writes(bpb: &BpbParams, base: u32, sector_size: u16) -> (r: Vec<(u32, Vec<u8>)>)
    requires
        bpb.sectors_per_fat * sector_size >= 4,
        base + bpb.num_fats * bpb.sectors_per_fat <= u32::MAX,
    ensures
        writes_view(r@) == fat_write_list(*bpb, base, sector_size as nat),
{
    reveal(fat_write_list);
    let mut writes: Vec<(u32, Vec<u8>)> = Vec::new();
    let mut i: u8 = 0;
    while i < bpb.num_fats
        invariant
            bpb.sectors_per_fat * sector_size >= 4,
            base + bpb.num_fats * bpb.sectors_per_fat <= u32::MAX,
            i <= bpb.num_fats,
            writes@.len() == i,
            forall|j: int| 0 <= j < i ==> (#[trigger] writes@[j]).0 == (base + j * bpb.sectors_per_fat) as u32
                && writes@[j].1@ == fat_image(*bpb, sector_size as nat),
        decreases bpb.num_fats - i,
    {
        assert(i * bpb.sectors_per_fat <= bpb.num_fats * bpb.sectors_per_fat) by (nonlinear_arith)
            requires
                i < bpb.num_fats,
        ;
        let image = fat_sectors_image(bpb, sector_size);
        let lba = base + i as u32 * bpb.sectors_per_fat as u32;
        writes.push((lba, image));
        i = i + 1;
    }
    assert(writes_view(writes@) =~= fat_write_list(*bpb, base, sector_size as nat));
    writes
}

/// The BPB of a job, unfolded.
proof fn lemma_job_bpb(v: FormatJob)
    ensures
        job_bpb(v) == (if v.is_hdd {
            hdd_bpb(v.sector_size, volume_sectors(v))
        } else {
            floppy_bpb(v.da_ua & 0xF0)
        }),
{
    reveal(job_bpb);
}

impl FormatJob {
    /// Whether the steps that write the file system can run: the hard
    /// disk's FAT layout can be found, and the file system's sectors fit.
    #[verifier::spinoff_prover]
    #[verifier::rlimit(40)]
    pub fn layout_is_ready(&self) -> (r: bool)
        requires
            format_wf(*self),
        ensures
            r == layout_ready(*self),
    {
        reveal(layout_ready);
        proof {
            lemma_job_bpb(*self);
        }
        let bpb = if self.is_hdd {
            if !hdd_layout_solvable(self.sector_size, self.total_sectors - self.partition_offset) {
                return false;
            }
            hdd_bpb_params(self.sector_size, self.total_sectors - self.partition_offset)
        } else {
            floppy_bpb_params(self.da_ua & 0xF0)
        };
        assert(bpb == job_bpb(*self));
        assert(bpb.sectors_per_fat as u32 * self.sector_size as u32 <= 65535 * 65535) by (nonlinear_arith)
            requires
                bpb.sectors_per_fat <= 65535,
                self.sector_size <= 65535,
        ;
        assert(bpb.num_fats as u64 * bpb.sectors_per_fat as u64 <= 255 * 65535) by (nonlinear_arith)
            requires
                bpb.num_fats <= 255,
                bpb.sectors_per_fat <= 65535,
        ;
        let fat_bytes: u32 = bpb.sectors_per_fat as u32 * self.sector_size as u32;
        if fat_bytes < 4 {
            return false;
        }
        let offset: u64 = if self.is_hdd {
            self.partition_offset as u64
        } else {
            0
        };
        let fat_base: u64 = offset + bpb.reserved_sectors as u64;
        let root_base: u64 = fat_base + bpb.num_fats as u64 * bpb.sectors_per_fat as u64;
        let z = self.sector_size as u64;
        let root_sectors: u64 = (bpb.root_entry_count as u64 * 32 + z - 1) / z;
        assert(fat_base == self::fat_base(*self));
        assert(root_base == self::root_base(*self));
        assert(root_sectors == self::root_sectors(*self));
        root_base + root_sectors <= 0xFFFF_FFFF
    }

    /// The BPB the format writes.
    fn bpb(&self) -> (r: BpbParams)
        requires
            format_wf(*self),
            layout_ready(*self),
        ensures
            r == job_bpb(*self),
            r.sectors_per_fat * self.sector_size >= 4,
            root_base(*self) + root_sectors(*self) <= u32::MAX,
    {
        reveal(job_bpb);
        reveal(layout_ready);
        if self.is_hdd {
            hdd_bpb_params(self.sector_size, self.total_sectors - self.partition_offset)
        } else {
            floppy_bpb_params(self.da_ua & 0xF0)
        }
    }

    /// Fills the current track.
    fn track_fill(&self) -> (r: Vec<(u32, Vec<u8>)>)
        requires
            format_wf(*self),
            self.current_track < self.total_tracks,
        ensures
            writes_view(r@) == track_fill_writes(*self),
    {
        reveal(track_fill_writes);
        let v = *self;
        assert(v.current_track * v.sectors_per_track <= v.total_tracks * v.sectors_per_track) by (nonlinear_arith)
            requires
                v.current_track < v.total_tracks,
        ;
        assert(v.sectors_per_track * v.sector_size <= 255 * 65535) by (nonlinear_arith)
            requires
                v.sectors_per_track <= 255,
                v.sector_size <= 65535,
        ;
        let size = self.sectors_per_track as usize * self.sector_size as usize;
        let fill = vec![0xF6u8; size];
        let lba = self.current_track * self.sectors_per_track as u32;
        let mut writes: Vec<(u32, Vec<u8>)> = Vec::new();
        writes.push((lba, fill));
        assert(fill@ =~= Seq::new((v.sectors_per_track * v.sector_size) as nat, |i: int| 0xF6u8));
        assert(writes_view(writes@) =~= seq![(lba, fill@)]);
        writes
    }

    /// Clears the IPL sector and writes the partition table.
    fn partition(&self) -> (r: Vec<(u32, Vec<u8>)>)
        requires
            format_wf(*self),
            self.is_hdd,
        ensures
            writes_view(r@) == partition_writes(*self),
    {
        reveal(partition_writes);
        let ipl = vec![0u8; self.sector_size as usize];
        let table = partition_table_sector(self.sector_size, self.total_sectors, self.heads, self.sectors_per_track);
        let mut writes: Vec<(u32, Vec<u8>)> = Vec::new();
        writes.push((0, ipl));
        writes.push((1, table));
        assert(ipl@ =~= zeros(self.sector_size as nat));
        assert(writes_view(writes@) =~= seq![(0u32, ipl@), (1u32, table@)]);
        writes
    }

    /// Writes the boot sector.
    #[verifier::spinoff_prover]
    #[verifier::rlimit(30)]
    fn boot(&self) -> (r: Vec<(u32, Vec<u8>)>)
        requires
            format_wf(*self),
            layout_ready(*self),
        ensures
            writes_view(r@) == boot_writes(*self),
    {
        reveal(boot_writes);
        let bpb = self.bpb();
        let mut writes: Vec<(u32, Vec<u8>)> = Vec::new();
        if self.is_hdd {
            let boot = hdd_boot_sector(
                self.sector_size,
                self.total_sectors - self.partition_offset,
                &bpb,
                self.sectors_per_track,
                self.heads,
                self.partition_offset,
            );
            writes.push((self.partition_offset, boot));
        } else {
            let boot = floppy_boot_sector(self.sector_size, self.total_sectors, &bpb, self.sectors_per_track, self.heads);
            writes.push((0, boot));
        }
        assert(writes_view(writes@) =~= seq![(writes@[0].0, writes@[0].1@)]);
        writes
    }

    /// The first sector of the first FAT.
    fn fat_start(&self, bpb: &BpbParams) -> (r: u32)
        requires
            format_wf(*self),
            layout_ready(*self),
            *bpb == job_bpb(*self),
            root_base(*self) + root_sectors(*self) <= u32::MAX,
        ensures
            r == fat_base(*self),
    {
        assert(bpb.num_fats * bpb.sectors_per_fat >= 0) by (nonlinear_arith);
        if self.is_hdd {
            self.partition_offset + bpb.reserved_sectors as u32
        } else {
            bpb.reserved_sectors as u32
        }
    }

    /// Writes the FATs.
    fn fats(&self) -> (r: Vec<(u32, Vec<u8>)>)
        requires
            format_wf(*self),
            layout_ready(*self),
        ensures
            writes_view(r@) == fat_write_list(job_bpb(*self), fat_base(*self) as u32, self.sector_size as nat),
    {
        let bpb = self.bpb();
        let base = self.fat_start(&bpb);
        assert(bpb.num_fats * bpb.sectors_per_fat >= 0) by (nonlinear_arith);
        let writes = fat_writes(&bpb, base, self.sector_size);
        writes
    }

    /// Clears the root directory.
    fn root(&self) -> (r: Vec<(u32, Vec<u8>)>)
        requires
            format_wf(*self),
            layout_ready(*self),
        ensures
            writes_view(r@) == root_writes(*self),
    {
        reveal(root_writes);
        let v = *self;
        let bpb = self.bpb();
        let base = self.fat_start(&bpb);
        assert(bpb.num_fats as u32 * bpb.sectors_per_fat as u32 <= 255 * 65535) by (nonlinear_arith)
            requires
                bpb.num_fats <= 255,
                bpb.sectors_per_fat <= 65535,
        ;
        assert(bpb.num_fats * bpb.sectors_per_fat >= 0) by (nonlinear_arith);
        let root_lba = base + bpb.num_fats as u32 * bpb.sectors_per_fat as u32;
        let sectors = (bpb.root_entry_count as u32 * 32 + self.sector_size as u32 - 1) / self.sector_size as u32;
        proof {
            let x: int = bpb.root_entry_count as int * 32 + self.sector_size as int - 1;
            let d: int = self.sector_size as int;
            assert(sectors as int == x / d);
            assert((x / d) * d <= x) by (nonlinear_arith)
                requires
                    d > 0,
                    x >= 0,
            ;
        }
        let root = vec![0u8; sectors as usize * self.sector_size as usize];
        let mut writes: Vec<(u32, Vec<u8>)> = Vec::new();
        writes.push((root_lba, root));
        assert(root@ =~= zeros(root_sectors(v) * v.sector_size as nat));
        assert(writes_view(writes@) =~= seq![(root_lba, root@)]);
        writes
    }

    /// The outside work the current phase needs.
    #[verifier::spinoff_prover]
    pub fn request(&self) -> (r: FormatRequest)
        requires
            format_wf(*self),
            layout_ready(*self),
        ensures
            request_view(r) == request_of(*self),
    {
        let v = *self;
        match self.phase {
            FormatPhase::Confirm => FormatRequest::Key,
            FormatPhase::FormatTrack => if self.current_track < self.total_tracks {
                FormatRequest::Write { da_ua: self.da_ua, writes: self.track_fill() }
            } else {
                FormatRequest::Proceed
            },
            FormatPhase::WritePartitionTable => FormatRequest::Write { da_ua: self.da_ua, writes: self.partition() },
            FormatPhase::WriteBootSector => FormatRequest::Write { da_ua: self.da_ua, writes: self.boot() },
            FormatPhase::WriteFat => FormatRequest::Write { da_ua: self.da_ua, writes: self.fats() },
            FormatPhase::WriteRootDir => FormatRequest::Write { da_ua: self.da_ua, writes: self.root() },
            FormatPhase::VerifyTrack => if self.current_track < self.total_tracks {
                assert(v.current_track * v.sectors_per_track <= v.total_tracks * v.sectors_per_track) by (nonlinear_arith)
                    requires
                        v.current_track < v.total_tracks,
                ;
                FormatRequest::Read {
                    da_ua: self.da_ua,
                    lba: self.current_track * self.sectors_per_track as u32,
                    count: self.sectors_per_track as u32,
                }
            } else {
                FormatRequest::Proceed
            },
            FormatPhase::Summary => FormatRequest::Proceed,
            FormatPhase::Done(c) => FormatRequest::Finished(c),
        }
    }

    /// Takes the answer to the current request and moves the format on.
    #[verifier::spinoff_prover]
    #[verifier::rlimit(30)]
    pub fn advance(&mut self, reply: FormatReply) -> (r: FormatStep)
        requires
            format_wf(*old(self)),
            layout_ready(*old(self)),
            reply_fits(*old(self), reply),
        ensures
            next_of(*old(self), reply) == (*final(self), r.output@, r.take_key, r.invalidate_drive),
            format_wf(*final(self)),
    {
        let none = String::new();
        match self.phase {
            FormatPhase::Confirm => match reply {
                FormatReply::Key(k) => {
                    if ascii_upper(k) == 0x59 {
                        self.phase = if self.is_hdd {
                            FormatPhase::WritePartitionTable
                        } else if self.quick {
                            FormatPhase::WriteBootSector
                        } else {
                            FormatPhase::FormatTrack
                        };
                        FormatStep { output: string_of("\r\n"), take_key: true, invalidate_drive: None }
                    } else {
                        self.phase = FormatPhase::Done(0);
                        FormatStep {
                            output: string_of("\r\nFormat terminated.\r\n"),
                            take_key: true,
                            invalidate_drive: None,
                        }
                    }
                },
                _ => FormatStep { output: none, take_key: false, invalidate_drive: None },
            },
            FormatPhase::FormatTrack => {
                if self.current_track >= self.total_tracks {
                    self.phase = FormatPhase::WriteBootSector;
                    FormatStep { output: none, take_key: false, invalidate_drive: None }
                } else if reply == FormatReply::Written(true) {
                    self.current_track = self.current_track + 1;
                    FormatStep { output: none, take_key: false, invalidate_drive: None }
                } else {
                    self.phase = FormatPhase::Done(1);
                    FormatStep {
                        output: string_of("Write error during format\r\n"),
                        take_key: false,
                        invalidate_drive: None,
                    }
                }
            },
            FormatPhase::WritePartitionTable | FormatPhase::WriteBootSector | FormatPhase::WriteFat
            | FormatPhase::WriteRootDir => {
                if reply == FormatReply::Written(true) {
                    self.phase = match self.phase {
                        FormatPhase::WritePartitionTable => FormatPhase::WriteBootSector,
                        FormatPhase::WriteBootSector => FormatPhase::WriteFat,
                        FormatPhase::WriteFat => FormatPhase::WriteRootDir,
                        _ => if !self.is_hdd && self.verify {
                            self.current_track = 0;
                            FormatPhase::VerifyTrack
                        } else {
                            FormatPhase::Summary
                        },
                    };
                    FormatStep { output: none, take_key: false, invalidate_drive: None }
                } else {
                    self.phase = FormatPhase::Done(1);
                    FormatStep { output: string_of("Write error\r\n"), take_key: false, invalidate_drive: None }
                }
            },
            FormatPhase::VerifyTrack => {
                if self.current_track >= self.total_tracks {
                    self.phase = FormatPhase::Summary;
                    FormatStep { output: none, take_key: false, invalidate_drive: None }
                } else if reply == FormatReply::Read(true) {
                    self.current_track = self.current_track + 1;
                    FormatStep { output: none, take_key: false, invalidate_drive: None }
                } else {
                    self.phase = FormatPhase::Done(1);
                    FormatStep { output: string_of("Verify error\r\n"), take_key: false, invalidate_drive: None }
                }
            },
            FormatPhase::Summary => {
                let bpb = self.bpb();
                let volume = if self.is_hdd {
                    self.total_sectors - self.partition_offset
                } else {
                    self.total_sectors
                };
                let output = format_summary(volume, self.sector_size, &bpb);
                self.phase = FormatPhase::Done(0);
                FormatStep { output, take_key: false, invalidate_drive: Some(self.drive_index) }
            },
            FormatPhase::Done(_) => FormatStep { output: none, take_key: false, invalidate_drive: None },
        }
    }
}

/// The drive a FORMAT command line names, its DA/UA code from the table
/// at `table` in memory `f`, and the `/Q` and `/V` switches; or the message
/// that refuses it: no drive, or one that is not a floppy (90h or 70h
/// type) or a hard disk (80h type).
pub open spec fn target_of(f: Image, table: u32, args: Seq<u8>) -> Result<(u8, u8, bool, bool), Seq<char>> {
    match format_request(args) {
        Err(m) => Err(m),
        Ok((drive, quick, verify)) => {
            let da_ua = f((table + drive) as u32);
            let kind = da_ua & 0xF0;
            if da_ua != 0 && (kind == 0x90 || kind == 0x70 || kind == 0x80) {
                Ok((drive, da_ua, quick, verify))
            } else {
                Err("Invalid drive specification\r\n"@)
            }
        },
    }
}

/// Reads a FORMAT command line and looks its drive up in the DA/UA table
/// at `table`.
pub fn format_target<M: MemoryAccess>(memory: &M, table: u32, args: &[u8]) -> (r: Result<(u8, u8, bool, bool), &'static str>)
    requires
        table + 255 <= u32::MAX,
    ensures
        match r {
            Ok(t) => target_of(image(memory), table, args@) == Ok::<(u8, u8, bool, bool), Seq<char>>(t),
            Err(m) => target_of(image(memory), table, args@) == Err::<(u8, u8, bool, bool), Seq<char>>(m@),
        },
{
    let (drive, quick, verify) = match format_arguments(args) {
        Ok(v) => v,
        Err(m) => return Err(m),
    };
    let da_ua = memory.read_byte(table + drive as u32);
    let kind = da_ua & 0xF0;
    if da_ua != 0 && (kind == 0x90 || kind == 0x70 || kind == 0x80) {
        Ok((drive, da_ua, quick, verify))
    } else {
        Err("Invalid drive specification\r\n")
    }
}

/// The job that formats a drive with the geometry and sector size it
/// reports, waiting for the answer to the question; or the message that
/// refuses it. A hard disk's partition starts after its first track.
pub open spec fn job_of(
    drive: u8,
    da_ua: u8,
    geometry: Option<(u16, u8, u8)>,
    sector_size: Option<u16>,
    quick: bool,
    verify: bool,
) -> Result<FormatJob, Seq<char>> {
    if geometry is None || sector_size is None {
        Err("Invalid drive specification\r\n"@)
    } else {
        let (cylinders, heads, spt) = geometry.unwrap();
        let is_hdd = (da_ua & 0xF0) == 0x80;
        Ok(
            FormatJob {
                drive_index: drive,
                da_ua,
                heads,
                sectors_per_track: spt,
                sector_size: sector_size.unwrap(),
                total_sectors: (cylinders * heads * spt) as u32,
                total_tracks: (cylinders * heads) as u32,
                current_track: 0,
                partition_offset: if is_hdd {
                    spt as u32
                } else {
                    0
                },
                is_hdd,
                quick,
                verify,
                phase: FormatPhase::Confirm,
            },
        )
    }
}

/// Sets a format of `drive` up; gives the job and the question it asks.
pub fn format_job(
    drive: u8,
    da_ua: u8,
    geometry: Option<(u16, u8, u8)>,
    sector_size: Option<u16>,
    quick: bool,
    verify: bool,
) -> (r: Result<(FormatJob, String), &'static str>)
    requires
        drive < 26,
    ensures
        match r {
            Ok((job, question)) => {
                &&& job_of(drive, da_ua, geometry, sector_size, quick, verify) == Ok::<FormatJob, Seq<char>>(job)
                &&& question@ == warning_text(drive)
            },
            Err(m) => job_of(drive, da_ua, geometry, sector_size, quick, verify) == Err::<FormatJob, Seq<char>>(m@),
        },
        r matches Ok((job, _)) ==> (format_wf(job) <== {
            &&& job.sector_size >= 36
            &&& (job.da_ua & 0xF0) == 0x80 || (job.da_ua & 0xF0) == 0x90 || (job.da_ua & 0xF0) == 0x70
            &&& job.is_hdd ==> job.heads > 0 && job.sectors_per_track > 0 && geometry.unwrap().0 > 0
        }),
{
    let (cylinders, heads, spt) = match geometry {
        Some(g) => g,
        None => return Err("Invalid drive specification\r\n"),
    };
    let sector_size = match sector_size {
        Some(z) => z,
        None => return Err("Invalid drive specification\r\n"),
    };
    assert(cylinders * heads <= 65535 * 255) by (nonlinear_arith)
        requires
            cylinders <= 65535,
            heads <= 255,
    ;
    assert(cylinders * heads * spt <= 65535 * 255 * 255) by (nonlinear_arith)
        requires
            cylinders * heads <= 65535 * 255,
            spt <= 255,
    ;
    let total_tracks = cylinders as u32 * heads as u32;
    let total_sectors = total_tracks * spt as u32;
    let is_hdd = (da_ua & 0xF0) == 0x80;
    proof {
        if is_hdd && heads > 0 && spt > 0 && cylinders > 0 {
            assert(cylinders * heads * spt >= spt) by (nonlinear_arith)
                requires
                    cylinders >= 1,
                    heads >= 1,
            ;
        }
    }
    let job = FormatJob {
        drive_index: drive,
        da_ua,
        heads,
        sectors_per_track: spt,
        sector_size,
        total_sectors,
        total_tracks,
        current_track: 0,
        partition_offset: if is_hdd {
            spt as u32
        } else {
            0
        },
        is_hdd,
        quick,
        verify,
        phase: FormatPhase::Confirm,
    };
    Ok((job, format_warning(drive)))
}

/// A floppy job is always ready to write its file system: its BPB is a
/// fixed one whose FATs and root directory lie in the first sectors.
pub proof fn lemma_floppy_layout_ready(v: FormatJob)
    requires
        format_wf(v),
        !v.is_hdd,
    ensures
        layout_ready(v),
{
    reveal(layout_ready);
    reveal(job_bpb);
    let bpb = job_bpb(v);
    assert(bpb == floppy_bpb(v.da_ua & 0xF0));
    assert(bpb.sectors_per_fat >= 2 && bpb.sectors_per_fat <= 3);
    assert(bpb.root_entry_count <= 192);
    assert(bpb.sectors_per_fat * v.sector_size >= 4) by (nonlinear_arith)
        requires
            bpb.sectors_per_fat >= 2,
            v.sector_size >= 36,
    ;
    let n: nat = bpb.root_entry_count as nat * 32;
    assert(div_ceil(n, v.sector_size as nat) <= n + 1) by (nonlinear_arith)
        requires
            v.sector_size >= 36,
    ;
    assert(bpb.num_fats == 2 && bpb.reserved_sectors == 1);
    assert(fat_base(v) == 1);
    assert(root_base(v) == 1 + 2 * bpb.sectors_per_fat);
}

} // verus!
