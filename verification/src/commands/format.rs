//! FORMAT: the FAT geometry, boot sector and partition table that the
//! format command writes, and its arguments.

use vstd::prelude::*;
use crate::text::{contains_byte, trim_ascii, trim_ascii_spec, push_char, string_of, decimal_digits, push_decimal_digits, byte_chars, pad_left, push_padded_left, push_byte_chars};
use crate::commands::{parse_words, plain_words, switch_letters};
use crate::filesystem::{split_path, split_path_spec};

verus! {

/// The BIOS parameter block that FORMAT writes.
#[derive(Clone, Copy)]
pub struct BpbParams {
    pub bytes_per_sector: u16,
    pub sectors_per_cluster: u8,
    pub reserved_sectors: u16,
    pub num_fats: u8,
    pub root_entry_count: u16,
    pub media_descriptor: u8,
    pub sectors_per_fat: u16,
    pub is_fat16: bool,
}

/// The BPB of a 1.2 MB (DA 90h) or 640 KB (DA 70h) floppy.
pub open spec fn floppy_bpb(da_type: u8) -> BpbParams {
    if da_type == 0x90 {
        BpbParams {
            bytes_per_sector: 1024,
            sectors_per_cluster: 1,
            reserved_sectors: 1,
            num_fats: 2,
            root_entry_count: 192,
            media_descriptor: 0xFE,
            sectors_per_fat: 2,
            is_fat16: false,
        }
    } else {
        BpbParams {
            bytes_per_sector: 512,
            sectors_per_cluster: 2,
            reserved_sectors: 1,
            num_fats: 2,
            root_entry_count: 112,
            media_descriptor: 0xFE,
            sectors_per_fat: 3,
            is_fat16: false,
        }
    }
}

pub fn floppy_bpb_params(da_type: u8) -> (r: BpbParams)
    requires
        da_type == 0x90 || da_type == 0x70,
    ensures
        r == floppy_bpb(da_type),
{
    if da_type == 0x90 {
        BpbParams {
            bytes_per_sector: 1024,
            sectors_per_cluster: 1,
            reserved_sectors: 1,
            num_fats: 2,
            root_entry_count: 192,
            media_descriptor: 0xFE,
            sectors_per_fat: 2,
            is_fat16: false,
        }
    } else {
        BpbParams {
            bytes_per_sector: 512,
            sectors_per_cluster: 2,
            reserved_sectors: 1,
            num_fats: 2,
            root_entry_count: 112,
            media_descriptor: 0xFE,
            sectors_per_fat: 3,
            is_fat16: false,
        }
    }
}

/// `a / b` rounded up.
pub open spec fn div_ceil(a: nat, b: nat) -> nat {
    ((a + b - 1) / (b as int)) as nat
}

/// Sectors that a FAT with `clusters` data clusters takes: two bytes per
/// entry for FAT16, one and a half for FAT12, two reserved entries, and
/// the byte count rounded up to whole sectors.
pub open spec fn fat_sectors(clusters: nat, bytes_per_sector: nat, is_fat16: bool) -> nat {
    let fat_bytes = if is_fat16 {
        (clusters + 2) * 2
    } else {
        div_ceil(((clusters + 2) * 3) as nat, 2)
    };
    div_ceil(fat_bytes as nat, bytes_per_sector)
}

pub fn fat_sectors_for(cluster_count: u32, bytes_per_sector: u16, is_fat16: bool) -> (r: u16)
    requires
        bytes_per_sector > 0,
    ensures
        r == fat_sectors(cluster_count as nat, bytes_per_sector as nat, is_fat16) as u16,
{
    let fat_bytes: u64 = if is_fat16 {
        (cluster_count as u64 + 2) * 2
    } else {
        ((cluster_count as u64 + 2) * 3 + 1) / 2
    };
    let bps = bytes_per_sector as u64;
    ((fat_bytes + bps - 1) / bps) as u16
}

/// The quantities that fix a hard disk's FAT layout.
pub struct FatGeometry {
    pub partition_sectors: nat,
    pub bytes_per_sector: nat,
    pub sectors_per_cluster: nat,
    pub reserved_sectors: nat,
    pub num_fats: nat,
    pub root_entry_count: nat,
    pub is_fat16: bool,
}

/// Sectors of the root directory (32 bytes per entry).
pub open spec fn root_dir_sectors(g: FatGeometry) -> nat {
    div_ceil(g.root_entry_count * 32, g.bytes_per_sector)
}

/// Data clusters left when each FAT takes `sectors_per_fat` sectors.
pub open spec fn clusters_with(g: FatGeometry, sectors_per_fat: nat) -> nat {
    let system = g.reserved_sectors + g.num_fats * sectors_per_fat + root_dir_sectors(g);
    let data: nat = if g.partition_sectors >= system {
        (g.partition_sectors - system) as nat
    } else {
        0
    };
    data / g.sectors_per_cluster
}

/// The FAT size that `sectors_per_fat` leaves room for.
pub open spec fn fat_step(g: FatGeometry, sectors_per_fat: u16) -> u16 {
    fat_sectors(clusters_with(g, sectors_per_fat as nat), g.bytes_per_sector, g.is_fat16) as u16
}

/// The FAT size after `n` steps from one sector.
pub open spec fn fat_iterate(g: FatGeometry, n: nat) -> u16
    decreases n,
{
    if n == 0 {
        1
    } else {
        fat_step(g, fat_iterate(g, (n - 1) as nat))
    }
}

/// Step `n` is a fixed point: the FAT size leaves room for itself.
pub open spec fn settles_at(g: FatGeometry, n: nat) -> bool {
    fat_step(g, fat_iterate(g, n)) == fat_iterate(g, n)
}

/// The steps from one sector reach a fixed point.
pub open spec fn fat_converges(g: FatGeometry) -> bool {
    exists|n: nat| settles_at(g, n)
}

/// The first fixed point of the steps from one sector: the data clusters
/// and the FAT size.
pub open spec fn fat_layout(g: FatGeometry) -> (nat, u16) {
    let m = choose|m: nat| settles_at(g, m) && forall|j: nat| j < m ==> !settles_at(g, j);
    (clusters_with(g, fat_iterate(g, m) as nat), fat_iterate(g, m))
}

/// The geometry that the arguments of `solve_hdd_fat_layout` describe.
pub open spec fn geometry(
    partition_sectors: u32,
    bytes_per_sector: u16,
    sectors_per_cluster: u8,
    reserved_sectors: u16,
    num_fats: u8,
    root_entry_count: u16,
    is_fat16: bool,
) -> FatGeometry {
    FatGeometry {
        partition_sectors: partition_sectors as nat,
        bytes_per_sector: bytes_per_sector as nat,
        sectors_per_cluster: sectors_per_cluster as nat,
        reserved_sectors: reserved_sectors as nat,
        num_fats: num_fats as nat,
        root_entry_count: root_entry_count as nat,
        is_fat16,
    }
}

/// Finds the FAT size of a hard disk partition by stepping from one
/// sector until the size leaves room for itself; gives the data clusters
/// and the FAT size.
#[verifier::spinoff_prover]
#[verifier::rlimit(40)]
pub fn solve_hdd_fat_layout(
    partition_sectors: u32,
    bytes_per_sector: u16,
    sectors_per_cluster: u8,
    reserved_sectors: u16,
    num_fats: u8,
    root_entry_count: u16,
    is_fat16: bool,
) -> (r: (u32, u16))
    requires
        bytes_per_sector > 0,
        sectors_per_cluster > 0,
        fat_converges(
            geometry(
                partition_sectors,
                bytes_per_sector,
                sectors_per_cluster,
                reserved_sectors,
                num_fats,
                root_entry_count,
                is_fat16,
            ),
        ),
    ensures
        (r.0 as nat, r.1) == fat_layout(
            geometry(
                partition_sectors,
                bytes_per_sector,
                sectors_per_cluster,
                reserved_sectors,
                num_fats,
                root_entry_count,
                is_fat16,
            ),
        ),
{
    let ghost g = geometry(
        partition_sectors,
        bytes_per_sector,
        sectors_per_cluster,
        reserved_sectors,
        num_fats,
        root_entry_count,
        is_fat16,
    );
    let ghost bound = choose|n: nat| settles_at(g, n);
    let root_dir_sectors: u32 = (root_entry_count as u32 * 32 + bytes_per_sector as u32 - 1)
        / bytes_per_sector as u32;
    let mut sectors_per_fat: u16 = 1;
    let ghost mut k: nat = 0;
    loop
        invariant
            g == geometry(
                partition_sectors,
                bytes_per_sector,
                sectors_per_cluster,
                reserved_sectors,
                num_fats,
                root_entry_count,
                is_fat16,
            ),
            bytes_per_sector > 0,
            sectors_per_cluster > 0,
            root_dir_sectors == self::root_dir_sectors(g),
            settles_at(g, bound),
            k <= bound,
            sectors_per_fat == fat_iterate(g, k),
            forall|j: nat| j < k ==> !settles_at(g, j),
        decreases bound - k,
    {
        assert(num_fats as u32 * sectors_per_fat as u32 <= 255 * 65535) by (nonlinear_arith)
            requires
                num_fats <= 255,
                sectors_per_fat <= 65535,
        ;
        let system_sectors = reserved_sectors as u32 + num_fats as u32 * sectors_per_fat as u32
            + root_dir_sectors;
        let data_sectors = partition_sectors.saturating_sub(system_sectors);
        let cluster_count = data_sectors / sectors_per_cluster as u32;
        assert(cluster_count == clusters_with(g, sectors_per_fat as nat));
        let needed = fat_sectors_for(cluster_count, bytes_per_sector, is_fat16);
        if needed == sectors_per_fat {
            proof {
                assert(settles_at(g, k));
                let m = choose|m: nat| settles_at(g, m) && forall|j: nat| j < m ==> !settles_at(g, j);
                assert(settles_at(g, k) && forall|j: nat| j < k ==> !settles_at(g, j));
                assert(m == k) by {
                    if m < k {
                        assert(!settles_at(g, m));
                    }
                    if k < m {
                        assert(!settles_at(g, k));
                    }
                }
            }
            return (cluster_count, sectors_per_fat);
        }
        proof {
            assert(!settles_at(g, k));
            assert(k != bound);
            assert forall|j: nat| j < k + 1 implies !settles_at(g, j) by {
                if j < k {
                } else {
                    assert(j == k);
                }
            }
            k = k + 1;
        }
        sectors_per_fat = needed;
    }
}

/// `n` steps from the FAT size `x`.
pub open spec fn steps_from(g: FatGeometry, x: u16, n: nat) -> u16
    decreases n,
{
    if n == 0 {
        x
    } else {
        fat_step(g, steps_from(g, x, (n - 1) as nat))
    }
}

/// Step `a + n` is `n` steps on from step `a`.
proof fn lemma_steps_shift(g: FatGeometry, a: nat, n: nat)
    ensures
        fat_iterate(g, a + n) == steps_from(g, fat_iterate(g, a), n),
    decreases n,
{
    if n > 0 {
        lemma_steps_shift(g, a, (n - 1) as nat);
        assert(a + n == (a + (n - 1) as nat) + 1);
    }
}

/// Once a step settles, every later one gives the same size.
proof fn lemma_settled_stays(g: FatGeometry, m: nat, n: nat)
    requires
        settles_at(g, m),
        m <= n,
    ensures
        fat_iterate(g, n) == fat_iterate(g, m),
    decreases n - m,
{
    if n > m {
        lemma_settled_stays(g, m, (n - 1) as nat);
    }
}

/// Two equal steps `i < j` repeat every `j - i` steps from `i` on.
proof fn lemma_steps_repeat(g: FatGeometry, i: nat, j: nat, k: nat)
    requires
        i < j,
        fat_iterate(g, i) == fat_iterate(g, j),
    ensures
        fat_iterate(g, i + k * ((j - i) as nat)) == fat_iterate(g, i),
    decreases k,
{
    let p = (j - i) as nat;
    if k > 0 {
        let k1 = (k - 1) as nat;
        lemma_steps_repeat(g, i, j, k1);
        let a = i + k1 * p;
        assert(i + k * p == a + p) by (nonlinear_arith)
            requires
                a == i + k1 * p,
                k == k1 + 1,
        ;
        lemma_steps_shift(g, a, p);
        lemma_steps_shift(g, i, p);
        assert(i + p == j);
    } else {
        assert(i + k * p == i) by (nonlinear_arith)
            requires
                k == 0,
        ;
    }
}

/// Among the first 65537 steps two are equal: the sizes are 16-bit.
proof fn lemma_steps_collide(g: FatGeometry) -> (r: (nat, nat))
    ensures
        r.0 < r.1 <= 65536,
        fat_iterate(g, r.0) == fat_iterate(g, r.1),
{
    let x = vstd::set_lib::set_int_range(0, 65537);
    let f = |i: int| fat_iterate(g, i as nat) as int;
    let y = x.map(f);
    let all = vstd::set_lib::set_int_range(0, 65536);
    vstd::set_lib::lemma_int_range(0, 65537);
    vstd::set_lib::lemma_int_range(0, 65536);
    assert(y.subset_of(all)) by {
        assert forall|v: int| y.contains(v) implies all.contains(v) by {
            let i = choose|i: int| x.contains(i) && f(i) == v;
        }
    }
    vstd::set_lib::lemma_len_subset(y, all);
    if vstd::relations::injective_on(f, x) {
        vstd::set_lib::lemma_map_size(x, y, f);
        assert(false);
    }
    let (i, j) = choose|i: int, j: int| x.contains(i) && x.contains(j) && f(i) == f(j) && i != j;
    if i < j {
        (i as nat, j as nat)
    } else {
        (j as nat, i as nat)
    }
}

/// The steps settle at all only if they settle within the first 65536:
/// after two equal steps they go round, and a settled size never leaves.
pub proof fn lemma_converges_early(g: FatGeometry)
    ensures
        fat_converges(g) <==> exists|n: nat| n < 65536 && settles_at(g, n),
{
    if fat_converges(g) {
        let m = choose|n: nat| settles_at(g, n);
        let (i, j) = lemma_steps_collide(g);
        let p = (j - i) as nat;
        assert(i + m * p >= m) by (nonlinear_arith)
            requires
                p >= 1,
        ;
        lemma_steps_repeat(g, i, j, m);
        lemma_settled_stays(g, m, i + m * p);
        assert(fat_iterate(g, i) == fat_iterate(g, m));
        assert(settles_at(g, i));
    }
}

/// The FAT size of a partition when the steps from one sector settle, or
/// `None` when they go round without ever settling.
#[verifier::spinoff_prover]
#[verifier::rlimit(40)]
pub fn try_solve_hdd_fat_layout(
    partition_sectors: u32,
    bytes_per_sector: u16,
    sectors_per_cluster: u8,
    reserved_sectors: u16,
    num_fats: u8,
    root_entry_count: u16,
    is_fat16: bool,
) -> (r: Option<(u32, u16)>)
    requires
        bytes_per_sector > 0,
        sectors_per_cluster > 0,
    ensures
        ({
            let g = geometry(
                partition_sectors,
                bytes_per_sector,
                sectors_per_cluster,
                reserved_sectors,
                num_fats,
                root_entry_count,
                is_fat16,
            );
            match r {
                Some(v) => fat_converges(g) && (v.0 as nat, v.1) == fat_layout(g),
                None => !fat_converges(g),
            }
        }),
{
    let ghost g = geometry(
        partition_sectors,
        bytes_per_sector,
        sectors_per_cluster,
        reserved_sectors,
        num_fats,
        root_entry_count,
        is_fat16,
    );
    proof {
        lemma_converges_early(g);
    }
    let root_dir_sectors: u32 = (root_entry_count as u32 * 32 + bytes_per_sector as u32 - 1)
        / bytes_per_sector as u32;
    let mut sectors_per_fat: u16 = 1;
    let mut k: u32 = 0;
    while k < 65536
        invariant
            g == geometry(
                partition_sectors,
                bytes_per_sector,
                sectors_per_cluster,
                reserved_sectors,
                num_fats,
                root_entry_count,
                is_fat16,
            ),
            bytes_per_sector > 0,
            sectors_per_cluster > 0,
            root_dir_sectors == self::root_dir_sectors(g),
            k <= 65536,
            sectors_per_fat == fat_iterate(g, k as nat),
            forall|j: nat| j < k ==> !settles_at(g, j),
            fat_converges(g) <==> exists|n: nat| n < 65536 && settles_at(g, n),
        decreases 65536 - k,
    {
        assert(num_fats as u32 * sectors_per_fat as u32 <= 255 * 65535) by (nonlinear_arith)
            requires
                num_fats <= 255,
                sectors_per_fat <= 65535,
        ;
        let system_sectors = reserved_sectors as u32 + num_fats as u32 * sectors_per_fat as u32
            + root_dir_sectors;
        let data_sectors = partition_sectors.saturating_sub(system_sectors);
        let cluster_count = data_sectors / sectors_per_cluster as u32;
        assert(cluster_count == clusters_with(g, sectors_per_fat as nat));
        let needed = fat_sectors_for(cluster_count, bytes_per_sector, is_fat16);
        if needed == sectors_per_fat {
            proof {
                assert(settles_at(g, k as nat));
                let m = choose|m: nat| settles_at(g, m) && forall|j: nat| j < m ==> !settles_at(g, j);
                assert(settles_at(g, k as nat) && forall|j: nat| j < k ==> !settles_at(g, j));
                assert(m == k) by {
                    if m < k {
                        assert(!settles_at(g, m));
                    }
                    if k < m {
                        assert(!settles_at(g, k as nat));
                    }
                }
            }
            return Some((cluster_count, sectors_per_fat));
        }
        proof {
            assert(!settles_at(g, k as nat));
            assert forall|j: nat| j < k + 1 implies !settles_at(g, j) by {
                if j < k {
                } else {
                    assert(j == k);
                }
            }
        }
        sectors_per_fat = needed;
        k = k + 1;
    }
    None
}

/// Sectors per cluster for a hard disk volume: about 2 KB clusters on
/// small volumes, doubling at 64, 128 and 256 MB.
pub open spec fn hdd_cluster_size(sector_size: u16, partition_sectors: u32) -> u8 {
    let volume_bytes = partition_sectors * sector_size;
    if sector_size == 256 {
        if volume_bytes <= 64 * 1024 * 1024 {
            8
        } else if volume_bytes <= 128 * 1024 * 1024 {
            16
        } else if volume_bytes <= 256 * 1024 * 1024 {
            32
        } else {
            64
        }
    } else {
        if volume_bytes <= 64 * 1024 * 1024 {
            4
        } else if volume_bytes <= 128 * 1024 * 1024 {
            8
        } else if volume_bytes <= 256 * 1024 * 1024 {
            16
        } else {
            32
        }
    }
}

/// The cluster size of a hard disk volume with 256- or 512-byte sectors
/// is 2 KB, doubled once for each of 64, 128 and 256 MB that the volume
/// exceeds.
pub proof fn lemma_hdd_cluster_doubles(sector_size: u16, partition_sectors: u32)
    requires
        sector_size == 256 || sector_size == 512,
    ensures
        ({
            let volume = partition_sectors * sector_size;
            let doublings = (if volume > 64 * 1024 * 1024 { 1int } else { 0 }) + (if volume > 128 * 1024
                * 1024 { 1int } else { 0 }) + (if volume > 256 * 1024 * 1024 { 1int } else { 0 });
            hdd_cluster_size(sector_size, partition_sectors) * sector_size == 2048 * (if doublings == 0 {
                1int
            } else if doublings == 1 {
                2
            } else if doublings == 2 {
                4
            } else {
                8
            })
        }),
{
}

/// The clusters left for data never exceed the partition's sectors
/// divided by the sectors per cluster.
proof fn lemma_clusters_at_most(g: FatGeometry, spf: nat)
    requires
        g.sectors_per_cluster > 0,
    ensures
        clusters_with(g, spf) <= g.partition_sectors / g.sectors_per_cluster,
{
    let system = g.reserved_sectors + g.num_fats * spf + root_dir_sectors(g);
    let data: nat = if g.partition_sectors >= system {
        (g.partition_sectors - system) as nat
    } else {
        0
    };
    vstd::arithmetic::div_mod::lemma_div_is_ordered(data as int, g.partition_sectors as int, g.sectors_per_cluster as int);
}

/// The data clusters of the layout found never exceed the partition's
/// sectors divided by the sectors per cluster.
proof fn lemma_layout_clusters_at_most(g: FatGeometry)
    requires
        g.sectors_per_cluster > 0,
    ensures
        fat_layout(g).0 <= g.partition_sectors / g.sectors_per_cluster,
{
    let m = choose|m: nat| settles_at(g, m) && forall|j: nat| j < m ==> !settles_at(g, j);
    lemma_clusters_at_most(g, fat_iterate(g, m) as nat);
}

/// A volume of 256- or 512-byte sectors up to 1000 MB has fewer than
/// 65525 clusters' worth of sectors.
proof fn lemma_hdd_clusters_bound(sector_size: u16, partition_sectors: u32)
    requires
        sector_size == 256 || sector_size == 512,
        partition_sectors * sector_size <= 1000 * 1024 * 1024,
    ensures
        (partition_sectors as nat / (hdd_cluster_size(sector_size, partition_sectors) as nat)) < 65525,
{
    let p = partition_sectors as int;
    let spc = hdd_cluster_size(sector_size, partition_sectors) as int;
    let top: int = if sector_size == 512 {
        if spc == 4 { 131072 } else if spc == 8 { 262144 } else if spc == 16 { 524288 } else { 2048000 }
    } else {
        if spc == 8 { 262144 } else if spc == 16 { 524288 } else if spc == 32 { 1048576 } else { 4096000 }
    };
    assert(p <= top);
    vstd::arithmetic::div_mod::lemma_div_is_ordered(p, top, spc);
    assert(top / spc < 65525);
}

/// The FAT type that FORMAT picks for a hard disk can address the volume:
/// FAT12 only with fewer than 4085 clusters, and, for volumes of 256- or
/// 512-byte sectors up to 1000 MB, FAT16 with fewer than 65525.
pub proof fn lemma_hdd_fat_type_fits(sector_size: u16, partition_sectors: u32)
    requires
        hdd_layout_converges(sector_size, partition_sectors),
    ensures
        !hdd_bpb(sector_size, partition_sectors).is_fat16 ==> fat_layout(
            hdd_geometry(sector_size, partition_sectors, false),
        ).0 < 4085,
        hdd_bpb(sector_size, partition_sectors).is_fat16 && (sector_size == 256 || sector_size == 512)
            && partition_sectors * sector_size <= 1000 * 1024 * 1024 ==> fat_layout(
            hdd_geometry(sector_size, partition_sectors, true),
        ).0 < 65525,
{
    let g = hdd_geometry(sector_size, partition_sectors, true);
    lemma_layout_clusters_at_most(g);
    if (sector_size == 256 || sector_size == 512) && partition_sectors * sector_size <= 1000 * 1024 * 1024 {
        lemma_hdd_clusters_bound(sector_size, partition_sectors);
    }
}

/// The geometry of a hard disk partition: one reserved sector, two FATs,
/// 512 root entries.
pub open spec fn hdd_geometry(sector_size: u16, partition_sectors: u32, is_fat16: bool) -> FatGeometry {
    geometry(
        partition_sectors,
        sector_size,
        hdd_cluster_size(sector_size, partition_sectors),
        1,
        2,
        512,
        is_fat16,
    )
}

/// The BPB of a hard disk partition: FAT12 unless that would give 4085
/// clusters or more, then FAT16.
pub open spec fn hdd_bpb(sector_size: u16, partition_sectors: u32) -> BpbParams {
    let fat12 = fat_layout(hdd_geometry(sector_size, partition_sectors, false));
    let is_fat16 = fat12.0 >= 4085;
    BpbParams {
        bytes_per_sector: sector_size,
        sectors_per_cluster: hdd_cluster_size(sector_size, partition_sectors),
        reserved_sectors: 1,
        num_fats: 2,
        root_entry_count: 512,
        media_descriptor: 0xF8,
        sectors_per_fat: if is_fat16 {
            fat_layout(hdd_geometry(sector_size, partition_sectors, true)).1
        } else {
            fat12.1
        },
        is_fat16,
    }
}

/// The FAT sizes of a partition can be found: the steps converge for FAT12,
/// and for FAT16 where FAT12 would have too many clusters.
pub open spec fn hdd_layout_converges(sector_size: u16, partition_sectors: u32) -> bool {
    &&& fat_converges(hdd_geometry(sector_size, partition_sectors, false))
    &&& fat_layout(hdd_geometry(sector_size, partition_sectors, false)).0 >= 4085 ==> fat_converges(
        hdd_geometry(sector_size, partition_sectors, true),
    )
}

/// Sectors per cluster for a hard disk partition.
fn hdd_sectors_per_cluster(sector_size: u16, partition_sectors: u32) -> (r: u8)
    ensures
        r == hdd_cluster_size(sector_size, partition_sectors),
        r >= 4,
{
    assert(partition_sectors as u64 * sector_size as u64 <= 0xFFFF_FFFFu64 * 0xFFFFu64) by (nonlinear_arith)
        requires
            partition_sectors <= 0xFFFF_FFFFu32,
            sector_size <= 0xFFFFu16,
    ;
    let volume_bytes = partition_sectors as u64 * sector_size as u64;
    let sectors_per_cluster: u8 = if sector_size == 256 {
        if volume_bytes <= 64 * 1024 * 1024 {
            8
        } else if volume_bytes <= 128 * 1024 * 1024 {
            16
        } else if volume_bytes <= 256 * 1024 * 1024 {
            32
        } else {
            64
        }
    } else {
        if volume_bytes <= 64 * 1024 * 1024 {
            4
        } else if volume_bytes <= 128 * 1024 * 1024 {
            8
        } else if volume_bytes <= 256 * 1024 * 1024 {
            16
        } else {
            32
        }
    };
    sectors_per_cluster
}

/// Whether the FAT sizes of a partition can be found: the steps from one
/// sector settle for FAT12, and for FAT16 where FAT12 would give 4085
/// clusters or more.
pub fn hdd_layout_solvable(sector_size: u16, partition_sectors: u32) -> (r: bool)
    requires
        sector_size > 0,
    ensures
        r == hdd_layout_converges(sector_size, partition_sectors),
{
    let sectors_per_cluster = hdd_sectors_per_cluster(sector_size, partition_sectors);
    match try_solve_hdd_fat_layout(partition_sectors, sector_size, sectors_per_cluster, 1, 2, 512, false) {
        None => false,
        Some((clusters, _)) => if clusters >= 4085 {
            try_solve_hdd_fat_layout(partition_sectors, sector_size, sectors_per_cluster, 1, 2, 512, true).is_some()
        } else {
            true
        },
    }
}

#[verifier::spinoff_prover]
#[verifier::rlimit(30)]
pub fn hdd_bpb_params(sector_size: u16, partition_sectors: u32) -> (r: BpbParams)
    requires
        sector_size > 0,
        hdd_layout_converges(sector_size, partition_sectors),
    ensures
        r == hdd_bpb(sector_size, partition_sectors),
{
    let bytes_per_sector = sector_size;
    let reserved_sectors: u16 = 1;
    let num_fats: u8 = 2;
    let root_entry_count: u16 = 512;

    let sectors_per_cluster = hdd_sectors_per_cluster(sector_size, partition_sectors);

    let (fat12_clusters, fat12_sectors_per_fat) = solve_hdd_fat_layout(
        partition_sectors,
        bytes_per_sector,
        sectors_per_cluster,
        reserved_sectors,
        num_fats,
        root_entry_count,
        false,
    );
    let (is_fat16, sectors_per_fat) = if fat12_clusters >= 4085 {
        let (_, fat16_sectors_per_fat) = solve_hdd_fat_layout(
            partition_sectors,
            bytes_per_sector,
            sectors_per_cluster,
            reserved_sectors,
            num_fats,
            root_entry_count,
            true,
        );
        (true, fat16_sectors_per_fat)
    } else {
        (false, fat12_sectors_per_fat)
    };

    BpbParams {
        bytes_per_sector,
        sectors_per_cluster,
        reserved_sectors,
        num_fats,
        root_entry_count,
        media_descriptor: 0xF8,
        sectors_per_fat,
        is_fat16,
    }
}

/// The drive and switches that a FORMAT command line names: `/Q` quick,
/// `/V` verify, and the last word that is not a switch as the drive; or
/// the message that refuses it.
pub open spec fn format_request(args: Seq<u8>) -> Result<(u8, bool, bool), Seq<char>> {
    let t = trim_ascii_spec(args);
    let tokens = plain_words(t);
    if t.len() == 0 || tokens.len() == 0 {
        Err("Required parameter missing\r\n"@)
    } else {
        match split_path_spec(tokens.last()).0 {
            Some(drive) => Ok(
                (drive, switch_letters(t).contains(0x51u8), switch_letters(t).contains(0x56u8)),
            ),
            None => Err("Invalid drive specification\r\n"@),
        }
    }
}

/// Reads a FORMAT command line: the drive index, quick, verify.
pub fn format_arguments(args: &[u8]) -> (r: Result<(u8, bool, bool), &'static str>)
    ensures
        match r {
            Ok(v) => format_request(args@) == Ok::<(u8, bool, bool), Seq<char>>(v),
            Err(m) => format_request(args@) == Err::<(u8, bool, bool), Seq<char>>(m@),
        },
{
    let args = trim_ascii(args);
    if args.len() == 0 {
        return Err("Required parameter missing\r\n");
    }
    let (tokens, switches) = parse_words(args);
    let quick = contains_byte(switches.as_slice(), 0x51);
    let verify = contains_byte(switches.as_slice(), 0x56);
    if tokens.len() == 0 {
        return Err("Required parameter missing\r\n");
    }
    let drive_token = &tokens[tokens.len() - 1];
    let (drive_opt, _, _) = split_path(drive_token.as_slice());
    match drive_opt {
        Some(drive) => Ok((drive, quick, verify)),
        None => Err("Invalid drive specification\r\n"),
    }
}

/// The question that FORMAT asks before it starts.
pub open spec fn warning_text(drive_index: u8) -> Seq<char> {
    "\r\nWARNING, ALL DATA ON DRIVE "@ + seq![(0x41 + drive_index) as char] + ": WILL BE LOST!\r\nProceed with Format (Y/N)?"@
}

pub fn format_warning(drive_index: u8) -> (r: String)
    requires
        drive_index < 26,
    ensures
        r@ == warning_text(drive_index),
{
    let mut r = string_of("\r\nWARNING, ALL DATA ON DRIVE ");
    push_char(&mut r, (0x41 + drive_index) as char);
    r.append(": WILL BE LOST!\r\nProceed with Format (Y/N)?");
    r
}

/// `n` zero bytes.
pub open spec fn zeros(n: nat) -> Seq<u8> {
    Seq::new(n, |i: int| 0u8)
}

/// The 16-byte partition name.
pub open spec fn partition_name() -> Seq<u8> {
    seq![0x4Eu8, 0x45, 0x45, 0x54, 0x41, 0x4E, 0x20, 0x20, 0x20, 0x20, 0x20, 0x20, 0x20, 0x20, 0x20, 0x20]
}

/// The last sector of a disk as cylinder, head and sector.
pub open spec fn end_chs(total_sectors: u32, heads: u8, sectors_per_track: u8) -> (int, int, int) {
    let last = total_sectors - 1;
    let per_cylinder = heads * sectors_per_track;
    let remainder = last % per_cylinder;
    (last / per_cylinder, remainder / (sectors_per_track as int), remainder % (sectors_per_track as int))
}

/// The PC-98 partition table sector: one FAT16 DOS partition (MID 21h,
/// SID 81h) from head 1 of cylinder 0 to the last sector, named NEETAN.
pub open spec fn partition_sector(sector_size: nat, total_sectors: u32, heads: u8, sectors_per_track: u8) -> Seq<u8> {
    let (cylinder, head, sector) = end_chs(total_sectors, heads, sectors_per_track);
    seq![0x21u8, 0x81, 0, 0, 0, 0, 0, 0, 0, 1, 0, 0] + seq![
        sector as u8,
        head as u8,
        cylinder as u8,
        (cylinder / 256) as u8,
    ] + partition_name() + zeros((sector_size - 32) as nat)
}

/// Builds the partition table sector that FORMAT writes to sector 1 of a
/// hard disk.
pub fn partition_table_sector(sector_size: u16, total_sectors: u32, heads: u8, sectors_per_track: u8) -> (r: Vec<u8>)
    requires
        sector_size >= 32,
        total_sectors >= 1,
        heads > 0,
        sectors_per_track > 0,
    ensures
        r@ == partition_sector(sector_size as nat, total_sectors, heads, sectors_per_track),
{
    let ss = sector_size as usize;
    let mut part: Vec<u8> = vec![0u8; ss];
    part.set(0, 0x21);
    part.set(1, 0x81);
    part.set(9, 1);
    let last_sector = total_sectors - 1;
    assert(heads as u32 * sectors_per_track as u32 <= 255 * 255) by (nonlinear_arith)
        requires
            heads <= 255,
            sectors_per_track <= 255,
    ;
    assert(heads as u32 * sectors_per_track as u32 > 0) by (nonlinear_arith)
        requires
            heads > 0,
            sectors_per_track > 0,
    ;
    let per_cylinder = heads as u32 * sectors_per_track as u32;
    let end_cylinder = last_sector / per_cylinder;
    let remainder = last_sector % per_cylinder;
    let end_head = remainder / sectors_per_track as u32;
    let end_sector = remainder % sectors_per_track as u32;
    part.set(12, end_sector as u8);
    part.set(13, end_head as u8);
    part.set(14, end_cylinder as u8);
    part.set(15, (end_cylinder >> 8) as u8);
    let name: [u8; 16] = [0x4E, 0x45, 0x45, 0x54, 0x41, 0x4E, 0x20, 0x20, 0x20, 0x20, 0x20, 0x20, 0x20, 0x20, 0x20, 0x20];
    let mut k: usize = 0;
    while k < 16
        invariant
            part@.len() == ss,
            ss >= 32,
            k <= 16,
            forall|j: int| 0 <= j < 16 ==> part@[j] == (seq![0x21u8, 0x81, 0, 0, 0, 0, 0, 0, 0, 1, 0, 0] + seq![
                end_sector as u8,
                end_head as u8,
                end_cylinder as u8,
                (end_cylinder >> 8u32) as u8,
            ])[j],
            forall|j: int| 16 <= j < 16 + k ==> part@[j] == name@[j - 16],
            forall|j: int| 16 + k <= j < ss ==> part@[j] == 0,
        decreases 16 - k,
    {
        part.set(16 + k, name[k]);
        k = k + 1;
    }
    proof {
        assert((end_cylinder >> 8u32) == end_cylinder / 256) by (bit_vector);
        assert(name@ =~= partition_name());
        assert(part@ =~= partition_sector(sector_size as nat, total_sectors, heads, sectors_per_track));
    }
    part
}

/// A 16-bit value as two little-endian bytes.
pub open spec fn le16(v: u16) -> Seq<u8> {
    seq![(v & 0xFF) as u8, (v >> 8u16) as u8]
}

/// A 32-bit value as four little-endian bytes.
pub open spec fn le32(v: u32) -> Seq<u8> {
    seq![(v & 0xFF) as u8, ((v >> 8u32) & 0xFF) as u8, ((v >> 16u32) & 0xFF) as u8, (v >> 24u32) as u8]
}

/// Stores a 16-bit value little-endian at `at`.
fn put_le16(v: &mut Vec<u8>, at: usize, value: u16)
    requires
        at + 2 <= old(v)@.len(),
    ensures
        final(v)@ == old(v)@.update(at as int, le16(value)[0]).update(at + 1, le16(value)[1]),
{
    let n = v.len();
    assert(at + 1 < n);
    v.set(at, (value & 0xFF) as u8);
    v.set(at + 1, (value >> 8) as u8);
}

/// Stores a 32-bit value little-endian at `at`.
fn put_le32(v: &mut Vec<u8>, at: usize, value: u32)
    requires
        at + 4 <= old(v)@.len(),
    ensures
        final(v)@ == old(v)@.update(at as int, le32(value)[0]).update(at + 1, le32(value)[1]).update(
            at + 2,
            le32(value)[2],
        ).update(at + 3, le32(value)[3]),
{
    let n = v.len();
    assert(at + 3 < n);
    v.set(at, (value & 0xFF) as u8);
    v.set(at + 1, ((value >> 8) & 0xFF) as u8);
    v.set(at + 2, ((value >> 16) & 0xFF) as u8);
    v.set(at + 3, (value >> 24) as u8);
}

/// The jump and OEM name that start a boot sector.
pub open spec fn boot_prefix() -> Seq<u8> {
    seq![0xEBu8, 0x3C, 0x90, 0x4E, 0x45, 0x45, 0x54, 0x41, 0x4E, 0x20, 0x20]
}

/// The BPB fields of a boot sector from offset 11 to 32: the BPB with the
/// 16-bit sector count `total16`, the geometry, and the hidden sectors.
pub open spec fn bpb_fields(bpb: BpbParams, total16: u16, sectors_per_track: u8, heads: u8, hidden: u32) -> Seq<u8> {
    le16(bpb.bytes_per_sector) + seq![bpb.sectors_per_cluster] + le16(bpb.reserved_sectors) + seq![
        bpb.num_fats,
    ] + le16(bpb.root_entry_count) + le16(total16) + seq![bpb.media_descriptor] + le16(
        bpb.sectors_per_fat,
    ) + le16(sectors_per_track as u16) + le16(heads as u16) + le32(hidden)
}

/// The boot sector of a hard disk partition: the sector count in the
/// 16-bit field when it fits, else in the 32-bit field at offset 32; the
/// partition's offset as hidden sectors.
pub open spec fn hdd_boot(
    sector_size: nat,
    partition_sectors: u32,
    bpb: BpbParams,
    sectors_per_track: u8,
    heads: u8,
    partition_offset: u32,
) -> Seq<u8> {
    let small = partition_sectors <= 0xFFFF;
    boot_prefix() + bpb_fields(
        bpb,
        if small { partition_sectors as u16 } else { 0 },
        sectors_per_track,
        heads,
        partition_offset,
    ) + (if small { zeros(4) } else { le32(partition_sectors) }) + zeros((sector_size - 36) as nat)
}

/// The boot sector of a floppy: the sector count capped at FFFFh, no
/// hidden sectors.
pub open spec fn floppy_boot(sector_size: nat, total_sectors: u32, bpb: BpbParams, sectors_per_track: u8, heads: u8) -> Seq<u8> {
    boot_prefix() + bpb_fields(
        bpb,
        if total_sectors <= 0xFFFF { total_sectors as u16 } else { 0xFFFF },
        sectors_per_track,
        heads,
        0,
    ) + zeros((sector_size - 32) as nat)
}

/// Stores the jump, OEM name and BPB fields of a boot sector.
fn put_boot_fields(
    boot: &mut Vec<u8>,
    bpb: &BpbParams,
    total16: u16,
    sectors_per_track: u8,
    heads: u8,
    hidden: u32,
)
    requires
        old(boot)@.len() >= 36,
        old(boot)@ == zeros(old(boot)@.len()),
    ensures
        final(boot)@ == boot_prefix() + bpb_fields(*bpb, total16, sectors_per_track, heads, hidden)
            + zeros((old(boot)@.len() - 32) as nat),
{
    let prefix: [u8; 11] = [0xEB, 0x3C, 0x90, 0x4E, 0x45, 0x45, 0x54, 0x41, 0x4E, 0x20, 0x20];
    let mut k: usize = 0;
    while k < 11
        invariant
            boot@.len() == old(boot)@.len(),
            old(boot)@.len() >= 36,
            k <= 11,
            forall|j: int| 0 <= j < k ==> boot@[j] == prefix@[j],
            forall|j: int| k <= j < boot@.len() ==> boot@[j] == 0,
        decreases 11 - k,
    {
        boot.set(k, prefix[k]);
        k = k + 1;
    }
    put_le16(boot, 11, bpb.bytes_per_sector);
    boot.set(13, bpb.sectors_per_cluster);
    put_le16(boot, 14, bpb.reserved_sectors);
    boot.set(16, bpb.num_fats);
    put_le16(boot, 17, bpb.root_entry_count);
    put_le16(boot, 19, total16);
    boot.set(21, bpb.media_descriptor);
    put_le16(boot, 22, bpb.sectors_per_fat);
    put_le16(boot, 24, sectors_per_track as u16);
    put_le16(boot, 26, heads as u16);
    put_le32(boot, 28, hidden);
    assert(prefix@ =~= boot_prefix());
    assert(boot@ =~= boot_prefix() + bpb_fields(*bpb, total16, sectors_per_track, heads, hidden)
        + zeros((old(boot)@.len() - 32) as nat));
}

/// Builds the boot sector that FORMAT writes at the start of a hard disk
/// partition.
pub fn hdd_boot_sector(
    sector_size: u16,
    partition_sectors: u32,
    bpb: &BpbParams,
    sectors_per_track: u8,
    heads: u8,
    partition_offset: u32,
) -> (r: Vec<u8>)
    requires
        sector_size >= 36,
    ensures
        r@ == hdd_boot(sector_size as nat, partition_sectors, *bpb, sectors_per_track, heads, partition_offset),
{
    let mut boot: Vec<u8> = vec![0u8; sector_size as usize];
    assert(boot@ =~= zeros(boot@.len()));
    let small = partition_sectors <= 0xFFFF;
    let total16: u16 = if small {
        partition_sectors as u16
    } else {
        0
    };
    put_boot_fields(&mut boot, bpb, total16, sectors_per_track, heads, partition_offset);
    let ghost fields = boot@;
    if !small {
        put_le32(&mut boot, 32, partition_sectors);
    }
    assert(boot@ =~= hdd_boot(sector_size as nat, partition_sectors, *bpb, sectors_per_track, heads, partition_offset));
    boot
}

/// Builds the boot sector that FORMAT writes to sector 0 of a floppy.
pub fn floppy_boot_sector(
    sector_size: u16,
    total_sectors: u32,
    bpb: &BpbParams,
    sectors_per_track: u8,
    heads: u8,
) -> (r: Vec<u8>)
    requires
        sector_size >= 36,
    ensures
        r@ == floppy_boot(sector_size as nat, total_sectors, *bpb, sectors_per_track, heads),
{
    let mut boot: Vec<u8> = vec![0u8; sector_size as usize];
    assert(boot@ =~= zeros(boot@.len()));
    let total16: u16 = if total_sectors <= 0xFFFF {
        total_sectors as u16
    } else {
        0xFFFF
    };
    put_boot_fields(&mut boot, bpb, total16, sectors_per_track, heads, 0);
    boot
}

/// The first sector image of each FAT: the media descriptor and FFh
/// bytes for the two reserved entries (two bytes more for FAT16), the
/// rest zero; `sectors_per_fat` sectors long.
pub open spec fn fat_image(bpb: BpbParams, sector_size: nat) -> Seq<u8> {
    let head = if bpb.is_fat16 {
        seq![bpb.media_descriptor, 0xFFu8, 0xFF, 0xFF]
    } else {
        seq![bpb.media_descriptor, 0xFFu8, 0xFF]
    };
    head + zeros((bpb.sectors_per_fat * sector_size - head.len()) as nat)
}

/// Builds the FAT that FORMAT writes (each copy the same).
pub fn fat_sectors_image(bpb: &BpbParams, sector_size: u16) -> (r: Vec<u8>)
    requires
        bpb.sectors_per_fat * sector_size >= 4,
    ensures
        r@ == fat_image(*bpb, sector_size as nat),
{
    assert(bpb.sectors_per_fat as usize * sector_size as usize <= 65535 * 65535) by (nonlinear_arith)
        requires
            bpb.sectors_per_fat <= 65535,
            sector_size <= 65535,
    ;
    let size = bpb.sectors_per_fat as usize * sector_size as usize;
    let mut fat: Vec<u8> = vec![0u8; size];
    fat.set(0, bpb.media_descriptor);
    fat.set(1, 0xFF);
    fat.set(2, 0xFF);
    if bpb.is_fat16 {
        fat.set(3, 0xFF);
    }
    assert(fat@ =~= fat_image(*bpb, sector_size as nat));
    fat
}

/// Bytes of the whole volume and bytes left for files: the sectors past
/// the reserved sectors, the FATs and the root directory.
pub open spec fn volume_space(volume_sectors: u32, sector_size: u16, bpb: BpbParams) -> (nat, nat) {
    let root = div_ceil(bpb.root_entry_count as nat * 32, sector_size as nat);
    let system = bpb.reserved_sectors + bpb.num_fats * bpb.sectors_per_fat + root;
    let data: nat = if volume_sectors >= system {
        (volume_sectors - system) as nat
    } else {
        0
    };
    ((volume_sectors * sector_size) as nat, (data * sector_size) as nat)
}

/// The report that FORMAT prints when it is done.
pub open spec fn summary_text(total: nat, available: nat) -> Seq<char> {
    "Format complete.\r\n\r\n  "@ + pad_left(byte_chars(decimal_digits(total)), 12)
        + " bytes total disk space\r\n  "@ + pad_left(byte_chars(decimal_digits(available)), 12)
        + " bytes available on disk\r\n"@
}

/// A number in decimal.
fn decimal_string(n: u64) -> (r: String)
    ensures
        r@ == byte_chars(decimal_digits(n as nat)),
{
    let mut digits: Vec<u8> = Vec::new();
    push_decimal_digits(&mut digits, n);
    let mut r = String::new();
    push_byte_chars(&mut r, digits.as_slice());
    assert(digits@ =~= decimal_digits(n as nat));
    r
}

/// The report that FORMAT prints for a volume of `volume_sectors` sectors.
pub fn format_summary(volume_sectors: u32, sector_size: u16, bpb: &BpbParams) -> (r: String)
    requires
        sector_size > 0,
    ensures
        r@ == summary_text(
            volume_space(volume_sectors, sector_size, *bpb).0,
            volume_space(volume_sectors, sector_size, *bpb).1,
        ),
{
    assert(volume_sectors as u64 * sector_size as u64 <= 0xFFFF_FFFFu64 * 0xFFFFu64) by (nonlinear_arith)
        requires
            volume_sectors <= 0xFFFF_FFFFu32,
            sector_size <= 0xFFFFu16,
    ;
    let total_bytes = volume_sectors as u64 * sector_size as u64;
    let root_dir_sectors = (bpb.root_entry_count as u32 * 32 + sector_size as u32 - 1) / sector_size as u32;
    assert(bpb.num_fats as u32 * bpb.sectors_per_fat as u32 <= 255 * 65535) by (nonlinear_arith)
        requires
            bpb.num_fats <= 255,
            bpb.sectors_per_fat <= 65535,
    ;
    let system_sectors = bpb.reserved_sectors as u32 + bpb.num_fats as u32 * bpb.sectors_per_fat as u32
        + root_dir_sectors;
    let data_sectors = volume_sectors.saturating_sub(system_sectors);
    assert(data_sectors as u64 * sector_size as u64 <= 0xFFFF_FFFFu64 * 0xFFFFu64) by (nonlinear_arith)
        requires
            data_sectors <= 0xFFFF_FFFFu32,
            sector_size <= 0xFFFFu16,
    ;
    let available_bytes = data_sectors as u64 * sector_size as u64;
    let mut r = string_of("Format complete.\r\n\r\n  ");
    let total = decimal_string(total_bytes);
    push_padded_left(&mut r, total.as_str(), 12);
    r.append(" bytes total disk space\r\n  ");
    let available = decimal_string(available_bytes);
    push_padded_left(&mut r, available.as_str(), 12);
    r.append(" bytes available on disk\r\n");
    r
}

} // verus!
