//! MEM: the memory report of the command that shows used and free memory.

use vstd::prelude::*;
use crate::text::{
    byte_chars, with_commas, push_with_commas, push_byte_chars, pad_left, pad_right,
    push_padded_left, push_padded_right, string_of,
};

verus! {

/// A number with its digits grouped by three with commas.
#[verifier::opaque]
pub open spec fn number_text(n: nat) -> Seq<char> {
    byte_chars(with_commas(n))
}

pub fn format_number(n: u32) -> (r: String)
    ensures
        r@ == number_text(n as nat),
{
    reveal(number_text);
    let mut digits: Vec<u8> = Vec::new();
    push_with_commas(&mut digits, n as u64);
    let mut r = String::new();
    push_byte_chars(&mut r, digits.as_slice());
    r
}

/// Kilobytes that `bytes` take, rounded up.
pub fn bytes_to_kb_ceil(bytes: u32) -> (r: u32)
    ensures
        r == (bytes + 1023) / 1024,
{
    bytes / 1024 + if bytes % 1024 != 0 {
        1
    } else {
        0
    }
}

/// A row of the memory table: the label in 17 columns, then total, used
/// and free kilobytes, each right-aligned in 7 columns and followed by `K`.
#[verifier::opaque]
pub open spec fn row_text(label: Seq<char>, total: nat, used: nat, free: nat) -> Seq<char> {
    pad_right(label, 17) + "  "@ + pad_left(number_text(total), 7) + "K    "@ + pad_left(
        number_text(used),
        7,
    ) + "K    "@ + pad_left(number_text(free), 7) + "K"@
}

pub fn format_row(label: &str, total: u32, used: u32, free: u32) -> (r: String)
    ensures
        r@ == row_text(label@, total as nat, used as nat, free as nat),
{
    reveal(row_text);
    let mut r = String::new();
    push_padded_right(&mut r, label, 17);
    r.append("  ");
    let t = format_number(total);
    push_padded_left(&mut r, t.as_str(), 7);
    r.append("K    ");
    let u = format_number(used);
    push_padded_left(&mut r, u.as_str(), 7);
    r.append("K    ");
    let f = format_number(free);
    push_padded_left(&mut r, f.as_str(), 7);
    r.append("K");
    r
}

/// An EMS line: the label in 20 columns, the kilobytes right-aligned in 7
/// columns, and the bytes right-aligned in 10.
#[verifier::opaque]
pub open spec fn ems_text(label: Seq<char>, kb: nat, bytes: nat) -> Seq<char> {
    pad_right(label, 20) + "  "@ + pad_left(number_text(kb), 7) + "K ("@ + pad_left(
        number_text(bytes),
        10,
    ) + " bytes)"@
}

pub fn format_ems_line(label: &str, kb: u32, bytes: u32) -> (r: String)
    ensures
        r@ == ems_text(label@, kb as nat, bytes as nat),
{
    reveal(ems_text);
    let mut r = String::new();
    push_padded_right(&mut r, label, 20);
    r.append("  ");
    let k = format_number(kb);
    push_padded_left(&mut r, k.as_str(), 7);
    r.append("K (");
    let b = format_number(bytes);
    push_padded_left(&mut r, b.as_str(), 10);
    r.append(" bytes)");
    r
}

/// A largest-block line: the label, then the kilobytes right-aligned in 7
/// columns and the bytes right-aligned in 10.
#[verifier::opaque]
pub open spec fn largest_text(label: Seq<char>, kb: nat, bytes: nat) -> Seq<char> {
    label + "  "@ + pad_left(number_text(kb), 7) + "K ("@ + pad_left(number_text(bytes), 10)
        + " bytes)"@
}

pub fn format_largest_line(label: &str, kb: u32, bytes: u32) -> (r: String)
    ensures
        r@ == largest_text(label@, kb as nat, bytes as nat),
{
    reveal(largest_text);
    let mut r = string_of(label);
    r.append("  ");
    let k = format_number(kb);
    push_padded_left(&mut r, k.as_str(), 7);
    r.append("K (");
    let b = format_number(bytes);
    push_padded_left(&mut r, b.as_str(), 10);
    r.append(" bytes)");
    r
}

/// Bytes in all, in use and free in one memory area.
#[derive(Clone, Copy)]
pub struct MemoryArea {
    pub total_bytes: u32,
    pub used_bytes: u32,
    pub free_bytes: u32,
}

/// The memory areas that MEM reports, and the largest free blocks.
#[derive(Clone, Copy)]
pub struct MemoryOverview {
    pub conventional: MemoryArea,
    pub umb: MemoryArea,
    pub xms: MemoryArea,
    pub largest_conventional_free_bytes: u32,
    pub largest_umb_free_bytes: u32,
}

/// Kilobytes rounded up.
pub open spec fn kb(bytes: u32) -> nat {
    ((bytes + 1023) / 1024) as nat
}

/// `a - b`, or 0 when `b` is larger.
pub open spec fn minus_or_zero(a: nat, b: nat) -> nat {
    if a >= b {
        (a - b) as nat
    } else {
        0
    }
}

/// The table's rule line.
pub open spec fn rule_text() -> Seq<char> {
    "-----------------  --------    --------    --------"@
}

/// The memory table of the MEM report.
pub open spec fn mem_table(o: MemoryOverview) -> Seq<Seq<char>> {
    let conv_total = kb(o.conventional.total_bytes);
    let conv_used = kb(o.conventional.used_bytes);
    let umb_total = kb(o.umb.total_bytes);
    let umb_used = kb(o.umb.used_bytes);
    let xms_total = kb(o.xms.total_bytes);
    let xms_used = kb(o.xms.used_bytes);
    let total = conv_total + umb_total + xms_total;
    let used = conv_used + umb_used + xms_used;
    let low_total = conv_total + umb_total;
    let low_used = conv_used + umb_used;
    seq![Seq::empty(), "Memory Type          Total  =     Used  +     Free"@, rule_text()]
        + seq![row_text("Conventional"@, conv_total, conv_used, kb(o.conventional.free_bytes))]
        + (if umb_total > 0 {
        seq![row_text("Upper"@, umb_total, umb_used, kb(o.umb.free_bytes))]
    } else {
        Seq::empty()
    }) + (if xms_total > 0 {
        seq![row_text("Extended (XMS)"@, xms_total, xms_used, kb(o.xms.free_bytes))]
    } else {
        Seq::empty()
    }) + seq![
        rule_text(),
        row_text("Total memory"@, total, used, minus_or_zero(total, used)),
        Seq::empty(),
        row_text("Total under 1 MB"@, low_total, low_used, minus_or_zero(low_total, low_used)),
    ]
}

/// The EMS lines of the MEM report, when EMS is on.
pub open spec fn ems_part(ems: Option<(u32, u32)>) -> Seq<Seq<char>> {
    match ems {
        Some((ems_total, ems_free)) => seq![
            Seq::empty(),
            ems_text("Total Expanded (EMS)"@, ems_total as nat, (ems_total * 1024) as nat),
            ems_text("Free Expanded (EMS)"@, ems_free as nat, (ems_free * 1024) as nat),
        ],
        None => Seq::empty(),
    }
}

/// The largest-block lines of the MEM report.
pub open spec fn largest_part(o: MemoryOverview) -> Seq<Seq<char>> {
    seq![
        Seq::empty(),
        largest_text(
            "Largest executable program size"@,
            (o.largest_conventional_free_bytes / 1024) as nat,
            o.largest_conventional_free_bytes as nat,
        ),
    ] + (if kb(o.umb.total_bytes) > 0 {
        seq![
            largest_text(
                "Largest free upper memory block"@,
                (o.largest_umb_free_bytes / 1024) as nat,
                o.largest_umb_free_bytes as nat,
            ),
        ]
    } else {
        Seq::empty()
    })
}

/// The lines of the MEM report, given the memory areas, the EMS total and
/// free kilobytes when EMS is on, and whether DOS sits in the high memory
/// area.
pub open spec fn mem_report(o: MemoryOverview, ems: Option<(u32, u32)>, hma: bool) -> Seq<Seq<char>> {
    mem_table(o) + ems_part(ems) + largest_part(o) + (if hma {
        seq!["MS-DOS is resident in the high memory area."@]
    } else {
        Seq::empty()
    }) + seq![Seq::empty()]
}

/// The view of a list of lines.
pub open spec fn lines_view(lines: Seq<String>) -> Seq<Seq<char>> {
    lines.map_values(|l: String| l@)
}

/// Appends a line to the report.
fn push_line(lines: &mut Vec<String>, line: String)
    ensures
        lines_view(final(lines)@) == lines_view(old(lines)@).push(line@),
{
    lines.push(line);
    assert(lines_view(lines@) =~= lines_view(old(lines)@).push(line@));
}

/// Appends the memory table.
fn push_table(lines: &mut Vec<String>, overview: &MemoryOverview)
    ensures
        lines_view(final(lines)@) == lines_view(old(lines)@) + mem_table(*overview),
{
    let conv_total_kb = bytes_to_kb_ceil(overview.conventional.total_bytes);
    let conv_used_kb = bytes_to_kb_ceil(overview.conventional.used_bytes);
    let conv_free_kb = bytes_to_kb_ceil(overview.conventional.free_bytes);
    let umb_total_kb = bytes_to_kb_ceil(overview.umb.total_bytes);
    let umb_used_kb = bytes_to_kb_ceil(overview.umb.used_bytes);
    let umb_free_kb = bytes_to_kb_ceil(overview.umb.free_bytes);
    let xms_total_kb = bytes_to_kb_ceil(overview.xms.total_bytes);
    let xms_used_kb = bytes_to_kb_ceil(overview.xms.used_bytes);
    let xms_free_kb = bytes_to_kb_ceil(overview.xms.free_bytes);

    let total_total = conv_total_kb + umb_total_kb + xms_total_kb;
    let total_used = conv_used_kb + umb_used_kb + xms_used_kb;
    let total_free = total_total.saturating_sub(total_used);

    let under_1m_total = conv_total_kb + umb_total_kb;
    let under_1m_used = conv_used_kb + umb_used_kb;
    let under_1m_free = under_1m_total.saturating_sub(under_1m_used);

    push_line(lines, String::new());
    push_line(lines, string_of("Memory Type          Total  =     Used  +     Free"));
    push_line(lines, string_of("-----------------  --------    --------    --------"));
    push_line(lines, format_row("Conventional", conv_total_kb, conv_used_kb, conv_free_kb));
    let ghost head = lines_view(lines@);
    if umb_total_kb > 0 {
        push_line(lines, format_row("Upper", umb_total_kb, umb_used_kb, umb_free_kb));
    }
    if xms_total_kb > 0 {
        push_line(lines, format_row("Extended (XMS)", xms_total_kb, xms_used_kb, xms_free_kb));
    }
    let ghost middle = lines_view(lines@);
    push_line(lines, string_of("-----------------  --------    --------    --------"));
    push_line(lines, format_row("Total memory", total_total, total_used, total_free));
    push_line(lines, String::new());
    push_line(lines, format_row("Total under 1 MB", under_1m_total, under_1m_used, under_1m_free));
    assert(lines_view(lines@) =~= lines_view(old(lines)@) + mem_table(*overview));
}

/// The lines that MEM prints for the given memory areas; `ems` holds the
/// EMS total and free kilobytes when EMS is on, `hma` whether DOS sits in
/// the high memory area.
pub fn memory_report(overview: &MemoryOverview, ems: Option<(u32, u32)>, hma: bool) -> (r: Vec<String>)
    requires
        ems matches Some((t, f)) ==> t <= 4194303 && f <= 4194303,
    ensures
        lines_view(r@) == mem_report(*overview, ems, hma),
{
    let mut lines: Vec<String> = Vec::new();
    push_table(&mut lines, overview);
    let ghost table = lines_view(lines@);
    if let Some((ems_total, ems_free)) = ems {
        push_line(&mut lines, String::new());
        push_line(&mut lines, format_ems_line("Total Expanded (EMS)", ems_total, ems_total * 1024));
        push_line(&mut lines, format_ems_line("Free Expanded (EMS)", ems_free, ems_free * 1024));
    }
    assert(lines_view(lines@) =~= table + ems_part(ems));
    let ghost with_ems = lines_view(lines@);
    push_line(&mut lines, String::new());
    let largest_conv_bytes = overview.largest_conventional_free_bytes;
    push_line(
        &mut lines,
        format_largest_line(
            "Largest executable program size",
            largest_conv_bytes / 1024,
            largest_conv_bytes,
        ),
    );
    if bytes_to_kb_ceil(overview.umb.total_bytes) > 0 {
        let largest_umb_bytes = overview.largest_umb_free_bytes;
        push_line(
            &mut lines,
            format_largest_line(
                "Largest free upper memory block",
                largest_umb_bytes / 1024,
                largest_umb_bytes,
            ),
        );
    }
    assert(lines_view(lines@) =~= with_ems + largest_part(*overview));
    let ghost with_largest = lines_view(lines@);
    if hma {
        push_line(&mut lines, string_of("MS-DOS is resident in the high memory area."));
    }
    push_line(&mut lines, String::new());
    assert(lines_view(lines@) =~= mem_report(*overview, ems, hma));
    lines
}

} // verus!
