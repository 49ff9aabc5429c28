//! The badges over a cell's picture.
use vstd::prelude::*;
use vstd::string::*;

use super::entries::LibraryEntry;
use crate::num::{round_to_multiple, round_to_significand, rounded_to_significand};
use crate::text::{decimal, decimal_text, texts, upper, upper_text};
use crate::util::path_text::{may_have_extension, path_extension, text_of};

verus! {

/// Integers from here on are not all held by a double-precision number.
pub const DOUBLE_PRECISION_LIMIT: u64 = 0x20_0000_0000_0000;

pub const KIBIBYTE: u128 = 0x400;

pub const MEBIBYTE: u128 = 0x10_0000;

pub const GIBIBYTE: u128 = 0x4000_0000;

/// `n` divided by `unit`, to the nearest, ties to even.
pub open spec fn nearest_quotient(n: nat, unit: nat) -> nat {
    round_to_multiple(n, unit) / unit
}

/// A number of tenths with one decimal.
pub open spec fn tenths_text(tenths: nat) -> Seq<char> {
    decimal(tenths / 10) + "."@ + decimal(tenths % 10)
}

/// A file size: gibibytes or mebibytes with one decimal, or whole kibibytes, one at least. Sizes
/// beyond the precision of a double are rounded to it first.
pub open spec fn size_text(bytes: nat) -> Seq<char> {
    if bytes >= GIBIBYTE {
        tenths_text(
            nearest_quotient(
                rounded_to_significand(bytes, DOUBLE_PRECISION_LIMIT as nat) * 10,
                GIBIBYTE as nat,
            ),
        ) + "GB"@
    } else if bytes >= MEBIBYTE {
        tenths_text(nearest_quotient(bytes * 10, MEBIBYTE as nat)) + "MB"@
    } else if bytes >= KIBIBYTE {
        decimal(nearest_quotient(bytes, KIBIBYTE as nat)) + "KB"@
    } else {
        "1KB"@
    }
}

fn divide_to_nearest(n: u128, unit: u128) -> (quotient: u128)
    requires
        0 < unit <= GIBIBYTE,
        n <= 0x1000_0000_0000_0000_0000,
    ensures
        quotient == nearest_quotient(n as nat, unit as nat),
{
    let whole: u128 = n / unit;
    let rest: u128 = n % unit;
    let up: bool = 2 * rest > unit || (2 * rest == unit && whole % 2 == 1);
    assert(whole * unit / unit as int == whole && (whole + 1) * unit / unit as int == whole + 1)
        by (nonlinear_arith)
        requires
            unit > 0,
    ;
    assert(whole <= n) by (nonlinear_arith)
        requires
            whole == n / unit,
            unit > 0,
    ;
    if up {
        whole + 1
    } else {
        whole
    }
}

fn write_tenths(tenths: u128) -> (text: String)
    ensures
        text@ == tenths_text(tenths as nat),
{
    let mut text: String = decimal_text(tenths / 10);
    text.append(".");
    text.append(decimal_text(tenths % 10).as_str());
    text
}

pub fn format_file_size(bytes: u64) -> (text: String)
    ensures
        text@ == size_text(bytes as nat),
{
    let size: u128 = bytes as u128;
    if size >= GIBIBYTE {
        let held: u128 = round_to_significand(bytes, DOUBLE_PRECISION_LIMIT);
        let mut text: String = write_tenths(divide_to_nearest(held * 10, GIBIBYTE));
        text.append("GB");
        text
    } else if size >= MEBIBYTE {
        let mut text: String = write_tenths(divide_to_nearest(size * 10, MEBIBYTE));
        text.append("MB");
        text
    } else if size >= KIBIBYTE {
        let mut text: String = decimal_text(divide_to_nearest(size, KIBIBYTE));
        text.append("KB");
        text
    } else {
        "1KB".to_owned()
    }
}

/// What stands in the corner of a picture.
pub enum ThumbHudBadge {
    Archive { size: u64, ext: String },
    FolderBook,
    ImageFile,
}

/// The kind of an archive: its extension in capitals.
pub open spec fn archive_kind(found: Option<Seq<char>>) -> Seq<char> {
    match found {
        Some(text) if text.len() > 0 => upper(text),
        _ => "ARC"@,
    }
}

pub fn thumb_hud_badge(entry: &LibraryEntry) -> (badge: Option<ThumbHudBadge>)
    ensures
        match *entry {
            LibraryEntry::Archive(archive) => badge matches Some(
                ThumbHudBadge::Archive { size, ext },
            ) && size == archive.size && exists|found: Option<Seq<char>>| #[trigger]
                may_have_extension(archive.path@, found) && ext@ == archive_kind(found),
            LibraryEntry::FolderBook(_) => badge == Some(ThumbHudBadge::FolderBook),
            LibraryEntry::ImageFile(_) => badge == Some(ThumbHudBadge::ImageFile),
            LibraryEntry::Folder(_) => badge is None,
        },
{
    match entry {
        LibraryEntry::Archive(archive) => {
            let found: Option<String> = path_extension(archive.path.as_str());
            assert(may_have_extension(archive.path@, text_of(found)));
            let ext: String = match found {
                Some(text) => if text.as_str().is_empty() {
                    "ARC".to_owned()
                } else {
                    upper_text(text.as_str())
                },
                None => "ARC".to_owned(),
            };
            Some(ThumbHudBadge::Archive { size: archive.size, ext })
        },
        LibraryEntry::FolderBook(_) => Some(ThumbHudBadge::FolderBook),
        LibraryEntry::ImageFile(_) => Some(ThumbHudBadge::ImageFile),
        LibraryEntry::Folder(_) => None,
    }
}

pub fn badge_text_lines(badge: ThumbHudBadge) -> (lines: Vec<String>)
    ensures
        texts(lines@) == match badge {
            ThumbHudBadge::Archive { size, ext } => seq![size_text(size as nat), ext@],
            ThumbHudBadge::FolderBook => seq!["DIR"@],
            ThumbHudBadge::ImageFile => seq!["IMAGE"@],
        },
{
    let mut lines: Vec<String> = Vec::new();
    match badge {
        ThumbHudBadge::Archive { size, ext } => {
            let ghost kind = ext@;
            lines.push(format_file_size(size));
            lines.push(ext);
            assert(texts(lines@) =~= seq![size_text(size as nat), kind]);
        },
        ThumbHudBadge::FolderBook => {
            lines.push("DIR".to_owned());
            assert(texts(lines@) =~= seq!["DIR"@]);
        },
        ThumbHudBadge::ImageFile => {
            lines.push("IMAGE".to_owned());
            assert(texts(lines@) =~= seq!["IMAGE"@]);
        },
    }
    lines
}

/// How far a book is read.
#[derive(Clone, Copy, Debug, PartialEq, Eq, Structural)]
pub enum ReadingHudState {
    Unread,
    Reading,
    ReadingPercent(u8),
    Read,
}

/// What a badge says of that, given the words for it.
pub open spec fn reading_text(
    state: ReadingHudState,
    reading_word: Seq<char>,
    read_word: Seq<char>,
) -> Option<Seq<char>> {
    match state {
        ReadingHudState::Unread => None,
        ReadingHudState::Reading => Some(reading_word),
        ReadingHudState::ReadingPercent(percent) => Some(decimal(percent as nat) + "%"@),
        ReadingHudState::Read => Some(read_word),
    }
}

pub fn reading_hud_label(state: ReadingHudState, reading_word: &str, read_word: &str) -> (label:
    Option<String>)
    ensures
        text_of(label) == reading_text(state, reading_word@, read_word@),
{
    match state {
        ReadingHudState::Unread => None,
        ReadingHudState::Reading => Some(reading_word.to_owned()),
        ReadingHudState::ReadingPercent(percent) => {
            let mut label: String = decimal_text(percent as u128);
            label.append("%");
            Some(label)
        },
        ReadingHudState::Read => Some(read_word.to_owned()),
    }
}

/// A rounded quotient is off by half a unit at most.
pub proof fn law_quotients_are_rounded_to_the_nearest(n: nat, unit: nat)
    requires
        unit > 0,
    ensures
        2 * nearest_quotient(n, unit) * unit <= 2 * n + unit,
        2 * n <= 2 * nearest_quotient(n, unit) * unit + unit,
{
    let q = n / unit;
    let r = n % unit;
    assert(n == q * unit + r && r < unit) by (nonlinear_arith)
        requires
            q == n / unit,
            r == n % unit,
            unit > 0,
    ;
    assert((q + 1) * unit == q * unit + unit) by (nonlinear_arith);
    assert((q + 1) * unit / unit == q + 1) by (nonlinear_arith)
        requires
            unit > 0,
    ;
    assert(q * unit / unit == q) by (nonlinear_arith)
        requires
            unit > 0,
    ;
    let k = nearest_quotient(n, unit);
    assert(2 * k * unit == 2 * (k * unit)) by (nonlinear_arith);
}

/// Sizes are told in the largest unit that they fill once: kibibytes in whole numbers, mebibytes
/// and gibibytes in tenths, rounded to the nearest; below a kibibyte they count as one.
pub proof fn law_sizes_are_told_in_their_unit(bytes: nat)
    ensures
        bytes < 1024 ==> size_text(bytes) == "1KB"@,
        1024 <= bytes < 1_048_576 ==> exists|n: nat|
            size_text(bytes) == #[trigger] decimal(n) + "KB"@ && n * 1024 <= bytes + 512 && bytes
                <= n * 1024 + 512,
        1_048_576 <= bytes < 1_073_741_824 ==> exists|n: nat|
            size_text(bytes) == #[trigger] tenths_text(n) + "MB"@ && n * 1_048_576 <= bytes * 10
                + 524_288 && bytes * 10 <= n * 1_048_576 + 524_288,
        1_073_741_824 <= bytes < 9_007_199_254_740_992 ==> exists|n: nat|
            size_text(bytes) == #[trigger] tenths_text(n) + "GB"@ && n * 1_073_741_824 <= bytes * 10
                + 536_870_912 && bytes * 10 <= n * 1_073_741_824 + 536_870_912,
{
    if 1024 <= bytes < 1_048_576 {
        law_quotients_are_rounded_to_the_nearest(bytes, 1024);
        let n = nearest_quotient(bytes, 1024);
        assert(size_text(bytes) == decimal(n) + "KB"@);
    } else if 1_048_576 <= bytes < 1_073_741_824 {
        law_quotients_are_rounded_to_the_nearest(bytes * 10, 1_048_576);
        let n = nearest_quotient(bytes * 10, 1_048_576);
        assert(size_text(bytes) == tenths_text(n) + "MB"@);
    } else if 1_073_741_824 <= bytes < 9_007_199_254_740_992 {
        crate::num::law_rounding_changes_little(bytes, DOUBLE_PRECISION_LIMIT as nat);
        law_quotients_are_rounded_to_the_nearest(bytes * 10, 1_073_741_824);
        let n = nearest_quotient(bytes * 10, 1_073_741_824);
        assert(size_text(bytes) == tenths_text(n) + "GB"@);
    }
}

/// A book that is not read has no badge; one that is being read tells how far, in per cent where
/// that is known; and one that is read says so.
pub proof fn law_badges_tell_how_far_a_book_is_read(
    percent: u8,
    reading: Seq<char>,
    read: Seq<char>,
)
    ensures
        reading_text(ReadingHudState::Unread, reading, read) is None,
        reading_text(ReadingHudState::Reading, reading, read) == Some(reading),
        reading_text(ReadingHudState::Read, reading, read) == Some(read),
        reading_text(ReadingHudState::ReadingPercent(percent), reading, read) == Some(
            decimal(percent as nat) + "%"@,
        ),
{
}

/// The kind of an archive is told by its extension in capitals; without one it is an archive.
pub proof fn law_kinds_are_told_in_capitals(text: Seq<char>)
    ensures
        text.len() > 0 ==> archive_kind(Some(text)) == upper(text),
        archive_kind(Some(Seq::empty())) == "ARC"@,
        archive_kind(None) == "ARC"@,
{
}

} // verus!
