//! Breaking a title into lines of a given width. How wide a text is, the caller measures.
use vstd::prelude::*;
use vstd::string::*;

use crate::text::{chars_of, string_of};

verus! {

/// One line: the characters from `start` to `end`, and whether an ellipsis follows.
#[derive(Clone, Copy, Debug, PartialEq, Eq, Structural)]
pub struct TitleLine {
    pub start: usize,
    pub end: usize,
    pub ellipsis: bool,
}

/// The caller can be asked of any stretch of the title, with or without an ellipsis behind it.
pub open spec fn answers<F: Fn(usize, usize, bool) -> bool>(fits: F) -> bool {
    forall|start: usize, end: usize, ellipsis: bool| #[trigger]
        fits.requires((start, end, ellipsis))
}

pub open spec fn may_fit<F: Fn(usize, usize, bool) -> bool>(
    fits: F,
    start: usize,
    end: usize,
    ellipsis: bool,
) -> bool {
    fits.ensures((start, end, ellipsis), true)
}

pub open spec fn may_not_fit<F: Fn(usize, usize, bool) -> bool>(
    fits: F,
    start: usize,
    end: usize,
    ellipsis: bool,
) -> bool {
    fits.ensures((start, end, ellipsis), false)
}

/// A longer text is wider, and a text is asked after twice with the same answer.
pub open spec fn measures_well<F: Fn(usize, usize, bool) -> bool>(
    fits: F,
    start: usize,
    ellipsis: bool,
) -> bool {
    forall|shorter: usize, longer: usize|
        shorter <= longer && #[trigger] may_fit(fits, start, longer, ellipsis)
            ==> !#[trigger] may_not_fit(fits, start, shorter, ellipsis)
}

/// The end of the longest stretch from `start` that fits; `start` where not one character does.
pub fn best_fit_end<F: Fn(usize, usize, bool) -> bool>(fits: &F, start: usize, limit: usize) -> (best:
    usize)
    requires
        answers(*fits),
        start <= limit < usize::MAX,
    ensures
        start <= best <= limit,
        best > start ==> may_fit(*fits, start, best, false),
        measures_well(*fits, start, false) ==> forall|end: usize|
            best < end <= limit ==> !#[trigger] may_fit(*fits, start, end, false),
{
    let mut lo: usize = start + 1;
    let mut hi: usize = limit;
    let mut best: usize = start;
    while lo <= hi
        invariant
            answers(*fits),
            start < lo <= limit + 1,
            hi <= limit < usize::MAX,
            best == lo - 1,
            best <= limit,
            hi >= best,
            best > start ==> may_fit(*fits, start, best, false),
            measures_well(*fits, start, false) ==> forall|end: usize|
                hi < end <= limit ==> !#[trigger] may_fit(*fits, start, end, false),
        decreases hi + 1 - lo,
    {
        let mid: usize = lo + (hi - lo) / 2;
        if fits(start, mid, false) {
            assert(may_fit(*fits, start, mid, false));
            best = mid;
            lo = mid + 1;
        } else {
            assert(may_not_fit(*fits, start, mid, false));
            hi = mid - 1;
        }
    }
    best
}

/// How many characters from `start` fit with an ellipsis behind them; none where the ellipsis
/// alone does not.
pub fn fit_with_ellipsis<F: Fn(usize, usize, bool) -> bool>(fits: &F, start: usize, limit: usize) -> (end:
    Option<usize>)
    requires
        answers(*fits),
        start <= limit < usize::MAX,
    ensures
        end is None ==> may_not_fit(*fits, start, start, true),
        end matches Some(end) ==> start <= end <= limit && may_fit(*fits, start, end, true),
        end matches Some(best) ==> (measures_well(*fits, start, true) ==> forall|longer: usize|
            best < longer <= limit ==> !#[trigger] may_fit(*fits, start, longer, true)),
{
    if !fits(start, start, true) {
        assert(may_not_fit(*fits, start, start, true));
        return None;
    }
    assert(may_fit(*fits, start, start, true));
    let mut lo: usize = start + 1;
    let mut hi: usize = limit;
    let mut best: usize = start;
    while lo <= hi
        invariant
            answers(*fits),
            start < lo <= limit + 1,
            hi <= limit < usize::MAX,
            best == lo - 1,
            best <= limit,
            hi >= best,
            may_fit(*fits, start, best, true),
            measures_well(*fits, start, true) ==> forall|end: usize|
                hi < end <= limit ==> !#[trigger] may_fit(*fits, start, end, true),
        decreases hi + 1 - lo,
    {
        let mid: usize = lo + (hi - lo) / 2;
        if fits(start, mid, true) {
            assert(may_fit(*fits, start, mid, true));
            best = mid;
            lo = mid + 1;
        } else {
            assert(may_not_fit(*fits, start, mid, true));
            hi = mid - 1;
        }
    }
    Some(best)
}

/// Whether lines follow each other through a title of `len` characters: from its start, none
/// empty but for one that only an ellipsis could fill, an ellipsis only at the end of the last
/// line that there may be, and without one the whole title.
pub open spec fn breaks_title(lines: Seq<TitleLine>, len: nat, max_lines: nat) -> bool {
    &&& lines.len() <= max_lines
    &&& (lines.len() == 0) == (len == 0 || max_lines == 0)
    &&& forall|i: int|
        #![trigger lines[i]]
        0 <= i < lines.len() ==> {
            &&& lines[i].start <= lines[i].end <= len
            &&& lines[i].start == (if i == 0 {
                0int
            } else {
                lines[i - 1].end as int
            })
            &&& lines[i].ellipsis ==> i == max_lines - 1
            &&& !lines[i].ellipsis ==> lines[i].start < lines[i].end
        }
    &&& lines.len() > 0 && !lines.last().ellipsis ==> lines.last().end == len
}

/// Whether a line is what fits: with an ellipsis the part that fits together with it, and nothing
/// where not even the ellipsis does; without one the part that fits, or a single character. Where
/// widths grow with the text, no longer part would have done, and an ellipsis stands only where
/// the rest of the title does not fit.
pub open spec fn line_fits<F: Fn(usize, usize, bool) -> bool>(
    line: TitleLine,
    len: usize,
    fits: F,
) -> bool {
    if line.ellipsis {
        &&& may_fit(fits, line.start, line.end, true) || line.end == line.start && may_not_fit(
            fits,
            line.start,
            line.start,
            true,
        )
        &&& measures_well(fits, line.start, true) ==> forall|end: usize|
            line.end < end <= len ==> !#[trigger] may_fit(fits, line.start, end, true)
        &&& measures_well(fits, line.start, false) ==> !may_fit(fits, line.start, len, false)
    } else {
        &&& may_fit(fits, line.start, line.end, false) || line.end == line.start + 1
        &&& measures_well(fits, line.start, false) ==> forall|end: usize|
            line.end < end <= len ==> !#[trigger] may_fit(fits, line.start, end, false)
    }
}

pub open spec fn lines_fit<F: Fn(usize, usize, bool) -> bool>(
    lines: Seq<TitleLine>,
    len: usize,
    fits: F,
) -> bool {
    forall|i: int| 0 <= i < lines.len() ==> line_fits(#[trigger] lines[i], len, fits)
}

/// Breaks a title of `len` characters into at most `max_lines` lines; what does not fit ends in
/// an ellipsis.
pub fn layout_title_lines<F: Fn(usize, usize, bool) -> bool>(
    len: usize,
    max_lines: usize,
    fits: &F,
) -> (lines: Vec<TitleLine>)
    requires
        answers(*fits),
        len < usize::MAX,
    ensures
        breaks_title(lines@, len as nat, max_lines as nat),
        lines_fit(lines@, len, *fits),
{
    let mut lines: Vec<TitleLine> = Vec::new();
    let mut start: usize = 0;
    if max_lines == 0 {
        return lines;
    }
    while start < len && lines.len() < max_lines
        invariant_except_break
            start <= len,
            lines@.len() <= max_lines,
            start == (if lines@.len() == 0 {
                0int
            } else {
                lines@.last().end as int
            }),
            lines@.len() == max_lines ==> start == len,
            forall|i: int| 0 <= i < lines@.len() ==> !(#[trigger] lines@[i]).ellipsis,
        invariant
            answers(*fits),
            len < usize::MAX,
            max_lines > 0,
            lines@.len() <= max_lines,
            lines@.len() > 0 || start == 0,
            forall|i: int|
                #![trigger lines@[i]]
                0 <= i < lines@.len() ==> {
                    &&& lines@[i].start <= lines@[i].end <= len
                    &&& lines@[i].start == (if i == 0 {
                        0int
                    } else {
                        lines@[i - 1].end as int
                    })
                    &&& lines@[i].ellipsis ==> i == max_lines - 1
                    &&& !lines@[i].ellipsis ==> lines@[i].start < lines@[i].end
                },
            lines_fit(lines@, len, *fits),
        ensures
            len == 0 ==> lines@.len() == 0,
            len > 0 ==> lines@.len() > 0,
            lines@.len() > 0 && !lines@.last().ellipsis ==> lines@.last().end == len,
        decreases len - start,
    {
        let last_line: bool = lines.len() + 1 == max_lines;
        let mut end: usize = best_fit_end(fits, start, len);
        if end <= start {
            end = start + 1;
        }
        let ghost before = lines@;
        if last_line && end < len {
            let kept: usize = match fit_with_ellipsis(fits, start, len) {
                Some(end) => end,
                None => start,
            };
            lines.push(TitleLine { start, end: kept, ellipsis: true });
            assert(forall|i: int| 0 <= i < before.len() ==> lines@[i] == #[trigger] before[i]);
            break;
        }
        lines.push(TitleLine { start, end, ellipsis: false });
        assert(forall|i: int| 0 <= i < before.len() ==> lines@[i] == #[trigger] before[i]);
        start = end;
    }
    lines
}

/// The text of a line. One with an ellipsis that not even the ellipsis fits on is empty.
pub open spec fn line_text(title: Seq<char>, line: TitleLine, ellipsis_fits: bool) -> Seq<char> {
    if line.ellipsis && !ellipsis_fits {
        Seq::empty()
    } else if line.ellipsis {
        title.subrange(line.start as int, line.end as int) + "…"@
    } else {
        title.subrange(line.start as int, line.end as int)
    }
}

pub fn title_line_text(title: &str, line: TitleLine, ellipsis_fits: bool) -> (text: String)
    requires
        line.start <= line.end <= title@.len(),
    ensures
        text@ == line_text(title@, line, ellipsis_fits),
{
    if line.ellipsis && !ellipsis_fits {
        return String::new();
    }
    let chars: Vec<char> = chars_of(title);
    let mut part: Vec<char> = Vec::new();
    let mut i: usize = line.start;
    assert(part@ =~= title@.subrange(line.start as int, line.start as int));
    while i < line.end
        invariant
            line.start <= i <= line.end <= chars@.len(),
            chars@ == title@,
            part@ == title@.subrange(line.start as int, i as int),
        decreases line.end - i,
    {
        part.push(chars[i]);
        i = i + 1;
        assert(part@ =~= title@.subrange(line.start as int, i as int));
    }
    let mut text: String = string_of(&part);
    if line.ellipsis {
        text.append("…");
    }
    text
}

} // verus!
