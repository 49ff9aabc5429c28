//! Pairing of pages in automatic mode: which pages share a screen, decided once from the page
//! sizes and looked up by page afterwards.
use vstd::prelude::*;

use crate::domain::{BookPageMap, PageMapEntry};
use crate::num::{law_rounding_changes_little, round_to_significand, rounded_to_significand};

verus! {

/// Significand of single precision: 24 bits.
pub const SINGLE_PRECISION_LIMIT: u64 = 0x100_0000;

/// Height over width of at least 1.1, as single-precision arithmetic decides it: both sides are
/// rounded to 24 significant bits, and a quotient counts as at least 1.1 once it lies above the
/// middle between the single-precision value of 1.1 and its predecessor, `18454937 / 2^24`.
pub open spec fn is_portrait(width: nat, height: nat) -> bool {
    rounded_to_significand(height, SINGLE_PRECISION_LIMIT as nat) * 0x100_0000
        > rounded_to_significand(width, SINGLE_PRECISION_LIMIT as nat) * 18454937
}

/// Whether a page is upright, or `None` for a page without width.
pub fn is_portrait_page(orig_w: u32, orig_h: u32) -> (portrait: Option<bool>)
    ensures
        portrait == if orig_w > 0 {
            Some(is_portrait(orig_w as nat, orig_h as nat))
        } else {
            None
        },
{
    if orig_w > 0 {
        let height: u128 = round_to_significand(orig_h as u64, SINGLE_PRECISION_LIMIT);
        let width: u128 = round_to_significand(orig_w as u64, SINGLE_PRECISION_LIMIT);
        Some(height * 0x100_0000 > width * 18454937)
    } else {
        None
    }
}

/// One screen of a plan: a page, or a page and the one after it.
#[derive(Clone, Copy, Debug, PartialEq, Eq, Structural)]
pub struct AutoDisplayUnit {
    pub first_page: u32,
    pub second_page: Option<u32>,
}

impl AutoDisplayUnit {
    /// The first page behind the unit.
    pub open spec fn end(self) -> int {
        if self.second_page is Some {
            self.first_page + 2
        } else {
            self.first_page + 1
        }
    }

    /// The second page, where there is one, follows the first.
    pub open spec fn wf(self) -> bool {
        self.second_page matches Some(second) ==> second == self.first_page + 1
    }

    pub open spec fn covers(self, page: int) -> bool {
        self.first_page <= page < self.end()
    }

    pub fn new(first_page: u32, second_page: Option<u32>) -> (unit: Self)
        ensures
            unit.first_page == first_page,
            unit.second_page == second_page,
    {
        Self { first_page, second_page }
    }

    /// The page by which navigation names this unit.
    pub fn anchor_page(&self) -> (page: u32)
        ensures
            page == self.first_page,
    {
        self.first_page
    }

    pub fn pages(&self) -> (pages: (u32, Option<u32>))
        ensures
            pages == (self.first_page, self.second_page),
    {
        (self.first_page, self.second_page)
    }
}

/// The units of a book in reading order, and for each page the index of its unit.
pub struct AutoSpreadPlan {
    pub units: Vec<AutoDisplayUnit>,
    pub page_to_unit: Vec<usize>,
}

impl AutoSpreadPlan {
    pub open spec fn page_count(self) -> nat {
        self.page_to_unit@.len()
    }

    /// The units split the pages `0..page_count` into consecutive runs of one or two, and
    /// `page_to_unit` names for each page the run that it lies in.
    pub open spec fn wf(self) -> bool {
        &&& self.page_count() <= u32::MAX + 1
        &&& forall|u: int|
            0 <= u < self.units@.len() ==> (#[trigger] self.units@[u]).wf() && self.units@[u].end()
                <= self.page_count()
        &&& forall|p: int|
            0 <= p < self.page_count() ==> (#[trigger] self.page_to_unit@[p]) < self.units@.len()
                && self.units@[self.page_to_unit@[p] as int].covers(p)
        &&& forall|u: int, p: int|
            0 <= u < self.units@.len() && #[trigger] self.units@[u].covers(p)
                ==> self.page_to_unit@[p] == u
        &&& forall|u: int, v: int|
            0 <= u < self.units@.len() && v == u + 1 && v < self.units@.len() ==> (
            #[trigger] self.units@[v]).first_page == (#[trigger] self.units@[u]).end()
        &&& self.units@.len() > 0 ==> self.units@[0].first_page == 0
        &&& self.units@.len() > 0 ==> self.units@.last().end() == self.page_count()
        &&& self.units@.len() == 0 ==> self.page_count() == 0
    }

    /// The unit of a page of the book.
    pub open spec fn unit_of(self, page: int) -> AutoDisplayUnit {
        self.units@[self.page_to_unit@[page] as int]
    }

    pub fn unit_index_for_logical_page(&self, logical_page: u32) -> (index: Option<usize>)
        requires
            self.wf(),
        ensures
            index == if logical_page < self.page_count() {
                Some(self.page_to_unit@[logical_page as int])
            } else {
                None
            },
    {
        let page_index: usize = logical_page as usize;
        if page_index < self.page_to_unit.len() {
            Some(self.page_to_unit[page_index])
        } else {
            None
        }
    }

    /// The unit that holds `logical_page`.
    pub fn unit_for_logical_page(&self, logical_page: u32) -> (unit: Option<AutoDisplayUnit>)
        requires
            self.wf(),
        ensures
            unit == if logical_page < self.page_count() {
                Some(self.unit_of(logical_page as int))
            } else {
                None
            },
    {
        match self.unit_index_for_logical_page(logical_page) {
            Some(index) => Some(self.units[index]),
            None => None,
        }
    }

    /// The anchor of the unit that holds `logical_page`.
    pub fn anchor_for_logical_page(&self, logical_page: u32) -> (anchor: Option<u32>)
        requires
            self.wf(),
        ensures
            anchor == if logical_page < self.page_count() {
                Some(self.unit_of(logical_page as int).first_page)
            } else {
                None
            },
    {
        match self.unit_for_logical_page(logical_page) {
            Some(unit) => Some(unit.anchor_page()),
            None => None,
        }
    }

    /// The pages of the unit with the given index in the plan.
    pub fn pages_for_unit_index(&self, unit_index: usize) -> (pages: Option<(u32, Option<u32>)>)
        ensures
            pages == if unit_index < self.units@.len() {
                Some(
                    (
                        self.units@[unit_index as int].first_page,
                        self.units@[unit_index as int].second_page,
                    ),
                )
            } else {
                None
            },
    {
        if unit_index < self.units.len() {
            Some(self.units[unit_index].pages())
        } else {
            None
        }
    }

    /// The pages of the unit that holds `logical_page`.
    pub fn pages_for_logical_page(&self, logical_page: u32) -> (pages: Option<(u32, Option<u32>)>)
        requires
            self.wf(),
        ensures
            pages == if logical_page < self.page_count() {
                Some(
                    (
                        self.unit_of(logical_page as int).first_page,
                        self.unit_of(logical_page as int).second_page,
                    ),
                )
            } else {
                None
            },
    {
        match self.unit_index_for_logical_page(logical_page) {
            Some(index) => self.pages_for_unit_index(index),
            None => None,
        }
    }

    /// The anchor of the unit behind the one that holds the page: the page at which that unit
    /// ends, where the book goes on there.
    pub fn next_anchor(&self, logical_page_or_anchor: u32) -> (anchor: Option<u32>)
        requires
            self.wf(),
        ensures
            anchor == if logical_page_or_anchor < self.page_count() && self.unit_of(
                logical_page_or_anchor as int,
            ).end() < self.page_count() {
                Some(self.unit_of(logical_page_or_anchor as int).end() as u32)
            } else {
                None
            },
    {
        match self.unit_index_for_logical_page(logical_page_or_anchor) {
            Some(index) => {
                assert(self.unit_of(logical_page_or_anchor as int).end() <= self.page_count());
                if self.units.len() - index > 1 {
                    assert(self.units@[index + 1].end() <= self.page_count());
                    Some(self.units[index + 1].anchor_page())
                } else {
                    None
                }
            },
            None => None,
        }
    }

    /// The anchor of the unit before the one that holds the page: the anchor of the page before
    /// that unit.
    pub fn previous_anchor(&self, logical_page_or_anchor: u32) -> (anchor: Option<u32>)
        requires
            self.wf(),
        ensures
            anchor == if logical_page_or_anchor < self.page_count() && self.unit_of(
                logical_page_or_anchor as int,
            ).first_page > 0 {
                Some(self.unit_of(self.unit_of(logical_page_or_anchor as int).first_page - 1).first_page)
            } else {
                None
            },
    {
        match self.unit_index_for_logical_page(logical_page_or_anchor) {
            Some(index) => {
                if index > 0 {
                    proof {
                        let before = self.units@[index - 1];
                        assert(before.covers(self.units@[index as int].first_page - 1));
                    }
                    Some(self.units[index - 1].anchor_page())
                } else {
                    None
                }
            },
            None => None,
        }
    }
}

/// The unit of a page among consecutive units.
pub open spec fn unit_covering(units: Seq<AutoDisplayUnit>, page: int) -> AutoDisplayUnit {
    units[choose|u: int| 0 <= u < units.len() && (#[trigger] units[u]).covers(page)]
}

/// A plan finds for a page of the book the one unit that covers it.
pub proof fn lemma_unit_covering(plan: AutoSpreadPlan, page: int)
    requires
        plan.wf(),
        0 <= page < plan.page_count(),
    ensures
        plan.unit_of(page) == unit_covering(plan.units@, page),
{
    let units = plan.units@;
    let v = plan.page_to_unit@[page] as int;
    assert(units[v].covers(page));
    let u = choose|u: int| 0 <= u < units.len() && (#[trigger] units[u]).covers(page);
    assert(plan.page_to_unit@[page] == u);
}

/// Whether the page shares a screen with the page after it, given that a unit starts at `page`.
pub open spec fn pairs_with_next(pages: Seq<PageMapEntry>, cover_blank: bool, page: int) -> bool {
    &&& !(cover_blank && page == 0)
    &&& page + 1 < pages.len()
    &&& pages[page].width > 0
    &&& pages[page + 1].width > 0
    &&& is_portrait(pages[page].width as nat, pages[page].height as nat)
    &&& is_portrait(pages[page + 1].width as nat, pages[page + 1].height as nat)
}

/// The units of the pages from `page` on: the page and its successor where they pair, else the
/// page alone, and then the rest.
pub open spec fn units_from(pages: Seq<PageMapEntry>, cover_blank: bool, page: int) -> Seq<
    AutoDisplayUnit,
>
    decreases pages.len() - page,
{
    if page < 0 || page >= pages.len() {
        Seq::empty()
    } else if pairs_with_next(pages, cover_blank, page) {
        seq![AutoDisplayUnit { first_page: page as u32, second_page: Some((page + 1) as u32) }]
            + units_from(pages, cover_blank, page + 2)
    } else {
        seq![AutoDisplayUnit { first_page: page as u32, second_page: None }] + units_from(
            pages,
            cover_blank,
            page + 1,
        )
    }
}

/// Whether every unit from `page` on starts at a page of known width.
pub open spec fn starts_have_width(
    pages: Seq<PageMapEntry>,
    cover_blank: bool,
    page: int,
) -> bool
    decreases pages.len() - page,
{
    if page < 0 || page >= pages.len() {
        true
    } else {
        &&& pages[page].width > 0
        &&& starts_have_width(
            pages,
            cover_blank,
            if pairs_with_next(pages, cover_blank, page) {
                page + 2
            } else {
                page + 1
            },
        )
    }
}

/// Plans a book. There is no plan if and only if some unit would start at a page without width,
/// or the pages cannot be numbered in 32 bits.
pub fn build_auto_spread_plan(page_map: &BookPageMap, cover_blank: bool) -> (plan: Option<
    AutoSpreadPlan,
>)
    ensures
        plan is Some <==> page_map.pages@.len() <= u32::MAX + 1 && starts_have_width(
            page_map.pages@,
            cover_blank,
            0,
        ),
        plan matches Some(plan) ==> plan.wf() && plan.page_count() == page_map.pages@.len()
            && plan.units@ == units_from(page_map.pages@, cover_blank, 0),
{
    let page_count: usize = page_map.page_count();
    let mut units: Vec<AutoDisplayUnit> = Vec::new();
    let mut page_to_unit: Vec<usize> = Vec::new();
    let ghost pages = page_map.pages@;
    if page_count as u64 > 0x1_0000_0000 {
        return None;
    }
    let mut page: usize = 0;
    while page < page_count
        invariant
            page <= page_count,
            page_count == pages.len(),
            pages == page_map.pages@,
            page_count <= u32::MAX + 1,
            page_to_unit@.len() == page,
            units@ + units_from(pages, cover_blank, page as int) == units_from(
                pages,
                cover_blank,
                0,
            ),
            starts_have_width(pages, cover_blank, 0) == starts_have_width(
                pages,
                cover_blank,
                page as int,
            ),
            (AutoSpreadPlan { units, page_to_unit }).wf(),
        decreases page_count - page,
    {
        let current: &PageMapEntry = &page_map.pages[page];
        let current_is_portrait: bool = match is_portrait_page(current.width, current.height) {
            Some(portrait) => portrait,
            None => {
                return None;
            },
        };
        let unit_index: usize = units.len();
        let first_page: u32 = page as u32;
        let mut can_spread: bool = false;
        if !(cover_blank && page == 0) && page + 1 < page_count {
            let next: &PageMapEntry = &page_map.pages[page + 1];
            match is_portrait_page(next.width, next.height) {
                Some(next_is_portrait) => {
                    can_spread = current_is_portrait && next_is_portrait;
                },
                None => {},
            }
        }
        assert(can_spread == pairs_with_next(pages, cover_blank, page as int));
        let ghost units_before = units@;
        let ghost plan_before = AutoSpreadPlan { units, page_to_unit };
        proof {
            assert(forall|u: int|
                0 <= u < plan_before.units@.len() ==> (#[trigger] plan_before.units@[u]).end()
                    <= page);
        }
        if can_spread {
            units.push(AutoDisplayUnit::new(first_page, Some((page + 1) as u32)));
            page_to_unit.push(unit_index);
            page_to_unit.push(unit_index);
            page = page + 2;
        } else {
            units.push(AutoDisplayUnit::new(first_page, None));
            page_to_unit.push(unit_index);
            page = page + 1;
        }
        assert(units@ + units_from(pages, cover_blank, page as int) =~= units_before
            + units_from(pages, cover_blank, first_page as int));
    }
    assert(units@ + Seq::<AutoDisplayUnit>::empty() =~= units@);
    Some(AutoSpreadPlan { units, page_to_unit })
}

/// A page lies in its own unit, and the unit's anchor lies in the same unit.
pub proof fn law_anchor_is_in_the_unit(plan: AutoSpreadPlan, page: int)
    requires
        plan.wf(),
        0 <= page < plan.page_count(),
    ensures
        plan.unit_of(page).first_page <= page < plan.unit_of(page).end() <= plan.page_count(),
        plan.unit_of(plan.unit_of(page).first_page as int) == plan.unit_of(page),
{
    let unit = plan.unit_of(page);
    assert(unit.covers(page));
    assert(unit.covers(unit.first_page as int));
}

/// Turning a screen forward and then back leads to the screen it started from.
pub proof fn law_next_then_previous(plan: AutoSpreadPlan, page: int)
    requires
        plan.wf(),
        0 <= page < plan.page_count(),
        plan.unit_of(page).end() < plan.page_count(),
    ensures
        ({
            let next = plan.unit_of(page).end();
            &&& plan.unit_of(next).first_page == next
            &&& plan.unit_of(plan.unit_of(next).first_page - 1) == plan.unit_of(page)
        }),
{
    let index = plan.page_to_unit@[page] as int;
    let unit = plan.units@[index];
    assert(unit.covers(page));
    assert(unit.covers(unit.end() - 1));
    if index + 1 < plan.units@.len() {
        let next = plan.units@[index + 1];
        assert(next.covers(next.first_page as int));
    } else {
        assert(plan.units@.last() == unit);
    }
}

/// Turning a screen back and then forward leads to the screen it started from.
pub proof fn law_previous_then_next(plan: AutoSpreadPlan, page: int)
    requires
        plan.wf(),
        0 <= page < plan.page_count(),
        plan.unit_of(page).first_page > 0,
    ensures
        ({
            let previous = plan.unit_of(plan.unit_of(page).first_page - 1);
            previous.end() == plan.unit_of(page).first_page
        }),
{
    let index = plan.page_to_unit@[page] as int;
    let unit = plan.units@[index];
    assert(unit.covers(page));
    assert(index > 0);
    let before = plan.units@[index - 1];
    assert(before.covers(unit.first_page - 1));
}

/// Every page lies in exactly one unit, and the units follow one another without a gap.
pub proof fn law_units_partition_the_pages(plan: AutoSpreadPlan)
    requires
        plan.wf(),
    ensures
        forall|page: int|
            0 <= page < plan.page_count() ==> (#[trigger] plan.unit_of(page)).covers(page),
        forall|page: int, u: int, v: int|
            0 <= u < plan.units@.len() && 0 <= v < plan.units@.len()
                && #[trigger] plan.units@[u].covers(page) && #[trigger] plan.units@[v].covers(page)
                ==> u == v,
{
}

/// A page is upright where its height is at least 1.1 times its width. For sides beyond some
/// millions, where single precision rounds, this holds but for pages within a hundredth of that.
pub proof fn law_upright_pages_are_taller(width: nat, height: nat)
    requires
        width > 0,
    ensures
        width <= 2_796_202 && height <= 2_796_202 ==> (is_portrait(width, height) <==> 10 * height
            >= 11 * width),
        100 * height >= 111 * width ==> is_portrait(width, height),
        100 * height <= 109 * width ==> !is_portrait(width, height),
{
    law_rounding_changes_little(width, 0x100_0000);
    law_rounding_changes_little(height, 0x100_0000);
}

proof fn lemma_units_from(pages: Seq<PageMapEntry>, cover_blank: bool, page: int, u: int)
    requires
        0 <= page <= pages.len() <= u32::MAX + 1,
        0 <= u < units_from(pages, cover_blank, page).len(),
    ensures
        ({
            let unit = units_from(pages, cover_blank, page)[u];
            &&& page <= unit.first_page < pages.len()
            &&& unit.second_page is Some <==> pairs_with_next(
                pages,
                cover_blank,
                unit.first_page as int,
            )
            &&& unit.second_page matches Some(second) ==> second == unit.first_page + 1
        }),
    decreases pages.len() - page,
{
    if page < pages.len() && u > 0 {
        let next = if pairs_with_next(pages, cover_blank, page) {
            page + 2
        } else {
            page + 1
        };
        assert(units_from(pages, cover_blank, page)[u] == units_from(
            pages,
            cover_blank,
            next,
        )[u - 1]);
        lemma_units_from(pages, cover_blank, next, u - 1);
    }
}

/// Two pages share a screen only where they follow each other and both are upright; where a
/// screen starts with an upright page and another follows, they do share it. The cover is alone
/// where a blank page stands opposite.
pub proof fn law_upright_pages_are_paired(pages: Seq<PageMapEntry>, cover_blank: bool, u: int)
    requires
        pages.len() <= u32::MAX + 1,
        0 <= u < units_from(pages, cover_blank, 0).len(),
        forall|i: int|
            0 <= i < pages.len() ==> (#[trigger] pages[i]).width <= 2_796_202 && pages[i].height
                <= 2_796_202,
    ensures
        ({
            let unit = units_from(pages, cover_blank, 0)[u];
            let first = unit.first_page as int;
            &&& unit.second_page matches Some(second) ==> {
                &&& second == first + 1 && second < pages.len()
                &&& pages[first].width > 0 && 10 * pages[first].height >= 11 * pages[first].width
                &&& pages[first + 1].width > 0 && 10 * pages[first + 1].height >= 11 * pages[first
                    + 1].width
                &&& !(cover_blank && first == 0)
            }
            &&& unit.second_page is None && first + 1 < pages.len() && !(cover_blank && first == 0)
                ==> {
                ||| pages[first].width == 0 || pages[first + 1].width == 0
                ||| 10 * pages[first].height < 11 * pages[first].width
                ||| 10 * pages[first + 1].height < 11 * pages[first + 1].width
            }
        }),
{
    lemma_units_from(pages, cover_blank, 0, u);
    let first = units_from(pages, cover_blank, 0)[u].first_page as int;
    assert(pages[first].width <= 2_796_202);
    if pages[first].width > 0 {
        law_upright_pages_are_taller(pages[first].width as nat, pages[first].height as nat);
    }
    if first + 1 < pages.len() {
        assert(pages[first + 1].width <= 2_796_202);
        if pages[first + 1].width > 0 {
            law_upright_pages_are_taller(
                pages[first + 1].width as nat,
                pages[first + 1].height as nat,
            );
        }
    }
}

/// The same of pages of any size: the pages of a pair are taller than they are wide, and pages that
/// are clearly upright are paired.
pub proof fn law_landscape_pages_are_never_paired(
    pages: Seq<PageMapEntry>,
    cover_blank: bool,
    u: int,
)
    requires
        pages.len() <= u32::MAX + 1,
        0 <= u < units_from(pages, cover_blank, 0).len(),
    ensures
        ({
            let unit = units_from(pages, cover_blank, 0)[u];
            let first = unit.first_page as int;
            &&& unit.second_page is Some ==> first + 1 < pages.len() && pages[first].height
                > pages[first].width > 0 && pages[first + 1].height > pages[first + 1].width > 0
            &&& first + 1 < pages.len() && !(cover_blank && first == 0) && pages[first].width > 0
                && pages[first + 1].width > 0 && 100 * pages[first].height >= 111
                * pages[first].width && 100 * pages[first + 1].height >= 111 * pages[first
                + 1].width ==> unit.second_page is Some
        }),
{
    lemma_units_from(pages, cover_blank, 0, u);
    let first = units_from(pages, cover_blank, 0)[u].first_page as int;
    if pages[first].width > 0 {
        law_upright_pages_are_taller(pages[first].width as nat, pages[first].height as nat);
    }
    if first + 1 < pages.len() && pages[first + 1].width > 0 {
        law_upright_pages_are_taller(
            pages[first + 1].width as nat,
            pages[first + 1].height as nat,
        );
    }
}

/// Every page of the book is on a screen of the plan, and the first screen starts with the first
/// page.
pub proof fn law_screens_cover_the_book(pages: Seq<PageMapEntry>, cover_blank: bool, page: int)
    requires
        0 <= page < pages.len() <= u32::MAX + 1,
    ensures
        units_from(pages, cover_blank, 0)[0].first_page == 0,
        exists|u: int|
            0 <= u < units_from(pages, cover_blank, 0).len() && ((#[trigger] units_from(
                pages,
                cover_blank,
                0,
            )[u]).first_page == page || units_from(pages, cover_blank, 0)[u].second_page == Some(
                page as u32,
            )),
{
    let u = lemma_screen_of(pages, cover_blank, 0, page);
    assert(units_from(pages, cover_blank, 0)[u].first_page <= page);
}

proof fn lemma_screen_of(
    pages: Seq<PageMapEntry>,
    cover_blank: bool,
    from: int,
    page: int,
) -> (u: int)
    requires
        0 <= from <= page < pages.len() <= u32::MAX + 1,
    ensures
        0 <= u < units_from(pages, cover_blank, from).len(),
        units_from(pages, cover_blank, from)[u].first_page == page || units_from(
            pages,
            cover_blank,
            from,
        )[u].second_page == Some(page as u32),
        units_from(pages, cover_blank, from)[u].first_page <= page,
    decreases pages.len() - from,
{
    let paired = pairs_with_next(pages, cover_blank, from);
    if page == from || paired && page == from + 1 {
        0
    } else {
        let next = if paired {
            from + 2
        } else {
            from + 1
        };
        let u = lemma_screen_of(pages, cover_blank, next, page);
        assert(units_from(pages, cover_blank, from)[u + 1] == units_from(
            pages,
            cover_blank,
            next,
        )[u]);
        u + 1
    }
}

/// A book of which every page has a width has a plan; one whose first page has none has not.
pub proof fn law_books_with_sizes_are_planned(pages: Seq<PageMapEntry>, cover_blank: bool)
    ensures
        (forall|i: int| 0 <= i < pages.len() ==> (#[trigger] pages[i]).width > 0)
            ==> starts_have_width(pages, cover_blank, 0),
        pages.len() > 0 && pages[0].width == 0 ==> !starts_have_width(pages, cover_blank, 0),
        forall|u: int|
            starts_have_width(pages, cover_blank, 0) && pages.len() <= u32::MAX + 1 && 0 <= u
                < units_from(pages, cover_blank, 0).len() ==> pages[(#[trigger] units_from(
                pages,
                cover_blank,
                0,
            )[u]).first_page as int].width > 0,
{
    if forall|i: int| 0 <= i < pages.len() ==> (#[trigger] pages[i]).width > 0 {
        lemma_all_widths(pages, cover_blank, 0);
    }
    assert forall|u: int|
        starts_have_width(pages, cover_blank, 0) && pages.len() <= u32::MAX + 1 && 0 <= u
            < units_from(pages, cover_blank, 0).len() implies pages[(#[trigger] units_from(
        pages,
        cover_blank,
        0,
    )[u]).first_page as int].width > 0 by {
        lemma_start_widths(pages, cover_blank, 0, u);
    }
}

proof fn lemma_all_widths(pages: Seq<PageMapEntry>, cover_blank: bool, page: int)
    requires
        0 <= page,
        forall|i: int| 0 <= i < pages.len() ==> (#[trigger] pages[i]).width > 0,
    ensures
        starts_have_width(pages, cover_blank, page),
    decreases pages.len() - page,
{
    if page < pages.len() {
        lemma_all_widths(pages, cover_blank, page + 1);
        if page + 1 < pages.len() {
            lemma_all_widths(pages, cover_blank, page + 2);
        }
    }
}

proof fn lemma_start_widths(pages: Seq<PageMapEntry>, cover_blank: bool, page: int, u: int)
    requires
        0 <= page <= pages.len() <= u32::MAX + 1,
        starts_have_width(pages, cover_blank, page),
        0 <= u < units_from(pages, cover_blank, page).len(),
    ensures
        pages[units_from(pages, cover_blank, page)[u].first_page as int].width > 0,
    decreases pages.len() - page,
{
    if u > 0 {
        let next = if pairs_with_next(pages, cover_blank, page) {
            page + 2
        } else {
            page + 1
        };
        assert(units_from(pages, cover_blank, page)[u] == units_from(
            pages,
            cover_blank,
            next,
        )[u - 1]);
        lemma_start_widths(pages, cover_blank, next, u - 1);
    }
}

/// Exactly, and for pages of any size: a screen of two shows two pages that follow each other and
/// are both upright; and a screen of one has no such page behind it to share with, unless it is the
/// cover opposite a blank page.
pub proof fn law_screens_of_two_are_upright(pages: Seq<PageMapEntry>, cover_blank: bool, u: int)
    requires
        pages.len() <= u32::MAX + 1,
        0 <= u < units_from(pages, cover_blank, 0).len(),
    ensures
        ({
            let unit = units_from(pages, cover_blank, 0)[u];
            let first = unit.first_page as int;
            let upright = |page: int|
                pages[page].width > 0 && is_portrait(
                    pages[page].width as nat,
                    pages[page].height as nat,
                );
            unit.second_page == if first + 1 < pages.len() && upright(first) && upright(first + 1)
                && !(cover_blank && first == 0) {
                Some((first + 1) as u32)
            } else {
                None
            }
        }),
{
    lemma_units_from(pages, cover_blank, 0, u);
}

} // verus!
