//! From a tree of splits to rectangles on the screen.

use vstd::arithmetic::power2::{lemma_pow2_pos, lemma_pow2_unfold, pow2};
use vstd::prelude::*;

use crate::model::{shows, Direction, Layout, PaneId};

verus! {

/// A rectangle of cells.
#[derive(Debug, Clone, Copy, PartialEq, Eq, Structural)]
pub struct Rect {
    pub x: u16,
    pub y: u16,
    pub width: u16,
    pub height: u16,
}

impl Rect {
    /// Whether the far edges can be told.
    pub open spec fn well_formed(&self) -> bool {
        self.x + self.width <= u16::MAX && self.y + self.height <= u16::MAX
    }

    /// Whether the cell at `col`, `row` lies inside.
    pub open spec fn holds(&self, col: int, row: int) -> bool {
        self.x <= col < self.x + self.width && self.y <= row < self.y + self.height
    }

    /// Whether `outer` covers it.
    pub open spec fn inside(&self, outer: Rect) -> bool {
        &&& outer.x <= self.x
        &&& self.x + self.width <= outer.x + outer.width
        &&& outer.y <= self.y
        &&& self.y + self.height <= outer.y + outer.height
    }

    /// The rectangle at `x`, `y`, cut so that its far edges can be told.
    pub open spec fn at(x: u16, y: u16, width: int, height: int) -> Rect {
        Rect {
            x,
            y,
            width: if x + width <= u16::MAX {
                width as u16
            } else {
                (u16::MAX - x) as u16
            },
            height: if y + height <= u16::MAX {
                height as u16
            } else {
                (u16::MAX - y) as u16
            },
        }
    }

    /// The rectangle at `x`, `y`, cut so that its far edges can be told.
    pub fn new(x: u16, y: u16, width: u16, height: u16) -> (r: Rect)
        ensures
            r == Rect::at(x, y, width as int, height as int),
            r.well_formed(),
    {
        let w: u16 = if width <= u16::MAX - x {
            width
        } else {
            u16::MAX - x
        };
        let h: u16 = if height <= u16::MAX - y {
            height
        } else {
            u16::MAX - y
        };
        Rect { x, y, width: w, height: h }
    }

    /// The column past the right edge.
    pub fn right(&self) -> (r: u16)
        requires
            self.well_formed(),
        ensures
            r == self.x + self.width,
    {
        self.x + self.width
    }

    /// The row past the bottom edge.
    pub fn bottom(&self) -> (r: u16)
        requires
            self.well_formed(),
        ensures
            r == self.y + self.height,
    {
        self.y + self.height
    }

    /// Whether the cell at `col`, `row` lies inside.
    pub fn contains(&self, col: u16, row: u16) -> (r: bool)
        ensures
            r == self.holds(col as int, row as int),
    {
        col >= self.x && col - self.x < self.width && row >= self.y && row - self.y < self.height
    }
}

// ---- the share of a split ------------------------------------------------

/// By how many binary digits `p` is longer than the 24 that a single holds.
pub open spec fn excess(p: nat) -> nat
    decreases p,
{
    if p < 0x100_0000 {
        0
    } else {
        1 + excess(p / 2)
    }
}

/// `p` divided by `unit` to the nearest whole number, ties to the even one.
pub open spec fn nearest(p: nat, unit: nat) -> nat {
    let q = p / unit;
    let r = p % unit;
    if 2 * r > unit || (2 * r == unit && q % 2 == 1) {
        q + 1
    } else {
        q
    }
}

/// `p` as the nearest value that a single can hold.
pub open spec fn as_single(p: nat) -> nat {
    nearest(p, pow2(excess(p))) * pow2(excess(p))
}

/// The exponent of a single.
pub open spec fn exponent_of(bits: u32) -> nat {
    ((bits / 0x80_0000) % 0x100) as nat
}

/// The digits of a single past the leading one.
pub open spec fn fraction_of(bits: u32) -> nat {
    (bits % 0x80_0000) as nat
}

/// How much of `extent` the first child of a split gets: `extent` times the
/// ratio, kept within 0 and 1, as single-precision arithmetic multiplies, to
/// the nearest whole number with halves rounded up. `ratio` is the bit pattern
/// of a single; what is no number counts as 0.
pub open spec fn share(extent: u16, ratio: u32) -> u16 {
    let e = exponent_of(ratio);
    if e == 255 && fraction_of(ratio) != 0 {
        0
    } else if ratio >= 0x8000_0000 {
        0
    } else if e >= 127 {
        extent
    } else if e < 104 {
        0
    } else {
        let digits = extent as nat * (0x80_0000 + fraction_of(ratio));
        let scale = pow2((150 - e) as nat);
        let rounded = (2 * as_single(digits) + scale) / (2 * scale);
        if rounded <= extent {
            rounded as u16
        } else {
            extent
        }
    }
}

fn power_of_two(n: u32) -> (r: u64)
    requires
        n <= 50,
    ensures
        r == pow2(n as nat),
        0 < r <= 0x4_0000_0000_0000,
{
    let mut r: u64 = 1;
    proof {
        vstd::arithmetic::power2::lemma2_to64();
        vstd::arithmetic::power2::lemma2_to64_rest();
    }
    for i in 0..n
        invariant
            n <= 50,
            r == pow2(i as nat),
            r <= 0x4_0000_0000_0000,
            i < n ==> r <= 0x2_0000_0000_0000,
            pow2(50) == 0x4_0000_0000_0000,
            pow2(49) == 0x2_0000_0000_0000,
    {
        proof {
            lemma_pow2_unfold((i + 1) as nat);
            if i + 1 < 49 {
                vstd::arithmetic::power2::lemma_pow2_strictly_increases((i + 1) as nat, 49);
            }
        }
        r = r * 2;
    }
    proof {
        lemma_pow2_pos(n as nat);
    }
    r
}

proof fn excess_limit(p: nat, k: nat)
    requires
        p < 0x100_0000 * pow2(k),
    ensures
        excess(p) <= k,
    decreases k,
{
    vstd::arithmetic::power2::lemma2_to64();
    if p >= 0x100_0000 {
        lemma_pow2_unfold(k);
        excess_limit(p / 2, (k - 1) as nat);
    }
}

fn excess_digits(p: u64) -> (r: u32)
    requires
        p < 0x100_0000_0000,
    ensures
        r == excess(p as nat),
        r <= 16,
{
    let mut q: u64 = p;
    let mut n: u32 = 0;
    proof {
        vstd::arithmetic::power2::lemma2_to64();
        excess_limit(p as nat, 16);
    }
    while q >= 0x100_0000
        invariant
            excess(p as nat) == n + excess(q as nat),
            excess(p as nat) <= 16,
        decreases q,
    {
        q = q / 2;
        n = n + 1;
    }
    n
}

fn to_single(p: u64) -> (r: u64)
    requires
        p < 0x100_0000_0000,
    ensures
        r == as_single(p as nat),
        r <= 0x200_0000_0000,
{
    let unit: u64 = power_of_two(excess_digits(p));
    let q: u64 = p / unit;
    let rest: u64 = p % unit;
    assert(q * unit <= p) by (nonlinear_arith)
        requires
            q == p / unit,
            unit > 0,
    ;
    proof {
        excess_bounds(p as nat);
    }
    let up: bool = 2 * rest > unit || (2 * rest == unit && q % 2 == 1);
    assert((q + 1) * unit == q * unit + unit) by (nonlinear_arith);
    if up {
        (q + 1) * unit
    } else {
        q * unit
    }
}

proof fn excess_bounds(p: nat)
    ensures
        pow2(excess(p)) <= p + 1,
    decreases p,
{
    if p >= 0x100_0000 {
        lemma_pow2_unfold(excess(p));
        excess_bounds(p / 2);
        assert(excess(p) == 1 + excess(p / 2));
        assert(pow2(excess(p)) == 2 * pow2(excess(p / 2)));
        assert(pow2(excess(p / 2)) <= p / 2 + 1);
        excess_is_small(p / 2);
        assert(pow2(excess(p / 2)) <= p / 2);
    } else {
        vstd::arithmetic::power2::lemma2_to64();
    }
}

proof fn excess_is_small(p: nat)
    requires
        p >= 1,
    ensures
        pow2(excess(p)) <= p,
    decreases p,
{
    vstd::arithmetic::power2::lemma2_to64();
    if p >= 0x100_0000 {
        excess_is_small(p / 2);
        lemma_pow2_unfold(excess(p));
    }
}

/// How much of `extent` the first child of a split gets.
fn first_share(extent: u16, ratio: u32) -> (r: u16)
    ensures
        r == share(extent, ratio),
        r <= extent,
{
    let e: u32 = (ratio / 0x80_0000) % 0x100;
    let fraction: u32 = ratio % 0x80_0000;
    if (e == 255 && fraction != 0) || ratio >= 0x8000_0000 {
        0
    } else if e >= 127 {
        extent
    } else if e < 104 {
        0
    } else {
        assert(extent * (0x80_0000 + fraction) < 0x100_0000_0000) by (nonlinear_arith)
            requires
                fraction < 0x80_0000,
                extent <= 0xffff,
        ;
        let digits: u64 = extent as u64 * (0x80_0000 + fraction as u64);
        let scale: u64 = power_of_two(150 - e);
        let rounded: u64 = (2 * to_single(digits) + scale) / (2 * scale);
        if rounded <= extent as u64 {
            rounded as u16
        } else {
            extent
        }
    }
}

// ---- splitting -----------------------------------------------------------

/// The two parts of `area`: side by side for a horizontal split, one above the
/// other for a vertical one.
pub open spec fn halves(area: Rect, direction: Direction, ratio: u32) -> (Rect, Rect) {
    match direction {
        Direction::Horizontal => {
            let w = share(area.width, ratio);
            (
                Rect { width: w, ..area },
                Rect { x: (area.x + w) as u16, width: (area.width - w) as u16, ..area },
            )
        },
        Direction::Vertical => {
            let h = share(area.height, ratio);
            (
                Rect { height: h, ..area },
                Rect { y: (area.y + h) as u16, height: (area.height - h) as u16, ..area },
            )
        },
    }
}

/// The rectangles of a tree's panes inside `area`, in the tree's order.
pub open spec fn rects_of(layout: Layout, area: Rect) -> Seq<(PaneId, Rect)>
    decreases layout,
{
    match layout {
        Layout::Leaf(id) => seq![(id, area)],
        Layout::Split { direction, ratio, first, second } => {
            let (a, b) = halves(area, direction, ratio);
            rects_of(*first, a) + rects_of(*second, b)
        },
    }
}

/// The rectangles on the screen: a zoomed pane of the tree alone fills `area`.
pub open spec fn shown_rects(layout: Layout, area: Rect, zoom: Option<PaneId>) -> Seq<
    (PaneId, Rect),
> {
    match zoom {
        Some(pane) if shows(layout, pane) => seq![(pane, area)],
        _ => rects_of(layout, area),
    }
}

fn split_area(area: Rect, direction: Direction, ratio: u32) -> (r: (Rect, Rect))
    requires
        area.well_formed(),
    ensures
        r == halves(area, direction, ratio),
        r.0.well_formed(),
        r.1.well_formed(),
{
    match direction {
        Direction::Horizontal => {
            let w: u16 = first_share(area.width, ratio);
            (
                Rect::new(area.x, area.y, w, area.height),
                Rect::new(area.x + w, area.y, area.width - w, area.height),
            )
        },
        Direction::Vertical => {
            let h: u16 = first_share(area.height, ratio);
            (
                Rect::new(area.x, area.y, area.width, h),
                Rect::new(area.x, area.y + h, area.width, area.height - h),
            )
        },
    }
}

fn split_into(layout: &Layout, area: Rect, out: &mut Vec<(PaneId, Rect)>)
    requires
        area.well_formed(),
    ensures
        final(out)@ == old(out)@ + rects_of(*layout, area),
    decreases layout,
{
    match layout {
        Layout::Leaf(id) => {
            out.push((*id, area));
        },
        Layout::Split { direction, ratio, first, second } => {
            let (a, b) = split_area(area, *direction, *ratio);
            split_into(first, a, out);
            split_into(second, b, out);
        },
    }
}

/// The rectangle of every pane of `layout` inside `area`, in layout order. A
/// zoomed pane of the tree fills `area`, and the others are left out.
pub fn pane_rects(layout: &Layout, area: Rect, zoom: Option<PaneId>) -> (r: Vec<(PaneId, Rect)>)
    requires
        area.well_formed(),
    ensures
        r@ == shown_rects(*layout, area, zoom),
        forall|i: int| 0 <= i < r@.len() ==> (#[trigger] r@[i]).1.inside(area),
{
    proof {
        panes_lie_inside(*layout, area);
    }
    match zoom {
        Some(pane) => if layout.contains(pane) {
            return vec![(pane, area)];
        },
        None => {},
    }
    let mut out: Vec<(PaneId, Rect)> = Vec::new();
    split_into(layout, area, &mut out);
    out
}

// ---- laws ----------------------------------------------------------------

/// How many of `rects` hold the cell at `col`, `row`.
pub open spec fn holders(rects: Seq<(PaneId, Rect)>, col: int, row: int) -> nat
    decreases rects.len(),
{
    if rects.len() == 0 {
        0
    } else {
        holders(rects.drop_last(), col, row) + (if rects.last().1.holds(col, row) {
            1nat
        } else {
            0nat
        })
    }
}

proof fn holders_together(a: Seq<(PaneId, Rect)>, b: Seq<(PaneId, Rect)>, col: int, row: int)
    ensures
        holders(a + b, col, row) == holders(a, col, row) + holders(b, col, row),
    decreases b.len(),
{
    if b.len() == 0 {
        assert(a + b =~= a);
    } else {
        assert((a + b).drop_last() =~= a + b.drop_last());
        holders_together(a, b.drop_last(), col, row);
    }
}

/// A share is never more than the whole.
pub proof fn share_is_a_part(extent: u16, ratio: u32)
    ensures
        share(extent, ratio) <= extent,
{
    let e = exponent_of(ratio);
    if 104 <= e < 127 {
        let digits = extent as nat * (0x80_0000 + fraction_of(ratio));
        let scale = pow2((150 - e) as nat);
        lemma_pow2_pos((150 - e) as nat);
        vstd::arithmetic::div_mod::lemma_div_pos_is_pos(
            (2 * as_single(digits) + scale) as int,
            (2 * scale) as int,
        );
    }
}

/// The panes tile the area: every cell of it belongs to exactly one pane, and
/// no cell outside of it to any.
pub proof fn panes_tile_the_area(layout: Layout, area: Rect, col: int, row: int)
    requires
        area.well_formed(),
    ensures
        holders(rects_of(layout, area), col, row) == (if area.holds(col, row) {
            1nat
        } else {
            0nat
        }),
    decreases layout,
{
    match layout {
        Layout::Leaf(id) => {
            let one = rects_of(layout, area);
            assert(one.drop_last() =~= Seq::empty());
            assert(holders(one.drop_last(), col, row) == 0);
        },
        Layout::Split { direction, ratio, first, second } => {
            let (a, b) = halves(area, direction, ratio);
            share_is_a_part(area.width, ratio);
            share_is_a_part(area.height, ratio);
            panes_tile_the_area(*first, a, col, row);
            panes_tile_the_area(*second, b, col, row);
            holders_together(rects_of(*first, a), rects_of(*second, b), col, row);
        },
    }
}

/// Every pane lies inside the area.
pub proof fn panes_lie_inside(layout: Layout, area: Rect)
    requires
        area.well_formed(),
    ensures
        forall|i: int|
            0 <= i < rects_of(layout, area).len() ==> (#[trigger] rects_of(
                layout,
                area,
            )[i]).1.inside(area),
    decreases layout,
{
    match layout {
        Layout::Leaf(id) => {},
        Layout::Split { direction, ratio, first, second } => {
            let (a, b) = halves(area, direction, ratio);
            share_is_a_part(area.width, ratio);
            share_is_a_part(area.height, ratio);
            panes_lie_inside(*first, a);
            panes_lie_inside(*second, b);
            let left = rects_of(*first, a);
            let right = rects_of(*second, b);
            assert forall|i: int| 0 <= i < rects_of(layout, area).len() implies (
            #[trigger] rects_of(layout, area)[i]).1.inside(area) by {
                if i < left.len() {
                    assert(left[i].1.inside(a));
                } else {
                    assert(right[i - left.len()].1.inside(b));
                }
            }
        },
    }
}

/// A ratio of one half splits an extent in two equal parts, the odd cell going
/// to the first child.
pub proof fn one_half_splits_evenly(extent: u16)
    ensures
        share(extent, 0x3f00_0000) == (extent + 1) / 2,
{
    vstd::arithmetic::power2::lemma2_to64();
    let digits = extent as nat * 0x80_0000;
    assert(exponent_of(0x3f00_0000) == 126);
    assert(fraction_of(0x3f00_0000) == 0);
    scaled_digits_are_exact(extent);
    assert(as_single(digits) == digits);
    assert((2 * digits + 0x100_0000) / 0x200_0000 == (extent as nat + 1) / 2) by (nonlinear_arith)
        requires
            digits == extent as nat * 0x80_0000,
    ;
}

proof fn scaled_digits_are_exact(extent: u16)
    ensures
        as_single(extent as nat * 0x80_0000) == extent as nat * 0x80_0000,
{
    let p = extent as nat * 0x80_0000;
    if extent > 0 {
        excess_of_scaled(extent as nat, 23);
        let unit = pow2(excess(p));
        lemma_pow2_pos(excess(p));
        vstd::arithmetic::power2::lemma2_to64();
        let j = (23 - excess(p)) as nat;
        vstd::arithmetic::power2::lemma_pow2_adds(j, excess(p));
        assert(p == (extent as nat * pow2(j)) * unit) by (nonlinear_arith)
            requires
                p == extent as nat * 0x80_0000,
                pow2(j) * unit == 0x80_0000,
        ;
        let q = extent as nat * pow2(j);
        vstd::arithmetic::div_mod::lemma_mod_multiples_basic(q as int, unit as int);
        vstd::arithmetic::div_mod::lemma_div_multiples_vanish(q as int, unit as int);
        assert(p == q * unit);
        assert(p % unit == 0);
        assert(p / unit == q) by {
            vstd::arithmetic::div_mod::lemma_div_by_multiple(q as int, unit as int);
        }
    } else {
        vstd::arithmetic::power2::lemma2_to64();
        assert(p == 0) by (nonlinear_arith)
            requires
                p == extent as nat * 0x80_0000,
                extent == 0,
        ;
    }
}

proof fn excess_of_scaled(w: nat, k: nat)
    requires
        0 < w < 0x1_0000,
        k <= 23,
    ensures
        excess(w * pow2(k)) <= k,
    decreases k,
{
    vstd::arithmetic::power2::lemma2_to64();
    if k == 0 {
        assert(w * pow2(0) == w) by (nonlinear_arith)
            requires
                pow2(0) == 1,
        ;
    } else {
        excess_of_scaled(w, (k - 1) as nat);
        lemma_pow2_unfold(k);
        let p = w * pow2(k);
        let h = w * pow2((k - 1) as nat);
        assert(p == 2 * h) by (nonlinear_arith)
            requires
                p == w * pow2(k),
                h == w * pow2((k - 1) as nat),
                pow2(k) == 2 * pow2((k - 1) as nat),
        ;
        assert(p / 2 == h);
    }
}

/// A split goes its way: a horizontal one puts its first child on the left and its
/// second on the right, both as high as the whole; a vertical one puts the first
/// above the second, both as wide as the whole. Together they fill it.
pub proof fn splits_go_their_way(
    direction: Direction,
    ratio: u32,
    first: Box<Layout>,
    second: Box<Layout>,
    area: Rect,
)
    requires
        area.well_formed(),
    ensures
        exists|a: Rect, b: Rect|
            {
                &&& rects_of(Layout::Split { direction, ratio, first, second }, area)
                    == #[trigger] rects_of(*first, a) + #[trigger] rects_of(*second, b)
                &&& a.x == area.x && a.y == area.y
                &&& direction == Direction::Horizontal ==> {
                    &&& a.height == area.height && b.height == area.height && b.y == area.y
                    &&& a.x + a.width == b.x && b.x + b.width == area.x + area.width
                }
                &&& direction == Direction::Vertical ==> {
                    &&& a.width == area.width && b.width == area.width && b.x == area.x
                    &&& a.y + a.height == b.y && b.y + b.height == area.y + area.height
                }
            },
{
    share_is_a_part(area.width, ratio);
    share_is_a_part(area.height, ratio);
    let (a, b) = halves(area, direction, ratio);
    assert(rects_of(Layout::Split { direction, ratio, first, second }, area) == rects_of(*first, a)
        + rects_of(*second, b));
}

/// A ratio of one gives the first child everything, one of nothing or less gives it
/// nothing, and what is no number counts as nothing.
pub proof fn extreme_ratios_give_all_or_nothing(extent: u16, ratio: u32)
    ensures
        share(extent, 0x3f80_0000) == extent,
        share(extent, 0) == 0,
        0x3f80_0000 <= ratio <= 0x7f80_0000 ==> share(extent, ratio) == extent,
        ratio >= 0x8000_0000 ==> share(extent, ratio) == 0,
        0x7f80_0000 < ratio < 0x8000_0000 ==> share(extent, ratio) == 0,
{
    assert(exponent_of(0x3f80_0000) == 127);
    assert(exponent_of(0) == 0);
    if 0x3f80_0000 <= ratio < 0x7f80_0000 {
        assert(127 <= (ratio / 0x80_0000) < 255);
    }
    if ratio == 0x7f80_0000 {
        assert(fraction_of(ratio) == 0);
    }
    if 0x7f80_0000 < ratio < 0x8000_0000 {
        assert((ratio / 0x80_0000) == 255);
        assert(ratio % 0x80_0000 != 0);
    }
}

} // verus!
