//! Layout engine: pure arithmetic that turns a screen area and an ordered
//! window list into one rectangle per window.
//!
//! Split ratios are measured in thousandths of the relevant dimension, so
//! the integer division `width * ratio / RATIO_UNIT` is exactly the floor
//! of the real product that the geometry calls for.

use vstd::prelude::*;
use vstd::arithmetic::div_mod::{
    lemma_div_nonincreasing, lemma_multiply_divide_le, lemma_remainder_lower,
};
use vstd::arithmetic::mul::{lemma_mul_inequality, lemma_mul_upper_bound};
use crate::events::Window;

verus! {

/// Denominator of every split ratio: a ratio `r` stands for `r / 1000`
/// of the area width, and is well formed when `r <= 1000`.
pub const RATIO_UNIT: u32 = 1000;

/// A screen region in display coordinates. Produced fresh by every layout
/// computation and never mutated in place.
#[derive(Clone, Copy, PartialEq, Eq, Structural, Debug)]
pub struct Rect {
    pub x: u32,
    pub y: u32,
    pub width: u32,
    pub height: u32,
}

/// An area the layout engine can work inside: both of its far edges stay
/// representable in display coordinates.
pub open spec fn rect_wf(a: Rect) -> bool {
    &&& a.x + a.width <= u32::MAX
    &&& a.y + a.height <= u32::MAX
}

/// Master/stack split: the first `num_masters` windows share a left column
/// of `ratio` thousandths of the width, the rest share the right column.
#[derive(Clone, Copy, PartialEq, Eq, Structural, Debug)]
pub struct TallLayout {
    pub num_masters: usize,
    pub ratio: u32,
    pub ratio_increment: u32,
}

impl TallLayout {
    pub open spec fn wf(self) -> bool {
        &&& self.ratio <= RATIO_UNIT
        &&& self.ratio_increment <= RATIO_UNIT
    }

    pub fn new(num_masters: usize, ratio: u32, ratio_increment: u32) -> (r: TallLayout)
        ensures
            r.num_masters == num_masters,
            r.ratio == ratio,
            r.ratio_increment == ratio_increment,
    {
        TallLayout { num_masters, ratio, ratio_increment }
    }

    pub fn name(&self) -> (r: String)
        ensures
            r@ == "Tall"@,
    {
        "Tall".to_owned()
    }

    pub fn apply(&self, area: Rect, windows: &Vec<Window>) -> (r: Vec<Rect>)
        requires
            self.wf(),
            rect_wf(area),
        ensures
            r@.len() == windows@.len(),
            forall|i: int|
                0 <= i < windows@.len() ==> r@[i] == tall_rect(
                    *self,
                    area,
                    windows@.len() as nat,
                    i as nat,
                ),
    {
        let k = windows.len();
        let mut r: Vec<Rect> = Vec::new();
        let mut i: usize = 0;
        while i < k
            invariant
                i <= k,
                k == windows@.len(),
                self.wf(),
                rect_wf(area),
                r@.len() == i,
                forall|j: int| 0 <= j < i ==> r@[j] == tall_rect(*self, area, k as nat, j as nat),
            decreases k - i,
        {
            let rect = self.rect_for(area, k, i);
            r.push(rect);
            i = i + 1;
        }
        r
    }

    fn rect_for(&self, area: Rect, k: usize, i: usize) -> (r: Rect)
        requires
            self.wf(),
            rect_wf(area),
            i < k,
        ensures
            r == tall_rect(*self, area, k as nat, i as nat),
    {
        let w64 = area.width as u64;
        let h64 = area.height as u64;
        if i < self.num_masters {
            let mcount: u64 = if self.num_masters <= k {
                self.num_masters as u64
            } else {
                k as u64
            };
            let yoff: u64 = h64 / mcount;
            proof {
                lemma_column_step_bound(h64 as int, mcount as int, i as int);
            }
            let width: u32 = if k > self.num_masters {
                proof {
                    lemma_scaled_width_bound(w64 as int, self.ratio as int);
                }
                ((w64 * (self.ratio as u64)) / (RATIO_UNIT as u64)) as u32
            } else {
                area.width
            };
            let y64: u64 = (area.y as u64) + yoff * (i as u64);
            Rect { x: area.x, y: y64 as u32, width, height: yoff as u32 }
        } else {
            let scount: u64 = (k - self.num_masters) as u64;
            let yoff: u64 = h64 / scount;
            proof {
                lemma_column_step_bound(h64 as int, scount as int, i - self.num_masters);
                lemma_scaled_width_bound(w64 as int, self.ratio as int);
                lemma_scaled_width_bound(w64 as int, RATIO_UNIT - self.ratio);
            }
            let mw: u64 = (w64 * (self.ratio as u64)) / (RATIO_UNIT as u64);
            let x64: u64 = (area.x as u64) + mw;
            let width: u64 = (w64 * ((RATIO_UNIT - self.ratio) as u64)) / (RATIO_UNIT as u64);
            let y64: u64 = (area.y as u64) + yoff * ((i - self.num_masters) as u64);
            Rect { x: x64 as u32, y: y64 as u32, width: width as u32, height: yoff as u32 }
        }
    }
}

/// The layout capability: a concrete master/stack split, or a margin
/// decorator wrapping another layout. Any number of decorators may nest.
pub enum Layout {
    Tall(TallLayout),
    Bar(BarLayout),
}

/// Area-inset decorator: shrinks the usable area by a top and a bottom
/// margin, shifts it down by the top margin, then delegates to the
/// wrapped layout unchanged. Transparent for identification purposes.
pub struct BarLayout {
    pub top: u32,
    pub bottom: u32,
    pub layout: Box<Layout>,
}

/// The area a decorator hands to its inner layout.
pub open spec fn bar_area(b: BarLayout, area: Rect) -> Rect {
    Rect {
        x: area.x,
        y: (area.y + b.top) as u32,
        width: area.width,
        height: (area.height - (b.top + b.bottom)) as u32,
    }
}

/// Every split ratio in the tree is well formed.
pub open spec fn layout_wf(l: Layout) -> bool
    decreases l,
{
    match l {
        Layout::Tall(t) => t.wf(),
        Layout::Bar(b) => layout_wf(*b.layout),
    }
}

/// The margins fit inside `area`: every nested decorator leaves positive
/// height for its inner layout. Margins that swallow the whole height are
/// a caller error, not recovered internally.
pub open spec fn layout_fits(l: Layout, area: Rect) -> bool
    decreases l,
{
    match l {
        Layout::Tall(_) => true,
        Layout::Bar(b) => b.top + b.bottom < area.height && layout_fits(
            *b.layout,
            bar_area(b, area),
        ),
    }
}

/// Identifier of the concrete layout at the bottom of the decorator
/// chain.
pub open spec fn layout_name(l: Layout) -> Seq<char>
    decreases l,
{
    match l {
        Layout::Tall(_) => "Tall"@,
        Layout::Bar(b) => layout_name(*b.layout),
    }
}

/// The rectangles a layout assigns to `k` windows inside `area`, in
/// window order.
pub open spec fn layout_apply(l: Layout, area: Rect, k: nat) -> Seq<Rect>
    decreases l,
{
    match l {
        Layout::Tall(t) => Seq::new(k, |i: int| tall_rect(t, area, k, i as nat)),
        Layout::Bar(b) => layout_apply(*b.layout, bar_area(b, area), k),
    }
}

impl Layout {
    pub fn name(&self) -> (r: String)
        ensures
            r@ == layout_name(*self),
        decreases *self,
    {
        match self {
            Layout::Tall(t) => t.name(),
            Layout::Bar(b) => b.name(),
        }
    }

    pub fn apply(&self, area: Rect, windows: &Vec<Window>) -> (r: Vec<Rect>)
        requires
            layout_wf(*self),
            layout_fits(*self, area),
            rect_wf(area),
        ensures
            r@ =~= layout_apply(*self, area, windows@.len() as nat),
            r@.len() == windows@.len(),
        decreases *self,
    {
        match self {
            Layout::Tall(t) => {
                let out = t.apply(area, windows);
                proof {
                    assert(out@ =~= layout_apply(*self, area, windows@.len() as nat));
                }
                out
            },
            Layout::Bar(b) => b.apply(area, windows),
        }
    }
}

impl BarLayout {
    pub fn new(top: u32, bottom: u32, layout: Layout) -> (r: BarLayout)
        ensures
            r.top == top,
            r.bottom == bottom,
            *r.layout == layout,
    {
        BarLayout { top, bottom, layout: Box::new(layout) }
    }

    /// Forwards to the wrapped layout: the decorator is transparent for
    /// identification purposes.
    pub fn name(&self) -> (r: String)
        ensures
            r@ == layout_name(*self.layout),
        decreases *self,
    {
        self.layout.name()
    }

    /// Shrinks the area by the margins, then delegates unchanged: the
    /// result is exactly what the wrapped layout makes of the inset area.
    pub fn apply(&self, area: Rect, windows: &Vec<Window>) -> (r: Vec<Rect>)
        requires
            layout_wf(*self.layout),
            rect_wf(area),
            self.top + self.bottom < area.height,
            layout_fits(*self.layout, bar_area(*self, area)),
        ensures
            r@ =~= layout_apply(*self.layout, bar_area(*self, area), windows@.len() as nat),
            r@.len() == windows@.len(),
        decreases *self,
    {
        let inset = Rect {
            x: area.x,
            y: area.y + self.top,
            width: area.width,
            height: area.height - (self.top + self.bottom),
        };
        self.layout.apply(inset, windows)
    }
}

/// Number of windows in the master group when `k` windows are laid out:
/// the configured master count, or all of them if there are fewer.
pub open spec fn master_count(l: TallLayout, k: nat) -> int {
    if (l.num_masters as int) <= (k as int) {
        l.num_masters as int
    } else {
        k as int
    }
}

/// Width of a master rectangle: the whole area when no stack window
/// exists, else the floor of `ratio` thousandths of the area width.
pub open spec fn spec_master_width(l: TallLayout, area: Rect, k: nat) -> int {
    if (k as int) > (l.num_masters as int) {
        area.width as int * l.ratio as int / (RATIO_UNIT as int)
    } else {
        area.width as int
    }
}

/// The rectangle handed to the window at position `i` of `k` by the
/// master/stack split: masters stack vertically in the left column, the
/// rest stack vertically in the remaining width, and each column divides
/// its height evenly with floor rounding.
pub open spec fn tall_rect(l: TallLayout, area: Rect, k: nat, i: nat) -> Rect
    recommends
        i < k,
{
    if (i as int) < (l.num_masters as int) {
        let yoff = area.height as int / master_count(l, k);
        Rect {
            x: area.x,
            y: (area.y as int + yoff * (i as int)) as u32,
            width: spec_master_width(l, area, k) as u32,
            height: yoff as u32,
        }
    } else {
        let yoff = area.height as int / (k as int - l.num_masters as int);
        Rect {
            x: (area.x as int + area.width as int * l.ratio as int / (RATIO_UNIT as int)) as u32,
            y: (area.y as int + yoff * (i as int - l.num_masters as int)) as u32,
            width: (area.width as int * (RATIO_UNIT - l.ratio) as int / (RATIO_UNIT as int)) as u32,
            height: yoff as u32,
        }
    }
}

/// A tuning message delivered to a workspace-owned layout instance;
/// the tunables it changes persist across `apply` calls.
#[derive(Clone, Copy, PartialEq, Eq, Structural, Debug)]
pub enum LayoutMsg {
    IncreaseRatio,
    DecreaseRatio,
    IncreaseMaster,
    DecreaseMaster,
}

/// The tunables of a master/stack split after one message: the ratio
/// moves by its configured increment, clamped to the unit interval, and
/// the master count moves by one, never below zero.
pub open spec fn tall_after_msg(l: TallLayout, msg: LayoutMsg) -> TallLayout {
    match msg {
        LayoutMsg::IncreaseRatio => TallLayout {
            ratio: if l.ratio + l.ratio_increment <= RATIO_UNIT {
                (l.ratio + l.ratio_increment) as u32
            } else {
                RATIO_UNIT
            },
            ..l
        },
        LayoutMsg::DecreaseRatio => TallLayout {
            ratio: if l.ratio >= l.ratio_increment {
                (l.ratio - l.ratio_increment) as u32
            } else {
                0
            },
            ..l
        },
        LayoutMsg::IncreaseMaster => TallLayout {
            num_masters: if l.num_masters < usize::MAX {
                (l.num_masters + 1) as usize
            } else {
                usize::MAX
            },
            ..l
        },
        LayoutMsg::DecreaseMaster => TallLayout {
            num_masters: if l.num_masters >= 1 {
                (l.num_masters - 1) as usize
            } else {
                0
            },
            ..l
        },
    }
}

/// The layout tree after one message: the concrete layout at the bottom
/// of the decorator chain handles it, decorators forward it unchanged.
pub open spec fn layout_after_msg(l: Layout, msg: LayoutMsg) -> Layout
    decreases l,
{
    match l {
        Layout::Tall(t) => Layout::Tall(tall_after_msg(t, msg)),
        Layout::Bar(b) => Layout::Bar(
            BarLayout {
                top: b.top,
                bottom: b.bottom,
                layout: Box::new(layout_after_msg(*b.layout, msg)),
            },
        ),
    }
}

impl TallLayout {
    pub fn send_msg(self, msg: LayoutMsg) -> (r: TallLayout)
        ensures
            r == tall_after_msg(self, msg),
            self.wf() ==> r.wf(),
    {
        match msg {
            LayoutMsg::IncreaseRatio => {
                let ratio: u32 = if self.ratio <= RATIO_UNIT && self.ratio_increment
                    <= RATIO_UNIT - self.ratio {
                    self.ratio + self.ratio_increment
                } else {
                    RATIO_UNIT
                };
                TallLayout { ratio, ..self }
            },
            LayoutMsg::DecreaseRatio => {
                let ratio: u32 = if self.ratio >= self.ratio_increment {
                    self.ratio - self.ratio_increment
                } else {
                    0
                };
                TallLayout { ratio, ..self }
            },
            LayoutMsg::IncreaseMaster => {
                let num_masters: usize = if self.num_masters < usize::MAX {
                    self.num_masters + 1
                } else {
                    usize::MAX
                };
                TallLayout { num_masters, ..self }
            },
            LayoutMsg::DecreaseMaster => {
                let num_masters: usize = if self.num_masters >= 1 {
                    self.num_masters - 1
                } else {
                    0
                };
                TallLayout { num_masters, ..self }
            },
        }
    }
}

impl Layout {
    pub fn send_msg(self, msg: LayoutMsg) -> (r: Layout)
        ensures
            r == layout_after_msg(self, msg),
            layout_wf(self) ==> layout_wf(r),
        decreases self,
    {
        match self {
            Layout::Tall(t) => Layout::Tall(t.send_msg(msg)),
            Layout::Bar(b) => {
                let inner: Layout = *b.layout;
                Layout::Bar(
                    BarLayout { top: b.top, bottom: b.bottom, layout: Box::new(inner.send_msg(msg)) },
                )
            },
        }
    }
}

/// `inner` lies entirely inside `outer`.
pub open spec fn rect_inside(inner: Rect, outer: Rect) -> bool {
    &&& outer.x <= inner.x
    &&& inner.x + inner.width <= outer.x + outer.width
    &&& outer.y <= inner.y
    &&& inner.y + inner.height <= outer.y + outer.height
}

/// The two rectangles share no unit of area: they are separated along
/// one of the two axes.
pub open spec fn rects_disjoint(a: Rect, b: Rect) -> bool {
    ||| a.x + a.width <= b.x
    ||| b.x + b.width <= a.x
    ||| a.y + a.height <= b.y
    ||| b.y + b.height <= a.y
}

/// The exact coordinates of each rectangle of the split, free of the
/// coordinate-type casts in `tall_rect`: every value lies in range, so
/// the cast coordinates equal the mathematical ones.
proof fn lemma_tall_rect_value(l: TallLayout, area: Rect, k: nat, i: nat)
    requires
        l.wf(),
        rect_wf(area),
        i < k,
    ensures
        ({
            let r = tall_rect(l, area, k, i);
            let w = area.width as int;
            let h = area.height as int;
            if (i as int) < (l.num_masters as int) {
                let m = master_count(l, k);
                &&& r.x == area.x
                &&& r.y as int == area.y + (h / m) * (i as int)
                &&& r.width as int == spec_master_width(l, area, k)
                &&& r.height as int == h / m
            } else {
                let s = k as int - l.num_masters as int;
                &&& r.x as int == area.x + w * (l.ratio as int) / (RATIO_UNIT as int)
                &&& r.y as int == area.y + (h / s) * (i as int - l.num_masters as int)
                &&& r.width as int == w * ((RATIO_UNIT - l.ratio) as int) / (RATIO_UNIT as int)
                &&& r.height as int == h / s
            }
        }),
{
    let w = area.width as int;
    let h = area.height as int;
    lemma_scaled_width_bound(w, l.ratio as int);
    lemma_scaled_width_bound(w, (RATIO_UNIT - l.ratio) as int);
    if (i as int) < (l.num_masters as int) {
        let m = master_count(l, k);
        lemma_column_step_bound(h, m, i as int);
        assert((h / m) * (i as int) >= 0) by (nonlinear_arith)
            requires h / m >= 0 && i >= 0;
    } else {
        let s = k as int - l.num_masters as int;
        lemma_column_step_bound(h, s, i as int - l.num_masters as int);
        assert((h / s) * (i as int - l.num_masters as int) >= 0) by (nonlinear_arith)
            requires h / s >= 0 && i as int - l.num_masters as int >= 0;
    }
}

/// Law: the split hands every window a rectangle that lies inside the
/// given area.
pub proof fn lemma_tall_rect_inside(l: TallLayout, area: Rect, k: nat, i: nat)
    requires
        l.wf(),
        rect_wf(area),
        i < k,
    ensures
        rect_inside(tall_rect(l, area, k, i), area),
{
    let w = area.width as int;
    let h = area.height as int;
    lemma_tall_rect_value(l, area, k, i);
    lemma_scaled_width_bound(w, l.ratio as int);
    lemma_scaled_width_bound(w, (RATIO_UNIT - l.ratio) as int);
    if (i as int) < (l.num_masters as int) {
        lemma_column_step_bound(h, master_count(l, k), i as int);
    } else {
        let s = k as int - l.num_masters as int;
        lemma_column_step_bound(h, s, i as int - l.num_masters as int);
        lemma_split_widths_cover(w, l.ratio as int);
    }
}

/// Law: no two rectangles of one split overlap. Masters and stack
/// windows sit in separate columns; within a column the rows are
/// disjoint in the vertical direction.
pub proof fn lemma_tall_rects_disjoint(l: TallLayout, area: Rect, k: nat, i: nat, j: nat)
    requires
        l.wf(),
        rect_wf(area),
        i < j,
        j < k,
    ensures
        rects_disjoint(tall_rect(l, area, k, i), tall_rect(l, area, k, j)),
{
    let w = area.width as int;
    let h = area.height as int;
    lemma_tall_rect_value(l, area, k, i);
    lemma_tall_rect_value(l, area, k, j);
    if (j as int) < (l.num_masters as int) {
        let yoff = h / master_count(l, k);
        lemma_mul_inequality(i as int + 1, j as int, yoff);
        assert((i as int + 1) * yoff == yoff * (i as int) + yoff) by (nonlinear_arith);
        assert((j as int) * yoff == yoff * (j as int)) by (nonlinear_arith);
    } else if (i as int) >= (l.num_masters as int) {
        let yoff = h / (k as int - l.num_masters as int);
        let ii = i as int - l.num_masters as int;
        let jj = j as int - l.num_masters as int;
        lemma_mul_inequality(ii + 1, jj, yoff);
        assert((ii + 1) * yoff == yoff * ii + yoff) by (nonlinear_arith);
        assert(jj * yoff == yoff * jj) by (nonlinear_arith);
    } else {
        // i is a master, j a stack window: the master column ends exactly
        // where the stack column begins.
        assert((k as int) > (l.num_masters as int));
    }
}

/// The two column widths of a split sum to the area width, up to one
/// unit of floor-rounding slack.
proof fn lemma_split_widths_cover(w: int, r: int)
    requires
        0 <= w <= u32::MAX,
        0 <= r <= RATIO_UNIT,
    ensures
        w * r / (RATIO_UNIT as int) + w * ((RATIO_UNIT as int) - r) / (RATIO_UNIT as int) <= w,
        w * r / (RATIO_UNIT as int) + w * ((RATIO_UNIT as int) - r) / (RATIO_UNIT as int) >= w - 1,
{
    let u = RATIO_UNIT as int;
    let a = w * r;
    let b = w * (u - r);
    assert(a + b == w * u) by (nonlinear_arith)
        requires a == w * r && b == w * (u - r);
    assert(a >= 0 && b >= 0) by (nonlinear_arith)
        requires a == w * r && b == w * (u - r) && 0 <= w && 0 <= r && r <= u;
    vstd::arithmetic::div_mod::lemma_fundamental_div_mod(a, u);
    vstd::arithmetic::div_mod::lemma_fundamental_div_mod(b, u);
    vstd::arithmetic::div_mod::lemma_mod_division_less_than_divisor(a, u);
    vstd::arithmetic::div_mod::lemma_mod_division_less_than_divisor(b, u);
    vstd::arithmetic::div_mod::lemma_mod_bound(a, u);
    vstd::arithmetic::div_mod::lemma_mod_bound(b, u);
    assert(w * u == u * w) by (nonlinear_arith);
    assert(u * (a / u) + u * (b / u) == u * (a / u + b / u)) by (nonlinear_arith);
    assert(u * w - u * (a / u + b / u) == u * (w - (a / u + b / u))) by (nonlinear_arith);
    let d = w - (a / u + b / u);
    assert(u * d == a % u + b % u);
    assert(0 <= u * d < 2 * u);
    assert(0 <= d <= 1) by (nonlinear_arith)
        requires u * d >= 0 && u * d < 2 * u && u == 1000;
}

/// Law: a master/stack split over `k >= 1` windows returns exactly `k`
/// rectangles, each inside the input area, and no two of them overlap.
pub proof fn lemma_tall_apply_partition(l: TallLayout, area: Rect, k: nat)
    requires
        l.wf(),
        rect_wf(area),
        k >= 1,
    ensures
        layout_apply(Layout::Tall(l), area, k).len() == k,
        forall|i: int|
            0 <= i < k ==> rect_inside(
                #[trigger] layout_apply(Layout::Tall(l), area, k)[i],
                area,
            ),
        forall|i: int, j: int|
            0 <= i < j < k ==> rects_disjoint(
                #[trigger] layout_apply(Layout::Tall(l), area, k)[i],
                #[trigger] layout_apply(Layout::Tall(l), area, k)[j],
            ),
{
    let rs = layout_apply(Layout::Tall(l), area, k);
    assert forall|i: int| 0 <= i < k implies rect_inside(#[trigger] rs[i], area) by {
        lemma_tall_rect_inside(l, area, k, i as nat);
    }
    assert forall|i: int, j: int| 0 <= i < j < k implies rects_disjoint(
        #[trigger] rs[i],
        #[trigger] rs[j],
    ) by {
        lemma_tall_rects_disjoint(l, area, k, i as nat, j as nat);
    }
}

/// Law: the rectangles of a split tile the area. Each column is anchored
/// at the top, its rows are contiguous, the stack column starts exactly
/// where the master column ends, at most one unit of width is lost at
/// the seam, and each column's rows reach to within one row count of the
/// bottom: the floor-rounding slack per axis.
pub proof fn lemma_tall_apply_coverage(l: TallLayout, area: Rect, k: nat)
    requires
        l.wf(),
        rect_wf(area),
        k >= 1,
        l.num_masters >= 1,
    ensures
        ({
            let rs = layout_apply(Layout::Tall(l), area, k);
            let m = master_count(l, k);
            let s = k as int - l.num_masters as int;
            &&& rs[0].x == area.x
            &&& rs[0].y == area.y
            &&& forall|i: int|
                0 <= i < m ==> (#[trigger] rs[i]).x == area.x && rs[i].width == rs[0].width
                    && rs[i].height == rs[0].height
            &&& forall|i: int| 0 <= i < m - 1 ==> (#[trigger] rs[i + 1]).y == rs[i].y + rs[i].height
            &&& area.y + area.height - (rs[m - 1].y + rs[m - 1].height) < m
            &&& (k as int) > (l.num_masters as int) ==> {
                let f = l.num_masters as int;
                &&& rs[f].y == area.y
                &&& rs[f].x == rs[0].x + rs[0].width
                &&& forall|i: int|
                    f <= i < k ==> (#[trigger] rs[i]).x == rs[f].x && rs[i].width == rs[f].width
                        && rs[i].height == rs[f].height
                &&& forall|i: int|
                    f <= i < k - 1 ==> (#[trigger] rs[i + 1]).y == rs[i].y + rs[i].height
                &&& area.x + area.width - (rs[f].x + rs[f].width) <= 1
                &&& area.y + area.height - (rs[k - 1].y + rs[k - 1].height) < s
            }
        }),
{
    let rs = layout_apply(Layout::Tall(l), area, k);
    let w = area.width as int;
    let h = area.height as int;
    let m = master_count(l, k);
    let yoff = h / m;
    assert forall|i: int| 0 <= i < k implies rs[i] == tall_rect(l, area, k, i as nat) by {}
    assert forall|i: int| 0 <= i < m implies (#[trigger] rs[i]).x == area.x && rs[i].width
        == rs[0].width && rs[i].height == rs[0].height by {
        lemma_tall_rect_value(l, area, k, i as nat);
        lemma_tall_rect_value(l, area, k, 0);
    }
    assert forall|i: int| 0 <= i < m - 1 implies (#[trigger] rs[i + 1]).y == rs[i].y
        + rs[i].height by {
        lemma_tall_rect_value(l, area, k, i as nat);
        lemma_tall_rect_value(l, area, k, (i + 1) as nat);
        assert(yoff * (i + 1) == yoff * i + yoff) by (nonlinear_arith);
    }
    lemma_tall_rect_value(l, area, k, 0);
    lemma_tall_rect_value(l, area, k, (m - 1) as nat);
    vstd::arithmetic::div_mod::lemma_remainder(h, m);
    assert(yoff * (m - 1) + yoff == yoff * m) by (nonlinear_arith);
    assert(h / m * m == yoff * m);
    if (k as int) > (l.num_masters as int) {
        let f = l.num_masters as int;
        let s = k as int - f;
        let syoff = h / s;
        lemma_tall_rect_value(l, area, k, f as nat);
        lemma_tall_rect_value(l, area, k, (k - 1) as nat);
        lemma_split_widths_cover(w, l.ratio as int);
        assert forall|i: int| f <= i < k implies (#[trigger] rs[i]).x == rs[f].x && rs[i].width
            == rs[f].width && rs[i].height == rs[f].height by {
            lemma_tall_rect_value(l, area, k, i as nat);
        }
        assert forall|i: int| f <= i < k - 1 implies (#[trigger] rs[i + 1]).y == rs[i].y
            + rs[i].height by {
            lemma_tall_rect_value(l, area, k, i as nat);
            lemma_tall_rect_value(l, area, k, (i + 1) as nat);
            assert(syoff * (i + 1 - f) == syoff * (i - f) + syoff) by (nonlinear_arith);
        }
        vstd::arithmetic::div_mod::lemma_remainder(h, s);
        assert(syoff * (k - 1 - f) + syoff == syoff * s) by (nonlinear_arith)
            requires s == k - f;
        assert(h / s * s == syoff * s);
    }
}

/// Law: the guarantees of the split survive any nesting of decorators:
/// a well-formed, fitting layout tree hands every one of its `k` windows
/// a rectangle inside the given area, and no two of them overlap.
pub proof fn lemma_layout_apply_partition(l: Layout, area: Rect, k: nat)
    requires
        layout_wf(l),
        layout_fits(l, area),
        rect_wf(area),
    ensures
        layout_apply(l, area, k).len() == k,
        forall|i: int|
            0 <= i < k ==> rect_inside(#[trigger] layout_apply(l, area, k)[i], area),
        forall|i: int, j: int|
            0 <= i < j < k ==> rects_disjoint(
                #[trigger] layout_apply(l, area, k)[i],
                #[trigger] layout_apply(l, area, k)[j],
            ),
    decreases l,
{
    let rs = layout_apply(l, area, k);
    match l {
        Layout::Tall(t) => {
            assert forall|i: int| 0 <= i < k implies rect_inside(#[trigger] rs[i], area) by {
                lemma_tall_rect_inside(t, area, k, i as nat);
            }
            assert forall|i: int, j: int| 0 <= i < j < k implies rects_disjoint(
                #[trigger] rs[i],
                #[trigger] rs[j],
            ) by {
                lemma_tall_rects_disjoint(t, area, k, i as nat, j as nat);
            }
        },
        Layout::Bar(b) => {
            let inset = bar_area(b, area);
            lemma_layout_apply_partition(*b.layout, inset, k);
            assert(rect_inside(inset, area));
            assert forall|i: int| 0 <= i < k implies rect_inside(#[trigger] rs[i], area) by {
                assert(rect_inside(rs[i], inset));
            }
        },
    }
}

/// Law: when at least as many masters are configured as there are
/// windows, every rectangle spans the full area width.
pub proof fn lemma_tall_all_masters_full_width(l: TallLayout, area: Rect, k: nat)
    requires
        l.wf(),
        rect_wf(area),
        k >= 1,
        (k as int) <= (l.num_masters as int),
    ensures
        forall|i: int|
            0 <= i < k ==> (#[trigger] layout_apply(Layout::Tall(l), area, k)[i]).x == area.x
                && layout_apply(Layout::Tall(l), area, k)[i].width == area.width,
{
    let rs = layout_apply(Layout::Tall(l), area, k);
    assert forall|i: int| 0 <= i < k implies (#[trigger] rs[i]).x == area.x && rs[i].width
        == area.width by {
        lemma_tall_rect_value(l, area, k, i as nat);
    }
}

/// Law: a margin decorator is transparent: what it makes of an area is
/// exactly what the wrapped layout makes of the area shifted down by the
/// top margin and shrunk by both margins.
pub proof fn lemma_bar_transparent(b: BarLayout, area: Rect, k: nat)
    requires
        b.top + b.bottom < area.height,
    ensures
        layout_apply(Layout::Bar(b), area, k) == layout_apply(
            *b.layout,
            Rect {
                x: area.x,
                y: (area.y + b.top) as u32,
                width: area.width,
                height: (area.height - (b.top + b.bottom)) as u32,
            },
            k,
        ),
{
}

/// Stacking `count` rows of height `h / count` stays inside a column of
/// height `h`: row `i` starts at `h / count * i` and the rows together
/// reach no further than `h`.
proof fn lemma_column_step_bound(h: int, count: int, i: int)
    requires
        0 <= h,
        0 <= i,
        i < count,
    ensures
        h / count >= 0,
        h / count * i + h / count <= h,
        h / count <= h,
{
    lemma_remainder_lower(h, count);
    lemma_mul_inequality(i + 1, count, h / count);
    lemma_div_nonincreasing(h, count);
    assert((i + 1) * (h / count) == h / count * i + h / count) by (nonlinear_arith);
    assert(count * (h / count) == h / count * count) by (nonlinear_arith);
}

/// Taking `r` thousandths of a width `w` with floor rounding never
/// exceeds `w`, and the product fits well below `u64::MAX`.
proof fn lemma_scaled_width_bound(w: int, r: int)
    requires
        0 <= w <= u32::MAX,
        0 <= r <= RATIO_UNIT,
    ensures
        w * r / (RATIO_UNIT as int) <= w,
        w * r <= u32::MAX * (RATIO_UNIT as int),
        w * r >= 0,
{
    lemma_mul_upper_bound(w, u32::MAX as int, r, RATIO_UNIT as int);
    lemma_mul_inequality(r, RATIO_UNIT as int, w);
    assert(r * w == w * r) by (nonlinear_arith);
    assert((RATIO_UNIT as int) * w == w * (RATIO_UNIT as int)) by (nonlinear_arith);
    lemma_multiply_divide_le(w * r, RATIO_UNIT as int, w);
    assert(w * r >= 0) by (nonlinear_arith)
        requires 0 <= w && 0 <= r;
}

} // verus!
