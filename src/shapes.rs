//! The shapes that show a countdown's progress, as the points to plot.
//!
//! Each shape turns a completion fraction into an ordered list of points:
//! integer cells for the zigzag, and ring and angle steps for the arc and
//! the spiral, which the renderer places on circles.
use vstd::prelude::*;
use crate::ratio::{Ratio, scale, scale_floor, lemma_scale_bounds, lemma_scale_monotone};
use ratatui::style::Color;
use crate::random::random_below;

verus! {

/// Relies on ratatui's `style::Color` as an opaque value: shapes carry their
/// colours through to the renderer and never read them.
#[verifier::external_type_specification]
#[verifier::external_body]
pub struct ExColor(Color);

/// The terminal glyph density that a shape renders best with.
#[derive(Clone, Copy, Debug, PartialEq, Eq, Structural)]
pub enum Marker {
    Dot,
    HalfBlock,
}

/// Points to plot in one colour.
pub struct Stroke<P> {
    pub color: Color,
    pub points: Vec<P>,
}

/// A cell of the canvas.
#[derive(Clone, Copy, Debug, PartialEq, Eq, Structural)]
pub struct Cell {
    pub x: u64,
    pub y: u64,
}

/// A square filled by diagonal strokes that turn back and forth.
#[derive(Clone, Copy, Debug)]
pub struct ZigZag {
    /// Left edge of the square.
    pub x: u64,
    /// Bottom edge of the square.
    pub y: u64,
    /// Side of the square.
    pub size: u64,
    /// Width of a band of strokes.
    pub gap: u64,
    pub fill_perc: Ratio,
    pub color: Color,
    pub bgcolor: Option<Color>,
}

/// A step of the zigzag's walk: a cell relative to the square's corner, and
/// its weight against the fill budget.
pub type Step = (int, int, int);

/// The walk's bands that start on the left or bottom edge: band `k` runs
/// along the diagonal at distance `k * gap`, then steps along the edge.
pub open spec fn lead_band(gap: int, k: int) -> Seq<Step> {
    let d = k * gap;
    let up = k % 2 == 1;
    Seq::new(d as nat, |dx: int| if up { (d - dx, dx, gap) } else { (dx, d - dx, gap) }) + Seq::new(
        (gap - 1) as nat,
        |i: int| if up { (0, d + i + 1, 1) } else { (d + i + 1, 0, 1) },
    )
}

pub open spec fn lead_bands(gap: int, k: int) -> Seq<Step>
    decreases k,
{
    if k <= 0 {
        Seq::empty()
    } else {
        lead_bands(gap, k - 1) + lead_band(gap, k - 1)
    }
}

/// The walk's bands that end on the right or top edge.
pub open spec fn trail_band(size: int, gap: int, nb: int, k: int) -> Seq<Step> {
    let d = k * gap;
    let up = (nb + k) % 2 == 1;
    Seq::new(
        (size - d) as nat,
        |i: int| if up { (size - i, d + i, gap) } else { (d + i, size - i, gap) },
    ) + Seq::new(
        (gap - 1) as nat,
        |i: int| if up { (d + i + 1, size, gap) } else { (size, d + i + 1, gap) },
    )
}

pub open spec fn trail_bands(size: int, gap: int, nb: int, k: int) -> Seq<Step>
    decreases k,
{
    if k <= 0 {
        Seq::empty()
    } else {
        trail_bands(size, gap, nb, k - 1) + trail_band(size, gap, nb, k - 1)
    }
}

/// The number of bands of each kind: the multiples of `gap` below `size`.
pub open spec fn band_count(size: int, gap: int) -> int {
    if size <= 0 {
        0
    } else {
        (size - 1) / gap + 1
    }
}

/// The whole walk over a square of side `size`.
pub open spec fn zigzag_path(size: int, gap: int) -> Seq<Step> {
    let nb = band_count(size, gap);
    lead_bands(gap, nb) + trail_bands(size, gap, nb, nb)
}

/// The longest start of `s` whose weights add up to at most `limit`.
pub open spec fn budget_prefix(s: Seq<Step>, limit: int) -> Seq<Step>
    decreases s.len(),
{
    if s.len() == 0 || s[0].2 > limit {
        Seq::empty()
    } else {
        seq![s[0]] + budget_prefix(s.drop_first(), limit - s[0].2)
    }
}

/// The sum of the weights of `s`.
pub open spec fn weight(s: Seq<Step>) -> int
    decreases s.len(),
{
    if s.len() == 0 {
        0
    } else {
        s[0].2 + weight(s.drop_first())
    }
}

/// The cells of `s` moved by `(x0, y0)`.
pub open spec fn placed(s: Seq<Step>, x0: int, y0: int) -> Seq<Cell> {
    s.map_values(|e: Step| Cell { x: (e.0 + x0) as u64, y: (e.1 + y0) as u64 })
}

/// The fill budget of a fraction: that fraction of `(size + gap)²`.
pub open spec fn fill_limit(size: int, gap: int, fill: Ratio) -> nat {
    scale(fill, ((size + gap) * (size + gap)) as nat)
}

/// The steps of a walk as integers.
pub open spec fn widen(s: Seq<(u64, u64, u64)>) -> Seq<Step> {
    s.map_values(|e: (u64, u64, u64)| (e.0 as int, e.1 as int, e.2 as int))
}

pub open spec fn step_in_range(e: (u64, u64, u64), size: int, gap: int) -> bool {
    e.0 <= size + gap && e.1 <= size + gap && 1 <= e.2 <= gap
}

proof fn lemma_band_start(size: int, gap: int, k: int)
    requires
        0 < gap,
        0 <= k < band_count(size, gap),
    ensures
        k * gap < size,
{
    let q = (size - 1) / gap;
    vstd::arithmetic::div_mod::lemma_fundamental_div_mod(size - 1, gap);
    vstd::arithmetic::div_mod::lemma_mod_pos_bound(size - 1, gap);
    vstd::arithmetic::mul::lemma_mul_inequality(k, q, gap);
    assert(q * gap == gap * q) by (nonlinear_arith);
}

/// Appends lead band `k`, which starts at `d == k * gap`.
fn push_lead_band(path: &mut Vec<(u64, u64, u64)>, size: u64, gap: u64, k: u64, d: u64)
    requires
        0 < gap,
        size + gap <= u64::MAX,
        d == k * gap,
        d < size,
        forall|j: int| 0 <= j < old(path)@.len() ==> step_in_range(#[trigger] old(path)@[j], size as int, gap as int),
    ensures
        widen(final(path)@) == widen(old(path)@) + lead_band(gap as int, k as int),
        forall|j: int| 0 <= j < final(path)@.len() ==> step_in_range(#[trigger] final(path)@[j], size as int, gap as int),
{
    let up = k % 2 == 1;
    let ghost base = widen(path@);
    let ghost band = lead_band(gap as int, k as int);
    let mut dx: u64 = 0;
    assert(band.take(0) =~= Seq::<Step>::empty());
    assert(base + band.take(0) =~= base);
    while dx < d
        invariant
            0 <= dx <= d < size,
            size + gap <= u64::MAX,
            d == k * gap,
            up == (k % 2 == 1),
            band == lead_band(gap as int, k as int),
            widen(path@) == base + band.take(dx as int),
            forall|j: int| 0 <= j < path@.len() ==> step_in_range(#[trigger] path@[j], size as int, gap as int),
        decreases d - dx,
    {
        let e = if up { (d - dx, dx, gap) } else { (dx, d - dx, gap) };
        let ghost before = path@;
        path.push(e);
        assert(band[dx as int] == (e.0 as int, e.1 as int, e.2 as int));
        assert(widen(path@) =~= widen(before).push(band[dx as int]));
        assert(band.take(dx + 1) =~= band.take(dx as int).push(band[dx as int]));
        assert(path@[path@.len() - 1] == e);
        dx = dx + 1;
    }
    let mut g: u64 = 1;
    while g < gap
        invariant
            1 <= g <= gap,
            d < size,
            size + gap <= u64::MAX,
            d == k * gap,
            up == (k % 2 == 1),
            band == lead_band(gap as int, k as int),
            band.len() == d + gap - 1,
            widen(path@) == base + band.take(d + g - 1),
            forall|j: int| 0 <= j < path@.len() ==> step_in_range(#[trigger] path@[j], size as int, gap as int),
        decreases gap - g,
    {
        let e = if up { (0, d + g, 1) } else { (d + g, 0, 1) };
        let ghost before = path@;
        path.push(e);
        assert(band[d + g - 1] == (e.0 as int, e.1 as int, e.2 as int));
        assert(widen(path@) =~= widen(before).push(band[d + g - 1]));
        assert(band.take(d + g) =~= band.take(d + g - 1).push(band[d + g - 1]));
        assert(path@[path@.len() - 1] == e);
        g = g + 1;
    }
    assert(band.take(d + gap - 1) =~= band);
}

/// Appends trail band `k`, which starts at `d == k * gap`.
fn push_trail_band(
    path: &mut Vec<(u64, u64, u64)>,
    size: u64,
    gap: u64,
    nb: u64,
    k: u64,
    d: u64,
)
    requires
        0 < gap,
        size + gap <= u64::MAX,
        d == k * gap,
        d < size,
        forall|j: int| 0 <= j < old(path)@.len() ==> step_in_range(#[trigger] old(path)@[j], size as int, gap as int),
    ensures
        widen(final(path)@) == widen(old(path)@) + trail_band(size as int, gap as int, nb as int, k as int),
        forall|j: int| 0 <= j < final(path)@.len() ==> step_in_range(#[trigger] final(path)@[j], size as int, gap as int),
{
    let up = (nb % 2 == 1) != (k % 2 == 1);
    assert(up == ((nb + k) % 2 == 1));
    let ghost base = widen(path@);
    let ghost band = trail_band(size as int, gap as int, nb as int, k as int);
    let mut i: u64 = 0;
    assert(base + band.take(0) =~= base);
    while i < size - d
        invariant
            0 <= i <= size - d,
            0 < gap,
            d < size,
            size + gap <= u64::MAX,
            d == k * gap,
            up == ((nb + k) % 2 == 1),
            band == trail_band(size as int, gap as int, nb as int, k as int),
            widen(path@) == base + band.take(i as int),
            forall|j: int| 0 <= j < path@.len() ==> step_in_range(#[trigger] path@[j], size as int, gap as int),
        decreases size - d - i,
    {
        let e = if up { (size - i, d + i, gap) } else { (d + i, size - i, gap) };
        let ghost before = path@;
        path.push(e);
        assert(band[i as int] == (e.0 as int, e.1 as int, e.2 as int));
        assert(widen(path@) =~= widen(before).push(band[i as int]));
        assert(band.take(i + 1) =~= band.take(i as int).push(band[i as int]));
        assert(path@[path@.len() - 1] == e);
        i = i + 1;
    }
    let mut g: u64 = 1;
    let run = size - d;
    while g < gap
        invariant
            1 <= g <= gap,
            d < size,
            run == size - d,
            size + gap <= u64::MAX,
            d == k * gap,
            up == ((nb + k) % 2 == 1),
            band == trail_band(size as int, gap as int, nb as int, k as int),
            band.len() == run + gap - 1,
            widen(path@) == base + band.take(run + g - 1),
            forall|j: int| 0 <= j < path@.len() ==> step_in_range(#[trigger] path@[j], size as int, gap as int),
        decreases gap - g,
    {
        let e = if up { (d + g, size, gap) } else { (size, d + g, gap) };
        let ghost before = path@;
        path.push(e);
        assert(band[run + g - 1] == (e.0 as int, e.1 as int, e.2 as int));
        assert(widen(path@) =~= widen(before).push(band[run + g - 1]));
        assert(band.take(run + g) =~= band.take(run + g - 1).push(band[run + g - 1]));
        assert(path@[path@.len() - 1] == e);
        g = g + 1;
    }
    assert(band.take(run + gap - 1) =~= band);
}

/// The whole walk over a square of side `size`.
fn walk(size: u64, gap: u64) -> (r: Vec<(u64, u64, u64)>)
    requires
        0 < gap,
        size + gap <= u64::MAX,
    ensures
        widen(r@) == zigzag_path(size as int, gap as int),
        forall|j: int| 0 <= j < r@.len() ==> step_in_range(#[trigger] r@[j], size as int, gap as int),
{
    let nb: u64 = if size == 0 { 0 } else { (size - 1) / gap + 1 };
    let mut path: Vec<(u64, u64, u64)> = Vec::new();
    let mut k: u64 = 0;
    let mut d: u64 = 0;
    assert(widen(path@) =~= lead_bands(gap as int, 0));
    while k < nb
        invariant
            0 < gap,
            size + gap <= u64::MAX,
            nb == band_count(size as int, gap as int),
            k <= nb,
            d == k * gap,
            widen(path@) == lead_bands(gap as int, k as int),
            forall|j: int| 0 <= j < path@.len() ==> step_in_range(#[trigger] path@[j], size as int, gap as int),
        decreases nb - k,
    {
        proof {
            lemma_band_start(size as int, gap as int, k as int);
        }
        push_lead_band(&mut path, size, gap, k, d);
        assert((k + 1) * gap == k * gap + gap) by (nonlinear_arith);
        k = k + 1;
        d = d + gap;
    }
    let ghost lead = widen(path@);
    k = 0;
    d = 0;
    assert(lead + trail_bands(size as int, gap as int, nb as int, 0) =~= lead);
    while k < nb
        invariant
            0 < gap,
            size + gap <= u64::MAX,
            nb == band_count(size as int, gap as int),
            k <= nb,
            d == k * gap,
            lead == lead_bands(gap as int, nb as int),
            widen(path@) == lead + trail_bands(size as int, gap as int, nb as int, k as int),
            forall|j: int| 0 <= j < path@.len() ==> step_in_range(#[trigger] path@[j], size as int, gap as int),
        decreases nb - k,
    {
        proof {
            lemma_band_start(size as int, gap as int, k as int);
        }
        push_trail_band(&mut path, size, gap, nb, k, d);
        assert((k + 1) * gap == k * gap + gap) by (nonlinear_arith);
        assert(lead + trail_bands(size as int, gap as int, nb as int, k + 1) =~= lead
            + trail_bands(size as int, gap as int, nb as int, k as int) + trail_band(
            size as int,
            gap as int,
            nb as int,
            k as int,
        ));
        k = k + 1;
        d = d + gap;
    }
    path
}

impl ZigZag {
    pub open spec fn wf(&self) -> bool {
        &&& 0 < self.gap <= u32::MAX
        &&& self.x + self.size <= u32::MAX
        &&& self.y + self.size <= u32::MAX
        &&& self.fill_perc.wf()
    }

    /// The cells that `drawfill` plots for `fill`, in order.
    pub open spec fn fill_cells(&self, fill: Ratio) -> Seq<Cell> {
        placed(
            budget_prefix(
                zigzag_path(self.size as int, self.gap as int),
                fill_limit(self.size as int, self.gap as int, fill) as int,
            ),
            self.x as int,
            self.y as int,
        )
    }

    pub fn new(gap: usize, color: Color) -> (r: ZigZag)
        requires
            0 < gap <= u32::MAX,
        ensures
            r.wf(),
            r.x == 0 && r.y == 0 && r.size == 0,
            r.gap == gap,
            r.fill_perc == Ratio::zero_spec(),
            r.color == color,
            r.bgcolor is None,
    {
        ZigZag { x: 0, y: 0, size: 0, gap: gap as u64, fill_perc: Ratio::zero(), color, bgcolor: None }
    }

    pub fn get_marker() -> (r: Marker)
        ensures
            r == Marker::HalfBlock,
    {
        Marker::HalfBlock
    }

    pub fn with_gbcolor(self, bg: Color) -> (r: ZigZag)
        ensures
            r == (ZigZag { bgcolor: Some(bg), ..self }),
    {
        ZigZag { bgcolor: Some(bg), ..self }
    }

    /// The largest square centred in a `width` by `height` canvas.
    pub fn center(self, width: u32, height: u32, fill_perc: Ratio) -> (r: ZigZag)
        requires
            self.wf(),
            fill_perc.wf(),
        ensures
            r.wf(),
            r.size == if width <= height { width } else { height },
            r.x == (width - r.size) / 2,
            r.y == (height - r.size) / 2,
            r.gap == self.gap,
            r.fill_perc == fill_perc,
            r.color == self.color,
            r.bgcolor == self.bgcolor,
    {
        let size = if width <= height { width } else { height };
        let x = (width - size) / 2;
        let y = (height - size) / 2;
        ZigZag {
            x: x as u64,
            y: y as u64,
            size: size as u64,
            gap: self.gap,
            fill_perc,
            color: self.color,
            bgcolor: self.bgcolor,
        }
    }

    /// The first cells of the walk, in order, whose weights add up to at
    /// most `fill` of `(size + gap)²`.
    pub fn drawfill(&self, fill: Ratio) -> (r: Vec<Cell>)
        requires
            self.wf(),
            fill.wf(),
        ensures
            r@ == self.fill_cells(fill),
    {
        let path = walk(self.size, self.gap);
        let ghost p = widen(path@);
        let side = (self.size + self.gap) as u128;
        assert(self.x + self.size + self.gap <= u64::MAX);
        assert(side * side <= 0xffff_ffff_ffff_ffffu128 * 0xffff_ffff_ffff_ffffu128) by (
        nonlinear_arith)
            requires
                side <= 0xffff_ffff_ffff_ffffu128,
        ;
        let limit = scale_floor(fill, side * side);
        let mut left: u128 = limit;
        let mut cells: Vec<Cell> = Vec::new();
        let mut i: usize = 0;
        assert(p.skip(0) =~= p);
        assert(p.take(0) + budget_prefix(p, limit as int) =~= budget_prefix(p, limit as int));
        assert(placed(p.take(0), self.x as int, self.y as int) =~= cells@);
        while i < path.len()
            invariant
                self.wf(),
                p == widen(path@),
                p.len() == path@.len(),
                forall|j: int| 0 <= j < path@.len() ==> step_in_range(#[trigger] path@[j], self.size as int, self.gap as int),
                i <= path.len(),
                budget_prefix(p, limit as int) == p.take(i as int) + budget_prefix(p.skip(i as int), left as int),
                cells@ == placed(p.take(i as int), self.x as int, self.y as int),
            ensures
                budget_prefix(p, limit as int) == p.take(i as int),
                cells@ == placed(p.take(i as int), self.x as int, self.y as int),
            decreases path.len() - i,
        {
            let (cx, cy, w) = path[i];
            assert(step_in_range(path@[i as int], self.size as int, self.gap as int));
            assert(p.skip(i as int)[0] == p[i as int]);
            if w as u128 > left {
                assert(budget_prefix(p.skip(i as int), left as int) =~= Seq::<Step>::empty());
                assert(p.take(i as int) + Seq::<Step>::empty() =~= p.take(i as int));
                break;
            }
            let cell = Cell { x: cx + self.x, y: cy + self.y };
            let ghost before = cells@;
            cells.push(cell);
            proof {
                let rest = p.skip(i as int);
                assert(rest.drop_first() =~= p.skip(i + 1));
                assert(p.take(i + 1) =~= p.take(i as int).push(p[i as int]));
                assert(p.take(i as int) + (seq![p[i as int]] + budget_prefix(p.skip(i + 1), left - w))
                    =~= p.take(i + 1) + budget_prefix(p.skip(i + 1), left - w));
                assert(placed(p.take(i + 1), self.x as int, self.y as int) =~= before.push(cell));
            }
            left = left - w as u128;
            i = i + 1;
        }
        proof {
            if i == path.len() {
                assert(p.skip(i as int) =~= Seq::<Step>::empty());
                assert(p.take(i as int) + Seq::<Step>::empty() =~= p.take(i as int));
            }
        }
        cells
    }

    /// The background, where there is one, then the fill.
    pub fn draw(&self) -> (r: Vec<Stroke<Cell>>)
        requires
            self.wf(),
        ensures
            r@.len() == if self.bgcolor is Some { 2nat } else { 1nat },
            self.bgcolor is Some ==> r@[0].color == self.bgcolor->0 && r@[0].points@
                == self.fill_cells(Ratio::one()),
            r@.last().color == self.color,
            r@.last().points@ == self.fill_cells(self.fill_perc),
    {
        let mut strokes: Vec<Stroke<Cell>> = Vec::new();
        if let Some(c) = self.bgcolor {
            strokes.push(Stroke { color: c, points: self.drawfill(Ratio::one()) });
        }
        strokes.push(Stroke { color: self.color, points: self.drawfill(self.fill_perc) });
        strokes
    }
}

/// A step of an arc: ring `ring` lies `ring` units inside the outer
/// circle, and `angle` is in degrees.
#[derive(Clone, Copy, Debug, PartialEq, Eq, Structural)]
pub struct ArcPoint {
    pub ring: usize,
    pub angle: u32,
}

/// Concentric circular arcs swept from angle zero.
///
/// The bounding box is `width` by `height`; the arcs are centred in it, and
/// the outer one has half the smaller side as radius.
#[derive(Clone, Copy, Debug)]
pub struct Arc {
    pub width: u32,
    pub height: u32,
    /// The number of rings.
    pub thickness: usize,
    pub arc_perc: Ratio,
    pub color: Color,
    pub bgcolor: Option<Color>,
}

/// The first `degrees` steps of ring `t`.
pub open spec fn ring_points(t: int, degrees: int) -> Seq<ArcPoint> {
    Seq::new(degrees as nat, |a: int| ArcPoint { ring: t as usize, angle: a as u32 })
}

/// The first `degrees` steps of each of the rings below `rings`, ring by ring.
pub open spec fn arc_points(rings: int, degrees: int) -> Seq<ArcPoint>
    decreases rings,
{
    if rings <= 0 {
        Seq::empty()
    } else {
        arc_points(rings - 1, degrees) + ring_points(rings - 1, degrees)
    }
}

/// The whole degrees that a fraction of a turn covers.
pub open spec fn arc_degrees(fill: Ratio) -> nat {
    scale(fill, 360)
}

impl Arc {
    pub open spec fn wf(&self) -> bool {
        self.arc_perc.wf()
    }

    /// The steps that the arc plots for `fill`, in order.
    pub open spec fn fill_points(&self, fill: Ratio) -> Seq<ArcPoint> {
        arc_points(self.thickness as int, arc_degrees(fill) as int)
    }

    pub fn new(thickness: usize, color: Color) -> (r: Arc)
        ensures
            r.wf(),
            r.width == 0 && r.height == 0,
            r.thickness == thickness,
            r.arc_perc == Ratio::zero_spec(),
            r.color == color,
            r.bgcolor is None,
    {
        Arc { width: 0, height: 0, thickness, arc_perc: Ratio::zero(), color, bgcolor: None }
    }

    pub fn with_bgcolor(self, bg: Color) -> (r: Arc)
        ensures
            r == (Arc { bgcolor: Some(bg), ..self }),
    {
        Arc { bgcolor: Some(bg), ..self }
    }

    pub fn get_marker() -> (r: Marker)
        ensures
            r == Marker::Dot,
    {
        Marker::Dot
    }

    /// The arc centred in a `width` by `height` canvas, swept to `arc_perc`.
    pub fn center(self, width: u32, height: u32, arc_perc: Ratio) -> (r: Arc)
        requires
            arc_perc.wf(),
        ensures
            r.wf(),
            r == (Arc { width, height, arc_perc, ..self }),
    {
        Arc { width, height, arc_perc, ..self }
    }

    /// The first `degrees` steps of every ring, ring by ring.
    fn sweep(&self, degrees: u32) -> (r: Vec<ArcPoint>)
        ensures
            r@ == arc_points(self.thickness as int, degrees as int),
    {
        let mut points: Vec<ArcPoint> = Vec::new();
        let mut t: usize = 0;
        assert(points@ =~= arc_points(0, degrees as int));
        while t < self.thickness
            invariant
                t <= self.thickness,
                points@ == arc_points(t as int, degrees as int),
            decreases self.thickness - t,
        {
            let ghost base = points@;
            let ghost ring = ring_points(t as int, degrees as int);
            let mut a: u32 = 0;
            assert(base + ring.take(0) =~= base);
            while a < degrees
                invariant
                    a <= degrees,
                    ring == ring_points(t as int, degrees as int),
                    points@ == base + ring.take(a as int),
                decreases degrees - a,
            {
                let ghost before = points@;
                points.push(ArcPoint { ring: t, angle: a });
                assert(ring.take(a + 1) =~= ring.take(a as int).push(ring[a as int]));
                a = a + 1;
            }
            assert(ring.take(degrees as int) =~= ring);
            t = t + 1;
        }
        points
    }

    /// The steps of the whole degrees that `fill` of a turn covers.
    pub fn drawfill(&self, fill: Ratio) -> (r: Vec<ArcPoint>)
        requires
            fill.wf(),
        ensures
            r@ == self.fill_points(fill),
    {
        let degrees = scale_floor(fill, 360);
        self.sweep(degrees as u32)
    }

    /// The background rings, where there are some, then the arc.
    pub fn draw(&self) -> (r: Vec<Stroke<ArcPoint>>)
        requires
            self.wf(),
        ensures
            r@.len() == if self.bgcolor is Some { 2nat } else { 1nat },
            self.bgcolor is Some ==> r@[0].color == self.bgcolor->0 && r@[0].points@
                == self.fill_points(Ratio::one()),
            r@.last().color == self.color,
            r@.last().points@ == self.fill_points(self.arc_perc),
    {
        let mut strokes: Vec<Stroke<ArcPoint>> = Vec::new();
        if let Some(c) = self.bgcolor {
            strokes.push(Stroke { color: c, points: self.drawfill(Ratio::one()) });
        }
        strokes.push(Stroke { color: self.color, points: self.drawfill(self.arc_perc) });
        strokes
    }
}

/// An Archimedean spiral `r(θ) = θ - R`, drawn from its outer end `θ = 0`
/// (radius `R`) towards its centre.
///
/// The bounding box is `width` by `height`; the spiral is centred in it, and
/// `R` is half the smaller side.
#[derive(Clone, Copy, Debug)]
pub struct Spiral {
    pub width: u32,
    pub height: u32,
    pub completion_perc: Ratio,
    pub color: Color,
    pub bgcolor: Option<Color>,
}

/// The degrees of a spiral drawn to `fill`: the spiral meets its centre at
/// `θ = R` radians, which is `90 · side / π` degrees for `side == 2R`, with
/// `π` taken as `355 / 113`.
pub open spec fn spiral_steps(side: int, fill: Ratio) -> nat {
    scale(fill, (10170 * side) as nat) / 355
}

/// The angles `0, 1, ..., n - 1` in degrees.
pub open spec fn angles(n: int) -> Seq<u64> {
    Seq::new(n as nat, |a: int| a as u64)
}

impl Spiral {
    pub open spec fn wf(&self) -> bool {
        self.completion_perc.wf()
    }

    pub open spec fn side(&self) -> int {
        if self.width <= self.height {
            self.width as int
        } else {
            self.height as int
        }
    }

    /// The angles that the spiral plots for `fill`, in order.
    pub open spec fn fill_angles(&self, fill: Ratio) -> Seq<u64> {
        angles(spiral_steps(self.side(), fill) as int)
    }

    pub fn new(color: Color) -> (r: Spiral)
        ensures
            r.wf(),
            r.width == 0 && r.height == 0,
            r.completion_perc == Ratio::zero_spec(),
            r.color == color,
            r.bgcolor is None,
    {
        Spiral { width: 0, height: 0, completion_perc: Ratio::zero(), color, bgcolor: None }
    }

    /// The spiral centred in a `width` by `height` canvas, drawn to `arc_perc`.
    pub fn center(self, width: u32, height: u32, arc_perc: Ratio) -> (r: Spiral)
        requires
            arc_perc.wf(),
        ensures
            r.wf(),
            r == (Spiral { width, height, completion_perc: arc_perc, ..self }),
    {
        Spiral { width, height, completion_perc: arc_perc, ..self }
    }

    pub fn with_gbcolor(self, bg: Color) -> (r: Spiral)
        ensures
            r == (Spiral { bgcolor: Some(bg), ..self }),
    {
        Spiral { bgcolor: Some(bg), ..self }
    }

    pub fn get_marker() -> (r: Marker)
        ensures
            r == Marker::HalfBlock,
    {
        Marker::HalfBlock
    }

    /// The angles in degrees, from the outer end inwards, that `fill` of
    /// the spiral covers.
    pub fn drawfill(&self, fill: Ratio) -> (r: Vec<u64>)
        requires
            fill.wf(),
        ensures
            r@ == self.fill_angles(fill),
    {
        let side: u32 = if self.width <= self.height { self.width } else { self.height };
        let scaled = scale_floor(fill, 10170 * side as u128);
        let n = (scaled / 355) as u64;
        let mut out: Vec<u64> = Vec::new();
        let mut a: u64 = 0;
        assert(out@ =~= angles(0));
        while a < n
            invariant
                a <= n,
                out@ == angles(a as int),
            decreases n - a,
        {
            out.push(a);
            assert(angles(a + 1) =~= angles(a as int).push(a));
            a = a + 1;
        }
        out
    }

    /// The background spiral, where there is one, then the drawn part.
    pub fn draw(&self) -> (r: Vec<Stroke<u64>>)
        requires
            self.wf(),
        ensures
            r@.len() == if self.bgcolor is Some { 2nat } else { 1nat },
            self.bgcolor is Some ==> r@[0].color == self.bgcolor->0 && r@[0].points@
                == self.fill_angles(Ratio::one()),
            r@.last().color == self.color,
            r@.last().points@ == self.fill_angles(self.completion_perc),
    {
        let mut strokes: Vec<Stroke<u64>> = Vec::new();
        if let Some(c) = self.bgcolor {
            strokes.push(Stroke { color: c, points: self.drawfill(Ratio::one()) });
        }
        strokes.push(Stroke { color: self.color, points: self.drawfill(self.completion_perc) });
        strokes
    }
}

/// The shape that a session animates.
#[derive(Clone, Copy, Debug)]
pub enum ShapeSelect {
    ArcSelect(Arc),
    SpiralSelect(Spiral),
    ZigZagSelect(ZigZag),
}

/// The rings of the arc shape.
pub const ARC_THICKNESS: usize = 8;

/// The band width of the zigzag shape.
pub const ZIGZAG_GAP: usize = 5;

impl ShapeSelect {
    pub open spec fn wf(&self) -> bool {
        match self {
            ShapeSelect::ArcSelect(a) => a.wf(),
            ShapeSelect::SpiralSelect(s) => s.wf(),
            ShapeSelect::ZigZagSelect(z) => z.wf(),
        }
    }

    /// The shape that `select_from` gives for `select`.
    pub open spec fn selected(select: u32, c: Color) -> ShapeSelect {
        if select == 0 {
            ShapeSelect::ArcSelect(
                Arc {
                    width: 0,
                    height: 0,
                    thickness: ARC_THICKNESS,
                    arc_perc: Ratio::zero_spec(),
                    color: c,
                    bgcolor: None,
                },
            )
        } else if select == 2 {
            ShapeSelect::ZigZagSelect(
                ZigZag {
                    x: 0,
                    y: 0,
                    size: 0,
                    gap: ZIGZAG_GAP as u64,
                    fill_perc: Ratio::zero_spec(),
                    color: c,
                    bgcolor: None,
                },
            )
        } else {
            ShapeSelect::SpiralSelect(
                Spiral {
                    width: 0,
                    height: 0,
                    completion_perc: Ratio::zero_spec(),
                    color: c,
                    bgcolor: None,
                },
            )
        }
    }

    /// The same shape with background colour `bg`.
    pub open spec fn with_bg(self, bg: Color) -> ShapeSelect {
        match self {
            ShapeSelect::ArcSelect(s) => ShapeSelect::ArcSelect(Arc { bgcolor: Some(bg), ..s }),
            ShapeSelect::SpiralSelect(s) => ShapeSelect::SpiralSelect(
                Spiral { bgcolor: Some(bg), ..s },
            ),
            ShapeSelect::ZigZagSelect(s) => ShapeSelect::ZigZagSelect(
                ZigZag { bgcolor: Some(bg), ..s },
            ),
        }
    }

    /// The same shape centred in a `width` by `height` canvas and drawn to
    /// `fill`; the zigzag takes the largest square that fits.
    pub open spec fn centered(self, width: u32, height: u32, fill: Ratio) -> ShapeSelect {
        match self {
            ShapeSelect::ArcSelect(a) => ShapeSelect::ArcSelect(
                Arc { width, height, arc_perc: fill, ..a },
            ),
            ShapeSelect::SpiralSelect(s) => ShapeSelect::SpiralSelect(
                Spiral { width, height, completion_perc: fill, ..s },
            ),
            ShapeSelect::ZigZagSelect(z) => ShapeSelect::ZigZagSelect(
                ZigZag {
                    x: ((width - min_side(width, height)) / 2) as u64,
                    y: ((height - min_side(width, height)) / 2) as u64,
                    size: min_side(width, height) as u64,
                    fill_perc: fill,
                    ..z
                },
            ),
        }
    }

    /// The arc for 0, the spiral for 1, the zigzag for 2, and the spiral for
    /// any other number.
    pub fn select_from(select: u32, c: Color) -> (r: ShapeSelect)
        ensures
            r.wf(),
            r == ShapeSelect::selected(select, c),
    {
        if select == 0 {
            ShapeSelect::ArcSelect(Arc::new(ARC_THICKNESS, c))
        } else if select == 1 {
            ShapeSelect::SpiralSelect(Spiral::new(c))
        } else if select == 2 {
            ShapeSelect::ZigZagSelect(ZigZag::new(ZIGZAG_GAP, c))
        } else {
            ShapeSelect::SpiralSelect(Spiral::new(c))
        }
    }

    /// One of the three shapes, drawn at random.
    pub fn select_random(c: Color) -> (r: ShapeSelect)
        ensures
            r.wf(),
            exists|select: u32| select < 3 && r == ShapeSelect::selected(select, c),
    {
        let select = random_below(3) as u32;
        ShapeSelect::select_from(select, c)
    }

    pub fn get_marker(&self) -> (r: Marker)
        ensures
            r == (match self {
                ShapeSelect::ArcSelect(_) => Marker::Dot,
                _ => Marker::HalfBlock,
            }),
    {
        match self {
            ShapeSelect::ArcSelect(_) => Arc::get_marker(),
            ShapeSelect::SpiralSelect(_) => Spiral::get_marker(),
            ShapeSelect::ZigZagSelect(_) => ZigZag::get_marker(),
        }
    }

    pub fn with_bgcolor(self, bg: Color) -> (r: ShapeSelect)
        ensures
            r == self.with_bg(bg),
    {
        match self {
            ShapeSelect::ArcSelect(s) => ShapeSelect::ArcSelect(s.with_bgcolor(bg)),
            ShapeSelect::SpiralSelect(s) => ShapeSelect::SpiralSelect(s.with_gbcolor(bg)),
            ShapeSelect::ZigZagSelect(s) => ShapeSelect::ZigZagSelect(s.with_gbcolor(bg)),
        }
    }

    /// The same shape centred in a `width` by `height` canvas and drawn to
    /// `fill`.
    pub fn center(&self, width: u32, height: u32, fill: Ratio) -> (r: ShapeSelect)
        requires
            self.wf(),
            fill.wf(),
        ensures
            r.wf(),
            r == self.centered(width, height, fill),
    {
        match *self {
            ShapeSelect::ArcSelect(a) => ShapeSelect::ArcSelect(a.center(width, height, fill)),
            ShapeSelect::SpiralSelect(s) => ShapeSelect::SpiralSelect(s.center(width, height, fill)),
            ShapeSelect::ZigZagSelect(z) => ShapeSelect::ZigZagSelect(z.center(width, height, fill)),
        }
    }
}

/// The smaller side of a canvas.
pub open spec fn min_side(width: u32, height: u32) -> int {
    if width <= height {
        width as int
    } else {
        height as int
    }
}

/// A smaller budget takes a start of what a larger one takes.
pub proof fn lemma_budget_prefix_monotone(s: Seq<Step>, l1: int, l2: int)
    requires
        l1 <= l2,
    ensures
        budget_prefix(s, l1).is_prefix_of(budget_prefix(s, l2)),
    decreases s.len(),
{
    if s.len() > 0 && s[0].2 <= l1 {
        lemma_budget_prefix_monotone(s.drop_first(), l1 - s[0].2, l2 - s[0].2);
        let a = budget_prefix(s.drop_first(), l1 - s[0].2);
        let b = budget_prefix(s.drop_first(), l2 - s[0].2);
        assert forall|j: int| 0 <= j < a.len() + 1 implies (seq![s[0]] + a)[j] == (seq![s[0]]
            + b)[j] by {
            if j > 0 {
                assert(a[j - 1] == b[j - 1]);
            }
        }
    }
}

/// What a budget takes weighs at most the budget, and the next step would
/// go over it.
pub proof fn lemma_budget_prefix_weight(s: Seq<Step>, limit: int)
    ensures
        budget_prefix(s, limit).is_prefix_of(s),
        limit >= 0 ==> weight(budget_prefix(s, limit)) <= limit,
        budget_prefix(s, limit).len() < s.len() ==> weight(budget_prefix(s, limit)) + s[budget_prefix(
            s,
            limit,
        ).len() as int].2 > limit,
    decreases s.len(),
{
    let b = budget_prefix(s, limit);
    if s.len() == 0 || s[0].2 > limit {
        assert(weight(b) == 0);
    } else {
        let t = budget_prefix(s.drop_first(), limit - s[0].2);
        lemma_budget_prefix_weight(s.drop_first(), limit - s[0].2);
        assert(b.drop_first() =~= t);
        assert(b[0] == s[0]);
        assert forall|j: int| 0 <= j < b.len() implies b[j] == s[j] by {
            if j > 0 {
                assert(b[j] == t[j - 1]);
            }
        }
        if b.len() < s.len() {
            assert(s[b.len() as int] == s.drop_first()[t.len() as int]);
        }
    }
}

/// For a larger fraction the zigzag plots the same cells first, then more;
/// what it plots weighs at most its budget, and the next cell would exceed it.
pub proof fn lemma_zigzag_fill_monotone(zz: ZigZag, f1: Ratio, f2: Ratio)
    requires
        zz.wf(),
        f1.wf(),
        f2.wf(),
        f1.le(f2),
    ensures
        zz.fill_cells(f1).is_prefix_of(zz.fill_cells(f2)),
        zz.fill_cells(f1).len() <= zz.fill_cells(f2).len(),
        ({
            let path = zigzag_path(zz.size as int, zz.gap as int);
            let lim = fill_limit(zz.size as int, zz.gap as int, f1) as int;
            let taken = budget_prefix(path, lim);
            &&& zz.fill_cells(f1).len() == taken.len()
            &&& weight(taken) <= lim
            &&& taken.len() < path.len() ==> weight(taken) + path[taken.len() as int].2 > lim
        }),
{
    let path = zigzag_path(zz.size as int, zz.gap as int);
    let m = ((zz.size + zz.gap) * (zz.size + zz.gap)) as nat;
    lemma_scale_monotone(f1, f2, m);
    let l1 = fill_limit(zz.size as int, zz.gap as int, f1) as int;
    let l2 = fill_limit(zz.size as int, zz.gap as int, f2) as int;
    lemma_budget_prefix_monotone(path, l1, l2);
    lemma_budget_prefix_weight(path, l1);
    let a = budget_prefix(path, l1);
    let b = budget_prefix(path, l2);
    assert forall|j: int| 0 <= j < a.len() implies zz.fill_cells(f1)[j] == zz.fill_cells(f2)[j] by {
        assert(a[j] == b[j]);
    }
}

proof fn lemma_arc_points_grow(rings: int, d1: int, d2: int)
    requires
        0 <= d1 <= d2,
    ensures
        arc_points(rings, d1).len() <= arc_points(rings, d2).len(),
        forall|q: ArcPoint| #[trigger] arc_points(rings, d1).contains(q) ==> arc_points(
            rings,
            d2,
        ).contains(q),
    decreases rings,
{
    if rings > 0 {
        lemma_arc_points_grow(rings - 1, d1, d2);
        let a1 = arc_points(rings - 1, d1);
        let a2 = arc_points(rings - 1, d2);
        let r1 = ring_points(rings - 1, d1);
        let r2 = ring_points(rings - 1, d2);
        assert forall|q: ArcPoint| #[trigger] arc_points(rings, d1).contains(q) implies arc_points(
            rings,
            d2,
        ).contains(q) by {
            let j = choose|j: int| 0 <= j < (a1 + r1).len() && (a1 + r1)[j] == q;
            if j < a1.len() {
                assert(a1.contains(q));
                let i = choose|i: int| 0 <= i < a2.len() && a2[i] == q;
                assert((a2 + r2)[i] == q);
            } else {
                assert(r1[j - a1.len()] == q);
                assert(r2[j - a1.len()] == q);
                assert((a2 + r2)[a2.len() + (j - a1.len())] == q);
            }
        }
    }
}

/// For a larger fraction the arc plots no fewer steps, and every step it
/// plotted before is still plotted.
pub proof fn lemma_arc_fill_monotone(arc: Arc, f1: Ratio, f2: Ratio)
    requires
        f1.wf(),
        f2.wf(),
        f1.le(f2),
    ensures
        arc.fill_points(f1).len() <= arc.fill_points(f2).len(),
        forall|q: ArcPoint| #[trigger] arc.fill_points(f1).contains(q) ==> arc.fill_points(
            f2,
        ).contains(q),
{
    lemma_scale_monotone(f1, f2, 360);
    lemma_arc_points_grow(arc.thickness as int, arc_degrees(f1) as int, arc_degrees(f2) as int);
}

/// For a larger fraction the spiral plots the same angles first, then more.
pub proof fn lemma_spiral_fill_monotone(sp: Spiral, f1: Ratio, f2: Ratio)
    requires
        f1.wf(),
        f2.wf(),
        f1.le(f2),
    ensures
        sp.fill_angles(f1).is_prefix_of(sp.fill_angles(f2)),
        sp.fill_angles(f1).len() <= sp.fill_angles(f2).len(),
{
    let m = (10170 * sp.side()) as nat;
    lemma_scale_monotone(f1, f2, m);
    vstd::arithmetic::div_mod::lemma_div_is_ordered(scale(f1, m) as int, scale(f2, m) as int, 355);
}

} // verus!
