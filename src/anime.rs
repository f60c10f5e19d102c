//! The countdown clock behind the animation.
use vstd::prelude::*;
use crate::duration::{Duration, sat_add, sat_sub, lemma_duration_bounded};
use crate::ratio::Ratio;
use crate::shapes::ShapeSelect;
use ratatui::style::Color;

verus! {

/// What a clock holds, in milliseconds.
pub struct ClockState {
    /// The configured duration.
    pub timeout: nat,
    /// What is left of it.
    pub remaining: nat,
    /// Whether completion has been signalled.
    pub fired: bool,
}

/// What can happen to a clock, in milliseconds.
pub enum ClockOp {
    /// Time passed.
    Update(nat),
    /// The duration was lengthened.
    Increase(nat),
    /// The duration was shortened.
    Decrease(nat),
}

impl ClockState {
    pub open spec fn wf(self) -> bool {
        self.remaining <= self.timeout <= u64::MAX
    }
}

/// Milliseconds below which the clock counts as run down: it shows zero
/// whole seconds.
pub open spec fn run_down(remaining: nat) -> bool {
    remaining < 1000
}

/// One operation on a clock: the new state, and whether it signalled
/// completion.
pub open spec fn step(c: ClockState, op: ClockOp) -> (ClockState, bool) {
    match op {
        ClockOp::Update(e) => {
            let r = sat_sub(c.remaining, e);
            let f = !c.fired && run_down(r);
            (ClockState { remaining: r, fired: c.fired || f, ..c }, f)
        },
        ClockOp::Increase(n) => (
            ClockState {
                timeout: sat_add(c.timeout, n),
                remaining: sat_add(c.remaining, n),
                ..c
            },
            false,
        ),
        ClockOp::Decrease(n) => (
            ClockState {
                timeout: sat_sub(c.timeout, n),
                remaining: sat_sub(c.remaining, n),
                ..c
            },
            false,
        ),
    }
}

/// A run of operations: the final state, and how many times completion was
/// signalled.
pub open spec fn run(c: ClockState, ops: Seq<ClockOp>) -> (ClockState, nat)
    decreases ops.len(),
{
    if ops.len() == 0 {
        (c, 0)
    } else {
        let (p, k) = run(c, ops.drop_last());
        let (q, f) = step(p, ops.last());
        (q, k + if f { 1nat } else { 0nat })
    }
}

/// How far the countdown has come: `1 - remaining / timeout`, and zero for
/// a zero duration.
pub open spec fn completion(c: ClockState) -> Ratio {
    if c.timeout == 0 {
        Ratio::zero_spec()
    } else {
        Ratio { num: (c.timeout - c.remaining) as u64, den: c.timeout as u64 }
    }
}

/// A countdown that signals its completion once.
pub struct AnimChrono {
    shapes_selected: ShapeSelect,
    pub timeout: Duration,
    pub remaining: Duration,
    complete: bool,
}

impl View for AnimChrono {
    type V = ClockState;

    closed spec fn view(&self) -> ClockState {
        ClockState { timeout: self.timeout@, remaining: self.remaining@, fired: self.complete }
    }
}

impl AnimChrono {
    pub closed spec fn wf(&self) -> bool {
        self@.wf() && self.shapes_selected.wf()
    }

    /// The shape that animates the countdown.
    pub closed spec fn shape(&self) -> ShapeSelect {
        self.shapes_selected
    }

    pub fn new(shapes_selected: ShapeSelect, timeout: Duration) -> (r: AnimChrono)
        requires
            shapes_selected.wf(),
        ensures
            r.wf(),
            r@ == (ClockState { timeout: timeout@, remaining: timeout@, fired: false }),
            r.shape() == shapes_selected,
    {
        proof {
            lemma_duration_bounded(timeout);
        }
        AnimChrono { shapes_selected, timeout, remaining: timeout, complete: false }
    }

    /// Hours, minutes and seconds left. The minutes are all whole minutes
    /// left, not those past the hour.
    pub fn get_time_left_formated(&self) -> (r: (u64, u64, u64))
        ensures
            r.0 == self@.remaining / 1000 / 3600,
            r.1 == self@.remaining / 1000 / 60,
            r.2 == self@.remaining / 1000 % 60,
    {
        let secs = self.remaining.as_secs();
        let m = secs / 60;
        let s = secs % 60;
        let h = secs / 3600;
        (h, m, s)
    }

    /// Lets `elapsed` pass. The first time the clock runs down to zero whole
    /// seconds, calls `cb_complete` and returns true.
    pub fn update<F: Fn()>(&mut self, elapsed: Duration, cb_complete: F) -> (fired: bool)
        requires
            old(self).wf(),
            cb_complete.requires(()),
        ensures
            final(self).wf(),
            (final(self)@, fired) == step(old(self)@, ClockOp::Update(elapsed@)),
            final(self).shape() == old(self).shape(),
    {
        self.remaining = self.remaining.saturating_sub(elapsed);
        if !self.complete && self.remaining.as_secs() == 0 {
            self.complete = true;
            cb_complete();
            true
        } else {
            false
        }
    }

    /// Lengthens the duration and what is left of it by `tm` seconds.
    pub fn increase_timeout(&mut self, tm: u64)
        requires
            old(self).wf(),
        ensures
            final(self).wf(),
            final(self)@ == step(old(self)@, ClockOp::Increase((tm * 1000) as nat)).0,
            final(self).shape() == old(self).shape(),
    {
        let d = Duration::from_secs_saturating(tm);
        self.timeout = self.timeout.saturating_add(d);
        self.remaining = self.remaining.saturating_add(d);
    }

    /// Shortens the duration and what is left of it by `tm` seconds.
    pub fn decrease_timeout(&mut self, tm: u64)
        requires
            old(self).wf(),
        ensures
            final(self).wf(),
            final(self)@ == step(old(self)@, ClockOp::Decrease((tm * 1000) as nat)).0,
            final(self).shape() == old(self).shape(),
    {
        let d = Duration::from_secs_saturating(tm);
        self.timeout = self.timeout.saturating_sub(d);
        self.remaining = self.remaining.saturating_sub(d);
    }

    /// How far the countdown has come.
    pub fn completion_ratio(&self) -> (r: Ratio)
        requires
            self.wf(),
        ensures
            r.wf(),
            r == completion(self@),
    {
        let total = self.timeout.as_millis();
        if total == 0 {
            Ratio::zero()
        } else {
            Ratio::new(total - self.remaining.as_millis(), total)
        }
    }

    /// The shape to draw on a `width` by `height` canvas: centred, drawn to
    /// the completion, over a background in `bg`.
    pub fn centered_shape(&self, width: u32, height: u32, bg: Color) -> (r: ShapeSelect)
        requires
            self.wf(),
        ensures
            r.wf(),
            r == self.shape().centered(width, height, completion(self@)).with_bg(bg),
    {
        let fill = self.completion_ratio();
        let shape = self.shapes_selected.center(width, height, fill);
        shape.with_bgcolor(bg)
    }

    /// The glyph density that the clock's shape renders best with.
    pub fn get_marker(&self) -> (r: crate::shapes::Marker)
        ensures
            r == (match self.shape() {
                ShapeSelect::ArcSelect(_) => crate::shapes::Marker::Dot,
                _ => crate::shapes::Marker::HalfBlock,
            }),
    {
        self.shapes_selected.get_marker()
    }
}

/// Every operation keeps what is left within the duration, so the
/// completion stays between zero and one at every point of a run.
pub proof fn lemma_run_wf(c: ClockState, ops: Seq<ClockOp>)
    requires
        c.wf(),
    ensures
        run(c, ops).0.wf(),
        completion(run(c, ops).0).wf(),
    decreases ops.len(),
{
    if ops.len() > 0 {
        lemma_run_wf(c, ops.drop_last());
    }
}

/// Over any run of updates, what is left never grows: at a later point it
/// is at most what it was at an earlier one.
pub proof fn lemma_updates_never_increase(c: ClockState, ops: Seq<ClockOp>, i: int, j: int)
    requires
        forall|k: int| 0 <= k < ops.len() ==> (#[trigger] ops[k]) is Update,
        0 <= i <= j <= ops.len(),
    ensures
        run(c, ops.take(j)).0.remaining <= run(c, ops.take(i)).0.remaining,
    decreases j - i,
{
    if i < j {
        lemma_updates_never_increase(c, ops, i, j - 1);
        assert(ops.take(j).drop_last() =~= ops.take(j - 1));
        assert(ops.take(j).last() == ops[j - 1]);
    }
}

/// Completion is signalled at most once over any run of operations: never
/// again once it has been, and exactly once where the run leaves a clock
/// that had not completed completed.
pub proof fn lemma_fires_at_most_once(c: ClockState, ops: Seq<ClockOp>)
    ensures
        run(c, ops).1 <= 1,
        c.fired ==> run(c, ops).1 == 0 && run(c, ops).0.fired,
        !c.fired ==> (run(c, ops).1 == 1 <==> run(c, ops).0.fired),
    decreases ops.len(),
{
    if ops.len() > 0 {
        lemma_fires_at_most_once(c, ops.drop_last());
    }
}

/// An update that runs the clock down completes it.
pub proof fn lemma_run_down_completes(c: ClockState, e: nat)
    requires
        run_down(sat_sub(c.remaining, e)),
    ensures
        step(c, ClockOp::Update(e)).0.fired,
        step(c, ClockOp::Update(e)).1 == !c.fired,
{
}

/// The completion stays between zero and one; it is zero while nothing has
/// elapsed, and one once nothing is left of a non-zero duration.
pub proof fn lemma_completion_bounds(c: ClockState)
    requires
        c.wf(),
    ensures
        completion(c).wf(),
        c.remaining == c.timeout ==> completion(c).num == 0,
        c.timeout > 0 && c.remaining == 0 ==> completion(c).num == completion(c).den,
{
}

/// An update that signals completion and leaves nothing of a non-zero
/// duration brings the completion to one.
pub proof fn lemma_completion_one_at_firing(c: ClockState, e: nat)
    requires
        c.wf(),
        c.timeout > 0,
        step(c, ClockOp::Update(e)).1,
        e >= c.remaining,
    ensures
        completion(step(c, ClockOp::Update(e)).0).num == completion(step(c, ClockOp::Update(e)).0).den,
{
}

} // verus!
