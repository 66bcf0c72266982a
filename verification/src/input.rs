//! Input queue between the outside world and the simulation.
//!
//! Mouse buttons, touches and programmatic injections are all turned into two kinds of
//! data: tracked pointers ([`InputPoint`]), whose frame-to-frame motion drives the
//! velocity field, and one-off splats ([`SplatEvent`]) or random bursts queued for the
//! next frame. The engine consumes the queues once per frame.
//!
//! Coordinates, velocities and colour channels are single-precision floating-point
//! numbers; they are held here as their IEEE-754 binary32 bit patterns ([`F32Bits`]),
//! which the queue stores and hands back unchanged.

use vstd::prelude::*;

verus! {

/// Bit pattern of an IEEE-754 binary32 value (`f32::to_bits`).
pub type F32Bits = u32;

/// An RGB dye colour, one binary32 bit pattern per channel.
pub type Rgb = [F32Bits; 3];

/// The binary32 value with bit pattern `b` is finite (neither infinite nor NaN).
pub open spec fn is_finite_bits(b: F32Bits) -> bool {
    b & 0x7f80_0000u32 != 0x7f80_0000u32
}

/// The binary32 value with bit pattern `b` is +0.0 or -0.0.
pub open spec fn is_zero_bits(b: F32Bits) -> bool {
    b & 0x7fff_ffffu32 == 0
}

/// The binary32 difference `a - b` is zero: both values are finite and equal as
/// numbers (the same bit pattern, or two zeros of any sign). With gradual underflow,
/// the difference of two distinct finite values is never rounded to zero; any
/// difference involving an infinity or a NaN is not zero.
pub open spec fn difference_is_zero(a: F32Bits, b: F32Bits) -> bool {
    is_finite_bits(a) && is_finite_bits(b) && (a == b || (is_zero_bits(a) && is_zero_bits(b)))
}

fn difference_is_zero_exec(a: F32Bits, b: F32Bits) -> (r: bool)
    ensures
        r == difference_is_zero(a, b),
{
    (a & 0x7f80_0000u32) != 0x7f80_0000u32 && (b & 0x7f80_0000u32) != 0x7f80_0000u32 && (a == b
        || ((a & 0x7fff_ffffu32) == 0 && (b & 0x7fff_ffffu32) == 0))
}

/// Motion state of one tracked pointer (the mouse, or one finger).
#[derive(Clone, Copy, Debug)]
pub struct InputPoint {
    /// Identifier: 0 for the mouse, the system's finger id for touches.
    pub id: u32,
    /// Current normalised x in `[0, 1]`, left to right.
    pub x: F32Bits,
    /// Current normalised y in `[0, 1]`, top to bottom.
    pub y: F32Bits,
    /// x at the previous move.
    pub prev_x: F32Bits,
    /// y at the previous move.
    pub prev_y: F32Bits,
    /// Whether the button is held / the finger touches.
    pub active: bool,
    /// Whether the last move changed the position (`dx != 0 || dy != 0`).
    pub moved: bool,
    /// Dye colour injected by this pointer.
    pub color: Rgb,
}

/// One programmatic splat: a velocity impulse and a dye colour at a position.
#[derive(Clone, Copy, Debug)]
pub struct SplatEvent {
    /// Normalised x in `[0, 1]`.
    pub x: F32Bits,
    /// Normalised y in `[0, 1]`.
    pub y: F32Bits,
    /// Velocity impulse along x.
    pub dx: F32Bits,
    /// Velocity impulse along y.
    pub dy: F32Bits,
    /// Dye colour.
    pub color: Rgb,
}

/// Abstract state of an [`InputManager`].
pub struct InputView {
    /// Tracked pointers in the order they first went down.
    pub points: Seq<InputPoint>,
    /// Programmatic splats queued for the next frame, oldest first.
    pub splats: Seq<SplatEvent>,
    /// Random bursts queued for the next frame (number of splats each), oldest first.
    pub bursts: Seq<u32>,
}

/// No two tracked pointers share an id.
pub open spec fn ids_distinct(points: Seq<InputPoint>) -> bool {
    forall|i: int, j: int|
        0 <= i < points.len() && 0 <= j < points.len() && i != j ==> #[trigger] points[i].id
            != #[trigger] points[j].id
}

/// A pointer with this id is tracked.
pub open spec fn has_point(points: Seq<InputPoint>, id: u32) -> bool {
    exists|i: int| 0 <= i < points.len() && #[trigger] points[i].id == id
}

/// Position of the pointer with this id (meaningful when `has_point`).
pub open spec fn point_index(points: Seq<InputPoint>, id: u32) -> int {
    choose|i: int| 0 <= i < points.len() && #[trigger] points[i].id == id
}

/// A pointer that has just gone down at `(x, y)`.
pub open spec fn fresh_point(id: u32, x: F32Bits, y: F32Bits, color: Rgb) -> InputPoint {
    InputPoint { id, x, y, prev_x: x, prev_y: y, active: true, moved: false, color }
}

/// Pointers after `id` goes down at `(x, y)` with `color`: a tracked pointer is
/// restarted in place, an unknown one is appended.
pub open spec fn pressed(points: Seq<InputPoint>, id: u32, x: F32Bits, y: F32Bits, color: Rgb) -> Seq<
    InputPoint,
> {
    if has_point(points, id) {
        points.update(point_index(points, id), fresh_point(id, x, y, color))
    } else {
        points.push(fresh_point(id, x, y, color))
    }
}

/// `p` after moving to `(x, y)`: the old position becomes the previous one, and the
/// pointer has moved unless both coordinate differences are zero.
pub open spec fn step_point(p: InputPoint, x: F32Bits, y: F32Bits) -> InputPoint {
    InputPoint {
        id: p.id,
        x,
        y,
        prev_x: p.x,
        prev_y: p.y,
        active: p.active,
        moved: !(difference_is_zero(x, p.x) && difference_is_zero(y, p.y)),
        color: p.color,
    }
}

/// Pointers after `id` moves to `(x, y)`; unknown ids change nothing.
pub open spec fn moved_to(points: Seq<InputPoint>, id: u32, x: F32Bits, y: F32Bits) -> Seq<InputPoint> {
    if has_point(points, id) {
        let i = point_index(points, id);
        points.update(i, step_point(points[i], x, y))
    } else {
        points
    }
}

/// `p` with its button released.
pub open spec fn release_point(p: InputPoint) -> InputPoint {
    InputPoint { active: false, ..p }
}

/// Pointers after `id` is released; unknown ids change nothing.
pub open spec fn released(points: Seq<InputPoint>, id: u32) -> Seq<InputPoint> {
    if has_point(points, id) {
        let i = point_index(points, id);
        points.update(i, release_point(points[i]))
    } else {
        points
    }
}

/// Number of pointers that are held down.
pub open spec fn count_active(points: Seq<InputPoint>) -> nat
    decreases points.len(),
{
    if points.len() == 0 {
        0
    } else {
        count_active(points.drop_last()) + if points.last().active {
            1nat
        } else {
            0nat
        }
    }
}

/// The pointers whose motion is turned into a splat this frame: held down and moved.
pub open spec fn splatting(p: InputPoint) -> bool {
    p.active && p.moved
}

/// Pointers that produce a splat this frame, in tracking order.
pub open spec fn moving_points(points: Seq<InputPoint>) -> Seq<InputPoint> {
    points.filter(|p: InputPoint| splatting(p))
}

/// `p` after its motion has been consumed.
pub open spec fn settle_point(p: InputPoint) -> InputPoint {
    if splatting(p) {
        InputPoint { moved: false, ..p }
    } else {
        p
    }
}

/// Pointers after this frame's motion has been consumed.
pub open spec fn settled(points: Seq<InputPoint>) -> Seq<InputPoint> {
    points.map_values(|p: InputPoint| settle_point(p))
}

/// Pointers after every held pointer takes the colour at its position in `colors`.
pub open spec fn recolored(points: Seq<InputPoint>, colors: Seq<Rgb>) -> Seq<InputPoint> {
    Seq::new(
        points.len(),
        |i: int|
            if points[i].active {
                InputPoint { color: colors[i], ..points[i] }
            } else {
                points[i]
            },
    )
}

/// Collects all outside input and hands it to the simulation once per frame.
pub struct InputManager {
    points: Vec<InputPoint>,
    splat_queue: Vec<SplatEvent>,
    burst_queue: Vec<u32>,
}

impl View for InputManager {
    type V = InputView;

    closed spec fn view(&self) -> InputView {
        InputView { points: self.points@, splats: self.splat_queue@, bursts: self.burst_queue@ }
    }
}

impl Default for InputManager {
    fn default() -> (m: InputManager)
        ensures
            m@.points == Seq::<InputPoint>::empty(),
            m@.splats == Seq::<SplatEvent>::empty(),
            m@.bursts == Seq::<u32>::empty(),
    {
        InputManager::new()
    }
}

impl InputManager {
    #[verifier::type_invariant]
    closed spec fn wf(self) -> bool {
        ids_distinct(self.points@)
    }

    /// An input manager with no pointers and empty queues.
    pub fn new() -> (m: InputManager)
        ensures
            m@.points == Seq::<InputPoint>::empty(),
            m@.splats == Seq::<SplatEvent>::empty(),
            m@.bursts == Seq::<u32>::empty(),
    {
        InputManager { points: Vec::new(), splat_queue: Vec::new(), burst_queue: Vec::new() }
    }

    /// Replaces the tracked pointers by `points`, whose ids are distinct.
    fn store_points(&mut self, points: Vec<InputPoint>)
        requires
            ids_distinct(points@),
        ensures
            final(self)@.points == points@,
            final(self)@.splats == old(self)@.splats,
            final(self)@.bursts == old(self)@.bursts,
    {
        self.points = points;
    }

    /// Takes the tracked pointers out, leaving none behind.
    fn take_points(&mut self) -> (points: Vec<InputPoint>)
        ensures
            points@ == old(self)@.points,
            ids_distinct(points@),
            final(self)@.points == Seq::<InputPoint>::empty(),
            final(self)@.splats == old(self)@.splats,
            final(self)@.bursts == old(self)@.bursts,
    {
        proof {
            use_type_invariant(&*self);
        }
        let mut points: Vec<InputPoint> = Vec::new();
        std::mem::swap(&mut points, &mut self.points);
        points
    }

    /// Position of the tracked pointer with this id, if any.
    fn find(&self, id: u32) -> (r: Option<usize>)
        ensures
            match r {
                Some(i) => i < self@.points.len() && i == point_index(self@.points, id) && has_point(
                    self@.points,
                    id,
                ),
                None => !has_point(self@.points, id),
            },
    {
        proof {
            use_type_invariant(self);
        }
        let n = self.points.len();
        let mut i: usize = 0;
        while i < n
            invariant
                n == self.points@.len(),
                i <= n,
                ids_distinct(self.points@),
                forall|k: int| 0 <= k < i ==> #[trigger] self.points@[k].id != id,
            decreases n - i,
        {
            if self.points[i].id == id {
                proof {
                    assert(has_point(self.points@, id));
                    let c = point_index(self.points@, id);
                    assert(self.points@[c].id == id);
                    assert(c == i as int);
                }
                return Some(i);
            }
            i = i + 1;
        }
        None
    }

    /// Pointer `id` goes down (mouse button pressed, touch started) at `(x, y)` with
    /// dye `color`. A tracked pointer is restarted at the new position; an unknown
    /// one starts being tracked.
    pub fn pointer_down(&mut self, id: u32, x: F32Bits, y: F32Bits, color: Rgb)
        ensures
            final(self)@.points == pressed(old(self)@.points, id, x, y, color),
            final(self)@.splats == old(self)@.splats,
            final(self)@.bursts == old(self)@.bursts,
    {
        proof {
            use_type_invariant(&*self);
        }
        let p = InputPoint { id, x, y, prev_x: x, prev_y: y, active: true, moved: false, color };
        let found = self.find(id);
        let mut points = self.take_points();
        match found {
            Some(i) => {
                points.set(i, p);
            },
            None => {
                points.push(p);
            },
        }
        self.store_points(points);
    }

    /// Pointer `id` moves to `(x, y)`. The old position becomes the previous one, and
    /// the pointer counts as moved unless both coordinates are unchanged. Moves of a
    /// released pointer are tracked too but produce no splat; unknown ids are ignored.
    pub fn pointer_move(&mut self, id: u32, x: F32Bits, y: F32Bits)
        ensures
            final(self)@.points == moved_to(old(self)@.points, id, x, y),
            final(self)@.splats == old(self)@.splats,
            final(self)@.bursts == old(self)@.bursts,
    {
        proof {
            use_type_invariant(&*self);
        }
        match self.find(id) {
            Some(i) => {
                let p = self.points[i];
                let still = difference_is_zero_exec(x, p.x) && difference_is_zero_exec(y, p.y);
                let q = InputPoint {
                    id: p.id,
                    x,
                    y,
                    prev_x: p.x,
                    prev_y: p.y,
                    active: p.active,
                    moved: !still,
                    color: p.color,
                };
                let mut points = self.take_points();
                points.set(i, q);
                self.store_points(points);
            },
            None => {},
        }
    }

    /// Pointer `id` goes up (mouse button released, touch ended); its later moves
    /// produce no splat. Unknown ids are ignored.
    pub fn pointer_up(&mut self, id: u32)
        ensures
            final(self)@.points == released(old(self)@.points, id),
            final(self)@.splats == old(self)@.splats,
            final(self)@.bursts == old(self)@.bursts,
    {
        proof {
            use_type_invariant(&*self);
        }
        match self.find(id) {
            Some(i) => {
                let p = self.points[i];
                let q = InputPoint { active: false, ..p };
                let mut points = self.take_points();
                points.set(i, q);
                self.store_points(points);
            },
            None => {},
        }
    }

    /// Queues a splat at `(x, y)` with velocity impulse `(dx, dy)` and dye `color` for
    /// the next frame; no pointer is involved.
    pub fn inject(&mut self, x: F32Bits, y: F32Bits, dx: F32Bits, dy: F32Bits, color: Rgb)
        ensures
            final(self)@.points == old(self)@.points,
            final(self)@.splats == old(self)@.splats.push(SplatEvent { x, y, dx, dy, color }),
            final(self)@.bursts == old(self)@.bursts,
    {
        proof {
            use_type_invariant(&*self);
        }
        let mut queue: Vec<SplatEvent> = Vec::new();
        std::mem::swap(&mut queue, &mut self.splat_queue);
        queue.push(SplatEvent { x, y, dx, dy, color });
        self.splat_queue = queue;
    }

    /// Queues a burst of `count` splats at random positions with random colours for the
    /// next frame.
    pub fn burst(&mut self, count: u32)
        ensures
            final(self)@.points == old(self)@.points,
            final(self)@.splats == old(self)@.splats,
            final(self)@.bursts == old(self)@.bursts.push(count),
    {
        proof {
            use_type_invariant(&*self);
        }
        let mut queue: Vec<u32> = Vec::new();
        std::mem::swap(&mut queue, &mut self.burst_queue);
        queue.push(count);
        self.burst_queue = queue;
    }

    /// Takes this frame's input: the tracked pointers (unchanged), and the queued splats
    /// and bursts, which are emptied.
    pub fn drain(&mut self) -> (r: (&[InputPoint], Vec<SplatEvent>, Vec<u32>))
        ensures
            final(self)@.points == old(self)@.points,
            final(self)@.splats == Seq::<SplatEvent>::empty(),
            final(self)@.bursts == Seq::<u32>::empty(),
            r.0@ == old(self)@.points,
            r.1@ == old(self)@.splats,
            r.2@ == old(self)@.bursts,
    {
        proof {
            use_type_invariant(&*self);
        }
        let mut splats: Vec<SplatEvent> = Vec::new();
        let mut bursts: Vec<u32> = Vec::new();
        std::mem::swap(&mut splats, &mut self.splat_queue);
        std::mem::swap(&mut bursts, &mut self.burst_queue);
        (self.points.as_slice(), splats, bursts)
    }

    /// The tracked pointers, without consuming anything.
    pub fn points(&self) -> (r: &[InputPoint])
        ensures
            r@ == self@.points,
            ids_distinct(r@),
    {
        proof {
            use_type_invariant(self);
        }
        self.points.as_slice()
    }

    /// Number of pointers currently held down.
    pub fn active_count(&self) -> (r: usize)
        ensures
            r == count_active(self@.points),
    {
        let n = self.points.len();
        let mut count: usize = 0;
        let mut i: usize = 0;
        while i < n
            invariant
                n == self.points@.len(),
                i <= n,
                count == count_active(self.points@.take(i as int)),
                count <= i,
            decreases n - i,
        {
            assert(self.points@.take(i + 1).drop_last() =~= self.points@.take(i as int));
            if self.points[i].active {
                count = count + 1;
            }
            i = i + 1;
        }
        assert(self.points@.take(n as int) =~= self.points@);
        count
    }

    /// Hands out the pointers that moved while held since the last frame, as they were,
    /// and marks their motion as consumed. Released pointers keep their `moved` flag
    /// but are never handed out.
    pub fn take_moved(&mut self) -> (moving: Vec<InputPoint>)
        ensures
            moving@ == moving_points(old(self)@.points),
            final(self)@.points == settled(old(self)@.points),
            final(self)@.points.len() == old(self)@.points.len(),
            forall|k: int|
                0 <= k < old(self)@.points.len() ==> (#[trigger] final(self)@.points[k]).active
                    == old(self)@.points[k].active && final(self)@.points[k].id == old(self)@.points[k].id,
            count_active(final(self)@.points) == count_active(old(self)@.points),
            final(self)@.splats == old(self)@.splats,
            final(self)@.bursts == old(self)@.bursts,
    {
        let mut points = self.take_points();
        let ghost orig = points@;
        let mut moving: Vec<InputPoint> = Vec::new();
        let n = points.len();
        let mut i: usize = 0;
        while i < n
            invariant
                n == points@.len(),
                n == orig.len(),
                i <= n,
                ids_distinct(orig),
                moving@ == moving_points(orig.take(i as int)),
                forall|k: int| 0 <= k < i ==> #[trigger] points@[k] == settle_point(orig[k]),
                forall|k: int| i <= k < n ==> #[trigger] points@[k] == orig[k],
            decreases n - i,
        {
            let p = points[i];
            proof {
                reveal(Seq::filter);
                assert(orig.take(i + 1).drop_last() =~= orig.take(i as int));
                assert(orig.take(i + 1).last() == orig[i as int]);
            }
            if p.active && p.moved {
                moving.push(p);
                points.set(i, InputPoint { moved: false, ..p });
            }
            i = i + 1;
        }
        proof {
            assert(orig.take(n as int) =~= orig);
            assert(points@ =~= settled(orig));
            crate::input_laws::lemma_take_moved_keeps_pointers(orig);
            assert forall|a: int, b: int|
                0 <= a < points@.len() && 0 <= b < points@.len() && a != b implies #[trigger] points@[a].id
                != #[trigger] points@[b].id by {
                assert(points@[a].id == orig[a].id);
                assert(points@[b].id == orig[b].id);
            }
        }
        self.store_points(points);
        moving
    }

    /// Gives every held pointer a new dye colour: the pointer at position `i` takes
    /// `colors[i]`; released pointers keep theirs.
    pub fn recolor_active(&mut self, colors: &Vec<Rgb>)
        requires
            colors.len() == old(self)@.points.len(),
        ensures
            final(self)@.points == recolored(old(self)@.points, colors@),
            final(self)@.points.len() == old(self)@.points.len(),
            forall|k: int|
                0 <= k < old(self)@.points.len() && (#[trigger] old(self)@.points[k]).active
                    ==> final(self)@.points[k].color == colors@[k],
            final(self)@.splats == old(self)@.splats,
            final(self)@.bursts == old(self)@.bursts,
    {
        let mut points = self.take_points();
        let ghost orig = points@;
        let n = points.len();
        let mut i: usize = 0;
        while i < n
            invariant
                n == points@.len(),
                n == orig.len(),
                n == colors.len(),
                i <= n,
                ids_distinct(orig),
                forall|k: int| 0 <= k < i ==> #[trigger] points@[k] == recolored(orig, colors@)[k],
                forall|k: int| i <= k < n ==> #[trigger] points@[k] == orig[k],
            decreases n - i,
        {
            let p = points[i];
            if p.active {
                points.set(i, InputPoint { color: colors[i], ..p });
            }
            i = i + 1;
        }
        proof {
            assert(points@ =~= recolored(orig, colors@));
            crate::input_laws::lemma_recolor_gives_each_its_own(orig, colors@);
            assert forall|a: int, b: int|
                0 <= a < points@.len() && 0 <= b < points@.len() && a != b implies #[trigger] points@[a].id
                != #[trigger] points@[b].id by {
                assert(points@[a].id == orig[a].id);
                assert(points@[b].id == orig[b].id);
            }
        }
        self.store_points(points);
    }
}

} // verus!
