//! Laws of the input queue: how presses, moves and releases of tracked pointers
//! combine, and which of them lead to a splat.

use vstd::prelude::*;
use crate::input::{
    count_active, fresh_point, has_point, ids_distinct, is_finite_bits, moved_to, moving_points,
    point_index, pressed, recolored, release_point, released, settled, splatting, step_point,
    F32Bits, InputPoint, Rgb,
};

verus! {

broadcast use vstd::seq_lib::group_filter_ensures;

proof fn lemma_index_of(points: Seq<InputPoint>, id: u32, i: int)
    requires
        ids_distinct(points),
        0 <= i < points.len(),
        points[i].id == id,
    ensures
        has_point(points, id),
        point_index(points, id) == i,
{
    assert(has_point(points, id));
    let c = point_index(points, id);
    assert(points[c].id == id);
}

proof fn lemma_update_keeps_ids(points: Seq<InputPoint>, i: int, v: InputPoint)
    requires
        ids_distinct(points),
        0 <= i < points.len(),
        v.id == points[i].id,
    ensures
        ids_distinct(points.update(i, v)),
{
    let q = points.update(i, v);
    assert forall|a: int, b: int| 0 <= a < q.len() && 0 <= b < q.len() && a != b implies #[trigger] q[a].id
        != #[trigger] q[b].id by {
        assert(q[a].id == points[a].id);
        assert(q[b].id == points[b].id);
    }
}

proof fn lemma_push_new_id(points: Seq<InputPoint>, v: InputPoint)
    requires
        ids_distinct(points),
        !has_point(points, v.id),
    ensures
        ids_distinct(points.push(v)),
{
    let q = points.push(v);
    assert forall|a: int, b: int| 0 <= a < q.len() && 0 <= b < q.len() && a != b implies #[trigger] q[a].id
        != #[trigger] q[b].id by {
        if a < points.len() && b < points.len() {
            assert(q[a] == points[a] && q[b] == points[b]);
        } else if a < points.len() {
            assert(q[a] == points[a]);
        } else {
            assert(q[b] == points[b]);
        }
    }
}

proof fn lemma_filter_singleton(x: InputPoint, pred: spec_fn(InputPoint) -> bool)
    ensures
        seq![x].filter(pred) == (if pred(x) {
            seq![x]
        } else {
            Seq::<InputPoint>::empty()
        }),
{
    reveal_with_fuel(Seq::filter, 2);
    assert(seq![x].drop_last() =~= Seq::<InputPoint>::empty());
    assert(Seq::<InputPoint>::empty().filter(pred) =~= Seq::<InputPoint>::empty());
    assert(Seq::<InputPoint>::empty().push(x) =~= seq![x]);
}

proof fn lemma_filter_update_unselected(s: Seq<InputPoint>, i: int, v: InputPoint, pred: spec_fn(InputPoint) -> bool)
    requires
        0 <= i < s.len(),
        !pred(s[i]),
        !pred(v),
    ensures
        s.update(i, v).filter(pred) == s.filter(pred),
{
    broadcast use vstd::seq::Seq::filter_distributes_over_add;
    let pre = s.take(i);
    let post = s.skip(i + 1);
    assert(s =~= pre + seq![s[i]] + post);
    assert(s.update(i, v) =~= pre + seq![v] + post);
    lemma_filter_singleton(s[i], pred);
    lemma_filter_singleton(v, pred);
    assert((pre + seq![s[i]] + post).filter(pred) == (pre + seq![s[i]]).filter(pred) + post.filter(pred));
    assert((pre + seq![s[i]]).filter(pred) == pre.filter(pred) + seq![s[i]].filter(pred));
    assert((pre + seq![v] + post).filter(pred) == (pre + seq![v]).filter(pred) + post.filter(pred));
    assert((pre + seq![v]).filter(pred) == pre.filter(pred) + seq![v].filter(pred));
    assert(pre.filter(pred) + Seq::<InputPoint>::empty() =~= pre.filter(pred));
}

proof fn lemma_count_update(s: Seq<InputPoint>, i: int, v: InputPoint)
    requires
        0 <= i < s.len(),
    ensures
        count_active(s.update(i, v)) + (if s[i].active {
            1int
        } else {
            0int
        }) == count_active(s) + (if v.active {
            1int
        } else {
            0int
        }),
    decreases s.len(),
{
    let u = s.update(i, v);
    if i == s.len() - 1 {
        assert(u.drop_last() =~= s.drop_last());
    } else {
        lemma_count_update(s.drop_last(), i, v);
        assert(u.drop_last() =~= s.drop_last().update(i, v));
    }
}

/// Pressing pointer `id` tracks exactly one pointer with that id, freshly pressed at
/// the given position, reuses the slot of a pointer already tracked under that id, and
/// leaves every other pointer as it was.
pub proof fn lemma_press_tracks_pointer(points: Seq<InputPoint>, id: u32, x: F32Bits, y: F32Bits, color: Rgb)
    requires
        ids_distinct(points),
    ensures
        ids_distinct(pressed(points, id, x, y, color)),
        has_point(pressed(points, id, x, y, color), id),
        pressed(points, id, x, y, color)[point_index(pressed(points, id, x, y, color), id)]
            == fresh_point(id, x, y, color),
        pressed(points, id, x, y, color).len() == if has_point(points, id) {
            points.len()
        } else {
            points.len() + 1
        },
        forall|k: int|
            0 <= k < points.len() && points[k].id != id ==> #[trigger] pressed(points, id, x, y, color)[k]
                == points[k],
{
    let q = pressed(points, id, x, y, color);
    if has_point(points, id) {
        let i = point_index(points, id);
        lemma_update_keeps_ids(points, i, fresh_point(id, x, y, color));
        lemma_index_of(q, id, i);
    } else {
        lemma_push_new_id(points, fresh_point(id, x, y, color));
        lemma_index_of(q, id, points.len() as int);
    }
}

/// Releasing a pointer right after pressing it leaves it tracked at the pressed
/// position, released.
pub proof fn lemma_release_after_press(points: Seq<InputPoint>, id: u32, x: F32Bits, y: F32Bits, color: Rgb)
    requires
        ids_distinct(points),
    ensures
        has_point(released(pressed(points, id, x, y, color), id), id),
        released(pressed(points, id, x, y, color), id)[point_index(
            released(pressed(points, id, x, y, color), id),
            id,
        )] == release_point(fresh_point(id, x, y, color)),
        !released(pressed(points, id, x, y, color), id)[point_index(
            released(pressed(points, id, x, y, color), id),
            id,
        )].active,
{
    lemma_press_tracks_pointer(points, id, x, y, color);
    let q = pressed(points, id, x, y, color);
    let i = point_index(q, id);
    let r = released(q, id);
    lemma_update_keeps_ids(q, i, release_point(q[i]));
    lemma_index_of(r, id, i);
}

/// Moving a pointer that is not held down (released, or never pressed) never leads
/// to a splat: the pointers that produce splats stay exactly the same.
pub proof fn lemma_move_while_released_makes_no_splat(points: Seq<InputPoint>, id: u32, x: F32Bits, y: F32Bits)
    requires
        ids_distinct(points),
        !has_point(points, id) || !points[point_index(points, id)].active,
    ensures
        moving_points(moved_to(points, id, x, y)) == moving_points(points),
{
    if has_point(points, id) {
        let i = point_index(points, id);
        let pred = |p: InputPoint| splatting(p);
        lemma_filter_update_unselected(points, i, step_point(points[i], x, y), pred);
    }
}

/// A pointer that has just been pressed produces no splat until it moves.
pub proof fn lemma_press_waits_for_motion(points: Seq<InputPoint>, id: u32, x: F32Bits, y: F32Bits, color: Rgb)
    requires
        ids_distinct(points),
    ensures
        forall|j: int|
            0 <= j < moving_points(pressed(points, id, x, y, color)).len() ==> (#[trigger] moving_points(
                pressed(points, id, x, y, color),
            )[j]).id != id,
{
    lemma_press_tracks_pointer(points, id, x, y, color);
    let q = pressed(points, id, x, y, color);
    let m = moving_points(q);
    let pred = |p: InputPoint| splatting(p);
    assert forall|j: int| 0 <= j < m.len() implies (#[trigger] m[j]).id != id by {
        assert(pred(m[j]));
        assert(m.contains(m[j]));
        q.lemma_filter_contains_rev(pred, m[j]);
        assert(q.contains(m[j]));
        let k = choose|k: int| 0 <= k < q.len() && q[k] == m[j];
        if m[j].id == id {
            lemma_index_of(q, id, k);
            assert(q[k] == fresh_point(id, x, y, color));
        }
    }
}

proof fn lemma_filter_none_selected(s: Seq<InputPoint>, pred: spec_fn(InputPoint) -> bool)
    requires
        forall|k: int| 0 <= k < s.len() ==> !pred(#[trigger] s[k]),
    ensures
        s.filter(pred) == Seq::<InputPoint>::empty(),
    decreases s.len(),
{
    reveal(Seq::filter);
    if s.len() > 0 {
        lemma_filter_none_selected(s.drop_last(), pred);
    }
    assert(s.filter(pred) =~= Seq::<InputPoint>::empty());
}

/// The motion of a frame is consumed once: after it has been taken, no pointer
/// produces a splat until it moves again.
pub proof fn lemma_motion_consumed_once(points: Seq<InputPoint>)
    ensures
        moving_points(settled(points)) == Seq::<InputPoint>::empty(),
{
    let pred = |p: InputPoint| splatting(p);
    lemma_filter_none_selected(settled(points), pred);
}

/// Pressing a pointer that was not held down adds one to the number of held pointers;
/// pressing one that was already held leaves the number unchanged.
pub proof fn lemma_press_counts_once(points: Seq<InputPoint>, id: u32, x: F32Bits, y: F32Bits, color: Rgb)
    requires
        ids_distinct(points),
    ensures
        count_active(pressed(points, id, x, y, color)) == count_active(points) + if has_point(points, id)
            && points[point_index(points, id)].active {
            0nat
        } else {
            1nat
        },
{
    if has_point(points, id) {
        lemma_count_update(points, point_index(points, id), fresh_point(id, x, y, color));
    } else {
        assert(points.push(fresh_point(id, x, y, color)).drop_last() =~= points);
    }
}

/// Releasing a held pointer takes one off the number of held pointers; releasing any
/// other id changes nothing.
pub proof fn lemma_release_counts_once(points: Seq<InputPoint>, id: u32)
    requires
        ids_distinct(points),
    ensures
        count_active(released(points, id)) + (if has_point(points, id) && points[point_index(points, id)].active {
            1nat
        } else {
            0nat
        }) == count_active(points),
{
    if has_point(points, id) {
        let i = point_index(points, id);
        lemma_count_update(points, i, release_point(points[i]));
    }
}

/// A pointer moved to the position it already has does not count as moved, as long as
/// its coordinates are finite numbers.
pub proof fn lemma_standing_still_is_no_motion(p: InputPoint)
    ensures
        step_point(p, p.x, p.y).moved == !(is_finite_bits(p.x) && is_finite_bits(p.y)),
{
}

proof fn lemma_count_same_flags(a: Seq<InputPoint>, b: Seq<InputPoint>)
    requires
        a.len() == b.len(),
        forall|k: int| 0 <= k < a.len() ==> (#[trigger] a[k]).active == b[k].active,
    ensures
        count_active(a) == count_active(b),
    decreases a.len(),
{
    if a.len() > 0 {
        lemma_count_same_flags(a.drop_last(), b.drop_last());
    }
}

/// Consuming a frame's motion changes nothing of a pointer but its `moved` flag, which
/// is cleared for the held pointers only: every pointer keeps its id, position,
/// previous position, colour and whether it is held, and the number of held pointers
/// stays the same.
pub proof fn lemma_take_moved_keeps_pointers(points: Seq<InputPoint>)
    ensures
        settled(points).len() == points.len(),
        forall|k: int|
            0 <= k < points.len() ==> {
                let q = #[trigger] settled(points)[k];
                let p = points[k];
                &&& q.id == p.id
                &&& q.x == p.x
                &&& q.y == p.y
                &&& q.prev_x == p.prev_x
                &&& q.prev_y == p.prev_y
                &&& q.active == p.active
                &&& q.color == p.color
                &&& q.moved == (p.moved && !p.active)
            },
        count_active(settled(points)) == count_active(points),
        ids_distinct(points) ==> ids_distinct(settled(points)),
{
    let q = settled(points);
    lemma_count_same_flags(q, points);
    if ids_distinct(points) {
        assert forall|a: int, b: int| 0 <= a < q.len() && 0 <= b < q.len() && a != b implies #[trigger] q[a].id
            != #[trigger] q[b].id by {
            assert(q[a].id == points[a].id);
            assert(q[b].id == points[b].id);
        }
    }
}

/// The pointers handed out for a frame are exactly the held pointers that moved: each
/// one handed out is tracked, held and moved, and each tracked pointer that is held and
/// moved is handed out.
pub proof fn lemma_moving_points_are_held_and_moved(points: Seq<InputPoint>)
    ensures
        forall|j: int|
            0 <= j < moving_points(points).len() ==> (#[trigger] moving_points(points)[j]).active
                && moving_points(points)[j].moved && points.contains(moving_points(points)[j]),
        forall|k: int|
            0 <= k < points.len() && (#[trigger] points[k]).active && points[k].moved ==> moving_points(
                points,
            ).contains(points[k]),
{
    let pred = |p: InputPoint| splatting(p);
    let m = moving_points(points);
    assert forall|j: int| 0 <= j < m.len() implies (#[trigger] m[j]).active && m[j].moved && points.contains(
        m[j],
    ) by {
        points.lemma_filter_pred(pred, j);
        assert(m.contains(m[j]));
        points.lemma_filter_contains_rev(pred, m[j]);
    }
    assert forall|k: int| 0 <= k < points.len() && (#[trigger] points[k]).active && points[k].moved implies m.contains(
        points[k],
    ) by {
        points.lemma_filter_contains(pred, k);
    }
}

/// A held pointer stays held after the frame's motion has been consumed: when it
/// moves again to a position with a different x, the next frame hands it out again.
pub proof fn lemma_held_pointer_moves_again(points: Seq<InputPoint>, id: u32, x: F32Bits, y: F32Bits)
    requires
        ids_distinct(points),
        has_point(points, id),
        points[point_index(points, id)].active,
        x != points[point_index(points, id)].x,
        !(x & 0x7fff_ffffu32 == 0 && points[point_index(points, id)].x & 0x7fff_ffffu32 == 0),
    ensures
        moving_points(moved_to(settled(points), id, x, y)).contains(
            moved_to(settled(points), id, x, y)[point_index(points, id)],
        ),
        moved_to(settled(points), id, x, y)[point_index(points, id)].id == id,
        moved_to(settled(points), id, x, y)[point_index(points, id)].x == x,
        moved_to(settled(points), id, x, y)[point_index(points, id)].y == y,
{
    let i = point_index(points, id);
    lemma_take_moved_keeps_pointers(points);
    let s = settled(points);
    assert(s[i].id == id);
    lemma_index_of(s, id, i);
    lemma_move_records_motion(s, id, x, y);
    let r = moved_to(s, id, x, y);
    let pred = |p: InputPoint| splatting(p);
    assert(pred(r[i]));
    r.lemma_filter_contains(pred, i);
}

/// A move records the old position as the previous one and the new position as the
/// current one, keeps the pointer's id, colour and held state, leaves every other
/// pointer as it was, and counts as motion whenever a coordinate changes as a number:
/// it is no motion only when both coordinates are finite and each is unchanged (the
/// same bit pattern, or zeros of either sign).
pub proof fn lemma_move_records_motion(points: Seq<InputPoint>, id: u32, x: F32Bits, y: F32Bits)
    requires
        ids_distinct(points),
        has_point(points, id),
    ensures
        ({
            let i = point_index(points, id);
            let p = points[i];
            let q = moved_to(points, id, x, y)[i];
            &&& moved_to(points, id, x, y).len() == points.len()
            &&& q.id == id && q.x == x && q.y == y && q.prev_x == p.x && q.prev_y == p.y
            &&& q.active == p.active && q.color == p.color
            &&& (x != p.x && !(x & 0x7fff_ffffu32 == 0 && p.x & 0x7fff_ffffu32 == 0)) ==> q.moved
            &&& (y != p.y && !(y & 0x7fff_ffffu32 == 0 && p.y & 0x7fff_ffffu32 == 0)) ==> q.moved
            &&& (x & 0x7f80_0000u32 == 0x7f80_0000u32 || y & 0x7f80_0000u32 == 0x7f80_0000u32
                || p.x & 0x7f80_0000u32 == 0x7f80_0000u32 || p.y & 0x7f80_0000u32 == 0x7f80_0000u32)
                ==> q.moved
            &&& (x & 0x7f80_0000u32 != 0x7f80_0000u32 && y & 0x7f80_0000u32 != 0x7f80_0000u32
                && (x == p.x || (x & 0x7fff_ffffu32 == 0 && p.x & 0x7fff_ffffu32 == 0))
                && (y == p.y || (y & 0x7fff_ffffu32 == 0 && p.y & 0x7fff_ffffu32 == 0))) ==> !q.moved
        }),
        forall|k: int|
            0 <= k < points.len() && k != point_index(points, id) ==> #[trigger] moved_to(points, id, x, y)[k]
                == points[k],
{
    let i = point_index(points, id);
    let p = points[i];
    let q = moved_to(points, id, x, y)[i];
    assert(q == step_point(p, x, y));
    assert(p.id == id);
    let px = p.x;
    let py = p.y;
    let m = q.moved;
    assert(
        ((x != px && !(x & 0x7fff_ffffu32 == 0 && px & 0x7fff_ffffu32 == 0)) ==> m)
        && ((y != py && !(y & 0x7fff_ffffu32 == 0 && py & 0x7fff_ffffu32 == 0)) ==> m)
        && ((x & 0x7f80_0000u32 == 0x7f80_0000u32 || y & 0x7f80_0000u32 == 0x7f80_0000u32
            || px & 0x7f80_0000u32 == 0x7f80_0000u32 || py & 0x7f80_0000u32 == 0x7f80_0000u32) ==> m)
        && ((x & 0x7f80_0000u32 != 0x7f80_0000u32 && y & 0x7f80_0000u32 != 0x7f80_0000u32
            && (x == px || (x & 0x7fff_ffffu32 == 0 && px & 0x7fff_ffffu32 == 0))
            && (y == py || (y & 0x7fff_ffffu32 == 0 && py & 0x7fff_ffffu32 == 0))) ==> !m)
    ) by (bit_vector)
        requires
            m == !((x & 0x7f80_0000u32 != 0x7f80_0000u32 && px & 0x7f80_0000u32 != 0x7f80_0000u32 && (x == px
                || (x & 0x7fff_ffffu32 == 0 && px & 0x7fff_ffffu32 == 0))) && (y & 0x7f80_0000u32
                != 0x7f80_0000u32 && py & 0x7f80_0000u32 != 0x7f80_0000u32 && (y == py || (y
                & 0x7fff_ffffu32 == 0 && py & 0x7fff_ffffu32 == 0)))),
    ;
}

/// Recolouring gives every held pointer the colour at its own position in `colors`
/// and changes nothing else; released pointers are left exactly as they were.
pub proof fn lemma_recolor_gives_each_its_own(points: Seq<InputPoint>, colors: Seq<Rgb>)
    requires
        colors.len() == points.len(),
    ensures
        recolored(points, colors).len() == points.len(),
        forall|k: int|
            0 <= k < points.len() && (#[trigger] points[k]).active ==> {
                let q = recolored(points, colors)[k];
                &&& q.color == colors[k]
                &&& q.id == points[k].id && q.x == points[k].x && q.y == points[k].y
                &&& q.prev_x == points[k].prev_x && q.prev_y == points[k].prev_y
                &&& q.active && q.moved == points[k].moved
            },
        forall|k: int|
            0 <= k < points.len() && !(#[trigger] points[k]).active ==> recolored(points, colors)[k]
                == points[k],
        count_active(recolored(points, colors)) == count_active(points),
{
    lemma_count_same_flags(recolored(points, colors), points);
}

} // verus!
