use fluid_core::input::{InputManager, Rgb};

fn b(v: f32) -> u32 {
    v.to_bits()
}

fn rgb(r: f32, g: f32, bl: f32) -> Rgb {
    [b(r), b(g), b(bl)]
}

#[test]
fn new_manager_is_empty() {
    let mut m = InputManager::new();
    assert!(m.points().is_empty());
    assert_eq!(m.active_count(), 0);
    let (points, splats, bursts) = m.drain();
    assert!(points.is_empty() && splats.is_empty() && bursts.is_empty());
}

#[test]
fn pointer_down_tracks_new_pointer() {
    let mut m = InputManager::new();
    m.pointer_down(0, b(0.5), b(0.25), rgb(0.1, 0.2, 0.3));
    let p = m.points()[0];
    assert_eq!(m.points().len(), 1);
    assert_eq!(p.id, 0);
    assert_eq!((p.x, p.y, p.prev_x, p.prev_y), (b(0.5), b(0.25), b(0.5), b(0.25)));
    assert!(p.active && !p.moved);
    assert_eq!(p.color, rgb(0.1, 0.2, 0.3));
    assert_eq!(m.active_count(), 1);
}

#[test]
fn pointer_down_on_known_id_restarts_it_in_place() {
    let mut m = InputManager::new();
    m.pointer_down(3, b(0.1), b(0.1), rgb(1.0, 0.0, 0.0));
    m.pointer_down(7, b(0.9), b(0.9), rgb(0.0, 1.0, 0.0));
    m.pointer_move(3, b(0.2), b(0.3));
    m.pointer_up(3);
    m.pointer_down(3, b(0.6), b(0.7), rgb(0.0, 0.0, 1.0));
    let pts = m.points();
    assert_eq!(pts.len(), 2);
    assert_eq!(pts[0].id, 3);
    assert_eq!(pts[1].id, 7);
    assert_eq!((pts[0].x, pts[0].y, pts[0].prev_x, pts[0].prev_y), (b(0.6), b(0.7), b(0.6), b(0.7)));
    assert!(pts[0].active && !pts[0].moved);
    assert_eq!(pts[0].color, rgb(0.0, 0.0, 1.0));
    assert_eq!(m.active_count(), 2);
}

#[test]
fn pointer_move_records_previous_position() {
    let mut m = InputManager::new();
    m.pointer_down(0, b(0.5), b(0.5), rgb(0.1, 0.1, 0.1));
    m.pointer_move(0, b(0.52), b(0.51));
    let p = m.points()[0];
    assert_eq!((p.prev_x, p.prev_y, p.x, p.y), (b(0.5), b(0.5), b(0.52), b(0.51)));
    assert!(p.moved);
    m.pointer_move(0, b(0.52), b(0.51));
    assert!(!m.points()[0].moved);
}

#[test]
fn moving_in_one_axis_counts_as_motion() {
    let mut m = InputManager::new();
    m.pointer_down(0, b(0.5), b(0.5), rgb(0.1, 0.1, 0.1));
    m.pointer_move(0, b(0.5), b(0.6));
    assert!(m.points()[0].moved);
}

#[test]
fn signed_zeros_are_the_same_position() {
    let mut m = InputManager::new();
    m.pointer_down(0, b(0.0), b(0.0), rgb(0.1, 0.1, 0.1));
    m.pointer_move(0, b(-0.0), b(0.0));
    assert!(!m.points()[0].moved);
}

#[test]
fn non_finite_positions_always_count_as_motion() {
    let mut m = InputManager::new();
    m.pointer_down(0, b(f32::INFINITY), b(0.5), rgb(0.1, 0.1, 0.1));
    m.pointer_move(0, b(f32::INFINITY), b(0.5));
    assert!(m.points()[0].moved);
    m.pointer_down(1, b(f32::NAN), b(0.5), rgb(0.1, 0.1, 0.1));
    m.pointer_move(1, b(f32::NAN), b(0.5));
    assert!(m.points()[1].moved);
}

#[test]
fn unknown_ids_are_ignored() {
    let mut m = InputManager::new();
    m.pointer_down(1, b(0.5), b(0.5), rgb(0.1, 0.1, 0.1));
    m.pointer_move(2, b(0.9), b(0.9));
    m.pointer_up(2);
    assert_eq!(m.points().len(), 1);
    let p = m.points()[0];
    assert_eq!((p.x, p.y), (b(0.5), b(0.5)));
    assert!(p.active);
}

#[test]
fn pointer_up_releases() {
    let mut m = InputManager::new();
    m.pointer_down(0, b(0.5), b(0.5), rgb(0.1, 0.1, 0.1));
    m.pointer_down(1, b(0.2), b(0.2), rgb(0.1, 0.1, 0.1));
    m.pointer_up(0);
    assert!(!m.points()[0].active);
    assert!(m.points()[1].active);
    assert_eq!(m.active_count(), 1);
    m.pointer_up(0);
    assert_eq!(m.active_count(), 1);
}

#[test]
fn released_pointer_moves_but_makes_no_splat() {
    let mut m = InputManager::new();
    m.pointer_down(0, b(0.5), b(0.5), rgb(0.1, 0.1, 0.1));
    m.pointer_up(0);
    m.pointer_move(0, b(0.6), b(0.6));
    let p = m.points()[0];
    assert_eq!((p.x, p.y), (b(0.6), b(0.6)));
    assert!(p.moved && !p.active);
    assert!(m.take_moved().is_empty());
    // the flag of a released pointer is left alone
    assert!(m.points()[0].moved);
}

#[test]
fn pressed_pointer_waits_for_motion() {
    let mut m = InputManager::new();
    m.pointer_down(0, b(0.5), b(0.5), rgb(0.1, 0.1, 0.1));
    assert!(m.take_moved().is_empty());
    m.pointer_move(0, b(0.55), b(0.5));
    let moving = m.take_moved();
    assert_eq!(moving.len(), 1);
    assert_eq!(moving[0].id, 0);
    assert!(moving[0].moved);
    assert_eq!((moving[0].prev_x, moving[0].x), (b(0.5), b(0.55)));
    assert!(!m.points()[0].moved);
    assert!(m.take_moved().is_empty());
}

#[test]
fn take_moved_keeps_tracking_order() {
    let mut m = InputManager::new();
    m.pointer_down(5, b(0.1), b(0.1), rgb(0.1, 0.1, 0.1));
    m.pointer_down(2, b(0.2), b(0.2), rgb(0.1, 0.1, 0.1));
    m.pointer_down(9, b(0.3), b(0.3), rgb(0.1, 0.1, 0.1));
    m.pointer_move(9, b(0.4), b(0.4));
    m.pointer_move(5, b(0.4), b(0.4));
    let ids: Vec<u32> = m.take_moved().iter().map(|p| p.id).collect();
    assert_eq!(ids, vec![5, 9]);
}

#[test]
fn inject_and_burst_queue_until_drained() {
    let mut m = InputManager::new();
    m.inject(b(0.3), b(0.7), b(200.0), b(-400.0), rgb(0.8, 0.1, 0.2));
    m.inject(b(0.5), b(0.5), b(1200.0), b(-900.0), rgb(1.0, 0.5, 0.0));
    m.burst(15);
    m.burst(3);
    m.pointer_down(0, b(0.5), b(0.5), rgb(0.1, 0.1, 0.1));
    {
        let (points, splats, bursts) = m.drain();
        assert_eq!(points.len(), 1);
        assert_eq!(splats.len(), 2);
        assert_eq!((splats[0].x, splats[0].y, splats[0].dx, splats[0].dy), (b(0.3), b(0.7), b(200.0), b(-400.0)));
        assert_eq!(splats[0].color, rgb(0.8, 0.1, 0.2));
        assert_eq!((splats[1].dx, splats[1].dy), (b(1200.0), b(-900.0)));
        assert_eq!(bursts, vec![15, 3]);
    }
    let (points, splats, bursts) = m.drain();
    assert_eq!(points.len(), 1);
    assert!(splats.is_empty() && bursts.is_empty());
}

#[test]
fn recolor_changes_only_held_pointers() {
    let mut m = InputManager::new();
    m.pointer_down(0, b(0.1), b(0.1), rgb(0.1, 0.1, 0.1));
    m.pointer_down(1, b(0.2), b(0.2), rgb(0.2, 0.2, 0.2));
    m.pointer_up(1);
    m.recolor_active(&vec![rgb(0.9, 0.0, 0.0), rgb(0.0, 0.9, 0.0)]);
    assert_eq!(m.points()[0].color, rgb(0.9, 0.0, 0.0));
    assert_eq!(m.points()[1].color, rgb(0.2, 0.2, 0.2));
}
