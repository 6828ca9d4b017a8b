use solitaire::card::{Card, Rank, Suit};
use solitaire::entity::{CardFace, EntityRec, Flipping, MoveTo, SCALE_ONE};
use solitaire::flip::{handle_flip, FLIP_SPEED, FULL_TURN, HALF_TURN};
use solitaire::geom::{isqrt64, Vec3i};
use solitaire::moveto::handle_move_to;

fn mover(x: i64, y: i64, z: i64, tx: i64, ty: i64, tz: i64, speed: i64) -> EntityRec {
    let mut e = EntityRec::plain(Vec3i { x, y, z });
    e.move_to = Some(MoveTo {
        target: Vec3i {
            x: tx,
            y: ty,
            z: tz,
        },
        speed,
    });
    e
}

#[test]
fn within_threshold_snaps_to_target_and_detaches() {
    let mut arena = vec![mover(0, 0, 0, 5, 0, 0, 400)];
    handle_move_to(16, &mut arena);
    assert_eq!(arena[0].pos, Vec3i { x: 5, y: 0, z: 0 });
    assert!(arena[0].move_to.is_none());
}

#[test]
fn distance_advances_by_the_exact_linear_step() {
    // distance 1000 along x: step = 1000 * 400 * 16 / (1000 * 1000) = 6.
    let mut arena = vec![mover(0, 0, 0, 1000, 0, 0, 400)];
    handle_move_to(16, &mut arena);
    assert_eq!(arena[0].pos, Vec3i { x: 6, y: 0, z: 0 });
    assert!(arena[0].move_to.is_some());

    // 3-4-5 triangle scaled by 100: distance 500.
    // step_x = 300 * 400 * 16 / (1000 * 500) = 3 (3.84 rounded toward 0)
    // step_y = 400 * 400 * 16 / (1000 * 500) = 5 (5.12 rounded toward 0)
    let mut arena = vec![mover(0, 0, 0, 300, 400, 0, 400)];
    handle_move_to(16, &mut arena);
    assert_eq!(arena[0].pos, Vec3i { x: 3, y: 5, z: 0 });
}

#[test]
fn negative_direction_steps_toward_the_target() {
    let mut arena = vec![mover(1000, 0, 0, 0, 0, 0, 400)];
    handle_move_to(16, &mut arena);
    assert_eq!(arena[0].pos, Vec3i { x: 994, y: 0, z: 0 });
}

#[test]
fn repeated_frames_arrive_and_detach() {
    let mut arena = vec![mover(0, 0, 0, 640, 0, 0, 400)];
    let mut frames = 0;
    while arena[0].move_to.is_some() {
        handle_move_to(100, &mut arena);
        frames += 1;
        assert!(frames < 100, "move never terminated");
    }
    assert_eq!(arena[0].pos, Vec3i { x: 640, y: 0, z: 0 });
}

#[test]
fn entities_without_a_move_are_untouched() {
    let mut arena = vec![EntityRec::plain(Vec3i { x: 7, y: 8, z: 9 })];
    handle_move_to(16, &mut arena);
    assert_eq!(arena[0].pos, Vec3i { x: 7, y: 8, z: 9 });
}

fn flipper(progress: i64) -> EntityRec {
    let mut e = EntityRec::plain(Vec3i { x: 0, y: 0, z: 0 });
    e.card = Some(Card {
        rank: Rank::Ace,
        suit: Suit::Spades,
        flipped: true,
    });
    e.face = CardFace::Back;
    e.flipping = Some(Flipping {
        speed: FLIP_SPEED,
        flipped: false,
        progress,
    });
    e
}

#[test]
fn face_swaps_exactly_once_at_the_half_turn() {
    let mut arena = vec![flipper(0)];
    // 200 ms at 3 pi/s: progress 1_884_955, past pi/2, short of pi.
    handle_flip(200, &mut arena);
    let e = arena[0];
    assert!(e.flipping.is_some());
    let f = e.flipping.unwrap();
    assert!(f.flipped, "latch must be set after the half turn");
    assert!(f.progress >= HALF_TURN && f.progress < FULL_TURN);
    assert_eq!(e.rotation, f.progress);
    assert_eq!(e.face, CardFace::Front);
    assert!(!e.card.unwrap().flipped);
    assert_eq!(e.scale_x, -SCALE_ONE);

    // A second frame still past pi/2 must not swap again.
    handle_flip(50, &mut arena);
    let e = arena[0];
    assert_eq!(e.face, CardFace::Front);
    assert!(!e.card.unwrap().flipped);
    assert_eq!(e.scale_x, -SCALE_ONE);
}

#[test]
fn full_turn_restores_identity_and_detaches() {
    let mut arena = vec![flipper(0)];
    handle_flip(200, &mut arena);
    handle_flip(50, &mut arena);
    handle_flip(100, &mut arena);
    let e = arena[0];
    assert!(e.flipping.is_none());
    assert_eq!(e.rotation, 0);
    assert_eq!(e.scale_x, SCALE_ONE);
    assert_eq!(e.face, CardFace::Front);
    assert!(!e.card.unwrap().flipped);
}

#[test]
fn one_long_frame_swaps_and_completes_in_one_pass() {
    let mut arena = vec![flipper(0)];
    // 400 ms at 3 pi/s: progress 3_769_911, past a full turn at once.
    handle_flip(400, &mut arena);
    let e = arena[0];
    assert!(e.flipping.is_none());
    assert_eq!(e.rotation, 0);
    assert_eq!(e.scale_x, SCALE_ONE);
    assert_eq!(e.face, CardFace::Front);
    assert!(!e.card.unwrap().flipped);
}

#[test]
fn short_frames_below_half_turn_do_not_swap() {
    let mut arena = vec![flipper(0)];
    handle_flip(50, &mut arena); // progress 471_238
    let e = arena[0];
    assert_eq!(e.face, CardFace::Back);
    assert!(e.card.unwrap().flipped);
    assert_eq!(e.scale_x, SCALE_ONE);
    assert!(!e.flipping.unwrap().flipped);
    assert_eq!(e.rotation, 471_238);
}

#[test]
fn integer_square_root_is_exact() {
    assert_eq!(isqrt64(0), 0);
    assert_eq!(isqrt64(1), 1);
    assert_eq!(isqrt64(99), 9);
    assert_eq!(isqrt64(100), 10);
    assert_eq!(isqrt64(101), 10);
    assert_eq!(isqrt64(249_999), 499);
    assert_eq!(isqrt64(250_000), 500);
    assert_eq!(isqrt64(u64::MAX), 4_294_967_295);
}
