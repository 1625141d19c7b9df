use metaballs::engine::{Action, Metaballs, UpdateError, BUFFER_HEIGHT, BUFFER_WIDTH};

#[test]
fn setup_canonical_state() {
    let m = Metaballs::setup();
    assert_eq!(m.player_pos(), (240, 360));
    assert_eq!(m.source_pos(1), Ok((640, 360)));
    assert_eq!(m.source_pos(2), Ok((865, 360)));
    let buf = m.buffer();
    assert_eq!(buf.len(), BUFFER_WIDTH * BUFFER_HEIGHT);
    let bg = buf[0];
    assert_eq!((bg.r, bg.g, bg.b), (0x11, 0x11, 0x1B));
    assert!(buf.iter().all(|p| (p.r, p.g, p.b) == (0x11, 0x11, 0x1B)));
}

#[test]
fn well_formedness_check() {
    let m = Metaballs::setup();
    assert!(m.wf_check());
}

#[test]
fn move_to_then_read() {
    let mut m = Metaballs::setup();
    let r = m.apply_actions(&vec![Action::MoveTo { id: 0, x: 100, y: 200 }], 1000);
    assert_eq!(r, Ok(()));
    assert_eq!(m.player_pos(), (100, 200));
    // the player is clamped to the drawable area
    let r = m.apply_actions(&vec![Action::MoveTo { id: 0, x: -50, y: 5000 }], 1000);
    assert_eq!(r, Ok(()));
    assert_eq!(m.player_pos(), (0, BUFFER_HEIGHT as i32));
    // other sources are set exactly, with no clamp
    let r = m.apply_actions(&vec![Action::MoveTo { id: 1, x: 2000, y: -100 }], 1000);
    assert_eq!(r, Ok(()));
    assert_eq!(m.source_pos(1), Ok((2000, -100)));
}

#[test]
fn move_by_scales_with_dt() {
    let mut m = Metaballs::setup();
    // dt = 0.5 in thousandths: deltas are halved, truncated towards zero
    let r = m.apply_actions(&vec![Action::MoveBy { id: 0, x: 11, y: -11 }], 500);
    assert_eq!(r, Ok(()));
    assert_eq!(m.player_pos(), (240 + 5, 360 - 5));
    // dt = 0 produces no motion
    let r = m.apply_actions(&vec![Action::MoveBy { id: 0, x: 100, y: 100 }], 0);
    assert_eq!(r, Ok(()));
    assert_eq!(m.player_pos(), (245, 355));
}

#[test]
fn move_by_is_additive() {
    let mut a = Metaballs::setup();
    let mut b = Metaballs::setup();
    let two = vec![
        Action::MoveBy { id: 0, x: 10, y: 5 },
        Action::MoveBy { id: 0, x: 20, y: -3 },
    ];
    let one = vec![Action::MoveBy { id: 0, x: 30, y: 2 }];
    assert_eq!(a.apply_actions(&two, 1000), Ok(()));
    assert_eq!(b.apply_actions(&one, 1000), Ok(()));
    assert_eq!(a.player_pos(), b.player_pos());
    assert_eq!(a.player_pos(), (270, 362));
}

#[test]
fn invalid_id_changes_nothing() {
    let mut m = Metaballs::setup();
    let before = m.buffer().clone();
    let batch = vec![
        Action::MoveTo { id: 0, x: 10, y: 10 },
        Action::MoveBy { id: 7, x: 1, y: 1 },
    ];
    let r = m.update(&batch, 1000);
    assert_eq!(r, Err(UpdateError::InvalidSourceId));
    // the whole batch was refused: even the valid first action did not apply
    assert_eq!(m.player_pos(), (240, 360));
    assert_eq!(m.source_pos(2), Ok((865, 360)));
    assert_eq!(m.buffer().len(), before.len());
    assert!(m.buffer().iter().zip(before.iter()).all(|(p, q)| p == q));
    assert_eq!(m.source_pos(9), Err(UpdateError::InvalidSourceId));
}

#[test]
fn empty_batch_redraw_is_idempotent() {
    let mut m = Metaballs::setup();
    m.draw();
    let first = m.buffer().clone();
    assert_eq!(m.apply_actions(&vec![], 0), Ok(()));
    m.draw();
    assert!(m.buffer().iter().zip(first.iter()).all(|(p, q)| p == q));
}

#[test]
fn orbit_returns_after_full_turn() {
    let mut m = Metaballs::setup();
    let start = m.source_pos(2).unwrap();
    assert_eq!(start, (865, 360));
    for step in 0..180 {
        m.advance_orbit();
        if step == 44 {
            // a quarter turn: the planet stands due south of the sun
            assert_eq!(m.source_pos(2).unwrap(), (640, 360 + 225));
        }
    }
    assert_eq!(m.source_pos(2).unwrap(), start);
    // the player was never touched by the autonomous motion
    assert_eq!(m.player_pos(), (240, 360));
}

#[test]
fn update_renders_frame() {
    let mut m = Metaballs::setup();
    assert_eq!(m.update(&vec![], 1000), Ok(()));
    // the orbit advanced one step of two degrees
    assert_eq!(m.source_pos(2).unwrap(), (864, 367));
    let buf = m.buffer();
    // the far corner is out of reach of all three fields: background
    let corner = buf[0];
    assert_eq!((corner.r, corner.g, corner.b), (0x11, 0x11, 0x1B));
    // at the sun's own pixel the sun dominates a saturated warm blend
    let center = buf[360 * BUFFER_WIDTH + 640];
    assert_eq!((center.r, center.g, center.b), (255, 212, 206));
}
