use rsi_terminal::frames::{Frames, Rendered};

fn fresh() -> Frames {
    Frames::new(None, 80, 24, false, false)
}

#[test]
fn one_frame_is_drawn_at_a_time() {
    let mut frames = fresh();
    let asked = frames.tick(7, false, 80, 24, 0).unwrap().unwrap();
    assert_eq!(asked.identity.attachment, 7);
    assert_eq!(asked.identity.presentation, 1);
    assert_eq!(asked.identity.revision, 1);
    frames.draw(asked);
    frames.touch();
    assert!(frames.tick(7, true, 80, 24, 1).unwrap().is_none());
    assert!(matches!(frames.rendered(7, 80, 24, Ok(true), 2), Rendered::Show));
    let next = frames.tick(7, false, 80, 24, 3).unwrap().unwrap();
    assert_eq!(next.identity.revision, 2);
}

#[test]
fn a_frame_for_something_else_is_dropped() {
    let mut frames = fresh();
    let asked = frames.tick(7, false, 80, 24, 0).unwrap().unwrap();
    frames.draw(asked);
    assert!(matches!(frames.rendered(8, 80, 24, Ok(true), 1), Rendered::Stale));
    assert!(frames.dirty);
    let asked = frames.tick(8, false, 80, 24, 2).unwrap().unwrap();
    frames.draw(asked);
    assert_eq!(frames.navigated(true, false), Ok(true));
    assert!(frames.rendering.is_none());
    assert!(!frames.is_wanted(&asked, 8, 80, 24));
    assert!(!frames.is_taken(&asked.identity, 8));
    assert_eq!(frames.navigated(true, false), Ok(false));
    frames.presentation = u64::MAX;
    assert!(frames.presentation_changed().is_err());
}

#[test]
fn a_failed_frame_is_drawn_again_later() {
    let mut frames = fresh();
    let asked = frames.tick(7, false, 80, 24, 0).unwrap().unwrap();
    frames.draw(asked);
    let told = frames.rendered(7, 80, 24, Ok(false), 100);
    assert!(matches!(told, Rendered::Failed(s) if s == "Renderer returned a stale source map"));
    assert!(frames.tick(7, true, 80, 24, 349).unwrap().is_none());
    assert!(frames.tick(7, false, 80, 24, 350).unwrap().is_some());
    frames.fail(400);
    assert!(frames.tick(7, true, 80, 24, 649).unwrap().is_none());
    assert!(frames.presentation_changed().is_ok());
    assert!(frames.tick(7, false, 80, 24, 649).unwrap().is_some());
}
