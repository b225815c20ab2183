use rsi_terminal::recovery::{failure_frame, Identity, Recovery};

const IDENTITY: Identity = Identity { attachment: 1, presentation: 2, revision: 3 };

#[test]
fn failed_replacement_does_not_relabel_cells_from_an_old_presentation() {
    let mut previous = failure_frame(IDENTITY, 80, 24, None, "old");
    previous.cells[0].symbol = "Z".to_owned();
    let retained = failure_frame(IDENTITY, 80, 24, Some(&previous), "same");
    assert_eq!(retained.cells[0].symbol, "Z");
    previous.identity.presentation = 1;
    let replaced = failure_frame(IDENTITY, 80, 24, Some(&previous), "new");
    assert_eq!(replaced.cells[0].symbol, " ");
}

#[test]
fn failure_retries_without_input_but_does_not_spin() {
    let mut recovery = Recovery::new();
    assert!(recovery.ready(0));
    recovery.failed(0);
    assert!(!recovery.ready(0));
    assert!(!recovery.ready(249));
    assert!(recovery.ready(250));
    recovery.failed(250);
    recovery.reset();
    assert!(recovery.ready(250));
}

#[test]
fn diagnostic_is_visible_without_a_renderer_and_has_no_source_authority() {
    let frame = failure_frame(IDENTITY, 80, 24, None, "fixture failed");
    let text: String = frame.cells.iter().map(|cell| cell.symbol.as_str()).collect();
    assert!(text.contains("Renderer: fixture failed"));
    assert_eq!(frame.identity.attachment, 1);
    assert_eq!(frame.identity.revision, 3);
    assert!(frame.shown.choices.is_empty());
    assert!(frame.shown.completion.is_none());
    assert_eq!(frame.shown.scroll_max, 0);
    assert!(frame.around.dialog.is_none());
    assert!(!frame.around.belongs);
    assert!(frame.around.footer.is_empty());
}

#[test]
fn wide_characters_stay_within_narrow_rows() {
    for width in [1, 2, 3] {
        let frame = failure_frame(IDENTITY, width, 4, None, &"界".repeat(50));
        assert_eq!(frame.cells.len(), usize::from(width) * 4);
    }
    let frame = failure_frame(IDENTITY, 0, 0, None, "nothing");
    assert!(frame.cells.is_empty());
}

#[test]
fn a_diagnostic_stands_in_the_last_rows() {
    let frame = failure_frame(IDENTITY, 10, 3, None, "ok");
    assert_eq!(frame.cells.len(), 30);
    let first: String = frame.cells[..10].iter().map(|cell| cell.symbol.as_str()).collect();
    assert_eq!(first, " ".repeat(10));
    let rest: String = frame.cells[10..].iter().map(|cell| cell.symbol.as_str()).collect();
    assert!(rest.starts_with("Renderer:"));
}
