use rsi_terminal::keys::{KeyCode, KeyEvent, MouseEvent, MouseKind};
use rsi_terminal::scene::{Area, Scene, Shown};
use rsi_terminal::setup::{
    command, make_limits, Candidate, Command, Definition, Limits, ModelRef, ProviderKind,
    Selection,
};
use rsi_terminal::setup_ui::{
    Availability, Choice, CredentialStatus, Field, Integration, Opening, Operation, Rulings,
    Snapshot, Stage, StoreFailure, Ui, Update,
};

fn plain(code: KeyCode) -> KeyEvent {
    KeyEvent::plain(code)
}

fn control(code: char) -> KeyEvent {
    KeyEvent::control(KeyCode::Char(code))
}

/// Nothing is refused, and nothing is known of a model.
fn fine() -> Rulings {
    Rulings {
        value: None,
        request: None,
        route: None,
        limits: None,
        effort: None,
        unreadable: "unreadable".to_owned(),
        context: None,
        output: None,
        secret: true,
    }
}

fn route(model: &str) -> ModelRef {
    ModelRef { deployment: "test".to_owned(), model: model.to_owned() }
}

fn definition(provider: ProviderKind, deployment: &str, endpoint: &str) -> Definition {
    Definition {
        provider,
        base: None,
        deployment: Some(deployment.to_owned()),
        endpoint: Some(endpoint.to_owned()),
        slot: Some("default".to_owned()),
        models: Vec::new(),
        efforts: Vec::new(),
    }
}

fn known(providers: Vec<Definition>) -> Snapshot {
    Snapshot {
        allowed: true,
        providers: Some(providers),
        credential: None,
        receipts: Vec::new(),
    }
}

fn status(availability: Availability, editable: bool) -> CredentialStatus {
    CredentialStatus {
        availability,
        editable,
        store_path: Some("/host/config/credentials/credentials.json".to_owned()),
    }
}

fn denied() -> Availability {
    Availability::Unavailable {
        failure: StoreFailure::Permissions,
        reason: "credential store permissions".to_owned(),
    }
}

fn shown(revision: u64, rows: usize) -> Shown {
    let area = Area { x: 0, y: 0, width: 42, height: 12 };
    Shown {
        choice_revision: revision,
        area,
        choices_area: area,
        choices: (0..rows).map(|index| (index as u16 + 2, index)).collect(),
        scroll_max: 0,
        completion: None,
    }
}

fn encoded(scene: &Scene) -> String {
    format!("{scene:?}")
}

#[test]
fn inline_count_describes_the_filtered_catalog_not_the_display_window() {
    let mut ui = Ui::new(false);
    ui.menu(
        "Models",
        (0..300)
            .map(|i| (format!("model-{i:03}"), Choice::Route(route(&format!("model-{i}")))))
            .collect(),
    );
    ui.prefix = Some("/model ".to_owned());
    ui.selected = 280;
    let scene = ui.scene();
    assert_eq!(scene.title, "Models · 281/300");
    assert_eq!(scene.items.len(), 256);
    ui.editor.replace_text("model-29").unwrap();
    ui.selected = 0;
    assert_eq!(ui.scene().title, "Models · 1/10");
}

#[test]
fn direct_effort_picker_preserves_model_highlights_choice_and_clears_override() {
    for supported in [vec![], vec!["high".to_owned()]] {
        let mut ui = Ui::new(false);
        ui.active = true;
        ui.attached = true;
        let effort = supported.first().cloned();
        ui.effort_selection = Some(Selection { model: route("current"), effort: effort.clone() });
        ui.pending = true;
        ui.next(
            Ok(Update::Efforts {
                model: route("current"),
                supported: supported.clone(),
                default: effort,
            }),
            Snapshot::blank(),
            &fine(),
        );
        let Stage::Menu(choices) = ui.stage() else {
            panic!("effort choices")
        };
        assert_eq!(choices.len(), supported.len() + 1);
        assert_eq!(ui.selected, supported.len());
        assert!(ui.chosen.is_none(), "reading effort choices must not mutate selection");
        let label = choices[ui.selected].0.clone();
        let default = choices[0].1.clone();
        ui.key(plain(KeyCode::Tab), &fine());
        assert_eq!(ui.text(), label);
        assert!(ui.chosen.is_none(), "Tab fills a choice without applying it");
        assert_eq!(ui.prefix.as_deref(), Some("/effort "));
        ui.take_choice(default, false, &fine()).unwrap();
        let selected = ui.take_chosen().unwrap();
        assert_eq!(selected.model.model, "current");
        assert_eq!(selected.effort, None);
        assert!(!ui.pending());
        assert!(!ui.active());
    }
}

#[test]
fn model_selection_requires_effort_and_escape_restores_model_filter() {
    for key in [KeyCode::Enter, KeyCode::Tab] {
        for supported in [vec![], vec!["high".to_owned()]] {
            let mut ui = Ui::new(false);
            ui.active = true;
            ui.attached = true;
            ui.menu(
                "Choose model",
                vec![("model-a".to_owned(), Choice::Route(route("model-a")))],
            );
            ui.prefix = Some("/model ".to_owned());
            ui.editor.replace_text("model-a").unwrap();
            let asked = ui.key(plain(key), &fine());
            assert!(matches!(asked, Some(Operation::Describe(_))));
            assert!(ui.pending());
            assert!(ui.chosen.is_none());
            assert_eq!(ui.prefix.as_deref(), Some("/model model-a "));
            ui.next(
                Ok(Update::Efforts {
                    model: route("model-a"),
                    supported: supported.clone(),
                    default: None,
                }),
                Snapshot::blank(),
                &fine(),
            );
            assert!(ui.chosen.is_none());
            assert_eq!(ui.indices().len(), supported.len() + 1);
            ui.key(plain(KeyCode::Tab), &fine());
            assert!(ui.chosen.is_none());
            ui.key(plain(KeyCode::Escape), &fine());
            assert_eq!(ui.title(), "Choose model");
            assert_eq!(ui.text(), "model-a");
            assert_eq!(ui.prefix.as_deref(), Some("/model "));
            assert!(ui.chosen.is_none());
            ui.key(plain(KeyCode::Escape), &fine());
            assert!(!ui.active());
        }
    }
}

#[test]
fn full_context_output_capacity_requires_an_explicit_smaller_execution_limit() {
    let mut ui = Ui::new(false);
    ui.candidate = Some(Candidate { id: "model".to_owned(), context: Some(10), output: Some(10) });
    ui.limits(&fine()).unwrap();
    assert!(matches!(ui.stage(), Stage::Text(Field::Output)));
    assert!(ui.title().contains("less than context"));
    assert!(ui.text().is_empty());
    assert!(!ui.pending());
    assert_eq!(ui.candidate().unwrap().output, Some(10));
}

#[test]
fn unavailable_credentials_show_recovery_without_an_editable_cursor() {
    let mut ui = Ui::new(false);
    ui.stage = Stage::Secret;
    ui.credential = Some(status(denied(), false));
    let scene = ui.scene();
    assert!(scene.field.is_none());
    assert!(scene.detail.as_ref().unwrap().contains("permissions"));
    assert!(scene.hint.contains("retry"));
    ui.key(plain(KeyCode::Enter), &fine());
    assert!(!ui.status().contains("Enter a key"));
    assert!(!ui.pending());
    assert!(!ui.mutation);
    assert!(!ui.has_secret());
}

#[test]
fn closed_write_is_observed_on_reopen_without_followup_or_replay() {
    for fail in [false, true] {
        let mut ui = Ui::new(false);
        ui.active = true;
        ui.mutation = true;
        ui.pending = true;
        if fail {
            ui.attachment_changed();
        } else {
            ui.key(control('c'), &fine());
        }
        assert!(!ui.active());
        assert!(ui.pending());
        assert!(ui.notice().contains("Save pending"));
        assert!(ui.open(Opening::Models, true).is_none());
        assert!(ui.active());
        assert!(ui.pending());
        let reply = if fail {
            Err("Outcome unknown".to_owned())
        } else {
            Ok(Update::Saved(route("model")))
        };
        assert!(ui.next(reply, Snapshot::blank(), &fine()).is_none());
        assert!(ui.chosen.is_none());
        assert!(!ui.pending());
        assert!(
            matches!(ui.stage(), Stage::Menu(items) if matches!(items.as_slice(), [(_, Choice::Refresh)]))
        );
        assert!(ui.status().contains(if fail { "Outcome unknown" } else { "no follow-up" }));
        assert_eq!(ui.notice(), ui.status());
    }
}

#[test]
fn closing_setup_without_a_pending_save_does_not_repeat_screen_status() {
    let mut ui = Ui::new(false);
    ui.active = true;
    ui.status = "Loading configuration…".to_owned();
    ui.close();
    assert!(ui.notice().is_empty());
}

#[test]
fn connection_shortcut_returns_to_secret_without_recovering_unsaved_key() {
    let mut ui = Ui::new(false);
    ui.definition =
        Some(definition(ProviderKind::Deepseek, "deepseek", "https://api.deepseek.com"));
    ui.stage = Stage::Secret;
    ui.active = true;
    ui.secret_insert("unsaved-fixture-key").unwrap();
    ui.key(control('e'), &fine());
    assert!(matches!(ui.stage(), Stage::Text(Field::Name)));
    assert!(!ui.has_secret());
    ui.key(plain(KeyCode::Escape), &fine());
    assert!(matches!(ui.stage(), Stage::Secret));
    assert!(!ui.has_secret());
    assert!(ui.credential.is_none());
}

#[test]
fn back_from_renaming_an_existing_connection_restores_its_definition() {
    let mut ui = Ui::new(false);
    let original = definition(ProviderKind::OpenaiCompatible, "original", "http://127.0.0.1/v1");
    ui.view.providers = Some(vec![original.clone()]);
    ui.definition = Some(original.clone());
    ui.existing = true;
    ui.editing_connection = true;
    ui.field("Deployment name", Field::Name, "renamed".to_owned());
    ui.key(plain(KeyCode::Enter), &fine());
    assert_eq!(ui.definition().unwrap().deployment.as_deref(), Some("renamed"));
    ui.key(plain(KeyCode::Escape), &fine());
    let restored = ui.definition().unwrap();
    assert_eq!(restored.deployment, original.deployment);
    assert_eq!(restored.endpoint, original.endpoint);
    assert_eq!(restored.slot, original.slot);
    ui.editor.replace_text("original").unwrap();
    ui.key(plain(KeyCode::Enter), &fine());
    assert!(matches!(ui.stage(), Stage::Text(Field::Endpoint)));
    assert!(ui.status().is_empty());
    assert_eq!(ui.definition().unwrap().slot.as_deref(), Some("default"));
}

#[test]
fn credential_availability_and_secret_paste_follow_effective_source() {
    let mut ui = Ui::new(false);
    ui.stage = Stage::Secret;
    ui.credential = Some(status(Availability::Missing, true));
    assert!(ui.submit_secret(&fine()).unwrap_err().contains("No available"));
    ui.paste("  fixture-key\n".to_owned());
    assert_eq!(ui.secret, "fixture-key");
    ui.secret.clear();
    ui.paste("bad\nkey".to_owned());
    assert!(!ui.has_secret());
    ui.credential = Some(status(denied(), false));
    ui.paste("unaccepted".to_owned());
    assert!(!ui.has_secret());
    assert!(ui.status().contains("read only"));
}

#[test]
fn capacity_error_can_return_to_context_and_does_not_mutate_invalid_output() {
    let mut ui = Ui::new(false);
    ui.candidate = Some(Candidate { id: "unknown".to_owned(), context: None, output: None });
    ui.field("Context", Field::Context, "10".to_owned());
    ui.key(plain(KeyCode::Enter), &fine());
    ui.paste("11".to_owned());
    let mut refused = fine();
    refused.limits = Some("output must be less than context".to_owned());
    ui.key(plain(KeyCode::Enter), &refused);
    assert!(ui.candidate().unwrap().output.is_none());
    assert!(!ui.status().is_empty());
    ui.key(plain(KeyCode::Escape), &fine());
    assert!(matches!(ui.stage(), Stage::Text(Field::Context)));
    assert_eq!(ui.text(), "10");
    assert!(ui.status().is_empty());
    ui.editor.replace_text("100").unwrap();
    ui.key(plain(KeyCode::Enter), &fine());
    assert_eq!(ui.candidate().unwrap().context, Some(100));
}

#[test]
fn regression_secret_clear_and_field_error_lifetime() {
    let mut ui = Ui::new(false);
    ui.stage = Stage::Secret;
    ui.paste("fixture-private-key".to_owned());
    ui.key(control('u'), &fine());
    assert!(!ui.has_secret(), "Ctrl+U must erase the secret");
    ui.status = "old URL error".to_owned();
    ui.field("Model", Field::Model, String::new());
    assert!(ui.status().is_empty(), "errors must not cross steps");
}

#[test]
fn regression_multiline_application_command_is_literal() {
    assert!(command("/login\ndeepseek", true).is_none());
    assert!(command("/model\n", true).is_none());
}

#[test]
fn manual_effort_declaration_is_optional_bounded_and_keeps_exact_ids() {
    let mut ui = Ui::new(false);
    ui.attached = true;
    ui.save_default = true;
    ui.declare_effort = true;
    let mut manual = definition(ProviderKind::OpenaiCompatible, "manual", "");
    manual.endpoint = None;
    manual.slot = None;
    ui.definition = Some(manual);
    let limits = Limits { context: 8192, default_output: 1024, max_output: 2048 };
    ui.save("unknown", limits, &fine()).unwrap();
    assert!(matches!(ui.stage(), Stage::Text(Field::Efforts)));
    assert!(!ui.pending());
    let many = (0..17).map(|i| format!("e{i}")).collect::<Vec<_>>().join(",");
    let long = "e".repeat(33);
    for text in ["low,low", "高", "bad effort", long.as_str(), many.as_str()] {
        ui.editor.replace_text(text).unwrap();
        let mut refused = fine();
        refused.value = Some("invalid effort IDs".to_owned());
        assert!(ui.submit_field(Field::Efforts, &refused).is_err());
    }
    ui.editor.replace_text("off, max").unwrap();
    ui.submit_field(Field::Efforts, &fine()).unwrap();
    let Stage::Menu(items) = ui.stage() else {
        panic!("declared defaults")
    };
    assert_eq!(
        items.iter().map(|(name, _)| name.as_str()).collect::<Vec<_>>(),
        vec!["Default unknown", "off", "max"]
    );
    let result = ui.take_choice(Choice::EffortDefault(Some("max".to_owned())), false, &fine());
    assert!(
        result.unwrap_err().contains("Setup unavailable"),
        "this isolated form has no write capability"
    );
    assert!(ui.saves_default());
    let profile = ui.definition().unwrap().effort("unknown").unwrap();
    assert_eq!(profile.default.as_deref(), Some("max"));
    assert_eq!(profile.supported, vec!["off".to_owned(), "max".to_owned()]);
}

#[test]
fn reopening_and_entering_a_manual_model_does_not_reuse_default_save_intent() {
    let mut ui = Ui::new(false);
    ui.active = true;
    ui.attached = true;
    ui.discovery_menu(Vec::new());
    ui.selected = 1;
    ui.key(control('s'), &fine());
    assert!(ui.saves_default());
    ui.key(plain(KeyCode::Escape), &fine());
    ui.open(Opening::Models, true);
    ui.view.providers =
        Some(vec![definition(ProviderKind::OpenaiCompatible, "test", "http://127.0.0.1/v1")]);
    ui.pending = true;
    ui.next(Ok(Update::Open(Opening::Models, Vec::new())), Snapshot::blank(), &fine());
    ui.key(plain(KeyCode::Enter), &fine());
    ui.key(plain(KeyCode::Down), &fine());
    ui.key(plain(KeyCode::Enter), &fine());
    ui.paste("unknown-model".to_owned());
    ui.key(plain(KeyCode::Enter), &fine());
    assert!(matches!(ui.stage(), Stage::Text(Field::Context)));
    assert!(!ui.saves_default());
}

#[test]
fn a_replaced_menu_rejects_hits_from_the_previous_contents() {
    let mut ui = Ui::new(false);
    let refresh = |a: &str, b: &str| {
        vec![(a.to_owned(), Choice::Refresh), (b.to_owned(), Choice::Refresh)]
    };
    ui.menu("Models", refresh("old-a", "old-b"));
    let old_view = shown(ui.scene().revision, 2);
    let row = old_view.choices.iter().find(|(_, index)| *index == 1).unwrap().0;
    ui.menu("Models", refresh("new-a", "new-b"));
    let press = MouseEvent { kind: MouseKind::LeftDown, column: 0, row };
    ui.mouse(press, &old_view);
    assert_eq!(ui.selected, 0, "a stale rendered row must not select the replacement menu");
    let current_view = shown(ui.scene().revision, 2);
    ui.mouse(press, &current_view);
    assert_eq!(ui.selected, 1);
}

#[test]
fn full_configured_catalog_plus_deployment_actions_fits_application_scene() {
    let mut ui = Ui::new(true);
    let providers = (0..64)
        .map(|i| definition(ProviderKind::Deepseek, &format!("provider-{i}"), ""))
        .collect();
    let routes = (0..4096).map(|i| route(&format!("model-{i}"))).collect();
    ui.next(Ok(Update::Open(Opening::Models, routes)), known(providers), &fine());
    assert!(matches!(ui.stage(), Stage::Menu(items) if items.len() == 4161));
    assert!(ui.scene().items.len() <= 256);
}

#[test]
fn maximum_length_routes_and_provider_actions_remain_visible_within_scene_budget() {
    let mut ui = Ui::new(true);
    let id = |prefix: char, n: usize| format!("{}{n:04}", prefix.to_string().repeat(251));
    let providers =
        (0..64).map(|i| definition(ProviderKind::Deepseek, &id('p', i), "")).collect();
    let routes = (0..4096)
        .map(|i| ModelRef { deployment: id('d', i / 256), model: id('m', i) })
        .collect();
    ui.next(Ok(Update::Open(Opening::Models, routes)), known(providers), &fine());
    for selected in [0, 2048, 4095, 4160] {
        ui.selected = selected;
        let scene = ui.scene();
        let Stage::Menu(items) = ui.stage() else {
            panic!("setup menu")
        };
        assert_eq!(items.len(), 4161);
        assert_eq!(scene.items[scene.selected], items[selected].0);
        let view = shown(scene.revision, 8);
        let (row, index) = view.choices[0];
        let expected = scene.items[index].clone();
        ui.mouse(MouseEvent { kind: MouseKind::LeftDown, column: 2, row }, &view);
        let Stage::Menu(items) = ui.stage() else {
            panic!("setup menu")
        };
        assert_eq!(
            items[ui.indices()[ui.selected]].0, expected,
            "the renderer index is relative to the captured 256-item slice"
        );
    }
}

#[test]
fn secret_entry_reserves_its_bound_before_storing_any_characters() {
    let mut ui = Ui::new(false);
    for _ in 0..2 {
        ui.secret_insert("a").unwrap();
        assert!(ui.secret.capacity() >= 64 * 1024);
        assert!(ui.reserved >= 64 * 1024);
        let allocation = ui.secret.as_ptr();
        ui.secret_insert(&"x".repeat(64 * 1024 - 1)).unwrap();
        assert_eq!(allocation, ui.secret.as_ptr());
        assert!(ui.secret_insert("overflow").is_err());
        drop(std::mem::take(&mut ui.secret));
    }
}

#[test]
fn application_commands_are_exact_and_never_accept_a_key_argument() {
    assert!(matches!(
        command(" /login openai ", true),
        Some(Command::Login(Some(ProviderKind::Openai)))
    ));
    assert!(matches!(command("/login openai secret", true), Some(Command::Invalid)));
    assert!(matches!(command("/model", true), Some(Command::Models)));
    assert!(matches!(command(" /effort ", true), Some(Command::Effort)));
    assert!(matches!(command("/effort high", true), Some(Command::Invalid)));
    assert!(command("/efforts", true).is_none());
    for text in ["/models", "/model-extra", "/compact", "ordinary message"] {
        assert!(command(text, true).is_none());
    }
}

#[test]
fn failed_write_requires_refresh_but_failed_discovery_allows_manual_entry() {
    let mut ui = Ui::new(false);
    ui.active = true;
    ui.mutation = true;
    ui.pending = true;
    ui.definition = Some(definition(ProviderKind::Deepseek, "stale", ""));
    let screen = ui.screen();
    ui.back.push(screen);
    ui.next(Err("Outcome unknown".to_owned()), Snapshot::blank(), &fine());
    assert!(
        matches!(ui.stage(), Stage::Menu(items) if matches!(items.as_slice(), [(_, Choice::Refresh)]))
    );
    assert!(ui.back.is_empty());
    assert!(ui.definition().is_none());
    assert!(!ui.pending());
    assert!(ui.chosen.is_none());
    ui.definition = Some(definition(ProviderKind::Deepseek, "", ""));
    ui.pending = true;
    ui.next(Err("HTTP 401".to_owned()), Snapshot::blank(), &fine());
    assert!(
        matches!(ui.stage(), Stage::Menu(items) if items.iter().any(|(_, choice)| matches!(choice, Choice::Manual)))
    );
    ui.definition = None;
    ui.pending = true;
    ui.next(Err("Catalog unavailable".to_owned()), Snapshot::blank(), &fine());
    assert!(
        matches!(ui.stage(), Stage::Menu(items) if matches!(items.as_slice(), [(_, Choice::Refresh)]))
    );
}

#[test]
fn secret_entry_never_enters_scene_editor_or_clipboard_shortcuts() {
    let mut ui = Ui::new(false);
    ui.active = true;
    ui.stage = Stage::Secret;
    ui.paste("private-secret-marker".to_owned());
    assert!(ui.text().is_empty());
    assert!(!encoded(&ui.scene()).contains("private-secret-marker"));
    ui.key(control('u'), &fine());
    assert!(!ui.has_secret());
    assert!(ui.secret_insert("key\nmalformed").is_err());
}

#[test]
fn nonempty_secret_scenes_do_not_disclose_key_length() {
    let mut ui = Ui::new(false);
    ui.stage = Stage::Secret;
    ui.paste("a".to_owned());
    let one = encoded(&ui.scene());
    ui.key(plain(KeyCode::Char('界')), &fine());
    ui.paste("a-much-longer-placeholder-key".to_owned());
    assert_eq!(one, encoded(&ui.scene()));
    assert!(ui.text().is_empty());
    ui.pending = true;
    ui.paste("ignored-secret".to_owned());
    assert!(ui.status().contains("Paste ignored"));
    assert!(!ui.secret.contains("ignored-secret"));
}

#[test]
fn control_s_accepts_either_terminal_case_encoding() {
    for ch in ['s', 'S'] {
        let mut ui = Ui::new(false);
        ui.attached = true;
        ui.stage = Stage::Menu(vec![("route".to_owned(), Choice::Route(route("model")))]);
        ui.key(control(ch), &fine());
        assert!(ui.saves_default());
        assert_eq!(ui.status(), "Loading model capabilities…");
        ui.next(
            Err("invalid model catalog request: test catalog has no model profile".to_owned()),
            Snapshot::blank(),
            &fine(),
        );
        assert!(ui
            .status()
            .starts_with("invalid model catalog request: test catalog has no model profile"));
        assert!(ui.chosen.is_none());
    }
}

#[test]
fn a_new_deployment_is_set_up_from_its_key_to_its_model() {
    let mut ui = Ui::new(true);
    let login = Opening::Login(Some(ProviderKind::Deepseek));
    assert!(matches!(ui.open(login, true), Some(Operation::Open(_))));
    let asked = ui.next(Ok(Update::Open(login, Vec::new())), known(Vec::new()), &fine());
    assert!(matches!(asked, Some(Operation::CredentialStatus { slot, .. }) if slot == "default"));
    let mut snapshot = known(Vec::new());
    snapshot.credential = Some((
        ProviderKind::Deepseek,
        "default".to_owned(),
        status(Availability::Missing, true),
    ));
    ui.next(Ok(Update::CredentialStatus), snapshot, &fine());
    ui.paste("fixture-key".to_owned());
    let asked = ui.key(plain(KeyCode::Enter), &fine());
    assert!(
        matches!(asked, Some(Operation::CredentialSet { secret, .. }) if secret == "fixture-key")
    );
    assert!(!ui.has_secret());
    let asked = ui.next(Ok(Update::Credential), known(Vec::new()), &fine());
    assert!(matches!(asked, Some(Operation::Discover(_))));
    let found = Candidate { id: "chat".to_owned(), context: Some(8192), output: Some(5000) };
    ui.next(Ok(Update::Discovered(vec![found])), known(Vec::new()), &fine());
    let mut rulings = fine();
    rulings.context = Some(8192);
    rulings.output = Some(5000);
    let asked = ui.key(plain(KeyCode::Enter), &rulings);
    let Some(Operation::Save { definition, model }) = asked else {
        panic!("a model is saved")
    };
    assert_eq!(model.model, "chat");
    assert_eq!(definition.limits("chat"), Some(Some(make_limits(8192, 5000))));
    assert_eq!(make_limits(8192, 5000).default_output, 4096);
}

#[test]
fn the_key_of_an_integration_is_saved_only_once_it_can_be() {
    let mut ui = Ui::new(true);
    assert!(matches!(ui.open_integration(Integration::Exa), Some(Operation::ReadIntegration)));
    assert!(ui.secret_insert("early").is_err());
    let read = Update::IntegrationCredential {
        status: Some(status(Availability::Missing, true)),
        saved: false,
    };
    ui.next(Ok(read), Snapshot::blank(), &fine());
    ui.paste("exa-key".to_owned());
    let asked = ui.key(plain(KeyCode::Enter), &fine());
    assert!(matches!(asked, Some(Operation::SetIntegration(secret)) if secret == "exa-key"));
    ui.next(Err("denied".to_owned()), Snapshot::blank(), &fine());
    assert!(ui.status().starts_with("Credential: denied"));
}

#[test]
fn only_the_words_of_a_line_decide() {
    assert!(matches!(command("  /login\t openai ", true), Some(Command::Login(Some(ProviderKind::Openai)))));
    assert!(matches!(command("/login openai", true), Some(Command::Login(Some(ProviderKind::Openai)))));
    assert!(command("/login\nopenai", true).is_none());
    assert!(command("/login\r", true).is_none());
    assert!(command("login", true).is_none());
    assert!(matches!(command("/login nobody", true), Some(Command::Invalid)));
}

#[test]
fn a_replaced_menu_has_other_parts() {
    let mut ui = Ui::new(true);
    let before = {
        let (attempt, menu, title, filter, selected) = ui.parts();
        (attempt, menu, title.to_owned(), filter.to_owned(), selected)
    };
    ui.open(Opening::Login(None), true);
    let (attempt, menu, title, filter, selected) = ui.parts();
    assert_ne!(before, (attempt, menu, title.to_owned(), filter.to_owned(), selected));
}
