use rsi_terminal::actions::{Action, HistoryRequest, PluginsCommand};
use rsi_terminal::editor::Editor;
use rsi_terminal::extensions::{command_menu, command_told, extension_detail, Entry, Named, Projections};
use rsi_terminal::history_search::{show_history, Answer, Asked, Coverage, Hit, Reply};
use rsi_terminal::home::Home;
use rsi_terminal::job_preview::{show, Look, Stream};
use rsi_terminal::lanes::{Lanes, WorkKind};
use rsi_terminal::line_client::LineState;
use rsi_terminal::output::{is_terminal_event, CliEvent};
use rsi_terminal::pages::{markdown_status, message_detail, pending_title, queue_menu, Pending};
use rsi_terminal::plugins::{
    show_plugins, Mcp, Page, Plugin, PluginsView, Server, Servers, Tool,
};
use rsi_terminal::prompts::is_completable;
use rsi_terminal::references::{
    recent_menu, show_reference, source_menu, Listed, Reference, ReferencePage, References,
};
use rsi_terminal::request_details::{
    manifest_text, metrics_text, requests_menu, show_tree_metrics, Content, Cost, Last, Member,
    Metrics, Sent, Tree, Usage,
};
use rsi_terminal::setup::{first_settings, ProviderKind, Setting};
use rsi_terminal::submission::Submission;

fn usage() -> Usage {
    Usage {
        attempts: 3,
        failed: 1,
        input: 100,
        output: 20,
        reported: 2,
        cache_read: Some(5),
        cache_write: None,
        reasoning: None,
        last: Some(Last {
            model: "test/fast".to_owned(),
            effort: Some("high".to_owned()),
            elapsed_ms: Some(1500),
            failed: false,
        }),
        cost: Cost {
            complete: true,
            totals: vec!["0.01 USD".to_owned()],
            missing_price: 0,
            missing_usage: 0,
            missing_breakdown: 0,
            overflow: 0,
        },
    }
}

#[test]
fn metrics_tell_of_models_tokens_and_costs() {
    let told = metrics_text(
        &Metrics { complete: true, usage: usage(), unavailable: None },
        true,
    );
    assert!(told.contains("test/fast"));
    assert!(told.contains("100"));
    assert!(told.contains("0.01 USD"));
    let tree = Tree {
        complete: true,
        membership_complete: true,
        members: vec![Member {
            session: "child".to_owned(),
            through: 9,
            watermark: Some(9),
            complete: true,
        }],
        usage: usage(),
        control: 4,
    };
    assert!(show_tree_metrics(&tree).text.contains("child"));
}

#[test]
fn requests_are_listed_with_their_models() {
    let sent = vec![Sent { seq: 12, model: "fast".to_owned(), effort: None }];
    let menu = requests_menu(&sent, Some(5));
    assert!(matches!(menu.items[0].1, Action::RequestSections(12)));
    assert!(menu.items.iter().any(|item| matches!(item.1, Action::Requests(Some(5)))));
    let content = vec![Content { kind: "text".to_owned(), count: 2, bytes: 30 }];
    let told = manifest_text(12, &content);
    assert!(told.contains("text") && told.contains("30"));
}

fn coverage() -> Coverage {
    Coverage { indexed: 10, observed: 20, omissions: 0, has_more: true }
}

#[test]
fn hits_lead_to_what_they_were_found_in() {
    let reply = Reply::Hits {
        coverage: coverage(),
        hits: vec![Hit {
            id: 3,
            kind: "user".to_owned(),
            sequence: 7,
            preview: "found it".to_owned(),
        }],
        next: Some(8),
    };
    let last = Some(Asked { scope: 9, query: 5 });
    let Answer::Detail(detail) = show_history(&reply, 1, Some(2), last) else {
        panic!("hits are listed")
    };
    assert!(detail.text.contains("found it"));
    let menu = detail.actions.unwrap();
    assert!(menu.items.iter().any(|item| matches!(
        item.1,
        Action::History(HistoryRequest::Read { scope: 1, hit: 3, .. })
    )));
    let asked = |label: &str| menu.items.iter().find(|item| item.0 == label).unwrap().1;
    assert!(matches!(
        asked("More matches"),
        Action::History(HistoryRequest::Search { scope: 1, query: 2, after: Some(8) })
    ));
    assert!(matches!(
        asked("Search indexed text"),
        Action::History(HistoryRequest::Search { scope: 9, query: 5, after: None })
    ));
    assert!(matches!(
        asked("Index next batch"),
        Action::History(HistoryRequest::Advance { scope: 1 })
    ));
    let original = Reply::Original {
        hit: 3,
        sequence: 7,
        end: 9,
        offset: 0,
        next_offset: 5,
        has_more: true,
        text: "hello".to_owned(),
    };
    let Answer::Detail(detail) = show_history(&original, 1, None, None) else {
        panic!("the original is shown")
    };
    assert!(detail.text.contains("hello"));
    assert!(matches!(
        detail.next,
        Some(Action::History(HistoryRequest::Read { offset: 5, .. }))
    ));
    assert!(matches!(show_history(&Reply::Frozen(4), 1, None, None), Answer::Preview(4)));
}

#[test]
fn plugins_are_listed_by_page() {
    let view = PluginsView {
        ticket: 17,
        profiles: true,
        session: true,
        target: "host".to_owned(),
        guidance: vec!["Read the guide".to_owned()],
        exa: None,
        mcp: None,
        page: Some(Page {
            desired_revision: "1".to_owned(),
            observed_revision: "1".to_owned(),
            health: "healthy".to_owned(),
            watcher: "on".to_owned(),
            offset: 32,
            total: 80,
            availability: "available".to_owned(),
            preset_source: "default".to_owned(),
            digest: None,
            plugins: vec![Plugin {
                instance: "tools".to_owned(),
                origin: "built in".to_owned(),
                reasons: String::new(),
                desired: None,
                enabled: true,
                observed: None,
            }],
            next_offset: Some(64),
        }),
        diagnostic: None,
    };
    let detail = show_plugins(&view);
    assert!(detail.text.contains("tools"));
    assert!(detail.text.contains("Read the guide"));
    assert!(matches!(
        detail.next,
        Some(Action::Plugins(PluginsCommand::Page { ticket: 17, offset: 64 }))
    ));
    assert!(matches!(
        detail.previous,
        Some(Action::Plugins(PluginsCommand::Page { ticket: 17, offset: 0 }))
    ));
}

#[test]
fn what_is_done_about_a_server_names_its_number() {
    let server = Server {
        handle: 40,
        id: "search".to_owned(),
        transport: "Http".to_owned(),
        ready: false,
        error: None,
        epoch: 2,
        verified: Some("0123456789abcdef".to_owned()),
        tools: vec![Tool { name: "find".to_owned(), selected: true }],
        enabled: true,
        slot: Some("key".to_owned()),
    };
    let view = PluginsView {
        ticket: 1,
        profiles: false,
        session: false,
        target: "Host".to_owned(),
        guidance: Vec::new(),
        exa: None,
        mcp: Some(Mcp {
            status: Some(Servers { ready: true, error: None, pending: false, list: vec![server] }),
            notice: None,
        }),
        page: None,
        diagnostic: Some("offline".to_owned()),
    };
    let detail = show_plugins(&view);
    assert!(detail.text.contains("\nsearch · Http · unavailable · epoch 2\n"));
    assert!(detail.text.contains("  Last verified: 0123456789ab\n  [selected] find\n"));
    assert!(detail.text.ends_with("\nUnavailable: offline"));
    let items = detail.actions.unwrap().items;
    let asked = |label: &str| items.iter().find(|item| item.0 == label).unwrap().1;
    assert!(matches!(
        asked("Refresh MCP search"),
        Action::Plugins(PluginsCommand::McpRefresh(Some(40)))
    ));
    assert!(matches!(asked("Credential for search · key"), Action::McpCredential(40)));
    assert!(matches!(
        asked("Remove credential for search"),
        Action::Plugins(PluginsCommand::McpCredentialUnset(40))
    ));
}

fn listed() -> Vec<Listed> {
    vec![Listed { id: 4, name: "one".to_owned(), directory: "/work".to_owned() }]
}

#[test]
fn references_are_previewed_before_they_are_added() {
    let reference = Reference {
        id: 1,
        snapshot: 2,
        source: "one".to_owned(),
        through: 9,
        first: 1,
        last: 9,
        text_bytes: 100,
        omissions: None,
        size: 200,
    };
    let page = ReferencePage {
        text: "quoted".to_owned(),
        offset: 0,
        next_offset: 6,
        has_more: true,
    };
    let detail = show_reference(&reference, &page, &References::new());
    assert!(detail.text.contains("quoted"));
    assert!(matches!(
        detail.next,
        Some(Action::PreviewReference { offset: 6, .. })
    ));
    let menu = detail.actions.unwrap();
    assert!(menu.items.iter().any(|item| matches!(item.1, Action::AddReference(_))));
    let sources = source_menu(&listed(), true, Some(8));
    assert!(matches!(sources.items[0].1, Action::CaptureReference(4)));
    assert!(matches!(sources.items[1].1, Action::ReferenceSources(Some(8))));
    let recent = recent_menu(&listed(), true);
    assert!(matches!(recent.items[0].1, Action::Attach(4)));
    assert_eq!(recent.items[0].0, "one · /work");
    assert!(matches!(recent.items[1].1, Action::MoreRecent));
}

#[test]
fn pending_inputs_are_listed_and_cancelled() {
    let pending = vec![Pending {
        handle: 6,
        id: "m".to_owned(),
        delivery: "next turn".to_owned(),
        target: "session".to_owned(),
    }];
    assert!(queue_menu(&pending)
        .items
        .iter()
        .any(|item| matches!(item.1, Action::Message(6))));
    assert!(pending_title(&pending[0]).contains('m'));
    let detail = message_detail(6, "m", "body");
    assert!(detail.text.contains("body"));
    let menu = detail.actions.unwrap();
    assert!(menu.items.iter().any(|item| matches!(item.1, Action::CancelMessage(6))));
    assert_ne!(markdown_status(true), markdown_status(false));
}

#[test]
fn extensions_and_commands_are_told() {
    let entry = Entry { handle: 6, producer: "p".to_owned(), shown: Ok("{\"a\":1}".to_owned()) };
    let projections = Some(Projections { cursor: "1".to_owned(), entries: vec![entry] });
    assert!(extension_detail(&projections, 6, "").unwrap().contains("{\"a\":1}"));
    assert!(extension_detail(&projections, 7, "").is_none());
    let commands =
        vec![Named { handle: 2, name: "plan".to_owned(), description: "Plans".to_owned() }];
    let menu = command_menu(&commands, "5");
    assert!(menu.items.iter().any(|item| matches!(item.1, Action::CommandHelp(2))));
    assert!(command_told("id", "done").contains("done"));
}

#[test]
fn the_bytes_of_a_stream_are_read_as_text() {
    let stream = Stream::read(&b"a\xffb".to_vec(), 2, 5, true, None);
    assert_eq!(stream.text, "a\u{fffd}b");
    assert_eq!((stream.start, stream.end, stream.truncated, stream.full), (2, 5, true, None));
    assert!(Stream::read(&Vec::new(), 0, 0, false, Some(1)).text.is_empty());
}

#[test]
fn the_output_of_a_command_is_shown_as_it_grows() {
    let stream = |text: &str| Stream {
        text: text.to_owned(),
        start: 0,
        end: text.len() as u64,
        truncated: false,
        full: Some(3),
    };
    let shown = show(&Look::Output {
        job: "j".to_owned(),
        status: "running".to_owned(),
        terminal: false,
        stdout: stream("out"),
        stderr: stream(""),
    });
    assert!(shown.watching);
    assert!(shown.text.unwrap().contains("stdout · bytes 0..3\nout\n"));
    let gone = show(&Look::Gone);
    assert!(!gone.watching);
    let busy = show(&Look::Busy);
    assert!(busy.watching);
    assert!(busy.text.is_none());
}

#[test]
fn metrics_are_read_until_they_are_complete() {
    let mut lanes = Lanes::new(true);
    let tag = lanes.refresh_metrics().unwrap();
    assert!(lanes.refresh_metrics().is_none());
    lanes.finish(tag);
    assert!(lanes.metrics_read(Some(false)));
    let revision = lanes.view_revision;
    lanes.invalidate_view();
    assert_ne!(lanes.view_revision, revision);
    assert!(lanes.spawn(WorkKind::Detail).is_some());
}

#[test]
fn what_was_read_back_is_remembered() {
    let mut state = LineState::new(false, None);
    state.history_read(Some(3));
    assert_eq!(state.before, Some(3));
    assert!(!state.history_exhausted);
    state.history_read(None);
    assert!(state.history_exhausted);
    state.sessions_read(None);
    assert!(state.recent_exhausted);
}

#[test]
fn small_decisions_hold() {
    assert!(is_terminal_event(&CliEvent::Outcome {
        session_id: "s".to_owned(),
        turn_id: "t".to_owned(),
        outcome: "{}".to_owned(),
        described: "done".to_owned(),
        durable_seq: 1,
    }));
    assert!(is_completable("/pl", 3));
    assert!(!is_completable("/pl an", 6));
    assert!(!is_completable("/pl", 2));
    let settings = first_settings(ProviderKind::Deepseek);
    assert!(matches!(settings[0], ("protocol", Setting::Text("responses"))));
    let mut home = Home::new("status".to_owned());
    assert_eq!(home.base_scene(false).status, "status");
    home.show_sessions(&listed(), Some(4), true);
    assert!(home.has_menu());
    home.close_menu();
    assert_eq!(home.base_scene(false).status, "");
    home.paste("text", false);
    assert_eq!(home.into_editor().text(), "text");
    let mut submission = Submission::new();
    assert_eq!(submission.owned_len(), 0);
    let mut editor = Editor::default();
    assert!(!editor.has_edits());
    editor.insert("x").unwrap();
    assert!(editor.has_edits());
    assert!(submission.command_finished(true, &mut editor).is_ok());
}
