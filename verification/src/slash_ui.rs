//! The completion list and the help over the commands.
use ratatui::widgets::{Paragraph, Wrap};
use vstd::prelude::*;
use vstd::string::*;
use crate::display;
use crate::display::{bounded, detail_pages, terminal_text};
use crate::editor;
use crate::editor::{Editor, EditorView};
use crate::keys::{KeyCode, KeyEvent, MouseEvent, MouseKind};
use crate::number;
use crate::number::decimal;
use crate::scene;
use crate::scene::{down, up, Area, Draft, DraftView, Scene, SceneView, Shown};
use crate::slash;
use crate::slash::{
    builtin_description_at, builtin_name_at, make_providers, order, Entry, EntryView, Ranked,
    RankedView, BUILTINS,
};
use crate::text;
use crate::text::{
    cat2, cat3, cat4, char_len, characters, collect, contains_char, contains_text, is_blank, same, slice, split,
    starts_with,
};

verus! {

/// What others say of the text under the cursor: the span of a `$` or an `@` word, and how well
/// each entry matches, in the order of [`Ui::candidates`].
#[derive(Debug)]
pub struct Context {
    pub dollar: Option<(usize, usize)>,
    pub agent: Option<(usize, usize)>,
    pub ranks: Vec<Option<u8>>,
}

/// What a [`Context`] says.
#[verifier::ext_equal]
pub struct ContextView {
    pub dollar: Option<(usize, usize)>,
    pub agent: Option<(usize, usize)>,
    pub ranks: Seq<Option<u8>>,
}

impl View for Context {
    type V = ContextView;

    open spec fn view(&self) -> ContextView {
        ContextView { dollar: self.dollar, agent: self.agent, ranks: self.ranks@ }
    }
}

/// A span of a text between two of its boundaries.
pub open spec fn spans(s: Seq<char>, span: (usize, usize)) -> bool {
    span.0 <= span.1 && text::boundary(s, span.0 as int) && text::boundary(s, span.1 as int)
}

impl ContextView {
    pub open spec fn empty() -> ContextView {
        ContextView { dollar: None, agent: None, ranks: seq![] }
    }

    /// The spans are spans of the text.
    pub open spec fn over(self, s: Seq<char>) -> bool {
        &&& self.dollar matches Some(span) ==> spans(s, span)
        &&& self.agent matches Some(span) ==> spans(s, span)
    }

    /// How well the entry at an index matches.
    pub open spec fn rank(self, i: int) -> Option<u8> {
        if 0 <= i < self.ranks.len() {
            self.ranks[i]
        } else {
            None
        }
    }
}

/// The completion list.
#[derive(Debug)]
pub struct Popup {
    pub revision: u64,
    /// What each line completes to, and its description.
    pub items: Vec<(String, String)>,
    pub selected: usize,
}

/// What a [`Popup`] says.
#[verifier::ext_equal]
pub struct PopupView {
    pub revision: u64,
    pub items: Seq<(Seq<char>, Seq<char>)>,
    pub selected: usize,
}

/// What the lines of a completion list say.
pub open spec fn items_of(v: Seq<(String, String)>) -> Seq<(Seq<char>, Seq<char>)> {
    Seq::new(v.len(), |i: int| (v[i].0@, v[i].1@))
}

impl View for Popup {
    type V = PopupView;

    open spec fn view(&self) -> PopupView {
        PopupView {
            revision: self.revision,
            items: items_of(self.items@),
            selected: self.selected,
        }
    }
}

/// Everything that the completion list and the help remember.
#[verifier::ext_equal]
pub struct UiView {
    pub popup: Option<PopupView>,
    pub entries: Seq<EntryView>,
    pub catalog: Seq<EntryView>,
    /// The generation of the catalog that is being read.
    pub pending: Option<u64>,
    /// The generation of the preview that is being read.
    pub preview: Option<u64>,
    /// The resource that is to be previewed.
    pub preview_request: Option<u64>,
    pub previewing: bool,
    pub preview_agent: bool,
    pub refresh: bool,
    pub failed: bool,
    pub generation: u64,
    pub session: Option<Seq<char>>,
    pub revision: u64,
    pub observed: Seq<char>,
    pub cursor: usize,
    pub context: ContextView,
    pub dismissed: bool,
    /// The span that a completion replaces.
    pub token: Option<(usize, usize)>,
    pub help: bool,
    pub help_filter: EditorView,
    pub detail: Option<Seq<char>>,
    pub offset: usize,
    pub detail_area: Area,
    pub page: usize,
    pub selected: usize,
    pub diagnostic: Seq<char>,
}

/// The next number of a counter.
pub open spec fn bumped(n: u64) -> u64 {
    if n == u64::MAX {
        0
    } else {
        (n + 1) as u64
    }
}

pub fn bump(n: u64) -> (r: u64)
    ensures
        r == bumped(n),
        r != n,
{
    if n == u64::MAX {
        0
    } else {
        n + 1
    }
}

/// The lines that a text takes when it is wrapped to a width.
pub uninterp spec fn wrapped_lines(s: Seq<char>, width: u16) -> usize;

/// `Paragraph::line_count` of a text that is wrapped without trimming: the lines needed to show
/// it at a width. The result depends on the text and the width alone; where lines break is not
/// stated. Widths are added as `u16`, and a text has no more columns than bytes, so that the sums
/// stay within their type.
#[verifier::external_body]
fn line_count(s: &str, width: u16) -> (n: usize)
    requires
        text::size(s@) < u16::MAX,
    ensures
        n == wrapped_lines(s@, width),
{
    Paragraph::new(s).wrap(Wrap { trim: false }).line_count(width)
}

/// The number of characters up to and with the last white space.
pub open spec fn blank_end(s: Seq<char>) -> nat
    decreases s.len(),
{
    if s.len() == 0 {
        0
    } else if text::blank(s.last()) {
        s.len()
    } else {
        blank_end(s.drop_last())
    }
}

/// A text without its leading slashes, dollar and at signs.
pub open spec fn unmarked(s: Seq<char>) -> Seq<char>
    decreases s.len(),
{
    if s.len() > 0 && (s[0] == '/' || s[0] == '$' || s[0] == '@') {
        unmarked(s.drop_first())
    } else {
        s
    }
}

/// A text that is one line and begins with a single slash.
pub open spec fn command_line(s: Seq<char>) -> bool {
    text::begins(s, "/"@) && !text::begins(s, "//"@) && !s.contains('\n') && !s.contains('\r')
}

/// The characters between two byte offsets.
pub open spec fn part(s: Seq<char>, span: (usize, usize)) -> Seq<char> {
    s.subrange(text::fit(s, span.0 as int) as int, text::fit(s, span.1 as int) as int)
}

/// What a line of the list completes to, and its description.
pub open spec fn item_of(e: EntryView, providers: bool, dollar: bool) -> (Seq<char>, Seq<char>) {
    (
        if dollar {
            "$"@ + e.name
        } else if providers {
            e.name
        } else {
            match e.skill {
                Some(skill) => skill.replacement,
                None => "/"@ + e.name,
            }
        },
        display::prefix_within(e.description, 256),
    )
}

/// The lines of the list.
pub open spec fn listed(list: Seq<RankedView>, providers: bool, dollar: bool) -> Seq<
    (Seq<char>, Seq<char>),
> {
    Seq::new(list.len(), |i: int| item_of(list[i].entry, providers, dollar))
}

/// The entries of matches.
pub open spec fn entries_in(list: Seq<RankedView>) -> Seq<EntryView> {
    Seq::new(list.len(), |i: int| list[i].entry)
}

/// Whether a text names a provider under the cursor.
pub open spec fn naming_provider(s: Seq<char>, cursor: usize, context: ContextView) -> bool {
    context.dollar is None && context.agent is None && text::begins(s, "/login "@) && cursor >= 7
}

/// The span under the cursor that a completion replaces.
pub open spec fn span_under(s: Seq<char>, cursor: usize, context: ContextView) -> Option<
    (usize, usize),
> {
    if context.agent is Some {
        context.agent
    } else if context.dollar is Some {
        context.dollar
    } else if naming_provider(s, cursor, context) {
        let head = editor::head(s, cursor as int);
        let tail = editor::tail(s, cursor as int);
        Some(
            (
                text::size(head.take(blank_end(head) as int)) as usize,
                (cursor + text::size(tail.take(text::word(tail) as int))) as usize,
            ),
        )
    } else {
        let end = text::size(s.take(text::word(s) as int)) as usize;
        if cursor > end {
            None
        } else {
            Some((0, end))
        }
    }
}

impl UiView {
    /// The commands of the application, and what the session offers.
    pub open spec fn all(self) -> Seq<EntryView> {
        slash::builtin_entries() + self.catalog
    }

    /// Whether a provider is to be completed.
    pub open spec fn providers(self) -> bool {
        naming_provider(self.observed, self.cursor, self.context)
    }

    /// The entries that what is typed is held against.
    pub open spec fn candidates(self) -> Seq<EntryView> {
        if self.providers() {
            slash::provider_entries()
        } else {
            self.all()
        }
    }

    /// The span under the cursor that a completion replaces.
    pub open spec fn span(self) -> Option<(usize, usize)> {
        span_under(self.observed, self.cursor, self.context)
    }

    /// Whether an entry is of the kind that is completed.
    pub open spec fn wanted(self, e: EntryView) -> bool {
        let agent = e.skill is Some && e.skill->0.agent;
        if self.providers() {
            true
        } else if self.context.agent is Some {
            agent
        } else if self.context.dollar is Some {
            e.skill is Some && !agent
        } else {
            !agent
        }
    }

    /// The first `n` candidates that match. Without anything typed the alias of quitting is
    /// left out.
    pub open spec fn matching(self, n: int, empty: bool) -> Seq<RankedView>
        decreases n,
    {
        if n <= 0 {
            seq![]
        } else {
            let before = self.matching(n - 1, empty);
            let e = self.candidates()[n - 1];
            match self.context.rank(n - 1) {
                Some(rank) => if self.wanted(e) && !(empty && e.name == "exit"@) {
                    before.push(RankedView { entry: e, rank })
                } else {
                    before
                },
                None => before,
            }
        }
    }

    /// What is listed for a span: sorted where anything is typed.
    pub open spec fn matches(self, span: (usize, usize)) -> Seq<RankedView> {
        let filter = unmarked(part(self.observed, span));
        let list = self.matching(self.candidates().len() as int, filter.len() == 0);
        if filter.len() == 0 {
            list
        } else {
            slash::ordered(list)
        }
    }

    /// Whether there is anything to complete.
    pub open spec fn completing(self) -> bool {
        !self.help && !self.dismissed && (self.context.dollar is Some || self.context.agent is Some
            || command_line(self.observed)) && (self.span() matches Some(span) && self.cursor
            >= span.0)
    }

    /// The list made anew. The selection is kept where the lines stay the same, and otherwise
    /// the list has a new revision.
    #[verifier::opaque]
    pub open spec fn rebuilt(self) -> UiView {
        if !self.completing() {
            UiView { token: None, popup: None, ..self }
        } else {
            let span = self.span()->0;
            let list = self.matches(span);
            let items = listed(list, self.providers(), self.context.dollar is Some);
            let kept = self.popup matches Some(p) && p.items == items;
            let revision = if kept {
                self.revision
            } else {
                bumped(self.revision)
            };
            UiView {
                revision,
                popup: if items.len() == 0 {
                    None
                } else {
                    Some(
                        PopupView {
                            revision,
                            items,
                            selected: if kept {
                                self.popup->0.selected
                            } else {
                                0
                            },
                        },
                    )
                },
                entries: entries_in(list),
                token: Some(span),
                ..self
            }
        }
    }

    /// The list put away until the text changes.
    pub open spec fn hidden(self) -> UiView {
        UiView {
            generation: if self.token is Some {
                bumped(self.generation)
            } else {
                self.generation
            },
            refresh: false,
            popup: None,
            token: None,
            dismissed: true,
            ..self
        }
    }

    /// Everything that is being read counts as old, where it would be shown.
    pub open spec fn invalidated(self) -> UiView {
        if (self.token is Some && !self.dismissed) || self.help {
            UiView { generation: bumped(self.generation), refresh: true, ..self }
        } else {
            self
        }
    }

    /// The state for another session: nothing of the old one is kept.
    pub open spec fn attached(self, session: Option<Seq<char>>) -> UiView {
        UiView {
            session,
            failed: false,
            generation: bumped(self.generation),
            pending: None,
            preview: None,
            preview_request: None,
            previewing: false,
            detail: None,
            help: false,
            catalog: seq![],
            refresh: true,
            ..self
        }.rebuilt()
    }

    /// The state for a session, which may be the one that it was for.
    pub open spec fn attached_to(self, session: Option<Seq<char>>) -> UiView {
        if session != self.session {
            self.attached(session)
        } else {
            self
        }
    }

    /// The state once a wanted preview is asked for.
    pub open spec fn asking(self, session: bool) -> UiView {
        if session && self.preview_request is Some {
            UiView { preview_request: None, preview: Some(self.generation), ..self }
        } else {
            self
        }
    }

    /// Whether the text or the cursor differ from what was seen last.
    pub open spec fn differs(self, s: Seq<char>, cursor: usize) -> bool {
        self.observed != s || self.cursor != cursor
    }

    /// The list for another text or cursor.
    pub open spec fn reading(self, s: Seq<char>, cursor: usize, context: ContextView) -> UiView {
        UiView { observed: s, cursor, dismissed: false, context, ..self }.rebuilt()
    }

    /// What a text and a cursor lead to.
    pub open spec fn following(
        self,
        s: Seq<char>,
        cursor: usize,
        context: ContextView,
    ) -> UiView {
        let changed = self.differs(s, cursor);
        let v = if changed && self.failed {
            self.invalidated()
        } else {
            self
        };
        let was_open = v.token is Some && (changed || !v.dismissed);
        let w = if changed {
            v.reading(s, cursor, context)
        } else {
            v
        };
        if !was_open && w.token is Some && !w.dismissed {
            w.invalidated()
        } else {
            w
        }
    }

    /// The state once a wanted catalog is asked for.
    pub open spec fn fetching(self, session: bool) -> UiView {
        if self.refresh && self.pending is None && session {
            UiView { refresh: false, pending: Some(self.generation), ..self }
        } else {
            self
        }
    }

    /// The entries whose name contains what is typed into the help.
    pub open spec fn helped(self, n: int) -> Seq<EntryView>
        decreases n,
    {
        if n <= 0 {
            seq![]
        } else {
            let before = self.helped(n - 1);
            let e = self.all()[n - 1];
            if text::includes(e.name, self.help_filter.text) {
                before.push(e)
            } else {
                before
            }
        }
    }

    pub open spec fn help_list(self) -> Seq<EntryView> {
        self.helped(self.all().len() as int)
    }

    /// What a catalog that was read leads to. One of an older generation, or one that nothing
    /// shows, changes nothing.
    pub open spec fn loaded(
        self,
        generation: u64,
        entries: Option<Seq<EntryView>>,
        message: Seq<char>,
        ranks: Seq<Option<u8>>,
    ) -> UiView {
        let v = UiView { pending: None, ..self };
        if generation != v.generation || ((v.token is None || v.dismissed) && !v.help) {
            v
        } else {
            let w = UiView {
                revision: bumped(v.revision),
                failed: entries is None,
                catalog: if entries is Some {
                    entries->0
                } else {
                    seq![]
                },
                diagnostic: if entries is Some {
                    message
                } else {
                    "Commands unavailable: "@ + message + "; edit or reopen to retry"@
                },
                context: ContextView { ranks, ..v.context },
                ..v
            };
            let last = if w.help_list().len() > 0 {
                (w.help_list().len() - 1) as usize
            } else {
                0
            };
            UiView {
                selected: if w.help && w.selected > last {
                    last
                } else {
                    w.selected
                },
                ..w
            }.rebuilt()
        }
    }

    /// What a preview that was read leads to.
    pub open spec fn previewed(self, generation: u64, ok: bool, message: Seq<char>) -> UiView {
        let v = UiView { preview: None, ..self };
        if generation == v.generation && v.help && v.previewing {
            UiView {
                detail: Some(
                    if ok {
                        message
                    } else {
                        "Resource unavailable: "@ + message
                            + ". Close and preview again to retry."@
                    },
                ),
                revision: bumped(v.revision),
                ..v
            }
        } else {
            v
        }
    }

    /// The page of the detail that is shown.
    pub open spec fn detail_page(self) -> Seq<char> {
        match self.detail {
            Some(d) => {
                let pages = display::pages_of(d, display::DETAIL_PAGE_BYTES as int);
                if self.page < pages.len() {
                    pages[self.page as int]
                } else {
                    seq![]
                }
            },
            None => seq![],
        }
    }

    /// How far the page of the detail can be scrolled.
    pub open spec fn maximum_offset(self) -> usize {
        if self.detail_area.width == 0 {
            8192
        } else {
            let lines = wrapped_lines(
                display::shown_text(self.detail_page()),
                self.detail_area.width,
            );
            if lines > self.detail_area.height {
                (lines - self.detail_area.height) as usize
            } else {
                0
            }
        }
    }

    /// What a key does in the help.
    pub open spec fn help_keyed(self, key: KeyEvent, w: UiView) -> bool {
        if key.code is Escape {
            w == (if self.detail is None {
                UiView { help: false, dismissed: true, ..self }
            } else {
                UiView { detail: None, ..self }
            })
        } else if key.control && key.code == KeyCode::Char('c') {
            w == (UiView { help: false, detail: None, dismissed: true, ..self })
        } else if self.detail is Some {
            let pages = display::pages_of(self.detail->0, display::DETAIL_PAGE_BYTES as int).len();
            w == (match key.code {
                KeyCode::PageDown => UiView {
                    page: scene::step_down(self.page as int, pages as int) as usize,
                    offset: 0,
                    ..self
                },
                KeyCode::PageUp => UiView {
                    page: scene::step_up(self.page as int) as usize,
                    offset: 0,
                    ..self
                },
                KeyCode::Down => UiView {
                    offset: if self.offset < self.maximum_offset() {
                        (self.offset + 1) as usize
                    } else {
                        self.maximum_offset()
                    },
                    ..self
                },
                KeyCode::Up => UiView {
                    offset: scene::step_up(self.offset as int) as usize,
                    ..self
                },
                _ => self,
            })
        } else if key.code is Enter {
            w == (if self.selected < self.help_list().len() {
                UiView {
                    detail: Some(
                        "/"@ + self.help_list()[self.selected as int].name + "\n"@
                            + self.help_list()[self.selected as int].description,
                    ),
                    offset: 0,
                    page: 0,
                    ..self
                }
            } else {
                self
            })
        } else if key.code is Up {
            w == (UiView { selected: scene::step_up(self.selected as int) as usize, ..self })
        } else if key.code is Down {
            w == (UiView {
                selected: scene::step_down(
                    self.selected as int,
                    self.help_list().len() as int,
                ) as usize,
                ..self
            })
        } else {
            &&& exists|r: Result<(), &'static str>| #[trigger]
                editor::pressed(self.help_filter, key, r, w.help_filter)
            &&& w == (UiView { help_filter: w.help_filter, selected: 0, ..self })
        }
    }

    /// The list asked for again by the tab key.
    pub open spec fn reopened(self) -> UiView {
        let v = UiView { dismissed: false, ..self }.rebuilt();
        if v.token is Some {
            v.invalidated()
        } else {
            v
        }
    }

    /// What a key does to the list and to the text under edit, and whether it ends here.
    pub open spec fn keyed(
        self,
        e: EditorView,
        key: KeyEvent,
        w: UiView,
        f: EditorView,
        consumed: bool,
    ) -> bool {
        if self.help && self.previewing && key.code is Escape {
            &&& consumed
            &&& f == e
            &&& w == (UiView {
                preview: None,
                preview_request: None,
                previewing: false,
                help: false,
                detail: None,
                dismissed: false,
                revision: bumped(self.revision),
                ..self
            }).rebuilt()
        } else if self.help {
            consumed && f == e && UiView {
                revision: bumped(self.revision),
                ..self
            }.help_keyed(key, w)
        } else {
            let v = if key.code is Tab && self.popup is None {
                self.reopened()
            } else {
                self
            };
            if key.code is Escape && v.token is Some {
                consumed && f == e && w == v.hidden()
            } else if v.popup is None {
                consumed == (key.code is Tab && v.token is Some) && f == e && w == v
            } else {
                v.popup_keyed(e, key, w, f, consumed)
            }
        }
    }

    /// What a key does while the list is shown.
    pub open spec fn popup_keyed(
        self,
        e: EditorView,
        key: KeyEvent,
        w: UiView,
        f: EditorView,
        consumed: bool,
    ) -> bool {
        let p = self.popup->0;
        let entry = self.entries[p.selected as int];
        if key.code == KeyCode::Function(2) {
            let v = UiView {
                preview_agent: entry.skill is Some && entry.skill->0.agent,
                ..self
            };
            let resource = if entry.skill is Some {
                entry.skill->0.resource
            } else {
                None
            };
            &&& consumed
            &&& f == e
            &&& w == (if resource is Some {
                UiView {
                    preview_request: resource,
                    previewing: true,
                    help: true,
                    detail: Some("Loading resource…"@),
                    page: 0,
                    offset: 0,
                    revision: bumped(v.revision),
                    ..v
                }
            } else {
                v
            })
        } else if key.code is Up || key.code is Down {
            let selected = if key.code is Up {
                scene::step_up(p.selected as int)
            } else {
                scene::step_down(p.selected as int, p.items.len() as int)
            };
            consumed && f == e && w == (UiView {
                popup: Some(PopupView { selected: selected as usize, ..p }),
                ..self
            })
        } else if (key.code is Tab || key.code is Enter) && !key.shift && !key.control {
            let span = self.token->0;
            let replacement = p.items[p.selected as int].0;
            let complete = part(e.text, span) == replacement;
            if key.code is Enter && complete {
                !consumed && f == e && w == self
            } else if editor::refused(replacement) || text::size(e.text) - (span.1 - span.0)
                + text::size(replacement) > e.room() {
                consumed && f == e && w == (UiView {
                    diagnostic: if editor::refused(replacement) {
                        "Input contains NUL or DEL; nothing was inserted"@
                    } else {
                        "Input exceeds its size limit; nothing was inserted"@
                    },
                    ..self
                })
            } else {
                &&& consumed == (key.code is Tab || !entry.application || e.cursor != text::size(
                    e.text,
                ))
                &&& editor::edited(e, span.0 as int, span.1 as int, replacement, f)
                &&& w == self
            }
        } else {
            !consumed && f == e && w == self
        }
    }

    /// What the list replaces lies in the text under edit, where a key could replace it.
    pub open spec fn fits(self, key: KeyEvent, s: Seq<char>) -> bool {
        let v = if key.code is Tab && self.popup is None {
            self.reopened()
        } else {
            self
        };
        !self.help && v.popup is Some ==> spans(s, v.token->0)
    }

    /// What a pasted text does: in the help it goes to the filter.
    pub open spec fn pasted(self, s: Seq<char>, w: UiView, consumed: bool) -> bool {
        &&& consumed == self.help
        &&& if !self.help {
            w == self
        } else if self.detail is Some {
            w == (UiView { revision: bumped(self.revision), ..self })
        } else {
            exists|r: Result<(), &'static str>|
                {
                    &&& #[trigger] editor::inserted(self.help_filter, s, r, w.help_filter)
                    &&& w == (UiView {
                        revision: bumped(self.revision),
                        help_filter: w.help_filter,
                        diagnostic: match r {
                            Ok(_) => self.diagnostic,
                            Err(e) => e@,
                        },
                        selected: 0,
                        ..self
                    })
                }
        }
    }

    /// The help opened with an empty filter.
    pub open spec fn opened(self) -> UiView {
        UiView {
            previewing: false,
            revision: bumped(self.revision),
            page: 0,
            offset: 0,
            selected: 0,
            help: true,
            popup: None,
            help_filter: EditorView::over(seq![], 512),
            detail: None,
            ..self
        }.invalidated()
    }

    /// What a shown frame tells of the room that a detail has.
    pub open spec fn framed(self, revision: u64, area: Area) -> UiView {
        if self.help && self.detail is Some && revision == self.revision && area.width > 0 {
            let v = UiView { detail_area: area, ..self };
            UiView {
                offset: if v.offset < v.maximum_offset() {
                    v.offset
                } else {
                    v.maximum_offset()
                },
                ..v
            }
        } else {
            self
        }
    }

    /// What the pointer does in the help.
    pub open spec fn help_pointed(self, mouse: MouseEvent, view: Shown) -> UiView {
        let last = if self.help_list().len() > 0 {
            self.help_list().len() - 1
        } else {
            0
        };
        if view.choice_revision != self.revision || !view.area.covers(
            mouse.column as int,
            mouse.row as int,
        ) {
            self
        } else if self.detail is Some {
            match mouse.kind {
                MouseKind::ScrollUp => UiView {
                    offset: if self.offset > 3 {
                        (self.offset - 3) as usize
                    } else {
                        0
                    },
                    ..self
                },
                MouseKind::ScrollDown => UiView {
                    offset: if self.offset + 3 < view.scroll_max {
                        (self.offset + 3) as usize
                    } else {
                        view.scroll_max
                    },
                    ..self
                },
                _ => self,
            }
        } else {
            UiView {
                selected: match mouse.kind {
                    MouseKind::ScrollUp => scene::step_up(self.selected as int) as usize,
                    MouseKind::ScrollDown => scene::step_down(
                        self.selected as int,
                        self.help_list().len() as int,
                    ) as usize,
                    MouseKind::LeftDown => match view.choice(
                        mouse.column as int,
                        mouse.row as int,
                    ) {
                        Some(index) => if index < self.help_list().len() {
                            index
                        } else {
                            self.selected
                        },
                        None => self.selected,
                    },
                    _ => self.selected,
                },
                revision: bumped(self.revision),
                ..self
            }
        }
    }

    /// The line of the list that the pointer selects.
    pub open spec fn pointed_line(self, mouse: MouseEvent, area: Area, from: usize) -> int {
        let p = self.popup->0;
        match mouse.kind {
            MouseKind::ScrollUp => scene::step_up(p.selected as int),
            MouseKind::ScrollDown => scene::step_down(p.selected as int, p.items.len() as int),
            MouseKind::LeftDown => {
                let line = from + (mouse.row - area.y);
                if line < p.items.len() {
                    line
                } else {
                    p.items.len() - 1
                }
            },
            _ => p.selected as int,
        }
    }

    /// Whether the pointer stands on the list that is shown now.
    pub open spec fn hit(self, mouse: MouseEvent, view: Shown) -> bool {
        self.popup is Some && view.completion is Some && (view.completion->0).0
            == self.popup->0.revision && (view.completion->0).1.covers(
            mouse.column as int,
            mouse.row as int,
        )
    }

    /// What the pointer does. A list that is no longer shown is not acted on.
    pub open spec fn pointed(self, mouse: MouseEvent, view: Shown) -> UiView {
        if self.help {
            self.help_pointed(mouse, view)
        } else if self.hit(mouse, view) {
            UiView {
                popup: Some(
                    PopupView {
                        selected: self.pointed_line(
                            mouse,
                            (view.completion->0).1,
                            (view.completion->0).2,
                        ) as usize,
                        ..self.popup->0
                    },
                ),
                ..self
            }
        } else {
            self
        }
    }

    /// The lines that the help lists.
    pub open spec fn help_lines(self) -> Seq<Seq<char>> {
        Seq::new(
            self.help_list().len(),
            |i: int|
                "/"@ + self.help_list()[i].name + " · "@ + display::prefix_within(
                    self.help_list()[i].description,
                    256,
                ),
        )
    }

    /// The screen of the help.
    pub open spec fn pictured(self) -> SceneView {
        SceneView {
            revision: self.revision,
            title: if self.previewing {
                "RSI · Skill · page "@ + number::digits((self.page + 1) as nat)
            } else if self.detail is Some {
                "RSI · Help · page "@ + number::digits((self.page + 1) as nat)
            } else {
                "RSI · Help"@
            },
            explanation: if self.previewing {
                "Preview only · Esc returns to your draft"@
            } else {
                "Enter sends · Shift+Enter / Ctrl+J line · Ctrl+P actions · Ctrl+R recall · Ctrl+Y copy ID · Ctrl+C cancel turn"@
            },
            items: if self.detail is Some {
                seq![]
            } else {
                self.help_lines()
            },
            selected: if self.detail is Some {
                0
            } else {
                self.selected
            },
            field: if self.detail is Some {
                None
            } else {
                Some("Filter commands · Enter detail"@)
            },
            detail: if self.detail is Some {
                Some(self.detail_page())
            } else {
                None
            },
            detail_offset: self.offset,
            input: DraftView { text: self.help_filter.text, cursor: self.help_filter.cursor },
            hint: "Esc back · ↑/↓ scroll · PgUp/Dn page"@,
            status: self.diagnostic,
            progress: None,
            receipts: seq![],
            composer_prefix: None,
        }
    }

    /// The cursor and what others say belong to the text, and the selection to the list.
    pub open spec fn steady(self) -> bool {
        &&& text::boundary(self.observed, self.cursor as int)
        &&& self.context.over(self.observed)
        &&& self.popup matches Some(p) ==> p.selected < p.items.len()
        &&& self.page < usize::MAX
    }

    /// The spans belong to the text, and the list belongs to its entries.
    pub open spec fn valid(self) -> bool {
        &&& self.steady()
        &&& self.token matches Some(span) ==> spans(self.observed, span)
        &&& self.popup matches Some(p) ==> p.items.len() == self.entries.len() && self.token is Some
    }

    /// An empty list over no text.
    pub open spec fn fresh() -> UiView {
        UiView {
            popup: None,
            entries: seq![],
            catalog: seq![],
            pending: None,
            preview: None,
            preview_request: None,
            previewing: false,
            preview_agent: false,
            refresh: false,
            failed: false,
            generation: 0,
            session: None,
            revision: 0,
            observed: seq![],
            cursor: 0,
            context: ContextView::empty(),
            dismissed: false,
            token: None,
            help: false,
            help_filter: EditorView::blank(),
            detail: None,
            offset: 0,
            detail_area: (Area { x: 0, y: 0, width: 0, height: 0 }),
            page: 0,
            selected: 0,
            diagnostic: seq![],
        }
    }
}

/// The bytes up to and with the last white space.
fn blank_bytes(s: &str) -> (r: usize)
    ensures
        r == text::size(s@.take(blank_end(s@) as int)),
        blank_end(s@) <= s@.len(),
{
    let total: usize = text::byte_len(s);
    let mut offset: usize = 0;
    let mut end: usize = 0;
    proof {
        assert(s@.take(0) =~= Seq::<char>::empty());
    }
    for c in it: s.chars()
        invariant
            it.seq() == s@,
            total == text::size(s@),
            offset == text::size(s@.take(it.index() as int)),
            blank_end(s@.take(it.index() as int)) <= it.index(),
            end == text::size(s@.take(blank_end(s@.take(it.index() as int)) as int)),
    {
        proof {
            let i: int = it.index() as int;
            assert(s@.take(i + 1) =~= s@.take(i).push(c));
            assert(s@.take(i + 1).drop_last() =~= s@.take(i));
            text::lemma_size_push(s@.take(i), c);
            text::lemma_size_split(s@, i + 1);
        }
        offset += char_len(c);
        if is_blank(c) {
            end = offset;
        }
    }
    proof {
        assert(s@.take(s@.len() as int) =~= s@);
    }
    end
}

/// The bytes before the first white space.
fn word_bytes(s: &str) -> (r: usize)
    ensures
        r == text::size(s@.take(text::word(s@) as int)),
        text::word(s@) <= s@.len(),
{
    let total: usize = text::byte_len(s);
    let mut offset: usize = 0;
    proof {
        assert(s@.take(0) =~= Seq::<char>::empty());
        text::lemma_word(s@);
    }
    for c in it: s.chars()
        invariant
            it.seq() == s@,
            total == text::size(s@),
            offset == text::size(s@.take(it.index() as int)),
            forall|j: int| 0 <= j < it.index() ==> !text::blank(s@[j]),
            text::word(s@) <= s@.len(),
    {
        if is_blank(c) {
            proof {
                text::lemma_word(s@);
                assert(text::word(s@) == it.index());
            }
            return offset;
        }
        proof {
            let i: int = it.index() as int;
            assert(s@.take(i + 1) =~= s@.take(i).push(c));
            text::lemma_size_push(s@.take(i), c);
            text::lemma_size_split(s@, i + 1);
        }
        offset += char_len(c);
    }
    proof {
        text::lemma_word(s@);
        assert(text::word(s@) == s@.len());
    }
    offset
}

fn unmark(s: &str) -> (r: String)
    ensures
        r@ == unmarked(s@),
{
    let v = characters(s);
    let n: usize = v.len();
    let mut i: usize = 0;
    proof {
        assert(s@.skip(0) =~= s@);
    }
    while i < n && (v[i] == '/' || v[i] == '$' || v[i] == '@')
        invariant
            v@ == s@,
            n == v@.len(),
            i <= n,
            unmarked(s@.skip(i as int)) == unmarked(s@),
        decreases n - i,
    {
        proof {
            assert(s@.skip(i as int).drop_first() =~= s@.skip(i as int + 1));
        }
        i += 1;
    }
    proof {
        assert(s@.skip(i as int) =~= v@.subrange(i as int, n as int));
    }
    collect(v.as_slice(), i, n)
}

fn same_items(a: &Vec<(String, String)>, b: &Vec<(String, String)>) -> (r: bool)
    ensures
        r == (items_of(a@) == items_of(b@)),
{
    if a.len() != b.len() {
        proof {
            assert(items_of(a@).len() != items_of(b@).len());
        }
        return false;
    }
    let mut i: usize = 0;
    while i < a.len()
        invariant
            i <= a@.len(),
            a@.len() == b@.len(),
            forall|j: int| 0 <= j < i ==> items_of(a@)[j] == items_of(b@)[j],
        decreases a@.len() - i,
    {
        if !same(a[i].0.as_str(), b[i].0.as_str()) || !same(a[i].1.as_str(), b[i].1.as_str()) {
            proof {
                assert(items_of(a@)[i as int] != items_of(b@)[i as int]);
            }
            return false;
        }
        i += 1;
    }
    proof {
        assert(items_of(a@) =~= items_of(b@));
    }
    true
}

fn make_item(e: &Entry, providers: bool, dollar: bool) -> (r: (String, String))
    ensures
        (r.0@, r.1@) == item_of(e@, providers, dollar),
{
    let label: String = if dollar {
        let mut t: String = "$".to_owned();
        t.append(e.name.as_str());
        t
    } else if providers {
        e.name.clone()
    } else {
        match &e.skill {
            Some(skill) => skill.replacement.clone(),
            None => {
                let mut t: String = "/".to_owned();
                t.append(e.name.as_str());
                t
            },
        }
    };
    (label, bounded(e.description.as_str(), 256).to_owned())
}

fn names_provider(s: &str, cursor: usize, context: &Context) -> (r: bool)
    ensures
        r == naming_provider(s@, cursor, context@),
{
    context.dollar.is_none() && context.agent.is_none() && starts_with(s, "/login ") && cursor >= 7
}

fn find_span(s: &str, cursor: usize, context: &Context) -> (r: Option<(usize, usize)>)
    requires
        text::boundary(s@, cursor as int),
        context@.over(s@),
    ensures
        r == span_under(s@, cursor, context@),
        r matches Some(span) ==> spans(s@, span),
{
    if context.agent.is_some() {
        return context.agent;
    }
    if context.dollar.is_some() {
        return context.dollar;
    }
    if names_provider(s, cursor, context) {
        let total: usize = text::byte_len(s);
        let (before, after) = split(s, cursor);
        let start: usize = blank_bytes(before);
        let length: usize = word_bytes(after);
        proof {
            text::lemma_boundary_split(s@, cursor as int);
            let k: int = blank_end(before@) as int;
            assert(before@.take(k) =~= s@.take(k));
            text::lemma_fit_exact(s@, k);
            text::lemma_size_take_monotone(before@, k, before@.len() as int);
            assert(before@.take(before@.len() as int) =~= before@);
            let w: int = text::word(after@) as int;
            let i: int = text::fit(s@, cursor as int) as int;
            assert(s@.take(i + w) =~= s@.take(i) + after@.take(w));
            text::lemma_size_concat(s@.take(i), after@.take(w));
            text::lemma_fit_exact(s@, i + w);
            text::lemma_size_split(s@, i + w);
        }
        Some((start, cursor + length))
    } else {
        let end: usize = word_bytes(s);
        if cursor > end {
            None
        } else {
            proof {
                text::lemma_boundary_ends(s@);
                text::lemma_fit_exact(s@, text::word(s@) as int);
            }
            Some((0, end))
        }
    }
}

/// What the entries are held against: the word under the cursor of a text, without its mark.
pub fn typed_query(s: &str, cursor: usize, context: &Context) -> (r: Option<String>)
    requires
        text::boundary(s@, cursor as int),
        context@.over(s@),
    ensures
        match r {
            Some(q) => span_under(s@, cursor, context@) matches Some(span) && q@ == unmarked(
                part(s@, span),
            ),
            None => span_under(s@, cursor, context@) is None,
        },
{
    match find_span(s, cursor, context) {
        Some(span) => Some(unmark(slice(s, span.0, span.1))),
        None => None,
    }
}

/// The lines that entries become in the list.
pub fn completion_items(list: &Vec<Ranked>, providers: bool, dollar: bool) -> (r: Vec<
    (String, String),
>)
    ensures
        items_of(r@) == listed(slash::ranked_of(list@), providers, dollar),
{
    let mut out: Vec<(String, String)> = Vec::new();
    let mut i: usize = 0;
    while i < list.len()
        invariant
            i <= list@.len(),
            out@.len() == i,
            forall|j: int|
                0 <= j < i ==> #[trigger] items_of(out@)[j] == listed(
                    slash::ranked_of(list@),
                    providers,
                    dollar,
                )[j],
        decreases list@.len() - i,
    {
        let ghost before = out@;
        out.push(make_item(&list[i].entry, providers, dollar));
        proof {
            assert forall|j: int| 0 <= j < i + 1 implies #[trigger] items_of(out@)[j] == listed(
                slash::ranked_of(list@),
                providers,
                dollar,
            )[j] by {
                if j < i {
                    assert(items_of(out@)[j] == items_of(before)[j]);
                }
            }
        }
        i += 1;
    }
    proof {
        assert(items_of(out@) =~= listed(slash::ranked_of(list@), providers, dollar));
    }
    out
}

/// The completion list, the help and what is being read for them.
#[derive(Debug)]
pub struct Ui {
    popup: Option<Popup>,
    entries: Vec<Entry>,
    catalog: Vec<Entry>,
    pending: Option<u64>,
    preview: Option<u64>,
    preview_request: Option<u64>,
    previewing: bool,
    preview_agent: bool,
    refresh: bool,
    failed: bool,
    generation: u64,
    session: Option<String>,
    revision: u64,
    observed: String,
    cursor: usize,
    context: Context,
    dismissed: bool,
    token: Option<(usize, usize)>,
    help: bool,
    help_filter: Editor,
    detail: Option<String>,
    offset: usize,
    detail_area: Area,
    page: usize,
    selected: usize,
    diagnostic: String,
}

impl View for Ui {
    type V = UiView;

    closed spec fn view(&self) -> UiView {
        UiView {
            popup: match self.popup {
                Some(p) => Some(p@),
                None => None,
            },
            entries: slash::entries_of(self.entries@),
            catalog: slash::entries_of(self.catalog@),
            pending: self.pending,
            preview: self.preview,
            preview_request: self.preview_request,
            previewing: self.previewing,
            preview_agent: self.preview_agent,
            refresh: self.refresh,
            failed: self.failed,
            generation: self.generation,
            session: scene::optional(self.session),
            revision: self.revision,
            observed: self.observed@,
            cursor: self.cursor,
            context: self.context@,
            dismissed: self.dismissed,
            token: self.token,
            help: self.help,
            help_filter: self.help_filter@,
            detail: scene::optional(self.detail),
            offset: self.offset,
            detail_area: self.detail_area,
            page: self.page,
            selected: self.selected,
            diagnostic: self.diagnostic@,
        }
    }
}

/// What the caller has to read.
#[derive(Clone, Copy, Debug, PartialEq, Eq)]
pub struct Reads {
    /// A resource to preview, with the generation that its result is tagged with.
    pub preview: Option<(u64, u64)>,
    /// The catalog, with the generation that its result is tagged with.
    pub catalog: Option<u64>,
}

impl Default for Ui {
    fn default() -> (r: Self)
        ensures
            r.wf(),
            r@ == UiView::fresh(),
    {
        let r = Ui {
            popup: None,
            entries: Vec::new(),
            catalog: Vec::new(),
            pending: None,
            preview: None,
            preview_request: None,
            previewing: false,
            preview_agent: false,
            refresh: false,
            failed: false,
            generation: 0,
            session: None,
            revision: 0,
            observed: String::new(),
            cursor: 0,
            context: Context { dollar: None, agent: None, ranks: Vec::new() },
            dismissed: false,
            token: None,
            help: false,
            help_filter: Editor::default(),
            detail: None,
            offset: 0,
            detail_area: Area { x: 0, y: 0, width: 0, height: 0 },
            page: 0,
            selected: 0,
            diagnostic: String::new(),
        };
        proof {
            text::lemma_boundary_ends(r.observed@);
            assert(r@ =~= UiView::fresh());
        }
        r
    }
}

impl Ui {
    pub closed spec fn wf(&self) -> bool {
        &&& self@.valid()
        &&& self.help_filter.wf()
    }

    /// What a well-formed list keeps.
    pub proof fn law_valid(&self)
        requires
            self.wf(),
        ensures
            self@.valid(),
    {
    }

    fn all(&self) -> (r: Vec<Entry>)
        ensures
            slash::entries_of(r@) == self@.all(),
    {
        let mut out: Vec<Entry> = Vec::new();
        let mut i: usize = 0;
        while i < BUILTINS
            invariant
                i <= BUILTINS,
                slash::entries_of(out@) == slash::builtin_entries().take(i as int),
            decreases BUILTINS - i,
        {
            let ghost before = slash::entries_of(out@);
            let e = Entry {
                name: builtin_name_at(i).to_owned(),
                description: builtin_description_at(i).to_owned(),
                application: true,
                skill: None,
            };
            let ghost view = e@;
            out.push(e);
            proof {
                assert(view =~= slash::builtin_entry(i as int));
                assert(slash::entries_of(out@) =~= before.push(view));
                assert(slash::builtin_entries().take(i as int + 1) =~= before.push(view));
            }
            i += 1;
        }
        let mut j: usize = 0;
        proof {
            assert(slash::builtin_entries().take(BUILTINS as int) =~= slash::builtin_entries());
            assert(self@.catalog.take(0) =~= Seq::<EntryView>::empty());
            assert(slash::builtin_entries() + self@.catalog.take(0) =~= slash::builtin_entries());
        }
        while j < self.catalog.len()
            invariant
                j <= self.catalog@.len(),
                self@.catalog.len() == self.catalog@.len(),
                self@.catalog == slash::entries_of(self.catalog@),
                slash::entries_of(out@) == slash::builtin_entries() + self@.catalog.take(j as int),
            decreases self.catalog@.len() - j,
        {
            let ghost before = slash::entries_of(out@);
            let e = self.catalog[j].clone();
            let ghost view = e@;
            out.push(e);
            proof {
                assert(slash::entries_of(out@) =~= before.push(view));
                assert(self@.catalog.take(j as int + 1) =~= self@.catalog.take(j as int).push(
                    view,
                ));
                assert(slash::builtin_entries() + self@.catalog.take(j as int).push(view)
                    =~= before.push(view));
            }
            j += 1;
        }
        proof {
            assert(self@.catalog.take(self@.catalog.len() as int) =~= self@.catalog);
        }
        out
    }

    fn providers(&self) -> (r: bool)
        ensures
            r == self@.providers(),
    {
        names_provider(self.observed.as_str(), self.cursor, &self.context)
    }

    /// The entries that a text is held against.
    pub fn candidates_for(&self, s: &str, cursor: usize, context: &Context) -> (r: Vec<Entry>)
        ensures
            slash::entries_of(r@) == (UiView {
                observed: s@,
                cursor,
                context: context@,
                ..self@
            }).candidates(),
    {
        if names_provider(s, cursor, context) {
            make_providers()
        } else {
            self.all()
        }
    }

    /// The entries that what is typed is held against.
    pub fn candidates(&self) -> (r: Vec<Entry>)
        ensures
            slash::entries_of(r@) == self@.candidates(),
    {
        self.candidates_for(self.observed.as_str(), self.cursor, &self.context)
    }

    fn span(&self) -> (r: Option<(usize, usize)>)
        requires
            self@.steady(),
        ensures
            r == self@.span(),
            r matches Some(span) ==> spans(self@.observed, span),
    {
        find_span(self.observed.as_str(), self.cursor, &self.context)
    }

    fn wanted(&self, e: &Entry) -> (r: bool)
        ensures
            r == self@.wanted(e@),
    {
        let agent: bool = match &e.skill {
            Some(skill) => skill.agent,
            None => false,
        };
        if self.providers() {
            true
        } else if self.context.agent.is_some() {
            agent
        } else if self.context.dollar.is_some() {
            e.skill.is_some() && !agent
        } else {
            !agent
        }
    }

    fn matches(&self, span: (usize, usize)) -> (r: Vec<Ranked>)
        requires
            spans(self@.observed, span),
        ensures
            slash::ranked_of(r@) == self@.matches(span),
    {
        let filter = unmark(slice(self.observed.as_str(), span.0, span.1));
        let empty: bool = filter.as_str().is_empty();
        let mut source = self.candidates();
        let mut list: Vec<Ranked> = Vec::new();
        let ghost all = self@.candidates();
        let mut i: usize = 0;
        let total: usize = source.len();
        proof {
            assert(slash::ranked_of(list@) =~= Seq::<RankedView>::empty());
            assert(all.skip(0) =~= all);
            assert(all.len() == source@.len());
        }
        while source.len() > 0
            invariant
                i <= all.len(),
                all == self@.candidates(),
                slash::entries_of(source@) == all.skip(i as int),
                i + source@.len() == all.len(),
                all.len() == total,
                slash::ranked_of(list@) == self@.matching(i as int, empty),
            decreases source@.len(),
        {
            let ghost pending = slash::entries_of(source@);
            let ghost before = slash::ranked_of(list@);
            let e = source.remove(0);
            proof {
                assert(pending[0] == e@);
                assert(all[i as int] == pending[0]);
                assert(slash::entries_of(source@) =~= pending.drop_first());
                assert(pending.drop_first() =~= all.skip(i as int + 1));
            }
            let rank: Option<u8> = if i < self.context.ranks.len() {
                self.context.ranks[i]
            } else {
                None
            };
            if let Some(rank) = rank {
                if self.wanted(&e) && !(empty && same(e.name.as_str(), "exit")) {
                    let ghost view = RankedView { entry: e@, rank };
                    list.push(Ranked { entry: e, rank });
                    proof {
                        assert(slash::ranked_of(list@) =~= before.push(view));
                    }
                }
            }
            i += 1;
        }
        if empty {
            list
        } else {
            order(list)
        }
    }

    fn rebuild(&mut self)
        requires
            old(self)@.steady(),
            old(self).help_filter.wf(),
        ensures
            final(self).wf(),
            final(self)@ == old(self)@.rebuilt(),
    {
        proof {
            reveal(UiView::rebuilt);
        }
        let ghost v = self@;
        let marked: bool = self.context.dollar.is_some() || self.context.agent.is_some();
        let s: &str = self.observed.as_str();
        let open: bool = !self.help && !self.dismissed && (marked || (starts_with(s, "/")
            && !starts_with(s, "//") && !contains_char(s, '\n') && !contains_char(s, '\r')));
        if open {
            if let Some(span) = self.span() {
                if self.cursor >= span.0 {
                    let list = self.matches(span);
                    let providers: bool = self.providers();
                    let items = completion_items(&list, providers, self.context.dollar.is_some());
                    let mut kept: bool = false;
                    let mut selected: usize = 0;
                    if let Some(p) = &self.popup {
                        if same_items(&p.items, &items) {
                            kept = true;
                            selected = p.selected;
                        }
                    }
                    if !kept {
                        self.revision = bump(self.revision);
                    }
                    let mut entries: Vec<Entry> = Vec::new();
                    let mut i: usize = 0;
                    while i < list.len()
                        invariant
                            i <= list@.len(),
                            slash::entries_of(entries@) == entries_in(
                                slash::ranked_of(list@),
                            ).take(i as int),
                        decreases list@.len() - i,
                    {
                        let ghost before = slash::entries_of(entries@);
                        let e = list[i].entry.clone();
                        let ghost view = e@;
                        entries.push(e);
                        proof {
                            assert(slash::entries_of(entries@) =~= before.push(view));
                            assert(entries_in(slash::ranked_of(list@)).take(i as int + 1)
                                =~= before.push(view));
                        }
                        i += 1;
                    }
                    proof {
                        assert(entries_in(slash::ranked_of(list@)).take(list@.len() as int)
                            =~= entries_in(slash::ranked_of(list@)));
                    }
                    let revision: u64 = self.revision;
                    self.popup = if items.len() == 0 {
                        None
                    } else {
                        Some(Popup { revision, items, selected })
                    };
                    self.entries = entries;
                    self.token = Some(span);
                    proof {
                        assert(self@ =~= v.rebuilt());
                    }
                    return;
                }
            }
        }
        self.token = None;
        self.popup = None;
        proof {
            assert(self@ =~= v.rebuilt());
        }
    }

    /// Puts the list away until the text changes.
    pub fn hide_list(&mut self)
        requires
            old(self).wf(),
        ensures
            final(self).wf(),
            final(self)@ == old(self)@.hidden(),
    {
        let ghost v = self@;
        if self.token.is_some() {
            self.generation = bump(self.generation);
        }
        self.refresh = false;
        self.popup = None;
        self.token = None;
        self.dismissed = true;
        proof {
            assert(self@ =~= v.hidden());
        }
    }

    /// Marks what is being read as old, and asks for it again.
    pub fn invalidate(&mut self)
        requires
            old(self).wf(),
        ensures
            final(self).wf(),
            final(self)@ == old(self)@.invalidated(),
    {
        let ghost v = self@;
        if (self.token.is_some() && !self.dismissed) || self.help {
            self.generation = bump(self.generation);
            self.refresh = true;
        }
        proof {
            assert(self@ =~= v.invalidated());
        }
    }

    fn attach(&mut self, session: Option<String>)
        requires
            old(self).wf(),
        ensures
            final(self).wf(),
            final(self)@ == old(self)@.attached_to(scene::optional(session)),
    {
        let ghost v = self@;
        if !scene::same_optional(&session, &self.session) {
            self.session = session;
            self.failed = false;
            self.generation = bump(self.generation);
            self.pending = None;
            self.preview = None;
            self.preview_request = None;
            self.previewing = false;
            self.detail = None;
            self.help = false;
            self.catalog = Vec::new();
            self.refresh = true;
            proof {
                assert(slash::entries_of(self.catalog@) =~= Seq::<EntryView>::empty());
                assert(self@ =~= UiView {
                    session: scene::optional(session),
                    failed: false,
                    generation: bumped(v.generation),
                    pending: None,
                    preview: None,
                    preview_request: None,
                    previewing: false,
                    detail: None,
                    help: false,
                    catalog: seq![],
                    refresh: true,
                    ..v
                });
            }
            self.rebuild();
        }
    }

    fn ask(&mut self, session: bool) -> (r: Option<(u64, u64)>)
        requires
            old(self).wf(),
        ensures
            final(self).wf(),
            final(self)@ == old(self)@.asking(session),
            r == (match old(self)@.preview_request {
                Some(resource) => if session {
                    Some((old(self)@.generation, resource))
                } else {
                    None
                },
                None => None,
            }),
    {
        let ghost v = self@;
        let mut r: Option<(u64, u64)> = None;
        if session {
            if let Some(resource) = self.preview_request {
                self.preview_request = None;
                self.preview = Some(self.generation);
                r = Some((self.generation, resource));
            }
        }
        proof {
            assert(self@ =~= v.asking(session));
        }
        r
    }

    fn follow(&mut self, editor: &Editor, context: Context)
        requires
            old(self).wf(),
            editor.wf(),
            context@.over(editor@.text),
        ensures
            final(self).wf(),
            final(self)@ == old(self)@.following(
                editor@.text,
                editor@.cursor as usize,
                context@,
            ),
    {
        proof {
            editor.law_bounds();
        }
        let changed: bool = !same(self.observed.as_str(), editor.text()) || self.cursor
            != editor.cursor();
        if changed && self.failed {
            self.invalidate();
        }
        let ghost v = self@;
        let was_open: bool = self.token.is_some() && (changed || !self.dismissed);
        if changed {
            self.observed = editor.text().to_owned();
            self.cursor = editor.cursor();
            self.dismissed = false;
            self.context = context;
            proof {
                assert(self@ =~= UiView {
                    observed: editor@.text,
                    cursor: editor@.cursor as usize,
                    dismissed: false,
                    context: context@,
                    ..v
                });
            }
            self.rebuild();
        }
        if !was_open && self.token.is_some() && !self.dismissed {
            self.invalidate();
        }
    }

    fn fetch(&mut self, session: bool) -> (r: Option<u64>)
        requires
            old(self).wf(),
        ensures
            final(self).wf(),
            final(self)@ == old(self)@.fetching(session),
            r == (if old(self)@.refresh && old(self)@.pending is None && session {
                Some(old(self)@.generation)
            } else {
                None
            }),
    {
        let ghost v = self@;
        let mut r: Option<u64> = None;
        if self.refresh && self.pending.is_none() && session {
            self.refresh = false;
            self.pending = Some(self.generation);
            r = Some(self.generation);
        }
        proof {
            assert(self@ =~= v.fetching(session));
        }
        r
    }

    /// Follows the text under edit and the session, and says what to read.
    pub fn update(&mut self, editor: &Editor, session: Option<String>, context: Context) -> (r:
        Reads)
        requires
            old(self).wf(),
            editor.wf(),
            context@.over(editor@.text),
        ensures
            final(self).wf(),
            ({
                let attached = session is Some;
                let v = old(self)@.attached_to(scene::optional(session));
                let w = v.asking(attached).following(
                    editor@.text,
                    editor@.cursor as usize,
                    context@,
                );
                &&& final(self)@ == w.fetching(attached)
                &&& r.preview == (match v.preview_request {
                    Some(resource) => if attached {
                        Some((v.generation, resource))
                    } else {
                        None
                    },
                    None => None,
                })
                &&& r.catalog == (if w.refresh && w.pending is None && attached {
                    Some(w.generation)
                } else {
                    None
                })
            }),
    {
        let attached: bool = session.is_some();
        self.attach(session);
        let preview: Option<(u64, u64)> = self.ask(attached);
        self.follow(editor, context);
        let catalog: Option<u64> = self.fetch(attached);
        Reads { preview, catalog }
    }

    /// The completion list, where one is shown.
    pub fn popup(&self) -> (r: Option<&Popup>)
        ensures
            match r {
                Some(p) => self@.popup == Some(p@),
                None => self@.popup is None,
            },
    {
        match &self.popup {
            Some(p) => Some(p),
            None => None,
        }
    }

    /// Whether the help is shown.
    pub fn helping(&self) -> (r: bool)
        ensures
            r == self@.help,
    {
        self.help
    }

    /// What went wrong last, or is to be noticed.
    pub fn diagnostic(&self) -> (r: &str)
        ensures
            r@ == self@.diagnostic,
    {
        self.diagnostic.as_str()
    }

    /// The generation that a result has to belong to.
    pub fn generation(&self) -> (r: u64)
        ensures
            r == self@.generation,
    {
        self.generation
    }

    /// Whether a catalog is being read.
    pub fn loading(&self) -> (r: bool)
        ensures
            r == self@.pending is Some,
    {
        self.pending.is_some()
    }

    /// Whether the catalog is to be read again.
    pub fn refreshing(&self) -> (r: bool)
        ensures
            r == self@.refresh,
    {
        self.refresh
    }

    /// The line of the help that is selected.
    pub fn selected(&self) -> (r: usize)
        ensures
            r == self@.selected,
    {
        self.selected
    }

    /// How far the detail is scrolled.
    pub fn offset(&self) -> (r: usize)
        ensures
            r == self@.offset,
    {
        self.offset
    }

    /// Takes in a catalog that was read, with how well its entries match what is typed.
    pub fn loaded(
        &mut self,
        generation: u64,
        result: Result<(Vec<Entry>, String), String>,
        ranks: Vec<Option<u8>>,
    )
        requires
            old(self).wf(),
        ensures
            final(self).wf(),
            final(self)@ == old(self)@.loaded(
                generation,
                match result {
                    Ok((entries, _)) => Some(slash::entries_of(entries@)),
                    Err(_) => None,
                },
                match result {
                    Ok((_, notice)) => notice@,
                    Err(e) => e@,
                },
                ranks@,
            ),
    {
        let ghost v0 = self@;
        self.pending = None;
        let ghost v = self@;
        proof {
            assert(v =~= UiView { pending: None, ..v0 });
        }
        if generation != self.generation || ((self.token.is_none() || self.dismissed)
            && !self.help) {
            return;
        }
        self.revision = bump(self.revision);
        self.context.ranks = ranks;
        match result {
            Ok((entries, notice)) => {
                self.failed = false;
                self.catalog = entries;
                self.diagnostic = notice;
            },
            Err(e) => {
                self.failed = true;
                self.catalog = Vec::new();
                self.diagnostic = cat3(
                    "Commands unavailable: ",
                    e.as_str(),
                    "; edit or reopen to retry",
                );
                proof {
                    assert(slash::entries_of(self.catalog@) =~= Seq::<EntryView>::empty());
                }
            },
        }
        let ghost w = self@;
        if self.help {
            let last: usize = self.help_entries().len().saturating_sub(1);
            if self.selected > last {
                self.selected = last;
            }
        }
        proof {
            let last = if w.help_list().len() > 0 {
                (w.help_list().len() - 1) as usize
            } else {
                0
            };
            assert(self@ =~= UiView {
                selected: if w.help && w.selected > last {
                    last
                } else {
                    w.selected
                },
                ..w
            });
        }
        self.rebuild();
    }

    /// Takes in a preview that was read.
    pub fn previewed(&mut self, generation: u64, result: Result<String, String>)
        requires
            old(self).wf(),
        ensures
            final(self).wf(),
            final(self)@ == old(self)@.previewed(
                generation,
                result is Ok,
                match result {
                    Ok(s) => s@,
                    Err(e) => e@,
                },
            ),
    {
        let ghost v = self@;
        self.preview = None;
        if generation == self.generation && self.help && self.previewing {
            self.detail = Some(
                match result {
                    Ok(s) => s,
                    Err(e) => cat3(
                        "Resource unavailable: ",
                        e.as_str(),
                        ". Close and preview again to retry.",
                    ),
                },
            );
            self.revision = bump(self.revision);
        }
        proof {
            assert(self@ =~= v.previewed(
                generation,
                result is Ok,
                match result {
                    Ok(s) => s@,
                    Err(e) => e@,
                },
            ));
        }
    }

    /// The entries that the help lists.
    pub fn help_entries(&self) -> (r: Vec<Entry>)
        ensures
            slash::entries_of(r@) == self@.help_list(),
    {
        let mut source = self.all();
        let ghost all = self@.all();
        let total: usize = source.len();
        let mut out: Vec<Entry> = Vec::new();
        let mut i: usize = 0;
        proof {
            assert(slash::entries_of(out@) =~= Seq::<EntryView>::empty());
            assert(all.skip(0) =~= all);
            assert(all.len() == source@.len());
        }
        while source.len() > 0
            invariant
                i <= all.len(),
                all == self@.all(),
                all.len() == total,
                slash::entries_of(source@) == all.skip(i as int),
                i + source@.len() == total,
                slash::entries_of(out@) == self@.helped(i as int),
            decreases source@.len(),
        {
            let ghost pending = slash::entries_of(source@);
            let ghost before = slash::entries_of(out@);
            let e = source.remove(0);
            proof {
                assert(pending[0] == e@);
                assert(all[i as int] == pending[0]);
                assert(slash::entries_of(source@) =~= pending.drop_first());
                assert(pending.drop_first() =~= all.skip(i as int + 1));
            }
            if contains_text(e.name.as_str(), self.help_filter.text()) {
                let ghost view = e@;
                out.push(e);
                proof {
                    assert(slash::entries_of(out@) =~= before.push(view));
                }
            }
            i += 1;
        }
        out
    }

    fn detail_page(&self) -> (r: String)
        ensures
            r@ == self@.detail_page(),
            text::size(r@) <= display::DETAIL_PAGE_BYTES,
    {
        match &self.detail {
            Some(d) => {
                let pages = detail_pages(d.as_str());
                if self.page < pages.len() {
                    proof {
                        display::law_pages(d@, display::DETAIL_PAGE_BYTES as int);
                        assert(text::views(pages@)[self.page as int] == pages@[self.page as int]@);
                    }
                    pages[self.page].clone()
                } else {
                    let r = String::new();
                    proof {
                        assert(r@ =~= self@.detail_page());
                    }
                    r
                }
            },
            None => {
                let r = String::new();
                proof {
                    assert(r@ =~= self@.detail_page());
                }
                r
            },
        }
    }

    /// How far the page of the detail can be scrolled.
    pub fn maximum_detail_offset(&self) -> (r: usize)
        ensures
            r == self@.maximum_offset(),
    {
        if self.detail_area.width == 0 {
            return 8192;
        }
        let page = self.detail_page();
        proof {
            display::lemma_shown_size(page@);
        }
        let page = terminal_text(page.as_str());
        let lines: usize = line_count(page.as_str(), self.detail_area.width);
        let height: usize = self.detail_area.height as usize;
        lines.saturating_sub(height)
    }

    /// Notes where the detail was shown.
    pub fn presented(&mut self, view: &Shown)
        requires
            old(self).wf(),
        ensures
            final(self).wf(),
            final(self)@ == old(self)@.framed(view.choice_revision, view.area),
    {
        let ghost v = self@;
        if self.help && self.detail.is_some() && view.choice_revision == self.revision
            && view.area.width > 0 {
            self.detail_area = view.area;
            proof {
                assert(self@ =~= UiView { detail_area: view.area, ..v });
            }
            let maximum: usize = self.maximum_detail_offset();
            if self.offset > maximum {
                self.offset = maximum;
            }
        }
        proof {
            assert(self@ =~= v.framed(view.choice_revision, view.area));
        }
    }

    /// Acts on a pasted text, and says whether it ended here.
    pub fn paste(&mut self, s: &str) -> (consumed: bool)
        requires
            old(self).wf(),
        ensures
            final(self).wf(),
            old(self)@.pasted(s@, final(self)@, consumed),
    {
        if !self.help {
            return false;
        }
        let ghost v = self@;
        self.revision = bump(self.revision);
        if self.detail.is_none() {
            let r = self.help_filter.insert(s);
            proof {
                assert(editor::inserted(v.help_filter, s@, r, self.help_filter@));
            }
            if let Err(problem) = r {
                self.diagnostic = problem.to_owned();
            }
            self.selected = 0;
            proof {
                assert(self@ =~= UiView {
                    revision: bumped(v.revision),
                    help_filter: self@.help_filter,
                    diagnostic: match r {
                        Ok(_) => v.diagnostic,
                        Err(e) => e@,
                    },
                    selected: 0,
                    ..v
                });
            }
        } else {
            proof {
                assert(self@ =~= UiView { revision: bumped(v.revision), ..v });
            }
        }
        true
    }

    /// Opens the help.
    pub fn open_help(&mut self)
        requires
            old(self).wf(),
        ensures
            final(self).wf(),
            final(self)@ == old(self)@.opened(),
    {
        let ghost v = self@;
        self.previewing = false;
        self.revision = bump(self.revision);
        self.page = 0;
        self.offset = 0;
        self.selected = 0;
        self.help = true;
        self.popup = None;
        self.help_filter = Editor::with_text(String::new(), 512);
        self.detail = None;
        proof {
            assert(self.help_filter@.text =~= Seq::<char>::empty());
            assert(self@ =~= UiView {
                previewing: false,
                revision: bumped(v.revision),
                page: 0,
                offset: 0,
                selected: 0,
                help: true,
                popup: None,
                help_filter: EditorView::over(seq![], 512),
                detail: None,
                ..v
            });
        }
        self.invalidate();
    }

    /// The screen of the help.
    pub fn scene(&self) -> (r: Scene)
        requires
            self.wf(),
        ensures
            r@ == self@.pictured(),
    {
        let number = decimal((self.page + 1) as u64);
        let title: String = if self.previewing {
            cat2("RSI · Skill · page ", number.as_str())
        } else if self.detail.is_some() {
            cat2("RSI · Help · page ", number.as_str())
        } else {
            "RSI · Help".to_owned()
        };
        let explanation: String = if self.previewing {
            "Preview only · Esc returns to your draft".to_owned()
        } else {
            "Enter sends · Shift+Enter / Ctrl+J line · Ctrl+P actions · Ctrl+R recall · Ctrl+Y copy ID · Ctrl+C cancel turn".to_owned()
        };
        let mut items: Vec<String> = Vec::new();
        if self.detail.is_none() {
            let entries = self.help_entries();
            let mut i: usize = 0;
            while i < entries.len()
                invariant
                    i <= entries@.len(),
                    slash::entries_of(entries@) == self@.help_list(),
                    text::views(items@) == self@.help_lines().take(i as int),
                decreases entries@.len() - i,
            {
                let ghost before = text::views(items@);
                proof {
                    assert(self@.help_list()[i as int] == entries@[i as int]@);
                }
                let line = cat4(
                    "/",
                    entries[i].name.as_str(),
                    " · ",
                    bounded(entries[i].description.as_str(), 256),
                );
                let ghost view = line@;
                items.push(line);
                proof {
                    assert(text::views(items@) =~= before.push(view));
                    assert(self@.help_lines()[i as int] == view);
                    assert(self@.help_lines().take(i as int + 1) =~= before.push(view));
                }
                i += 1;
            }
            proof {
                assert(self@.help_lines().take(entries@.len() as int) =~= self@.help_lines());
            }
        } else {
            proof {
                assert(text::views(items@) =~= Seq::<Seq<char>>::empty());
            }
        }
        let selected: usize = if self.detail.is_some() {
            0
        } else {
            self.selected
        };
        let receipts: Vec<String> = Vec::new();
        proof {
            assert(text::views(receipts@) =~= Seq::<Seq<char>>::empty());
        }
        let r = Scene {
            revision: self.revision,
            title,
            explanation,
            status: self.diagnostic.clone(),
            items,
            selected,
            detail: if self.detail.is_some() {
                Some(self.detail_page())
            } else {
                None
            },
            detail_offset: self.offset,
            field: if self.detail.is_some() {
                None
            } else {
                Some("Filter commands · Enter detail".to_owned())
            },
            input: Draft::capture(&self.help_filter),
            hint: "Esc back · ↑/↓ scroll · PgUp/Dn page".to_owned(),
            progress: None,
            receipts,
            composer_prefix: None,
        };
        proof {
            assert(r@ =~= self@.pictured());
        }
        r
    }

    /// Acts on the pointer, and says whether it ended here.
    pub fn mouse(&mut self, mouse: MouseEvent, view: &Shown) -> (consumed: bool)
        requires
            old(self).wf(),
        ensures
            final(self).wf(),
            final(self)@ == old(self)@.pointed(mouse, *view),
            consumed == (old(self)@.help || old(self)@.hit(mouse, *view)),
    {
        let ghost v = self@;
        if self.help {
            if view.choice_revision != self.revision || !view.area.contains(
                mouse.column,
                mouse.row,
            ) {
                return true;
            }
            if self.detail.is_some() {
                match mouse.kind {
                    MouseKind::ScrollUp => {
                        self.offset = self.offset.saturating_sub(3);
                    },
                    MouseKind::ScrollDown => {
                        let next: usize = self.offset.saturating_add(3);
                        self.offset = if next < view.scroll_max {
                            next
                        } else {
                            view.scroll_max
                        };
                    },
                    _ => {},
                }
                proof {
                    assert(self@ =~= v.help_pointed(mouse, *view));
                }
                return true;
            }
            match mouse.kind {
                MouseKind::ScrollUp => {
                    self.selected = up(self.selected);
                },
                MouseKind::ScrollDown => {
                    let entries = self.help_entries();
                    proof {
                        assert(entries@.len() == self@.help_list().len());
                    }
                    self.selected = down(self.selected, entries.len());
                },
                MouseKind::LeftDown => {
                    let entries = self.help_entries();
                    proof {
                        assert(entries@.len() == self@.help_list().len());
                    }
                    if let Some(index) = view.choice_at(mouse.column, mouse.row) {
                        if index < entries.len() {
                            self.selected = index;
                        }
                    }
                },
                _ => {},
            }
            self.revision = bump(self.revision);
            proof {
                assert(self@ =~= v.help_pointed(mouse, *view));
            }
            return true;
        }
        let mut popup: Option<Popup> = None;
        std::mem::swap(&mut popup, &mut self.popup);
        let mut consumed: bool = false;
        if let Some(mut p) = popup {
            if let Some((revision, area, from)) = view.completion {
                if revision == p.revision && area.contains(mouse.column, mouse.row) {
                    consumed = true;
                    match mouse.kind {
                        MouseKind::ScrollUp => {
                            p.selected = up(p.selected);
                        },
                        MouseKind::ScrollDown => {
                            p.selected = down(p.selected, p.items.len());
                        },
                        MouseKind::LeftDown => {
                            let row: usize = (mouse.row - area.y) as usize;
                            let line: usize = from.saturating_add(row);
                            let last: usize = p.items.len() - 1;
                            p.selected = if line < last {
                                line
                            } else {
                                last
                            };
                        },
                        _ => {},
                    }
                }
            }
            self.popup = Some(p);
        }
        proof {
            assert(self@ =~= v.pointed(mouse, *view));
        }
        consumed
    }

    fn help_key(&mut self, key: KeyEvent)
        requires
            old(self).wf(),
        ensures
            final(self).wf(),
            old(self)@.help_keyed(key, final(self)@),
    {
        let ghost v = self@;
        if matches!(key.code, KeyCode::Escape) {
            if self.detail.is_none() {
                self.help = false;
                self.dismissed = true;
            } else {
                self.detail = None;
            }
            proof {
                assert(self@ =~= if v.detail is None {
                    UiView { help: false, dismissed: true, ..v }
                } else {
                    UiView { detail: None, ..v }
                });
            }
        } else if key.control && key.code == KeyCode::Char('c') {
            self.help = false;
            self.detail = None;
            self.dismissed = true;
            proof {
                assert(self@ =~= UiView { help: false, detail: None, dismissed: true, ..v });
            }
        } else if self.detail.is_some() {
            self.detail_key(key);
        } else if matches!(key.code, KeyCode::Enter) {
            let entries = self.help_entries();
            if self.selected < entries.len() {
                proof {
                    assert(self@.help_list()[self.selected as int]
                        == entries@[self.selected as int]@);
                }
                self.detail = Some(
                    cat4(
                        "/",
                        entries[self.selected].name.as_str(),
                        "\n",
                        entries[self.selected].description.as_str(),
                    ),
                );
                self.offset = 0;
                self.page = 0;
                proof {
                    assert(self@ =~= UiView {
                        detail: Some(
                            "/"@ + v.help_list()[v.selected as int].name + "\n"@
                                + v.help_list()[v.selected as int].description,
                        ),
                        offset: 0,
                        page: 0,
                        ..v
                    });
                }
            } else {
                proof {
                    assert(v.help_list().len() == entries@.len());
                }
            }
        } else if matches!(key.code, KeyCode::Up) {
            self.selected = up(self.selected);
            proof {
                assert(self@ =~= UiView {
                    selected: scene::step_up(v.selected as int) as usize,
                    ..v
                });
            }
        } else if matches!(key.code, KeyCode::Down) {
            let entries = self.help_entries();
            proof {
                assert(v.help_list().len() == entries@.len());
            }
            self.selected = down(self.selected, entries.len());
            proof {
                assert(self@ =~= UiView {
                    selected: scene::step_down(
                        v.selected as int,
                        v.help_list().len() as int,
                    ) as usize,
                    ..v
                });
            }
        } else {
            let r = self.help_filter.key(key);
            proof {
                assert(editor::pressed(v.help_filter, key, r, self.help_filter@));
            }
            self.selected = 0;
            proof {
                assert(self@ =~= UiView { help_filter: self@.help_filter, selected: 0, ..v });
            }
        }
    }

    fn detail_key(&mut self, key: KeyEvent)
        requires
            old(self).wf(),
            old(self)@.detail is Some,
            !(key.code is Escape),
            !(key.control && key.code == KeyCode::Char('c')),
        ensures
            final(self).wf(),
            old(self)@.help_keyed(key, final(self)@),
    {
        let ghost v = self@;
        match key.code {
            KeyCode::PageDown => {
                let pages: usize = match &self.detail {
                    Some(d) => {
                        let pages = detail_pages(d.as_str());
                        proof {
                            assert(text::views(pages@).len() == pages@.len());
                        }
                        pages.len()
                    },
                    None => 0,
                };
                self.page = down(self.page, pages);
                self.offset = 0;
                proof {
                    assert(self@ =~= UiView {
                        page: scene::step_down(v.page as int, pages as int) as usize,
                        offset: 0,
                        ..v
                    });
                }
            },
            KeyCode::PageUp => {
                self.page = up(self.page);
                self.offset = 0;
                proof {
                    assert(self@ =~= UiView {
                        page: scene::step_up(v.page as int) as usize,
                        offset: 0,
                        ..v
                    });
                }
            },
            KeyCode::Down => {
                let maximum: usize = self.maximum_detail_offset();
                self.offset = if self.offset < maximum {
                    self.offset + 1
                } else {
                    maximum
                };
                proof {
                    assert(self@ =~= UiView {
                        offset: if v.offset < v.maximum_offset() {
                            (v.offset + 1) as usize
                        } else {
                            v.maximum_offset()
                        },
                        ..v
                    });
                }
            },
            KeyCode::Up => {
                self.offset = up(self.offset);
                proof {
                    assert(self@ =~= UiView {
                        offset: scene::step_up(v.offset as int) as usize,
                        ..v
                    });
                }
            },
            _ => {},
        }
    }

    /// Acts on a key, and says whether it ended here. The enter key may be left to the caller
    /// once it has completed a command.
    pub fn key(&mut self, key: KeyEvent, editor: &mut Editor) -> (consumed: bool)
        requires
            old(self).wf(),
            old(editor).wf(),
            old(self)@.fits(key, old(editor)@.text),
        ensures
            final(self).wf(),
            final(editor).wf(),
            old(self)@.keyed(old(editor)@, key, final(self)@, final(editor)@, consumed),
    {
        let ghost v = self@;
        if self.help && self.previewing && matches!(key.code, KeyCode::Escape) {
            self.preview = None;
            self.preview_request = None;
            self.previewing = false;
            self.help = false;
            self.detail = None;
            self.dismissed = false;
            self.revision = bump(self.revision);
            proof {
                assert(self@ =~= UiView {
                    preview: None,
                    preview_request: None,
                    previewing: false,
                    help: false,
                    detail: None,
                    dismissed: false,
                    revision: bumped(v.revision),
                    ..v
                });
            }
            self.rebuild();
            return true;
        }
        if self.help {
            self.revision = bump(self.revision);
            proof {
                assert(self@ =~= UiView { revision: bumped(v.revision), ..v });
            }
            self.help_key(key);
            return true;
        }
        if matches!(key.code, KeyCode::Tab) && self.popup.is_none() {
            self.dismissed = false;
            proof {
                assert(self@ =~= UiView { dismissed: false, ..v });
            }
            self.rebuild();
            if self.token.is_some() {
                self.invalidate();
            }
        }
        if matches!(key.code, KeyCode::Escape) && self.token.is_some() {
            self.hide_list();
            return true;
        }
        if self.popup.is_none() {
            return matches!(key.code, KeyCode::Tab) && self.token.is_some();
        }
        self.popup_key(key, editor)
    }

    fn popup_key(&mut self, key: KeyEvent, editor: &mut Editor) -> (consumed: bool)
        requires
            old(self).wf(),
            old(editor).wf(),
            old(self)@.popup is Some,
            spans(old(editor)@.text, old(self)@.token->0),
        ensures
            final(self).wf(),
            final(editor).wf(),
            old(self)@.popup_keyed(old(editor)@, key, final(self)@, final(editor)@, consumed),
    {
        let ghost v = self@;
        let mut popup: Option<Popup> = None;
        std::mem::swap(&mut popup, &mut self.popup);
        let mut p: Popup = popup.unwrap();
        let ghost pv = p@;
        proof {
            assert(v.entries[p.selected as int] == self.entries@[p.selected as int]@);
            assert(pv.items[p.selected as int].0 == p.items@[p.selected as int].0@);
        }
        let index: usize = p.selected;
        if key.code == KeyCode::Function(2) {
            self.popup = Some(p);
            let mut resource: Option<u64> = None;
            let mut agent: bool = false;
            if let Some(skill) = &self.entries[index].skill {
                agent = skill.agent;
                resource = skill.resource;
            }
            self.preview_agent = agent;
            proof {
                assert(self@ =~= UiView { preview_agent: agent, ..v });
            }
            if resource.is_some() {
                self.preview_request = resource;
                self.previewing = true;
                self.help = true;
                self.detail = Some("Loading resource…".to_owned());
                self.page = 0;
                self.offset = 0;
                self.revision = bump(self.revision);
                proof {
                    assert(self@ =~= UiView {
                        preview_agent: agent,
                        preview_request: resource,
                        previewing: true,
                        help: true,
                        detail: Some("Loading resource…"@),
                        page: 0,
                        offset: 0,
                        revision: bumped(v.revision),
                        ..v
                    });
                }
            }
            return true;
        }
        if matches!(key.code, KeyCode::Up) || matches!(key.code, KeyCode::Down) {
            p.selected = if matches!(key.code, KeyCode::Up) {
                up(p.selected)
            } else {
                down(p.selected, p.items.len())
            };
            let ghost after = p@;
            self.popup = Some(p);
            proof {
                assert(self@ =~= UiView { popup: Some(after), ..v });
                assert(after =~= PopupView { selected: after.selected, ..pv });
            }
            return true;
        }
        if (matches!(key.code, KeyCode::Tab) || matches!(key.code, KeyCode::Enter)) && !key.shift
            && !key.control {
            let span: (usize, usize) = self.token.unwrap();
            let application: bool = self.entries[index].application;
            let replacement: &str = p.items[index].0.as_str();
            let complete: bool = same(slice(editor.text(), span.0, span.1), replacement);
            if matches!(key.code, KeyCode::Enter) && complete {
                self.popup = Some(p);
                proof {
                    assert(self@ =~= v);
                }
                return false;
            }
            let mid_cursor: bool = editor.cursor() != text::byte_len(editor.text());
            let r = editor.replace_range(span.0, span.1, replacement);
            self.popup = Some(p);
            proof {
                assert(self@ =~= v);
            }
            if let Err(problem) = r {
                self.diagnostic = problem.to_owned();
                proof {
                    assert(self@ =~= UiView { diagnostic: problem@, ..v });
                }
                return true;
            }
            return matches!(key.code, KeyCode::Tab) || !application || mid_cursor;
        }
        self.popup = Some(p);
        proof {
            assert(self@ =~= v);
        }
        false
    }
}

/// A catalog of an older generation, or one that nothing shows, changes nothing but that none
/// is being read any longer.
pub proof fn law_stale_catalog(
    v: UiView,
    generation: u64,
    entries: Option<Seq<EntryView>>,
    message: Seq<char>,
    ranks: Seq<Option<u8>>,
)
    requires
        generation != v.generation || ((v.token is None || v.dismissed) && !v.help),
    ensures
        v.loaded(generation, entries, message, ranks) == (UiView { pending: None, ..v }),
{
}

/// A catalog that was asked for before the list was put away, marked as old or given to another
/// session is stale afterwards.
pub proof fn law_fenced(v: UiView, session: Option<Seq<char>>)
    requires
        v.token is Some,
        !v.dismissed,
    ensures
        v.hidden().generation != v.generation,
        v.invalidated().generation != v.generation,
        v.invalidated().refresh,
        session != v.session ==> v.attached_to(session).generation != v.generation,
        session != v.session ==> v.attached_to(session).catalog.len() == 0,
        session != v.session ==> v.attached_to(session).pending is None,
{
    reveal(UiView::rebuilt);
}

/// Making a list that shows something anew gives the same list: what is shown is settled by what
/// is known.
pub proof fn law_settled(v: UiView)
    requires
        v.rebuilt().popup is Some || v.rebuilt().token is None,
    ensures
        v.rebuilt().rebuilt() == v.rebuilt(),
{
    reveal(UiView::rebuilt);
    let w = v.rebuilt();
    if v.completing() {
        assert forall|n: int, empty: bool| v.matching(n, empty) == #[trigger] w.matching(
            n,
            empty,
        ) by {
            lemma_matching_same(v, w, n, empty);
        }
        assert(w.rebuilt() =~= w);
    }
}

proof fn lemma_matching_same(v: UiView, w: UiView, n: int, empty: bool)
    requires
        v.catalog == w.catalog,
        v.context == w.context,
        v.observed == w.observed,
        v.cursor == w.cursor,
    ensures
        v.matching(n, empty) == w.matching(n, empty),
    decreases n,
{
    if n > 0 {
        lemma_matching_same(v, w, n - 1, empty);
    }
}

/// A resource that was read.
#[derive(Debug)]
pub struct Resource {
    pub name: String,
    pub source: String,
    pub text: String,
}

/// What is shown of a resource: an owner that answers with something else is not believed.
pub fn resource_text(r: Option<&Resource>) -> (t: Result<String, &'static str>)
    ensures
        match r {
            Some(v) => t matches Ok(s) && s@ == v.name@ + "\n"@ + v.source@ + "\n\n"@ + v.text@,
            None => t matches Err(e) && e@ == "Invalid resource preview"@,
        },
{
    match r {
        Some(v) => Ok(
            text::cat5(v.name.as_str(), "\n", v.source.as_str(), "\n\n", v.text.as_str()),
        ),
        None => Err("Invalid resource preview"),
    }
}

/// A text is completed as a command where it is one line that begins with a slash and not with two.
pub proof fn law_command_line(s: Seq<char>)
    ensures
        command_line(s) <==> s.len() > 0 && s[0] == '/' && !(s.len() > 1 && s[1] == '/')
            && !s.contains('\n') && !s.contains('\r'),
{
    reveal_strlit("/");
    reveal_strlit("//");
    if s.len() > 0 {
        assert(s.take(1)[0] == s[0]);
        if s[0] == '/' {
            assert(s.take(1) =~= "/"@);
        }
    }
    if s.len() > 1 {
        assert(s.take(2)[0] == s[0] && s.take(2)[1] == s[1]);
        if s[0] == '/' && s[1] == '/' {
            assert(s.take(2) =~= "//"@);
        }
    }
}

/// What is typed is what follows the signs that begin it: slashes, dollars and at signs.
pub proof fn law_unmarked(signs: Seq<char>, s: Seq<char>)
    requires
        forall|i: int| 0 <= i < signs.len() ==> signs[i] == '/' || signs[i] == '$' || signs[i] == '@',
        s.len() == 0 || (s[0] != '/' && s[0] != '$' && s[0] != '@'),
    ensures
        unmarked(signs + s) == s,
    decreases signs.len(),
{
    let t = signs + s;
    if signs.len() > 0 {
        assert(t[0] == signs[0]);
        assert(t.drop_first() =~= signs.drop_first() + s);
        law_unmarked(signs.drop_first(), s);
    } else {
        assert(t =~= s);
    }
}

/// What an entry completes to: a command behind a slash, a skill or an agent with what it inserts,
/// behind a dollar its name, and a provider its name alone.
pub proof fn law_completed_to(e: EntryView)
    ensures
        item_of(e, false, true).0 == "$"@ + e.name,
        item_of(e, true, false).0 == e.name,
        e.skill is None ==> item_of(e, false, false).0 == "/"@ + e.name,
        e.skill matches Some(skill) ==> item_of(e, false, false).0 == skill.replacement,
{
}

/// Behind an at sign agents are completed, behind a dollar skills, and behind a slash everything but
/// agents.
pub proof fn law_wanted(v: UiView, e: EntryView)
    requires
        !v.providers(),
    ensures
        ({
            let agent = e.skill is Some && e.skill->0.agent;
            &&& v.context.agent is Some ==> (v.wanted(e) <==> agent)
            &&& v.context.agent is None && v.context.dollar is Some ==> (v.wanted(e) <==> e.skill
                is Some && !agent)
            &&& v.context.agent is None && v.context.dollar is None ==> (v.wanted(e) <==> !agent)
        }),
{
}

/// Nothing is listed that does not match or is not wanted, and nothing that does and is is left out,
/// but for the alias of quitting where nothing is typed.
pub proof fn law_matching_step(v: UiView, n: int, empty: bool)
    requires
        0 <= n < v.candidates().len(),
    ensures
        ({
            let e = v.candidates()[n];
            let rank = v.context.rank(n);
            let lists = rank is Some && v.wanted(e) && !(empty && e.name == "exit"@);
            &&& lists ==> v.matching(n + 1, empty) == v.matching(n, empty).push(
                RankedView { entry: e, rank: rank->0 },
            )
            &&& !lists ==> v.matching(n + 1, empty) == v.matching(n, empty)
        }),
        v.matching(0, empty).len() == 0,
{
}

/// The list moves by one with the arrows, and the text stays.
pub proof fn law_list_moves(
    v: UiView,
    e: EditorView,
    key: KeyEvent,
    w: UiView,
    f: EditorView,
    consumed: bool,
)
    requires
        !v.help,
        v.popup is Some,
        v.popup->0.items.len() <= usize::MAX,
        v.popup->0.selected < v.popup->0.items.len(),
        v.keyed(e, key, w, f, consumed),
        key.code is Up || key.code is Down,
    ensures
        consumed,
        f == e,
        w.popup is Some,
        w.popup->0.items == v.popup->0.items,
        key.code is Down && v.popup->0.selected + 1 < v.popup->0.items.len() ==> w.popup->0.selected
            == v.popup->0.selected + 1,
        key.code is Down && v.popup->0.selected + 1 == v.popup->0.items.len() ==> w.popup->0.selected
            == v.popup->0.selected,
        key.code is Up && v.popup->0.selected > 0 ==> w.popup->0.selected == v.popup->0.selected - 1,
        key.code is Up && v.popup->0.selected == 0 ==> w.popup->0.selected == 0,
{
}

/// Tab puts what is selected in the place of what was typed, and leaves the rest of the text as it
/// is; Enter does the same, and goes on to what it does otherwise only where a command of the
/// application stands at the end of the text or what was typed is complete.
pub proof fn law_completes(
    v: UiView,
    e: EditorView,
    key: KeyEvent,
    w: UiView,
    f: EditorView,
    consumed: bool,
    x: Seq<char>,
    y: Seq<char>,
    z: Seq<char>,
)
    requires
        !v.help,
        v.popup is Some,
        v.token is Some,
        v.keyed(e, key, w, f, consumed),
        key.code is Tab || key.code is Enter,
        !key.shift && !key.control,
        e.text == x + y + z,
        (v.token->0).0 == text::size(x),
        (v.token->0).1 == text::size(x + y),
    ensures
        ({
            let replacement = v.popup->0.items[v.popup->0.selected as int].0;
            let application = v.entries[v.popup->0.selected as int].application;
            let complete = y == replacement;
            &&& key.code is Enter && complete ==> !consumed && f == e && w == v
            &&& key.code is Tab ==> consumed
            &&& !(key.code is Enter && complete) ==> f == e || f.text == x + replacement + z
            &&& key.code is Enter && !complete && f != e ==> (consumed <==> !application || e.cursor
                != text::size(e.text))
        }),
{
    let replacement = v.popup->0.items[v.popup->0.selected as int].0;
    let span = v.token->0;
    assert(e.text =~= x + (y + z));
    assert(e.text.take(x.len() as int) =~= x);
    text::lemma_fit_exact(e.text, x.len() as int);
    assert(e.text.take((x + y).len() as int) =~= x + y);
    text::lemma_fit_exact(e.text, (x + y).len() as int);
    assert(part(e.text, span) =~= y);
    if editor::edited(e, span.0 as int, span.1 as int, replacement, f) {
        editor::law_edited(e, x, y, z, replacement, f);
    }
}

/// Escape puts the list away until the text changes, without changing the text; another key that
/// the list does not know goes on to the text.
pub proof fn law_list_leaves(
    v: UiView,
    e: EditorView,
    key: KeyEvent,
    w: UiView,
    f: EditorView,
    consumed: bool,
)
    requires
        !v.help,
        v.keyed(e, key, w, f, consumed),
    ensures
        key.code is Escape && v.token is Some ==> consumed && f == e && w.popup is None && w.token
            is None && w.dismissed,
        key.code is Escape && v.token is None && v.popup is None ==> !consumed && f == e && w == v,
        key.code is Char && v.popup is Some ==> !consumed && f == e && w == v,
        key.code is Char && v.popup is None ==> !consumed && f == e && w == v,
{
}

/// A catalog counts where it is of the newest generation and something shows it; one that could not
/// be read leaves none, and says so.
pub proof fn law_catalog_counts(
    v: UiView,
    generation: u64,
    entries: Option<Seq<EntryView>>,
    message: Seq<char>,
    ranks: Seq<Option<u8>>,
)
    ensures
        v.loaded(generation, entries, message, ranks).pending is None,
        generation != v.generation ==> v.loaded(generation, entries, message, ranks) == (UiView {
            pending: None,
            ..v
        }),
        generation == v.generation && v.help ==> {
            let w = v.loaded(generation, entries, message, ranks);
            &&& entries matches Some(list) ==> w.catalog == list && w.diagnostic == message
                && !w.failed
            &&& entries is None ==> w.catalog.len() == 0 && w.failed && w.diagnostic
                == "Commands unavailable: "@ + message + "; edit or reopen to retry"@
        },
{
    reveal(UiView::rebuilt);
}

/// A preview counts where it is of the newest generation and still waited for.
pub proof fn law_preview_counts(v: UiView, generation: u64, ok: bool, message: Seq<char>)
    ensures
        v.previewed(generation, ok, message).preview is None,
        generation == v.generation && v.help && v.previewing && ok ==> v.previewed(
            generation,
            ok,
            message,
        ).detail == Some(message),
        generation == v.generation && v.help && v.previewing && !ok ==> v.previewed(
            generation,
            ok,
            message,
        ).detail == Some(
            "Resource unavailable: "@ + message + ". Close and preview again to retry."@,
        ),
        generation != v.generation || !v.help || !v.previewing ==> v.previewed(
            generation,
            ok,
            message,
        ).detail == v.detail,
{
}

/// The keys of the help: Escape leaves the text that is read and then the help, Control and C leaves
/// both; the arrows move in the list by one, and Enter reads what is selected.
pub proof fn law_help_keys(v: UiView, key: KeyEvent, w: UiView)
    requires
        v.help_keyed(key, w),
        v.help,
        v.help_list().len() <= usize::MAX,
    ensures
        key.code is Escape && v.detail is None ==> !w.help,
        key.code is Escape && v.detail is Some ==> w.help && w.detail is None,
        key.control && key.code == KeyCode::Char('c') ==> !w.help && w.detail is None,
        key.code is Down && v.detail is None && v.selected + 1 < v.help_list().len() ==> w.selected
            == v.selected + 1,
        key.code is Up && v.detail is None && v.selected > 0 ==> w.selected == v.selected - 1,
        key.code is Enter && v.detail is None && v.selected < v.help_list().len() ==> w.detail
            == Some(
            "/"@ + v.help_list()[v.selected as int].name + "\n"@
                + v.help_list()[v.selected as int].description,
        ) && w.page == 0 && w.offset == 0,
        key.code is Down && v.detail is Some && v.offset < v.maximum_offset() ==> w.offset == v.offset
            + 1,
        key.code is Up && v.detail is Some && v.offset > 0 ==> w.offset == v.offset - 1,
        key.code is PageUp && v.detail is Some && v.page > 0 ==> w.page == v.page - 1 && w.offset
            == 0,
{
}

/// A counter never stands still.
pub proof fn law_bumped(n: u64)
    ensures
        bumped(n) != n,
        n < u64::MAX ==> bumped(n) == n + 1,
        n == u64::MAX ==> bumped(n) == 0,
{
}

/// The help lists what contains the filter in its name, in order.
pub proof fn law_helped(v: UiView, n: int)
    requires
        0 <= n < v.all().len(),
    ensures
        text::includes(v.all()[n].name, v.help_filter.text) ==> v.helped(n + 1) == v.helped(n).push(
            v.all()[n],
        ),
        !text::includes(v.all()[n].name, v.help_filter.text) ==> v.helped(n + 1) == v.helped(n),
        v.helped(0).len() == 0,
{
}

/// The pointer acts on a list only while the frame shows it as it is, and selects the line that it
/// stands on.
pub proof fn law_pointed(v: UiView, mouse: MouseEvent, view: Shown, area: Area, from: usize)
    requires
        !v.help,
        v.popup is Some,
        v.popup->0.items.len() <= usize::MAX,
        view.completion == Some((v.popup->0.revision, area, from)),
        area.covers(mouse.column as int, mouse.row as int),
    ensures
        mouse.kind is LeftDown && from + (mouse.row - area.y) < v.popup->0.items.len() ==> v.pointed(
            mouse,
            view,
        ).popup->0.selected == from + (mouse.row - area.y),
        mouse.kind is ScrollUp && v.popup->0.selected > 0 ==> v.pointed(mouse, view).popup->0.selected
            == v.popup->0.selected - 1,
        mouse.kind is ScrollDown && v.popup->0.selected + 1 < v.popup->0.items.len() ==> v.pointed(
            mouse,
            view,
        ).popup->0.selected == v.popup->0.selected + 1,
        forall|other: Shown|
            other.completion is Some && (other.completion->0).0 != v.popup->0.revision
                ==> #[trigger] v.pointed(mouse, other) == v,
{
}

/// A frame that showed the detail of the help tells how far it can be scrolled, and the offset stays
/// within that; one that showed something else tells nothing.
pub proof fn law_framed(v: UiView, revision: u64, area: Area)
    ensures
        ({
            let w = v.framed(revision, area);
            let counts = v.help && v.detail is Some && revision == v.revision && area.width > 0;
            &&& !counts ==> w == v
            &&& counts ==> w.detail_area == area
            &&& counts ==> w.offset <= v.offset
            &&& counts ==> w == (UiView { detail_area: area, offset: w.offset, ..v })
            &&& counts && w.offset < v.offset ==> w.offset == w.maximum_offset()
            &&& counts ==> w.offset <= w.maximum_offset()
        }),
{
}

} // verus!
