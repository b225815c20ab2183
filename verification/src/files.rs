//! Picking a file of the workspace for a draft.
use vstd::prelude::*;
use vstd::string::*;
use crate::actions;
use crate::actions::{
    make_menu, no_items, push_item, Action, Detail, DetailView, FileRequest, Menu, MenuView,
};
use crate::display;
use crate::display::terminal_text;
use crate::editor;
use crate::editor::{Editor, EditorView};
use crate::number;
use crate::number::decimal;
use crate::references;
use crate::text;
use crate::text::{cat2, cat4, characters};

verus! {

/// The entries of a page of a directory.
pub const DIRECTORY_PAGE: u64 = 16;

/// The bytes of a page of a file.
pub const FILE_PAGE: u64 = 4096;

/// An entry of a directory. One of another kind than a file or a directory cannot be opened.
#[derive(Debug)]
pub struct FileEntry {
    pub name: String,
    /// Whether it is a directory, where it can be opened.
    pub directory: Option<bool>,
}

/// A page of a directory or of a file.
#[derive(Debug)]
pub struct FilePage {
    /// The number that its owner gave it.
    pub page: u64,
    /// The bytes of the path.
    pub path: Vec<u8>,
    pub directory: bool,
    pub entries: Vec<FileEntry>,
    pub offset: u64,
    pub next_offset: u64,
    pub total: u64,
    pub more: bool,
    /// How a file is written in a draft.
    pub locator: String,
    pub text: String,
}

/// The bytes of the path of the directory that a path is in.
pub open spec fn parent_length(path: Seq<u8>) -> nat
    decreases path.len(),
{
    if path.len() == 0 {
        0
    } else if path.last() == 47 {
        (path.len() - 1) as nat
    } else {
        parent_length(path.drop_last())
    }
}

fn find_parent(path: &Vec<u8>) -> (n: usize)
    ensures
        n == parent_length(path@),
        n <= path@.len(),
{
    let mut i: usize = path.len();
    proof {
        assert(path@.take(path@.len() as int) =~= path@);
    }
    while i > 0
        invariant
            i <= path@.len(),
            parent_length(path@.take(i as int)) == parent_length(path@),
        decreases i,
    {
        proof {
            assert(path@.take(i as int).drop_last() =~= path@.take(i as int - 1));
        }
        if path[i - 1] == 47 {
            return i - 1;
        }
        i -= 1;
    }
    0
}

/// The entries that can be opened, of the first `n`.
pub open spec fn entry_items(page: u64, v: Seq<FileEntry>, n: int) -> Seq<(Seq<char>, Action)>
    decreases n,
{
    if n <= 0 {
        seq![]
    } else {
        let before = entry_items(page, v, n - 1);
        match v[n - 1].directory {
            Some(directory) => before.push(
                (
                    v[n - 1].name@ + (if directory {
                        "/"@
                    } else {
                        " · preview"@
                    }),
                    Action::FilePicker(FileRequest::OpenEntry { page, index: (n - 1) as usize }),
                ),
            ),
            None => before,
        }
    }
}

/// The entries of the menu of a directory.
pub open spec fn directory_items(p: FilePage) -> Seq<(Seq<char>, Action)> {
    let up = if p.path@.len() > 0 {
        seq![
            (
                "../ Parent directory"@,
                Action::FilePicker(
                    FileRequest::OpenPrefix { page: p.page, length: parent_length(p.path@) as usize },
                ),
            ),
        ]
    } else {
        seq![]
    };
    let a = up + entry_items(p.page, p.entries@, p.entries@.len() as int);
    let b = if p.offset > 0 {
        a.push(
            (
                "Previous directory page"@,
                Action::FilePicker(
                    FileRequest::Page {
                        page: p.page,
                        offset: references::back_by(p.offset, DIRECTORY_PAGE),
                        hex: false,
                    },
                ),
            ),
        )
    } else {
        a
    };
    let c = if p.more {
        b.push(
            (
                "Next directory page"@,
                Action::FilePicker(FileRequest::Page { page: p.page, offset: p.next_offset, hex: false }),
            ),
        )
    } else {
        b
    };
    c.push(("Reference a conversation…"@, Action::ReferenceSources(None)))
}

/// The title of the menu of a directory.
pub open spec fn directory_title(p: FilePage) -> Seq<char> {
    "@ Workspace files · entries "@ + number::digits(p.offset as nat) + "–"@ + number::digits(
        p.next_offset as nat,
    ) + " / "@ + number::digits(p.total as nat)
}

/// What a page of a file shows.
pub open spec fn file_detail(p: FilePage) -> DetailView {
    DetailView {
        text: display::shown_text(p.locator@) + "\nBytes "@ + number::digits(p.offset as nat)
            + "–"@ + number::digits(p.next_offset as nat) + " / "@ + number::digits(p.total as nat)
            + "\n\n"@ + p.text@,
        previous: if p.offset > 0 {
            Some(
                Action::FilePicker(
                    FileRequest::Page {
                        page: p.page,
                        offset: references::back_by(p.offset, FILE_PAGE),
                        hex: false,
                    },
                ),
            )
        } else {
            None
        },
        next: if p.more {
            Some(Action::FilePicker(FileRequest::Page { page: p.page, offset: p.next_offset, hex: false }))
        } else {
            None
        },
        actions: Some(
            actions::menu_of(
                "File reference"@,
                seq![
                    ("Insert path into draft"@, Action::InsertFile(p.page)),
                    (
                        "View exact hex"@,
                        Action::FilePicker(FileRequest::Page { page: p.page, offset: p.offset, hex: true }),
                    ),
                    (
                        "View text"@,
                        Action::FilePicker(FileRequest::Page { page: p.page, offset: p.offset, hex: false }),
                    ),
                    (
                        "Parent directory"@,
                        Action::FilePicker(
                            FileRequest::OpenPrefix { page: p.page, length: parent_length(p.path@) as usize },
                        ),
                    ),
                    ("Refresh current file"@, Action::FilePicker(FileRequest::OpenShown { page: p.page })),
                ],
            ),
        ),
        info: "Enter actions · ←/→ pages · Esc keeps draft"@,
    }
}

/// What a page of the picker shows.
#[derive(Debug)]
pub enum Picked {
    /// A menu, with what is said below.
    Directory { menu: Menu, info: &'static str },
    File(Detail),
}

fn make_entries(p: &FilePage, items: &mut Vec<(String, Action)>)
    ensures
        actions::items_of(final(items)@) == actions::items_of(old(items)@) + entry_items(
            p.page, p.entries@,
            p.entries@.len() as int,
        ),
{
    let ghost head = actions::items_of(items@);
    let mut i: usize = 0;
    proof {
        assert(head =~= head + entry_items(p.page, p.entries@, 0));
    }
    while i < p.entries.len()
        invariant
            i <= p.entries@.len(),
            actions::items_of(items@) == head + entry_items(p.page, p.entries@, i as int),
        decreases p.entries@.len() - i,
    {
        if let Some(directory) = p.entries[i].directory {
            let label = cat2(
                p.entries[i].name.as_str(),
                if directory {
                    "/"
                } else {
                    " · preview"
                },
            );
            push_item(
                items,
                label,
                Action::FilePicker(FileRequest::OpenEntry { page: p.page, index: i }),
            );
            proof {
                assert(actions::items_of(items@) =~= head + entry_items(
                    p.page, p.entries@,
                    i as int + 1,
                ));
            }
        }
        i += 1;
    }
}

/// What a page of a directory or of a file comes to.
pub open spec fn shows(p: FilePage, r: Picked) -> bool {
    match r {
        Picked::Directory { menu, info } => p.directory && menu@ == actions::menu_of(
            directory_title(p),
            directory_items(p),
        ) && info@ == "Enter opens directory or previews file · Esc keeps draft"@,
        Picked::File(d) => !p.directory && d@ == file_detail(p),
    }
}

/// Shows a page of a directory or of a file.
pub fn show_file_picker(p: &FilePage) -> (r: Picked)
    ensures
        shows(*p, r),
{
    let parent: usize = find_parent(&p.path);
    if p.directory {
        let mut items = no_items();
        if p.path.len() > 0 {
            push_item(
                &mut items,
                "../ Parent directory".to_owned(),
                Action::FilePicker(FileRequest::OpenPrefix { page: p.page, length: parent }),
            );
        }
        proof {
            assert(actions::items_of(items@) =~= (if p.path@.len() > 0 {
                seq![
                    (
                        "../ Parent directory"@,
                        Action::FilePicker(FileRequest::OpenPrefix { page: p.page, length: parent }),
                    ),
                ]
            } else {
                seq![]
            }));
        }
        make_entries(p, &mut items);
        if p.offset > 0 {
            push_item(
                &mut items,
                "Previous directory page".to_owned(),
                Action::FilePicker(
                    FileRequest::Page {
                        page: p.page,
                        offset: p.offset.saturating_sub(DIRECTORY_PAGE),
                        hex: false,
                    },
                ),
            );
        }
        if p.more {
            push_item(
                &mut items,
                "Next directory page".to_owned(),
                Action::FilePicker(FileRequest::Page { page: p.page, offset: p.next_offset, hex: false }),
            );
        }
        push_item(
            &mut items,
            "Reference a conversation…".to_owned(),
            Action::ReferenceSources(None),
        );
        let mut title: String = cat4(
            "@ Workspace files · entries ",
            decimal(p.offset).as_str(),
            "–",
            decimal(p.next_offset).as_str(),
        );
        title.append(" / ");
        title.append(decimal(p.total).as_str());
        Picked::Directory {
            menu: make_menu(title, items),
            info: "Enter opens directory or previews file · Esc keeps draft",
        }
    } else {
        let mut t: String = cat4(
            terminal_text(p.locator.as_str()).as_str(),
            "\nBytes ",
            decimal(p.offset).as_str(),
            "–",
        );
        t.append(decimal(p.next_offset).as_str());
        t.append(" / ");
        t.append(decimal(p.total).as_str());
        t.append("\n\n");
        t.append(p.text.as_str());
        let mut items = no_items();
        push_item(&mut items, "Insert path into draft".to_owned(), Action::InsertFile(p.page));
        push_item(
            &mut items,
            "View exact hex".to_owned(),
            Action::FilePicker(FileRequest::Page { page: p.page, offset: p.offset, hex: true }),
        );
        push_item(
            &mut items,
            "View text".to_owned(),
            Action::FilePicker(FileRequest::Page { page: p.page, offset: p.offset, hex: false }),
        );
        push_item(
            &mut items,
            "Parent directory".to_owned(),
            Action::FilePicker(FileRequest::OpenPrefix { page: p.page, length: parent }),
        );
        push_item(
            &mut items,
            "Refresh current file".to_owned(),
            Action::FilePicker(FileRequest::OpenShown { page: p.page }),
        );
        let d = Detail {
            text: t,
            previous: if p.offset > 0 {
                Some(
                    Action::FilePicker(
                        FileRequest::Page {
                            page: p.page,
                            offset: p.offset.saturating_sub(FILE_PAGE),
                            hex: false,
                        },
                    ),
                )
            } else {
                None
            },
            next: if p.more {
                Some(Action::FilePicker(FileRequest::Page { page: p.page, offset: p.next_offset, hex: false }))
            } else {
                None
            },
            actions: Some(make_menu("File reference".to_owned(), items)),
            info: "Enter actions · ←/→ pages · Esc keeps draft".to_owned(),
        };
        proof {
            assert(d@.actions->0.items =~= file_detail(*p).actions->0.items);
            assert(d@ =~= file_detail(*p));
        }
        Picked::File(d)
    }
}

/// The span of a draft that a picked file replaces: the at sign before the cursor, if there is
/// one.
pub open spec fn insert_span(e: EditorView) -> (int, int) {
    let head = editor::head(e.text, e.cursor);
    if head.len() > 0 && head.last() == '@' {
        (e.cursor - 1, e.cursor)
    } else {
        (e.cursor, e.cursor)
    }
}

/// Notes where a picked file goes. What was noted before is kept.
pub fn note_span(noted: Option<(usize, usize)>, e: &Editor) -> (r: (usize, usize))
    requires
        e.wf(),
    ensures
        match noted {
            Some(span) => r == span,
            None => (r.0 as int, r.1 as int) == insert_span(e@),
        },
{
    if let Some(span) = noted {
        return span;
    }
    let cursor: usize = e.cursor();
    proof {
        e.law_bounds();
        text::lemma_boundary_split(e@.text, e@.cursor);
    }
    let (head, _) = text::split(e.text(), cursor);
    let chars = characters(head);
    if chars.len() > 0 && chars[chars.len() - 1] == '@' {
        proof {
            let h = head@;
            assert(h.drop_last().push(h.last()) =~= h);
            text::lemma_size_push(h.drop_last(), h.last());
        }
        (cursor - 1, cursor)
    } else {
        (cursor, cursor)
    }
}

/// What came of inserting a picked file.
#[derive(Clone, Copy, Debug, PartialEq, Eq)]
pub enum Inserted {
    NotNoted,
    CursorMoved,
    Refused(&'static str),
    Done,
}

/// Inserts the path of a picked file where that was noted, unless the cursor left there since.
pub fn insert_file(noted: Option<(usize, usize)>, e: &mut Editor, locator: &str) -> (r: Inserted)
    requires
        old(e).wf(),
        noted matches Some(span) ==> span.1 == old(e)@.cursor ==> span.0 <= span.1
            && text::boundary(old(e)@.text, span.0 as int),
    ensures
        final(e).wf(),
        match noted {
            None => r == Inserted::NotNoted && final(e)@ == old(e)@,
            Some(span) => if span.1 != old(e)@.cursor {
                r == Inserted::CursorMoved && final(e)@ == old(e)@
            } else if editor::refused(locator@) {
                final(e)@ == old(e)@ && (r matches Inserted::Refused(s) && s@
                    == "Input contains NUL or DEL; nothing was inserted"@)
            } else if text::size(old(e)@.text) - (span.1 - span.0) + text::size(locator@) > old(
                e,
            )@.room() {
                final(e)@ == old(e)@ && (r matches Inserted::Refused(s) && s@
                    == "Input exceeds its size limit; nothing was inserted"@)
            } else {
                r == Inserted::Done && editor::edited(
                    old(e)@,
                    span.0 as int,
                    span.1 as int,
                    locator@,
                    final(e)@,
                )
            },
        },
{
    let span = match noted {
        Some(span) => span,
        None => {
            return Inserted::NotNoted;
        },
    };
    if span.1 != e.cursor() {
        return Inserted::CursorMoved;
    }
    proof {
        e.law_bounds();
    }
    match e.replace_range(span.0, span.1, locator) {
        Ok(_) => Inserted::Done,
        Err(problem) => Inserted::Refused(problem),
    }
}

/// Opens the picker: notes where the path of a file will go and says what is being read, unless the
/// conversation has no files.
pub fn file_picker(available: bool, noted: Option<(usize, usize)>, e: &Editor) -> (r: Result<
    ((usize, usize), &'static str),
    &'static str,
>)
    requires
        e.wf(),
    ensures
        if !available {
            r matches Err(s) && s@ == "Files are unavailable for this conversation"@
        } else {
            &&& r matches Ok((span, s))
            &&& s@ == "Reading workspace files…"@
            &&& match noted {
                Some(at) => span == at,
                None => (span.0 as int, span.1 as int) == insert_span(e@),
            }
        },
{
    if !available {
        Err("Files are unavailable for this conversation")
    } else {
        Ok((note_span(noted, e), "Reading workspace files…"))
    }
}

/// What is shown once the owner of the files has answered: nothing where the picker was closed.
pub fn picked(page: Option<&FilePage>) -> (r: Result<Picked, &'static str>)
    ensures
        match page {
            Some(p) => r matches Ok(shown) && shows(*p, shown),
            None => r matches Err(s) && s@ == "File picker closed"@,
        },
{
    match page {
        Some(p) => Ok(show_file_picker(p)),
        None => Err("File picker closed"),
    }
}

/// What is told once a picked file was inserted.
pub fn inserted_told(r: Inserted) -> (s: &'static str)
    ensures
        match r {
            Inserted::NotNoted => s@ == "Reopen the file picker from this draft"@,
            Inserted::CursorMoved => s@ == "Draft cursor changed; reopen the file picker"@,
            Inserted::Refused(problem) => s@ == problem@,
            Inserted::Done => s@ == "File path inserted; file contents were not added"@,
        },
{
    match r {
        Inserted::NotNoted => "Reopen the file picker from this draft",
        Inserted::CursorMoved => "Draft cursor changed; reopen the file picker",
        Inserted::Refused(problem) => problem,
        Inserted::Done => "File path inserted; file contents were not added",
    }
}

/// The directory that a path is in ends before the last slash of the path; a path without one is in
/// the directory of the conversation.
pub proof fn law_parent(directory: Seq<u8>, name: Seq<u8>)
    requires
        forall|i: int| 0 <= i < name.len() ==> name[i] != 47,
    ensures
        parent_length(directory + seq![47u8] + name) == directory.len(),
        parent_length(name) == 0,
    decreases name.len(),
{
    let path = directory + seq![47u8] + name;
    if name.len() > 0 {
        law_parent(directory, name.drop_last());
        assert(path.drop_last() =~= directory + seq![47u8] + name.drop_last());
        assert(path.last() == name.last());
    } else {
        assert(path.last() == 47);
    }
}

/// What can be done with a page of a file: it goes back by 4 KiB or to the beginning, on to where it
/// ends, its path can be written into the draft, and it can be read as text or as bytes from the
/// same place.
pub proof fn law_file_page(p: FilePage)
    ensures
        ({
            let d = file_detail(p);
            let turn = |offset: u64, hex: bool|
                Action::FilePicker(FileRequest::Page { page: p.page, offset, hex });
            &&& p.offset >= 4096 ==> d.previous == Some(turn((p.offset - 4096) as u64, false))
            &&& 0 < p.offset < 4096 ==> d.previous == Some(turn(0, false))
            &&& p.offset == 0 ==> d.previous is None
            &&& p.more ==> d.next == Some(turn(p.next_offset, false))
            &&& !p.more ==> d.next is None
            &&& d.actions matches Some(menu)
            &&& menu.items[0] == ("Insert path into draft"@, Action::InsertFile(p.page))
            &&& menu.items[1] == ("View exact hex"@, turn(p.offset, true))
            &&& menu.items[2] == ("View text"@, turn(p.offset, false))
            &&& menu.items[4] == (
                "Refresh current file"@,
                Action::FilePicker(FileRequest::OpenShown { page: p.page }),
            )
        }),
{
}

/// A directory lists the way up unless it is the first, every entry that can be opened, pages of
/// sixteen back and on, and conversations to refer to.
pub proof fn law_directory_page(p: FilePage)
    ensures
        ({
            let items = directory_items(p);
            let turn = |offset: u64|
                Action::FilePicker(FileRequest::Page { page: p.page, offset, hex: false });
            &&& items.last() == ("Reference a conversation…"@, Action::ReferenceSources(None))
            &&& p.path@.len() > 0 ==> items[0] == (
                "../ Parent directory"@,
                Action::FilePicker(
                    FileRequest::OpenPrefix {
                        page: p.page,
                        length: parent_length(p.path@) as usize,
                    },
                ),
            )
            &&& p.more ==> items[items.len() - 2] == ("Next directory page"@, turn(p.next_offset))
            &&& !p.more && p.offset >= 16 ==> items[items.len() - 2] == (
                "Previous directory page"@,
                turn((p.offset - 16) as u64),
            )
            &&& p.more && p.offset >= 16 ==> items[items.len() - 3] == (
                "Previous directory page"@,
                turn((p.offset - 16) as u64),
            )
        }),
{
}

/// An entry that can be opened leads to itself, a directory with a slash and a file with its
/// preview; any other is left out.
pub proof fn law_entry_items(page: u64, v: Seq<FileEntry>, n: int)
    requires
        0 <= n < v.len(),
    ensures
        v[n].directory is None ==> entry_items(page, v, n + 1) == entry_items(page, v, n),
        v[n].directory matches Some(directory) ==> entry_items(page, v, n + 1) == entry_items(
            page,
            v,
            n,
        ).push(
            (
                v[n].name@ + (if directory {
                    "/"@
                } else {
                    " · preview"@
                }),
                Action::FilePicker(FileRequest::OpenEntry { page, index: n as usize }),
            ),
        ),
        entry_items(page, v, 0).len() == 0,
{
}

/// A picked file takes the place of the at sign before the cursor, if there is one.
pub proof fn law_insert_span(e: EditorView, left: Seq<char>, right: Seq<char>)
    requires
        e.text == left + right,
        e.cursor == text::size(left),
    ensures
        left.len() > 0 && left.last() == '@' ==> insert_span(e) == (e.cursor - 1, e.cursor),
        left.len() == 0 || left.last() != '@' ==> insert_span(e) == (e.cursor, e.cursor),
{
    assert(e.text.take(left.len() as int) =~= left);
    text::lemma_fit_exact(e.text, left.len() as int);
}

/// A page of a directory comes up as a menu, and one of a file as its text.
pub proof fn law_shown_pages(p: FilePage, r: Picked)
    requires
        shows(p, r),
    ensures
        r is Directory <==> p.directory,
        r matches Picked::Directory { menu, info } ==> menu@.items == directory_items(p),
        r matches Picked::File(d) ==> d@ == file_detail(p),
{
}

} // verus!
