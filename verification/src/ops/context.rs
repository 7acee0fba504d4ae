//! The navigation state: where the user is, what is listed, what is selected.

use crate::location::{location_view, url_joined, url_path, Location};
use crate::ops::entry::{
    display_list, entry_views, shows_time, FilesetData, RemoteFile, RemoteFileView,
};
use crate::ops::notice::{notice_views, Notice, NoticeView};
use crate::ops::term::{cursor_move, move_cursor_back, move_cursor_down, move_cursor_up};
use crate::text::{chars_of, decimal, push_decimal, string_of};
use crate::timestamp::Tm;
use crate::util::{
    parent_of, parent_url, percent_decode, percent_decoded, GETCH_ARROW_DOWN, GETCH_ARROW_LEFT,
    GETCH_ARROW_RIGHT, GETCH_ARROW_UP, GETCH_DELETE, GETCH_END, GETCH_ENTER, GETCH_ESC,
    GETCH_HOME, GETCH_PAGE_DOWN, GETCH_PAGE_UP, GETCH_SPECIAL_PREFIX,
};
use vstd::prelude::*;
use vstd::string::StringExecFns;

verus! {

/// What `TabWriter` of the `tabwriter` crate, with its settings as they
/// come, writes when it is given `text` and flushed: the text with the
/// cells that tabs end padded into columns.
pub uninterp spec fn tab_aligned(text: Seq<char>) -> Seq<char>;

/// Writes `text` through a `tabwriter::TabWriter` into a buffer and hands
/// out what arrived there. Trusted: the result is the one that
/// `tab_aligned` names.
#[verifier::external_body]
fn align_tabs(text: &str) -> (aligned: String)
    ensures
        aligned@ == tab_aligned(text@),
{
    let mut writer = tabwriter::TabWriter::new(Vec::new());
    std::io::Write::write_all(&mut writer, text.as_bytes()).unwrap();
    String::from_utf8(writer.into_inner().unwrap()).unwrap()
}

/// The row of `entry` in a listing: the mark or a blank, the entry's
/// columns, and a line feed.
pub open spec fn row_line(entry: RemoteFileView, marked: bool) -> Seq<char> {
    seq![if marked {
        '>'
    } else {
        ' '
    }] + entry.row() + seq!['\n']
}

/// The rows of the entries from `from` up to `to`, the selected one marked.
pub open spec fn rows_text(files: Seq<RemoteFileView>, selected: nat, from: nat, to: nat) -> Seq<char>
    decreases to,
{
    if to <= from {
        Seq::empty()
    } else {
        rows_text(files, selected, from, (to - 1) as nat) + row_line(
            files[to - 1],
            to - 1 == selected,
        )
    }
}

/// What marks a row: the cursor goes `up` rows up, `mark` is written, and
/// the cursor goes one place back and `up` rows down again.
pub open spec fn mark_text(up: nat, mark: char) -> Seq<char> {
    cursor_move(up, 'A') + seq![mark] + cursor_move(1, 'D') + cursor_move(up, 'B')
}

/// How many answers in a row may fail to be listings before the server is
/// taken not to speak the protocol.
pub const BAD_RESPONSE_LIMIT: usize = 3;

/// What a key asks for.
#[derive(Clone, Copy, Debug, PartialEq, Eq, Structural)]
pub enum Key {
    /// Enter the selected entry.
    Enter,
    /// End the session.
    Quit,
    /// Save the selected file.
    Download,
    /// Send a file to the current directory.
    Upload,
    /// Delete the selected entry.
    Delete,
    /// Select the entry above.
    Up,
    /// Select the entry below.
    Down,
    /// Go to the parent directory.
    Left,
    /// Enter the selected entry.
    Right,
    /// Select the entry one page up.
    PageUp,
    /// Select the entry one page down.
    PageDown,
    /// Select the first entry.
    Home,
    /// Select the last entry.
    End,
    /// Nothing.
    Other,
}

/// What the byte `key` asks for; `follow_up` is the byte read after the
/// prefix of a special key.
pub open spec fn key_of(key: u8, follow_up: Option<u8>) -> Key {
    if key == GETCH_ENTER {
        Key::Enter
    } else if key == GETCH_ESC || key == 'q' as u8 || key == 'Q' as u8 {
        Key::Quit
    } else if key == 'd' as u8 || key == 'D' as u8 {
        Key::Download
    } else if key == 'u' as u8 || key == 'U' as u8 {
        Key::Upload
    } else if key == GETCH_SPECIAL_PREFIX {
        match follow_up {
            Some(second) => if second == GETCH_ARROW_UP {
                Key::Up
            } else if second == GETCH_ARROW_DOWN {
                Key::Down
            } else if second == GETCH_PAGE_UP {
                Key::PageUp
            } else if second == GETCH_PAGE_DOWN {
                Key::PageDown
            } else if second == GETCH_HOME {
                Key::Home
            } else if second == GETCH_END {
                Key::End
            } else if second == GETCH_ARROW_LEFT {
                Key::Left
            } else if second == GETCH_ARROW_RIGHT {
                Key::Right
            } else if second == GETCH_DELETE {
                Key::Delete
            } else {
                Key::Other
            },
            None => Key::Other,
        }
    } else {
        Key::Other
    }
}

/// Whether a second byte is to be read after `key`: it is after the prefix
/// of a special key.
pub fn needs_follow_up(key: u8) -> (needs: bool)
    ensures
        needs == (key == GETCH_SPECIAL_PREFIX),
{
    key == GETCH_SPECIAL_PREFIX
}

/// What the byte `key` asks for; `follow_up` is the byte read after the
/// prefix of a special key.
pub fn decode_key(key: u8, follow_up: Option<u8>) -> (asked: Key)
    ensures
        asked == key_of(key, follow_up),
{
    if key == GETCH_ENTER {
        Key::Enter
    } else if key == GETCH_ESC || key == 113 || key == 81 {
        Key::Quit
    } else if key == 100 || key == 68 {
        Key::Download
    } else if key == 117 || key == 85 {
        Key::Upload
    } else if key == GETCH_SPECIAL_PREFIX {
        match follow_up {
            Some(second) => if second == GETCH_ARROW_UP {
                Key::Up
            } else if second == GETCH_ARROW_DOWN {
                Key::Down
            } else if second == GETCH_PAGE_UP {
                Key::PageUp
            } else if second == GETCH_PAGE_DOWN {
                Key::PageDown
            } else if second == GETCH_HOME {
                Key::Home
            } else if second == GETCH_END {
                Key::End
            } else if second == GETCH_ARROW_LEFT {
                Key::Left
            } else if second == GETCH_ARROW_RIGHT {
                Key::Right
            } else if second == GETCH_DELETE {
                Key::Delete
            } else {
                Key::Other
            },
            None => Key::Other,
        }
    } else {
        Key::Other
    }
}

/// The page on which the entry `selected` stands when a page has `lines`
/// rows.
pub open spec fn page_of(selected: nat, lines: nat) -> nat {
    selected / lines
}

/// The number of pages that `len` entries fill.
pub open spec fn page_count(len: nat, lines: nat) -> nat {
    if len % lines == 0 {
        len / lines
    } else {
        len / lines + 1
    }
}

/// The index of the first entry on the page of the entry `selected`.
pub open spec fn page_start(selected: nat, lines: nat) -> nat {
    (selected - selected % lines) as nat
}

/// The index behind the last entry on the page of the entry `selected`.
pub open spec fn page_end(len: nat, selected: nat, lines: nat) -> nat {
    if len - page_start(selected, lines) < lines {
        len
    } else {
        page_start(selected, lines) + lines
    }
}

/// The number of rows from the row of the entry `selected` down to the row
/// under the last one listed on its page, where the cursor rests.
pub open spec fn cursor_offset(len: nat, selected: nat, lines: nat) -> nat {
    (page_end(len, selected, lines) - selected) as nat
}

/// One thing to repaint.
#[derive(Clone, Copy, Debug, PartialEq, Eq, Structural)]
pub enum Paint {
    /// Write the character `mark` in the first column of the row `up` rows
    /// above the cursor, and put the cursor back.
    Mark { up: usize, mark: char },
    /// Print the whole listing anew.
    Listing,
}

/// What is to be done after a key.
#[derive(Debug, PartialEq, Eq)]
pub enum Command {
    /// Read the next key.
    Continue,
    /// End the session.
    Exit,
    /// Fetch the current location and list it anew.
    Fetch,
    /// Save the file at the location, then fetch the current location.
    Download(Location),
    /// Let the user pick a file and send it, then fetch the current location.
    Upload,
    /// Delete what is at the location and report how that went, then fetch
    /// the current location.
    Delete(Location),
    /// Tell the user that the server takes no writes, then fetch the current
    /// location.
    Refuse,
}

/// The model of a `Command`.
pub enum CommandView {
    Continue,
    Exit,
    Fetch,
    Download(Seq<char>),
    Upload,
    Delete(Seq<char>),
    Refuse,
}

impl View for Command {
    type V = CommandView;

    open spec fn view(&self) -> CommandView {
        match self {
            Command::Continue => CommandView::Continue,
            Command::Exit => CommandView::Exit,
            Command::Fetch => CommandView::Fetch,
            Command::Download(l) => CommandView::Download(l@),
            Command::Upload => CommandView::Upload,
            Command::Delete(l) => CommandView::Delete(l@),
            Command::Refuse => CommandView::Refuse,
        }
    }
}

/// What a key led to.
#[derive(Debug, PartialEq, Eq)]
pub struct InputStep {
    /// What to repaint, in this order.
    pub paints: Vec<Paint>,
    /// What to do then.
    pub command: Command,
}

/// Why a step could not be taken.
#[derive(Clone, Copy, Debug, PartialEq, Eq, Structural)]
pub enum NavError {
    /// The name of the selected entry leads to no location.
    NoSuchLocation,
}

/// A location as it is shown to the user: percent-decoded, and as it is
/// written where the decoded bytes are no text.
pub open spec fn shown_location(location: Seq<char>) -> Seq<char> {
    match percent_decoded(location) {
        Some(decoded) => decoded,
        None => location,
    }
}

/// A location as it is shown to the user: percent-decoded, and as it is
/// written where the decoded bytes are no text.
pub fn show_location(location: &Location) -> (shown: String)
    ensures
        shown@ == shown_location(location@),
{
    match percent_decode(location.as_str()) {
        Some(decoded) => decoded,
        None => String::from_str(location.as_str()),
    }
}

/// What came back when the current location was fetched.
#[derive(Debug, PartialEq, Eq)]
pub enum Fetched {
    /// No answer, or one whose status is no success; the field says which.
    Failed(String),
    /// An answer that is no listing; the field says why.
    Unparsable(String),
    /// A listing.
    Listing(FilesetData),
}

/// What to do with what was fetched.
#[derive(Debug, PartialEq, Eq)]
pub enum LoopStep {
    /// Print the notices, then fetch the current location.
    Retry(Vec<Notice>),
    /// Print the notices and end the session.
    GiveUp(Vec<Notice>),
    /// The location `url` is a file: show it under the label `label`, then
    /// fetch the current location.
    ShowFile { url: Location, label: String },
    /// Print the listing and read keys.
    Browse,
}

/// The navigation state.
pub struct ListContext {
    cururl: Location,
    files: Vec<RemoteFile>,
    selected: usize,
    have_write: bool,
    bad_response_counter: usize,
}

/// The model of a `ListContext`.
pub struct ListContextView {
    /// The current location.
    pub cururl: Seq<char>,
    /// What is listed.
    pub files: Seq<RemoteFileView>,
    /// The index of the selected entry.
    pub selected: nat,
    /// Whether the server takes writes.
    pub have_write: bool,
    /// How many answers in a row were no listings.
    pub bad_responses: nat,
}

/// The model of what a key led to: the state after it, what to repaint, and
/// what to do then.
pub struct InputStepView {
    pub next: ListContextView,
    pub paints: Seq<Paint>,
    pub command: CommandView,
}

/// The label under which the file at a location with the path `path` is
/// shown: the path without its first character.
pub open spec fn label_of(path: Option<Seq<char>>) -> Seq<char> {
    match path {
        Some(p) => if p.len() > 0 {
            p.skip(1)
        } else {
            p
        },
        None => Seq::empty(),
    }
}

impl ListContextView {
    /// The selection points at an entry wherever there is one, every entry
    /// is well formed, and the count of bad answers is within its limit.
    pub open spec fn wf(self) -> bool {
        &&& self.files.len() == 0 ==> self.selected == 0
        &&& self.files.len() > 0 ==> self.selected < self.files.len()
        &&& forall|i: int| 0 <= i < self.files.len() ==> (#[trigger] self.files[i]).is_well_formed()
        &&& self.bad_responses <= BAD_RESPONSE_LIMIT
    }

    /// The state at the parent location with the first entry selected; the
    /// state itself at a root.
    pub open spec fn back(self) -> ListContextView {
        if parent_of(self.cururl) != self.cururl {
            ListContextView { cururl: parent_of(self.cururl), selected: 0, ..self }
        } else {
            self
        }
    }

    /// The state after an answer that failed.
    pub open spec fn after_failure(self) -> ListContextView {
        ListContextView { bad_responses: 0, ..self.back() }
    }

    /// Whether one more bad answer ends the session.
    pub open spec fn gives_up(self) -> bool {
        self.bad_responses + 1 >= BAD_RESPONSE_LIMIT
    }

    /// The state after an answer that is no listing: the count goes up, and
    /// unless that ends the session the location moves to the parent.
    pub open spec fn after_unparsable(self) -> ListContextView {
        if self.gives_up() {
            ListContextView { bad_responses: BAD_RESPONSE_LIMIT as nat, ..self }
        } else {
            ListContextView { bad_responses: self.bad_responses + 1, ..self.back() }
        }
    }

    /// The state after an answer that says the location is a file.
    pub open spec fn after_file(self, writes: bool) -> ListContextView {
        ListContextView { have_write: writes, bad_responses: 0, ..self.back() }
    }

    /// The state after a listing: `entries` are listed, and the selection
    /// stays where it was as far as there are entries.
    pub open spec fn after_listing(self, writes: bool, entries: Seq<RemoteFileView>) -> ListContextView {
        ListContextView {
            cururl: self.cururl,
            files: entries,
            selected: if entries.len() == 0 {
                0
            } else if self.selected >= entries.len() {
                (entries.len() - 1) as nat
            } else {
                self.selected
            },
            have_write: writes,
            bad_responses: 0,
        }
    }

    /// The heading of the listing: the location as it is shown, and the
    /// page.
    pub open spec fn heading(self, lines: nat) -> Seq<char> {
        "Contents of "@ + shown_location(self.cururl) + " -- page "@ + decimal(
            page_of(self.selected, lines) + 1,
        ) + "/"@ + decimal(page_count(self.files.len(), lines)) + ":"@
    }

    /// What the user is told after an answer that failed with `status`.
    pub open spec fn failure_notices(self, status: Seq<char>) -> Seq<NoticeView> {
        seq![NoticeView::Contents(shown_location(self.cururl)), NoticeView::Status(status)]
    }

    /// What the user is told after an answer that is no listing, for the
    /// reason `error`: that, and where it ends the session also that the
    /// server does not speak the protocol.
    pub open spec fn unparsable_notices(self, error: Seq<char>) -> Seq<NoticeView> {
        if self.gives_up() {
            seq![
                NoticeView::Contents(shown_location(self.cururl)),
                NoticeView::Unparsable(error),
                NoticeView::Incompatible(self.cururl),
            ]
        } else {
            seq![NoticeView::Contents(shown_location(self.cururl)), NoticeView::Unparsable(error)]
        }
    }

    /// The page of the listing on which the selected entry stands, as a
    /// table.
    pub open spec fn table(self, lines: nat) -> Seq<char> {
        tab_aligned(
            rows_text(
                self.files,
                self.selected,
                page_start(self.selected, lines),
                page_end(self.files.len(), self.selected, lines),
            ),
        )
    }

    /// The listing as it is printed: the heading on a line, then the table.
    pub open spec fn list_screen(self, lines: nat) -> Seq<char> {
        self.heading(lines) + seq!['\n'] + self.table(lines)
    }

    /// The location that the selected entry's name leads to.
    pub open spec fn selected_location(self) -> Option<Seq<char>> {
        url_joined(self.cururl, self.files[self.selected as int].full_name)
    }

    /// The entry that a key moves the selection to, in a listing that is not
    /// empty.
    pub open spec fn target(self, key: Key, lines: nat) -> nat {
        let len = self.files.len();
        match key {
            Key::Up => if self.selected > 0 {
                (self.selected - 1) as nat
            } else {
                self.selected
            },
            Key::Down => if self.selected + 1 < len {
                self.selected + 1
            } else {
                self.selected
            },
            Key::PageUp => if self.selected >= lines {
                (self.selected - lines) as nat
            } else {
                0
            },
            Key::PageDown => if self.selected + lines < len {
                self.selected + lines
            } else {
                (len - 1) as nat
            },
            Key::Home => 0,
            Key::End => (len - 1) as nat,
            _ => self.selected,
        }
    }

    /// Whether a key moves the selection and has it repainted: an arrow does
    /// where there is an entry to move to, the other four wherever there is
    /// an entry.
    pub open spec fn repaints(self, key: Key, lines: nat) -> bool {
        self.files.len() > 0 && match key {
            Key::Up | Key::Down => self.target(key, lines) != self.selected,
            Key::PageUp | Key::PageDown | Key::Home | Key::End => true,
            _ => false,
        }
    }

    /// What a key has repainted: the mark is wiped off the old row and put
    /// on the new one, and between the two the listing is printed anew if
    /// and only if the page changes.
    pub open spec fn paints(self, key: Key, lines: nat) -> Seq<Paint> {
        let len = self.files.len();
        let to = self.target(key, lines);
        if !self.repaints(key, lines) {
            Seq::empty()
        } else if page_of(to, lines) != page_of(self.selected, lines) {
            seq![
                Paint::Mark { up: cursor_offset(len, self.selected, lines) as usize, mark: ' ' },
                Paint::Listing,
                Paint::Mark { up: cursor_offset(len, to, lines) as usize, mark: '>' },
            ]
        } else {
            seq![
                Paint::Mark { up: cursor_offset(len, self.selected, lines) as usize, mark: ' ' },
                Paint::Mark { up: cursor_offset(len, to, lines) as usize, mark: '>' },
            ]
        }
    }

    /// What a key leads to when a page has `lines` rows; `None` where it
    /// asks for the selected entry and that entry's name leads to no
    /// location.
    pub open spec fn input_step(self, key: Key, lines: nat) -> Option<InputStepView> {
        let stay = InputStepView { next: self, paints: Seq::empty(), command: CommandView::Continue };
        match key {
            Key::Enter | Key::Right => if self.files.len() == 0 {
                Some(stay)
            } else {
                match self.selected_location() {
                    Some(to) => Some(
                        InputStepView {
                            next: ListContextView { cururl: to, selected: 0, ..self },
                            paints: Seq::empty(),
                            command: CommandView::Fetch,
                        },
                    ),
                    None => None,
                }
            },
            Key::Quit => Some(InputStepView { command: CommandView::Exit, ..stay }),
            Key::Download => if self.files.len() > 0 && self.files[self.selected as int].size is Some {
                match self.selected_location() {
                    Some(to) => Some(InputStepView { command: CommandView::Download(to), ..stay }),
                    None => None,
                }
            } else {
                Some(stay)
            },
            Key::Upload => if self.have_write {
                Some(InputStepView { command: CommandView::Upload, ..stay })
            } else {
                Some(InputStepView { command: CommandView::Refuse, ..stay })
            },
            Key::Delete => if !self.have_write {
                Some(InputStepView { command: CommandView::Refuse, ..stay })
            } else if self.files.len() == 0 {
                Some(stay)
            } else {
                match self.selected_location() {
                    Some(to) => Some(InputStepView { command: CommandView::Delete(to), ..stay }),
                    None => None,
                }
            },
            Key::Left => Some(InputStepView { next: self.back(), command: CommandView::Fetch, ..stay }),
            Key::Up | Key::Down | Key::PageUp | Key::PageDown | Key::Home | Key::End => Some(
                InputStepView {
                    next: if self.files.len() > 0 {
                        ListContextView { selected: self.target(key, lines), ..self }
                    } else {
                        self
                    },
                    paints: self.paints(key, lines),
                    command: CommandView::Continue,
                },
            ),
            Key::Other => Some(stay),
        }
    }
}

impl View for ListContext {
    type V = ListContextView;

    closed spec fn view(&self) -> ListContextView {
        ListContextView {
            cururl: self.cururl@,
            files: entry_views(self.files@),
            selected: self.selected as nat,
            have_write: self.have_write,
            bad_responses: self.bad_response_counter as nat,
        }
    }
}

/// The number of rows from the row of the entry `selected` down to the row
/// under the last one listed on its page.
fn offset_of(len: usize, selected: usize, lines: usize) -> (up: usize)
    requires
        selected < len,
        lines > 0,
    ensures
        up == cursor_offset(len as nat, selected as nat, lines as nat),
        0 < up <= lines,
{
    assert(selected % lines <= selected && selected % lines < lines) by (nonlinear_arith)
        requires
            lines > 0,
    ;
    let start = selected - selected % lines;
    let end = if len - start < lines {
        len
    } else {
        start + lines
    };
    end - selected
}

/// The page on which the entry `selected` stands.
fn page_index(selected: usize, lines: usize) -> (page: usize)
    requires
        lines > 0,
    ensures
        page == page_of(selected as nat, lines as nat),
{
    selected / lines
}

impl ListContext {
    /// The state at the start: at `starting_url`, with nothing listed yet.
    pub fn new(starting_url: Location) -> (context: ListContext)
        ensures
            context@.wf(),
            context@ == (ListContextView {
                cururl: starting_url@,
                files: Seq::empty(),
                selected: 0,
                have_write: false,
                bad_responses: 0,
            }),
    {
        let context = ListContext {
            cururl: starting_url,
            files: Vec::new(),
            selected: 0,
            have_write: false,
            bad_response_counter: 0,
        };
        assert(context@.files =~= Seq::empty());
        context
    }

    /// Goes to the parent location and selects its first entry; stays at a
    /// root. Says whether it went.
    fn back(&mut self) -> (went: bool)
        requires
            old(self)@.wf(),
        ensures
            final(self)@ == old(self)@.back(),
            final(self)@.wf(),
            went == (parent_of(old(self)@.cururl) != old(self)@.cururl),
    {
        let parent = parent_url(&self.cururl);
        if !parent.same(&self.cururl) {
            self.cururl = parent;
            self.selected = 0;
            true
        } else {
            false
        }
    }

    /// The location that the selected entry's name leads to.
    fn selected_location(&self) -> (to: Option<Location>)
        requires
            self@.wf(),
            self@.files.len() > 0,
        ensures
            location_view(to) == self@.selected_location(),
    {
        assert(self@.files[self.selected as int] == self.files[self.selected as int]@);
        self.cururl.join(self.files[self.selected].full_name.as_str())
    }

    /// Takes in what came back when the current location was fetched, and
    /// says what to do with it.
    ///
    /// An answer that failed sends the user to the parent. So does one that
    /// is no listing, unless it is the third such in a row: that one ends
    /// the session. A file is handed out to be shown, and the location moves
    /// to the parent. A directory is listed.
    pub fn one_loop(&mut self, fetched: Fetched) -> (step: LoopStep)
        requires
            old(self)@.wf(),
        ensures
            final(self)@.wf(),
            match fetched {
                Fetched::Failed(status) => step matches LoopStep::Retry(notices) && notice_views(
                    notices@,
                ) == old(self)@.failure_notices(status@) && final(self)@ == old(self)@.after_failure(),
                Fetched::Unparsable(error) => final(self)@ == old(self)@.after_unparsable() && if old(self)@.gives_up() {
                    step matches LoopStep::GiveUp(notices) && notice_views(notices@) == old(self)@.unparsable_notices(error@)
                } else {
                    step matches LoopStep::Retry(notices) && notice_views(notices@) == old(self)@.unparsable_notices(error@)
                },
                Fetched::Listing(resp) => if resp.is_file {
                    step matches LoopStep::ShowFile { url, label } && url@ == old(self)@.cururl
                        && label@ == label_of(url_path(old(self)@.cururl)) && final(self)@ == old(self)@.after_file(resp.writes_supported)
                } else {
                    step matches LoopStep::Browse && exists|locals: Seq<Option<Tm>>|
                        {
                            &&& locals.len() == resp.files.len()
                            &&& forall|i: int|
                                0 <= i < locals.len() ==> shows_time(
                                    resp.files[i].last_modified,
                                    #[trigger] locals[i],
                                )
                            &&& final(self)@ == old(self)@.after_listing(
                                resp.writes_supported,
                                display_list(resp@, locals),
                            )
                        }
                },
            },
    {
        match fetched {
            Fetched::Failed(status) => {
                let mut notices: Vec<Notice> = Vec::new();
                notices.push(Notice::Contents(show_location(&self.cururl)));
                notices.push(Notice::Status(status));
                assert(notice_views(notices@) =~= old(self)@.failure_notices(status@));
                self.back();
                self.bad_response_counter = 0;
                LoopStep::Retry(notices)
            },
            Fetched::Unparsable(error) => {
                let mut notices: Vec<Notice> = Vec::new();
                notices.push(Notice::Contents(show_location(&self.cururl)));
                notices.push(Notice::Unparsable(error));
                if self.bad_response_counter + 1 >= BAD_RESPONSE_LIMIT {
                    self.bad_response_counter = BAD_RESPONSE_LIMIT;
                    notices.push(Notice::Incompatible(String::from_str(self.cururl.as_str())));
                    assert(notice_views(notices@) =~= old(self)@.unparsable_notices(error@));
                    LoopStep::GiveUp(notices)
                } else {
                    assert(notice_views(notices@) =~= old(self)@.unparsable_notices(error@));
                    self.back();
                    self.bad_response_counter = self.bad_response_counter + 1;
                    LoopStep::Retry(notices)
                }
            },
            Fetched::Listing(resp) => {
                if resp.is_file {
                    let url = self.cururl.clone();
                    let label = match url.path() {
                        Some(path) => {
                            let mut chars = chars_of(path.as_str());
                            if chars.len() > 0 {
                                chars.remove(0);
                            }
                            assert(chars@ =~= label_of(Some(path@)));
                            string_of(&chars)
                        },
                        None => String::new(),
                    };
                    self.back();
                    self.have_write = resp.writes_supported;
                    self.bad_response_counter = 0;
                    LoopStep::ShowFile { url, label }
                } else {
                    let entries = RemoteFile::from_response(&resp);
                    self.selected = if entries.len() == 0 {
                        0
                    } else if self.selected >= entries.len() {
                        entries.len() - 1
                    } else {
                        self.selected
                    };
                    self.files = entries;
                    self.have_write = resp.writes_supported;
                    self.bad_response_counter = 0;
                    proof {
                        assert forall|i: int| 0 <= i < self@.files.len() implies (
                        #[trigger] self@.files[i]).is_well_formed() by {
                            assert(self@.files[i] == self.files[i]@);
                        }
                    }
                    LoopStep::Browse
                }
            },
        }
    }

    /// Takes in a key, and says what to repaint and what to do then.
    ///
    /// `key` is the byte read, `follow_up` the one read after it where
    /// `needs_follow_up` asked for one; `term_size` is the terminal's width
    /// and height.
    ///
    /// | Key | What it does |
    /// |-----|--------------|
    /// | Enter, right arrow | enter the selected entry |
    /// | Escape, `q` | end the session |
    /// | `d` | save the selected file |
    /// | `u` | send a file, if the server takes writes |
    /// | Delete | delete the selected entry, if the server takes writes |
    /// | left arrow | go to the parent, unless at a root |
    /// | up and down arrow | move the selection by one entry |
    /// | Page Up, Page Down | move the selection by one page |
    /// | Home, End | select the first or the last entry |
    ///
    /// A move within the page repaints two characters and nothing else; a
    /// move to another page has the listing printed anew.
    pub fn process_input(&mut self, key: u8, follow_up: Option<u8>, term_size: (usize, usize)) -> (step:
        Result<InputStep, NavError>)
        requires
            old(self)@.wf(),
            term_size.1 > 2,
        ensures
            final(self)@.wf(),
            match step {
                Ok(s) => old(self)@.input_step(key_of(key, follow_up), (term_size.1 - 2) as nat)
                    == Some(
                    InputStepView { next: final(self)@, paints: s.paints@, command: s.command@ },
                ),
                Err(e) => e == NavError::NoSuchLocation && final(self)@ == old(self)@ && old(self)@.input_step(key_of(key, follow_up), (term_size.1 - 2) as nat) is None,
            },
    {
        let asked = decode_key(key, follow_up);
        let lines = term_size.1 - 2;
        let len = self.files.len();
        let ghost before = self@;
        match asked {
            Key::Enter | Key::Right => {
                if len == 0 {
                    return Ok(InputStep { paints: Vec::new(), command: Command::Continue });
                }
                match self.selected_location() {
                    Some(to) => {
                        self.cururl = to;
                        self.selected = 0;
                        Ok(InputStep { paints: Vec::new(), command: Command::Fetch })
                    },
                    None => Err(NavError::NoSuchLocation),
                }
            },
            Key::Quit => Ok(InputStep { paints: Vec::new(), command: Command::Exit }),
            Key::Download => {
                assert(len > 0 ==> before.files[self.selected as int] == self.files[self.selected as int]@);
                if len > 0 && self.files[self.selected].size.is_some() {
                    match self.selected_location() {
                        Some(to) => Ok(InputStep { paints: Vec::new(), command: Command::Download(to) }),
                        None => Err(NavError::NoSuchLocation),
                    }
                } else {
                    Ok(InputStep { paints: Vec::new(), command: Command::Continue })
                }
            },
            Key::Upload => {
                if self.have_write {
                    Ok(InputStep { paints: Vec::new(), command: Command::Upload })
                } else {
                    Ok(InputStep { paints: Vec::new(), command: Command::Refuse })
                }
            },
            Key::Delete => {
                if !self.have_write {
                    Ok(InputStep { paints: Vec::new(), command: Command::Refuse })
                } else if len == 0 {
                    Ok(InputStep { paints: Vec::new(), command: Command::Continue })
                } else {
                    match self.selected_location() {
                        Some(to) => Ok(InputStep { paints: Vec::new(), command: Command::Delete(to) }),
                        None => Err(NavError::NoSuchLocation),
                    }
                }
            },
            Key::Left => {
                self.back();
                Ok(InputStep { paints: Vec::new(), command: Command::Fetch })
            },
            Key::Up | Key::Down | Key::PageUp | Key::PageDown | Key::Home | Key::End => {
                let mut paints: Vec<Paint> = Vec::new();
                if len == 0 {
                    return Ok(InputStep { paints, command: Command::Continue });
                }
                let from = self.selected;
                let to = match asked {
                    Key::Up => if from > 0 {
                        from - 1
                    } else {
                        from
                    },
                    Key::Down => if from + 1 < len {
                        from + 1
                    } else {
                        from
                    },
                    Key::PageUp => if from >= lines {
                        from - lines
                    } else {
                        0
                    },
                    Key::PageDown => if lines < len - from {
                        from + lines
                    } else {
                        len - 1
                    },
                    Key::Home => 0,
                    _ => len - 1,
                };
                assert(to == before.target(asked, lines as nat));
                let arrow = match asked {
                    Key::Up | Key::Down => true,
                    _ => false,
                };
                if !(arrow && to == from) {
                    paints.push(Paint::Mark { up: offset_of(len, from, lines), mark: ' ' });
                    if page_index(to, lines) != page_index(from, lines) {
                        paints.push(Paint::Listing);
                    }
                    paints.push(Paint::Mark { up: offset_of(len, to, lines), mark: '>' });
                }
                self.selected = to;
                assert(paints@ =~= before.paints(asked, lines as nat));
                Ok(InputStep { paints, command: Command::Continue })
            },
            Key::Other => Ok(InputStep { paints: Vec::new(), command: Command::Continue }),
        }
    }

    /// Takes in how a deletion went: after one that succeeded the first
    /// entry is selected.
    pub fn deleted(&mut self, success: bool)
        requires
            old(self)@.wf(),
        ensures
            final(self)@.wf(),
            final(self)@ == if success {
                ListContextView { selected: 0, ..old(self)@ }
            } else {
                old(self)@
            },
    {
        if success {
            self.selected = 0;
        }
    }

    /// The location to which a file named `file_name` is sent.
    pub fn upload_location(&self, file_name: &str) -> (to: Option<Location>)
        ensures
            location_view(to) == url_joined(self@.cururl, file_name@),
    {
        self.cururl.join(file_name)
    }

    /// The current location.
    pub fn location(&self) -> (location: &Location)
        ensures
            location@ == self@.cururl,
    {
        &self.cururl
    }

    /// What is listed.
    pub fn files(&self) -> (files: &Vec<RemoteFile>)
        ensures
            entry_views(files@) == self@.files,
    {
        &self.files
    }

    /// The index of the selected entry.
    pub fn selected(&self) -> (selected: usize)
        ensures
            selected == self@.selected,
    {
        self.selected
    }

    /// Whether the server takes writes.
    pub fn have_write(&self) -> (have_write: bool)
        ensures
            have_write == self@.have_write,
    {
        self.have_write
    }

    /// How many answers in a row were no listings.
    pub fn bad_responses(&self) -> (count: usize)
        ensures
            count == self@.bad_responses,
    {
        self.bad_response_counter
    }
}

impl ListContext {
    /// The listing as it is printed: a heading with the location and the
    /// page, then the entries of the page on which the selected one stands,
    /// that one marked, as a table.
    pub fn list_file_screen(&self, term_size: (usize, usize)) -> (screen: String)
        requires
            self@.wf(),
            term_size.1 > 2,
        ensures
            screen@ == self@.list_screen((term_size.1 - 2) as nat),
    {
        let lines = term_size.1 - 2;
        let len = self.files.len();
        let at = show_location(&self.cururl);
        let mut text = String::from_str("Contents of ");
        text.append(at.as_str());
        text.append(" -- page ");
        push_decimal(&mut text, (self.selected / lines) as u64 + 1);
        text.append("/");
        let pages = if len % lines == 0 {
            len / lines
        } else {
            assert(len / lines <= len) by (nonlinear_arith)
                requires
                    lines > 0,
            ;
            assert(len / lines != len) by (nonlinear_arith)
                requires
                    lines > 0,
                    len % lines != 0,
            ;
            len / lines + 1
        };
        push_decimal(&mut text, pages as u64);
        text.append(":");
        assert(text@ == self@.heading(lines as nat));
        text.push('\n');
        assert(self.selected % lines <= self.selected) by (nonlinear_arith)
            requires
                lines > 0,
        ;
        let start = self.selected - self.selected % lines;
        let end = if len - start < lines {
            len
        } else {
            start + lines
        };
        let mut rows = String::new();
        let mut i = start;
        while i < end
            invariant
                start <= i <= end <= self.files.len(),
                self@.wf(),
                rows@ == rows_text(self@.files, self@.selected, start as nat, i as nat),
            decreases end - i,
        {
            assert(self@.files[i as int] == self.files[i as int]@);
            let ghost before = rows@;
            rows.push(if i == self.selected {
                '>'
            } else {
                ' '
            });
            let row = self.files[i].to_string();
            rows.append(row.as_str());
            rows.push('\n');
            assert(rows@ =~= before + row_line(self@.files[i as int], i == self.selected));
            i += 1;
        }
        let table = align_tabs(rows.as_str());
        text.append(table.as_str());
        text
    }

    /// What moves the mark: the text that writes `c` at the start of the
    /// selected entry's row and puts the cursor back under the listing.
    pub fn update_selected(&self, c: char, term_size: (usize, usize)) -> (text: String)
        requires
            self@.wf(),
            self@.files.len() > 0,
            term_size.1 > 2,
        ensures
            text@ == mark_text(
                cursor_offset(self@.files.len(), self@.selected, (term_size.1 - 2) as nat),
                c,
            ),
    {
        let up = offset_of(self.files.len(), self.selected, term_size.1 - 2);
        mark(up, c)
    }

    /// What is printed for `paint`.
    pub fn paint(&self, paint: Paint, term_size: (usize, usize)) -> (text: String)
        requires
            self@.wf(),
            term_size.1 > 2,
        ensures
            text@ == match paint {
                Paint::Mark { up, mark } => mark_text(up as nat, mark),
                Paint::Listing => self@.list_screen((term_size.1 - 2) as nat),
            },
    {
        match paint {
            Paint::Mark { up, mark: c } => mark(up, c),
            Paint::Listing => self.list_file_screen(term_size),
        }
    }
}

/// The text that writes `c` in the first column `up` rows above the cursor
/// and puts the cursor back.
fn mark(up: usize, c: char) -> (text: String)
    ensures
        text@ == mark_text(up as nat, c),
{
    let mut text = move_cursor_up(up);
    text.push(c);
    let back = move_cursor_back(1);
    text.append(back.as_str());
    let down = move_cursor_down(up);
    text.append(down.as_str());
    text
}

/// Three answers in a row that are no listings end the session, wherever
/// the user is; one or two do not. The user is told that the server does
/// not speak the protocol after the third, once and as the last notice, and
/// not after the first or the second.
pub proof fn lemma_three_bad_answers_end(c: ListContextView, error: Seq<char>)
    requires
        c.bad_responses == 0,
    ensures
        !c.gives_up(),
        !c.after_unparsable().gives_up(),
        c.after_unparsable().after_unparsable().gives_up(),
        c.after_unparsable().after_unparsable().after_unparsable().bad_responses
            == BAD_RESPONSE_LIMIT,
        c.unparsable_notices(error).len() == 2,
        c.after_unparsable().unparsable_notices(error).len() == 2,
        forall|i: int| 0 <= i < 2 ==> !(#[trigger] c.unparsable_notices(error)[i] is Incompatible),
        forall|i: int|
            0 <= i < 2 ==> !(#[trigger] c.after_unparsable().unparsable_notices(error)[i]
                is Incompatible),
        c.after_unparsable().after_unparsable().unparsable_notices(error).len() == 3,
        c.after_unparsable().after_unparsable().unparsable_notices(error)[1]
            == NoticeView::Unparsable(error),
        c.after_unparsable().after_unparsable().unparsable_notices(error)[2]
            == NoticeView::Incompatible(c.after_unparsable().after_unparsable().cururl),
{
}

/// With two answers counted that are no listings, a third ends the session.
pub proof fn lemma_third_bad_answer_ends(c: ListContextView, error: Seq<char>)
    requires
        c.bad_responses == 2,
    ensures
        c.gives_up(),
        c.unparsable_notices(error).last() == NoticeView::Incompatible(c.cururl),
{
}

/// Any answer but one that is no listing starts the count of those anew: a
/// bad answer after it does not end the session, however many came before.
pub proof fn lemma_count_starts_anew(
    c: ListContextView,
    writes: bool,
    entries: Seq<RemoteFileView>,
    error: Seq<char>,
)
    ensures
        c.after_failure().bad_responses == 0,
        c.after_file(writes).bad_responses == 0,
        c.after_listing(writes, entries).bad_responses == 0,
        !c.after_failure().gives_up(),
        !c.after_file(writes).gives_up(),
        !c.after_listing(writes, entries).gives_up(),
        c.after_listing(writes, entries).unparsable_notices(error).len() == 2,
{
}

/// A key leaves the selection on an entry.
pub proof fn lemma_target_in_range(c: ListContextView, key: Key, lines: nat)
    requires
        c.wf(),
        c.files.len() > 0,
    ensures
        c.target(key, lines) < c.files.len(),
{
}

/// The listing is printed anew if and only if the key moves the selection to
/// another page; and whenever the selection is repainted, two marks are.
pub proof fn lemma_listing_repainted_iff_page_changes(c: ListContextView, key: Key, lines: nat)
    requires
        c.wf(),
    ensures
        c.paints(key, lines).contains(Paint::Listing) <==> c.repaints(key, lines) && page_of(
            c.target(key, lines),
            lines,
        ) != page_of(c.selected, lines),
        c.repaints(key, lines) ==> c.paints(key, lines).first() is Mark && c.paints(
            key,
            lines,
        ).last() is Mark,
        !c.repaints(key, lines) ==> c.paints(key, lines).len() == 0,
{
    let paints = c.paints(key, lines);
    if c.repaints(key, lines) {
        if page_of(c.target(key, lines), lines) != page_of(c.selected, lines) {
            assert(paints[1] == Paint::Listing);
        }
    }
}

/// Down and then up, within one page, comes back to the state before: each
/// of the two keys repaints two single characters and never the listing.
pub proof fn lemma_down_then_up(c: ListContextView, lines: nat)
    requires
        c.wf(),
        c.selected + 1 < c.files.len(),
        page_of(c.selected + 1, lines) == page_of(c.selected, lines),
    ensures
        c.input_step(Key::Down, lines) is Some,
        c.input_step(Key::Down, lines)->0.next.input_step(Key::Up, lines) is Some,
        c.input_step(Key::Down, lines)->0.next.input_step(Key::Up, lines)->0.next == c,
        c.input_step(Key::Down, lines)->0.paints.len() == 2,
        c.input_step(Key::Down, lines)->0.paints[0] is Mark,
        c.input_step(Key::Down, lines)->0.paints[1] is Mark,
        c.input_step(Key::Down, lines)->0.next.input_step(Key::Up, lines)->0.paints.len() == 2,
        c.input_step(Key::Down, lines)->0.next.input_step(Key::Up, lines)->0.paints[0] is Mark,
        c.input_step(Key::Down, lines)->0.next.input_step(Key::Up, lines)->0.paints[1] is Mark,
{
}

/// Wherever a key or an answer changes the location, the first entry is
/// selected afterwards.
pub proof fn lemma_selection_resets_on_move(c: ListContextView, key: Key, lines: nat, writes: bool)
    requires
        c.wf(),
    ensures
        c.input_step(key, lines) matches Some(step) ==> step.next.cururl != c.cururl
            ==> step.next.selected == 0,
        c.after_failure().cururl != c.cururl ==> c.after_failure().selected == 0,
        c.after_unparsable().cururl != c.cururl ==> c.after_unparsable().selected == 0,
        c.after_file(writes).cururl != c.cururl ==> c.after_file(writes).selected == 0,
{
}

/// A state that is well formed stays so, whatever key is pressed and
/// whatever entries that are well formed are listed.
pub proof fn lemma_steps_keep_well_formed(
    c: ListContextView,
    key: Key,
    lines: nat,
    writes: bool,
    entries: Seq<RemoteFileView>,
)
    requires
        c.wf(),
        forall|i: int| 0 <= i < entries.len() ==> (#[trigger] entries[i]).is_well_formed(),
    ensures
        c.input_step(key, lines) matches Some(step) ==> step.next.wf(),
        c.after_failure().wf(),
        c.after_unparsable().wf(),
        c.after_file(writes).wf(),
        c.after_listing(writes, entries).wf(),
{
}

} // verus!
