//! Showing a text one screen at a time.

use crate::text::{chars_of, decimal, push_decimal, views};
use crate::util::{spaces, GETCH_ESC, GETCH_SPECIAL_PREFIX, TAB_WIDTH};
use itertools::Itertools;
use vstd::prelude::*;
use vstd::string::StringExecFns;
use vstd::utf8::{decode_utf8, valid_utf8};

verus! {

/// The width for which the footer is given room: that of the longest footer
/// with a percentage of two places, without the label.
pub const END_MESSAGE_RAW_LEN: usize = 63;

/// The length of the first line of `text`, its line feed included; the
/// length of `text` where it holds no line feed.
pub open spec fn line_end(text: Seq<char>) -> nat
    decreases text.len(),
{
    if text.len() == 0 {
        0
    } else if text[0] == '\n' {
        1
    } else {
        1 + line_end(text.skip(1))
    }
}

/// A line as it is shown: without carriage returns and line feeds, and with
/// each tab expanded to `TAB_WIDTH` spaces.
pub open spec fn normalized(line: Seq<char>) -> Seq<char>
    decreases line.len(),
{
    if line.len() == 0 {
        Seq::empty()
    } else if line.last() == '\r' || line.last() == '\n' {
        normalized(line.drop_last())
    } else if line.last() == '\t' {
        normalized(line.drop_last()) + spaces(TAB_WIDTH as nat)
    } else {
        normalized(line.drop_last()).push(line.last())
    }
}

/// `line` cut into pieces of `width` characters; the last piece is shorter
/// where the length is no multiple of the width.
pub open spec fn chunks(line: Seq<char>, width: nat) -> Seq<Seq<char>>
    decreases line.len(),
{
    if line.len() == 0 || width == 0 {
        Seq::empty()
    } else if line.len() <= width {
        seq![line]
    } else {
        seq![line.take(width as int)] + chunks(line.skip(width as int), width)
    }
}

/// The rows that a shown line takes on a terminal `width` columns wide: an
/// empty line takes one empty row.
pub open spec fn wrapped(line: Seq<char>, width: nat) -> Seq<Seq<char>> {
    if line.len() == 0 {
        seq![Seq::empty()]
    } else {
        chunks(line, width)
    }
}

/// The rows that `text` takes on a terminal `width` columns wide: those of
/// its lines, one line after the other.
pub open spec fn rows_of(text: Seq<char>, width: nat) -> Seq<Seq<char>>
    decreases text.len(),
    via rows_of_decreases
{
    if text.len() == 0 {
        Seq::empty()
    } else {
        wrapped(normalized(text.take(line_end(text) as int)), width) + rows_of(
            text.skip(line_end(text) as int),
            width,
        )
    }
}

#[via_fn]
proof fn rows_of_decreases(text: Seq<char>, width: nat) {
    lemma_line_end_bounds(text);
}

/// The first line of a text that is not empty is not empty, and no longer
/// than the text.
pub proof fn lemma_line_end_bounds(text: Seq<char>)
    ensures
        line_end(text) <= text.len(),
        text.len() > 0 ==> line_end(text) >= 1,
    decreases text.len(),
{
    if text.len() > 0 && text[0] != '\n' {
        lemma_line_end_bounds(text.skip(1));
    }
}

/// Calls `Itertools::chunks` on the characters of `line` and collects each
/// chunk into a string. Trusted: the chunks are the pieces of `width`
/// characters in order, the last one shorter where the length is no multiple
/// of the width. A width of zero, on which `chunks` panics, is kept out.
#[verifier::external_body]
fn chunk_line(line: &Vec<char>, width: usize) -> (pieces: Vec<String>)
    requires
        width > 0,
    ensures
        views(pieces@) == chunks(line@, width as nat),
{
    line.iter().chunks(width).into_iter().map(|piece| piece.collect::<String>()).collect()
}

/// Calls `std::str::from_utf8`. Trusted: the bytes are read as text where
/// they are UTF-8, and refused where they are not.
#[verifier::external_body]
fn text_of(data: &[u8]) -> (text: Option<&str>)
    ensures
        match text {
            Some(t) => valid_utf8(data@) && t@ == decode_utf8(data@),
            None => !valid_utf8(data@),
        },
{
    std::str::from_utf8(data).ok()
}

/// Whether `data` is text, that is UTF-8.
pub fn is_text(data: &[u8]) -> (text: bool)
    ensures
        text == valid_utf8(data@),
{
    text_of(data).is_some()
}

/// The first line of a text that holds no line feed before the place `at`
/// and one there ends behind that place.
pub proof fn lemma_line_end_at(text: Seq<char>, at: int)
    requires
        0 <= at < text.len(),
        text[at] == '\n',
        forall|j: int| 0 <= j < at ==> text[j] != '\n',
    ensures
        line_end(text) == at + 1,
    decreases at,
{
    if at > 0 {
        assert forall|j: int| 0 <= j < at - 1 implies text.skip(1)[j] != '\n' by {
            assert(text.skip(1)[j] == text[j + 1]);
        }
        lemma_line_end_at(text.skip(1), at - 1);
    }
}

/// The first line of a text that holds no line feed is the whole text.
pub proof fn lemma_line_end_none(text: Seq<char>)
    requires
        forall|j: int| 0 <= j < text.len() ==> text[j] != '\n',
    ensures
        line_end(text) == text.len(),
    decreases text.len(),
{
    if text.len() > 0 {
        assert forall|j: int| 0 <= j < text.len() - 1 implies text.skip(1)[j] != '\n' by {
            assert(text.skip(1)[j] == text[j + 1]);
        }
        lemma_line_end_none(text.skip(1));
    }
}

/// The rows that `text` takes on a terminal `width` columns wide.
pub fn wrap_text(text: &str, width: usize) -> (rows: Vec<String>)
    requires
        width > 0,
    ensures
        views(rows@) == rows_of(text@, width as nat),
{
    let chars = chars_of(text);
    let mut rows: Vec<String> = Vec::new();
    let mut line: Vec<char> = Vec::new();
    let mut start: usize = 0;
    let mut i: usize = 0;
    assert(chars@.skip(0) =~= chars@);
    assert(views(rows@) =~= Seq::empty());
    while i < chars.len()
        invariant
            width > 0,
            chars@ == text@,
            start <= i <= chars.len(),
            rows_of(text@, width as nat) == views(rows@) + rows_of(chars@.skip(start as int), width as nat),
            forall|j: int| start <= j < i ==> chars[j] != '\n',
            line@ == normalized(chars@.subrange(start as int, i as int)),
        decreases chars.len() - i,
    {
        let c = chars[i];
        let ghost seen = chars@.subrange(start as int, i as int);
        let ghost more = chars@.subrange(start as int, i + 1);
        assert(more.drop_last() =~= seen);
        if c == '\n' {
            let ghost rest = chars@.skip(start as int);
            proof {
                assert forall|j: int| 0 <= j < i - start implies rest[j] != '\n' by {
                    assert(rest[j] == chars[start + j]);
                }
                lemma_line_end_at(rest, i - start);
                assert(rest.take(i + 1 - start) =~= more);
                assert(rest.skip(i + 1 - start) =~= chars@.skip(i + 1));
            }
            let ghost before = views(rows@);
            if line.len() == 0 {
                rows.push(String::new());
                assert(views(rows@) =~= before + wrapped(line@, width as nat));
            } else {
                let mut pieces = chunk_line(&line, width);
                let ghost added = views(pieces@);
                rows.append(&mut pieces);
                assert(views(rows@) =~= before + added);
            }
            line = Vec::new();
            start = i + 1;
            assert(chars@.subrange(start as int, start as int) =~= Seq::empty());
        } else if c == '\r' {
        } else if c == '\t' {
            let mut k: usize = 0;
            let ghost base = line@;
            while k < TAB_WIDTH
                invariant
                    k <= TAB_WIDTH,
                    line@ == base + spaces(k as nat),
                decreases TAB_WIDTH - k,
            {
                line.push(' ');
                k += 1;
                assert(line@ =~= base + spaces(k as nat));
            }
        } else {
            line.push(c);
        }
        i += 1;
    }
    if start < chars.len() {
        let ghost rest = chars@.skip(start as int);
        proof {
            assert forall|j: int| 0 <= j < rest.len() implies rest[j] != '\n' by {
                assert(rest[j] == chars[start + j]);
            }
            lemma_line_end_none(rest);
            assert(rest.take(rest.len() as int) =~= chars@.subrange(start as int, i as int));
            assert(rest.skip(rest.len() as int) =~= Seq::empty());
        }
        let ghost before = views(rows@);
        if line.len() == 0 {
            rows.push(String::new());
            assert(views(rows@) =~= before + wrapped(line@, width as nat));
        } else {
            let mut pieces = chunk_line(&line, width);
            let ghost added = views(pieces@);
            rows.append(&mut pieces);
            assert(views(rows@) =~= before + added);
        }
        assert(rows_of(Seq::<char>::empty(), width as nat) =~= Seq::empty());
        assert(rows_of(rest, width as nat) =~= wrapped(line@, width as nat));
        assert(views(rows@) =~= before + rows_of(rest, width as nat));
    } else {
        assert(chars@.skip(start as int) =~= Seq::empty());
        assert(rows_of(Seq::<char>::empty(), width as nat) =~= Seq::empty());
        assert(views(rows@) =~= views(rows@) + rows_of(chars@.skip(start as int), width as nat));
    }
    rows
}

/// What stands under a screen.
#[derive(Clone, Copy, Debug, PartialEq, Eq, Structural)]
pub enum Footer {
    /// The screen is the last one.
    End,
    /// More screens follow: `percent` of the text has been shown, and the
    /// next screen is the last one if `last` says so.
    More { percent: usize, last: bool },
}

impl Footer {
    /// The footer as it is printed.
    pub open spec fn text(self) -> Seq<char> {
        match self {
            Footer::End => "<End of file> <press any key to stop>"@,
            Footer::More { percent, last } => "<"@ + decimal(percent as nat)
                + "%> <press any key for "@ + (if last {
                "last"@
            } else {
                "next"@
            }) + " screen> <press Escape to stop>"@,
        }
    }

    /// The footer as it is printed.
    pub fn to_string(&self) -> (text: String)
        ensures
            text@ == self.text(),
    {
        match self {
            Footer::End => String::from_str("<End of file> <press any key to stop>"),
            Footer::More { percent, last } => {
                let mut text = String::from_str("<");
                push_decimal(&mut text, *percent as u64);
                text.append("%> <press any key for ");
                if *last {
                    text.append("last");
                } else {
                    text.append("next");
                }
                text.append(" screen> <press Escape to stop>");
                text
            },
        }
    }
}

/// The rows that are kept free for the footer on a terminal `width` columns
/// wide when the label has `label_len` characters.
pub open spec fn footer_rows(label_len: nat, width: nat) -> nat {
    ((END_MESSAGE_RAW_LEN + label_len) / (width as int)) as nat
}

/// Whether a text can be paged under a label of `label_len` characters on a
/// terminal of `width` columns and `height` rows: the terminal has columns,
/// and rows left over above the footer.
pub open spec fn pageable(label_len: nat, width: nat, height: nat) -> bool {
    &&& width > 0
    &&& END_MESSAGE_RAW_LEN + label_len <= usize::MAX
    &&& footer_rows(label_len, width) < height
}

/// The number of screens that `rows` rows fill at `height` rows a screen.
pub open spec fn screen_count(rows: nat, height: nat) -> nat {
    if rows % height == 0 {
        rows / height
    } else {
        rows / height + 1
    }
}

/// The share of the screens, in percent and rounded to the nearest, that
/// has been shown when the screen `index` is, counted from zero.
pub open spec fn percent_shown(index: nat, count: nat) -> nat {
    ((200 * (index + 1) + count) / (2 * count)) as nat
}

/// `rows`, each followed by a line feed.
pub open spec fn lines_text(rows: Seq<Seq<char>>) -> Seq<char>
    decreases rows.len(),
{
    if rows.len() == 0 {
        Seq::empty()
    } else {
        lines_text(rows.drop_last()) + rows.last() + seq!['\n']
    }
}

/// Why paging ended.
#[derive(Clone, Copy, Debug, PartialEq, Eq, Structural)]
pub enum PagingOutcome {
    /// Every screen was shown.
    Completed,
    /// The user stopped before the last screen.
    Stopped,
    /// The data is no text: nothing was shown.
    NotText,
    /// The keys ran out while a screen was waiting for one.
    OutOfKeys,
}

/// What follows a key.
#[derive(Clone, Copy, Debug, PartialEq, Eq, Structural)]
pub enum PagingStep {
    /// The next screen is to be shown.
    Next,
    /// That was the last screen.
    Completed,
    /// The user stopped before the last screen.
    Stopped,
}

/// A text being shown one screen at a time.
pub struct Pager {
    label: String,
    rows: Vec<String>,
    height: usize,
    start: usize,
}

/// The model of a `Pager`.
pub struct PagerView {
    /// The label that every footer begins with.
    pub label: Seq<char>,
    /// The rows of the text.
    pub rows: Seq<Seq<char>>,
    /// The number of rows on a screen.
    pub height: nat,
    /// The index of the first row of the screen that is on display; the
    /// number of rows when none is.
    pub start: nat,
}

impl PagerView {
    /// A screen holds rows, and the one on display begins within the text.
    pub open spec fn wf(self) -> bool {
        &&& self.height > 0
        &&& self.start <= self.rows.len()
    }

    /// Whether a screen is on display.
    pub open spec fn showing(self) -> bool {
        self.start < self.rows.len()
    }

    /// Whether the screen on display is the last one.
    pub open spec fn at_end(self) -> bool {
        self.rows.len() - self.start <= self.height
    }

    /// The index of the screen on display, counted from zero.
    pub open spec fn index(self) -> nat {
        self.start / self.height
    }

    /// The index behind the last row of the screen on display.
    pub open spec fn stop(self) -> nat {
        if self.at_end() {
            self.rows.len()
        } else {
            self.start + self.height
        }
    }

    /// The footer of the screen on display: that of the end on the last
    /// screen; on another the share shown, and whether the next screen is the
    /// last one.
    pub open spec fn footer(self) -> Footer {
        if self.at_end() {
            Footer::End
        } else {
            Footer::More {
                percent: percent_shown(
                    self.index(),
                    screen_count(self.rows.len(), self.height),
                ) as usize,
                last: self.rows.len() - self.start <= 2 * self.height,
            }
        }
    }

    /// The screen on display as it is printed: a line feed unless it is the
    /// first screen, its rows, and on the line under them the label and the
    /// footer.
    pub open spec fn screen_text(self) -> Seq<char> {
        (if self.start == 0 {
            Seq::empty()
        } else {
            seq!['\n']
        }) + lines_text(self.rows.subrange(self.start as int, self.stop() as int)) + "<"@
            + self.label + "> "@ + self.footer().text()
    }

    /// The state with the next screen on display, or none after the last.
    pub open spec fn next(self) -> PagerView {
        PagerView { start: self.stop(), ..self }
    }

    /// What follows the key `key` on the screen on display: after the last
    /// screen any key ends the paging; before it Escape stops, and any other
    /// key shows the next screen.
    pub open spec fn step(self, key: u8) -> PagingStep {
        if self.at_end() {
            PagingStep::Completed
        } else if key == GETCH_ESC {
            PagingStep::Stopped
        } else {
            PagingStep::Next
        }
    }

    /// The state after the key `key`: the next screen is on display, or none
    /// where the paging is over.
    pub open spec fn after(self, key: u8) -> PagerView {
        match self.step(key) {
            PagingStep::Next => self.next(),
            _ => PagerView { start: self.rows.len(), ..self },
        }
    }

    /// The screens that are printed, one after the other, when the keys
    /// `keys` are there to be read.
    pub open spec fn run_screens(self, keys: Seq<u8>) -> Seq<Seq<char>>
        decreases self.rows.len() - self.start,
    {
        if !self.wf() || !self.showing() {
            Seq::empty()
        } else if keys.len() == 0 || (keys[0] == GETCH_SPECIAL_PREFIX && keys.len() == 1)
            || self.step(keys[0]) != PagingStep::Next {
            seq![self.screen_text()]
        } else {
            seq![self.screen_text()] + self.next().run_screens(keys.skip(keys_taken(keys) as int))
        }
    }

    /// How the paging ends when the keys `keys` are there to be read.
    pub open spec fn run_outcome(self, keys: Seq<u8>) -> PagingOutcome
        decreases self.rows.len() - self.start,
    {
        if !self.wf() || !self.showing() {
            PagingOutcome::Completed
        } else if keys.len() == 0 || (keys[0] == GETCH_SPECIAL_PREFIX && keys.len() == 1) {
            PagingOutcome::OutOfKeys
        } else {
            match self.step(keys[0]) {
                PagingStep::Completed => PagingOutcome::Completed,
                PagingStep::Stopped => PagingOutcome::Stopped,
                PagingStep::Next => self.next().run_outcome(keys.skip(keys_taken(keys) as int)),
            }
        }
    }
}

/// The number of bytes that one key takes from `keys`: two where the first
/// is the prefix of a special key, else one.
pub open spec fn keys_taken(keys: Seq<u8>) -> nat {
    if keys[0] == GETCH_SPECIAL_PREFIX {
        2
    } else {
        1
    }
}

/// What was printed and how the paging ended.
#[derive(Debug, PartialEq, Eq)]
pub struct PagingRun {
    /// Why the paging ended.
    pub outcome: PagingOutcome,
    /// The screens as they were printed, one after the other.
    pub screens: Vec<String>,
}

impl View for Pager {
    type V = PagerView;

    closed spec fn view(&self) -> PagerView {
        PagerView {
            label: self.label@,
            rows: views(self.rows@),
            height: self.height as nat,
            start: self.start as nat,
        }
    }
}

impl Pager {
    /// Whether a text can be paged under `label` on a terminal of the size
    /// `term_size`, width first.
    pub fn fits(label: &str, term_size: (usize, usize)) -> (fits: bool)
        ensures
            fits == pageable(label@.len(), term_size.0 as nat, term_size.1 as nat),
    {
        let label_len = label.unicode_len();
        if term_size.0 == 0 || label_len > usize::MAX - END_MESSAGE_RAW_LEN {
            return false;
        }
        (END_MESSAGE_RAW_LEN + label_len) / term_size.0 < term_size.1
    }

    /// Lays `text` out for a terminal of the size `term_size`, width first:
    /// its rows are those of its lines wrapped at the width, and a screen
    /// holds as many as the height leaves over above the footer. The first
    /// screen is on display, if there is one.
    pub fn new(text: &str, label: &str, term_size: (usize, usize)) -> (pager: Pager)
        requires
            pageable(label@.len(), term_size.0 as nat, term_size.1 as nat),
        ensures
            pager@.wf(),
            pager@ == (PagerView {
                label: label@,
                rows: rows_of(text@, term_size.0 as nat),
                height: (term_size.1 - footer_rows(label@.len(), term_size.0 as nat)) as nat,
                start: 0,
            }),
    {
        let label_len = label.unicode_len();
        let reserved = (END_MESSAGE_RAW_LEN + label_len) / term_size.0;
        Pager {
            label: String::from_str(label),
            rows: wrap_text(text, term_size.0),
            height: term_size.1 - reserved,
            start: 0,
        }
    }

    /// Decodes `data` and lays the text out as `new` does; `None` where the
    /// data is no UTF-8, whatever the terminal.
    pub fn open(data: &[u8], label: &str, term_size: (usize, usize)) -> (pager: Option<Pager>)
        requires
            valid_utf8(data@) ==> pageable(label@.len(), term_size.0 as nat, term_size.1 as nat),
        ensures
            pager is Some <==> valid_utf8(data@),
            pager matches Some(p) ==> p@.wf() && p@ == (PagerView {
                label: label@,
                rows: rows_of(decode_utf8(data@), term_size.0 as nat),
                height: (term_size.1 - footer_rows(label@.len(), term_size.0 as nat)) as nat,
                start: 0,
            }),
    {
        match text_of(data) {
            Some(text) => Some(Pager::new(text, label, term_size)),
            None => None,
        }
    }

    /// The footer of the screen on display.
    pub fn footer(&self) -> (footer: Footer)
        requires
            self@.wf(),
            self@.showing(),
        ensures
            footer == self@.footer(),
    {
        let len = self.rows.len();
        if len - self.start <= self.height {
            Footer::End
        } else {
            let index = (self.start / self.height) as u128;
            let count = (len / self.height) as u128 + if len % self.height == 0 {
                0
            } else {
                1
            };
            let height = self.height;
            let start = self.start;
            assert(index + 1 <= count) by (nonlinear_arith)
                requires
                    height > 0,
                    len - start > height,
                    index == start / height,
                    count >= len / height,
            ;
            let percent = (200 * (index + 1) + count) / (2 * count);
            assert(percent <= 100) by (nonlinear_arith)
                requires
                    0 < index + 1 <= count,
                    percent == (200 * (index + 1) + count) / (2 * count),
            ;
            Footer::More {
                percent: percent as usize,
                last: len - self.start - self.height <= self.height,
            }
        }
    }

    /// The screen on display as it is printed; `None` where none is on
    /// display: the text is empty, or the paging is over.
    pub fn screen(&self) -> (text: Option<String>)
        requires
            self@.wf(),
        ensures
            match text {
                Some(t) => self@.showing() && t@ == self@.screen_text(),
                None => !self@.showing(),
            },
    {
        let len = self.rows.len();
        if self.start >= len {
            return None;
        }
        let stop = if len - self.start <= self.height {
            len
        } else {
            self.start + self.height
        };
        let mut text = String::new();
        if self.start != 0 {
            text.push('\n');
        }
        let ghost head = text@;
        let ghost rows = self@.rows.subrange(self.start as int, stop as int);
        let mut i = self.start;
        assert(rows.take(0) =~= Seq::empty());
        while i < stop
            invariant
                self.start <= i <= stop <= self.rows.len(),
                rows == self@.rows.subrange(self.start as int, stop as int),
                text@ == head + lines_text(rows.take(i - self.start)),
            decreases stop - i,
        {
            let ghost before = text@;
            text.append(self.rows[i].as_str());
            text.push('\n');
            proof {
                let k = i - self.start;
                assert(rows.take(k + 1).drop_last() =~= rows.take(k));
                assert(rows.take(k + 1).last() == self.rows[i as int]@);
                assert(text@ =~= head + lines_text(rows.take(k + 1)));
            }
            i += 1;
        }
        assert(rows.take(stop - self.start) =~= rows);
        text.append("<");
        text.append(self.label.as_str());
        text.append("> ");
        let footer = self.footer().to_string();
        text.append(footer.as_str());
        assert(text@ =~= self@.screen_text());
        Some(text)
    }

    /// Takes in the key read under the screen on display, and says what
    /// follows. After the prefix of a special key one more byte is to be
    /// read and dropped, whatever follows.
    pub fn key(&mut self, key: u8) -> (step: PagingStep)
        requires
            old(self)@.wf(),
            old(self)@.showing(),
        ensures
            final(self)@.wf(),
            step == old(self)@.step(key),
            final(self)@ == old(self)@.after(key),
    {
        let len = self.rows.len();
        if len - self.start <= self.height {
            self.start = len;
            PagingStep::Completed
        } else if key == GETCH_ESC {
            self.start = len;
            PagingStep::Stopped
        } else {
            self.start = self.start + self.height;
            PagingStep::Next
        }
    }
}

/// Shows the text in `data` one screen at a time under `label`, on a
/// terminal of the size `term_size`, width first, taking the keys that the
/// user presses from `keys`.
///
/// Nothing is shown of data that is no UTF-8, whatever the terminal. Else
/// the terminal must have room for the text, and every screen is printed
/// and waits for a key: on the last screen any key ends the paging; before
/// it Escape stops, and any other key shows the next screen. The byte that
/// follows the prefix of a special key is read with it.
pub fn paging_copy(data: &[u8], label: &str, keys: &Vec<u8>, term_size: (usize, usize)) -> (run:
    PagingRun)
    requires
        valid_utf8(data@) ==> pageable(label@.len(), term_size.0 as nat, term_size.1 as nat),
    ensures
        !valid_utf8(data@) ==> run.outcome == PagingOutcome::NotText && run.screens.len() == 0,
        valid_utf8(data@) ==> {
            let pager = PagerView {
                label: label@,
                rows: rows_of(decode_utf8(data@), term_size.0 as nat),
                height: (term_size.1 - footer_rows(label@.len(), term_size.0 as nat)) as nat,
                start: 0,
            };
            &&& views(run.screens@) == pager.run_screens(keys@)
            &&& run.outcome == pager.run_outcome(keys@)
        },
{
    let mut pager = match Pager::open(data, label, term_size) {
        Some(pager) => pager,
        None => {
            return PagingRun { outcome: PagingOutcome::NotText, screens: Vec::new() };
        },
    };
    let ghost first = pager@;
    let mut screens: Vec<String> = Vec::new();
    let mut read: usize = 0;
    let mut outcome = PagingOutcome::Completed;
    assert(keys@.skip(0) =~= keys@);
    assert(views(screens@) =~= Seq::empty());
    loop
        invariant_except_break
            first.run_screens(keys@) == views(screens@) + pager@.run_screens(
                keys@.skip(read as int),
            ),
            first.run_outcome(keys@) == pager@.run_outcome(keys@.skip(read as int)),
        invariant
            pager@.wf(),
            read <= keys.len(),
        ensures
            first.run_screens(keys@) == views(screens@),
            first.run_outcome(keys@) == outcome,
        decreases pager@.rows.len() - pager@.start,
    {
        let ghost before = pager@;
        let ghost left = keys@.skip(read as int);
        let ghost shown = views(screens@);
        let screen = match pager.screen() {
            Some(screen) => screen,
            None => {
                outcome = PagingOutcome::Completed;
                assert(shown + Seq::<Seq<char>>::empty() =~= shown);
                break ;
            },
        };
        screens.push(screen);
        assert(views(screens@) =~= shown + seq![before.screen_text()]);
        if read >= keys.len() {
            outcome = PagingOutcome::OutOfKeys;
            break ;
        }
        let key = keys[read];
        assert(left[0] == key);
        if key == GETCH_SPECIAL_PREFIX && keys.len() - read == 1 {
            outcome = PagingOutcome::OutOfKeys;
            break ;
        }
        let taken: usize = if key == GETCH_SPECIAL_PREFIX {
            2
        } else {
            1
        };
        match pager.key(key) {
            PagingStep::Completed => {
                outcome = PagingOutcome::Completed;
                break ;
            },
            PagingStep::Stopped => {
                outcome = PagingOutcome::Stopped;
                break ;
            },
            PagingStep::Next => {
                read = read + taken;
                assert(left.skip(taken as int) =~= keys@.skip(read as int));
                assert(views(screens@) + pager@.run_screens(keys@.skip(read as int)) =~= shown
                    + before.run_screens(left));
            },
        }
    }
    PagingRun { outcome, screens }
}

/// A text that is not empty and takes no more rows than a screen holds is
/// shown on exactly one screen, whose footer is that of the end; any key
/// then ends the paging.
pub proof fn lemma_short_text_one_screen(pager: PagerView, keys: Seq<u8>)
    requires
        pager.wf(),
        pager.start == 0,
        0 < pager.rows.len() <= pager.height,
    ensures
        pager.footer() == Footer::End,
        pager.screen_text() == lines_text(pager.rows) + "<"@ + pager.label + "> "@
            + "<End of file> <press any key to stop>"@,
        pager.run_screens(keys) == seq![pager.screen_text()],
        keys.len() > 0 && !(keys[0] == GETCH_SPECIAL_PREFIX && keys.len() == 1)
            ==> pager.run_outcome(keys) == PagingOutcome::Completed,
{
    assert(pager.rows.subrange(0, pager.rows.len() as int) =~= pager.rows);
    assert(pager.screen_text() =~= lines_text(pager.rows) + "<"@ + pager.label + "> "@
        + "<End of file> <press any key to stop>"@);
}

} // verus!
