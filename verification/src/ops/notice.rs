//! The lines that tell the user what is going on.

use vstd::prelude::*;
use vstd::string::StringExecFns;

verus! {

/// One line for the user.
#[derive(Debug, PartialEq, Eq)]
pub enum Notice {
    /// The heading over what a location holds; the field is the location,
    /// percent-decoded.
    Contents(String),
    /// The server answered with a status that is no success, or not at all;
    /// the field says which.
    Status(String),
    /// The server's answer was no listing; the field says why.
    Unparsable(String),
    /// The server at the location in the field does not speak the protocol.
    Incompatible(String),
    /// The file is no text and will be saved instead of shown.
    NotText,
    /// The server does not take writes.
    Refused,
    /// The location in the field, percent-decoded, is being deleted.
    Deleting(String),
    /// The file named first is being sent to the location named second.
    Uploading(String, String),
    /// The file is being saved where the field says.
    Downloading(String),
    /// The server did what it was asked.
    Success,
    /// The transfer is over.
    Done,
}

/// The model of a `Notice`.
pub enum NoticeView {
    Contents(Seq<char>),
    Status(Seq<char>),
    Unparsable(Seq<char>),
    Incompatible(Seq<char>),
    NotText,
    Refused,
    Deleting(Seq<char>),
    Uploading(Seq<char>, Seq<char>),
    Downloading(Seq<char>),
    Success,
    Done,
}

impl View for Notice {
    type V = NoticeView;

    open spec fn view(&self) -> NoticeView {
        match self {
            Notice::Contents(l) => NoticeView::Contents(l@),
            Notice::Status(s) => NoticeView::Status(s@),
            Notice::Unparsable(e) => NoticeView::Unparsable(e@),
            Notice::Incompatible(l) => NoticeView::Incompatible(l@),
            Notice::NotText => NoticeView::NotText,
            Notice::Refused => NoticeView::Refused,
            Notice::Deleting(l) => NoticeView::Deleting(l@),
            Notice::Uploading(f, l) => NoticeView::Uploading(f@, l@),
            Notice::Downloading(f) => NoticeView::Downloading(f@),
            Notice::Success => NoticeView::Success,
            Notice::Done => NoticeView::Done,
        }
    }
}

/// The models of a sequence of notices.
pub open spec fn notice_views(notices: Seq<Notice>) -> Seq<NoticeView> {
    Seq::new(notices.len(), |i: int| notices[i]@)
}

impl NoticeView {
    /// The line as it is printed.
    pub open spec fn text(self) -> Seq<char> {
        match self {
            NoticeView::Contents(l) => "Contents of "@ + l + ":"@,
            NoticeView::Status(s) => "<Got "@ + s + "...>"@,
            NoticeView::Unparsable(e) => "<Couldn't parse server response: "@ + e + "...>"@,
            NoticeView::Incompatible(l) => "<Server at "@ + l + " doesn't support RFSAPI.>"@,
            NoticeView::NotText => "<Not UTF-8, select download destination>"@,
            NoticeView::Refused => "<Server doesn't permit write requests>"@,
            NoticeView::Deleting(l) => "<Deleting "@ + l + "...>"@,
            NoticeView::Uploading(f, l) => "<Uploading "@ + f + " to "@ + l + "...>"@,
            NoticeView::Downloading(f) => "<Downloading to "@ + f + "...>"@,
            NoticeView::Success => "<Success!>"@,
            NoticeView::Done => "<Done!>"@,
        }
    }
}

fn framed(before: &str, field: &str, after: &str) -> (line: String)
    ensures
        line@ == before@ + field@ + after@,
{
    let mut line = String::from_str(before);
    line.append(field);
    line.append(after);
    line
}

impl Notice {
    /// The line as it is printed.
    pub fn text(&self) -> (line: String)
        ensures
            line@ == self@.text(),
    {
        match self {
            Notice::Contents(l) => framed("Contents of ", l.as_str(), ":"),
            Notice::Status(s) => framed("<Got ", s.as_str(), "...>"),
            Notice::Unparsable(e) => framed("<Couldn't parse server response: ", e.as_str(), "...>"),
            Notice::Incompatible(l) => framed("<Server at ", l.as_str(), " doesn't support RFSAPI.>"),
            Notice::NotText => String::from_str("<Not UTF-8, select download destination>"),
            Notice::Refused => String::from_str("<Server doesn't permit write requests>"),
            Notice::Deleting(l) => framed("<Deleting ", l.as_str(), "...>"),
            Notice::Uploading(f, l) => {
                let mut line = framed("<Uploading ", f.as_str(), " to ");
                line.append(l.as_str());
                line.append("...>");
                line
            },
            Notice::Downloading(f) => framed("<Downloading to ", f.as_str(), "...>"),
            Notice::Success => String::from_str("<Success!>"),
            Notice::Done => String::from_str("<Done!>"),
        }
    }
}

} // verus!
