//! The entries of a listing: what the server sends and what the user sees.

use crate::text::option_view;
use crate::timestamp::{date_time_text, strftime, to_local, Tm};
use crate::util::{human_readable_size, human_size_text};
use vstd::prelude::*;
use vstd::string::StringExecFns;

verus! {

/// What the server tells of one file or directory.
#[derive(Debug, PartialEq, Eq, Hash)]
pub struct RawFileData {
    /// The MIME type that the server worked out; of no use for a directory.
    pub mime_type: String,
    /// The name, by which the entry is reached.
    pub name: String,
    /// When the entry was last modified.
    pub last_modified: Tm,
    /// The size in bytes; of no use for a directory.
    pub size: u64,
    /// Whether the entry is a file.
    pub is_file: bool,
}

/// What the server answers to a request for a listing.
#[derive(Debug, PartialEq, Eq, Hash)]
pub struct FilesetData {
    /// Whether the server takes PUT and DELETE requests.
    pub writes_supported: bool,
    /// Whether the directory asked for is the topmost one.
    pub is_root: bool,
    /// Whether what was asked for is a file.
    pub is_file: bool,
    /// The children of the directory asked for, or the file asked for alone.
    pub files: Vec<RawFileData>,
}

/// One entry of a listing as the user sees it.
#[derive(Debug, PartialEq, Eq, Hash)]
pub struct RemoteFile {
    /// The name; that of a directory ends in a slash.
    pub full_name: String,
    /// The size in bytes; a directory has none.
    pub size: Option<u64>,
    /// The size as a reader wants it; a directory has none.
    pub human_size: Option<String>,
    /// When the entry was last modified, in local time; the entry that leads
    /// to the parent directory has none, nor has one whose time the server
    /// gave as no moment that every platform converts.
    pub last_modified: Option<Tm>,
}

/// The model of a `RawFileData`.
pub struct RawFileDataView {
    pub mime_type: Seq<char>,
    pub name: Seq<char>,
    pub last_modified: Tm,
    pub size: u64,
    pub is_file: bool,
}

/// The model of a `FilesetData`.
pub struct FilesetDataView {
    pub writes_supported: bool,
    pub is_root: bool,
    pub is_file: bool,
    pub files: Seq<RawFileDataView>,
}

/// The model of a `RemoteFile`.
pub struct RemoteFileView {
    pub full_name: Seq<char>,
    pub size: Option<u64>,
    pub human_size: Option<Seq<char>>,
    pub last_modified: Option<Tm>,
}

impl View for RawFileData {
    type V = RawFileDataView;

    open spec fn view(&self) -> RawFileDataView {
        RawFileDataView {
            mime_type: self.mime_type@,
            name: self.name@,
            last_modified: self.last_modified,
            size: self.size,
            is_file: self.is_file,
        }
    }
}

/// The models of a sequence of raw entries.
pub open spec fn raw_views(files: Seq<RawFileData>) -> Seq<RawFileDataView> {
    Seq::new(files.len(), |i: int| files[i]@)
}

impl View for FilesetData {
    type V = FilesetDataView;

    open spec fn view(&self) -> FilesetDataView {
        FilesetDataView {
            writes_supported: self.writes_supported,
            is_root: self.is_root,
            is_file: self.is_file,
            files: raw_views(self.files@),
        }
    }
}

impl View for RemoteFile {
    type V = RemoteFileView;

    open spec fn view(&self) -> RemoteFileView {
        RemoteFileView {
            full_name: self.full_name@,
            size: self.size,
            human_size: option_view(self.human_size),
            last_modified: self.last_modified,
        }
    }
}

/// The models of a sequence of entries.
pub open spec fn entry_views(entries: Seq<RemoteFile>) -> Seq<RemoteFileView> {
    Seq::new(entries.len(), |i: int| entries[i]@)
}

impl RemoteFileView {
    /// A directory is an entry without a size.
    pub open spec fn is_directory(self) -> bool {
        self.size is None
    }

    /// The entry's time, if it has one, can be written as a date and a time.
    pub open spec fn is_well_formed(self) -> bool {
        self.last_modified matches Some(tm) ==> tm.is_displayable()
    }

    /// The entry as one row of a table, its three columns parted by tabs:
    /// name, size, and time of last modification.
    pub open spec fn row(self) -> Seq<char> {
        self.full_name + seq!['\t'] + (match self.human_size {
            Some(size) => size,
            None => Seq::empty(),
        }) + seq!['\t'] + (match self.last_modified {
            Some(tm) => date_time_text(tm),
            None => Seq::empty(),
        })
    }
}

/// The entry that leads to the parent directory.
pub open spec fn parent_entry() -> RemoteFileView {
    RemoteFileView { full_name: "../"@, size: None, human_size: None, last_modified: None }
}

/// Whether `local` is what is shown for the server's time `server`: a local
/// time with the server's nanoseconds, of which the machine's time zone
/// decides the rest, where the server's time is one that every platform
/// converts; and no time where it is not.
pub open spec fn shows_time(server: Tm, local: Option<Tm>) -> bool {
    if server.is_convertible() {
        local matches Some(tm) && tm.is_displayable() && tm.tm_nsec == server.tm_nsec
    } else {
        local is None
    }
}

/// The entry shown for what the server told in `raw`, with `local` as the
/// time of its last modification.
pub open spec fn entry_of(raw: RawFileDataView, local: Option<Tm>) -> RemoteFileView {
    RemoteFileView {
        full_name: if raw.is_file {
            raw.name
        } else {
            raw.name + seq!['/']
        },
        size: if raw.is_file {
            Some(raw.size)
        } else {
            None
        },
        human_size: if raw.is_file {
            Some(human_size_text(raw.size as nat))
        } else {
            None
        },
        last_modified: local,
    }
}

/// The entries shown for `files`, the `i`th with the time `locals[i]`.
pub open spec fn entries_of(
    files: Seq<RawFileDataView>,
    locals: Seq<Option<Tm>>,
) -> Seq<RemoteFileView> {
    Seq::new(files.len(), |i: int| entry_of(files[i], locals[i]))
}

/// The test that picks the directories.
pub open spec fn is_dir() -> spec_fn(RemoteFileView) -> bool {
    |e: RemoteFileView| e.is_directory()
}

/// The test that picks the files.
pub open spec fn is_file() -> spec_fn(RemoteFileView) -> bool {
    |e: RemoteFileView| !e.is_directory()
}

/// The directories of `entries` in their order, then the files in theirs.
pub open spec fn directories_first(entries: Seq<RemoteFileView>) -> Seq<RemoteFileView> {
    entries.filter(is_dir()) + entries.filter(is_file())
}

/// What is listed for the server's answer `resp`, its `i`th entry with the
/// time `locals[i]`: nothing for a file; for a directory its entries,
/// directories first, behind the entry that leads to the parent unless the
/// directory is the topmost one.
pub open spec fn display_list(resp: FilesetDataView, locals: Seq<Option<Tm>>) -> Seq<RemoteFileView> {
    if resp.is_file {
        Seq::empty()
    } else if resp.is_root {
        directories_first(entries_of(resp.files, locals))
    } else {
        seq![parent_entry()] + directories_first(entries_of(resp.files, locals))
    }
}

/// Filtering one element more keeps what was filtered and adds the element
/// if it passes.
pub proof fn lemma_filter_take_step<A>(s: Seq<A>, pred: spec_fn(A) -> bool, i: int)
    requires
        0 <= i < s.len(),
    ensures
        s.take(i + 1).filter(pred) == if pred(s[i]) {
            s.take(i).filter(pred).push(s[i])
        } else {
            s.take(i).filter(pred)
        },
{
    reveal(Seq::filter);
    assert(s.take(i + 1).drop_last() =~= s.take(i));
}

impl Clone for RemoteFile {
    fn clone(&self) -> (copy: RemoteFile)
        ensures
            copy@ == self@,
    {
        RemoteFile {
            full_name: self.full_name.clone(),
            size: self.size,
            human_size: match &self.human_size {
                Some(size) => Some(size.clone()),
                None => None,
            },
            last_modified: self.last_modified,
        }
    }
}

impl RemoteFile {
    /// The entry that leads to the parent directory.
    pub fn parent() -> (entry: RemoteFile)
        ensures
            entry@ == parent_entry(),
    {
        RemoteFile {
            full_name: String::from_str("../"),
            size: None,
            human_size: None,
            last_modified: None,
        }
    }

    /// The entry shown for `rfd`, with `local` as the time of its last
    /// modification.
    pub fn with_local_time(rfd: &RawFileData, local: Option<Tm>) -> (entry: RemoteFile)
        ensures
            entry@ == entry_of(rfd@, local),
    {
        if rfd.is_file {
            RemoteFile {
                full_name: rfd.name.clone(),
                size: Some(rfd.size),
                human_size: Some(human_readable_size(rfd.size)),
                last_modified: local,
            }
        } else {
            let mut full_name = rfd.name.clone();
            full_name.push('/');
            assert(full_name@ =~= rfd.name@ + seq!['/']);
            RemoteFile { full_name, size: None, human_size: None, last_modified: local }
        }
    }

    /// The time shown for the server's time `server`: its local time, and
    /// none where it is no moment that every platform converts.
    pub fn local_time(server: &Tm) -> (local: Option<Tm>)
        ensures
            shows_time(*server, local),
    {
        if server.check_convertible() {
            Some(to_local(server))
        } else {
            None
        }
    }

    /// The entry shown for `rfd`. Its time is the local time of the server's:
    /// which one that is the machine's time zone decides. It has none where
    /// the server's is no moment that every platform converts.
    pub fn from(rfd: &RawFileData) -> (entry: RemoteFile)
        ensures
            entry@ == entry_of(rfd@, entry.last_modified),
            shows_time(rfd.last_modified, entry.last_modified),
    {
        let local = RemoteFile::local_time(&rfd.last_modified);
        RemoteFile::with_local_time(rfd, local)
    }

    /// What is listed for the server's answer `resp`, given for each of its
    /// entries the time to show it with.
    pub fn list(resp: &FilesetData, locals: &Vec<Option<Tm>>) -> (entries: Vec<RemoteFile>)
        requires
            locals.len() == resp.files.len(),
        ensures
            entry_views(entries@) == display_list(resp@, locals@),
    {
        if resp.is_file {
            let entries: Vec<RemoteFile> = Vec::new();
            assert(entry_views(entries@) =~= Seq::empty());
            return entries;
        }
        let mut directories: Vec<RemoteFile> = Vec::new();
        let mut files: Vec<RemoteFile> = Vec::new();
        if !resp.is_root {
            directories.push(RemoteFile::parent());
        }
        let ghost head = entry_views(directories@);
        let ghost all = entries_of(resp@.files, locals@);
        proof {
            reveal(Seq::filter);
            assert(all.take(0).filter(is_dir()) =~= Seq::empty());
            assert(all.take(0).filter(is_file()) =~= Seq::empty());
            assert(entry_views(directories@) =~= head + all.take(0).filter(is_dir()));
            assert(entry_views(files@) =~= all.take(0).filter(is_file()));
        }
        let mut i: usize = 0;
        while i < resp.files.len()
            invariant
                i <= resp.files.len(),
                locals.len() == resp.files.len(),
                all == entries_of(resp@.files, locals@),
                entry_views(directories@) == head + all.take(i as int).filter(is_dir()),
                entry_views(files@) == all.take(i as int).filter(is_file()),
            decreases resp.files.len() - i,
        {
            let entry = RemoteFile::with_local_time(&resp.files[i], locals[i]);
            proof {
                lemma_filter_take_step(all, is_dir(), i as int);
                lemma_filter_take_step(all, is_file(), i as int);
                assert(resp@.files[i as int] == resp.files[i as int]@);
                assert(entry@ == all[i as int]);
            }
            let ghost before_directories = directories@;
            let ghost before_files = files@;
            if entry.size.is_none() {
                directories.push(entry);
                assert(entry_views(directories@) =~= entry_views(before_directories).push(entry@));
                assert(entry_views(directories@) =~= head + all.take(i + 1).filter(is_dir()));
            } else {
                files.push(entry);
                assert(entry_views(files@) =~= entry_views(before_files).push(entry@));
                assert(entry_views(files@) =~= all.take(i + 1).filter(is_file()));
            }
            i += 1;
        }
        assert(all.take(i as int) =~= all);
        let ghost before_directories = directories@;
        let ghost before_files = files@;
        directories.append(&mut files);
        assert(entry_views(directories@) =~= entry_views(before_directories) + entry_views(
            before_files,
        ));
        assert(entry_views(directories@) =~= head + directories_first(all));
        directories
    }

    /// What is listed for the server's answer `resp`: nothing for a file; for
    /// a directory its entries, directories first and otherwise in the
    /// server's order, behind the entry that leads to the parent unless the
    /// directory is the topmost one. The times are local times: which ones,
    /// the machine's time zone decides. An entry whose time is no moment that
    /// every platform converts is listed without one.
    pub fn from_response(resp: &FilesetData) -> (entries: Vec<RemoteFile>)
        ensures
            resp.is_file ==> entries.len() == 0,
            !resp.is_file ==> exists|locals: Seq<Option<Tm>>|
                {
                    &&& locals.len() == resp.files.len()
                    &&& forall|i: int|
                        0 <= i < locals.len() ==> shows_time(
                            resp.files[i].last_modified,
                            #[trigger] locals[i],
                        )
                    &&& entry_views(entries@) == display_list(resp@, locals)
                },
            forall|i: int| 0 <= i < entries.len() ==> (#[trigger] entries[i])@.is_well_formed(),
    {
        if resp.is_file {
            return Vec::new();
        }
        let mut locals: Vec<Option<Tm>> = Vec::new();
        let mut i: usize = 0;
        while i < resp.files.len()
            invariant
                i <= resp.files.len(),
                locals.len() == i,
                forall|j: int|
                    0 <= j < locals.len() ==> shows_time(
                        resp.files[j].last_modified,
                        #[trigger] locals[j],
                    ),
            decreases resp.files.len() - i,
        {
            let local = RemoteFile::local_time(&resp.files[i].last_modified);
            locals.push(local);
            i += 1;
        }
        let entries = RemoteFile::list(resp, &locals);
        proof {
            lemma_display_list_well_formed(resp@, locals@);
            assert forall|i: int| 0 <= i < entries.len() implies (#[trigger] entries[i])@.is_well_formed() by {
                assert(entry_views(entries@)[i] == entries[i]@);
            }
        }
        entries
    }

    /// The entry as one row of a table, its columns parted by tabs.
    pub fn to_string(&self) -> (row: String)
        requires
            self@.is_well_formed(),
        ensures
            row@ == self@.row(),
    {
        let mut row = self.full_name.clone();
        row.push('\t');
        match &self.human_size {
            Some(size) => {
                row.append(size.as_str());
            },
            None => {},
        }
        row.push('\t');
        match &self.last_modified {
            Some(tm) => {
                let time = strftime(tm, "%F %T");
                row.append(time.as_str());
            },
            None => {},
        }
        assert(row@ =~= self@.row());
        row
    }
}

/// Every entry listed is well formed when the times are ones that can be
/// written.
pub proof fn lemma_display_list_well_formed(resp: FilesetDataView, locals: Seq<Option<Tm>>)
    requires
        locals.len() == resp.files.len(),
        !resp.is_file ==> forall|i: int|
            0 <= i < locals.len() ==> ((#[trigger] locals[i]) matches Some(tm) ==> tm.is_displayable()),
    ensures
        forall|i: int|
            0 <= i < display_list(resp, locals).len() ==> (#[trigger] display_list(
                resp,
                locals,
            )[i]).is_well_formed(),
{
    if !resp.is_file {
        let all = entries_of(resp.files, locals);
        let is_dir = is_dir();
        let is_file = is_file();
        let list = display_list(resp, locals);
        assert forall|i: int| 0 <= i < list.len() implies (#[trigger] list[i]).is_well_formed() by {
            let body = directories_first(all);
            let e = list[i];
            if e != parent_entry() {
                assert(body.contains(e)) by {
                    if resp.is_root {
                        assert(body[i] == e);
                    } else {
                        assert(body[i - 1] == e);
                    }
                }
                let k = choose|k: int| 0 <= k < body.len() && body[k] == e;
                if k < all.filter(is_dir).len() {
                    assert(all.filter(is_dir).contains(e)) by {
                        assert(all.filter(is_dir)[k] == e);
                    }
                    all.lemma_filter_contains_rev(is_dir, e);
                } else {
                    assert(all.filter(is_file).contains(e)) by {
                        assert(all.filter(is_file)[k - all.filter(is_dir).len()] == e);
                    }
                    all.lemma_filter_contains_rev(is_file, e);
                }
                assert(all.contains(e));
                let j = choose|j: int| 0 <= j < all.len() && all[j] == e;
                assert(locals[j] matches Some(tm) ==> tm.is_displayable());
            }
        }
    }
}

/// A sequence whose elements all pass a test is left whole by it.
pub proof fn lemma_filter_all<A>(s: Seq<A>, pred: spec_fn(A) -> bool)
    requires
        forall|i: int| 0 <= i < s.len() ==> pred(#[trigger] s[i]),
    ensures
        s.filter(pred) == s,
    decreases s.len(),
{
    reveal(Seq::filter);
    if s.len() > 0 {
        lemma_filter_all(s.drop_last(), pred);
        assert(s.drop_last().push(s.last()) =~= s);
    }
}

/// Of a sequence whose elements all fail a test nothing is left by it.
pub proof fn lemma_filter_none<A>(s: Seq<A>, pred: spec_fn(A) -> bool)
    requires
        forall|i: int| 0 <= i < s.len() ==> !pred(#[trigger] s[i]),
    ensures
        s.filter(pred) == Seq::<A>::empty(),
    decreases s.len(),
{
    reveal(Seq::filter);
    if s.len() > 0 {
        lemma_filter_none(s.drop_last(), pred);
    }
}

/// Every entry is a directory or a file: the two parts make up the whole.
pub proof fn lemma_parts_len(entries: Seq<RemoteFileView>)
    ensures
        entries.filter(is_dir()).len() + entries.filter(is_file()).len() == entries.len(),
    decreases entries.len(),
{
    reveal(Seq::filter);
    if entries.len() > 0 {
        lemma_parts_len(entries.drop_last());
    }
}

/// Nothing is listed for a file.
pub proof fn lemma_file_lists_nothing(resp: FilesetDataView, locals: Seq<Option<Tm>>)
    requires
        resp.is_file,
    ensures
        display_list(resp, locals).len() == 0,
{
}

/// A directory lists one entry for each that the server sent, and one more
/// unless it is the topmost one.
pub proof fn lemma_display_list_len(resp: FilesetDataView, locals: Seq<Option<Tm>>)
    requires
        !resp.is_file,
    ensures
        display_list(resp, locals).len() == resp.files.len() + (if resp.is_root {
            0int
        } else {
            1int
        }),
{
    lemma_parts_len(entries_of(resp.files, locals));
}

/// The listing of a directory that is not the topmost one begins with the
/// entry that leads to the parent, which has neither size nor time.
pub proof fn lemma_parent_entry_leads(resp: FilesetDataView, locals: Seq<Option<Tm>>)
    requires
        !resp.is_file,
        !resp.is_root,
    ensures
        display_list(resp, locals).len() > 0,
        display_list(resp, locals)[0] == parent_entry(),
        display_list(resp, locals)[0].full_name == "../"@,
        display_list(resp, locals)[0].size is None,
        display_list(resp, locals)[0].human_size is None,
        display_list(resp, locals)[0].last_modified is None,
{
}

/// In a listing no file stands before a directory.
pub proof fn lemma_directories_before_files(resp: FilesetDataView, locals: Seq<Option<Tm>>)
    ensures
        forall|i: int, j: int|
            0 <= i < j < display_list(resp, locals).len() && (#[trigger] display_list(
                resp,
                locals,
            )[j]).is_directory() ==> (#[trigger] display_list(resp, locals)[i]).is_directory(),
{
    let list = display_list(resp, locals);
    let all = entries_of(resp.files, locals);
    let dirs = all.filter(is_dir());
    let files = all.filter(is_file());
    assert forall|i: int, j: int|
        0 <= i < j < list.len() && (#[trigger] list[j]).is_directory() implies (#[trigger] list[i]).is_directory() by {
        let shift: int = if resp.is_root {
            0
        } else {
            1
        };
        if i >= shift + dirs.len() {
            all.lemma_filter_pred(is_file(), j - shift - dirs.len());
            assert(list[j] == files[j - shift - dirs.len()]);
        } else if i >= shift {
            all.lemma_filter_pred(is_dir(), i - shift);
            assert(list[i] == dirs[i - shift]);
        }
    }
}

/// Putting the directories first keeps the server's order among the
/// directories, and among the files.
pub proof fn lemma_order_kept(entries: Seq<RemoteFileView>)
    ensures
        directories_first(entries).filter(is_dir()) == entries.filter(is_dir()),
        directories_first(entries).filter(is_file()) == entries.filter(is_file()),
{
    let dirs = entries.filter(is_dir());
    let files = entries.filter(is_file());
    assert forall|i: int| 0 <= i < dirs.len() implies is_dir()(#[trigger] dirs[i]) && !is_file()(
        dirs[i],
    ) by {
        entries.lemma_filter_pred(is_dir(), i);
    }
    assert forall|i: int| 0 <= i < files.len() implies is_file()(#[trigger] files[i]) && !is_dir()(
        files[i],
    ) by {
        entries.lemma_filter_pred(is_file(), i);
    }
    Seq::filter_distributes_over_add(dirs, files, is_dir());
    Seq::filter_distributes_over_add(dirs, files, is_file());
    lemma_filter_all(dirs, is_dir());
    lemma_filter_none(files, is_dir());
    lemma_filter_all(files, is_file());
    lemma_filter_none(dirs, is_file());
    assert(dirs + Seq::<RemoteFileView>::empty() =~= dirs);
    assert(Seq::<RemoteFileView>::empty() + files =~= files);
}

/// An entry made of what the server told has a size, plain and readable,
/// exactly if it is a file, and the name of a directory ends in a slash.
pub proof fn lemma_entry_kind(raw: RawFileDataView, local: Option<Tm>)
    ensures
        entry_of(raw, local).size is Some <==> raw.is_file,
        entry_of(raw, local).human_size is Some <==> raw.is_file,
        entry_of(raw, local).is_directory() <==> !raw.is_file,
        !raw.is_file ==> entry_of(raw, local).full_name.last() == '/',
        entry_of(raw, local).last_modified == local,
{
}

} // verus!
