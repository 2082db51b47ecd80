//! The file list of the browser: which entries of a directory are shown,
//! how each is labelled, and the selector state around them.

use crate::common::{is_audio, is_hidden, accepts, clone_path, Entry, EntryView};
use vstd::prelude::*;
use vstd::seq_lib::*;
use vstd::string::*;

verus! {

/// Deepest level below its root that a walk descends to.
pub const WALK_MAX_DEPTH: usize = 100;

/// Most directories that a walk keeps open at a time.
pub const WALK_MAX_OPEN: usize = 100;

/// Views of what a directory read returned.
pub open spec fn read_views(read: Seq<Option<Entry>>) -> Seq<Option<EntryView>> {
    Seq::new(
        read.len(),
        |i: int|
            match read[i] {
                Some(e) => Some(e@),
                None => None,
            },
    )
}

/// Whether one read result is listed: it was read, and the filter accepts
/// it.
pub open spec fn is_listed(read: Option<EntryView>) -> bool {
    match read {
        Some(e) => accepts(e),
        None => false,
    }
}

/// The paths of the listed entries, in the order in which they were read.
pub open spec fn listing(read: Seq<Option<EntryView>>) -> Seq<Seq<char>>
    decreases read.len(),
{
    if read.len() == 0 {
        Seq::empty()
    } else if is_listed(read.last()) {
        listing(read.drop_last()).push(read.last().unwrap().path)
    } else {
        listing(read.drop_last())
    }
}

/// The listing holds a path exactly when an entry with that path was read
/// and the filter accepts it: nothing that is shown is left out, and
/// nothing else gets in.
pub proof fn lemma_listing_is_exact(read: Seq<Option<EntryView>>)
    ensures
        listing(read).len() <= read.len(),
        forall|path: Seq<char>|
            listing(read).contains(path) <==> exists|i: int|
                0 <= i < read.len() && is_listed(#[trigger] read[i]) && read[i].unwrap().path
                    == path,
    decreases read.len(),
{
    if read.len() > 0 {
        let head = read.drop_last();
        lemma_listing_is_exact(head);
        let all = listing(read);
        let before = listing(head);
        assert forall|path: Seq<char>| all.contains(path) <==> exists|i: int|
            0 <= i < read.len() && is_listed(#[trigger] read[i]) && read[i].unwrap().path
                == path by {
            if all.contains(path) {
                let at = choose|k: int| 0 <= k < all.len() && all[k] == path;
                if is_listed(read.last()) && at == all.len() - 1 {
                    let i = read.len() - 1;
                    assert(is_listed(read[i]) && read[i].unwrap().path == path);
                } else {
                    assert(before[at] == path);
                    assert(before.contains(path));
                    let i = choose|i: int|
                        0 <= i < head.len() && is_listed(#[trigger] head[i])
                            && head[i].unwrap().path == path;
                    assert(read[i] == head[i]);
                    assert(is_listed(read[i]) && read[i].unwrap().path == path);
                }
            }
            if exists|i: int|
                0 <= i < read.len() && is_listed(#[trigger] read[i]) && read[i].unwrap().path
                    == path {
                let i = choose|i: int|
                    0 <= i < read.len() && is_listed(#[trigger] read[i])
                        && read[i].unwrap().path == path;
                if i == read.len() - 1 {
                    assert(all[all.len() - 1] == path);
                } else {
                    assert(head[i] == read[i]);
                    assert(is_listed(head[i]) && head[i].unwrap().path == path);
                    assert(before.contains(path));
                    let at = choose|k: int| 0 <= k < before.len() && before[k] == path;
                    assert(all[at] == path);
                }
            }
        }
    } else {
        assert forall|path: Seq<char>| !listing(read).contains(path) by {}
    }
}

/// What the filter does with each kind of entry: an audio file is shown,
/// any other file is not, a directory that is not hidden is shown, and a
/// hidden directory is not, unless its name ends in an audio extension.
pub proof fn lemma_accepts_by_kind(entry: EntryView)
    ensures
        entry.extension is Some && crate::common::is_audio_extension(entry.extension->Some_0)
            ==> accepts(entry),
        !entry.is_dir && !(entry.extension is Some && crate::common::is_audio_extension(
            entry.extension->Some_0,
        )) ==> !accepts(entry),
        entry.is_dir && !crate::common::is_hidden_name(entry.file_name) ==> accepts(entry),
        entry.is_dir && crate::common::is_hidden_name(entry.file_name) && !(entry.extension is Some
            && crate::common::is_audio_extension(entry.extension->Some_0)) ==> !accepts(entry),
{
}

/// `s` without the directory `prefix` and the separator that follows it;
/// `s` itself where it does not begin with `prefix`.
pub open spec fn without_prefix(s: Seq<char>, prefix: Seq<char>) -> Seq<char> {
    if prefix.is_prefix_of(s) {
        if s.len() > prefix.len() {
            s.subrange(prefix.len() as int + 1, s.len() as int)
        } else {
            Seq::empty()
        }
    } else {
        s
    }
}

/// The label of a path shown under `base`: two spaces, then the path
/// relative to `base`.
pub open spec fn label_of(path: Seq<char>, base: Seq<char>) -> Seq<char> {
    "  "@ + without_prefix(path, base)
}

/// Order of byte strings: the first byte that differs decides, and a
/// string comes before those that it begins.
pub open spec fn bytes_le(a: Seq<u8>, b: Seq<u8>) -> bool
    decreases a.len(),
{
    if a.len() == 0 {
        true
    } else if b.len() == 0 {
        false
    } else if a.first() != b.first() {
        a.first() < b.first()
    } else {
        bytes_le(a.drop_first(), b.drop_first())
    }
}

/// Order of paths: that of their bytes.
pub open spec fn path_le(a: Seq<char>, b: Seq<char>) -> bool {
    bytes_le(vstd::utf8::encode_utf8(a), vstd::utf8::encode_utf8(b))
}

/// Of two byte strings one comes before the other.
pub proof fn lemma_bytes_le_total(a: Seq<u8>, b: Seq<u8>)
    ensures
        bytes_le(a, b) || bytes_le(b, a),
    decreases a.len(),
{
    if a.len() > 0 && b.len() > 0 && a.first() == b.first() {
        lemma_bytes_le_total(a.drop_first(), b.drop_first());
    }
}

/// The order of byte strings is transitive.
pub proof fn lemma_bytes_le_transitive(a: Seq<u8>, b: Seq<u8>, c: Seq<u8>)
    requires
        bytes_le(a, b),
        bytes_le(b, c),
    ensures
        bytes_le(a, c),
    decreases a.len(),
{
    if a.len() > 0 && b.len() > 0 && c.len() > 0 && a.first() == b.first() && b.first()
        == c.first() {
        lemma_bytes_le_transitive(a.drop_first(), b.drop_first(), c.drop_first());
    }
}

/// The rows are in the order of their paths.
pub open spec fn sorted_by_path(rows: Seq<FileButtonView>) -> bool {
    forall|i: int, j: int|
        0 <= i < j < rows.len() ==> path_le(
            (#[trigger] rows[i]).file_path,
            (#[trigger] rows[j]).file_path,
        )
}

/// The row of a path shown under `base`.
pub open spec fn row_of(path: Seq<char>, base: Seq<char>) -> FileButtonView {
    FileButtonView { file_path: path, label: label_of(path, base) }
}

/// The rows of a list of paths shown under `base`, in the order of the
/// list.
pub open spec fn rows_of(paths: Seq<Seq<char>>, base: Seq<char>) -> Seq<FileButtonView> {
    Seq::new(paths.len(), |i: int| row_of(paths[i], base))
}

/// Putting an element into a sequence adds it to the elements once.
pub proof fn lemma_insert_to_multiset<A>(s: Seq<A>, at: int, x: A)
    requires
        0 <= at <= s.len(),
    ensures
        s.insert(at, x).to_multiset() == s.to_multiset().insert(x),
{
    let t = s.insert(at, x);
    assert(t.remove(at) =~= s);
    to_multiset_remove(t, at);
    assert(t[at] == x);
    t.to_multiset_ensures();
    assert(t.contains(x));
    assert(t.to_multiset() =~= t.to_multiset().remove(x).insert(x));
}

/// The list of a directory.
#[derive(Debug)]
pub struct FileList {
    pub files: Vec<String>,
}

/// One row of the file list.
#[derive(Debug)]
pub struct FileButton {
    pub file_path: String,
    pub label: String,
}

/// A row with its strings as character sequences.
pub struct FileButtonView {
    pub file_path: Seq<char>,
    pub label: Seq<char>,
}

impl View for FileButton {
    type V = FileButtonView;

    open spec fn view(&self) -> FileButtonView {
        FileButtonView { file_path: self.file_path@, label: self.label@ }
    }
}

impl DeepView for FileButton {
    type V = FileButtonView;

    open spec fn deep_view(&self) -> FileButtonView {
        self@
    }
}

/// The row that leads to the parent directory.
#[derive(Debug)]
pub struct DirUp;

/// The browser's list state: the directory shown, its rows, the selected
/// row and the text of the search field.
#[derive(Debug)]
pub struct FileSelector {
    pub current_dir: String,
    pub file_list: Vec<FileButton>,
    pub selected_file: Option<usize>,
    pub search_value: String,
}

fn remove_prefix(s: &str, prefix: &str) -> (rest: String)
    ensures
        rest@ == without_prefix(s@, prefix@),
{
    let s_len: usize = s.unicode_len();
    let prefix_len: usize = prefix.unicode_len();
    if prefix_len <= s_len && s.substring_char(0, prefix_len).to_owned() == prefix.to_owned() {
        if s_len > prefix_len {
            s.substring_char(prefix_len + 1, s_len).to_owned()
        } else {
            String::new()
        }
    } else {
        s.to_owned()
    }
}

impl FileButton {
    /// The row for `x` in a list that shows `base_path`.
    pub fn new(x: String, base_path: &str) -> (button: FileButton)
        ensures
            button@.file_path == x@,
            button@.label == label_of(x@, base_path@),
    {
        let rest = remove_prefix(x.as_str(), base_path);
        let mut label = String::from_str("  ");
        label.append(rest.as_str());
        FileButton { file_path: x, label }
    }
}

/// Whether `a` comes before `b` in the order of paths, or equals it.
pub fn path_precedes(a: &str, b: &str) -> (le: bool)
    ensures
        le == path_le(a@, b@),
{
    let x = a.as_bytes();
    let y = b.as_bytes();
    let mut i: usize = 0;
    assert(x@.skip(0) =~= x@ && y@.skip(0) =~= y@);
    while i < x.len() && i < y.len()
        invariant
            i <= x@.len(),
            i <= y@.len(),
            x@ == vstd::utf8::encode_utf8(a@),
            y@ == vstd::utf8::encode_utf8(b@),
            bytes_le(x@, y@) == bytes_le(x@.skip(i as int), y@.skip(i as int)),
        decreases x@.len() - i,
    {
        proof {
            assert(x@.skip(i as int).first() == x@[i as int]);
            assert(y@.skip(i as int).first() == y@[i as int]);
            assert(x@.skip(i as int).drop_first() =~= x@.skip(i + 1));
            assert(y@.skip(i as int).drop_first() =~= y@.skip(i + 1));
        }
        if x[i] != y[i] {
            return x[i] < y[i];
        }
        i = i + 1;
    }
    i == x.len()
}

/// The rows of `paths` under `base_path`, in the order of the list.
pub fn rows_for(paths: &Vec<String>, base_path: &str) -> (rows: Vec<FileButton>)
    ensures
        rows.deep_view() == rows_of(paths.deep_view(), base_path@),
{
    let mut rows: Vec<FileButton> = Vec::new();
    let mut i: usize = 0;
    while i < paths.len()
        invariant
            i <= paths@.len(),
            rows@.len() == i,
            forall|k: int| 0 <= k < i ==> #[trigger] rows@[k]@ == row_of(paths@[k]@, base_path@),
        decreases paths@.len() - i,
    {
        rows.push(FileButton::new(clone_path(&paths[i]), base_path));
        i = i + 1;
    }
    assert(rows.deep_view() =~= rows_of(paths.deep_view(), base_path@));
    rows
}

impl DirUp {
    /// The text of the row: two spaces, then the directory shown.
    pub fn label(&self, cwd: &str) -> (text: String)
        ensures
            text@ == "  "@ + cwd@,
    {
        let mut text = String::from_str("  ");
        text.append(cwd);
        text
    }
}

impl FileList {
    /// Whether an entry is shown: a directory that is not hidden, or a file
    /// with an audio extension.
    pub fn file_filter(x: &Entry) -> (shown: bool)
        ensures
            shown == accepts(x@),
    {
        (x.is_dir && !is_hidden(x)) || match &x.extension {
            Some(ext) => is_audio(ext.as_str()),
            None => false,
        }
    }

    /// The paths of the entries of a directory that are shown, in the order
    /// read. Entries that could not be read are passed over.
    pub fn list_dir(read: &Vec<Option<Entry>>) -> (files: FileList)
        ensures
            files.files.deep_view() == listing(read_views(read@)),
    {
        let mut files: Vec<String> = Vec::new();
        let mut i: usize = 0;
        let ghost views = read_views(read@);
        assert(views.subrange(0, 0) =~= Seq::empty());
        while i < read.len()
            invariant
                i <= read@.len(),
                views == read_views(read@),
                files.deep_view() == listing(views.subrange(0, i as int)),
            decreases read@.len() - i,
        {
            proof {
                let next = views.subrange(0, i + 1);
                assert(next.drop_last() =~= views.subrange(0, i as int));
                assert(next.last() == views[i as int]);
            }
            let ghost before = files.deep_view();
            match &read[i] {
                Some(entry) => {
                    if FileList::file_filter(entry) {
                        files.push(clone_path(&entry.path));
                        assert(files.deep_view() =~= before.push(entry.path@));
                    }
                },
                None => {},
            }
            i = i + 1;
        }
        assert(views.subrange(0, i as int) =~= views);
        FileList { files }
    }

    /// The rows of a directory: one for each entry that is shown, labelled
    /// relative to `dir` and ordered by path.
    pub fn new(read: &Vec<Option<Entry>>, dir: &str) -> (rows: Vec<FileButton>)
        ensures
            sorted_by_path(rows.deep_view()),
            rows.deep_view().to_multiset() == rows_of(listing(read_views(read@)), dir@).to_multiset(),
    {
        let listed = FileList::list_dir(read);
        let ghost want = rows_of(listed.files.deep_view(), dir@);
        let mut rows: Vec<FileButton> = Vec::new();
        let mut i: usize = 0;
        assert(want.subrange(0, 0) =~= Seq::empty());
        assert(rows.deep_view() =~= Seq::empty());
        while i < listed.files.len()
            invariant
                i <= listed.files@.len(),
                want == rows_of(listed.files.deep_view(), dir@),
                sorted_by_path(rows.deep_view()),
                rows.deep_view().to_multiset() == want.subrange(0, i as int).to_multiset(),
            decreases listed.files@.len() - i,
        {
            let row = FileButton::new(clone_path(&listed.files[i]), dir);
            let ghost before = rows.deep_view();
            let mut at: usize = 0;
            while at < rows.len() && path_precedes(rows[at].file_path.as_str(), row.file_path.as_str())
                invariant
                    at <= rows@.len(),
                    before == rows.deep_view(),
                    forall|k: int|
                        0 <= k < at ==> path_le((#[trigger] before[k]).file_path, row@.file_path),
                decreases rows@.len() - at,
            {
                at = at + 1;
            }
            proof {
                let x = row@;
                let after = before.insert(at as int, x);
                assert forall|a: int, b: int| 0 <= a < b < after.len() implies path_le(
                    (#[trigger] after[a]).file_path,
                    (#[trigger] after[b]).file_path,
                ) by {
                    if b == at {
                        assert(after[a] == before[a]);
                    } else if a == at {
                        let first = before[at as int];
                        assert(after[b] == before[b - 1]);
                        lemma_bytes_le_total(
                            vstd::utf8::encode_utf8(first.file_path),
                            vstd::utf8::encode_utf8(x.file_path),
                        );
                        if b - 1 > at {
                            assert(path_le(first.file_path, before[b - 1].file_path));
                            lemma_bytes_le_transitive(
                                vstd::utf8::encode_utf8(x.file_path),
                                vstd::utf8::encode_utf8(first.file_path),
                                vstd::utf8::encode_utf8(before[b - 1].file_path),
                            );
                        }
                    } else if a < at && b < at {
                        assert(after[a] == before[a] && after[b] == before[b]);
                    } else if a < at {
                        assert(after[a] == before[a] && after[b] == before[b - 1]);
                    } else {
                        assert(after[a] == before[a - 1] && after[b] == before[b - 1]);
                    }
                }
                lemma_insert_to_multiset(before, at as int, x);
                let next = want.subrange(0, i + 1);
                assert(next =~= want.subrange(0, i as int).push(x));
                to_multiset_build(want.subrange(0, i as int), x);
            }
            rows.insert(at, row);
            assert(rows.deep_view() =~= before.insert(at as int, row@));
            i = i + 1;
        }
        assert(want.subrange(0, i as int) =~= want);
        rows
    }
}

impl FileSelector {
    /// The selector on entering `dir`: its rows, nothing selected and an
    /// empty search field.
    pub fn new(dir: &str, read: &Vec<Option<Entry>>) -> (selector: FileSelector)
        ensures
            selector.current_dir@ == dir@,
            sorted_by_path(selector.file_list.deep_view()),
            selector.file_list.deep_view().to_multiset() == rows_of(
                listing(read_views(read@)),
                dir@,
            ).to_multiset(),
            selector.selected_file is None,
            selector.search_value@ == Seq::<char>::empty(),
    {
        FileSelector {
            current_dir: dir.to_owned(),
            file_list: FileList::new(read, dir),
            selected_file: None,
            search_value: String::new(),
        }
    }
}

} // verus!
