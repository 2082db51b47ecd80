//! Directory entries as plain values, and the two tests that decide
//! whether an entry is shown: hidden names and audio extensions.

use vstd::prelude::*;
use vstd::string::*;

verus! {

/// One entry of a directory, as the file system reported it.
#[derive(Debug)]
pub struct Entry {
    /// Full path of the entry.
    pub path: String,
    /// Last component of the path, if it has one.
    pub file_name: Option<String>,
    /// Extension of the last component, without the dot, if it has one.
    pub extension: Option<String>,
    /// Whether the entry is a directory, links followed.
    pub is_dir: bool,
}

/// An entry with its strings as character sequences.
pub struct EntryView {
    pub path: Seq<char>,
    pub file_name: Option<Seq<char>>,
    pub extension: Option<Seq<char>>,
    pub is_dir: bool,
}

impl View for Entry {
    type V = EntryView;

    open spec fn view(&self) -> EntryView {
        EntryView {
            path: self.path@,
            file_name: match self.file_name {
                Some(n) => Some(n@),
                None => None,
            },
            extension: match self.extension {
                Some(e) => Some(e@),
                None => None,
            },
            is_dir: self.is_dir,
        }
    }
}

/// The extensions of the audio formats that are listed.
pub open spec fn is_audio_extension(ext: Seq<char>) -> bool {
    ext == "flac"@ || ext == "wav"@ || ext == "mp3"@ || ext == "ogg"@
}

/// A name is hidden when it begins with a dot.
pub open spec fn is_hidden_name(name: Option<Seq<char>>) -> bool {
    match name {
        Some(n) => n.len() > 0 && n[0] == '.',
        None => false,
    }
}

/// An entry is listed when it is a directory that is not hidden, or when it
/// has an audio extension.
pub open spec fn accepts(entry: EntryView) -> bool {
    (entry.is_dir && !is_hidden_name(entry.file_name)) || match entry.extension {
        Some(ext) => is_audio_extension(ext),
        None => false,
    }
}

/// Whether `x` is one of the audio extensions `flac`, `wav`, `mp3`, `ogg`.
pub fn is_audio(x: &str) -> (audio: bool)
    ensures
        audio == is_audio_extension(x@),
{
    let ext = x.to_owned();
    ext == String::from_str("flac") || ext == String::from_str("wav") || ext == String::from_str(
        "mp3",
    ) || ext == String::from_str("ogg")
}

/// Whether the entry's name begins with a dot. An entry without a name is
/// not hidden.
pub fn is_hidden(entry: &Entry) -> (hidden: bool)
    ensures
        hidden == is_hidden_name(entry@.file_name),
{
    match &entry.file_name {
        Some(name) => {
            let name = name.as_str();
            name.unicode_len() > 0 && name.get_char(0) == '.'
        },
        None => false,
    }
}

/// A copy of a string.
pub fn clone_path(path: &String) -> (copy: String)
    ensures
        copy@ == path@,
{
    path.clone()
}

/// A copy of a list of paths.
pub fn clone_paths(paths: &Vec<String>) -> (copy: Vec<String>)
    ensures
        copy.deep_view() == paths.deep_view(),
{
    let mut copy: Vec<String> = Vec::new();
    let mut i: usize = 0;
    while i < paths.len()
        invariant
            i <= paths@.len(),
            copy@.len() == i,
            forall|k: int| 0 <= k < i ==> #[trigger] copy@[k]@ == paths@[k]@,
        decreases paths@.len() - i,
    {
        copy.push(paths[i].clone());
        i = i + 1;
    }
    assert(copy.deep_view() =~= paths.deep_view());
    copy
}

} // verus!
