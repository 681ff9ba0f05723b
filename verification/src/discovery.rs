//! Selecting the image files among the entries of a directory listing.

use vstd::prelude::*;
use vstd::string::*;
use crate::text::{chars_of, lemma_filter_map_step, lowercased, names_view};

verus! {

/// The index of the last `.` of a name, if it has one.
pub open spec fn last_dot(name: Seq<char>) -> Option<int>
    decreases name.len(),
{
    if name.len() == 0 {
        None
    } else if name.last() == '.' {
        Some(name.len() - 1)
    } else {
        last_dot(name.drop_last())
    }
}

/// Whether a text can name a file: it is not empty and is neither `.` nor `..`,
/// which name directories.
pub open spec fn is_file_name(name: Seq<char>) -> bool {
    name.len() > 0 && name != seq!['.'] && name != seq!['.', '.']
}

/// Where the stem of a file name ends and its extension begins: at its last
/// `.`, unless that is the first character of the name. A text that names no
/// file has no such place.
pub open spec fn extension_dot(name: Seq<char>) -> Option<int> {
    match last_dot(name) {
        Some(i) => if i > 0 && is_file_name(name) {
            Some(i)
        } else {
            None
        },
        None => None,
    }
}

/// The extension of a file name: what follows its last `.`, without that `.`.
/// A name without a `.`, or whose only `.` is its first character, has none;
/// a name that ends in `.` has the empty extension. A file name is one
/// component of a path, as a directory lists it: it holds no separator.
pub open spec fn extension(name: Seq<char>) -> Option<Seq<char>> {
    match extension_dot(name) {
        Some(i) => Some(name.subrange(i + 1, name.len() as int)),
        None => None,
    }
}

/// The stem of a file name: what precedes the `.` of its extension, or the
/// whole name where it has no extension.
pub open spec fn stem(name: Seq<char>) -> Seq<char> {
    match extension_dot(name) {
        Some(i) => name.subrange(0, i),
        None => name,
    }
}

/// `last_dot` finds a `.` after which no other follows, or none where there is
/// none.
pub proof fn lemma_last_dot(name: Seq<char>)
    ensures
        match last_dot(name) {
            Some(i) => 0 <= i < name.len() && name[i] == '.' && forall|j: int|
                i < j < name.len() ==> name[j] != '.',
            None => forall|j: int| 0 <= j < name.len() ==> name[j] != '.',
        },
    decreases name.len(),
{
    if name.len() > 0 && name.last() != '.' {
        let front = name.drop_last();
        lemma_last_dot(front);
        assert forall|j: int| 0 <= j < front.len() implies front[j] == name[j] by {}
        match last_dot(front) {
            Some(i) => {
                assert forall|j: int| i < j < name.len() implies name[j] != '.' by {
                    if j < front.len() {
                        assert(front[j] != '.');
                    }
                }
            },
            None => {
                assert forall|j: int| 0 <= j < name.len() implies name[j] != '.' by {
                    if j < front.len() {
                        assert(front[j] != '.');
                    }
                }
            },
        }
    }
}

/// The place of the last `.` in `name`, found from its end.
pub fn find_last_dot(name: &Vec<char>) -> (at: Option<usize>)
    ensures
        match at {
            Some(i) => last_dot(name@) == Some(i as int),
            None => last_dot(name@) is None,
        },
{
    let mut n: usize = name.len();
    assert(name@.subrange(0, n as int) =~= name@);
    while n > 0
        invariant
            n <= name.len(),
            last_dot(name@) == last_dot(name@.subrange(0, n as int)),
        decreases n,
    {
        if name[n - 1] == '.' {
            return Some(n - 1);
        }
        assert(name@.subrange(0, n as int).drop_last() =~= name@.subrange(0, n - 1));
        n -= 1;
    }
    None
}

/// The place where the extension of `name` begins, in characters: the index
/// of the `.` before it.
pub fn find_extension_dot(name: &Vec<char>) -> (at: Option<usize>)
    ensures
        match at {
            Some(i) => extension_dot(name@) == Some(i as int),
            None => extension_dot(name@) is None,
        },
{
    match find_last_dot(name) {
        Some(i) => {
            proof {
                lemma_last_dot(name@);
            }
            if i == 0 {
                None
            } else if name.len() == 2 && name[0] == '.' {
                assert(name@ =~= seq!['.', '.']);
                None
            } else {
                assert(name@ != seq!['.', '.']) by {
                    if name@.len() == 2 {
                        assert(seq!['.', '.'][0] == '.');
                    }
                }
                assert(name@ != seq!['.']) by {
                    assert(seq!['.'].len() == 1);
                }
                Some(i)
            }
        },
        None => None,
    }
}

/// The extension of a file name, if it has one.
pub fn file_extension(name: &str) -> (ext: Option<String>)
    ensures
        match ext {
            Some(e) => extension(name@) == Some(e@),
            None => extension(name@) is None,
        },
{
    let chars = chars_of(name);
    match find_extension_dot(&chars) {
        Some(i) => {
            proof {
                lemma_last_dot(name@);
            }
            let tail = name.substring_char(i + 1, chars.len());
            Some(String::from_str(tail))
        },
        None => None,
    }
}

/// Whether `exts` holds the extension of `name` in lowercase. The extensions
/// in `exts` are compared as they stand.
pub open spec fn has_listed_extension(exts: Seq<Seq<char>>, name: Seq<char>) -> bool {
    match extension(name) {
        Some(e) => exts.contains(lowercased(e)),
        None => false,
    }
}

/// Whether `exts` holds the text `wanted`.
pub fn lists_text(exts: &Vec<String>, wanted: &String) -> (found: bool)
    ensures
        found == names_view(exts@).contains(wanted@),
{
    let mut i: usize = 0;
    while i < exts.len()
        invariant
            i <= exts.len(),
            forall|j: int| 0 <= j < i ==> names_view(exts@)[j] != wanted@,
        decreases exts.len() - i,
    {
        if exts[i] == *wanted {
            assert(names_view(exts@)[i as int] == wanted@);
            return true;
        }
        i += 1;
    }
    false
}

/// Whether a file of this name is an image by the configured extensions: it
/// has an extension, and the lowercase form of that extension is one of them.
pub fn is_image_name(exts: &Vec<String>, name: &str) -> (yes: bool)
    ensures
        yes == has_listed_extension(names_view(exts@), name@),
{
    match file_extension(name) {
        Some(e) => {
            let lower = e.as_str().to_lowercase();
            lists_text(exts, &lower)
        },
        None => false,
    }
}

/// What a scan of the directory found of one entry.
#[derive(Debug, PartialEq, Eq)]
pub enum ScanEntry {
    /// The listing could not read the entry at all.
    Unread,
    /// The type of the entry could not be determined; `reason` says why.
    UnknownType { path: String, reason: String },
    /// The entry is something other than a regular file.
    NotRegular,
    /// A regular file whose name is not valid UTF-8.
    NonUtf8Name { path: String },
    /// A regular file and its name.
    Regular { name: String },
}

/// An entry that the scan passed over and that deserves a word to the user.
#[derive(Debug, PartialEq, Eq)]
pub enum ScanWarning {
    UnknownType { path: String, reason: String },
    NonUtf8Name { path: String },
}

impl ScanWarning {
    /// The message of the warning.
    pub open spec fn message_text(self) -> Seq<char> {
        match self {
            ScanWarning::UnknownType { path, reason } => "Error getting file type for "@ + path@
                + ": "@ + reason@,
            ScanWarning::NonUtf8Name { path } => path@ + " is not UTF-8."@,
        }
    }

    /// The message of the warning.
    pub fn message(&self) -> (out: String)
        ensures
            out@ == self.message_text(),
    {
        match self {
            ScanWarning::UnknownType { path, reason } => {
                let mut out = String::from_str("Error getting file type for ");
                out.append(path.as_str());
                out.append(": ");
                out.append(reason.as_str());
                out
            },
            ScanWarning::NonUtf8Name { path } => path.clone().concat(" is not UTF-8."),
        }
    }
}

impl ScanEntry {
    /// Whether the entry is a regular file with the extension of an image.
    pub open spec fn is_image(self, exts: Seq<Seq<char>>) -> bool {
        match self {
            ScanEntry::Regular { name } => has_listed_extension(exts, name@),
            _ => false,
        }
    }

    /// The name that the entry contributes to the file list.
    pub open spec fn listed_name(self) -> Seq<char> {
        match self {
            ScanEntry::Regular { name } => name@,
            _ => Seq::empty(),
        }
    }

    /// Whether the entry is passed over with a warning.
    pub open spec fn is_warned(self) -> bool {
        self is UnknownType || self is NonUtf8Name
    }

    /// The warning that the entry gives rise to.
    pub open spec fn warning(self) -> ScanWarning {
        match self {
            ScanEntry::UnknownType { path, reason } => ScanWarning::UnknownType { path, reason },
            ScanEntry::NonUtf8Name { path } => ScanWarning::NonUtf8Name { path },
            _ => arbitrary(),
        }
    }
}

/// The file list that a listing yields: the names of its regular files with a
/// configured extension, in the order of the listing.
pub open spec fn discovered(exts: Seq<Seq<char>>, entries: Seq<ScanEntry>) -> Seq<Seq<char>> {
    entries.filter(|e: ScanEntry| e.is_image(exts)).map_values(|e: ScanEntry| e.listed_name())
}

/// The warnings that a listing yields, in the order of the listing.
pub open spec fn warnings_of(entries: Seq<ScanEntry>) -> Seq<ScanWarning> {
    entries.filter(|e: ScanEntry| e.is_warned()).map_values(|e: ScanEntry| e.warning())
}

/// Selects the image files of a directory listing: the regular files whose
/// extension, in lowercase, is one of `exts`. The order of the listing is kept
/// and nothing is sorted.
pub fn get_file_list(exts: &Vec<String>, entries: &Vec<ScanEntry>) -> (files: Vec<String>)
    ensures
        names_view(files@) == discovered(names_view(exts@), entries@),
{
    let ghost ev = names_view(exts@);
    let mut files: Vec<String> = Vec::new();
    let mut i: usize = 0;
    assert(entries@.take(0) =~= Seq::<ScanEntry>::empty());
    assert(names_view(files@) =~= discovered(ev, entries@.take(0)));
    while i < entries.len()
        invariant
            i <= entries.len(),
            ev == names_view(exts@),
            names_view(files@) == discovered(ev, entries@.take(i as int)),
        decreases entries.len() - i,
    {
        proof {
            lemma_filter_map_step(
                entries@,
                i as int,
                |e: ScanEntry| e.is_image(ev),
                |e: ScanEntry| e.listed_name(),
            );
        }
        match &entries[i] {
            ScanEntry::Regular { name } => {
                if is_image_name(exts, name.as_str()) {
                    let ghost before = names_view(files@);
                    files.push(name.clone());
                    assert(names_view(files@) =~= before.push(name@));
                }
            },
            _ => {},
        }
        i += 1;
    }
    assert(entries@.take(entries.len() as int) =~= entries@);
    files
}

/// The warnings of a directory listing: one for each entry whose type could
/// not be determined and for each regular file whose name is not UTF-8, in the
/// order of the listing.
pub fn scan_warnings(entries: &Vec<ScanEntry>) -> (warnings: Vec<ScanWarning>)
    ensures
        warnings@ == warnings_of(entries@),
{
    let mut warnings: Vec<ScanWarning> = Vec::new();
    let mut i: usize = 0;
    assert(entries@.take(0) =~= Seq::<ScanEntry>::empty());
    assert(warnings@ =~= warnings_of(entries@.take(0)));
    while i < entries.len()
        invariant
            i <= entries.len(),
            warnings@ == warnings_of(entries@.take(i as int)),
        decreases entries.len() - i,
    {
        proof {
            lemma_filter_map_step(
                entries@,
                i as int,
                |e: ScanEntry| e.is_warned(),
                |e: ScanEntry| e.warning(),
            );
        }
        match &entries[i] {
            ScanEntry::UnknownType { path, reason } => {
                warnings.push(
                    ScanWarning::UnknownType { path: path.clone(), reason: reason.clone() },
                );
            },
            ScanEntry::NonUtf8Name { path } => {
                warnings.push(ScanWarning::NonUtf8Name { path: path.clone() });
            },
            _ => {},
        }
        i += 1;
    }
    assert(entries@.take(entries.len() as int) =~= entries@);
    warnings
}

/// Matching ignores the case of a file's extension: two names whose
/// extensions are alike in lowercase are images, or not, together.
pub proof fn lemma_matching_ignores_case(exts: Seq<Seq<char>>, a: Seq<char>, b: Seq<char>)
    requires
        extension(a) is Some,
        extension(b) is Some,
        lowercased(extension(a)->0) == lowercased(extension(b)->0),
    ensures
        has_listed_extension(exts, a) == has_listed_extension(exts, b),
{
}

/// Every name on the file list is the name of a regular file of the listing
/// whose extension is configured.
pub proof fn lemma_discovered_are_images(exts: Seq<Seq<char>>, entries: Seq<ScanEntry>, i: int)
    requires
        0 <= i < discovered(exts, entries).len(),
    ensures
        exists|j: int|
            0 <= j < entries.len() && (#[trigger] entries[j]).is_image(exts)
                && entries[j].listed_name() == discovered(exts, entries)[i],
{
    let keep = |e: ScanEntry| e.is_image(exts);
    let kept = entries.filter(keep);
    entries.lemma_filter_pred(keep, i);
    assert(kept.contains(kept[i]));
    entries.lemma_filter_contains_rev(keep, kept[i]);
    let j = choose|j: int| 0 <= j < entries.len() && entries[j] == kept[i];
    assert(entries[j].is_image(exts));
}

} // verus!
