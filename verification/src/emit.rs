//! The data script: the text that hands the file list, the captions and the
//! display settings to the gallery page.

use vstd::prelude::*;
use vstd::hash_map::StringHashMap;
use vstd::string::*;
use crate::captions::{pairs_view, CaptionMap};
use crate::config::{Cfg, CfgView};
use crate::text::{decimal, decimal_text, names_view};

verus! {

/// What went wrong when `serde_json` read or wrote a document.
#[verifier::external_type_specification]
#[verifier::external_body]
pub struct ExJsonError(serde_json::Error);

/// The JSON text that `serde_json` writes for a list of strings.
pub uninterp spec fn json_of_names(names: Seq<Seq<char>>) -> Seq<char>;

/// The list of strings that `serde_json` reads from a JSON text; `None` where
/// it reads no such list from the text.
pub uninterp spec fn names_of_json(text: Seq<char>) -> Option<Seq<Seq<char>>>;

/// The JSON text that `serde_json` writes for the object whose members are
/// the given entries, in their order.
pub uninterp spec fn json_of_captions(entries: Seq<(Seq<char>, Seq<char>)>) -> Seq<char>;

/// The text of a string in the form of Rust's `Debug`: between double quotes,
/// with escapes.
pub uninterp spec fn debug_quoted(s: Seq<char>) -> Seq<char>;

/// Calls `serde_json::to_string` on a list of strings. Nothing is proved of
/// the text: it is only given the name `json_of_names`, as a function of the
/// strings. The call is taken to succeed: it fails where a value refuses to be
/// written or a map has a key that is no string, and a list of strings has
/// neither; the text goes to memory, which takes every write.
#[verifier::external_body]
fn json_names_text(names: &Vec<String>) -> (out: Result<String, serde_json::Error>)
    ensures
        out is Ok,
        out->Ok_0@ == json_of_names(names_view(names@)),
{
    serde_json::to_string(names)
}

/// Calls `serde_json::from_str` for a list of strings. Nothing is proved of
/// what it reads: the list is only given the name `names_of_json`, as a
/// function of the text.
#[verifier::external_body]
fn json_names_read(text: &str) -> (out: Result<Vec<String>, serde_json::Error>)
    ensures
        match out {
            Ok(names) => names_of_json(text@) == Some(names_view(names@)),
            Err(_) => names_of_json(text@) is None,
        },
{
    serde_json::from_str(text)
}

/// Has the serializer of `serde_json` write the entries as one object, with
/// `Serializer::collect_map`: each entry a member, in the order given. Nothing
/// is proved of the text: it is only given the name `json_of_captions`, as a
/// function of the entries. The call is taken to succeed: keys and values are
/// strings, which the serializer writes as they come, and the text goes to
/// memory, which takes every write.
#[verifier::external_body]
fn json_captions_text(entries: &Vec<(String, String)>) -> (out: Result<
    String,
    serde_json::Error,
>)
    ensures
        out is Ok,
        out->Ok_0@ == json_of_captions(pairs_view(entries@)),
{
    let mut bytes: Vec<u8> = Vec::new();
    let mut writer = serde_json::Serializer::new(&mut bytes);
    serde::Serializer::collect_map(&mut writer, entries.iter().map(|e| (&e.0, &e.1)))?;
    Ok(String::from_utf8_lossy(&bytes).into_owned())
}

/// Formats a string with `{:?}`, the `Debug` of `str`. Nothing is proved of
/// the text: it is only given the name `debug_quoted`, as a function of the
/// string.
#[verifier::external_body]
fn debug_text(s: &str) -> (out: String)
    ensures
        out@ == debug_quoted(s@),
{
    format!("{:?}", s)
}

/// The name of the file that holds the data script.
pub const DATA_FILE: &'static str = "data.js";

/// The parts of the data script. The two lists are JSON texts; title and
/// default caption are quoted literals, absent where none is configured.
#[derive(Debug, PartialEq, Eq)]
pub struct DataScript {
    pub files: String,
    pub captions: String,
    pub title: Option<String>,
    pub default_caption: Option<String>,
    pub thumbnail_size: u32,
}

/// The parts of a data script as plain values.
pub struct DataScriptView {
    pub files: Seq<char>,
    pub captions: Seq<char>,
    pub title: Option<Seq<char>>,
    pub default_caption: Option<Seq<char>>,
    pub thumbnail_size: u32,
}

impl View for DataScript {
    type V = DataScriptView;

    open spec fn view(&self) -> DataScriptView {
        DataScriptView {
            files: self.files@,
            captions: self.captions@,
            title: crate::config::text_view(self.title),
            default_caption: crate::config::text_view(self.default_caption),
            thumbnail_size: self.thumbnail_size,
        }
    }
}

/// The text of the data script: five constants, in this order. An absent
/// title or default caption is written as `null`, never as an empty string.
/// The statement of a default caption that is present ends with its line,
/// without a semicolon.
pub open spec fn script_text(script: DataScriptView) -> Seq<char> {
    "const FILES = "@ + script.files + ";\n"@ + "const CAPTIONS = new Map(Object.entries("@
        + script.captions + "));\nconst TITLE = "@ + (match script.title {
        Some(title) => title,
        None => "null"@,
    }) + ";\nconst DEFAULT_CAPTION = "@ + (match script.default_caption {
        Some(caption) => caption + "\n"@,
        None => "null;\n"@,
    }) + "const THUMB_SIZE = "@ + decimal(script.thumbnail_size as nat) + ";\n"@
}

impl DataScript {
    /// Lays the parts out as the text of the data script.
    pub fn text(&self) -> (out: String)
        ensures
            out@ == script_text(self@),
    {
        let mut out = String::from_str("const FILES = ");
        out.append(self.files.as_str());
        out.append(";\n");
        out.append("const CAPTIONS = new Map(Object.entries(");
        out.append(self.captions.as_str());
        out.append("));\nconst TITLE = ");
        match &self.title {
            Some(title) => out.append(title.as_str()),
            None => out.append("null"),
        }
        out.append(";\nconst DEFAULT_CAPTION = ");
        match &self.default_caption {
            Some(caption) => {
                out.append(caption.as_str());
                out.append("\n");
            },
            None => out.append("null;\n"),
        }
        out.append("const THUMB_SIZE = ");
        let size = decimal_text(self.thumbnail_size);
        out.append(size.as_str());
        out.append(";\n");
        assert(out@ =~= script_text(self@));
        out
    }

    /// Reads the file list back from its JSON text.
    pub fn read_files(&self) -> (files: Option<Vec<String>>)
        ensures
            match files {
                Some(names) => names_of_json(self.files@) == Some(names_view(names@)),
                None => names_of_json(self.files@) is None,
            },
    {
        match json_names_read(self.files.as_str()) {
            Ok(names) => Some(names),
            Err(_) => None,
        }
    }
}

/// The captions to write out: for each listed file that has one, its name
/// and caption, in the order of the list. A file that is listed more than once
/// counts where it stands first.
pub open spec fn listed_entries(names: Seq<Seq<char>>, captions: Map<Seq<char>, Seq<char>>) -> Seq<
    (Seq<char>, Seq<char>),
>
    decreases names.len(),
{
    if names.len() == 0 {
        Seq::empty()
    } else {
        let front = names.drop_last();
        let name = names.last();
        if captions.contains_key(name) && !front.contains(name) {
            listed_entries(front, captions).push((name, captions[name]))
        } else {
            listed_entries(front, captions)
        }
    }
}

/// Collects the captions of the listed files, in the order of the list.
pub fn caption_entries(filenames: &Vec<String>, captions: &CaptionMap) -> (entries: Vec<
    (String, String),
>)
    ensures
        pairs_view(entries@) == listed_entries(names_view(filenames@), captions@),
{
    let ghost names = names_view(filenames@);
    let mut entries: Vec<(String, String)> = Vec::new();
    let mut seen: StringHashMap<bool> = StringHashMap::new();
    let mut i: usize = 0;
    assert(names.take(0) =~= Seq::<Seq<char>>::empty());
    assert(pairs_view(entries@) =~= listed_entries(names.take(0), captions@));
    while i < filenames.len()
        invariant
            i <= filenames.len(),
            names == names_view(filenames@),
            pairs_view(entries@) == listed_entries(names.take(i as int), captions@),
            forall|name: Seq<char>| seen@.contains_key(name) <==> names.take(i as int).contains(name),
        decreases filenames.len() - i,
    {
        let ghost front = names.take(i as int);
        let name = &filenames[i];
        proof {
            assert(names.take(i + 1).drop_last() =~= front);
            assert(names.take(i + 1).last() == name@);
        }
        if !seen.contains_key(name.as_str()) {
            if let Some(caption) = captions.get(name.as_str()) {
                let ghost before = pairs_view(entries@);
                entries.push((name.clone(), caption.clone()));
                assert(pairs_view(entries@) =~= before.push((name@, caption@)));
            }
            seen.insert(name.clone(), true);
        }
        proof {
            let longer = names.take(i + 1);
            assert forall|other: Seq<char>| seen@.contains_key(other) <==> longer.contains(
                other,
            ) by {
                if longer.contains(other) {
                    let j = choose|j: int| 0 <= j < longer.len() && longer[j] == other;
                    if j < i {
                        assert(front[j] == other);
                    }
                }
                if front.contains(other) {
                    let j = choose|j: int| 0 <= j < front.len() && front[j] == other;
                    assert(longer[j] == other);
                }
                if other == name@ {
                    assert(longer[i as int] == other);
                }
            }
        }
        i += 1;
    }
    assert(names.take(filenames.len() as int) =~= names);
    entries
}

/// Whether two lists hold the same strings in the same order.
pub fn same_names(a: &Vec<String>, b: &Vec<String>) -> (same: bool)
    ensures
        same == (names_view(a@) == names_view(b@)),
{
    if a.len() != b.len() {
        assert(names_view(a@).len() != names_view(b@).len());
        return false;
    }
    let mut i: usize = 0;
    while i < a.len()
        invariant
            i <= a.len(),
            a.len() == b.len(),
            forall|j: int| 0 <= j < i ==> a@[j]@ == b@[j]@,
        decreases a.len() - i,
    {
        if a[i] != b[i] {
            assert(names_view(a@)[i as int] != names_view(b@)[i as int]);
            return false;
        }
        i += 1;
    }
    assert(names_view(a@) =~= names_view(b@));
    true
}

/// Why no data script was made.
#[derive(Debug, PartialEq, Eq)]
pub enum EmitError {
    /// The text written for the file list does not read back as that list.
    FileListAltered,
}

impl EmitError {
    /// The message of the error.
    pub open spec fn message_text(self) -> Seq<char> {
        "Error serializing filenames to \"data.js\": the list does not read back as written"@
    }

    /// The message of the error.
    pub fn message(&self) -> (out: String)
        ensures
            out@ == self.message_text(),
    {
        String::from_str(
            "Error serializing filenames to \"data.js\": the list does not read back as written",
        )
    }
}

/// A title or caption as a quoted literal.
pub open spec fn quoted(text: Option<Seq<char>>) -> Option<Seq<char>> {
    match text {
        Some(t) => Some(debug_quoted(t)),
        None => None,
    }
}

/// The data script of a file list, its captions and a configuration. There
/// is one where the text that `serde_json` writes for the file list reads back
/// as the list it was written from.
pub open spec fn rendered(
    names: Seq<Seq<char>>,
    captions: Map<Seq<char>, Seq<char>>,
    cfg: CfgView,
) -> Option<DataScriptView> {
    if names_of_json(json_of_names(names)) == Some(names) {
        Some(
            DataScriptView {
                files: json_of_names(names),
                captions: json_of_captions(listed_entries(names, captions)),
                title: quoted(cfg.gallery_title),
                default_caption: quoted(cfg.default_caption),
                thumbnail_size: cfg.thumbnail_size,
            },
        )
    } else {
        None
    }
}

/// Quotes a title or caption, if there is one.
fn quote(text: &Option<String>) -> (out: Option<String>)
    ensures
        crate::config::text_view(out) == quoted(crate::config::text_view(*text)),
{
    match text {
        Some(t) => Some(debug_text(t.as_str())),
        None => None,
    }
}

/// Makes the data script of a file list, the captions of its files and the
/// configuration. The file list is written in the order given. Of the
/// captions, those of listed files are written. The text of the file list is
/// read back before it is handed out, and the script is refused where that
/// does not give the list again.
pub fn render_data(filenames: &Vec<String>, captions: &CaptionMap, cfg: &Cfg) -> (out: Result<
    DataScript,
    EmitError,
>)
    ensures
        match out {
            Ok(script) => rendered(names_view(filenames@), captions@, cfg@) == Some(script@)
                && names_of_json(script.files@) == Some(names_view(filenames@)),
            Err(EmitError::FileListAltered) => rendered(names_view(filenames@), captions@, cfg@)
                is None,
        },
{
    let files = match json_names_text(filenames) {
        Ok(text) => text,
        Err(_) => vstd::pervasive::unreached(),
    };
    match json_names_read(files.as_str()) {
        Ok(back) => {
            if !same_names(&back, filenames) {
                return Err(EmitError::FileListAltered);
            }
        },
        Err(_) => {
            return Err(EmitError::FileListAltered);
        },
    }
    let entries = caption_entries(filenames, captions);
    let captions_text = match json_captions_text(&entries) {
        Ok(text) => text,
        Err(_) => vstd::pervasive::unreached(),
    };
    Ok(
        DataScript {
            files,
            captions: captions_text,
            title: quote(&cfg.gallery_title),
            default_caption: quote(&cfg.default_caption),
            thumbnail_size: cfg.thumbnail_size,
        },
    )
}

/// The text of a data script begins with the constant of the file list: its
/// name, the JSON text of the list, and the end of the statement.
pub proof fn lemma_script_begins_with_file_list(script: DataScriptView)
    ensures
        ("const FILES = "@ + script.files + ";\n"@).is_prefix_of(script_text(script)),
{
    let head = "const FILES = "@ + script.files + ";\n"@;
    let tail = "const CAPTIONS = new Map(Object.entries("@ + script.captions
        + "));\nconst TITLE = "@ + (match script.title {
        Some(title) => title,
        None => "null"@,
    }) + ";\nconst DEFAULT_CAPTION = "@ + (match script.default_caption {
        Some(caption) => caption + "\n"@,
        None => "null;\n"@,
    }) + "const THUMB_SIZE = "@ + decimal(script.thumbnail_size as nat) + ";\n"@;
    assert(script_text(script) =~= head + tail);
    assert((head + tail).subrange(0, head.len() as int) =~= head);
}

/// The file list of a data script reads back as the list it was made from,
/// in the same order.
pub proof fn lemma_file_list_reads_back(
    names: Seq<Seq<char>>,
    captions: Map<Seq<char>, Seq<char>>,
    cfg: CfgView,
)
    requires
        rendered(names, captions, cfg) is Some,
    ensures
        names_of_json(rendered(names, captions, cfg)->0.files) == Some(names),
        ("const FILES = "@ + rendered(names, captions, cfg)->0.files + ";\n"@).is_prefix_of(
            script_text(rendered(names, captions, cfg)->0),
        ),
{
    lemma_script_begins_with_file_list(rendered(names, captions, cfg)->0);
}

/// Captions of files that are not listed do not reach the data script: two
/// tables that agree on the listed files give the same entries.
pub proof fn lemma_entries_are_scoped(
    names: Seq<Seq<char>>,
    a: Map<Seq<char>, Seq<char>>,
    b: Map<Seq<char>, Seq<char>>,
)
    requires
        a.restrict(names.to_set()) == b.restrict(names.to_set()),
    ensures
        listed_entries(names, a) == listed_entries(names, b),
    decreases names.len(),
{
    if names.len() > 0 {
        let front = names.drop_last();
        let name = names.last();
        let set = names.to_set();
        assert(set.contains(name));
        assert(a.restrict(set).contains_key(name) == a.contains_key(name));
        assert(b.restrict(set).contains_key(name) == b.contains_key(name));
        if a.contains_key(name) {
            assert(a.restrict(set)[name] == a[name]);
            assert(b.restrict(set)[name] == b[name]);
        }
        let fset = front.to_set();
        assert forall|k: Seq<char>| fset.contains(k) implies a.contains_key(k) == b.contains_key(
            k,
        ) && (a.contains_key(k) ==> a[k] == b[k]) by {
            assert(front.contains(k));
            let j = choose|j: int| 0 <= j < front.len() && front[j] == k;
            assert(names[j] == k);
            assert(set.contains(k));
            assert(a.restrict(set).contains_key(k) == a.contains_key(k));
            assert(b.restrict(set).contains_key(k) == b.contains_key(k));
            if a.contains_key(k) {
                assert(a.restrict(set)[k] == a[k]);
                assert(b.restrict(set)[k] == b[k]);
            }
        }
        assert forall|k: Seq<char>| #[trigger]
            a.restrict(fset).dom().contains(k) == b.restrict(fset).dom().contains(k) by {}
        assert forall|k: Seq<char>| a.restrict(fset).dom().contains(k) implies #[trigger] a.restrict(
            fset,
        )[k] == b.restrict(fset)[k] by {}
        assert(a.restrict(fset) =~= b.restrict(fset));
        lemma_entries_are_scoped(front, a, b);
    }
}

/// Every entry written out is the caption of a listed file, and no file has
/// two entries.
pub proof fn lemma_entries_are_distinct_captions(
    names: Seq<Seq<char>>,
    captions: Map<Seq<char>, Seq<char>>,
)
    ensures
        forall|i: int|
            0 <= i < listed_entries(names, captions).len() ==> {
                let entry = #[trigger] listed_entries(names, captions)[i];
                names.contains(entry.0) && captions.contains_key(entry.0) && captions[entry.0]
                    == entry.1
            },
        forall|i: int, j: int|
            0 <= i < j < listed_entries(names, captions).len() ==> (#[trigger] listed_entries(
                names,
                captions,
            )[i]).0 != (#[trigger] listed_entries(names, captions)[j]).0,
    decreases names.len(),
{
    if names.len() > 0 {
        let front = names.drop_last();
        let name = names.last();
        let rest = listed_entries(front, captions);
        lemma_entries_are_distinct_captions(front, captions);
        assert forall|i: int| 0 <= i < rest.len() implies names.contains((#[trigger] rest[i]).0) by {
            let j = choose|j: int| 0 <= j < front.len() && front[j] == rest[i].0;
            assert(names[j] == rest[i].0);
        }
        assert(names[names.len() - 1] == name);
    }
}

} // verus!
