//! Captions: the table from file name to caption text, the three sources it
//! is gathered from, and the order in which they overrule each other.

use std::collections::BTreeMap;
use vstd::prelude::*;
use vstd::hash_map::StringHashMap;
use vstd::string::*;
use crate::discovery::{find_extension_dot, is_file_name, lemma_last_dot, stem};
use crate::depth::{toml_depth_message, toml_depth_ok, toml_depth_text, within_toml_depth};
use crate::text::{chars_of, names_view};

verus! {

/// A table from file name to caption text.
pub struct CaptionMap {
    table: StringHashMap<String>,
}

impl View for CaptionMap {
    type V = Map<Seq<char>, Seq<char>>;

    closed spec fn view(&self) -> Map<Seq<char>, Seq<char>> {
        self.table@.map_values(|caption: String| caption@)
    }
}

impl CaptionMap {
    /// A table without entries.
    pub fn new() -> (out: CaptionMap)
        ensures
            out@ == Map::<Seq<char>, Seq<char>>::empty(),
    {
        let out = CaptionMap { table: StringHashMap::new() };
        assert(out@ =~= Map::<Seq<char>, Seq<char>>::empty());
        out
    }

    /// Sets the caption of `name`, in place of the one it had, if any.
    pub fn insert(&mut self, name: String, caption: String)
        ensures
            final(self)@ == old(self)@.insert(name@, caption@),
    {
        self.table.insert(name, caption);
        assert(self@ =~= old(self)@.insert(name@, caption@));
    }

    /// Whether `name` has a caption.
    pub fn contains_key(&self, name: &str) -> (found: bool)
        ensures
            found == self@.contains_key(name@),
    {
        self.table.contains_key(name)
    }

    /// The caption of `name`, if it has one.
    pub fn get(&self, name: &str) -> (caption: Option<&String>)
        ensures
            match caption {
                Some(text) => self@.contains_key(name@) && text@ == self@[name@],
                None => !self@.contains_key(name@),
            },
    {
        self.table.get(name)
    }

    /// Takes the entry of `name` out of the table and hands its caption back.
    pub fn remove(&mut self, name: &str) -> (caption: Option<String>)
        ensures
            final(self)@ == old(self)@.remove(name@),
            match caption {
                Some(text) => old(self)@.contains_key(name@) && text@ == old(self)@[name@],
                None => !old(self)@.contains_key(name@),
            },
    {
        let caption = match self.table.get(name) {
            Some(text) => Some(text.clone()),
            None => None,
        };
        self.table.remove(name);
        assert(self@ =~= old(self)@.remove(name@));
        caption
    }
}

/// The file names of a list, as a set.
pub open spec fn name_set(names: Seq<String>) -> Set<Seq<char>> {
    names_view(names).to_set()
}

/// Moves the entries of the listed files from `source` to `dest`, where they
/// replace what `dest` held for the same file. Entries of other files stay in
/// `source`, and the other entries of `dest` stay as they are.
pub fn transfer_filenames(filenames: &Vec<String>, source: &mut CaptionMap, dest: &mut CaptionMap)
    ensures
        final(dest)@ == old(dest)@.union_prefer_right(
            old(source)@.restrict(name_set(filenames@)),
        ),
        final(source)@ == old(source)@.remove_keys(name_set(filenames@)),
{
    let mut i: usize = 0;
    assert(names_view(filenames@).take(0).to_set() =~= Set::<Seq<char>>::empty());
    assert(dest@ =~= old(dest)@.union_prefer_right(
        old(source)@.restrict(Set::<Seq<char>>::empty()),
    ));
    assert(source@ =~= old(source)@.remove_keys(Set::<Seq<char>>::empty()));
    while i < filenames.len()
        invariant
            i <= filenames.len(),
            dest@ == old(dest)@.union_prefer_right(
                old(source)@.restrict(names_view(filenames@).take(i as int).to_set()),
            ),
            source@ == old(source)@.remove_keys(names_view(filenames@).take(i as int).to_set()),
        decreases filenames.len() - i,
    {
        let ghost seen = names_view(filenames@).take(i as int).to_set();
        let ghost next = names_view(filenames@).take(i + 1).to_set();
        let name = &filenames[i];
        proof {
            assert(names_view(filenames@).take(i + 1) =~= names_view(filenames@).take(
                i as int,
            ).push(name@));
            assert(next =~= seen.insert(name@)) by {
                lemma_to_set_push(names_view(filenames@).take(i as int), name@);
            }
        }
        if let Some(caption) = source.remove(name.as_str()) {
            dest.insert(name.clone(), caption);
        }
        proof {
            assert(source@ =~= old(source)@.remove_keys(next));
            assert(dest@ =~= old(dest)@.union_prefer_right(old(source)@.restrict(next)));
        }
        i += 1;
    }
    assert(names_view(filenames@).take(filenames.len() as int) =~= names_view(filenames@));
}

/// The set of a sequence with one element more is the set of the sequence
/// with that element added.
proof fn lemma_to_set_push(s: Seq<Seq<char>>, x: Seq<char>)
    ensures
        s.push(x).to_set() =~= s.to_set().insert(x),
{
    assert forall|y: Seq<char>| s.push(x).to_set().contains(y) <==> s.to_set().insert(x).contains(
        y,
    ) by {
        if s.push(x).contains(y) {
            let j = choose|j: int| 0 <= j < s.push(x).len() && s.push(x)[j] == y;
            if j < s.len() {
                assert(s[j] == y);
                assert(s.contains(y));
            }
        }
        if s.contains(y) {
            let j = choose|j: int| 0 <= j < s.len() && s[j] == y;
            assert(s.push(x)[j] == y);
        }
        if y == x {
            assert(s.push(x)[s.len() as int] == x);
        }
    }
}

/// The captions that the three sources give to the listed files. A file has
/// a caption if any source has one for it, and then that of the strongest
/// such source: the sidecar file before the JSON file, the JSON file before
/// the structured file. Entries of files that are not listed are left out.
pub open spec fn merged_captions(
    names: Set<Seq<char>>,
    structured: Map<Seq<char>, Seq<char>>,
    json: Map<Seq<char>, Seq<char>>,
    sidecars: Map<Seq<char>, Seq<char>>,
) -> Map<Seq<char>, Seq<char>> {
    Map::new(
        |name: Seq<char>|
            names.contains(name) && (structured.contains_key(name) || json.contains_key(name)
                || sidecars.contains_key(name)),
        |name: Seq<char>|
            if sidecars.contains_key(name) {
                sidecars[name]
            } else if json.contains_key(name) {
                json[name]
            } else {
                structured[name]
            },
    )
}

/// Merges the three caption sources for the listed files, the stronger source
/// overruling the weaker.
pub fn merge_captions(
    filenames: &Vec<String>,
    structured: CaptionMap,
    json: CaptionMap,
    sidecars: CaptionMap,
) -> (captions: CaptionMap)
    ensures
        captions@ == merged_captions(name_set(filenames@), structured@, json@, sidecars@),
        captions@.dom().subset_of(name_set(filenames@)),
{
    let mut captions = CaptionMap::new();
    let mut structured = structured;
    let mut json = json;
    let mut sidecars = sidecars;
    let ghost first = structured@;
    let ghost second = json@;
    let ghost third = sidecars@;
    transfer_filenames(filenames, &mut structured, &mut captions);
    transfer_filenames(filenames, &mut json, &mut captions);
    transfer_filenames(filenames, &mut sidecars, &mut captions);
    assert(captions@ =~= merged_captions(name_set(filenames@), first, second, third));
    captions
}

/// The name of the sidecar file that may hold the caption of an image: the
/// image's name with `html` in place of its extension, or added to it with a
/// `.` where it has none. A text that names no file has no sidecar.
pub open spec fn sidecar(name: Seq<char>) -> Option<Seq<char>> {
    if is_file_name(name) {
        Some(stem(name) + ".html"@)
    } else {
        None
    }
}

/// The name of the sidecar file of an image.
pub fn sidecar_name(name: &str) -> (out: Option<String>)
    ensures
        match out {
            Some(s) => sidecar(name@) == Some(s@),
            None => sidecar(name@) is None,
        },
{
    let chars = chars_of(name);
    let n: usize = chars.len();
    if n == 0 {
        return None;
    }
    if n == 1 && chars[0] == '.' {
        assert(name@ =~= seq!['.']);
        return None;
    }
    if n == 2 && chars[0] == '.' && chars[1] == '.' {
        assert(name@ =~= seq!['.', '.']);
        return None;
    }
    assert(is_file_name(name@)) by {
        if name@ == seq!['.'] {
            assert(seq!['.'][0] == '.');
        }
        if name@ == seq!['.', '.'] {
            assert(seq!['.', '.'][0] == '.');
            assert(seq!['.', '.'][1] == '.');
        }
    }
    let base: String = match find_extension_dot(&chars) {
        Some(i) => {
            proof {
                lemma_last_dot(name@);
            }
            String::from_str(name.substring_char(0, i))
        },
        None => String::from_str(name),
    };
    Some(base.concat(".html"))
}

/// The characters of each entry of a list of pairs of strings.
pub open spec fn pairs_view(pairs: Seq<(String, String)>) -> Seq<(Seq<char>, Seq<char>)> {
    pairs.map_values(|p: (String, String)| (p.0@, p.1@))
}

/// The table that a list of entries makes: each entry sets the caption of its
/// file, a later one in place of an earlier one.
pub open spec fn table_of(pairs: Seq<(Seq<char>, Seq<char>)>) -> Map<Seq<char>, Seq<char>>
    decreases pairs.len(),
{
    if pairs.len() == 0 {
        Map::empty()
    } else {
        table_of(pairs.drop_last()).insert(pairs.last().0, pairs.last().1)
    }
}

/// Builds the table of a list of entries.
pub fn caption_table(pairs: &Vec<(String, String)>) -> (table: CaptionMap)
    ensures
        table@ == table_of(pairs_view(pairs@)),
{
    let mut table = CaptionMap::new();
    let mut i: usize = 0;
    assert(pairs_view(pairs@).take(0) =~= Seq::<(Seq<char>, Seq<char>)>::empty());
    while i < pairs.len()
        invariant
            i <= pairs.len(),
            table@ == table_of(pairs_view(pairs@).take(i as int)),
        decreases pairs.len() - i,
    {
        proof {
            let longer = pairs_view(pairs@).take(i + 1);
            assert(longer.drop_last() =~= pairs_view(pairs@).take(i as int));
            assert(longer.last() == (pairs@[i as int].0@, pairs@[i as int].1@));
        }
        table.insert(pairs[i].0.clone(), pairs[i].1.clone());
        i += 1;
    }
    assert(pairs_view(pairs@).take(pairs.len() as int) =~= pairs_view(pairs@));
    table
}

/// What `toml` makes of a document that is read as a flat table from string
/// to string: the entries in the order of their keys, or else the message of
/// its error.
pub uninterp spec fn toml_captions(bytes: Seq<u8>) -> Result<
    Seq<(Seq<char>, Seq<char>)>,
    Seq<char>,
>;

/// What `serde_json` makes of a document that is read as a flat object from
/// string to string: the entries in the order of their keys, or else the
/// message of its error.
pub uninterp spec fn json_captions(bytes: Seq<u8>) -> Result<
    Seq<(Seq<char>, Seq<char>)>,
    Seq<char>,
>;

/// What a parser made of a caption file, as plain values.
pub open spec fn parsed_view(out: Result<Vec<(String, String)>, String>) -> Result<
    Seq<(Seq<char>, Seq<char>)>,
    Seq<char>,
> {
    match out {
        Ok(pairs) => Ok(pairs_view(pairs@)),
        Err(message) => Err(message@),
    }
}

/// Calls `toml::from_slice` for a `BTreeMap<String, String>` and hands out
/// the entries in the order in which the map walks them, or the error as the
/// text that its `Display` gives. Nothing is proved of what `toml` reads: the
/// outcome is only given the name `toml_captions`, as a function of the
/// bytes. `toml` follows nested arrays and inline tables, and the parts of a
/// dotted key, by recursion without a limit of depth, and a document that
/// nests deeply enough ends the process. The wrapper is therefore only for
/// documents with few marks outside their strings and comments, as the scan
/// of `toml_marks` finds them; that scan follows the tokenizer of `toml`.
#[verifier::external_body]
fn toml_caption_pairs(bytes: &[u8]) -> (out: Result<Vec<(String, String)>, String>)
    requires
        toml_depth_ok(bytes@),
    ensures
        parsed_view(out) == toml_captions(bytes@),
{
    match toml::from_slice::<BTreeMap<String, String>>(bytes) {
        Ok(table) => Ok(table.into_iter().collect()),
        Err(error) => Err(error.to_string()),
    }
}

/// Calls `serde_json::from_slice` for a `BTreeMap<String, String>` and hands
/// out the entries in the order in which the map walks them, or the error as
/// the text that its `Display` gives. Nothing is proved of what `serde_json`
/// reads: the outcome is only given the name `json_captions`, as a function
/// of the bytes.
#[verifier::external_body]
fn json_caption_pairs(bytes: &[u8]) -> (out: Result<Vec<(String, String)>, String>)
    ensures
        parsed_view(out) == json_captions(bytes@),
{
    match serde_json::from_slice::<BTreeMap<String, String>>(bytes) {
        Ok(table) => Ok(table.into_iter().collect()),
        Err(error) => Err(error.to_string()),
    }
}

/// What a structured caption file gives: what `toml` makes of it, where the
/// document is shallow enough to be handed to `toml`. A document that is a
/// flat table has no mark outside its strings and comments, so it is always
/// handed on.
pub open spec fn structured_entries(bytes: Seq<u8>) -> Result<
    Seq<(Seq<char>, Seq<char>)>,
    Seq<char>,
> {
    if toml_depth_ok(bytes) {
        toml_captions(bytes)
    } else {
        Err(toml_depth_text())
    }
}

/// Reads a structured caption file: a TOML document that is a flat table from
/// file name to caption. A document that is no such table gives the parser's
/// message. A document with more marks outside its strings than the parser
/// can safely nest is no flat table either, and is not handed to the parser.
pub fn parse_toml_captions(bytes: &[u8]) -> (out: Result<CaptionMap, String>)
    ensures
        match out {
            Ok(table) => structured_entries(bytes@) is Ok && table@ == table_of(
                structured_entries(bytes@)->Ok_0,
            ),
            Err(reason) => structured_entries(bytes@) == Err::<
                Seq<(Seq<char>, Seq<char>)>,
                Seq<char>,
            >(reason@),
        },
{
    if !within_toml_depth(bytes) {
        return Err(toml_depth_message());
    }
    match toml_caption_pairs(bytes) {
        Ok(pairs) => Ok(caption_table(&pairs)),
        Err(reason) => Err(reason),
    }
}

/// Reads a JSON caption file: a JSON object from file name to caption. A
/// document that is no such object gives the parser's message instead.
pub fn parse_json_captions(bytes: &[u8]) -> (out: Result<CaptionMap, String>)
    ensures
        match out {
            Ok(table) => json_captions(bytes@) is Ok && table@ == table_of(
                json_captions(bytes@)->Ok_0,
            ),
            Err(reason) => json_captions(bytes@) == Err::<
                Seq<(Seq<char>, Seq<char>)>,
                Seq<char>,
            >(reason@),
        },
{
    match json_caption_pairs(bytes) {
        Ok(pairs) => Ok(caption_table(&pairs)),
        Err(reason) => Err(reason),
    }
}

/// A caption file that is read as a whole.
#[derive(Clone, Copy, Debug, PartialEq, Eq, Structural)]
pub enum CaptionSource {
    /// The structured caption file, a TOML document.
    Structured,
    /// The JSON caption file.
    Json,
}

/// A caption file that was there and could not be read as a flat table. Such
/// a file adds no caption. `reason` is the parser's message, or, for a
/// structured file that was not handed to the parser, what `toml_depth_text`
/// says.
#[derive(Debug, PartialEq, Eq)]
pub struct CaptionWarning {
    pub source: CaptionSource,
    pub reason: String,
}

impl CaptionSource {
    /// The name of the caption file.
    pub open spec fn file_name_text(self) -> Seq<char> {
        match self {
            CaptionSource::Structured => "captions.toml"@,
            CaptionSource::Json => "captions.json"@,
        }
    }

    /// The name of the caption file.
    pub fn file_name(&self) -> (out: &'static str)
        ensures
            out@ == self.file_name_text(),
    {
        match self {
            CaptionSource::Structured => "captions.toml",
            CaptionSource::Json => "captions.json",
        }
    }
}

impl CaptionWarning {
    /// The message of the warning.
    pub open spec fn message_text(self) -> Seq<char> {
        "Error deserializing \""@ + self.source.file_name_text() + "\": "@ + self.reason@
    }

    /// The message of the warning.
    pub fn message(&self) -> (out: String)
        ensures
            out@ == self.message_text(),
    {
        let mut out = String::from_str("Error deserializing \"");
        out.append(self.source.file_name());
        out.append("\": ");
        out.append(self.reason.as_str());
        out
    }
}

/// The captions of the listed files, and the caption files that were passed
/// over.
pub struct CaptionReport {
    pub captions: CaptionMap,
    pub warnings: Vec<CaptionWarning>,
}

/// The bytes of a file that may be absent.
pub open spec fn bytes_view(bytes: Option<&[u8]>) -> Option<Seq<u8>> {
    match bytes {
        Some(b) => Some(b@),
        None => None,
    }
}

/// What the outcome of a parser adds: the table of its entries, or nothing.
pub open spec fn table_or_empty(parsed: Result<Seq<(Seq<char>, Seq<char>)>, Seq<char>>) -> Map<
    Seq<char>,
    Seq<char>,
> {
    match parsed {
        Ok(pairs) => table_of(pairs),
        Err(_) => Map::empty(),
    }
}

/// What the structured caption file adds: its table, or nothing where the
/// file is absent or is no flat table.
pub open spec fn structured_table(bytes: Option<Seq<u8>>) -> Map<Seq<char>, Seq<char>> {
    match bytes {
        Some(b) => table_or_empty(structured_entries(b)),
        None => Map::empty(),
    }
}

/// What the JSON caption file adds: its table, or nothing where the file is
/// absent or malformed.
pub open spec fn json_table(bytes: Option<Seq<u8>>) -> Map<Seq<char>, Seq<char>> {
    match bytes {
        Some(b) => table_or_empty(json_captions(b)),
        None => Map::empty(),
    }
}

/// The warning that the outcome of a parser gives rise to, if any: the
/// source and the reason.
pub open spec fn warning_of(
    source: CaptionSource,
    parsed: Option<Result<Seq<(Seq<char>, Seq<char>)>, Seq<char>>>,
) -> Seq<(CaptionSource, Seq<char>)> {
    match parsed {
        Some(Err(reason)) => seq![(source, reason)],
        _ => Seq::empty(),
    }
}

/// The warnings of the two caption files, the structured file first: one for
/// each file that is present and is no flat table, with the reason.
pub open spec fn caption_warnings(structured: Option<Seq<u8>>, json: Option<Seq<u8>>) -> Seq<
    (CaptionSource, Seq<char>),
> {
    warning_of(
        CaptionSource::Structured,
        match structured {
            Some(b) => Some(structured_entries(b)),
            None => None,
        },
    ) + warning_of(
        CaptionSource::Json,
        match json {
            Some(b) => Some(json_captions(b)),
            None => None,
        },
    )
}

/// Source and reason of each warning of a list.
pub open spec fn warnings_view(warnings: Seq<CaptionWarning>) -> Seq<(CaptionSource, Seq<char>)> {
    warnings.map_values(|w: CaptionWarning| (w.source, w.reason@))
}

/// Gathers the captions of the listed files: from the structured caption
/// file, then from the JSON caption file, then from the sidecar files, each
/// overruling the ones before it. `sidecars` holds, by the name of its image,
/// the text of every sidecar file that was found. A caption file that is
/// absent adds nothing; one that is no flat table adds nothing and is
/// reported, with the reason.
pub fn read_captions(
    filenames: &Vec<String>,
    structured: Option<&[u8]>,
    json: Option<&[u8]>,
    sidecars: CaptionMap,
) -> (out: CaptionReport)
    ensures
        out.captions@ == merged_captions(
            name_set(filenames@),
            structured_table(bytes_view(structured)),
            json_table(bytes_view(json)),
            sidecars@,
        ),
        out.captions@.dom().subset_of(name_set(filenames@)),
        warnings_view(out.warnings@) == caption_warnings(
            bytes_view(structured),
            bytes_view(json),
        ),
{
    let mut warnings: Vec<CaptionWarning> = Vec::new();
    let mut first = CaptionMap::new();
    if let Some(bytes) = structured {
        match parse_toml_captions(bytes) {
            Ok(table) => {
                first = table;
            },
            Err(reason) => {
                warnings.push(CaptionWarning { source: CaptionSource::Structured, reason });
            },
        }
    }
    let mut second = CaptionMap::new();
    if let Some(bytes) = json {
        match parse_json_captions(bytes) {
            Ok(table) => {
                second = table;
            },
            Err(reason) => {
                warnings.push(CaptionWarning { source: CaptionSource::Json, reason });
            },
        }
    }
    assert(warnings_view(warnings@) =~= caption_warnings(
        bytes_view(structured),
        bytes_view(json),
    ));
    let captions = merge_captions(filenames, first, second, sidecars);
    CaptionReport { captions, warnings }
}

/// Where a listed file has a sidecar, its caption is the sidecar's text,
/// whatever the two caption files hold for it.
pub proof fn lemma_sidecar_overrules(
    names: Set<Seq<char>>,
    structured: Map<Seq<char>, Seq<char>>,
    json: Map<Seq<char>, Seq<char>>,
    sidecars: Map<Seq<char>, Seq<char>>,
    name: Seq<char>,
)
    requires
        names.contains(name),
        sidecars.contains_key(name),
    ensures
        merged_captions(names, structured, json, sidecars).contains_key(name),
        merged_captions(names, structured, json, sidecars)[name] == sidecars[name],
{
}

/// Where a listed file has no sidecar and the JSON caption file has a caption
/// for it, that is its caption, whatever the structured file holds for it.
pub proof fn lemma_json_overrules_structured(
    names: Set<Seq<char>>,
    structured: Map<Seq<char>, Seq<char>>,
    json: Map<Seq<char>, Seq<char>>,
    sidecars: Map<Seq<char>, Seq<char>>,
    name: Seq<char>,
)
    requires
        names.contains(name),
        !sidecars.contains_key(name),
        json.contains_key(name),
    ensures
        merged_captions(names, structured, json, sidecars).contains_key(name),
        merged_captions(names, structured, json, sidecars)[name] == json[name],
{
}

/// Where only the structured caption file has a caption for a listed file,
/// that is its caption.
pub proof fn lemma_structured_is_the_fallback(
    names: Set<Seq<char>>,
    structured: Map<Seq<char>, Seq<char>>,
    json: Map<Seq<char>, Seq<char>>,
    sidecars: Map<Seq<char>, Seq<char>>,
    name: Seq<char>,
)
    requires
        names.contains(name),
        !sidecars.contains_key(name),
        !json.contains_key(name),
        structured.contains_key(name),
    ensures
        merged_captions(names, structured, json, sidecars).contains_key(name),
        merged_captions(names, structured, json, sidecars)[name] == structured[name],
{
}

/// A file that is not listed has no caption, whatever the sources hold for
/// it; and a listed file for which no source has a caption has none.
pub proof fn lemma_captions_are_scoped(
    names: Set<Seq<char>>,
    structured: Map<Seq<char>, Seq<char>>,
    json: Map<Seq<char>, Seq<char>>,
    sidecars: Map<Seq<char>, Seq<char>>,
    name: Seq<char>,
)
    ensures
        !names.contains(name) ==> !merged_captions(names, structured, json, sidecars).contains_key(
            name,
        ),
        !structured.contains_key(name) && !json.contains_key(name) && !sidecars.contains_key(name)
            ==> !merged_captions(names, structured, json, sidecars).contains_key(name),
{
}

/// Merging the three sources at once is laying them over each other in
/// turn, the stronger over the weaker, and keeping the listed files.
pub proof fn lemma_merge_is_overlay(
    names: Set<Seq<char>>,
    structured: Map<Seq<char>, Seq<char>>,
    json: Map<Seq<char>, Seq<char>>,
    sidecars: Map<Seq<char>, Seq<char>>,
)
    ensures
        merged_captions(names, structured, json, sidecars) == structured.union_prefer_right(
            json,
        ).union_prefer_right(sidecars).restrict(names),
{
    assert(merged_captions(names, structured, json, sidecars) =~= structured.union_prefer_right(
        json,
    ).union_prefer_right(sidecars).restrict(names));
}

} // verus!
