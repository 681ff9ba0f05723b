//! The gallery's configuration: what a configuration file may say, the
//! built-in defaults, and how the two are merged.

use vstd::prelude::*;
use vstd::string::*;
use crate::text::{lemma_trimmed_of_tight, lowercased, names_view, trim_text, trimmed};

verus! {

/// The name of the configuration file.
pub const CONFIG_FILE: &'static str = "config.toml";

/// What a configuration file holds. Every key is optional.
#[derive(Debug, PartialEq, Eq)]
pub struct CfgFile {
    pub gallery_title: Option<String>,
    pub thumbnail_size: Option<u32>,
    pub file_extensions: Option<Vec<String>>,
    pub default_caption: Option<String>,
    pub pretty_json: Option<bool>,
}

/// The resolved configuration. Every field has a value.
#[derive(Debug, PartialEq, Eq)]
pub struct Cfg {
    pub gallery_title: Option<String>,
    pub thumbnail_size: u32,
    pub file_extensions: Vec<String>,
    pub default_caption: Option<String>,
    pub pretty_json: bool,
}

/// A configuration file as plain values.
pub struct CfgFileView {
    pub gallery_title: Option<Seq<char>>,
    pub thumbnail_size: Option<u32>,
    pub file_extensions: Option<Seq<Seq<char>>>,
    pub default_caption: Option<Seq<char>>,
    pub pretty_json: Option<bool>,
}

/// A configuration as plain values.
pub struct CfgView {
    pub gallery_title: Option<Seq<char>>,
    pub thumbnail_size: u32,
    pub file_extensions: Seq<Seq<char>>,
    pub default_caption: Option<Seq<char>>,
    pub pretty_json: bool,
}

/// The characters of an optional string.
pub open spec fn text_view(s: Option<String>) -> Option<Seq<char>> {
    match s {
        Some(t) => Some(t@),
        None => None,
    }
}

impl View for CfgFile {
    type V = CfgFileView;

    open spec fn view(&self) -> CfgFileView {
        CfgFileView {
            gallery_title: text_view(self.gallery_title),
            thumbnail_size: self.thumbnail_size,
            file_extensions: match self.file_extensions {
                Some(exts) => Some(names_view(exts@)),
                None => None,
            },
            default_caption: text_view(self.default_caption),
            pretty_json: self.pretty_json,
        }
    }
}

impl View for Cfg {
    type V = CfgView;

    open spec fn view(&self) -> CfgView {
        CfgView {
            gallery_title: text_view(self.gallery_title),
            thumbnail_size: self.thumbnail_size,
            file_extensions: names_view(self.file_extensions@),
            default_caption: text_view(self.default_caption),
            pretty_json: self.pretty_json,
        }
    }
}

/// The extensions that count as images where the configuration names none.
pub open spec fn default_extensions() -> Seq<Seq<char>> {
    seq!["jpg"@, "jpeg"@, "png"@, "gif"@, "bmp"@, "webp"@]
}

/// The built-in configuration: no title, thumbnails of 100, the default
/// extensions, no default caption, compact output.
pub open spec fn default_cfg() -> CfgView {
    CfgView {
        gallery_title: None,
        thumbnail_size: 100,
        file_extensions: default_extensions(),
        default_caption: None,
        pretty_json: false,
    }
}

/// The configuration file that spells the built-in configuration out: the
/// keys that have a built-in value carry it, the two without one are absent.
pub open spec fn default_cfg_file() -> CfgFileView {
    CfgFileView {
        gallery_title: None,
        thumbnail_size: Some(100u32),
        file_extensions: Some(default_extensions()),
        default_caption: None,
        pretty_json: Some(false),
    }
}

/// An extension as the configuration keeps it: without white space at its
/// ends, and in lowercase.
pub open spec fn normal_extension(raw: Seq<char>) -> Seq<char> {
    lowercased(trimmed(raw))
}

/// The configuration that a file resolves to: each key that the file holds
/// overrides the built-in value, each absent key leaves it. The extensions of
/// the file are normalised one by one.
pub open spec fn merged(file: CfgFileView) -> CfgView {
    let base = default_cfg();
    CfgView {
        gallery_title: match file.gallery_title {
            Some(t) => Some(t),
            None => base.gallery_title,
        },
        thumbnail_size: match file.thumbnail_size {
            Some(n) => n,
            None => base.thumbnail_size,
        },
        file_extensions: match file.file_extensions {
            Some(exts) => exts.map_values(|e: Seq<char>| normal_extension(e)),
            None => base.file_extensions,
        },
        default_caption: match file.default_caption {
            Some(c) => Some(c),
            None => base.default_caption,
        },
        pretty_json: match file.pretty_json {
            Some(b) => b,
            None => base.pretty_json,
        },
    }
}

/// The default extensions, as strings.
pub fn default_extension_list() -> (exts: Vec<String>)
    ensures
        names_view(exts@) == default_extensions(),
{
    let mut exts: Vec<String> = Vec::new();
    exts.push(String::from_str("jpg"));
    exts.push(String::from_str("jpeg"));
    exts.push(String::from_str("png"));
    exts.push(String::from_str("gif"));
    exts.push(String::from_str("bmp"));
    exts.push(String::from_str("webp"));
    assert(names_view(exts@) =~= default_extensions());
    exts
}

/// Normalises the extensions of a configuration file: each is trimmed and
/// put in lowercase; none is dropped and their order stays.
pub fn normalize_extensions(raw: &Vec<String>) -> (exts: Vec<String>)
    ensures
        names_view(exts@) == names_view(raw@).map_values(|e: Seq<char>| normal_extension(e)),
{
    let mut exts: Vec<String> = Vec::new();
    let mut i: usize = 0;
    while i < raw.len()
        invariant
            i <= raw.len(),
            exts@.len() == i,
            forall|j: int| 0 <= j < i ==> (#[trigger] exts@[j])@ == normal_extension(raw@[j]@),
        decreases raw.len() - i,
    {
        let lower = trim_text(raw[i].as_str()).to_lowercase();
        exts.push(lower);
        i += 1;
    }
    assert(names_view(exts@) =~= names_view(raw@).map_values(
        |e: Seq<char>| normal_extension(e),
    ));
    exts
}

impl Default for CfgFile {
    fn default() -> (file: CfgFile)
        ensures
            file@ == default_cfg_file(),
    {
        CfgFile {
            gallery_title: None,
            thumbnail_size: Some(100),
            file_extensions: Some(default_extension_list()),
            default_caption: None,
            pretty_json: Some(false),
        }
    }
}

impl Default for Cfg {
    fn default() -> (cfg: Cfg)
        ensures
            cfg@ == default_cfg(),
    {
        Cfg {
            gallery_title: None,
            thumbnail_size: 100,
            file_extensions: default_extension_list(),
            default_caption: None,
            pretty_json: false,
        }
    }
}

impl Cfg {
    /// Resolves a configuration file against the built-in defaults.
    pub fn from_file(file: CfgFile) -> (cfg: Cfg)
        ensures
            cfg@ == merged(file@),
    {
        let mut cfg = Cfg::default();
        if let Some(title) = file.gallery_title {
            cfg.gallery_title = Some(title);
        }
        if let Some(n) = file.thumbnail_size {
            cfg.thumbnail_size = n;
        }
        if let Some(exts) = file.file_extensions {
            cfg.file_extensions = normalize_extensions(&exts);
        }
        if let Some(caption) = file.default_caption {
            cfg.default_caption = Some(caption);
        }
        if let Some(b) = file.pretty_json {
            cfg.pretty_json = b;
        }
        cfg
    }
}

/// What was found where the configuration file should be.
#[derive(Debug, PartialEq, Eq)]
pub enum ConfigInput {
    /// There is no configuration file.
    Missing,
    /// The file is there and could not be read; `reason` says why.
    Unreadable { reason: String },
    /// The file was read and does not hold what a configuration file may
    /// hold; `reason` says why.
    Malformed { reason: String },
    /// The file as it was read.
    Parsed(CfgFile),
}

/// Why there is no configuration. A configuration file that is there and
/// cannot be used ends the run.
#[derive(Debug, PartialEq, Eq)]
pub enum ConfigError {
    /// The configuration file could not be read.
    Read { reason: String },
    /// The configuration file could not be parsed.
    Parse { reason: String },
}

impl ConfigInput {
    /// What the user is told where the run goes on without a configuration
    /// file; nothing where there is one.
    pub open spec fn notice_text(self, path: Seq<char>) -> Option<Seq<char>> {
        match self {
            ConfigInput::Missing => Some("No config file \""@ + path + "\", using defaults."@),
            _ => None,
        }
    }

    /// The notice that goes with this finding, for the file at `path`.
    pub fn notice(&self, path: &str) -> (out: Option<String>)
        ensures
            text_view(out) == self.notice_text(path@),
    {
        match self {
            ConfigInput::Missing => {
                let mut out = String::from_str("No config file \"");
                out.append(path);
                out.append("\", using defaults.");
                Some(out)
            },
            _ => None,
        }
    }
}

impl ConfigError {
    /// The message of the error, for the file at `path`.
    pub open spec fn message_text(self, path: Seq<char>) -> Seq<char> {
        match self {
            ConfigError::Read { reason } => "Error reading configuration file "@ + path + ": "@
                + reason@,
            ConfigError::Parse { reason } => "Error parsing configuration file "@ + path + ": "@
                + reason@,
        }
    }

    /// The message of the error, for the file at `path`.
    pub fn message(&self, path: &str) -> (out: String)
        ensures
            out@ == self.message_text(path@),
    {
        let (mut out, reason) = match self {
            ConfigError::Read { reason } => (
                String::from_str("Error reading configuration file "),
                reason,
            ),
            ConfigError::Parse { reason } => (
                String::from_str("Error parsing configuration file "),
                reason,
            ),
        };
        out.append(path);
        out.append(": ");
        out.append(reason.as_str());
        out
    }
}

impl Cfg {
    /// The configuration of a run. Without a configuration file it is the
    /// built-in one. A file that was read overrides the built-in values key by
    /// key. A file that is there and could not be read or parsed gives an
    /// error, with the reason that came with it.
    pub fn resolve(input: ConfigInput) -> (out: Result<Cfg, ConfigError>)
        ensures
            match input {
                ConfigInput::Missing => out is Ok && out->Ok_0@ == default_cfg(),
                ConfigInput::Unreadable { reason } => out is Err && out->Err_0
                    == (ConfigError::Read { reason }),
                ConfigInput::Malformed { reason } => out is Err && out->Err_0
                    == (ConfigError::Parse { reason }),
                ConfigInput::Parsed(file) => out is Ok && out->Ok_0@ == merged(file@),
            },
    {
        match input {
            ConfigInput::Missing => Ok(Cfg::default()),
            ConfigInput::Unreadable { reason } => Err(ConfigError::Read { reason }),
            ConfigInput::Malformed { reason } => Err(ConfigError::Parse { reason }),
            ConfigInput::Parsed(file) => Ok(Cfg::from_file(file)),
        }
    }
}

/// A key that the configuration file holds overrides the built-in value, and
/// a key that it lacks leaves the built-in value, each key by itself.
pub proof fn lemma_merge_overrides_key_by_key(file: CfgFileView)
    ensures
        merged(file).gallery_title == if file.gallery_title is Some {
            file.gallery_title
        } else {
            default_cfg().gallery_title
        },
        merged(file).thumbnail_size == if file.thumbnail_size is Some {
            file.thumbnail_size->0
        } else {
            default_cfg().thumbnail_size
        },
        merged(file).file_extensions == if file.file_extensions is Some {
            file.file_extensions->0.map_values(|e: Seq<char>| normal_extension(e))
        } else {
            default_cfg().file_extensions
        },
        merged(file).default_caption == if file.default_caption is Some {
            file.default_caption
        } else {
            default_cfg().default_caption
        },
        merged(file).pretty_json == if file.pretty_json is Some {
            file.pretty_json->0
        } else {
            default_cfg().pretty_json
        },
{
}

/// A configuration file without keys resolves to the built-in configuration.
pub proof fn lemma_empty_file_gives_defaults()
    ensures
        merged(
            CfgFileView {
                gallery_title: None,
                thumbnail_size: None,
                file_extensions: None,
                default_caption: None,
                pretty_json: None,
            },
        ) == default_cfg(),
{
}

/// None of the default extensions has white space at its ends.
pub proof fn lemma_default_extensions_are_trim()
    ensures
        forall|i: int|
            0 <= i < default_extensions().len() ==> trimmed(#[trigger] default_extensions()[i])
                == default_extensions()[i],
{
    reveal_strlit("jpg");
    reveal_strlit("jpeg");
    reveal_strlit("png");
    reveal_strlit("gif");
    reveal_strlit("bmp");
    reveal_strlit("webp");
    lemma_trimmed_of_tight("jpg"@);
    lemma_trimmed_of_tight("jpeg"@);
    lemma_trimmed_of_tight("png"@);
    lemma_trimmed_of_tight("gif"@);
    lemma_trimmed_of_tight("bmp"@);
    lemma_trimmed_of_tight("webp"@);
}

/// The default configuration file resolves to the built-in configuration
/// with its extensions put in lowercase.
pub proof fn lemma_default_file_gives_lowercased_defaults()
    ensures
        merged(default_cfg_file()) == (CfgView {
            file_extensions: default_extensions().map_values(|e: Seq<char>| lowercased(e)),
            ..default_cfg()
        }),
{
    lemma_default_extensions_are_trim();
    assert(default_extensions().map_values(|e: Seq<char>| normal_extension(e))
        =~= default_extensions().map_values(|e: Seq<char>| lowercased(e)));
}

/// Two lists of extensions that differ only in case and in white space at
/// the ends resolve to the same configured extensions.
pub proof fn lemma_extension_case_is_ignored(file: CfgFileView, a: Seq<Seq<char>>, b: Seq<Seq<char>>)
    requires
        a.len() == b.len(),
        forall|i: int| 0 <= i < a.len() ==> normal_extension(a[i]) == normal_extension(b[i]),
    ensures
        merged(CfgFileView { file_extensions: Some(a), ..file }) == merged(
            CfgFileView { file_extensions: Some(b), ..file },
        ),
{
    assert(a.map_values(|e: Seq<char>| normal_extension(e)) =~= b.map_values(
        |e: Seq<char>| normal_extension(e),
    ));
}

} // verus!
