use snekkja::config::{Cfg, CfgFile, ConfigError, ConfigInput, CONFIG_FILE};

fn strings(list: &[&str]) -> Vec<String> {
    list.iter().map(|s| s.to_string()).collect()
}

fn empty_file() -> CfgFile {
    CfgFile {
        gallery_title: None,
        thumbnail_size: None,
        file_extensions: None,
        default_caption: None,
        pretty_json: None,
    }
}

#[test]
fn built_in_configuration() {
    let cfg = Cfg::default();
    assert_eq!(cfg.gallery_title, None);
    assert_eq!(cfg.thumbnail_size, 100);
    assert_eq!(cfg.file_extensions, strings(&["jpg", "jpeg", "png", "gif", "bmp", "webp"]));
    assert_eq!(cfg.default_caption, None);
    assert!(!cfg.pretty_json);
}

#[test]
fn file_without_keys_gives_the_defaults() {
    assert_eq!(Cfg::from_file(empty_file()), Cfg::default());
}

#[test]
fn only_the_title_is_overridden() {
    let file = CfgFile { gallery_title: Some("Holidays".to_string()), ..empty_file() };
    let expected = Cfg { gallery_title: Some("Holidays".to_string()), ..Cfg::default() };
    assert_eq!(Cfg::from_file(file), expected);
}

#[test]
fn only_the_thumbnail_size_is_overridden() {
    let file = CfgFile { thumbnail_size: Some(0), ..empty_file() };
    let expected = Cfg { thumbnail_size: 0, ..Cfg::default() };
    assert_eq!(Cfg::from_file(file), expected);
}

#[test]
fn caption_and_flag_are_overridden_together() {
    let file = CfgFile {
        default_caption: Some(String::new()),
        pretty_json: Some(true),
        ..empty_file()
    };
    let expected =
        Cfg { default_caption: Some(String::new()), pretty_json: true, ..Cfg::default() };
    assert_eq!(Cfg::from_file(file), expected);
}

#[test]
fn every_key_is_overridden() {
    let file = CfgFile {
        gallery_title: Some("T".to_string()),
        thumbnail_size: Some(4294967295),
        file_extensions: Some(strings(&["tif"])),
        default_caption: Some("C".to_string()),
        pretty_json: Some(true),
    };
    let expected = Cfg {
        gallery_title: Some("T".to_string()),
        thumbnail_size: 4294967295,
        file_extensions: strings(&["tif"]),
        default_caption: Some("C".to_string()),
        pretty_json: true,
    };
    assert_eq!(Cfg::from_file(file), expected);
}

#[test]
fn extensions_are_trimmed_and_put_in_lowercase() {
    let file = CfgFile {
        file_extensions: Some(strings(&[" JPG ", "Png", "\tGiF\n", "webp", "", "  "])),
        ..empty_file()
    };
    let cfg = Cfg::from_file(file);
    assert_eq!(cfg.file_extensions, strings(&["jpg", "png", "gif", "webp", "", ""]));
}

#[test]
fn extensions_beyond_ascii_follow_unicode() {
    let file = CfgFile {
        file_extensions: Some(strings(&["\u{a0}\u{c9}T\u{c9}\u{2003}"])),
        ..empty_file()
    };
    let cfg = Cfg::from_file(file);
    assert_eq!(cfg.file_extensions, strings(&["\u{e9}t\u{e9}"]));
}

#[test]
fn default_file_resolves_to_the_defaults() {
    assert_eq!(Cfg::from_file(CfgFile::default()), Cfg::default());
}

#[test]
fn default_file_leaves_title_and_caption_out() {
    let file = CfgFile::default();
    assert_eq!(file.gallery_title, None);
    assert_eq!(file.thumbnail_size, Some(100));
    assert_eq!(
        file.file_extensions,
        Some(strings(&["jpg", "jpeg", "png", "gif", "bmp", "webp"]))
    );
    assert_eq!(file.default_caption, None);
    assert_eq!(file.pretty_json, Some(false));
}

#[test]
fn missing_file_resolves_to_the_defaults() {
    assert_eq!(Cfg::resolve(ConfigInput::Missing), Ok(Cfg::default()));
}

#[test]
fn unreadable_file_is_an_error() {
    let out = Cfg::resolve(ConfigInput::Unreadable { reason: "denied".to_string() });
    assert_eq!(out, Err(ConfigError::Read { reason: "denied".to_string() }));
}

#[test]
fn malformed_file_is_an_error() {
    let out = Cfg::resolve(ConfigInput::Malformed { reason: "line 1".to_string() });
    assert_eq!(out, Err(ConfigError::Parse { reason: "line 1".to_string() }));
}

#[test]
fn parsed_file_is_merged() {
    let file = CfgFile { thumbnail_size: Some(64), ..empty_file() };
    let expected = Cfg { thumbnail_size: 64, ..Cfg::default() };
    assert_eq!(Cfg::resolve(ConfigInput::Parsed(file)), Ok(expected));
}

#[test]
fn messages_of_configuration_errors() {
    let read = ConfigError::Read { reason: "denied".to_string() };
    assert_eq!(read.message(CONFIG_FILE), "Error reading configuration file config.toml: denied");
    let parse = ConfigError::Parse { reason: "bad key".to_string() };
    assert_eq!(
        parse.message("x/config.toml"),
        "Error parsing configuration file x/config.toml: bad key"
    );
}

#[test]
fn default_file_survives_toml() {
    let file = CfgFile::default();
    let mut table = toml::value::Table::new();
    if let Some(title) = &file.gallery_title {
        table.insert("gallery_title".to_string(), toml::Value::String(title.clone()));
    }
    if let Some(size) = file.thumbnail_size {
        table.insert("thumbnail_size".to_string(), toml::Value::Integer(i64::from(size)));
    }
    if let Some(exts) = &file.file_extensions {
        let items = exts.iter().map(|e| toml::Value::String(e.clone())).collect();
        table.insert("file_extensions".to_string(), toml::Value::Array(items));
    }
    if let Some(caption) = &file.default_caption {
        table.insert("default_caption".to_string(), toml::Value::String(caption.clone()));
    }
    if let Some(flag) = file.pretty_json {
        table.insert("pretty_json".to_string(), toml::Value::Boolean(flag));
    }
    let text = toml::to_string(&toml::Value::Table(table)).unwrap();

    let back: toml::Value = toml::from_str(&text).unwrap();
    let read = CfgFile {
        gallery_title: back.get("gallery_title").and_then(|v| v.as_str()).map(String::from),
        thumbnail_size: back
            .get("thumbnail_size")
            .and_then(|v| v.as_integer())
            .map(|n| u32::try_from(n).unwrap()),
        file_extensions: back.get("file_extensions").and_then(|v| v.as_array()).map(|items| {
            items.iter().map(|v| v.as_str().unwrap().to_string()).collect()
        }),
        default_caption: back.get("default_caption").and_then(|v| v.as_str()).map(String::from),
        pretty_json: back.get("pretty_json").and_then(|v| v.as_bool()),
    };
    assert_eq!(read, file);
    assert_eq!(Cfg::from_file(read), Cfg::default());
}

#[test]
fn missing_file_is_noticed_and_nothing_else() {
    assert_eq!(
        ConfigInput::Missing.notice(CONFIG_FILE),
        Some("No config file \"config.toml\", using defaults.".to_string())
    );
    assert_eq!(ConfigInput::Parsed(CfgFile::default()).notice(CONFIG_FILE), None);
    assert_eq!(ConfigInput::Unreadable { reason: "denied".to_string() }.notice(CONFIG_FILE), None);
    assert_eq!(ConfigInput::Malformed { reason: "bad".to_string() }.notice(CONFIG_FILE), None);
}

#[test]
fn every_white_space_character_is_trimmed() {
    let white = [
        '\u{9}', '\u{a}', '\u{b}', '\u{c}', '\u{d}', '\u{20}', '\u{85}', '\u{a0}', '\u{1680}',
        '\u{2000}', '\u{2001}', '\u{2002}', '\u{2003}', '\u{2004}', '\u{2005}', '\u{2006}',
        '\u{2007}', '\u{2008}', '\u{2009}', '\u{200a}', '\u{2028}', '\u{2029}', '\u{202f}',
        '\u{205f}', '\u{3000}',
    ];
    assert_eq!(white.len(), 25);
    for c in white {
        let raw = format!("{}{}x y{}", c, c, c);
        let file = CfgFile { file_extensions: Some(vec![raw]), ..empty_file() };
        assert_eq!(Cfg::from_file(file).file_extensions, strings(&["x y"]));
    }
    let all: String = white.iter().collect();
    let file = CfgFile { file_extensions: Some(vec![all]), ..empty_file() };
    assert_eq!(Cfg::from_file(file).file_extensions, strings(&[""]));
}

#[test]
fn what_is_no_white_space_is_kept() {
    let kept = [
        '\u{0}', '\u{8}', '\u{e}', '\u{1c}', '\u{1f}', '\u{21}', '\u{7f}', '\u{84}', '\u{86}',
        '\u{9f}', '\u{a1}', '\u{167f}', '\u{1681}', '\u{180e}', '\u{1fff}', '\u{200b}',
        '\u{200c}', '\u{2027}', '\u{202a}', '\u{202e}', '\u{2030}', '\u{205e}', '\u{2060}',
        '\u{2fff}', '\u{3001}', '\u{feff}',
    ];
    for c in kept {
        let raw = format!("{}x{}", c, c);
        let file = CfgFile { file_extensions: Some(vec![raw.clone()]), ..empty_file() };
        assert_eq!(Cfg::from_file(file).file_extensions, vec![raw]);
    }
}
