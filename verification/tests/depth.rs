use std::collections::BTreeMap;

use snekkja::captions::parse_toml_captions;
use snekkja::depth::{
    advance, count_toml_marks, toml_depth_message, within_toml_depth, Lex, MAX_TOML_MARKS,
};

const DEPTH_MESSAGE: &str = "not read: more than 128 brackets, braces and dots outside its strings";

fn flat(text: &str) -> bool {
    toml::from_slice::<BTreeMap<String, String>>(text.as_bytes()).is_ok()
}

/// How many arrays and tables a value holds, itself included.
fn containers(value: &toml::Value) -> usize {
    match value {
        toml::Value::Array(items) => 1 + items.iter().map(containers).sum::<usize>(),
        toml::Value::Table(table) => 1 + table.values().map(containers).sum::<usize>(),
        _ => 0,
    }
}

/// Holds the scan to the parser on one document that is known to be shallow.
fn agree(text: &str) {
    let marks = count_toml_marks(text.as_bytes());
    if flat(text) {
        assert_eq!(marks, 0, "a flat table with marks: {:?}", text);
    }
    if let Ok(value) = toml::from_str::<toml::Value>(text) {
        assert!(containers(&value) <= marks + 1, "marks missed in {:?}", text);
    }
}

#[test]
fn limit_and_message() {
    assert_eq!(MAX_TOML_MARKS, 128);
    assert_eq!(toml_depth_message(), DEPTH_MESSAGE);
}

#[test]
fn marks_outside_strings_are_counted() {
    assert_eq!(count_toml_marks(b""), 0);
    assert_eq!(count_toml_marks(b"a = [[1], {b.c = 2}]"), 4);
    assert_eq!(count_toml_marks(b"[a.b]\n[[c]]\nd.e = 1.5\n"), 6);
    assert_eq!(count_toml_marks(b"a.jpg = \"T\""), 1);
}

#[test]
fn marks_inside_strings_and_comments_are_not_counted() {
    assert_eq!(count_toml_marks(b"\"a.jpg\" = \"[x] {y} z.\"\n"), 0);
    assert_eq!(count_toml_marks(b"'a.jpg' = '[x] {y} z.'\n"), 0);
    assert_eq!(count_toml_marks(b"a = \"\"\"[\n.\n{\"\"\"\n"), 0);
    assert_eq!(count_toml_marks(b"a = '''[\n.\n{'''\n"), 0);
    assert_eq!(count_toml_marks(b"# [.{\na = \"x\" # [.{\n"), 0);
    assert_eq!(count_toml_marks(b"a = \"q\\\"[.{\"\n"), 0);
    assert_eq!(count_toml_marks(b"a = 'q\\'[\n"), 1);
    assert_eq!(count_toml_marks(b"a = \"\\\\\"[\n"), 1);
    assert_eq!(count_toml_marks(b"a = \"\"[\n"), 1);
    assert_eq!(count_toml_marks(b"a = ''{\n"), 1);
    assert_eq!(count_toml_marks(b"a = \"x\"[\n"), 1);
    assert_eq!(count_toml_marks(b"# c\r\n[\n"), 1);
    assert_eq!(count_toml_marks(b"# c \"\n[\n"), 1);
    assert_eq!(count_toml_marks(b"a = \"#\" # '\n[\n"), 1);
}

#[test]
fn quotes_at_the_ends_of_long_strings() {
    assert_eq!(count_toml_marks(b"a = \"\"\"x\"[\"\"{\"\"\".\n"), 1);
    assert_eq!(count_toml_marks(b"a = \"\"\"x\"\"\"\"[\n"), 1);
    assert_eq!(count_toml_marks(b"a = \"\"\"x\"\"\"\"\"[\n"), 1);
    assert_eq!(count_toml_marks(b"a = \"\"\"x\"\"\"\"\"\"[\"\n"), 0);
    assert_eq!(count_toml_marks(b"a = \"\"\"\"\"\"[\n"), 1);
    assert_eq!(count_toml_marks(b"a = \"\"\"\\\"\"\"[\"\"\"\n"), 0);
    assert_eq!(count_toml_marks(b"a = \"\"\"\\\n  [\"\"\".\n"), 1);
    assert_eq!(count_toml_marks(b"a = '''x'''''[\n"), 1);
    assert_eq!(count_toml_marks(b"a = '''x\\'''[\n"), 1);
}

#[test]
fn states_of_the_scan() {
    assert_eq!(advance(Lex::Plain, b'#'), Lex::Comment);
    assert_eq!(advance(Lex::Comment, b'\n'), Lex::Plain);
    assert_eq!(advance(Lex::Comment, b'\t'), Lex::Comment);
    assert_eq!(advance(Lex::Plain, b'"'), Lex::Opening { delim: b'"', seen: 1 });
    assert_eq!(
        advance(Lex::Opening { delim: b'"', seen: 1 }, b'x'),
        Lex::Single { delim: b'"', escaped: false }
    );
    assert_eq!(
        advance(Lex::Single { delim: b'"', escaped: false }, b'\\'),
        Lex::Single { delim: b'"', escaped: true }
    );
    assert_eq!(
        advance(Lex::Single { delim: b'\'', escaped: false }, b'\\'),
        Lex::Single { delim: b'\'', escaped: false }
    );
    assert_eq!(
        advance(Lex::Opening { delim: b'"', seen: 2 }, b'"'),
        Lex::Multi { delim: b'"', run: 0, escaped: false }
    );
    assert_eq!(advance(Lex::Multi { delim: b'"', run: 4, escaped: false }, b'"'), Lex::Plain);
}

#[test]
fn deep_nesting_after_every_kind_of_string_is_kept_from_the_parser() {
    let deep = format!("z = {}1{}\n", "[".repeat(20000), "]".repeat(20000));
    let before = [
        "a = \"q\\\"uote\"",
        "a = \"back\\\\\"",
        "a = \"\"",
        "a = ''",
        "a = \"\"\"m \"\" l \" in\"\"\"",
        "a = \"\"\"x\"\"\"\"",
        "a = \"\"\"x\"\"\"\"\"",
        "a = \"\"\"\"\"\"",
        "a = \"\"\"\\\n   next\"\"\"",
        "a = \"\"\"e \\\" q\"\"\"",
        "a = \"\"\"\\\\\"\"\"",
        "a = '''it's ''ok'''",
        "a = '''x'''''",
        "a = 'C:\\path\\'",
        "a = \"#no comment\"",
        "# comment with \" quote",
        "# it's",
        "\"k # [\" = \"v\"",
        "'k\"ey' = \"v\"",
        "a = \"x\" # \"\"\"",
        "a = \"\\u0022\"",
        "a = \"x\"\r",
        "\u{feff}a = \"x\"",
        "[\"a]b\"]",
        "['a\"b'] # '",
    ];
    for first in before {
        let text = format!("{}\n{}", first, deep);
        assert!(!within_toml_depth(text.as_bytes()), "{:?}", first);
        match parse_toml_captions(text.as_bytes()) {
            Ok(_) => panic!("read after {:?}", first),
            Err(reason) => assert_eq!(reason, DEPTH_MESSAGE, "{:?}", first),
        }
    }
}

#[test]
fn deep_nesting_inside_every_kind_of_string_is_read() {
    let deep = "[".repeat(5000) + &"{a.b=".repeat(5000);
    for (open, close) in [
        ("\"", "\""),
        ("'", "'"),
        ("\"\"\"", "\"\"\""),
        ("'''", "'''"),
        ("\"\"\"\n\"", "\"\"\"\"\""),
        ("'''\n'", "''''"),
        ("\"\\\"", "\\\\\""),
    ] {
        let text = format!("a = {}{}{}\nb = \"x\" # {}\n", open, deep, close, deep);
        assert_eq!(count_toml_marks(text.as_bytes()), 0, "{:?}", open);
        assert!(parse_toml_captions(text.as_bytes()).is_ok(), "{:?}", open);
    }
}

const PIECES: [&str; 16] = [
    "a", "=", "\"", "'", "\\", "#", "\n", "[", "]", ".", "{", "}", " ", "\"\"\"", "'''",
    "\r\n",
];

#[test]
fn scan_agrees_with_the_parser_on_every_short_document() {
    let n = PIECES.len();
    for len in 0..5 {
        let mut index = vec![0usize; len];
        loop {
            let text: String = index.iter().map(|i| PIECES[*i]).collect();
            agree(&text);
            agree(&format!("a = {}", text));
            let mut at = 0;
            while at < len {
                index[at] += 1;
                if index[at] < n {
                    break;
                }
                index[at] = 0;
                at += 1;
            }
            if at == len {
                break;
            }
        }
    }
}

fn random_documents(seed: u64, count: usize, lead: &str) {
    let mut state = seed;
    for _ in 0..count {
        let mut text = String::from(lead);
        state = state.wrapping_mul(6364136223846793005).wrapping_add(1442695040888963407);
        let len = 4 + (state >> 60) as usize;
        for _ in 0..len {
            state = state.wrapping_mul(6364136223846793005).wrapping_add(1442695040888963407);
            text.push_str(PIECES[(state >> 33) as usize % PIECES.len()]);
        }
        agree(&text);
    }
}

#[test]
fn scan_agrees_with_the_parser_on_random_documents() {
    random_documents(1, 150000, "");
}

#[test]
fn scan_agrees_with_the_parser_on_random_values() {
    random_documents(2, 150000, "a = ");
}

#[test]
fn scan_agrees_with_the_parser_on_random_long_strings() {
    random_documents(3, 100000, "a = \"\"\"");
    random_documents(4, 100000, "a = '''");
}
