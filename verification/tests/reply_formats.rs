use hive::api::{extract_dispatch_id, extract_success_value};
use regex::Regex;

const SAMPLES: &[&str] = &[
    "",
    "<SUCCESS>abc</SUCCESS>",
    "<NATION id=\"x\"><SUCCESS>tok-123</SUCCESS></NATION>",
    "<SUCCESS></SUCCESS>",
    "<SUCCESS>a</SUCCESS>b</SUCCESS>",
    "<SUCCESS>a\n</SUCCESS><SUCCESS>b</SUCCESS>",
    "<SUCCESS>a\r\nb</SUCCESS>",
    "<SUCCESS>a\rb</SUCCESS>",
    "x<SUCCESS><SUCCESS>y</SUCCESS>",
    "<SUCCESS>ü€😀</SUCCESS>tail",
    "<SUCCESS>one</SUCCESS>\n<SUCCESS>two</SUCCESS>",
    "<SUCCESS>\n</SUCCESS>",
    "<SUCCESS>x</SUCCES>",
    "<SUCCESS>x</SUCCESS",
    "</SUCCESS><SUCCESS>z</SUCCESS>",
    "<SUCCESS></SUCCESS></SUCCESS>",
    "page=dispatch/id=42",
    "/id=",
    "/id=abc /id=7",
    "/id=0012x",
    "/id=99999999999999999999 /id=5",
    "/id=18446744073709551615",
    "/id=18446744073709551616",
    "//id=9",
    "/ID=9 /id=10",
    "/id=١٢٣",
];

#[test]
fn success_value_agrees_with_regex() {
    let re = Regex::new(r"<SUCCESS>(.+)</SUCCESS>").unwrap();
    for text in SAMPLES {
        let expected = re.captures(text).and_then(|c| c.get(1).map(|m| m.as_str().to_string()));
        assert_eq!(extract_success_value(text), expected, "text {:?}", text);
    }
}

#[test]
fn dispatch_id_agrees_with_regex() {
    let re = Regex::new(r"/id=([0-9]+)").unwrap();
    for text in SAMPLES {
        let expected: Option<u64> = re.captures(text).and_then(|c| c.get(1).and_then(|m| m.as_str().parse().ok()));
        assert_eq!(extract_dispatch_id(text), expected, "text {:?}", text);
    }
}
