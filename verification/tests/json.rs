use pkgcatalog::json::to_facet_json;
use pkgcatalog::models::Facet;

fn facet(kind: &str, value: &str) -> Facet {
    Facet { kind: kind.to_string(), value: value.to_string() }
}

#[test]
fn filters_are_written_kind_first() {
    assert_eq!(
        to_facet_json(&vec![facet("license", "MIT")]),
        "[{\"k\":\"license\",\"v\":\"MIT\"}]"
    );
    assert_eq!(
        to_facet_json(&vec![facet("z", "b"), facet("a", "é")]),
        "[{\"k\":\"z\",\"v\":\"b\"},{\"k\":\"a\",\"v\":\"é\"}]"
    );
}

#[test]
fn no_filters_are_two_brackets() {
    assert_eq!(to_facet_json(&vec![]), "[]");
    assert_ne!(to_facet_json(&vec![facet("", "")]), "[]");
    assert_eq!(to_facet_json(&vec![facet("", "")]), "[{\"k\":\"\",\"v\":\"\"}]");
}

#[test]
fn special_characters_are_escaped() {
    for n in 0u32..0x250 {
        let c = char::from_u32(n).unwrap();
        let expected = match c {
            '"' => "\\\"".to_string(),
            '\\' => "\\\\".to_string(),
            '\u{8}' => "\\b".to_string(),
            '\t' => "\\t".to_string(),
            '\n' => "\\n".to_string(),
            '\u{c}' => "\\f".to_string(),
            '\r' => "\\r".to_string(),
            c if n < 32 => format!("\\u{:04x}", c as u32),
            c => c.to_string(),
        };
        assert_eq!(
            to_facet_json(&vec![facet("k", &c.to_string())]),
            format!("[{{\"k\":\"k\",\"v\":\"{expected}\"}}]")
        );
    }
}

#[test]
fn filters_can_be_read_back() {
    let awkward = "a\",\"v\":\"b\\\n\u{1}\u{7f}\u{2028}";
    let text = to_facet_json(&vec![facet(awkward, "x"), facet("y", awkward)]);
    let value: serde_json::Value = serde_json::from_str(&text).unwrap();
    assert_eq!(value[0]["k"], awkward);
    assert_eq!(value[0]["v"], "x");
    assert_eq!(value[1]["k"], "y");
    assert_eq!(value[1]["v"], awkward);
    assert_ne!(
        to_facet_json(&vec![facet("a", "b"), facet("c", "d")]),
        to_facet_json(&vec![facet("a", "b\"},{\"k\":\"c\",\"v\":\"d")])
    );
}
