use pkgcatalog::manager::fts::{norm_name, query_of_terms, to_fts_query, PREFIX_MIN_LEN};

#[test]
fn variants_of_a_name_normalise_alike() {
    assert_eq!(norm_name("Foo_Bar-1"), "foobar1");
    for s in ["foo-bar-1", "foo_bar_1", "FOOBAR1", "foo bar 1", "F.o.o.B.a.r.1"] {
        assert_eq!(norm_name(s), "foobar1");
    }
    assert_eq!(norm_name(""), "");
    assert_eq!(norm_name("-_-"), "");
}

#[test]
fn normalising_goes_by_single_characters() {
    assert_eq!(norm_name("É-à"), "éà");
    // One capital that becomes two characters.
    assert_eq!(norm_name("\u{130}"), "i\u{307}");
    // A sigma at the end has no form of its own here.
    assert_eq!(norm_name("\u{39f}\u{3a3}"), "\u{3bf}\u{3c3}");
}

#[test]
fn normalising_is_done_by_parts_and_once() {
    for (a, b) in [("Foo", "Bar"), ("-", "A1"), ("", "x_Y")] {
        let whole = format!("{a}{b}");
        assert_eq!(norm_name(&whole), norm_name(a) + &norm_name(b));
        assert_eq!(norm_name(&norm_name(&whole)), norm_name(&whole));
    }
}

#[test]
fn a_query_matches_every_term() {
    assert_eq!(
        to_fts_query("Foo bar", 0, false),
        "{identity keywords body} : (\"foo\" AND \"bar\" *)"
    );
    assert_eq!(to_fts_query("foo", 0, true), "identity : (\"foo\" *)");
    assert_eq!(
        to_fts_query("foo", 42, false),
        "repo : 42 AND {identity keywords body} : (\"foo\" *)"
    );
    assert_eq!(
        to_fts_query("a", i64::MAX, true),
        "repo : 9223372036854775807 AND identity : (\"a\")"
    );
    assert_eq!(to_fts_query("a", -1, true), "identity : (\"a\")");
}

#[test]
fn only_a_long_last_term_is_a_prefix() {
    assert_eq!(PREFIX_MIN_LEN, 3);
    assert_eq!(to_fts_query("abc de", 0, true), "identity : (\"abc\" AND \"de\")");
    assert_eq!(to_fts_query("de abc", 0, true), "identity : (\"de\" AND \"abc\" *)");
    // Characters are counted, not bytes.
    assert_eq!(to_fts_query("éé", 0, true), "identity : (\"éé\")");
    assert_eq!(to_fts_query("ééé", 0, true), "identity : (\"ééé\" *)");
}

#[test]
fn without_a_word_there_is_no_query() {
    for s in ["", " ", "--", "\"*\"", "()"] {
        assert_eq!(to_fts_query(s, 5, true), "");
    }
}

#[test]
fn separators_do_not_matter_to_a_search() {
    let expected = to_fts_query("foo bar", 1, false);
    for s in ["foo-bar", "foo_bar", "foo\"bar", "foo:(bar", "  foo * bar--"] {
        assert_eq!(to_fts_query(s, 1, false), expected);
    }
}

#[test]
fn terms_cannot_break_out_of_their_quotes() {
    assert_eq!(
        to_fts_query("a\" OR \"b", 0, true),
        "identity : (\"a\" AND \"or\" AND \"b\")"
    );
}

#[test]
fn terms_are_lower_cased_as_whole_texts() {
    // A sigma at the end of a word has a form of its own.
    assert_eq!(
        to_fts_query("\u{39f}\u{394}\u{39f}\u{3a3}", 0, true),
        "identity : (\"\u{3bf}\u{3b4}\u{3bf}\u{3c2}\" *)"
    );
}

fn terms(list: &[&str]) -> Vec<String> {
    list.iter().map(|s| s.to_string()).collect()
}

#[test]
fn a_query_is_built_from_terms() {
    assert_eq!(query_of_terms(&vec![], 5, true), "");
    assert_eq!(query_of_terms(&terms(&["é"]), 0, true), "identity : (\"é\")");
    assert_eq!(query_of_terms(&terms(&["ñandú"]), 0, true), "identity : (\"ñandú\" *)");
    assert_eq!(
        query_of_terms(&terms(&["straße", "x", "x"]), 12, false),
        "repo : 12 AND {identity keywords body} : (\"straße\" AND \"x\" AND \"x\")"
    );
    // Terms are taken as they are.
    assert_eq!(query_of_terms(&terms(&["A b", ""]), -3, true), "identity : (\"A b\" AND \"\")");
}

#[test]
fn terms_stand_between_quotes_and_nowhere_else() {
    for (list, starred) in [
        (vec!["a"], false),
        (vec!["abc"], true),
        (vec!["abc", "abc", "de"], false),
        (vec!["é", "naïve", "日本語"], true),
    ] {
        let q = query_of_terms(&terms(&list), 9, false);
        let pieces: Vec<&str> = q.split('"').collect();
        assert_eq!(pieces.len(), 2 * list.len() + 1);
        for (k, term) in list.iter().enumerate() {
            assert_eq!(pieces[2 * k + 1], *term);
            if k > 0 {
                assert_eq!(pieces[2 * k], " AND ");
            }
        }
        assert_eq!(pieces[0], "repo : 9 AND {identity keywords body} : (");
        assert_eq!(pieces[2 * list.len()], if starred { " *)" } else { ")" });
        assert_eq!(q.matches('*').count(), if starred { 1 } else { 0 });
    }
}

#[test]
fn the_words_of_any_text_stand_between_quotes() {
    let q = to_fts_query("Say \"Hi*\" AND hi; DROP", 0, true);
    let inside: Vec<&str> = q.split('"').skip(1).step_by(2).collect();
    assert_eq!(inside, ["say", "hi", "and", "hi", "drop"]);
    assert_eq!(q.matches('"').count(), 10);
    assert_eq!(q.matches('*').count(), 1);
}

#[test]
fn a_query_is_empty_where_the_name_is() {
    for s in ["", "--", " \t", "«»", "\"*\"", "…"] {
        assert_eq!(norm_name(s), "");
        assert_eq!(to_fts_query(s, 1, false), "");
    }
    for s in ["a", "-1-", "«é»", "日", "\u{130}"] {
        assert_ne!(norm_name(s), "");
        assert_ne!(to_fts_query(s, 1, false), "");
    }
}

#[test]
fn every_letter_and_digit_stays_in_quotes() {
    for c in ('\u{0}'..=char::MAX).filter(|c| c.is_alphanumeric()) {
        let q = to_fts_query(&c.to_string(), 0, true);
        let pieces: Vec<&str> = q.split('"').collect();
        let lower = c.to_string().to_lowercase();
        assert_eq!(pieces[..2], ["identity : (", lower.as_str()]);
        let long = lower.chars().count() >= PREFIX_MIN_LEN;
        assert_eq!(pieces[2..], [if long { " *)" } else { ")" }]);
    }
}

#[test]
fn a_query_is_pieces_with_quotes_between_them() {
    let q = to_fts_query("Crème (brûlée) OR \"ΟΔΟΣ\"*", 4, false);
    let pieces = [
        "repo : 4 AND {identity keywords body} : (",
        "crème",
        " AND ",
        "brûlée",
        " AND ",
        "or",
        " AND ",
        "οδος",
        " *)",
    ];
    assert_eq!(q, pieces.join("\""));
    assert_eq!(q.split('"').collect::<Vec<_>>(), pieces);
}
