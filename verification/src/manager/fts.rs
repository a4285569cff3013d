//! Search terms: full-text queries and normalised names.

use vstd::prelude::*;

use crate::text::{
    ascii_lower, char_lowercase, chars_of, count_of, decimal, is_ascii_char, is_ascii_text,
    is_ascii_word, is_word_char, join, joined, lemma_count_none, lemma_count_parts,
    lemma_decimal_digits, lemma_split_length, lemma_split_one, lemma_split_parts,
    lemma_word_length, lower_char, lower_text, push_decimal, split_at, split_words,
    text_lowercase, texts, word_length, words,
};

verus! {

/// The length from which the last search term also matches as a prefix.
pub const PREFIX_MIN_LEN: usize = 3;

// ---------------------------------------------------------------------------
// Full-text queries
// ---------------------------------------------------------------------------

/// The search terms of a query: its words in lower case.
pub open spec fn fts_terms(query: Seq<char>) -> Seq<Seq<char>> {
    words(query).map_values(|w: Seq<char>| lower_text(w))
}

/// One term of a full-text query, in quotes; with a star it matches as a prefix.
pub open spec fn fts_term(term: Seq<char>, prefix: bool) -> Seq<char> {
    "\""@ + term + (if prefix {
        "\" *"@
    } else {
        "\""@
    })
}

/// The terms in quotes, of which the last one is a prefix if it is long enough.
pub open spec fn fts_quoted(terms: Seq<Seq<char>>) -> Seq<Seq<char>> {
    Seq::new(
        terms.len(),
        |i: int| fts_term(terms[i], i == terms.len() - 1 && terms[i].len() >= PREFIX_MIN_LEN),
    )
}

/// The columns that are searched.
pub open spec fn fts_fields(name_only: bool) -> Seq<char> {
    if name_only {
        "identity"@
    } else {
        "{identity keywords body}"@
    }
}

/// What the terms are looked for in: the fields asked for, of one repository if `repo_id`
/// is positive.
pub open spec fn fts_scope(repo_id: i64, name_only: bool) -> Seq<char> {
    (if repo_id > 0 {
        "repo : "@ + decimal(repo_id as nat) + " AND "@
    } else {
        seq![]
    }) + fts_fields(name_only) + " : ("@
}

/// Whether a text holds anything to search for: a letter or a digit.
pub open spec fn has_word_char(s: Seq<char>) -> bool {
    exists|i: int| 0 <= i < s.len() && is_word_char(#[trigger] s[i])
}

/// The full-text query that matches every one of these terms. Without terms there is no
/// query.
pub open spec fn fts_of_terms(terms: Seq<Seq<char>>, repo_id: i64, name_only: bool) -> Seq<char> {
    if terms.len() == 0 {
        seq![]
    } else {
        fts_scope(repo_id, name_only) + joined(fts_quoted(terms), " AND "@) + ")"@
    }
}

/// The full-text query that matches every search term of a text.
pub open spec fn fts_query(query: Seq<char>, repo_id: i64, name_only: bool) -> Seq<char> {
    fts_of_terms(fts_terms(query), repo_id, name_only)
}

/// The search terms of a query.
fn search_terms(query: &str) -> (r: Vec<String>)
    ensures
        texts(r@) == fts_terms(query@),
{
    let found = split_words(query);
    let mut out: Vec<String> = Vec::new();
    let mut i: usize = 0;
    while i < found.len()
        invariant
            i <= found@.len(),
            texts(found@) == words(query@),
            texts(out@) =~= fts_terms(query@).take(i as int),
        decreases found@.len() - i,
    {
        let ghost before = out@;
        let term = text_lowercase(found[i].as_str());
        assert(texts(found@)[i as int] == found@[i as int]@);
        assert(term@ == lower_text(words(query@)[i as int]));
        out.push(term);
        assert(texts(out@) =~= texts(before).push(term@));
        i = i + 1;
    }
    assert(fts_terms(query@).take(i as int) =~= fts_terms(query@));
    out
}

/// Puts the terms in quotes and marks the last one as a prefix if it is long enough.
fn quote_terms(terms: &Vec<String>) -> (r: Vec<String>)
    ensures
        texts(r@) == fts_quoted(texts(terms@)),
{
    let mut out: Vec<String> = Vec::new();
    let mut i: usize = 0;
    while i < terms.len()
        invariant
            i <= terms@.len(),
            texts(out@) =~= fts_quoted(texts(terms@)).take(i as int),
        decreases terms@.len() - i,
    {
        let ghost before = out@;
        let mut quoted = "\"".to_owned();
        quoted.append(terms[i].as_str());
        let length = chars_of(terms[i].as_str()).len();
        if i == terms.len() - 1 && length >= PREFIX_MIN_LEN {
            quoted.append("\" *");
        } else {
            quoted.append("\"");
        }
        assert(texts(terms@)[i as int] == terms@[i as int]@);
        assert(quoted@ =~= fts_quoted(texts(terms@))[i as int]);
        out.push(quoted);
        assert(texts(out@) =~= texts(before).push(quoted@));
        i = i + 1;
    }
    assert(fts_quoted(texts(terms@)).take(i as int) =~= fts_quoted(texts(terms@)));
    out
}

/// Builds the full-text query that matches every one of these terms in the requested
/// fields and repository. The last term also matches as a prefix if it is long enough.
pub fn query_of_terms(terms: &Vec<String>, repo_id: i64, name_only: bool) -> (r: String)
    ensures
        r@ == fts_of_terms(texts(terms@), repo_id, name_only),
{
    if terms.len() == 0 {
        assert(texts(terms@).len() == 0);
        return String::new();
    }
    assert(texts(terms@).len() > 0);
    let quoted = join(&quote_terms(terms), " AND ");
    let mut out = String::new();
    if repo_id > 0 {
        out.append("repo : ");
        push_decimal(&mut out, repo_id as u64);
        out.append(" AND ");
    }
    if name_only {
        out.append("identity");
    } else {
        out.append("{identity keywords body}");
    }
    out.append(" : (");
    out.append(quoted.as_str());
    out.append(")");
    assert(out@ =~= fts_of_terms(texts(terms@), repo_id, name_only));
    out
}

/// Builds the full-text query that matches every search term of a text. It is empty if
/// the text holds nothing to search for.
pub fn to_fts_query(query: &str, repo_id: i64, name_only: bool) -> (r: String)
    ensures
        r@ == fts_query(query@, repo_id, name_only),
        r@.len() == 0 <==> !has_word_char(query@),
{
    proof {
        law_query_needs_a_word(query@, repo_id, name_only);
    }
    query_of_terms(&search_terms(query), repo_id, name_only)
}

// ---------------------------------------------------------------------------
// Normalised names
// ---------------------------------------------------------------------------

/// A name by which packages are found whatever their spelling: the letters and digits
/// of `s`, in lower case.
pub open spec fn normalized(s: Seq<char>) -> Seq<char>
    decreases s.len(),
{
    if s.len() == 0 {
        seq![]
    } else if is_word_char(s.last()) {
        normalized(s.drop_last()) + lower_char(s.last())
    } else {
        normalized(s.drop_last())
    }
}

/// A letter or a digit stands at the end of a text or before it.
proof fn lemma_last_word_char(s: Seq<char>)
    requires
        s.len() > 0,
    ensures
        has_word_char(s) <==> has_word_char(s.drop_last()) || is_word_char(s.last()),
{
    if has_word_char(s) {
        let i = choose|i: int| 0 <= i < s.len() && is_word_char(#[trigger] s[i]);
        if i < s.len() - 1 {
            assert(is_word_char(s.drop_last()[i]));
        }
    }
    if has_word_char(s.drop_last()) {
        let i = choose|i: int|
            0 <= i < s.drop_last().len() && is_word_char(#[trigger] s.drop_last()[i]);
        assert(is_word_char(s[i]));
    }
    if is_word_char(s.last()) {
        assert(is_word_char(s[s.len() - 1]));
    }
}

/// Appends characters.
fn push_all(out: &mut String, v: &Vec<char>)
    ensures
        final(out)@ == old(out)@ + v@,
{
    let mut i: usize = 0;
    while i < v.len()
        invariant
            i <= v@.len(),
            out@ =~= old(out)@ + v@.take(i as int),
        decreases v@.len() - i,
    {
        out.push(v[i]);
        i = i + 1;
    }
    assert(v@.take(i as int) =~= v@);
}

/// Normalises a name so that its variants with dashes, underscores and capitals are
/// the same: `Foo_Bar-1` becomes `foobar1`. It is empty if there is nothing to search for.
pub fn norm_name(s: &str) -> (r: String)
    ensures
        r@ == normalized(s@),
        r@.len() == 0 <==> !has_word_char(s@),
{
    let v = chars_of(s);
    let mut out = String::new();
    let mut i: usize = 0;
    while i < v.len()
        invariant
            i <= v@.len(),
            out@ == normalized(v@.take(i as int)),
            out@.len() == 0 <==> !has_word_char(v@.take(i as int)),
        decreases v@.len() - i,
    {
        assert(v@.take(i + 1).drop_last() =~= v@.take(i as int));
        proof {
            lemma_last_word_char(v@.take(i + 1));
        }
        if v[i].is_alphanumeric() {
            let lower = char_lowercase(v[i]);
            push_all(&mut out, &lower);
        }
        i = i + 1;
    }
    assert(v@.take(i as int) =~= v@);
    out
}

// ---------------------------------------------------------------------------
// Laws
// ---------------------------------------------------------------------------

/// A text has words exactly if it holds a letter or a digit.
proof fn lemma_words_nonempty(s: Seq<char>)
    ensures
        words(s).len() > 0 <==> has_word_char(s),
    decreases s.len(),
{
    lemma_word_length(s);
    if s.len() > 0 {
        if word_length(s) == 0 {
            lemma_words_nonempty(s.skip(1));
            if has_word_char(s) {
                let i = choose|i: int| 0 <= i < s.len() && is_word_char(#[trigger] s[i]);
                assert(is_word_char(s.skip(1)[i - 1]));
            }
            if has_word_char(s.skip(1)) {
                let i = choose|i: int|
                    0 <= i < s.skip(1).len() && is_word_char(#[trigger] s.skip(1)[i]);
                assert(is_word_char(s[i + 1]));
            }
        } else {
            assert(is_word_char(s[0]));
        }
    }
}

/// There is a full-text query exactly if the text holds a letter or a digit.
pub proof fn law_query_needs_a_word(query: Seq<char>, repo_id: i64, name_only: bool)
    ensures
        fts_query(query, repo_id, name_only).len() > 0 <==> has_word_char(query),
{
    reveal_strlit(")");
    lemma_words_nonempty(query);
}

/// A word of a text with a separator in it ends at the separator.
proof fn lemma_word_length_split(a: Seq<char>, c: char, b: Seq<char>)
    requires
        !is_word_char(c),
    ensures
        word_length(a + seq![c] + b) == word_length(a),
    decreases a.len(),
{
    let s = a + seq![c] + b;
    if a.len() > 0 {
        assert(s[0] == a[0]);
        assert(s.skip(1) =~= a.skip(1) + seq![c] + b);
        lemma_word_length_split(a.skip(1), c, b);
    } else {
        assert(s[0] == c);
    }
}

/// A separator splits the words of a text.
pub proof fn law_separator_splits_words(a: Seq<char>, c: char, b: Seq<char>)
    requires
        !is_word_char(c),
    ensures
        words(a + seq![c] + b) == words(a) + words(b),
    decreases a.len(),
{
    let s = a + seq![c] + b;
    lemma_word_length_split(a, c, b);
    lemma_word_length(a);
    if a.len() == 0 {
        assert(s.skip(1) =~= b);
        assert(words(a) + words(b) =~= words(b));
    } else if word_length(a) == 0 {
        assert(s.skip(1) =~= a.skip(1) + seq![c] + b);
        law_separator_splits_words(a.skip(1), c, b);
    } else {
        let n = word_length(a) as int;
        assert(s.skip(n) =~= a.skip(n) + seq![c] + b);
        assert(s.take(n) =~= a.take(n));
        law_separator_splits_words(a.skip(n), c, b);
        assert(words(s) =~= words(a) + words(b));
    }
}

/// It does not matter to a search which separator stands between words.
pub proof fn law_separators_search_alike(
    a: Seq<char>,
    c: char,
    d: char,
    b: Seq<char>,
    repo_id: i64,
    name_only: bool,
)
    requires
        !is_word_char(c),
        !is_word_char(d),
    ensures
        fts_query(a + seq![c] + b, repo_id, name_only) == fts_query(
            a + seq![d] + b,
            repo_id,
            name_only,
        ),
{
    law_separator_splits_words(a, c, b);
    law_separator_splits_words(a, d, b);
}

/// The words of a text hold letters and digits of that text alone.
proof fn lemma_words_chars(s: Seq<char>, k: int, i: int)
    requires
        0 <= k < words(s).len(),
        0 <= i < words(s)[k].len(),
    ensures
        is_word_char(words(s)[k][i]),
        s.contains(words(s)[k][i]),
    decreases s.len(),
{
    lemma_word_length(s);
    if s.len() > 0 {
        if word_length(s) == 0 {
            lemma_words_chars(s.skip(1), k, i);
            let c = words(s)[k][i];
            let j = choose|j: int| 0 <= j < s.skip(1).len() && s.skip(1)[j] == c;
            assert(s[j + 1] == c);
        } else {
            let n = word_length(s) as int;
            if k == 0 {
                assert(words(s)[0] == s.take(n));
                assert(words(s)[0][i] == s[i]);
            } else {
                assert(words(s)[k] == words(s.skip(n))[k - 1]);
                lemma_words_chars(s.skip(n), k - 1, i);
                let c = words(s)[k][i];
                let j = choose|j: int| 0 <= j < s.skip(n).len() && s.skip(n)[j] == c;
                assert(s[j + n] == c);
            }
        }
    }
}

/// No search term of an ASCII text can break out of its quotes: terms are made of digits
/// and small letters.
pub proof fn law_ascii_terms_stay_quoted(query: Seq<char>)
    requires
        is_ascii_text(query),
    ensures
        forall|k: int, i: int|
            0 <= k < fts_terms(query).len() && 0 <= i < fts_terms(query)[k].len() ==> {
                let c = #[trigger] fts_terms(query)[k][i];
                ('0' <= c <= '9' || 'a' <= c <= 'z') && c != '"'
            },
{
    assert forall|k: int, i: int|
        0 <= k < fts_terms(query).len() && 0 <= i < fts_terms(query)[k].len() implies {
        let c = #[trigger] fts_terms(query)[k][i];
        ('0' <= c <= '9' || 'a' <= c <= 'z') && c != '"'
    } by {
        let w = words(query)[k];
        assert(is_ascii_text(w)) by {
            assert forall|j: int| 0 <= j < w.len() implies is_ascii_char(#[trigger] w[j]) by {
                lemma_words_chars(query, k, j);
            }
        }
        assert(fts_terms(query)[k] == w.map_values(|c: char| ascii_lower(c)));
        lemma_words_chars(query, k, i);
        assert(is_ascii_char(w[i]));
        assert(is_ascii_word(w[i]));
    }
}

/// A text that can stand in quotes as it is, and is no prefix.
pub open spec fn is_quotable(term: Seq<char>) -> bool {
    !term.contains('"') && !term.contains('*')
}

/// Terms that can all stand in quotes as they are.
pub open spec fn are_quotable(terms: Seq<Seq<char>>) -> bool {
    forall|k: int| 0 <= k < terms.len() ==> is_quotable(#[trigger] terms[k])
}

/// The terms in quotes, of which the last one is a prefix if `starred` says so.
spec fn quoted_terms(terms: Seq<Seq<char>>, starred: bool) -> Seq<Seq<char>> {
    Seq::new(terms.len(), |i: int| fts_term(terms[i], i == terms.len() - 1 && starred))
}

/// What follows the last term in quotes.
pub open spec fn fts_end(starred: bool, rest: Seq<char>) -> Seq<char> {
    if starred {
        " *"@ + rest
    } else {
        rest
    }
}

/// Texts with terms in quotes between them: `first`, the terms with `AND` between each
/// two, and `last`.
pub open spec fn fts_pieces(
    first: Seq<char>,
    terms: Seq<Seq<char>>,
    last: Seq<char>,
) -> Seq<Seq<char>> {
    Seq::new(
        2 * terms.len() + 1,
        |i: int|
            if i == 0 {
                first
            } else if i == 2 * terms.len() {
                last
            } else if i % 2 == 1 {
                terms[i / 2]
            } else {
                " AND "@
            },
    )
}

/// The terms in quotes start with all but the last of them.
proof fn lemma_joined_last(terms: Seq<Seq<char>>, starred: bool)
    requires
        terms.len() > 1,
    ensures
        joined(quoted_terms(terms, starred), " AND "@) == joined(
            quoted_terms(terms.drop_last(), false),
            " AND "@,
        ) + " AND "@ + fts_term(terms.last(), starred),
{
    let all = quoted_terms(terms, starred);
    assert(all.drop_last() =~= quoted_terms(terms.drop_last(), false));
    assert(all.last() == fts_term(terms.last(), starred));
}

/// A term in quotes adds two pieces to the text before it.
proof fn lemma_split_term(
    before: Seq<char>,
    term: Seq<char>,
    starred: bool,
    rest: Seq<char>,
)
    requires
        is_quotable(term),
        !rest.contains('"'),
    ensures
        split_at(before + fts_term(term, starred) + rest, '"') == split_at(before, '"') + seq![
            term,
            fts_end(starred, rest),
        ],
{
    reveal_strlit("\"");
    reveal_strlit("\" *");
    reveal_strlit(" *");
    let end = fts_end(starred, rest);
    let tail = term + seq!['"'] + end;
    assert(before + fts_term(term, starred) + rest =~= before + seq!['"'] + tail);
    assert(!end.contains('"')) by {
        assert forall|i: int| 0 <= i < end.len() implies end[i] != '"' by {
            if starred && i >= 2 {
                assert(end[i] == rest[i - 2]);
            }
        }
    }
    lemma_split_parts(before, '"', tail);
    lemma_split_parts(term, '"', end);
    lemma_split_one(term, '"');
    lemma_split_one(end, '"');
    assert(seq![term] + seq![end] =~= seq![term, end]);
}

/// The pieces of a text with terms in quotes in it.
proof fn lemma_split_terms(
    first: Seq<char>,
    terms: Seq<Seq<char>>,
    starred: bool,
    rest: Seq<char>,
)
    requires
        terms.len() > 0,
        are_quotable(terms),
        !first.contains('"'),
        !rest.contains('"'),
    ensures
        split_at(first + joined(quoted_terms(terms, starred), " AND "@) + rest, '"')
            == fts_pieces(first, terms, fts_end(starred, rest)),
    decreases terms.len(),
{
    let n = terms.len() as int;
    let term = terms.last();
    assert(is_quotable(terms[n - 1]));
    let body = joined(quoted_terms(terms, starred), " AND "@);
    let end = fts_end(starred, rest);
    if n == 1 {
        assert(body =~= fts_term(term, starred));
        lemma_split_term(first, term, starred, rest);
        lemma_split_one(first, '"');
        assert(fts_pieces(first, terms, end) =~= seq![first] + seq![term, end]);
    } else {
        let init = terms.drop_last();
        let before = first + joined(quoted_terms(init, false), " AND "@) + " AND "@;
        assert(are_quotable(init)) by {
            assert forall|k: int| 0 <= k < init.len() implies is_quotable(#[trigger] init[k]) by {
                assert(is_quotable(terms[k]));
            }
        }
        assert(!" AND "@.contains('"')) by {
            reveal_strlit(" AND ");
        }
        lemma_joined_last(terms, starred);
        lemma_split_terms(first, init, false, " AND "@);
        lemma_split_term(before, term, starred, rest);
        assert(first + body + rest =~= before + fts_term(term, starred) + rest);
        assert(fts_pieces(first, terms, end) =~= fts_pieces(first, init, " AND "@) + seq![
            term,
            end,
        ]);
    }
}

/// One term in quotes has a star exactly if it is a prefix.
proof fn lemma_stars_of_term(term: Seq<char>, starred: bool)
    requires
        is_quotable(term),
    ensures
        count_of(fts_term(term, starred), '*') == (if starred {
            1nat
        } else {
            0
        }),
{
    reveal_strlit("\"");
    reveal_strlit("\" *");
    let open = "\""@;
    let close = if starred {
        "\" *"@
    } else {
        "\""@
    };
    lemma_count_parts(open + term, close, '*');
    lemma_count_parts(open, term, '*');
    lemma_count_none(term, '*');
    lemma_count_none(open, '*');
    if starred {
        assert(close =~= "\""@ + seq![' ', '*']);
        assert(close.drop_last() =~= seq!['"', ' ']);
        lemma_count_none(close.drop_last(), '*');
    } else {
        lemma_count_none(close, '*');
    }
}

/// Terms in quotes have a star exactly if the last one is a prefix.
proof fn lemma_stars_of_terms(terms: Seq<Seq<char>>, starred: bool)
    requires
        terms.len() > 0,
        are_quotable(terms),
    ensures
        count_of(joined(quoted_terms(terms, starred), " AND "@), '*') == (if starred {
            1nat
        } else {
            0
        }),
    decreases terms.len(),
{
    let term = terms.last();
    assert(is_quotable(terms[terms.len() - 1]));
    lemma_stars_of_term(term, starred);
    if terms.len() == 1 {
        assert(joined(quoted_terms(terms, starred), " AND "@) =~= fts_term(term, starred));
    } else {
        let init = terms.drop_last();
        assert forall|k: int| 0 <= k < init.len() implies is_quotable(#[trigger] init[k]) by {
            assert(is_quotable(terms[k]));
        }
        let before = joined(quoted_terms(init, false), " AND "@);
        assert(!" AND "@.contains('*')) by {
            reveal_strlit(" AND ");
        }
        lemma_joined_last(terms, starred);
        lemma_stars_of_terms(init, false);
        lemma_count_parts(before + " AND "@, fts_term(term, starred), '*');
        lemma_count_parts(before, " AND "@, '*');
        lemma_count_none(" AND "@, '*');
    }
}

/// No quotes and no stars are written before the terms.
proof fn lemma_scope_quotable(repo_id: i64, name_only: bool)
    ensures
        is_quotable(fts_scope(repo_id, name_only)),
{
    reveal_strlit("repo : ");
    reveal_strlit(" AND ");
    reveal_strlit("identity");
    reveal_strlit("{identity keywords body}");
    reveal_strlit(" : (");
    lemma_decimal_digits(repo_id as nat);
    let scope = fts_scope(repo_id, name_only);
    assert forall|i: int| 0 <= i < scope.len() implies scope[i] != '"' && scope[i] != '*' by {
    }
}

/// A full-text query quotes its terms: of terms that hold no quotes themselves, it holds
/// two quotes each. The pieces between the quotes are by turns what is fixed and one of the
/// terms: all of them, in order, those that are repeated too, and nothing of them anywhere
/// else. A star follows the last term if that is long enough, and no other.
pub proof fn law_terms_are_quoted(terms: Seq<Seq<char>>, repo_id: i64, name_only: bool)
    requires
        terms.len() > 0,
        are_quotable(terms),
    ensures
        ({
            let query = fts_of_terms(terms, repo_id, name_only);
            let pieces = split_at(query, '"');
            let starred = terms.last().len() >= PREFIX_MIN_LEN;
            &&& count_of(query, '"') == 2 * terms.len()
            &&& pieces.len() == 2 * terms.len() + 1
            &&& forall|k: int| 0 <= k < terms.len() ==> pieces[2 * k + 1] == #[trigger] terms[k]
            &&& forall|k: int|
                0 < k < terms.len() ==> #[trigger] pieces[2 * k] == " AND "@
            &&& pieces.first() == fts_scope(repo_id, name_only)
            &&& pieces.last() == fts_end(starred, ")"@)
            &&& count_of(query, '*') == (if starred {
                1nat
            } else {
                0
            })
        }),
{
    let query = fts_of_terms(terms, repo_id, name_only);
    let scope = fts_scope(repo_id, name_only);
    let starred = terms.last().len() >= PREFIX_MIN_LEN;
    let body = joined(quoted_terms(terms, starred), " AND "@);
    assert(fts_quoted(terms) =~= quoted_terms(terms, starred));
    assert(is_quotable(")"@)) by {
        reveal_strlit(")");
    }
    lemma_scope_quotable(repo_id, name_only);
    lemma_split_terms(scope, terms, starred, ")"@);
    lemma_split_length(query, '"');
    lemma_stars_of_terms(terms, starred);
    lemma_count_parts(scope + body, ")"@, '*');
    lemma_count_parts(scope, body, '*');
    lemma_count_none(scope, '*');
    lemma_count_none(")"@, '*');
}

/// Terms in quotes are pieces with quotes between them.
proof fn lemma_joined_pieces(
    first: Seq<char>,
    terms: Seq<Seq<char>>,
    starred: bool,
    rest: Seq<char>,
)
    requires
        terms.len() > 0,
    ensures
        first + joined(quoted_terms(terms, starred), " AND "@) + rest == joined(
            fts_pieces(first, terms, fts_end(starred, rest)),
            "\""@,
        ),
    decreases terms.len(),
{
    reveal_strlit("\"");
    reveal_strlit("\" *");
    reveal_strlit(" *");
    let term = terms.last();
    let end = fts_end(starred, rest);
    let all = fts_pieces(first, terms, end);
    let front = all.drop_last().drop_last();
    let body = joined(quoted_terms(terms, starred), " AND "@);
    let before = joined(front, "\""@);
    assert(all.last() == end);
    assert(all.drop_last().last() == term);
    assert(joined(all, "\""@) == joined(all.drop_last(), "\""@) + "\""@ + end);
    assert(joined(all.drop_last(), "\""@) == before + "\""@ + term);
    assert(before + "\""@ + term + "\""@ + end =~= before + fts_term(term, starred) + rest);
    if terms.len() == 1 {
        assert(body =~= fts_term(term, starred));
        assert(before == first);
    } else {
        let init = terms.drop_last();
        lemma_joined_last(terms, starred);
        lemma_joined_pieces(first, init, false, " AND "@);
        assert(front =~= fts_pieces(first, init, " AND "@));
        assert(first + body + rest =~= before + fts_term(term, starred) + rest);
    }
}

/// The full-text query of a text is pieces with quotes between them, whatever the text
/// holds: by turns what is fixed and one of its words in lower case, all of them, in order,
/// those that are repeated too. So nothing of the text stands elsewhere. These pieces are
/// also those that the quotes of the query split it into, with two quotes for each word and
/// a star after a long last one alone, unless lower-casing brought in a quote or a star.
pub proof fn law_query_is_quoted(query: Seq<char>, repo_id: i64, name_only: bool)
    requires
        has_word_char(query),
    ensures
        ({
            let text = fts_query(query, repo_id, name_only);
            let terms = words(query).map_values(|w: Seq<char>| lower_text(w));
            let starred = terms.last().len() >= PREFIX_MIN_LEN;
            let pieces = fts_pieces(fts_scope(repo_id, name_only), terms, fts_end(starred, ")"@));
            &&& terms.len() > 0
            &&& text == joined(pieces, "\""@)
            &&& are_quotable(terms) ==> {
                &&& split_at(text, '"') == pieces
                &&& count_of(text, '"') == 2 * terms.len()
                &&& count_of(text, '*') == (if starred {
                    1nat
                } else {
                    0
                })
            }
        }),
{
    let terms = fts_terms(query);
    let scope = fts_scope(repo_id, name_only);
    let starred = terms.last().len() >= PREFIX_MIN_LEN;
    lemma_words_nonempty(query);
    assert(fts_quoted(terms) =~= quoted_terms(terms, starred));
    lemma_joined_pieces(scope, terms, starred, ")"@);
    if are_quotable(terms) {
        law_terms_are_quoted(terms, repo_id, name_only);
        lemma_scope_quotable(repo_id, name_only);
        assert(!")"@.contains('"')) by {
            reveal_strlit(")");
        }
        lemma_split_terms(scope, terms, starred, ")"@);
    }
}

/// The full-text query of an ASCII text quotes its terms, whatever the text holds: between
/// the quotes stand its words in lower case, and nothing of the text stands elsewhere.
pub proof fn law_ascii_query_is_quoted(query: Seq<char>, repo_id: i64, name_only: bool)
    requires
        is_ascii_text(query),
        has_word_char(query),
    ensures
        split_at(fts_query(query, repo_id, name_only), '"') == fts_pieces(
            fts_scope(repo_id, name_only),
            words(query).map_values(|w: Seq<char>| lower_text(w)),
            fts_end(words(query).last().len() >= PREFIX_MIN_LEN, ")"@),
        ),
        count_of(fts_query(query, repo_id, name_only), '"') == 2 * words(query).len(),
        count_of(fts_query(query, repo_id, name_only), '*') == (if words(query).last().len()
            >= PREFIX_MIN_LEN {
            1nat
        } else {
            0
        }),
{
    let terms = fts_terms(query);
    lemma_words_nonempty(query);
    law_ascii_terms_stay_quoted(query);
    assert forall|k: int| 0 <= k < terms.len() implies is_quotable(#[trigger] terms[k]) by {
        assert forall|i: int| 0 <= i < terms[k].len() implies terms[k][i] != '"' && terms[k][i]
            != '*' by {
            let c = fts_terms(query)[k][i];
        }
    }
    let w = words(query).last();
    assert(is_ascii_text(w)) by {
        assert forall|j: int| 0 <= j < w.len() implies is_ascii_char(#[trigger] w[j]) by {
            lemma_words_chars(query, words(query).len() - 1, j);
        }
    }
    assert(terms.last().len() == w.len());
    law_query_is_quoted(query, repo_id, name_only);
}

/// The normalised form of a text is made of those of its parts.
pub proof fn law_normalized_by_parts(a: Seq<char>, b: Seq<char>)
    ensures
        normalized(a + b) == normalized(a) + normalized(b),
    decreases b.len(),
{
    if b.len() == 0 {
        assert(a + b =~= a);
        assert(normalized(a) + normalized(b) =~= normalized(a));
    } else {
        assert((a + b).drop_last() =~= a + b.drop_last());
        assert((a + b).last() == b.last());
        law_normalized_by_parts(a, b.drop_last());
        assert(normalized(a + b) =~= normalized(a) + normalized(b));
    }
}

/// Separators leave no trace in a normalised name: with a dash, an underscore or no
/// separator at all it is the same.
pub proof fn law_normalized_without_separators(a: Seq<char>, c: char, b: Seq<char>)
    requires
        !is_word_char(c),
    ensures
        normalized(a + seq![c] + b) == normalized(a + b),
{
    law_normalized_by_parts(a + seq![c], b);
    law_normalized_by_parts(a, seq![c]);
    law_normalized_by_parts(a, b);
    reveal_with_fuel(normalized, 2);
    assert(seq![c].drop_last() =~= seq![]);
    assert(normalized(seq![c]) =~= seq![]);
    assert(normalized(a) + normalized(seq![c]) =~= normalized(a));
}

/// Variants of a name with a dash, an underscore and neither normalise alike.
pub proof fn law_normalized_variants(a: Seq<char>, b: Seq<char>)
    ensures
        normalized(a + seq!['-'] + b) == normalized(a + b),
        normalized(a + seq!['_'] + b) == normalized(a + b),
{
    law_normalized_without_separators(a, '-', b);
    law_normalized_without_separators(a, '_', b);
}

/// Names that differ in case alone normalise alike: in every place both hold the same
/// separator, or characters with the same lower case.
pub proof fn law_normalized_without_case(a: Seq<char>, b: Seq<char>)
    requires
        a.len() == b.len(),
        forall|i: int|
            0 <= i < a.len() ==> #[trigger] a[i] == b[i] || (is_word_char(a[i])
                && is_word_char(b[i]) && lower_char(a[i]) == lower_char(b[i])),
    ensures
        normalized(a) == normalized(b),
    decreases a.len(),
{
    if a.len() > 0 {
        let n = a.len() - 1;
        assert(a[n] == b[n] || lower_char(a[n]) == lower_char(b[n]));
        assert forall|i: int| 0 <= i < a.drop_last().len() implies #[trigger] a.drop_last()[i]
            == b.drop_last()[i] || (is_word_char(a.drop_last()[i]) && is_word_char(
            b.drop_last()[i],
        ) && lower_char(a.drop_last()[i]) == lower_char(b.drop_last()[i])) by {
            assert(a[i] == b[i] || lower_char(a[i]) == lower_char(b[i]));
        }
        law_normalized_without_case(a.drop_last(), b.drop_last());
    }
}

/// Normalising an ASCII name again changes nothing.
pub proof fn law_ascii_normalized_once(s: Seq<char>)
    requires
        is_ascii_text(s),
    ensures
        is_ascii_text(normalized(s)),
        normalized(normalized(s)) == normalized(s),
    decreases s.len(),
{
    if s.len() > 0 {
        assert(is_ascii_text(s.drop_last()));
        law_ascii_normalized_once(s.drop_last());
        let c = s.last();
        assert(is_ascii_char(s[s.len() - 1]));
        if is_word_char(c) {
            let l = ascii_lower(c);
            assert(is_ascii_char(l) && is_word_char(l) && ascii_lower(l) == l);
            assert(lower_char(c) == seq![l]);
            law_normalized_by_parts(normalized(s.drop_last()), seq![l]);
            reveal_with_fuel(normalized, 2);
            assert(seq![l].drop_last() =~= seq![]);
            assert(normalized(seq![l]) =~= seq![l]);
        }
    }
}

} // verus!
