//! Laws on full-text queries and normalised names.

use vstd::prelude::*;

use crate::laws::words::{
    is_word, law_a_word_is_kept_whole, lemma_decimal, lemma_joined_parts, writes_number,
};
use crate::manager::fts::{
    fts_quoted, fts_scope, fts_term, fts_terms, law_normalized_by_parts, norm_name, normalized,
    query_of_terms, to_fts_query,
};
use crate::text::{
    decimal, is_word_char, joined, lower_char, lower_text, split_words, texts,
};

verus! {

// ---------------------------------------------------------------------------
// Queries of terms
// ---------------------------------------------------------------------------

/// What a query of terms starts with where no repository is asked for.
pub open spec fn opening(name_only: bool) -> Seq<char> {
    if name_only {
        "identity : ("@
    } else {
        "{identity keywords body} : ("@
    }
}

/// The opening, from its parts.
proof fn lemma_opening(repo_id: i64, name_only: bool)
    requires
        repo_id <= 0,
    ensures
        fts_scope(repo_id, name_only) == opening(name_only),
        opening(true).len() == 12,
        opening(false).len() == 28,
{
    reveal_strlit("identity");
    reveal_strlit("{identity keywords body}");
    reveal_strlit(" : (");
    reveal_strlit("identity : (");
    reveal_strlit("{identity keywords body} : (");
    assert(fts_scope(repo_id, name_only) =~= opening(name_only));
}

/// Without terms there is no query.
pub proof fn law_no_terms_no_query(
    terms: &Vec<String>,
    repo_id: i64,
    name_only: bool,
    r: String,
)
    requires
        call_ensures(query_of_terms, (terms, repo_id, name_only), r),
    ensures
        r@.len() == 0 <==> terms@.len() == 0,
{
    reveal_strlit(")");
    assert(texts(terms@).len() == terms@.len());
}

/// One term stands in quotes, whole and as it is. It is a prefix, with a star, if it has
/// three characters or more.
pub proof fn law_one_term(terms: &Vec<String>, repo_id: i64, name_only: bool, r: String)
    requires
        call_ensures(query_of_terms, (terms, repo_id, name_only), r),
        terms@.len() == 1,
        repo_id <= 0,
    ensures
        r@ == opening(name_only) + "\""@ + terms@[0]@ + (if terms@[0]@.len() >= 3 {
            "\" *)"@
        } else {
            "\")"@
        }),
{
    reveal_strlit("\"");
    reveal_strlit("\" *");
    reveal_strlit("\" *)");
    reveal_strlit("\")");
    reveal_strlit(")");
    lemma_opening(repo_id, name_only);
    let all = texts(terms@);
    assert(all.len() == 1 && all[0] == terms@[0]@);
    assert(joined(fts_quoted(all), " AND "@) == fts_term(all[0], all[0].len() >= 3));
    assert(r@ =~= opening(name_only) + "\""@ + terms@[0]@ + (if terms@[0]@.len() >= 3 {
        "\" *)"@
    } else {
        "\")"@
    }));
}

/// The terms in quotes, without a star.
spec fn unstarred(terms: Seq<Seq<char>>) -> Seq<Seq<char>> {
    Seq::new(terms.len(), |i: int| fts_term(terms[i], false))
}

/// The star comes last.
proof fn lemma_star_comes_last(terms: Seq<Seq<char>>)
    requires
        terms.len() > 0,
    ensures
        joined(fts_quoted(terms), " AND "@) == joined(unstarred(terms), " AND "@) + (
        if terms.last().len() >= 3 {
            " *"@
        } else {
            Seq::<char>::empty()
        }),
{
    reveal_strlit("\"");
    reveal_strlit("\" *");
    reveal_strlit(" *");
    let t = terms.last();
    let star = if t.len() >= 3 {
        " *"@
    } else {
        Seq::<char>::empty()
    };
    assert(fts_quoted(terms).drop_last() =~= unstarred(terms).drop_last());
    assert(fts_quoted(terms).last() =~= unstarred(terms).last() + star);
    assert(joined(fts_quoted(terms), " AND "@) =~= joined(unstarred(terms), " AND "@) + star);
}

/// The terms of two lists in quotes.
proof fn lemma_quoted_parts(x: Seq<Seq<char>>, y: Seq<Seq<char>>)
    requires
        x.len() > 0,
        y.len() > 0,
    ensures
        joined(fts_quoted(x + y), " AND "@) == joined(unstarred(x), " AND "@) + " AND "@ + joined(
            fts_quoted(y),
            " AND "@,
        ),
{
    assert(fts_quoted(x + y) =~= unstarred(x) + fts_quoted(y));
    lemma_joined_parts(unstarred(x), fts_quoted(y), " AND "@);
}

/// Texts between the same beginning and end, put together.
proof fn lemma_between(
    o: Seq<char>,
    left: Seq<char>,
    tail: Seq<char>,
    mid: Seq<char>,
    right: Seq<char>,
    end: Seq<char>,
)
    ensures
        ({
            let first = o + (left + tail) + end;
            let second = o + right + end;
            o + (left + mid + right) + end == first.take(first.len() - tail.len() - end.len()) + mid
                + second.skip(o.len() as int)
        }),
{
    let first = o + (left + tail) + end;
    let second = o + right + end;
    assert(first.take(first.len() - tail.len() - end.len()) =~= o + left);
    assert(second.skip(o.len() as int) =~= right + end);
    assert(o + (left + mid + right) + end =~= (o + left) + mid + (right + end));
}

/// Terms are asked for together, in order: the query of two lists of terms is that of the
/// first, `AND`, and that of the second. The star, if there is one, stays with the last.
pub proof fn law_terms_are_asked_for_together(
    a: &Vec<String>,
    b: &Vec<String>,
    all: &Vec<String>,
    repo_id: i64,
    name_only: bool,
    first: String,
    second: String,
    r: String,
)
    requires
        a@.len() > 0,
        b@.len() > 0,
        all@ == a@ + b@,
        repo_id <= 0,
        call_ensures(query_of_terms, (a, repo_id, name_only), first),
        call_ensures(query_of_terms, (b, repo_id, name_only), second),
        call_ensures(query_of_terms, (all, repo_id, name_only), r),
    ensures
        r@ == first@.take(
            first@.len() - (if a@.last()@.len() >= 3 {
                3int
            } else {
                1
            }),
        ) + " AND "@ + second@.skip(opening(name_only).len() as int),
{
    reveal_strlit(")");
    reveal_strlit(" *");
    lemma_opening(repo_id, name_only);
    let x = texts(a@);
    let y = texts(b@);
    let tail = if x.last().len() >= 3 {
        " *"@
    } else {
        Seq::<char>::empty()
    };
    assert(x.last() == a@.last()@);
    assert(texts(all@) =~= x + y);
    lemma_quoted_parts(x, y);
    lemma_star_comes_last(x);
    lemma_between(
        opening(name_only),
        joined(unstarred(x), " AND "@),
        tail,
        " AND "@,
        joined(fts_quoted(y), " AND "@),
        ")"@,
    );
}

/// A positive repository ID, written in decimal, is asked for besides; any other plays no
/// part.
pub proof fn law_repository_is_asked_for(
    terms: &Vec<String>,
    repo_id: i64,
    none: i64,
    name_only: bool,
    r: String,
    anywhere: String,
)
    requires
        none <= 0,
        terms@.len() > 0,
        call_ensures(query_of_terms, (terms, repo_id, name_only), r),
        call_ensures(query_of_terms, (terms, none, name_only), anywhere),
    ensures
        repo_id <= 0 ==> r@ == anywhere@,
        repo_id > 0 ==> exists|digits: Seq<char>|
            #[trigger] writes_number(digits, repo_id as int) && r@ == "repo : "@ + digits
                + " AND "@ + anywhere@,
{
    assert(texts(terms@).len() > 0);
    if repo_id > 0 {
        let digits = decimal(repo_id as nat);
        lemma_decimal(repo_id as nat);
        assert(r@ =~= "repo : "@ + digits + " AND "@ + anywhere@);
    }
}

// ---------------------------------------------------------------------------
// Queries of texts
// ---------------------------------------------------------------------------

/// What is searched for is the words of a text, each in lower case: the query of a text is
/// that of these terms.
pub proof fn law_words_are_searched_for(
    query: &str,
    repo_id: i64,
    name_only: bool,
    found: Vec<String>,
    terms: &Vec<String>,
    of_terms: String,
    r: String,
)
    requires
        call_ensures(split_words, (query,), found),
        terms@.len() == found@.len(),
        forall|k: int| 0 <= k < terms@.len() ==> (#[trigger] terms@[k])@ == lower_text(found@[k]@),
        call_ensures(query_of_terms, (terms, repo_id, name_only), of_terms),
        call_ensures(to_fts_query, (query, repo_id, name_only), r),
    ensures
        r@ == of_terms@,
{
    assert(texts(terms@) =~= fts_terms(query@)) by {
        assert forall|k: int| 0 <= k < terms@.len() implies texts(terms@)[k] == fts_terms(
            query@,
        )[k] by {
            assert(texts(found@)[k] == found@[k]@);
            assert(terms@[k]@ == lower_text(found@[k]@));
        }
        assert(texts(found@).len() == found@.len());
    }
}

/// A search for one word is for the whole of it in lower case, whatever its length.
pub proof fn law_one_word_is_searched_for_whole(
    query: &str,
    repo_id: i64,
    name_only: bool,
    found: Vec<String>,
    r: String,
)
    requires
        is_word(query@),
        repo_id <= 0,
        call_ensures(split_words, (query,), found),
        call_ensures(to_fts_query, (query, repo_id, name_only), r),
    ensures
        r@ == opening(name_only) + "\""@ + lower_text(query@) + (if lower_text(query@).len() >= 3 {
            "\" *)"@
        } else {
            "\")"@
        }),
{
    reveal_strlit("\"");
    reveal_strlit("\" *");
    reveal_strlit("\" *)");
    reveal_strlit("\")");
    reveal_strlit(")");
    lemma_opening(repo_id, name_only);
    law_a_word_is_kept_whole(query, found);
    let term = lower_text(query@);
    let all = fts_terms(query@);
    assert(texts(found@)[0] == found@[0]@);
    assert(texts(found@).len() == 1);
    assert(all.len() == 1 && all[0] == term);
    assert(joined(fts_quoted(all), " AND "@) == fts_term(term, term.len() >= 3));
    assert(r@ =~= opening(name_only) + "\""@ + term + (if term.len() >= 3 {
        "\" *)"@
    } else {
        "\")"@
    }));
}

/// A text is searched for exactly if it holds a letter or a digit, and the same goes for
/// its normalised form.
pub proof fn law_nothing_to_search_for(
    query: &str,
    repo_id: i64,
    name_only: bool,
    r: String,
    name: String,
)
    requires
        call_ensures(to_fts_query, (query, repo_id, name_only), r),
        call_ensures(norm_name, (query,), name),
    ensures
        r@.len() > 0 <==> exists|i: int|
            0 <= i < query@.len() && is_word_char(#[trigger] query@[i]),
        r@.len() > 0 <==> name@.len() > 0,
{
}

// ---------------------------------------------------------------------------
// Normalised names
// ---------------------------------------------------------------------------

/// A letter or a digit is normalised to its lower case; anything else is left out.
pub proof fn law_normalised_character(s: &str, r: String)
    requires
        call_ensures(norm_name, (s,), r),
    ensures
        s@.len() == 0 ==> r@.len() == 0,
        s@.len() == 1 && is_word_char(s@[0]) ==> r@ == lower_char(s@[0]),
        s@.len() == 1 && !is_word_char(s@[0]) ==> r@.len() == 0,
{
    reveal_with_fuel(normalized, 2);
    if s@.len() == 1 && is_word_char(s@[0]) {
        assert(normalized(s@.drop_last()) =~= Seq::<char>::empty());
        assert(normalized(s@) =~= lower_char(s@[0]));
    }
}

/// A text is normalised by its parts: nothing moves, is lost or is added.
pub proof fn law_normalised_parts(
    a: &str,
    b: &str,
    all: &str,
    first: String,
    second: String,
    r: String,
)
    requires
        all@ == a@ + b@,
        call_ensures(norm_name, (a,), first),
        call_ensures(norm_name, (b,), second),
        call_ensures(norm_name, (all,), r),
    ensures
        r@ == first@ + second@,
{
    law_normalized_by_parts(a@, b@);
}

} // verus!
