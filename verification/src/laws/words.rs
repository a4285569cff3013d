//! Laws on texts, words, and what is searched for.

use vstd::prelude::*;

use crate::manager::fts::law_separator_splits_words;
use crate::text::{
    chars_of, decimal, is_blank, is_word_char, join, joined, law_trimmed, lemma_decimal_digits,
    lemma_word_length, lower_char, lower_text, push_decimal, replace, replaced, split_words,
    string_of, texts, trim, trim_leading, unicode_alphanumeric, unicode_lowercase, unicode_lowercase_text,
    unicode_whitespace, without_leading, word_length, words,
};

verus! {

// ---------------------------------------------------------------------------
// Characters
// ---------------------------------------------------------------------------

/// In ASCII the digits and the letters make words, and tab to carriage return and the blank
/// are white space; beyond it the Unicode properties decide.
pub proof fn law_character_classes(c: char)
    ensures
        (c as u32) < 128 ==> (is_word_char(c) <==> 48 <= c as u32 <= 57 || 65 <= c as u32 <= 90
            || 97 <= c as u32 <= 122),
        (c as u32) >= 128 ==> is_word_char(c) == unicode_alphanumeric(c),
        (c as u32) < 128 ==> (is_blank(c) <==> 9 <= c as u32 <= 13 || c as u32 == 32),
        (c as u32) >= 128 ==> is_blank(c) == unicode_whitespace(c),
{
}

/// In ASCII the lower case of a capital is the letter 32 places on, and every other
/// character is kept; beyond it the Unicode mapping decides.
pub proof fn law_lower_case_of_a_character(c: char)
    ensures
        (c as u32) < 128 ==> lower_char(c).len() == 1,
        65 <= c as u32 <= 90 ==> lower_char(c)[0] as u32 == c as u32 + 32,
        (c as u32) < 65 || 90 < c as u32 && (c as u32) < 128 ==> lower_char(c)[0] == c,
        (c as u32) >= 128 ==> lower_char(c) == unicode_lowercase(c),
{
}

/// A text of ASCII characters is put in lower case character by character; of any other
/// text, the Unicode rules decide.
pub proof fn law_lower_case_of_a_text(s: Seq<char>)
    ensures
        (forall|i: int| 0 <= i < s.len() ==> (#[trigger] s[i] as u32) < 128) ==> {
            &&& lower_text(s).len() == s.len()
            &&& forall|i: int|
                0 <= i < s.len() ==> lower_char(s[i]) == seq![#[trigger] lower_text(s)[i]]
        },
        (exists|i: int| 0 <= i < s.len() && (#[trigger] s[i] as u32) >= 128) ==> lower_text(s)
            == unicode_lowercase_text(s),
{
}

/// A text is made of its characters, and a part of them makes the text from the one position
/// up to the other.
pub proof fn law_characters_of_a_text(
    s: &str,
    v: Vec<char>,
    chars: &Vec<char>,
    from: usize,
    to: usize,
    r: String,
)
    requires
        from <= to <= chars@.len(),
        call_ensures(chars_of, (s,), v),
        call_ensures(string_of, (chars, from, to), r),
    ensures
        v@ == s@,
        r@.len() == to - from,
        forall|i: int| 0 <= i < r@.len() ==> #[trigger] r@[i] == chars@[from + i],
{
}

// ---------------------------------------------------------------------------
// Trimming and replacing
// ---------------------------------------------------------------------------

/// Trimming cuts off the white space at either end, all of it, and nothing else.
pub proof fn law_trim(s: &str, r: String)
    requires
        call_ensures(trim, (s,), r),
    ensures
        exists|i: int, j: int|
            #![trigger s@.subrange(i, j)]
            {
                &&& 0 <= i <= j <= s@.len()
                &&& r@ == s@.subrange(i, j)
                &&& forall|k: int| 0 <= k < i || j <= k < s@.len() ==> is_blank(#[trigger] s@[k])
                &&& i < j ==> !is_blank(s@[i]) && !is_blank(s@[j - 1])
            },
{
    law_trimmed(s@);
}

/// What stands before the first other character, counted.
proof fn lemma_leading(s: Seq<char>, c: char) -> (n: int)
    ensures
        0 <= n <= s.len(),
        without_leading(s, c) == s.skip(n),
        forall|k: int| 0 <= k < n ==> #[trigger] s[k] == c,
        n < s.len() ==> s[n] != c,
    decreases s.len(),
{
    if s.len() > 0 && s[0] == c {
        let m = lemma_leading(s.skip(1), c);
        assert(s.skip(1).skip(m) =~= s.skip(m + 1));
        assert forall|k: int| 0 <= k < m + 1 implies #[trigger] s[k] == c by {
            if k > 0 {
                assert(s[k] == s.skip(1)[k - 1]);
            }
        }
        m + 1
    } else {
        assert(s.skip(0) =~= s);
        0
    }
}

/// The characters cut off in front are the one asked for, all of them, and nothing else is
/// cut off.
pub proof fn law_trim_leading(s: &str, c: char, r: String)
    requires
        call_ensures(trim_leading, (s, c), r),
    ensures
        exists|n: int|
            #![trigger s@.skip(n)]
            {
                &&& 0 <= n <= s@.len()
                &&& r@ == s@.skip(n)
                &&& forall|k: int| 0 <= k < n ==> #[trigger] s@[k] == c
                &&& n < s@.len() ==> s@[n] != c
            },
{
    let n = lemma_leading(s@, c);
    assert(r@ == s@.skip(n));
}

/// Whether `pattern` stands in `s` from position `at`.
pub open spec fn occurs_at(s: Seq<char>, pattern: Seq<char>, at: int) -> bool {
    0 <= at && at + pattern.len() <= s.len() && s.subrange(at, at + pattern.len()) == pattern
}

/// What stands at the start of a text, in other words.
proof fn lemma_prefix(s: Seq<char>, pattern: Seq<char>)
    ensures
        pattern.is_prefix_of(s) <==> occurs_at(s, pattern, 0),
{
}

/// Occurrences further on, seen from the next character.
proof fn lemma_occurs_later(s: Seq<char>, pattern: Seq<char>, at: int)
    requires
        s.len() > 0,
        at >= 1,
    ensures
        occurs_at(s, pattern, at) <==> occurs_at(s.skip(1), pattern, at - 1),
{
    if at + pattern.len() <= s.len() {
        assert(s.subrange(at, at + pattern.len()) =~= s.skip(1).subrange(
            at - 1,
            at - 1 + pattern.len(),
        ));
    }
}

/// A text without the pattern is kept.
proof fn lemma_replaced_nothing(s: Seq<char>, pattern: Seq<char>, with: Seq<char>)
    requires
        forall|at: int| !occurs_at(s, pattern, at),
    ensures
        replaced(s, pattern, with) == s,
    decreases s.len(),
{
    if pattern.len() > 0 && s.len() >= pattern.len() {
        lemma_prefix(s, pattern);
        assert(!occurs_at(s, pattern, 0));
        assert forall|at: int| !occurs_at(s.skip(1), pattern, at) by {
            if at >= 0 {
                lemma_occurs_later(s, pattern, at + 1);
            }
        }
        lemma_replaced_nothing(s.skip(1), pattern, with);
        assert(seq![s[0]] + s.skip(1) =~= s);
    }
}

/// What stands before the first occurrence is kept, and the search goes on behind it.
proof fn lemma_replaced_first(s: Seq<char>, pattern: Seq<char>, with: Seq<char>, at: int)
    requires
        pattern.len() > 0,
        occurs_at(s, pattern, at),
        forall|k: int| 0 <= k < at ==> !occurs_at(s, pattern, k),
    ensures
        replaced(s, pattern, with) == s.take(at) + with + replaced(
            s.skip(at + pattern.len()),
            pattern,
            with,
        ),
    decreases s.len(),
{
    lemma_prefix(s, pattern);
    let rest = s.skip(at + pattern.len());
    if at == 0 {
        assert(s.take(0) + with =~= with);
    } else {
        assert(!occurs_at(s, pattern, 0));
        lemma_occurs_later(s, pattern, at);
        assert forall|k: int| 0 <= k < at - 1 implies !occurs_at(s.skip(1), pattern, k) by {
            lemma_occurs_later(s, pattern, k + 1);
        }
        lemma_replaced_first(s.skip(1), pattern, with, at - 1);
        assert(s.skip(1).skip(at - 1 + pattern.len()) =~= rest);
        assert(seq![s[0]] + s.skip(1).take(at - 1) =~= s.take(at));
        assert(replaced(s, pattern, with) =~= s.take(at) + with + replaced(rest, pattern, with));
    }
}

/// A text that does not hold the pattern is kept as it is.
pub proof fn law_replace_keeps_the_rest(s: &str, pattern: &str, with: &str, r: String)
    requires
        call_ensures(replace, (s, pattern, with), r),
        forall|at: int| !occurs_at(s@, pattern@, at),
    ensures
        r@ == s@,
{
    lemma_replaced_nothing(s@, pattern@, with@);
}

/// The first occurrence of the pattern gives way to the new text; what stands before it is
/// kept, and what stands behind it is replaced as if it stood alone.
pub proof fn law_replace_from_the_left(
    s: &str,
    pattern: &str,
    with: &str,
    at: int,
    rest: &str,
    r: String,
    replaced_rest: String,
)
    requires
        pattern@.len() > 0,
        occurs_at(s@, pattern@, at),
        forall|k: int| 0 <= k < at ==> !occurs_at(s@, pattern@, k),
        rest@ == s@.skip(at + pattern@.len()),
        call_ensures(replace, (s, pattern, with), r),
        call_ensures(replace, (rest, pattern, with), replaced_rest),
    ensures
        r@ == s@.take(at) + with@ + replaced_rest@,
{
    lemma_replaced_first(s@, pattern@, with@, at);
}

// ---------------------------------------------------------------------------
// Words
// ---------------------------------------------------------------------------

/// A text of letters and digits alone, with one of them at least.
pub open spec fn is_word(s: Seq<char>) -> bool {
    s.len() > 0 && forall|i: int| 0 <= i < s.len() ==> is_word_char(#[trigger] s[i])
}

/// The letters and digits of a text, in order.
pub open spec fn letters_and_digits(s: Seq<char>) -> Seq<char> {
    s.filter(|c: char| is_word_char(c))
}

/// The letters and digits of a text are those of its parts.
proof fn lemma_letters_of_parts(a: Seq<char>, b: Seq<char>)
    ensures
        letters_and_digits(a + b) == letters_and_digits(a) + letters_and_digits(b),
{
    Seq::filter_distributes_over_add(a, b, |c: char| is_word_char(c));
}

/// A text of letters and digits alone has nothing else to leave out.
proof fn lemma_letters_alone(s: Seq<char>)
    requires
        forall|i: int| 0 <= i < s.len() ==> is_word_char(#[trigger] s[i]),
    ensures
        letters_and_digits(s) == s,
    decreases s.len(),
{
    reveal(Seq::filter);
    if s.len() > 0 {
        assert(is_word_char(s[s.len() - 1]));
        assert forall|i: int| 0 <= i < s.drop_last().len() implies is_word_char(
            #[trigger] s.drop_last()[i],
        ) by {
            assert(is_word_char(s[i]));
        }
        lemma_letters_alone(s.drop_last());
        assert(s.drop_last().push(s.last()) =~= s);
    }
}

/// A separator is no letter and no digit.
proof fn lemma_no_letter(c: char)
    requires
        !is_word_char(c),
    ensures
        letters_and_digits(seq![c]) == Seq::<char>::empty(),
{
    reveal_with_fuel(Seq::filter, 2);
    assert(seq![c].drop_last() =~= Seq::<char>::empty());
}

/// The words of a text hold its letters and digits, and no word is empty.
proof fn lemma_words_hold_all(s: Seq<char>)
    ensures
        words(s).flatten() == letters_and_digits(s),
        forall|k: int| 0 <= k < words(s).len() ==> is_word(#[trigger] words(s)[k]),
    decreases s.len(),
{
    reveal(Seq::filter);
    lemma_word_length(s);
    if s.len() == 0 {
        assert(letters_and_digits(s) =~= Seq::<char>::empty());
    } else if word_length(s) == 0 {
        lemma_words_hold_all(s.skip(1));
        lemma_no_letter(s[0]);
        lemma_letters_of_parts(seq![s[0]], s.skip(1));
        assert(seq![s[0]] + s.skip(1) =~= s);
        assert(letters_and_digits(s) =~= letters_and_digits(s.skip(1)));
    } else {
        let n = word_length(s) as int;
        lemma_words_hold_all(s.skip(n));
        lemma_letters_alone(s.take(n));
        lemma_letters_of_parts(s.take(n), s.skip(n));
        assert(s.take(n) + s.skip(n) =~= s);
        assert(words(s).drop_first() =~= words(s.skip(n)));
        assert(words(s).first() =~= s.take(n));
        assert(is_word(s.take(n)));
        assert forall|k: int| 0 <= k < words(s).len() implies is_word(#[trigger] words(s)[k]) by {
            if k > 0 {
                assert(words(s)[k] == words(s.skip(n))[k - 1]);
            }
        }
    }
}

/// The letters and digits that a text of them alone starts with are all of it.
proof fn lemma_word_is_whole(s: Seq<char>)
    requires
        is_word(s),
    ensures
        words(s) == seq![s],
{
    lemma_word_length(s);
    assert(word_length(s) == s.len()) by {
        if word_length(s) < s.len() {
            assert(is_word_char(s[word_length(s) as int]));
        }
    }
    assert(s.take(s.len() as int) =~= s);
    assert(s.skip(s.len() as int) =~= Seq::<char>::empty());
    assert(words(s.skip(s.len() as int)) =~= Seq::<Seq<char>>::empty());
    assert(words(s) =~= seq![s]);
}

/// The words of a text, put one after the other, are its letters and digits in order: none
/// is lost, none is added. No word is empty, and each is made of letters and digits alone.
pub proof fn law_words_hold_every_letter(s: &str, r: Vec<String>)
    requires
        call_ensures(split_words, (s,), r),
    ensures
        Seq::new(r@.len(), |k: int| r@[k]@).flatten() == s@.filter(|c: char| is_word_char(c)),
        forall|k: int| 0 <= k < r@.len() ==> is_word((#[trigger] r@[k])@),
{
    lemma_words_hold_all(s@);
    assert(Seq::new(r@.len(), |k: int| r@[k]@) =~= words(s@));
    assert forall|k: int| 0 <= k < r@.len() implies is_word((#[trigger] r@[k])@) by {
        assert(texts(r@)[k] == r@[k]@);
        assert(is_word(words(s@)[k]));
    }
}

/// A text of letters and digits alone is one word, whatever its length.
pub proof fn law_a_word_is_kept_whole(s: &str, r: Vec<String>)
    requires
        call_ensures(split_words, (s,), r),
        is_word(s@),
    ensures
        r@.len() == 1,
        r@[0]@ == s@,
{
    lemma_word_is_whole(s@);
    assert(texts(r@)[0] == r@[0]@);
}

/// Words end at whatever is no letter and no digit, and nowhere else: a text with such a
/// character in it has the words of what stands before it, and then those of what follows.
pub proof fn law_words_end_at_separators(
    a: &str,
    c: char,
    b: &str,
    s: &str,
    before: Vec<String>,
    after: Vec<String>,
    r: Vec<String>,
)
    requires
        !is_word_char(c),
        s@ == a@ + seq![c] + b@,
        call_ensures(split_words, (a,), before),
        call_ensures(split_words, (b,), after),
        call_ensures(split_words, (s,), r),
    ensures
        r@.len() == before@.len() + after@.len(),
        forall|k: int| 0 <= k < before@.len() ==> (#[trigger] r@[k])@ == before@[k]@,
        forall|k: int|
            0 <= k < after@.len() ==> r@[before@.len() + k]@ == (#[trigger] after@[k])@,
{
    law_separator_splits_words(a@, c, b@);
    assert(texts(r@).len() == texts(before@).len() + texts(after@).len());
    assert forall|k: int| 0 <= k < before@.len() implies (#[trigger] r@[k])@ == before@[k]@ by {
        assert(texts(r@)[k] == texts(before@)[k]);
    }
    assert forall|k: int| 0 <= k < after@.len() implies r@[before@.len() + k]@ == (
    #[trigger] after@[k])@ by {
        assert(texts(r@)[before@.len() + k] == texts(after@)[k]);
    }
}

// ---------------------------------------------------------------------------
// Joining, and numbers
// ---------------------------------------------------------------------------

/// Joined texts are those of the first part, the separator, and those of the second.
pub(crate) proof fn lemma_joined_parts(a: Seq<Seq<char>>, b: Seq<Seq<char>>, sep: Seq<char>)
    requires
        a.len() > 0,
        b.len() > 0,
    ensures
        joined(a + b, sep) == joined(a, sep) + sep + joined(b, sep),
    decreases b.len(),
{
    let all = a + b;
    assert(all.drop_last() =~= a + b.drop_last());
    assert(all.last() == b.last());
    if b.len() == 1 {
        assert(all.drop_last() =~= a);
        assert(joined(b, sep) == b.last());
    } else {
        lemma_joined_parts(a, b.drop_last(), sep);
        assert(joined(all, sep) =~= joined(a, sep) + sep + joined(b, sep));
    }
}

/// Nothing is joined to nothing, and one text to itself.
pub proof fn law_join_of_few(parts: &Vec<String>, sep: &str, r: String)
    requires
        call_ensures(join, (parts, sep), r),
    ensures
        parts@.len() == 0 ==> r@ == Seq::<char>::empty(),
        parts@.len() == 1 ==> r@ == parts@[0]@,
{
    if parts@.len() == 1 {
        assert(texts(parts@).last() == parts@[0]@);
    }
}

/// Texts are joined in order, with the separator between each two.
pub proof fn law_join_by_parts(
    a: &Vec<String>,
    b: &Vec<String>,
    all: &Vec<String>,
    sep: &str,
    first: String,
    second: String,
    r: String,
)
    requires
        a@.len() > 0,
        b@.len() > 0,
        all@ == a@ + b@,
        call_ensures(join, (a, sep), first),
        call_ensures(join, (b, sep), second),
        call_ensures(join, (all, sep), r),
    ensures
        r@ == first@ + sep@ + second@,
{
    assert(texts(all@) =~= texts(a@) + texts(b@));
    lemma_joined_parts(texts(a@), texts(b@), sep@);
}

/// The number that digits stand for.
pub open spec fn number_of(digits: Seq<char>) -> int
    decreases digits.len(),
{
    if digits.len() == 0 {
        0
    } else {
        10 * number_of(digits.drop_last()) + (digits.last() as int - '0' as int)
    }
}

/// Whether a text is a number in decimal: digits alone, without a zero in front but for
/// zero itself, that stand for the number.
pub open spec fn writes_number(digits: Seq<char>, n: int) -> bool {
    &&& digits.len() > 0
    &&& forall|i: int| 0 <= i < digits.len() ==> '0' <= #[trigger] digits[i] <= '9'
    &&& digits.len() > 1 ==> digits[0] != '0'
    &&& number_of(digits) == n
}

/// A number is written in decimal.
pub(crate) proof fn lemma_decimal(n: nat)
    ensures
        writes_number(decimal(n), n as int),
    decreases n,
{
    lemma_decimal_digits(n);
    if n < 10 {
        assert(decimal(n).drop_last() =~= Seq::<char>::empty());
        assert(number_of(decimal(n).drop_last()) == 0);
    } else {
        lemma_decimal(n / 10);
        let tens = decimal(n / 10);
        assert(decimal(n).drop_last() =~= tens);
        assert(decimal(n)[0] == tens[0]);
        if tens.len() == 1 {
            assert(tens.drop_last() =~= Seq::<char>::empty());
            assert(number_of(tens) == tens[0] as int - '0' as int) by {
                assert(number_of(tens.drop_last()) == 0);
            }
        }
    }
}

/// A number is appended in decimal, and what stood there before is kept.
pub proof fn law_numbers_are_decimal(out: &mut String, n: u64)
    requires
        call_ensures(push_decimal, (out, n), ()),
    ensures
        exists|digits: Seq<char>|
            #[trigger] writes_number(digits, n as int) && final(out)@ == old(out)@ + digits,
{
    lemma_decimal(n as nat);
}

} // verus!
