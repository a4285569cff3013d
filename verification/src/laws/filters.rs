//! Laws on filters: how they are written, and how a listing is planned by them.

use vstd::prelude::*;

use crate::json::{escaped, escaped_char, facet_text, lemma_escaped_front, to_facet_json};
use crate::laws::words::lemma_joined_parts;
use crate::manager::plan::{has_plan, plan_with, rest_of, Drive, Plan};
use crate::models::{pairs_of, Facet};
use crate::text::joined;

verus! {

/// The filters as pairs of their kinds and values.
pub open spec fn asked(facets: Seq<Facet>) -> Seq<(Seq<char>, Seq<char>)> {
    Seq::new(facets.len(), |i: int| (facets[i].kind@, facets[i].value@))
}

/// The pairs of filters, one by one.
pub(crate) proof fn lemma_asked(facets: Seq<Facet>)
    ensures
        pairs_of(facets) == asked(facets),
{
    assert(pairs_of(facets) =~= asked(facets));
}

// ---------------------------------------------------------------------------
// How filters are written
// ---------------------------------------------------------------------------

/// What a hexadecimal digit stands for.
pub open spec fn hex_value(c: char) -> int {
    if '0' <= c <= '9' {
        c as int - '0' as int
    } else {
        c as int - 'a' as int + 10
    }
}

/// What the inside of a JSON string says.
pub open spec fn unescaped(s: Seq<char>) -> Seq<char>
    decreases s.len(),
{
    if s.len() == 0 {
        s
    } else if s[0] != '\\' || s.len() < 2 {
        seq![s[0]] + unescaped(s.skip(1))
    } else if s[1] == 'u' && s.len() >= 6 {
        seq![
            (4096 * hex_value(s[2]) + 256 * hex_value(s[3]) + 16 * hex_value(s[4]) + hex_value(
                s[5],
            )) as char,
        ] + unescaped(s.skip(6))
    } else {
        seq![
            if s[1] == 'b' {
                '\u{8}'
            } else if s[1] == 't' {
                '\u{9}'
            } else if s[1] == 'n' {
                '\u{a}'
            } else if s[1] == 'f' {
                '\u{c}'
            } else if s[1] == 'r' {
                '\u{d}'
            } else {
                s[1]
            },
        ] + unescaped(s.skip(2))
    }
}

/// An escaped character says that character.
proof fn lemma_unescaped_front(c: char, rest: Seq<char>)
    ensures
        unescaped(escaped_char(c) + rest) == seq![c] + unescaped(rest),
{
    let e = escaped_char(c);
    let all = e + rest;
    assert(all.skip(e.len() as int) =~= rest);
    assert(all[0] == e[0]);
    if e.len() > 1 {
        assert(all[1] == e[1]);
    }
    if e.len() == 6 {
        assert(all[2] == '0' && all[3] == '0' && all[4] == e[4] && all[5] == e[5]);
        let n = c as nat;
        assert(hex_value(e[4]) == n / 16);
        assert(hex_value(e[5]) == n % 16);
    }
}

/// A text is read back from the inside of its JSON string, whatever it holds; and one
/// without quotes, backslashes and control characters stands there as it is.
pub proof fn law_strings_are_read_back(s: Seq<char>)
    ensures
        unescaped(escaped(s)) == s,
        (forall|i: int|
            0 <= i < s.len() ==> #[trigger] s[i] != '"' && s[i] != '\\' && s[i] as u32 >= 32)
            ==> escaped(s) == s,
    decreases s.len(),
{
    if s.len() > 0 {
        let rest = s.skip(1);
        law_strings_are_read_back(rest);
        assert(seq![s[0]] + rest =~= s);
        lemma_escaped_front(s[0], rest);
        lemma_unescaped_front(s[0], escaped(rest));
        if forall|i: int|
            0 <= i < s.len() ==> #[trigger] s[i] != '"' && s[i] != '\\' && s[i] as u32 >= 32 {
            assert(s[0] != '"' && s[0] != '\\' && s[0] as u32 >= 32);
            assert forall|i: int| 0 <= i < rest.len() implies #[trigger] rest[i] != '"' && rest[i]
                != '\\' && rest[i] as u32 >= 32 by {
                assert(rest[i] == s[i + 1]);
            }
        }
    } else {
        assert(escaped(s) =~= s);
    }
}

/// No filters are an empty list; one is a list of one object, with its kind under `k` and
/// its value under `v`.
pub proof fn law_one_filter_is_written(facets: &Vec<Facet>, r: String)
    requires
        call_ensures(to_facet_json, (facets,), r),
    ensures
        facets@.len() == 0 ==> r@ == "[]"@,
        facets@.len() == 1 ==> r@ == "[{\"k\":\""@ + escaped(facets@[0].kind@) + "\",\"v\":\""@
            + escaped(facets@[0].value@) + "\"}]"@,
{
    reveal_strlit("[]");
    reveal_strlit("[");
    reveal_strlit("]");
    reveal_strlit("\"");
    reveal_strlit("}");
    reveal_strlit("{\"k\":");
    reveal_strlit(",\"v\":");
    reveal_strlit("[{\"k\":\"");
    reveal_strlit("\",\"v\":\"");
    reveal_strlit("\"}]");
    lemma_asked(facets@);
    let pairs = asked(facets@);
    let parts = pairs.map_values(|f: (Seq<char>, Seq<char>)| facet_text(f));
    if facets@.len() == 0 {
        assert(r@ =~= "[]"@);
    }
    if facets@.len() == 1 {
        let k = escaped(facets@[0].kind@);
        let v = escaped(facets@[0].value@);
        assert(joined(parts, ","@) == facet_text(pairs[0]));
        assert(r@ =~= "[{\"k\":\""@ + k + "\",\"v\":\""@ + v + "\"}]"@);
    }
}

/// Filters are written in order, with a comma between each two.
pub proof fn law_filters_are_written_in_order(
    a: &Vec<Facet>,
    b: &Vec<Facet>,
    all: &Vec<Facet>,
    first: String,
    second: String,
    r: String,
)
    requires
        a@.len() > 0,
        b@.len() > 0,
        all@ == a@ + b@,
        call_ensures(to_facet_json, (a,), first),
        call_ensures(to_facet_json, (b,), second),
        call_ensures(to_facet_json, (all,), r),
    ensures
        r@ == first@.drop_last() + ","@ + second@.skip(1),
{
    reveal_strlit("[");
    reveal_strlit("]");
    let write = |f: (Seq<char>, Seq<char>)| facet_text(f);
    let x = pairs_of(a@).map_values(write);
    let y = pairs_of(b@).map_values(write);
    assert(pairs_of(all@).map_values(write) =~= x + y);
    lemma_joined_parts(x, y, ","@);
    assert(first@.drop_last() =~= "["@ + joined(x, ","@));
    assert(second@.skip(1) =~= joined(y, ","@) + "]"@);
    assert(r@ =~= first@.drop_last() + ","@ + second@.skip(1));
}

// ---------------------------------------------------------------------------
// Plans
// ---------------------------------------------------------------------------

/// The filters that have another kind or another value, in order.
pub open spec fn others_than(
    wanted: Seq<(Seq<char>, Seq<char>)>,
    kind: Seq<char>,
    value: Seq<char>,
) -> Seq<(Seq<char>, Seq<char>)> {
    wanted.filter(|f: (Seq<char>, Seq<char>)| f.0 != kind || f.1 != value)
}

/// The filters that are left to check, in other words.
pub(crate) proof fn lemma_others(
    wanted: Seq<(Seq<char>, Seq<char>)>,
    kind: Seq<char>,
    value: Seq<char>,
)
    ensures
        rest_of(wanted, (kind, value)) == others_than(wanted, kind, value),
    decreases wanted.len(),
{
    reveal(Seq::filter);
    if wanted.len() > 0 {
        lemma_others(wanted.drop_last(), kind, value);
    }
}

/// There is a plan exactly if every filter matches some package.
pub proof fn law_when_there_is_a_plan(
    wanted: &Vec<Facet>,
    drive: Option<Drive>,
    is_there: bool,
    r: Option<Plan>,
)
    requires
        call_ensures(has_plan, (wanted, &drive), is_there),
        call_ensures(plan_with, (wanted, drive), r),
    ensures
        r is Some <==> (drive matches Some(d) && d.matched >= wanted@.len()),
        is_there <==> r is Some,
{
    assert(pairs_of(wanted@).len() == wanted@.len());
}

/// Without filters the plan is to browse by name, with nothing left to check.
pub proof fn law_plan_without_filters(r: Plan)
    requires
        call_ensures(Plan::default, (), r),
    ensures
        !r.by_facet,
        r.kind@.len() == 0,
        r.value@.len() == 0,
        r.residual@ == "[]"@,
{
}

/// A plan browses by the very filter that the database picked, character for character.
pub proof fn law_plan_is_by_the_filter_picked(
    wanted: &Vec<Facet>,
    drive: Drive,
    r: Option<Plan>,
)
    requires
        call_ensures(plan_with, (wanted, Some(drive)), r),
    ensures
        r matches Some(plan) ==> plan.by_facet && plan.kind@ == drive.kind@ && plan.value@
            == drive.value@,
{
}

/// A plan leaves to check exactly the other filters, in the order that they were asked for.
pub proof fn law_plan_leaves_the_other_filters(
    wanted: &Vec<Facet>,
    drive: Drive,
    others: &Vec<Facet>,
    written: String,
    r: Option<Plan>,
)
    requires
        call_ensures(plan_with, (wanted, Some(drive)), r),
        asked(others@) == others_than(asked(wanted@), drive.kind@, drive.value@),
        call_ensures(to_facet_json, (others,), written),
    ensures
        r matches Some(plan) ==> plan.residual@ == written@,
{
    lemma_asked(wanted@);
    lemma_asked(others@);
    lemma_others(asked(wanted@), drive.kind@, drive.value@);
}

} // verus!
