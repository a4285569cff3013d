//! JSON text for lists of filters, written by `serde_json`.

use vstd::prelude::*;

use crate::models::{pairs_of, Facet};
use crate::text::joined;

verus! {

/// A JSON value of `serde_json`.
#[verifier::external_type_specification]
#[verifier::external_body]
pub struct ExJsonValue(serde_json::Value);

/// A JSON object of `serde_json`.
#[verifier::external_type_specification]
#[verifier::external_body]
#[verifier::reject_recursive_types(K)]
#[verifier::reject_recursive_types(V)]
pub struct ExJsonMap<K, V>(serde_json::Map<K, V>);

/// The members of a JSON object: under each key the text of its value, or `None`
/// where the value is not a string.
pub uninterp spec fn members(m: serde_json::Map<String, serde_json::Value>) -> Map<
    Seq<char>,
    Option<Seq<char>>,
>;

/// A hexadecimal digit, in lower case.
pub open spec fn hex_digit(d: nat) -> char
    recommends
        d < 16,
{
    if d < 10 {
        (('0' as u32) + d) as char
    } else {
        (('a' as u32) + d - 10) as char
    }
}

/// How a character is written inside a JSON string.
pub open spec fn escaped_char(c: char) -> Seq<char> {
    if c == '"' {
        seq!['\\', '"']
    } else if c == '\\' {
        seq!['\\', '\\']
    } else if c == '\u{8}' {
        seq!['\\', 'b']
    } else if c == '\u{9}' {
        seq!['\\', 't']
    } else if c == '\u{a}' {
        seq!['\\', 'n']
    } else if c == '\u{c}' {
        seq!['\\', 'f']
    } else if c == '\u{d}' {
        seq!['\\', 'r']
    } else if (c as u32) < 32 {
        seq!['\\', 'u', '0', '0', hex_digit((c as nat) / 16), hex_digit((c as nat) % 16)]
    } else {
        seq![c]
    }
}

/// How the characters of a text are written inside a JSON string.
pub open spec fn escaped(s: Seq<char>) -> Seq<char>
    decreases s.len(),
{
    if s.len() == 0 {
        seq![]
    } else {
        escaped(s.drop_last()) + escaped_char(s.last())
    }
}

/// The JSON text of a string.
pub open spec fn string_text(s: Seq<char>) -> Seq<char> {
    "\""@ + escaped(s) + "\""@
}

/// An object that has strings for members and nothing else.
pub open spec fn all_strings(m: Map<Seq<char>, Option<Seq<char>>>) -> bool {
    forall|k: Seq<char>| #[trigger] m.contains_key(k) ==> m[k] is Some
}

/// The strings of such an object.
pub open spec fn strings(m: Map<Seq<char>, Option<Seq<char>>>) -> Map<Seq<char>, Seq<char>> {
    m.map_values(|v: Option<Seq<char>>| v->0)
}

/// The order of texts by their characters, as in a dictionary.
pub open spec fn precedes(a: Seq<char>, b: Seq<char>) -> bool
    decreases a.len(),
{
    b.len() > 0 && (a.len() == 0 || a[0] < b[0] || (a[0] == b[0] && precedes(
        a.skip(1),
        b.skip(1),
    )))
}

/// Texts in ascending order, each of them once.
pub open spec fn ascending(keys: Seq<Seq<char>>) -> bool {
    forall|i: int, j: int|
        0 <= i < j < keys.len() ==> precedes(#[trigger] keys[i], #[trigger] keys[j])
}

/// The keys of an object in ascending order.
pub open spec fn sorted_keys(m: Map<Seq<char>, Seq<char>>) -> Seq<Seq<char>> {
    choose|keys: Seq<Seq<char>>| #[trigger] ascending(keys) && keys.to_set() == m.dom()
}

/// The JSON text of an object whose members are all strings.
pub open spec fn object_text(m: Map<Seq<char>, Seq<char>>) -> Seq<char> {
    "{"@ + joined(
        sorted_keys(m).map_values(|k: Seq<char>| string_text(k) + ":"@ + string_text(m[k])),
        ","@,
    ) + "}"@
}

/// The JSON text of an array of such objects.
pub open spec fn array_text(objects: Seq<Map<Seq<char>, Seq<char>>>) -> Seq<char> {
    "["@ + joined(objects.map_values(|m: Map<Seq<char>, Seq<char>>| object_text(m)), ","@) + "]"@
}

/// `serde_json::Map::new`: an object without members.
#[verifier::external_body]
fn new_object() -> (m: serde_json::Map<String, serde_json::Value>)
    ensures
        members(m).dom() == Set::<Seq<char>>::empty(),
{
    serde_json::Map::new()
}

/// `serde_json::Map::insert` of a string value: sets the member `key` and keeps the others.
#[verifier::external_body]
fn insert_string(m: &mut serde_json::Map<String, serde_json::Value>, key: &str, value: &str)
    ensures
        members(*final(m)) == members(*old(m)).insert(key@, Some(value@)),
{
    m.insert(key.to_string(), serde_json::Value::String(value.to_string()));
}

/// `serde_json::to_string` of a list of objects, `None` if it fails. Where every member
/// is a string it does not fail, and writes an array without blanks: the objects in order,
/// and the members of each in ascending order of their keys (the crate keeps them in a
/// `BTreeMap`). Quotes, backslashes and control characters are escaped. Of objects with
/// other members nothing is said.
#[verifier::external_body]
fn write_objects(objects: &Vec<serde_json::Map<String, serde_json::Value>>) -> (r: Option<
    String,
>)
    ensures
        (forall|i: int| 0 <= i < objects@.len() ==> all_strings(members(#[trigger] objects@[i])))
            ==> r is Some && r->0@ == array_text(
            Seq::new(objects@.len(), |i: int| strings(members(objects@[i]))),
        ),
{
    serde_json::to_string(objects).ok()
}

/// A filter as JSON members: its kind under `k` and its value under `v`.
pub open spec fn facet_members(f: (Seq<char>, Seq<char>)) -> Map<Seq<char>, Seq<char>> {
    map!["k"@ => f.0, "v"@ => f.1]
}

/// A filter as JSON text, e.g. `{"k":"license","v":"MIT"}`.
pub open spec fn facet_text(f: (Seq<char>, Seq<char>)) -> Seq<char> {
    "{\"k\":"@ + string_text(f.0) + ",\"v\":"@ + string_text(f.1) + "}"@
}

/// The JSON text of a list of filters, e.g. `[{"k":"license","v":"MIT"}]`.
pub open spec fn facet_json(pairs: Seq<(Seq<char>, Seq<char>)>) -> Seq<char> {
    "["@ + joined(pairs.map_values(|f: (Seq<char>, Seq<char>)| facet_text(f)), ","@) + "]"@
}

/// No text precedes itself.
proof fn lemma_precedes_irreflexive(a: Seq<char>)
    ensures
        !precedes(a, a),
    decreases a.len(),
{
    if a.len() > 0 {
        lemma_precedes_irreflexive(a.skip(1));
    }
}

/// The members of a filter are written kind first.
proof fn lemma_facet_keys(f: (Seq<char>, Seq<char>))
    ensures
        sorted_keys(facet_members(f)) == seq!["k"@, "v"@],
{
    reveal_strlit("k");
    reveal_strlit("v");
    let m = facet_members(f);
    let expected = seq!["k"@, "v"@];
    assert("k"@[0] == 'k' && "v"@[0] == 'v');
    assert(precedes("k"@, "v"@));
    assert(!precedes("v"@, "k"@));
    assert(ascending(expected));
    assert(expected.to_set() =~= m.dom()) by {
        assert forall|k: Seq<char>| m.dom().contains(k) implies expected.to_set().contains(k) by {
            assert(expected[0] == "k"@ && expected[1] == "v"@);
            assert(expected.contains(k));
        }
    }
    let keys = sorted_keys(m);
    assert(ascending(keys) && keys.to_set() == m.dom());
    assert forall|i: int, j: int| 0 <= i < j < keys.len() implies keys[i] != keys[j] by {
        lemma_precedes_irreflexive(keys[i]);
        assert(precedes(keys[i], keys[j]));
    }
    assert(keys.no_duplicates());
    keys.unique_seq_to_set();
    expected.unique_seq_to_set();
    assert(keys.len() == 2);
    assert forall|i: int| 0 <= i < 2 implies #[trigger] keys[i] == "k"@ || keys[i] == "v"@ by {
        assert(keys.to_set().contains(keys[i]));
        assert(m.dom().contains(keys[i]));
    }
    assert(precedes(keys[0], keys[1]));
    assert(keys =~= expected);
}

/// The text of a filter is that of the object with its members.
proof fn lemma_facet_text(f: (Seq<char>, Seq<char>))
    ensures
        object_text(facet_members(f)) == facet_text(f),
{
    let m = facet_members(f);
    let parts = sorted_keys(m).map_values(
        |k: Seq<char>| string_text(k) + ":"@ + string_text(m[k]),
    );
    lemma_facet_keys(f);
    reveal_strlit("k");
    reveal_strlit("v");
    reveal_strlit("{");
    reveal_strlit("}");
    reveal_strlit(":");
    reveal_strlit(",");
    reveal_strlit("\"");
    reveal_strlit("{\"k\":");
    reveal_strlit(",\"v\":");
    assert("k"@[0] == 'k' && "v"@[0] == 'v');
    assert(m["k"@] == f.0 && m["v"@] == f.1);
    assert(escaped("k"@.drop_last()) =~= seq![] && escaped("v"@.drop_last()) =~= seq![]);
    assert(escaped("k"@) =~= "k"@ && escaped("v"@) =~= "v"@);
    assert(parts.len() == 2);
    assert(parts.drop_last().len() == 1);
    assert(joined(parts.drop_last(), ","@) == parts[0]);
    assert(joined(parts, ","@) == parts[0] + ","@ + parts[1]);
    assert(object_text(m) =~= facet_text(f));
}

/// Only a list without filters is written as the two brackets alone.
pub proof fn lemma_facet_json_empty(pairs: Seq<(Seq<char>, Seq<char>)>)
    ensures
        facet_json(pairs) == "[]"@ <==> pairs.len() == 0,
{
    reveal_strlit("[]");
    reveal_strlit("[");
    reveal_strlit("]");
    reveal_strlit("}");
    let parts = pairs.map_values(|f: (Seq<char>, Seq<char>)| facet_text(f));
    if pairs.len() == 0 {
        assert(facet_json(pairs) =~= "[]"@);
    } else {
        assert(parts.last().len() > 0);
        assert(joined(parts, ","@).len() > 0);
        assert(facet_json(pairs).len() > 2);
    }
}

/// A filter as a JSON object.
fn facet_object(f: &Facet) -> (m: serde_json::Map<String, serde_json::Value>)
    ensures
        all_strings(members(m)),
        strings(members(m)) == facet_members(f@),
{
    let mut m = new_object();
    insert_string(&mut m, "k", f.kind.as_str());
    insert_string(&mut m, "v", f.value.as_str());
    assert(strings(members(m)) =~= facet_members(f@));
    m
}

/// Encodes filters for a query, e.g. `[{"k":"license","v":"MIT"}]`.
pub fn to_facet_json(pairs: &Vec<Facet>) -> (r: String)
    ensures
        r@ == facet_json(pairs_of(pairs@)),
{
    let mut objects: Vec<serde_json::Map<String, serde_json::Value>> = Vec::new();
    let mut i: usize = 0;
    while i < pairs.len()
        invariant
            i <= pairs@.len(),
            objects@.len() == i,
            forall|j: int| 0 <= j < i ==> all_strings(members(#[trigger] objects@[j])),
            forall|j: int|
                0 <= j < i ==> strings(members(#[trigger] objects@[j])) == facet_members(
                    pairs@[j]@,
                ),
        decreases pairs@.len() - i,
    {
        objects.push(facet_object(&pairs[i]));
        i = i + 1;
    }
    let text = write_objects(&objects);
    proof {
        let listed = Seq::new(objects@.len(), |j: int| strings(members(objects@[j])));
        let written = listed.map_values(|m: Map<Seq<char>, Seq<char>>| object_text(m));
        let wanted = pairs_of(pairs@).map_values(|f: (Seq<char>, Seq<char>)| facet_text(f));
        assert forall|j: int| 0 <= j < pairs@.len() implies written[j] == wanted[j] by {
            lemma_facet_text(pairs@[j]@);
            assert(strings(members(objects@[j])) == facet_members(pairs@[j]@));
        }
        assert(written =~= wanted);
    }
    match text {
        Some(s) => s,
        None => "[]".to_owned(),
    }
}

// ---------------------------------------------------------------------------
// Laws
// ---------------------------------------------------------------------------

/// What follows a common beginning is equal.
proof fn lemma_same_rest(p: Seq<char>, x: Seq<char>, y: Seq<char>)
    requires
        p + x == p + y,
    ensures
        x == y,
{
    assert(x =~= (p + x).skip(p.len() as int));
    assert(y =~= (p + y).skip(p.len() as int));
}

/// An escaped text starts with its first character.
pub(crate) proof fn lemma_escaped_front(c: char, s: Seq<char>)
    ensures
        escaped(seq![c] + s) == escaped_char(c) + escaped(s),
    decreases s.len(),
{
    let all = seq![c] + s;
    if s.len() == 0 {
        assert(all.drop_last() =~= seq![]);
        assert(escaped(all.drop_last()) =~= seq![]);
        assert(escaped(all) =~= escaped_char(c) + escaped(s));
    } else {
        assert(all.drop_last() =~= seq![c] + s.drop_last());
        lemma_escaped_front(c, s.drop_last());
        assert(escaped(all) =~= escaped_char(c) + escaped(s));
    }
}

/// The hexadecimal digits are all different.
proof fn lemma_hex_digits(d: nat, e: nat)
    requires
        d < 16,
        e < 16,
        hex_digit(d) == hex_digit(e),
    ensures
        d == e,
{
}

/// An escaped character can be told from what follows it.
proof fn lemma_escaped_char_unique(c: char, d: char, u: Seq<char>, v: Seq<char>)
    requires
        escaped_char(c) + u == escaped_char(d) + v,
    ensures
        c == d,
        u == v,
{
    let x = escaped_char(c);
    let y = escaped_char(d);
    assert(x[0] == (x + u)[0] && y[0] == (y + v)[0]);
    if x.len() > 1 && y.len() > 1 {
        assert(x[1] == (x + u)[1] && y[1] == (y + v)[1]);
        if x.len() == 6 && y.len() == 6 {
            assert(x[4] == (x + u)[4] && y[4] == (y + v)[4]);
            assert(x[5] == (x + u)[5] && y[5] == (y + v)[5]);
            lemma_hex_digits((c as nat) / 16, (d as nat) / 16);
            lemma_hex_digits((c as nat) % 16, (d as nat) % 16);
        }
    }
    assert(c == d);
    lemma_same_rest(x, u, v);
}

/// No escaped character starts with a quote.
proof fn lemma_escaped_char_start(c: char)
    ensures
        escaped_char(c).len() > 0,
        escaped_char(c)[0] != '"',
{
}

/// A string can be told from what follows it: it ends at the first quote that is not
/// escaped.
proof fn lemma_escaped_unique(a: Seq<char>, b: Seq<char>, u: Seq<char>, v: Seq<char>)
    requires
        escaped(a) + (seq!['"'] + u) == escaped(b) + (seq!['"'] + v),
    ensures
        a == b,
        u == v,
    decreases a.len(),
{
    let left = escaped(a) + (seq!['"'] + u);
    let right = escaped(b) + (seq!['"'] + v);
    if a.len() > 0 {
        assert(a =~= seq![a[0]] + a.skip(1));
        lemma_escaped_front(a[0], a.skip(1));
        lemma_escaped_char_start(a[0]);
        assert(left =~= escaped_char(a[0]) + (escaped(a.skip(1)) + (seq!['"'] + u)));
    }
    if b.len() > 0 {
        assert(b =~= seq![b[0]] + b.skip(1));
        lemma_escaped_front(b[0], b.skip(1));
        lemma_escaped_char_start(b[0]);
        assert(right =~= escaped_char(b[0]) + (escaped(b.skip(1)) + (seq!['"'] + v)));
    }
    if a.len() == 0 || b.len() == 0 {
        if a.len() == 0 {
            assert(left[0] == '"');
        }
        if b.len() == 0 {
            assert(right[0] == '"');
        }
        assert(a.len() == 0 && b.len() == 0);
        assert(a =~= b);
        lemma_same_rest(escaped(a), seq!['"'] + u, seq!['"'] + v);
        lemma_same_rest(seq!['"'], u, v);
    } else {
        lemma_escaped_char_unique(
            a[0],
            b[0],
            escaped(a.skip(1)) + (seq!['"'] + u),
            escaped(b.skip(1)) + (seq!['"'] + v),
        );
        lemma_escaped_unique(a.skip(1), b.skip(1), u, v);
    }
}

/// What is written before the key of a filter.
spec fn before_key() -> Seq<char> {
    "{\"k\":"@ + seq!['"']
}

/// What is written between the quotes of the key and the value.
spec fn before_value() -> Seq<char> {
    ",\"v\":"@ + seq!['"']
}

/// What is written from the value of a filter on, with what follows the filter.
spec fn value_text(value: Seq<char>, rest: Seq<char>) -> Seq<char> {
    escaped(value) + (seq!['"'] + ("}"@ + rest))
}

/// What is written from the key of a filter on, with what follows the filter.
spec fn key_text(f: (Seq<char>, Seq<char>), rest: Seq<char>) -> Seq<char> {
    escaped(f.0) + (seq!['"'] + (before_value() + value_text(f.1, rest)))
}

/// The text of a filter falls into its key, its value and what goes round them.
proof fn lemma_facet_text_parts(f: (Seq<char>, Seq<char>), rest: Seq<char>)
    ensures
        facet_text(f) + rest == before_key() + key_text(f, rest),
{
    reveal_strlit("\"");
    assert("\""@ =~= seq!['"']);
    assert(facet_text(f) + rest =~= before_key() + key_text(f, rest));
}

/// A value can be told from what follows it.
proof fn lemma_value_text_unique(a: Seq<char>, b: Seq<char>, u: Seq<char>, v: Seq<char>)
    requires
        value_text(a, u) == value_text(b, v),
    ensures
        a == b,
        u == v,
{
    lemma_escaped_unique(a, b, "}"@ + u, "}"@ + v);
    lemma_same_rest("}"@, u, v);
}

/// A filter can be told from what follows it.
proof fn lemma_facet_text_unique(
    f: (Seq<char>, Seq<char>),
    g: (Seq<char>, Seq<char>),
    u: Seq<char>,
    v: Seq<char>,
)
    requires
        facet_text(f) + u == facet_text(g) + v,
    ensures
        f == g,
        u == v,
{
    let f1 = value_text(f.1, u);
    let g1 = value_text(g.1, v);
    lemma_facet_text_parts(f, u);
    lemma_facet_text_parts(g, v);
    lemma_same_rest(before_key(), key_text(f, u), key_text(g, v));
    lemma_escaped_unique(f.0, g.0, before_value() + f1, before_value() + g1);
    lemma_same_rest(before_value(), f1, g1);
    lemma_value_text_unique(f.1, g.1, u, v);
}

/// Joined parts start with the first of them.
proof fn lemma_joined_front(parts: Seq<Seq<char>>, sep: Seq<char>)
    requires
        parts.len() > 1,
    ensures
        joined(parts, sep) == parts[0] + sep + joined(parts.skip(1), sep),
    decreases parts.len(),
{
    let init = parts.drop_last();
    assert(parts.skip(1).drop_last() =~= init.skip(1));
    assert(parts.skip(1).last() == parts.last());
    if parts.len() == 2 {
        assert(joined(init, sep) == parts[0]);
        assert(joined(parts.skip(1), sep) == parts[1]);
    } else {
        lemma_joined_front(init, sep);
        assert(joined(parts, sep) =~= parts[0] + sep + joined(parts.skip(1), sep));
    }
}

/// The texts of a list of filters.
spec fn facet_texts(pairs: Seq<(Seq<char>, Seq<char>)>) -> Seq<Seq<char>> {
    pairs.map_values(|f: (Seq<char>, Seq<char>)| facet_text(f))
}

/// What follows the first filter of a list, up to the closing bracket.
spec fn after_first(pairs: Seq<(Seq<char>, Seq<char>)>) -> Seq<char> {
    if pairs.len() == 1 {
        "]"@
    } else {
        ","@ + (joined(facet_texts(pairs.skip(1)), ","@) + "]"@)
    }
}

/// A list of filters starts with the first of them.
proof fn lemma_list_front(pairs: Seq<(Seq<char>, Seq<char>)>)
    requires
        pairs.len() > 0,
    ensures
        joined(facet_texts(pairs), ","@) + "]"@ == facet_text(pairs[0]) + after_first(pairs),
{
    let parts = facet_texts(pairs);
    if pairs.len() > 1 {
        lemma_joined_front(parts, ","@);
        assert(parts.skip(1) =~= facet_texts(pairs.skip(1)));
        assert(joined(parts, ","@) + "]"@ =~= facet_text(pairs[0]) + after_first(pairs));
    }
}

/// Lists of filters that are written alike, up to the closing bracket, are equal.
proof fn lemma_lists_unique(a: Seq<(Seq<char>, Seq<char>)>, b: Seq<(Seq<char>, Seq<char>)>)
    requires
        joined(facet_texts(a), ","@) + "]"@ == joined(facet_texts(b), ","@) + "]"@,
    ensures
        a == b,
    decreases a.len(),
{
    reveal_strlit("]");
    reveal_strlit(",");
    reveal_strlit("{\"k\":");
    let left = joined(facet_texts(a), ","@) + "]"@;
    let right = joined(facet_texts(b), ","@) + "]"@;
    if a.len() > 0 {
        lemma_list_front(a);
        assert(left[0] == '{');
    } else {
        assert(left[0] == ']');
    }
    if b.len() > 0 {
        lemma_list_front(b);
        assert(right[0] == '{');
    } else {
        assert(right[0] == ']');
    }
    if a.len() == 0 {
        assert(a =~= b);
    } else {
        lemma_facet_text_unique(a[0], b[0], after_first(a), after_first(b));
        assert(after_first(a)[0] == after_first(b)[0]);
        if a.len() > 1 {
            lemma_same_rest(
                ","@,
                joined(facet_texts(a.skip(1)), ","@) + "]"@,
                joined(facet_texts(b.skip(1)), ","@) + "]"@,
            );
            lemma_lists_unique(a.skip(1), b.skip(1));
            assert(a =~= seq![a[0]] + a.skip(1));
            assert(b =~= seq![b[0]] + b.skip(1));
        } else {
            assert(b.len() == 1);
            assert(a =~= b);
        }
    }
}

/// The encoding of filters loses nothing: different lists are written differently,
/// whatever characters they hold.
pub proof fn law_facet_json_is_faithful(
    a: Seq<(Seq<char>, Seq<char>)>,
    b: Seq<(Seq<char>, Seq<char>)>,
)
    requires
        facet_json(a) == facet_json(b),
    ensures
        a == b,
{
    let left = joined(facet_texts(a), ","@) + "]"@;
    let right = joined(facet_texts(b), ","@) + "]"@;
    assert(facet_json(a) =~= "["@ + left);
    assert(facet_json(b) =~= "["@ + right);
    lemma_same_rest("["@, left, right);
    lemma_lists_unique(a, b);
}

} // verus!
