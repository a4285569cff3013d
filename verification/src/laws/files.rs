//! Laws on the paths that are served, and on static files.

use vstd::prelude::*;

use crate::http::{
    init_handlers, law_paths_are_distinct, law_paths_are_only_read, law_site_is_timed,
    may_be_media_type, may_have_parts, media_type, not_found, routes, routes_of, serve_static,
    static_answer, static_path, static_response, Part, Route, StaticResponse,
};
use crate::text::{count_of, joined, lemma_split_length, split_at, trim_leading};

verus! {

// ---------------------------------------------------------------------------
// Routes
// ---------------------------------------------------------------------------

/// Every path is served once and is only read. The API comes first and is the same with and
/// without a site; the pages of the site follow, and they alone are timed.
pub proof fn law_routes(without: Vec<Route>, with: Vec<Route>)
    requires
        call_ensures(init_handlers, (false,), without),
        call_ensures(init_handlers, (true,), with),
    ensures
        without@.len() == 7 && with@.len() == 16,
        forall|i: int|
            0 <= i < 16 ==> (#[trigger] with@[i]).method@ == "GET"@ && (with@[i].timed <==> i >= 7),
        forall|i: int|
            0 <= i < 7 ==> (#[trigger] without@[i]).path@ == with@[i].path@ && without@[i].handler
                == with@[i].handler && without@[i].method@ == with@[i].method@
                && !without@[i].timed,
        forall|i: int, j: int|
            0 <= i < j < 16 ==> (#[trigger] with@[i]).path@ != (#[trigger] with@[j]).path@,
{
    law_paths_are_distinct(true);
    law_paths_are_only_read(true);
    law_site_is_timed(true);
    assert(routes_of(with@).len() == with@.len() && routes_of(without@).len() == without@.len());
    assert forall|i: int| 0 <= i < 16 implies (#[trigger] with@[i]).method@ == "GET"@ && (
    with@[i].timed <==> i >= 7) by {
        assert(routes(true)[i] == with@[i]@);
    }
    assert forall|i: int| 0 <= i < 7 implies (#[trigger] without@[i]).path@ == with@[i].path@
        && without@[i].handler == with@[i].handler && without@[i].method@ == with@[i].method@
        && !without@[i].timed by {
        assert(routes(false)[i] == without@[i]@);
        assert(routes(true)[i] == with@[i]@);
    }
    assert forall|i: int, j: int| 0 <= i < j < 16 implies (#[trigger] with@[i]).path@ != (
    #[trigger] with@[j]).path@ by {
        assert(routes(true)[i] == with@[i]@ && routes(true)[j] == with@[j]@);
    }
}

// ---------------------------------------------------------------------------
// Files
// ---------------------------------------------------------------------------

/// A text split at a character is its pieces with that character between them, and no piece
/// holds it.
pub proof fn law_split_and_joined(s: Seq<char>, sep: char)
    ensures
        split_at(s, sep).len() == count_of(s, sep) + 1,
        joined(split_at(s, sep), seq![sep]) == s,
        forall|k: int|
            0 <= k < split_at(s, sep).len() ==> !(#[trigger] split_at(s, sep)[k]).contains(sep),
    decreases s.len(),
{
    lemma_split_length(s, sep);
    let all = split_at(s, sep);
    if s.len() == 0 {
        assert(joined(all, seq![sep]) =~= s);
    } else {
        let init = s.drop_last();
        let before = split_at(init, sep);
        law_split_and_joined(init, sep);
        lemma_split_length(init, sep);
        assert(init.push(s.last()) =~= s);
        if s.last() == sep {
            assert(all.drop_last() =~= before);
            assert(joined(all, seq![sep]) =~= s);
        } else {
            let last = before.last().push(s.last());
            assert(all.drop_last() =~= before.drop_last());
            assert(joined(all, seq![sep]) =~= joined(before, seq![sep]).push(s.last()));
            assert(!last.contains(sep)) by {
                assert(!before[before.len() - 1].contains(sep));
                assert forall|i: int| 0 <= i < last.len() implies last[i] != sep by {
                    if i < before.last().len() {
                        assert(before.last()[i] != sep);
                    }
                }
            }
        }
        assert forall|k: int| 0 <= k < all.len() implies !(#[trigger] all[k]).contains(sep) by {
            if k < before.len() - 1 || s.last() == sep && k < before.len() {
                assert(all[k] == before[k]);
            }
        }
    }
}

/// The file for a request is its path without the slashes in front. There is one only with a
/// site, and never for a path with `..` between its slashes or `.` before the first of them.
/// On a path that all systems read alike nothing else is refused; on any other, exactly what
/// the system takes for more than names.
pub proof fn law_files_served(has_site: bool, path: &str, rel: String, r: Option<String>)
    requires
        call_ensures(trim_leading, (path, '/'), rel),
        call_ensures(serve_static, (has_site, path), r),
    ensures
        !has_site ==> r is None,
        r matches Some(file) ==> file@ == rel@,
        split_at(rel@, '/').contains(".."@) || split_at(rel@, '/')[0] == "."@ ==> r is None,
        has_site && !rel@.contains('\\') && !rel@.contains(':') && !split_at(rel@, '/').contains(
            ".."@,
        ) && split_at(rel@, '/')[0] != "."@ ==> r is Some,
        exists|parts: Seq<Part>|
            #[trigger] may_have_parts(rel@, parts) && (r is Some <==> has_site && forall|i: int|
                0 <= i < parts.len() ==> #[trigger] parts[i] == Part::Name),
{
    lemma_split_length(rel@, '/');
}

/// A path is served as it is exactly if there is a site and all its parts are names.
pub proof fn law_parts_decide(has_site: bool, path: String, parts: &Vec<Part>, r: Option<String>)
    requires
        call_ensures(static_path, (has_site, path, parts), r),
    ensures
        r matches Some(file) ==> file == path,
        r is Some <==> has_site && forall|i: int|
            0 <= i < parts@.len() ==> #[trigger] parts@[i] == Part::Name,
{
}

/// Whether the answer is that there is no such file.
pub open spec fn is_missing(r: StaticResponse) -> bool {
    r matches StaticResponse::NotFound(status, message) && status == 404 && message@
        == "not found"@
}

/// Whether the answer is a file with these contents, to be kept for seven days.
pub open spec fn is_file(r: StaticResponse, content_type: Seq<char>, body: Vec<u8>) -> bool {
    &&& r matches StaticResponse::File(file)
    &&& file.status == 200
    &&& file.content_type@ == content_type
    &&& file.cache_control@ == "public, max-age=604800"@
    &&& file.body == body
}

/// A file that was read is sent as it is, with its media type, and may be kept for seven
/// days; one that was not is not found.
pub proof fn law_files_are_sent(
    content_type: String,
    path: &str,
    body: Option<Vec<u8>>,
    answer: StaticResponse,
    of_path: StaticResponse,
    none: StaticResponse,
)
    requires
        call_ensures(static_answer, (content_type, body), answer),
        call_ensures(static_response, (path, body), of_path),
        call_ensures(not_found, (), none),
    ensures
        is_missing(none),
        body is None ==> is_missing(answer) && is_missing(of_path),
        body matches Some(bytes) ==> is_file(answer, content_type@, bytes),
        body matches Some(bytes) ==> exists|guessed: Seq<char>|
            #[trigger] may_be_media_type(path@, guessed) && is_file(of_path, guessed, bytes),
        body matches Some(bytes) ==> !path@.contains('\\') && !path@.contains(':') && (
        path@.len() == 0 || path@[0] != '/') ==> is_file(of_path, media_type(path@), bytes),
        body matches Some(bytes) ==> !path@.contains('.') ==> is_file(
            of_path,
            "application/octet-stream"@,
            bytes,
        ),
{
    if body is Some {
        let guessed = of_path->File_0.content_type@;
        assert(may_be_media_type(path@, guessed));
    }
}

} // verus!
