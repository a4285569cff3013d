//! The paths that are served, and the static files among them.

use vstd::prelude::*;

use crate::handlers::api::{NOT_FOUND, OK};
use crate::text::{lemma_split_length, split_at, trim_leading, without_leading};

verus! {

/// What answers a request.
#[derive(Debug, Clone, Copy, PartialEq, Eq, Structural)]
pub enum Handler {
    HealthCheck,
    GetRepos,
    GetRepo,
    QueryPackages,
    GetPackage,
    SuggestLicenses,
    SuggestPlatforms,
    RenderIndex,
    RenderCustomPage,
    RenderSearchForm,
    RenderRepos,
    RenderSearch,
    RenderPackage,
    ServeStatic,
}

/// The method by which a path is read.
pub const GET: &'static str = "GET";

/// A path, and what answers requests for it that come by the method. On timed routes a
/// request is stamped with the time it came in at.
#[derive(Debug)]
pub struct Route {
    pub method: &'static str,
    pub path: &'static str,
    pub handler: Handler,
    pub timed: bool,
}

/// A route as a mathematical value.
pub struct RouteView {
    pub method: Seq<char>,
    pub path: Seq<char>,
    pub handler: Handler,
    pub timed: bool,
}

impl View for Route {
    type V = RouteView;

    open spec fn view(&self) -> RouteView {
        RouteView {
            method: self.method@,
            path: self.path@,
            handler: self.handler,
            timed: self.timed,
        }
    }
}

/// Routes as mathematical values.
pub open spec fn routes_of(routes: Seq<Route>) -> Seq<RouteView> {
    routes.map_values(|r: Route| r@)
}

/// A route of the API.
pub open spec fn api_route(path: Seq<char>, handler: Handler) -> RouteView {
    RouteView { method: GET@, path, handler, timed: false }
}

/// A route of the site.
pub open spec fn site_route(path: Seq<char>, handler: Handler) -> RouteView {
    RouteView { method: GET@, path, handler, timed: true }
}

/// The API, in JSON and in pipe-separated CSV.
pub open spec fn api_routes() -> Seq<RouteView> {
    seq![
        api_route("/api/health"@, Handler::HealthCheck),
        api_route("/api/repos"@, Handler::GetRepos),
        api_route("/api/repos/{repo}"@, Handler::GetRepo),
        api_route("/api/repos/{repo}/packages"@, Handler::QueryPackages),
        api_route("/api/repos/{repo}/packages/{pkg}"@, Handler::GetPackage),
        api_route("/api/suggest/licenses"@, Handler::SuggestLicenses),
        api_route("/api/suggest/platforms"@, Handler::SuggestPlatforms),
    ]
}

/// The pages of the site.
pub open spec fn site_routes() -> Seq<RouteView> {
    seq![
        site_route("/"@, Handler::RenderIndex),
        site_route("/p/{page}"@, Handler::RenderCustomPage),
        site_route("/search"@, Handler::RenderSearchForm),
        site_route("/repos"@, Handler::RenderRepos),
        site_route("/repos.xml"@, Handler::RenderRepos),
        site_route("/repos/{repo}"@, Handler::RenderSearch),
        site_route("/repos/{repo}/{pkg}"@, Handler::RenderPackage),
        site_route("/repos/{repo}/{pkg}/feed.xml"@, Handler::RenderPackage),
        site_route("/static/{*path}"@, Handler::ServeStatic),
    ]
}

/// All routes: those of the API, and those of the site where there is one.
pub open spec fn routes(has_site: bool) -> Seq<RouteView> {
    if has_site {
        api_routes() + site_routes()
    } else {
        api_routes()
    }
}

/// A route of the API.
fn api(path: &'static str, handler: Handler) -> (r: Route)
    ensures
        r@ == api_route(path@, handler),
{
    Route { method: GET, path, handler, timed: false }
}

/// A route of the site.
fn site(path: &'static str, handler: Handler) -> (r: Route)
    ensures
        r@ == site_route(path@, handler),
{
    Route { method: GET, path, handler, timed: true }
}

/// The routes to serve. Without a site only the API is served.
pub fn init_handlers(has_site: bool) -> (r: Vec<Route>)
    ensures
        routes_of(r@) == routes(has_site),
{
    let mut all = vec![
        api("/api/health", Handler::HealthCheck),
        api("/api/repos", Handler::GetRepos),
        api("/api/repos/{repo}", Handler::GetRepo),
        api("/api/repos/{repo}/packages", Handler::QueryPackages),
        api("/api/repos/{repo}/packages/{pkg}", Handler::GetPackage),
        api("/api/suggest/licenses", Handler::SuggestLicenses),
        api("/api/suggest/platforms", Handler::SuggestPlatforms),
    ];
    assert(routes_of(all@) =~= api_routes());
    if has_site {
        let mut pages = vec![
            site("/", Handler::RenderIndex),
            site("/p/{page}", Handler::RenderCustomPage),
            site("/search", Handler::RenderSearchForm),
            site("/repos", Handler::RenderRepos),
            // `/repos/{repo}.xml` goes to `RenderSearch`: a path cannot have a dynamic suffix.
            site("/repos.xml", Handler::RenderRepos),
            site("/repos/{repo}", Handler::RenderSearch),
            site("/repos/{repo}/{pkg}", Handler::RenderPackage),
            site("/repos/{repo}/{pkg}/feed.xml", Handler::RenderPackage),
            site("/static/{*path}", Handler::ServeStatic),
        ];
        assert(routes_of(pages@) =~= site_routes());
        let ghost before = all@;
        let ghost added = pages@;
        all.append(&mut pages);
        assert(routes_of(all@) =~= routes_of(before) + routes_of(added));
    }
    all
}

// ---------------------------------------------------------------------------
// Static files
// ---------------------------------------------------------------------------

/// A part of a path.
#[derive(Debug, Clone, Copy, PartialEq, Eq, Structural)]
pub enum Part {
    /// A drive or a share.
    Prefix,
    /// The root.
    Root,
    /// `.`
    Current,
    /// `..`
    Parent,
    /// A name.
    Name,
}

/// A path without backslashes and colons. If it has no slash in front either, it is read
/// alike on all systems: some take two slashes in front for the start of a share's name.
pub open spec fn is_portable(path: Seq<char>) -> bool {
    !path.contains('\\') && !path.contains(':')
}

/// The pieces of `path` between its slashes.
pub open spec fn pieces(path: Seq<char>) -> Seq<Seq<char>> {
    split_at(path, '/')
}

/// Whether a path without a slash in front goes up, or starts at the current directory.
pub open spec fn strays(path: Seq<char>) -> bool {
    pieces(path).first() == "."@ || pieces(path).contains(".."@)
}

/// Whether every part is a name.
pub open spec fn all_names(parts: Seq<Part>) -> bool {
    forall|i: int| 0 <= i < parts.len() ==> #[trigger] parts[i] == Part::Name
}

/// The parts of a path without a slash in front, from its pieces: empty pieces are no
/// parts, and neither is a `.` but in front.
pub open spec fn parts_of(pieces: Seq<Seq<char>>) -> Seq<Part>
    decreases pieces.len(),
{
    if pieces.len() == 0 {
        seq![]
    } else {
        let before = parts_of(pieces.drop_last());
        if pieces.last().len() == 0 {
            before
        } else if pieces.last() == "."@ {
            if pieces.len() == 1 {
                before.push(Part::Current)
            } else {
                before
            }
        } else if pieces.last() == ".."@ {
            before.push(Part::Parent)
        } else {
            before.push(Part::Name)
        }
    }
}

/// What `mime_guess` takes a portable path without a slash in front for.
pub uninterp spec fn media_type(path: Seq<char>) -> Seq<char>;

/// `std::path::Path::components`, without the names. Of a portable path without a slash
/// in front the parts are those of [`parts_of`]. On every system a slash separates parts,
/// `..` is the parent directory and a `.` in front the current one; so no path at all that
/// holds either of these has only names for parts. Not stated is what else is made of
/// drives, shares and backslashes, which differs from system to system.
#[verifier::external_body]
fn path_parts(path: &str) -> (r: Vec<Part>)
    ensures
        is_portable(path@) && without_leading(path@, '/') == path@ ==> r@ == parts_of(
            pieces(path@),
        ),
        strays(path@) ==> !all_names(r@),
{
    std::path::Path::new(path).components().map(|c| match c {
        std::path::Component::Prefix(_) => Part::Prefix,
        std::path::Component::RootDir => Part::Root,
        std::path::Component::CurDir => Part::Current,
        std::path::Component::ParentDir => Part::Parent,
        std::path::Component::Normal(_) => Part::Name,
    }).collect()
}

/// `mime_guess::from_path` with `first_or_octet_stream`: the media type that goes with
/// the extension of a path. A path without a dot has no extension, on any system, and is
/// taken for `application/octet-stream`; other than that the answer only has a name. Not
/// stated is what is made of backslashes, colons and slashes in front, which differs from
/// system to system.
#[verifier::external_body]
fn guess_media_type(path: &str) -> (r: String)
    ensures
        is_portable(path@) && without_leading(path@, '/') == path@ ==> r@ == media_type(path@),
        !path@.contains('.') ==> r@ == "application/octet-stream"@,
{
    mime_guess::from_path(path).first_or_octet_stream().to_string()
}

/// Whether these can be the parts of a path, as the system that the library runs on reads
/// it: whether they are what [`path_parts`] gives.
pub closed spec fn may_have_parts(path: Seq<char>, parts: Seq<Part>) -> bool {
    exists|p: &str, r: Vec<Part>|
        p@ == path && r@ == parts && #[trigger] call_ensures(path_parts, (p,), r)
}

/// Whether this can be the media type of a path, as the system that the library runs on
/// reads it: whether it is what [`guess_media_type`] gives.
pub closed spec fn may_be_media_type(path: Seq<char>, content_type: Seq<char>) -> bool {
    exists|p: &str, r: String|
        p@ == path && r@ == content_type && #[trigger] call_ensures(guess_media_type, (p,), r)
}

/// How long a static file may be kept. The paths of such files change with their contents.
pub const CACHE_CONTROL: &'static str = "public, max-age=604800";

/// The answer to a request for a static file.
#[derive(Debug)]
pub enum StaticResponse {
    /// A status code and a message.
    NotFound(u16, &'static str),
    File(StaticFile),
}

/// A static file with its headers.
#[derive(Debug)]
pub struct StaticFile {
    pub status: u16,
    pub content_type: String,
    pub cache_control: &'static str,
    pub body: Vec<u8>,
}

impl StaticResponse {
    /// Whether the answer is that there is no such file.
    pub open spec fn is_not_found(&self) -> bool {
        self matches StaticResponse::NotFound(status, message) && status == NOT_FOUND && message@
            == "not found"@
    }
}

/// Whether every part is a name.
fn only_names(parts: &Vec<Part>) -> (r: bool)
    ensures
        r == all_names(parts@),
{
    let mut i: usize = 0;
    while i < parts.len()
        invariant
            i <= parts@.len(),
            forall|j: int| 0 <= j < i ==> #[trigger] parts@[j] == Part::Name,
        decreases parts@.len() - i,
    {
        if parts[i] != Part::Name {
            assert(parts@[i as int] != Part::Name);
            return false;
        }
        i = i + 1;
    }
    true
}

/// The file to read for a path with these parts, relative to the directory of static
/// files; none without a site, or if a part is not a name.
pub fn static_path(has_site: bool, path: String, parts: &Vec<Part>) -> (r: Option<String>)
    ensures
        r == (if has_site && all_names(parts@) {
            Some(path)
        } else {
            None::<String>
        }),
{
    if has_site && only_names(parts) {
        Some(path)
    } else {
        None
    }
}

/// The file to read for a request, relative to the directory of static files: there is one
/// exactly if the system takes the path for names alone, without a drive, a root or a parent
/// among them. [`static_response`] takes what was read.
pub fn serve_static(has_site: bool, path: &str) -> (r: Option<String>)
    ensures
        !has_site ==> r is None,
        r matches Some(file) ==> file@ == without_leading(path@, '/') && !strays(file@),
        has_site && is_portable(without_leading(path@, '/')) ==> (r is Some <==> !strays(
            without_leading(path@, '/'),
        )),
        exists|parts: Seq<Part>|
            #[trigger] may_have_parts(without_leading(path@, '/'), parts) && (r is Some
                <==> has_site && all_names(parts)),
{
    let rel = trim_leading(path, '/');
    let text = rel.as_str();
    let parts = path_parts(text);
    proof {
        assert(call_ensures(path_parts, (text,), parts));
        assert(may_have_parts(rel@, parts@));
        lemma_without_leading(path@, '/');
        lemma_parts(pieces(rel@));
        lemma_split_length(rel@, '/');
    }
    static_path(has_site, rel, &parts)
}

/// The answer with a file of this media type, or without one if it could not be read.
pub fn static_answer(content_type: String, body: Option<Vec<u8>>) -> (r: StaticResponse)
    ensures
        body is None ==> r.is_not_found(),
        body matches Some(bytes) ==> (r matches StaticResponse::File(file) && file.status == OK
            && file.content_type == content_type && file.cache_control@ == CACHE_CONTROL@
            && file.body == bytes),
{
    match body {
        None => not_found(),
        Some(bytes) => StaticResponse::File(
            StaticFile { status: OK, content_type, cache_control: CACHE_CONTROL, body: bytes },
        ),
    }
}

/// The answer to a request for the file at `path`, from what was read of it.
pub fn static_response(path: &str, body: Option<Vec<u8>>) -> (r: StaticResponse)
    ensures
        body is None ==> r.is_not_found(),
        body matches Some(bytes) ==> {
            &&& r matches StaticResponse::File(file)
            &&& file.status == OK
            &&& file.cache_control@ == CACHE_CONTROL@
            &&& file.body == bytes
            &&& is_portable(path@) && without_leading(path@, '/') == path@
                ==> file.content_type@ == media_type(path@)
            &&& may_be_media_type(path@, file.content_type@)
            &&& !path@.contains('.') ==> file.content_type@ == "application/octet-stream"@
        },
{
    let content_type = guess_media_type(path);
    assert(call_ensures(guess_media_type, (path,), content_type));
    static_answer(content_type, body)
}

/// The answer that there is no such file.
pub fn not_found() -> (r: StaticResponse)
    ensures
        r.is_not_found(),
{
    StaticResponse::NotFound(NOT_FOUND, "not found")
}

/// Nothing is left to remove once the leading characters are removed.
pub proof fn lemma_without_leading(s: Seq<char>, c: char)
    ensures
        without_leading(without_leading(s, c), c) == without_leading(s, c),
        without_leading(s, c).len() > 0 ==> without_leading(s, c)[0] != c,
    decreases s.len(),
{
    if s.len() > 0 && s[0] == c {
        lemma_without_leading(s.skip(1), c);
    }
}

/// The parts of a path are names exactly if it does not stray.
pub proof fn lemma_parts(pieces: Seq<Seq<char>>)
    ensures
        all_names(parts_of(pieces)) <==> pieces.len() == 0 || !(pieces.first() == "."@
            || pieces.contains(".."@)),
    decreases pieces.len(),
{
    reveal_strlit(".");
    reveal_strlit("..");
    if pieces.len() > 0 {
        let init = pieces.drop_last();
        lemma_parts(init);
        let before = parts_of(init);
        let all = parts_of(pieces);
        if all.len() > before.len() {
            assert(all[all.len() - 1] == all.last());
            assert(all.drop_last() =~= before);
            assert(forall|i: int| 0 <= i < before.len() ==> all[i] == before[i]);
        }
        assert(pieces.contains(".."@) <==> init.contains(".."@) || pieces.last() == ".."@) by {
            if init.contains(".."@) {
                let i = choose|i: int| 0 <= i < init.len() && init[i] == ".."@;
                assert(pieces[i] == ".."@);
            }
            if pieces.last() == ".."@ {
                assert(pieces[pieces.len() - 1] == ".."@);
            }
            if pieces.contains(".."@) && pieces.last() != ".."@ {
                let i = choose|i: int| 0 <= i < pieces.len() && pieces[i] == ".."@;
                assert(init[i] == ".."@);
            }
        }
    }
}

// ---------------------------------------------------------------------------
// Laws
// ---------------------------------------------------------------------------

/// A portable path without a slash in front is read alike on all systems.
pub proof fn law_portable_paths_are_read_alike(
    path: Seq<char>,
    parts: Seq<Part>,
    content_type: Seq<char>,
)
    requires
        is_portable(path),
        without_leading(path, '/') == path,
    ensures
        may_have_parts(path, parts) ==> parts == parts_of(pieces(path)),
        may_be_media_type(path, content_type) ==> content_type == media_type(path),
{
}

/// Whether a path is served follows from the parts that the system takes it for, and the
/// media type from the system's extension.
proof fn law_the_system_reads_paths(
    has_site: bool,
    path: &str,
    r: Option<String>,
    body: Vec<u8>,
    answer: StaticResponse,
)
    requires
        call_ensures(serve_static, (has_site, path), r),
        call_ensures(static_response, (path, Some(body)), answer),
    ensures
        exists|rel: &str, parts: Vec<Part>|
            {
                &&& rel@ == without_leading(path@, '/')
                &&& #[trigger] call_ensures(path_parts, (rel,), parts)
                &&& r is Some <==> has_site && forall|i: int|
                    0 <= i < parts@.len() ==> #[trigger] parts@[i] == Part::Name
            },
        exists|p: &str, guessed: String|
            {
                &&& p@ == path@
                &&& #[trigger] call_ensures(guess_media_type, (p,), guessed)
                &&& answer matches StaticResponse::File(file) && file.content_type@ == guessed@
            },
{
    let names = choose|parts: Seq<Part>|
        #[trigger] may_have_parts(without_leading(path@, '/'), parts) && (r is Some <==> has_site
            && all_names(parts));
    assert(may_have_parts(without_leading(path@, '/'), names));
    let (rel, parts) = choose|p: &str, v: Vec<Part>|
        p@ == without_leading(path@, '/') && v@ == names && #[trigger] call_ensures(
            path_parts,
            (p,),
            v,
        );
    assert(call_ensures(path_parts, (rel,), parts));
    assert(may_be_media_type(path@, answer->File_0.content_type@));
}

/// No path is served twice.
pub proof fn law_paths_are_distinct(has_site: bool)
    ensures
        forall|i: int, j: int|
            0 <= i < j < routes(has_site).len() ==> (#[trigger] routes(has_site)[i]).path != (
            #[trigger] routes(has_site)[j]).path,
{
    reveal_strlit("/api/health");
    reveal_strlit("/api/repos");
    reveal_strlit("/api/repos/{repo}");
    reveal_strlit("/api/repos/{repo}/packages");
    reveal_strlit("/api/repos/{repo}/packages/{pkg}");
    reveal_strlit("/api/suggest/licenses");
    reveal_strlit("/api/suggest/platforms");
    reveal_strlit("/");
    reveal_strlit("/p/{page}");
    reveal_strlit("/search");
    reveal_strlit("/repos");
    reveal_strlit("/repos.xml");
    reveal_strlit("/repos/{repo}");
    reveal_strlit("/repos/{repo}/{pkg}");
    reveal_strlit("/repos/{repo}/{pkg}/feed.xml");
    reveal_strlit("/static/{*path}");
    assert("/api/repos"@[1] == 'a' && "/repos.xml"@[1] == 'r');
    let lengths = seq![11int, 10, 17, 26, 32, 21, 22, 1, 9, 7, 6, 10, 13, 19, 28, 15];
    let all = routes(has_site);
    assert(all.len() == 7 || all.len() == 16);
    assert forall|i: int| 0 <= i < all.len() implies (#[trigger] all[i]).path.len()
        == lengths[i] by {
        if i >= 7 {
            assert(all[i] == site_routes()[i - 7]);
        } else {
            assert(all[i] == api_routes()[i]);
        }
    }
    assert forall|i: int, j: int| 0 <= i < j < all.len() implies (#[trigger] all[i]).path != (
    #[trigger] all[j]).path by {
        if i == 1 && j == 11 {
            assert(all[1] == api_routes()[1]);
            assert(all[11] == site_routes()[4]);
        } else {
            assert(lengths[i] != lengths[j]);
        }
    }
}

/// The API is served with and without a site.
pub proof fn law_api_is_always_served(has_site: bool)
    ensures
        api_routes().is_prefix_of(routes(has_site)),
        !has_site ==> routes(has_site) == api_routes(),
{
    assert(api_routes() =~= routes(has_site).take(api_routes().len() as int));
}

/// Everything that is served is read, and nothing is written.
pub proof fn law_paths_are_only_read(has_site: bool)
    ensures
        forall|i: int|
            0 <= i < routes(has_site).len() ==> (#[trigger] routes(has_site)[i]).method == "GET"@,
{
    let all = routes(has_site);
    assert forall|i: int| 0 <= i < all.len() implies (#[trigger] all[i]).method == "GET"@ by {
        if i >= 7 {
            assert(all[i] == site_routes()[i - 7]);
        } else {
            assert(all[i] == api_routes()[i]);
        }
    }
}

/// Requests to the site are timed, and those to the API are not.
pub proof fn law_site_is_timed(has_site: bool)
    ensures
        forall|i: int|
            0 <= i < routes(has_site).len() ==> ((#[trigger] routes(has_site)[i]).timed <==> i
                >= api_routes().len()),
{
    let all = routes(has_site);
    assert forall|i: int| 0 <= i < all.len() implies ((#[trigger] all[i]).timed <==> i
        >= api_routes().len()) by {
        if i >= 7 {
            assert(all[i] == site_routes()[i - 7]);
        } else {
            assert(all[i] == api_routes()[i]);
        }
    }
}

} // verus!
