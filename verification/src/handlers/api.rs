//! The answers of the API.

use vstd::prelude::*;

use crate::manager::statement::{int_value, text_value, BindView, Statement};
use crate::manager::{is_back, more_than, page_rows, plain, repo_binds, Error, Manager};
use crate::models::{Cursor, Package, PackageQuery, PackageResults, Repo, RepoQuery, Sort};
use crate::text::replaced;

verus! {

/// The most suggestions that one request is answered with.
pub const LIMIT: usize = 15;

/// HTTP status codes.
pub const OK: u16 = 200;

pub const BAD_REQUEST: u16 = 400;

pub const NOT_FOUND: u16 = 404;

pub const SERVICE_UNAVAILABLE: u16 = 503;

/// Why a request is refused.
#[derive(Debug)]
pub enum ApiErr {
    /// With a message and a status code of its own.
    Status(String, u16),
    /// The database had no answer.
    Manager(Error),
}

impl ApiErr {
    /// Whether the error has this message and this status code.
    pub open spec fn says(&self, message: Seq<char>, status: u16) -> bool {
        self matches ApiErr::Status(m, s) && m@ == message && s == status
    }
}

/// The answer to a health check.
#[derive(Debug)]
pub struct HealthStatus {
    pub status: &'static str,
    pub database: &'static str,
    pub repos_loaded: usize,
}

/// The text that suggestions are asked for.
#[derive(Debug)]
pub struct SuggestQuery {
    pub q: String,
}

impl Default for SuggestQuery {
    fn default() -> (r: SuggestQuery)
        ensures
            r.q@.len() == 0,
    {
        SuggestQuery { q: String::new() }
    }
}

/// The values that are suggested from.
#[derive(Debug, Clone, Copy, PartialEq, Eq, Structural)]
pub enum Source {
    Licenses,
    Platforms,
}

/// Which suggestions are asked for, and how many at most.
#[derive(Debug)]
pub struct Suggest {
    pub source: Source,
    pub text: String,
    pub limit: usize,
}

/// How packages are fetched.
#[derive(Debug, Clone, Copy, PartialEq, Eq, Structural)]
pub enum Fetch {
    /// In alphabetical order.
    Browse,
    /// By a search term.
    Search,
}

/// How to go on with a page of packages.
#[derive(Debug)]
pub enum ListStep<P> {
    /// Count the packages on all pages.
    Count(Vec<Package<P>>, bool),
    /// The page is complete.
    Done(PackageResults<P>),
}

/// What a page number and a page size are checked against.
#[derive(Debug)]
pub struct PageRequest {
    pub page: i32,
    pub per_page: i32,
    pub max_per_page: i32,
    pub default_per_page: i32,
}

/// A page number and a page size that passed the check, and the rows before the page.
#[derive(Debug, Clone, Copy)]
pub struct Paged {
    pub page: i32,
    pub limit: i32,
    pub offset: i32,
}

// ---------------------------------------------------------------------------
// Health and suggestions
// ---------------------------------------------------------------------------

/// The answer to a health check, from whether the database answered.
pub fn health_check(database: &Result<(), Error>, repos_loaded: usize) -> (r: (u16, HealthStatus))
    ensures
        r.1.repos_loaded == repos_loaded,
        database is Ok ==> r.0 == OK && r.1.status@ == "healthy"@ && r.1.database@ == "connected"@,
        database is Err ==> r.0 == SERVICE_UNAVAILABLE && r.1.status@ == "unhealthy"@
            && r.1.database@ == "disconnected"@,
{
    match database {
        Ok(_) => (OK, HealthStatus { status: "healthy", database: "connected", repos_loaded }),
        Err(_) => (
            SERVICE_UNAVAILABLE,
            HealthStatus { status: "unhealthy", database: "disconnected", repos_loaded },
        ),
    }
}

/// Suggests licenses.
pub fn suggest_licenses(q: &SuggestQuery) -> (r: Suggest)
    ensures
        r.source == Source::Licenses,
        r.text@ == q.q@,
        r.limit == LIMIT,
{
    Suggest { source: Source::Licenses, text: q.q.clone(), limit: LIMIT }
}

/// Suggests platforms.
pub fn suggest_platforms(q: &SuggestQuery) -> (r: Suggest)
    ensures
        r.source == Source::Platforms,
        r.text@ == q.q@,
        r.limit == LIMIT,
{
    Suggest { source: Source::Platforms, text: q.q.clone(), limit: LIMIT }
}

// ---------------------------------------------------------------------------
// Repositories and packages by their slugs
// ---------------------------------------------------------------------------

/// Asks for all repositories by name. `ascending` is the word for that direction.
pub fn get_repos(mgr: &Manager, ascending: &str, filter: &RepoQuery) -> (r: Statement)
    ensures
        r@ == plain(
            replaced(
                replaced(mgr.queries.get_repos@, "{ORDER_BY}"@, "name"@),
                "{ORDER}"@,
                ascending@,
            ),
            repo_binds(*filter),
        ),
{
    let sort = Sort { order_by: "name".to_owned(), order: ascending.to_owned() };
    mgr.get_repos(&sort, filter)
}

/// Asks for a repository by its slug. [`repo_found`] takes the reply.
pub fn get_repo_by_slug(mgr: &Manager, slug: &str) -> (r: Statement)
    ensures
        r@ == plain(mgr.queries.get_repo@, seq![BindView::Int(None), text_value(slug@)]),
{
    let s = mgr.get_repo(None, Some(slug));
    assert(s@.binds =~= seq![BindView::Int(None), text_value(slug@)]);
    s
}

/// The repository that was asked for by its slug.
pub fn repo_found<R>(found: Result<R, Error>) -> (r: Result<R, ApiErr>)
    ensures
        match found {
            Ok(repo) => r == Ok::<R, ApiErr>(repo),
            Err(Error::NotFound) => r is Err && r->Err_0.says("Unknown repository."@, NOT_FOUND),
            Err(e) => r == Err::<R, ApiErr>(ApiErr::Manager(e)),
        },
{
    match found {
        Ok(repo) => Ok(repo),
        Err(Error::NotFound) => Err(
            ApiErr::Status("Unknown repository.".to_owned(), NOT_FOUND),
        ),
        Err(e) => Err(ApiErr::Manager(e)),
    }
}

/// Asks for a package by its slug, once the repository with its slug was found.
/// [`package_found`] takes the reply.
pub fn get_package_by_slug(mgr: &Manager, repo: &Repo, slug: &str) -> (r: Statement)
    ensures
        r@ == plain(
            mgr.queries.get_package@,
            seq![int_value(repo.id as int), text_value(slug@)],
        ),
{
    mgr.get_package(repo.id, slug)
}

/// The package that was asked for by its slug, with its repository.
pub fn package_found<R, P>(repo: R, found: Result<P, Error>) -> (r: Result<(R, P), ApiErr>)
    ensures
        match found {
            Ok(package) => r == Ok::<(R, P), ApiErr>((repo, package)),
            Err(Error::NotFound) => r is Err && r->Err_0.says(
                "The package does not exist in this repository."@,
                NOT_FOUND,
            ),
            Err(e) => r == Err::<(R, P), ApiErr>(ApiErr::Manager(e)),
        },
{
    match found {
        Ok(package) => Ok((repo, package)),
        Err(Error::NotFound) => Err(
            ApiErr::Status("The package does not exist in this repository.".to_owned(), NOT_FOUND),
        ),
        Err(e) => Err(ApiErr::Manager(e)),
    }
}

// ---------------------------------------------------------------------------
// Pages of packages
// ---------------------------------------------------------------------------

/// How packages are fetched: a search term makes it a search.
pub open spec fn fetch_of(q: PackageQuery) -> Fetch {
    if q.term@.len() == 0 {
        Fetch::Browse
    } else {
        Fetch::Search
    }
}

/// Why a request for packages is refused: because the repository was not found, or else
/// because the request itself is not valid.
pub open spec fn refused(found: Result<Repo, Error>, valid: Result<(), String>, e: ApiErr) -> bool {
    match found {
        Err(Error::NotFound) => e.says("Unknown repository."@, NOT_FOUND),
        Err(cause) => e == ApiErr::Manager(cause),
        Ok(_) => valid matches Err(message) && e.says(message@, BAD_REQUEST),
    }
}

/// What paging leaves of a request: it is told the repository and the page.
pub open spec fn paged_query(
    q: PackageQuery,
    repo: Repo,
    paged: Paged,
    after: String,
    before: String,
) -> PackageQuery {
    PackageQuery {
        repo_id: repo.id,
        page: paged.page,
        per_page: paged.limit,
        limit: paged.limit,
        offset: paged.offset,
        after,
        before,
        ..q
    }
}

/// The repository, once the request is valid.
fn checked(found: Result<Repo, Error>, valid: Result<(), String>) -> (r: Result<Repo, ApiErr>)
    ensures
        r is Ok <==> found is Ok && valid is Ok,
        r matches Ok(repo) ==> found == Ok::<Repo, Error>(repo),
        r matches Err(e) ==> refused(found, valid, e),
{
    match repo_found(found) {
        Err(e) => Err(e),
        Ok(repo) => match valid {
            Ok(_) => Ok(repo),
            Err(message) => Err(ApiErr::Status(message, BAD_REQUEST)),
        },
    }
}

/// The page that a request to the API is for. It only exposes the first batch.
pub fn query_paging(q: &PackageQuery, max_per_page: i32, default_per_page: i32) -> (r: PageRequest)
    ensures
        r == (PageRequest { page: 1, per_page: q.per_page, max_per_page, default_per_page }),
{
    PageRequest { page: 1, per_page: q.per_page, max_per_page, default_per_page }
}

/// Prepares a request to the API for packages of a repository. `paged` is what
/// [`query_paging`] came to. Such requests are not paged through: cursors are dropped.
pub fn query_packages(
    q: &mut PackageQuery,
    found: Result<Repo, Error>,
    valid: Result<(), String>,
    paged: Paged,
) -> (r: Result<Fetch, ApiErr>)
    ensures
        r is Ok <==> found is Ok && valid is Ok,
        r matches Ok(fetch) ==> {
            &&& fetch == fetch_of(*final(q))
            &&& *final(q) == paged_query(
                *old(q),
                found->Ok_0,
                paged,
                final(q).after,
                final(q).before,
            )
            &&& final(q).after@.len() == 0
            &&& final(q).before@.len() == 0
        },
        r matches Err(e) ==> refused(found, valid, e) && *final(q) == *old(q),
{
    match checked(found, valid) {
        Err(e) => Err(e),
        Ok(repo) => {
            q.repo_id = repo.id;
            q.page = paged.page;
            q.per_page = paged.limit;
            q.limit = paged.limit;
            q.offset = paged.offset;
            q.after = String::new();
            q.before = String::new();
            Ok(list_packages(q))
        },
    }
}

/// The page that a request of the site is for.
pub fn search_paging(q: &PackageQuery, max_per_page: i32, default_per_page: i32) -> (r: PageRequest)
    ensures
        r == (PageRequest { page: q.page, per_page: q.per_page, max_per_page, default_per_page }),
{
    PageRequest { page: q.page, per_page: q.per_page, max_per_page, default_per_page }
}

/// Prepares a request of the site for packages of a repository. `paged` is what
/// [`search_paging`] came to.
pub fn search_packages(
    q: &mut PackageQuery,
    found: Result<Repo, Error>,
    valid: Result<(), String>,
    paged: Paged,
) -> (r: Result<Repo, ApiErr>)
    ensures
        r is Ok <==> found is Ok && valid is Ok,
        r matches Ok(repo) ==> {
            &&& found == Ok::<Repo, Error>(repo)
            &&& *final(q) == paged_query(*old(q), repo, paged, old(q).after, old(q).before)
        },
        r matches Err(e) ==> refused(found, valid, e) && *final(q) == *old(q),
{
    match checked(found, valid) {
        Err(e) => Err(e),
        Ok(repo) => {
            q.repo_id = repo.id;
            q.page = paged.page;
            q.per_page = paged.limit;
            q.offset = paged.offset;
            q.limit = paged.limit;
            Ok(repo)
        },
    }
}

/// Starts on a page of packages. [`list_fetched`] takes the packages.
pub fn list_packages(q: &PackageQuery) -> (r: Fetch)
    ensures
        r == fetch_of(*q),
{
    if q.term.as_str().is_empty() {
        Fetch::Browse
    } else {
        Fetch::Search
    }
}

/// The page that a search found. It is not counted and has no cursors.
pub open spec fn search_results<P>(
    q: PackageQuery,
    packages: Vec<Package<P>>,
    has_more: bool,
) -> PackageResults<P> {
    PackageResults {
        packages,
        per_page: q.limit,
        total: None,
        total_capped: false,
        page: q.page,
        has_more,
        next: None,
        prev: None,
    }
}

/// The page that a search found.
fn list_searched<P>(q: &PackageQuery, packages: Vec<Package<P>>, has_more: bool) -> (r:
    PackageResults<P>)
    ensures
        r == search_results(*q, packages, has_more),
{
    PackageResults {
        packages,
        per_page: q.limit,
        total: None,
        total_capped: false,
        page: q.page,
        has_more,
        next: None,
        prev: None,
    }
}

/// The cursor of the first package.
pub open spec fn first_cursor<P>(packages: Seq<Package<P>>) -> Option<(Seq<char>, i64)> {
    if packages.len() == 0 {
        None
    } else {
        Some(packages.first().cursor@)
    }
}

/// The cursor of the last package.
pub open spec fn last_cursor<P>(packages: Seq<Package<P>>) -> Option<(Seq<char>, i64)> {
    if packages.len() == 0 {
        None
    } else {
        Some(packages.last().cursor@)
    }
}

/// Where the next page starts: after the last package. Going onwards there is a next
/// page if more packages were found; having come backwards there always is one.
pub open spec fn next_cursor<P>(q: PackageQuery, packages: Seq<Package<P>>, has_more: bool)
    -> Option<(Seq<char>, i64)> {
    if q.before@.len() == 0 && !has_more {
        None
    } else {
        last_cursor(packages)
    }
}

/// Where the previous page ends: before the first package. Going onwards there is a
/// previous page unless this is the first one; going backwards there is one if more
/// packages were found.
pub open spec fn prev_cursor<P>(q: PackageQuery, packages: Seq<Package<P>>, has_more: bool)
    -> Option<(Seq<char>, i64)> {
    if q.before@.len() == 0 {
        if q.after@.len() == 0 {
            None
        } else {
            first_cursor(packages)
        }
    } else {
        if has_more {
            first_cursor(packages)
        } else {
            None
        }
    }
}

/// An optional cursor as a mathematical value.
pub open spec fn optional_cursor(c: Option<Cursor>) -> Option<(Seq<char>, i64)> {
    match c {
        None => None,
        Some(cursor) => Some(cursor@),
    }
}

/// Whether `r` is the page of packages in alphabetical order, with their total and the
/// cursors of the pages next to it.
pub open spec fn is_browse_results<P>(
    r: PackageResults<P>,
    q: PackageQuery,
    packages: Vec<Package<P>>,
    has_more: bool,
    total: i64,
    total_capped: bool,
) -> bool {
    &&& r.packages == packages
    &&& r.per_page == q.limit
    &&& r.total == Some(total)
    &&& r.total_capped == total_capped
    &&& r.page == 0
    &&& r.has_more == has_more
    &&& optional_cursor(r.next) == next_cursor(q, packages@, has_more)
    &&& optional_cursor(r.prev) == prev_cursor(q, packages@, has_more)
}

/// Goes on with a page once its packages are there. A search is not counted, and neither
/// is a repository that no filter restricts. [`list_counted`] takes the count.
pub fn list_fetched<P>(
    repo: &Repo,
    q: &PackageQuery,
    packages: Vec<Package<P>>,
    has_more: bool,
) -> (r: ListStep<P>)
    ensures
        match fetch_of(*q) {
            Fetch::Search => r == ListStep::Done(search_results(*q, packages, has_more)),
            Fetch::Browse => if q.has_filters {
                r == ListStep::Count(packages, has_more)
            } else {
                r matches ListStep::Done(results) && is_browse_results(
                    results,
                    *q,
                    packages,
                    has_more,
                    repo.package_count,
                    false,
                )
            },
        },
{
    match list_packages(q) {
        Fetch::Search => ListStep::Done(list_searched(q, packages, has_more)),
        Fetch::Browse => {
            if q.has_filters {
                ListStep::Count(packages, has_more)
            } else {
                ListStep::Done(list_counted(q, packages, has_more, repo.package_count, false))
            }
        },
    }
}

/// The page of packages in alphabetical order, once their total is known.
pub fn list_counted<P>(
    q: &PackageQuery,
    packages: Vec<Package<P>>,
    has_more: bool,
    total: i64,
    total_capped: bool,
) -> (r: PackageResults<P>)
    ensures
        is_browse_results(r, *q, packages, has_more, total, total_capped),
{
    let count = packages.len();
    let (first, last) = if count == 0 {
        (None, None)
    } else {
        (Some(Cursor::of(&packages[0])), Some(Cursor::of(&packages[count - 1])))
    };
    let (next, prev) = if q.before.as_str().is_empty() {
        (
            if has_more {
                last
            } else {
                None
            },
            if q.after.as_str().is_empty() {
                None
            } else {
                first
            },
        )
    } else {
        (
            last,
            if has_more {
                first
            } else {
                None
            },
        )
    };
    PackageResults {
        packages,
        per_page: q.limit,
        total: Some(total),
        total_capped,
        page: 0,
        has_more,
        next,
        prev,
    }
}

// ---------------------------------------------------------------------------
// Laws
// ---------------------------------------------------------------------------

/// A page without packages has no neighbours, and otherwise the next page starts after
/// the last package and the previous one ends before the first.
pub proof fn law_cursors_are_at_the_ends<P>(
    q: PackageQuery,
    packages: Seq<Package<P>>,
    has_more: bool,
)
    ensures
        next_cursor(q, packages, has_more) matches Some(c) ==> packages.len() > 0 && c
            == packages.last().cursor@,
        prev_cursor(q, packages, has_more) matches Some(c) ==> packages.len() > 0 && c
            == packages.first().cursor@,
{
}

/// Going backwards, `after` plays no part in where the next and the previous page are.
pub proof fn law_before_decides_neighbours<P>(
    q: PackageQuery,
    after: String,
    packages: Seq<Package<P>>,
    has_more: bool,
)
    requires
        q.before@.len() > 0,
    ensures
        ({
            let other = PackageQuery { after, ..q };
            &&& next_cursor(other, packages, has_more) == next_cursor(q, packages, has_more)
            &&& prev_cursor(other, packages, has_more) == prev_cursor(q, packages, has_more)
        }),
{
}

/// Going onwards, there is a next page exactly if more rows came back than the page
/// holds, and a page before the first one never.
pub proof fn law_onwards<P>(q: PackageQuery, rows: Seq<Package<P>>)
    requires
        q.limit > 0,
        !is_back(q),
    ensures
        ({
            let page = page_rows(rows, q.limit as int, false);
            let has_more = more_than(rows, q.limit as int);
            &&& next_cursor(q, page, has_more) is Some <==> rows.len() > q.limit
            &&& q.after@.len() == 0 ==> prev_cursor(q, page, has_more) is None
            &&& q.after@.len() > 0 ==> (prev_cursor(q, page, has_more) is Some <==> rows.len() > 0)
        }),
{
}

/// Going backwards, there is a previous page exactly if more rows came back than the page
/// holds, and a next page whenever there is a package on this one.
pub proof fn law_backwards<P>(q: PackageQuery, rows: Seq<Package<P>>)
    requires
        q.limit > 0,
        is_back(q),
    ensures
        ({
            let page = page_rows(rows, q.limit as int, true);
            let has_more = more_than(rows, q.limit as int);
            &&& prev_cursor(q, page, has_more) is Some <==> rows.len() > q.limit
            &&& next_cursor(q, page, has_more) is Some <==> rows.len() > 0
        }),
{
}

/// The pages next to each other meet: going onwards, the next page starts after the last
/// row that was kept; going backwards, the previous page ends before the last row that was
/// kept, which is the first of the page.
pub proof fn law_pages_meet<P>(q: PackageQuery, rows: Seq<Package<P>>)
    requires
        q.limit > 0,
        rows.len() > q.limit,
    ensures
        ({
            let page = page_rows(rows, q.limit as int, is_back(q));
            let edge = rows[q.limit - 1].cursor@;
            if is_back(q) {
                prev_cursor(q, page, true) == Some(edge)
            } else {
                next_cursor(q, page, true) == Some(edge)
            }
        }),
{
}

} // verus!
