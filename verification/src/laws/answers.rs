//! Laws on what requests are answered.

use vstd::prelude::*;

use crate::handlers::api::{
    get_package_by_slug, get_repo_by_slug, get_repos, health_check, list_counted, list_fetched,
    list_packages, package_found, query_packages, query_paging, repo_found, search_packages,
    search_paging, suggest_licenses, suggest_platforms, ApiErr, Fetch, HealthStatus, ListStep,
    PageRequest, Paged, Source, Suggest, SuggestQuery,
};
use crate::laws::queries::{are_same, is_int, is_plain, is_text};
use crate::manager::statement::{Bind, Statement};
use crate::manager::{Error, Manager};
use crate::models::{Cursor, Facet, Package, PackageQuery, PackageResults, Repo, RepoQuery, Sort};

verus! {

// ---------------------------------------------------------------------------
// Health and suggestions
// ---------------------------------------------------------------------------

/// A health check tells whether the database answered, by its status code too, and how many
/// repositories were loaded in either case.
pub proof fn law_health(database: &Result<(), Error>, repos_loaded: usize, r: (u16, HealthStatus))
    requires
        call_ensures(health_check, (database, repos_loaded), r),
    ensures
        r.1.repos_loaded == repos_loaded,
        database is Ok ==> r.0 == 200 && r.1.status@ == "healthy"@ && r.1.database@
            == "connected"@,
        database is Err ==> r.0 == 503 && r.1.status@ == "unhealthy"@ && r.1.database@
            == "disconnected"@,
{
}

/// Unless asked otherwise, suggestions are for the empty text.
pub proof fn law_suggestions_by_default(r: SuggestQuery)
    requires
        call_ensures(SuggestQuery::default, (), r),
    ensures
        r.q@.len() == 0,
{
}

/// Suggestions are for the text as it came in, fifteen at most, each from its own source.
pub proof fn law_suggestions(q: &SuggestQuery, licenses: Suggest, platforms: Suggest)
    requires
        call_ensures(suggest_licenses, (q,), licenses),
        call_ensures(suggest_platforms, (q,), platforms),
    ensures
        licenses.source == Source::Licenses,
        platforms.source == Source::Platforms,
        licenses.text@ == q.q@,
        platforms.text@ == q.q@,
        licenses.limit == 15,
        platforms.limit == 15,
{
}

// ---------------------------------------------------------------------------
// Repositories and packages
// ---------------------------------------------------------------------------

/// The list of repositories is that of the manager, by name.
pub proof fn law_repositories_come_by_name(
    mgr: &Manager,
    ascending: &str,
    filter: &RepoQuery,
    sort: &Sort,
    by_name: Statement,
    r: Statement,
)
    requires
        sort.order_by@ == "name"@,
        sort.order@ == ascending@,
        call_ensures(Manager::get_repos, (mgr, sort, filter), by_name),
        call_ensures(get_repos, (mgr, ascending, filter), r),
    ensures
        is_plain(r, by_name.sql@, 3),
        forall|i: int| 0 <= i < 3 ==> are_same(#[trigger] r.binds@[i], by_name.binds@[i]),
{
    assert(r@.binds.len() == r.binds@.len() && by_name@.binds.len() == by_name.binds@.len());
    assert forall|i: int| 0 <= i < 3 implies are_same(
        #[trigger] r.binds@[i],
        by_name.binds@[i],
    ) by {
        assert(r@.binds[i] == r.binds@[i]@);
        assert(by_name@.binds[i] == by_name.binds@[i]@);
    }
}

/// A repository is asked for by its slug alone, and a package by its slug in the repository.
pub proof fn law_asking_by_slug(
    mgr: &Manager,
    repo: &Repo,
    slug: &str,
    of_repo: Statement,
    of_package: Statement,
)
    requires
        call_ensures(get_repo_by_slug, (mgr, slug), of_repo),
        call_ensures(get_package_by_slug, (mgr, repo, slug), of_package),
    ensures
        is_plain(of_repo, mgr.queries.get_repo@, 2),
        of_repo.binds@[0] == Bind::Int(None),
        is_text(of_repo.binds@[1], slug@),
        is_plain(of_package, mgr.queries.get_package@, 2),
        is_int(of_package.binds@[0], repo.id as int),
        is_text(of_package.binds@[1], slug@),
{
    assert(of_repo@.binds.len() == of_repo.binds@.len());
    assert(of_package@.binds.len() == of_package.binds@.len());
    assert(of_repo@.binds[0] == of_repo.binds@[0]@ && of_repo@.binds[1] == of_repo.binds@[1]@);
    assert(of_package@.binds[0] == of_package.binds@[0]@);
    assert(of_package@.binds[1] == of_package.binds@[1]@);
}

/// Whether an error has this message and this status code.
pub open spec fn answers(e: ApiErr, message: Seq<char>, status: int) -> bool {
    e matches ApiErr::Status(m, s) && m@ == message && s == status
}

/// Whether an error says that there is no such repository, or else passes the failure of the
/// database on.
pub open spec fn answers_repo(e: ApiErr, cause: Error) -> bool {
    match cause {
        Error::NotFound => answers(e, "Unknown repository."@, 404),
        Error::Db(_) => e == ApiErr::Manager(cause),
    }
}

/// A repository that was found is handed on; one that was not has an answer of its own, and
/// a failure of the database is passed on.
pub proof fn law_repositories_are_found<R>(found: Result<R, Error>, r: Result<R, ApiErr>)
    requires
        call_ensures(repo_found::<R>, (found,), r),
    ensures
        found matches Ok(repo) ==> r == Ok::<R, ApiErr>(repo),
        found matches Err(cause) ==> (r matches Err(e) && answers_repo(e, cause)),
{
}

/// A package that was found is handed on with its repository; one that was not has an answer
/// of its own, and a failure of the database is passed on.
pub proof fn law_packages_are_found<R, P>(
    repo: R,
    found: Result<P, Error>,
    r: Result<(R, P), ApiErr>,
)
    requires
        call_ensures(package_found::<R, P>, (repo, found), r),
    ensures
        found matches Ok(package) ==> r == Ok::<(R, P), ApiErr>((repo, package)),
        found matches Err(Error::NotFound) ==> (r matches Err(e) && answers(
            e,
            "The package does not exist in this repository."@,
            404,
        )),
        found matches Err(Error::Db(message)) ==> r == Err::<(R, P), ApiErr>(
            ApiErr::Manager(Error::Db(message)),
        ),
{
}

// ---------------------------------------------------------------------------
// Requests for packages
// ---------------------------------------------------------------------------

/// The API asks for the first page whatever the request says, and the site for the one that
/// it says; both for the page size of the request, within the same bounds.
pub proof fn law_pages_asked_for(
    q: &PackageQuery,
    max_per_page: i32,
    default_per_page: i32,
    of_api: PageRequest,
    of_site: PageRequest,
)
    requires
        call_ensures(query_paging, (q, max_per_page, default_per_page), of_api),
        call_ensures(search_paging, (q, max_per_page, default_per_page), of_site),
    ensures
        of_api.page == 1,
        of_site.page == q.page,
        of_api.per_page == q.per_page && of_site.per_page == q.per_page,
        of_api.max_per_page == max_per_page && of_site.max_per_page == max_per_page,
        of_api.default_per_page == default_per_page && of_site.default_per_page
            == default_per_page,
{
}

/// Whether two requests ask for the same packages, be it of other repositories or on other
/// pages.
pub open spec fn asks_alike(a: PackageQuery, b: PackageQuery) -> bool {
    &&& a.term == b.term
    &&& a.name_only == b.name_only
    &&& a.facets == b.facets
    &&& a.has_filters == b.has_filters
    &&& a.platform == b.platform
    &&& a.version == b.version
    &&& a.updated_at == b.updated_at
}

/// Whether a request is for this page of this repository.
pub open spec fn is_for_page(q: PackageQuery, repo: Repo, paged: Paged) -> bool {
    &&& q.repo_id == repo.id
    &&& q.page == paged.page
    &&& q.per_page == paged.limit
    &&& q.limit == paged.limit
    &&& q.offset == paged.offset
}

/// Whether a request is refused for the right reason: first that the repository was not
/// found, and only then that the request is not valid.
pub open spec fn is_refused(
    e: ApiErr,
    found: Result<Repo, Error>,
    valid: Result<(), String>,
) -> bool {
    match found {
        Err(cause) => answers_repo(e, cause),
        Ok(_) => valid matches Err(message) && answers(e, message@, 400),
    }
}

/// A valid request to the API for packages of a repository that was found is told the
/// repository and the page, forgets its cursors, and asks for the same packages as before; a
/// term makes it a search. Any other is refused, and left as it was.
pub proof fn law_requests_to_the_api(
    q: &mut PackageQuery,
    found: Result<Repo, Error>,
    valid: Result<(), String>,
    paged: Paged,
    r: Result<Fetch, ApiErr>,
)
    requires
        call_ensures(query_packages, (q, found, valid, paged), r),
    ensures
        r is Ok <==> found is Ok && valid is Ok,
        r matches Ok(fetch) ==> {
            &&& is_for_page(*final(q), found->Ok_0, paged)
            &&& asks_alike(*final(q), *old(q))
            &&& final(q).after@.len() == 0 && final(q).before@.len() == 0
            &&& fetch == Fetch::Browse <==> old(q).term@.len() == 0
        },
        r matches Err(e) ==> is_refused(e, found, valid) && *final(q) == *old(q),
{
}

/// A valid request of the site for packages of a repository that was found is told the
/// repository and the page, and keeps everything else, its cursors too. Any other is refused,
/// and left as it was.
pub proof fn law_requests_of_the_site(
    q: &mut PackageQuery,
    found: Result<Repo, Error>,
    valid: Result<(), String>,
    paged: Paged,
    r: Result<Repo, ApiErr>,
)
    requires
        call_ensures(search_packages, (q, found, valid, paged), r),
    ensures
        r is Ok <==> found is Ok && valid is Ok,
        r matches Ok(repo) ==> {
            &&& found == Ok::<Repo, Error>(repo)
            &&& is_for_page(*final(q), repo, paged)
            &&& asks_alike(*final(q), *old(q))
            &&& final(q).after == old(q).after && final(q).before == old(q).before
        },
        r matches Err(e) ==> is_refused(e, found, valid) && *final(q) == *old(q),
{
}

/// A term makes a request a search; without one packages are browsed.
pub proof fn law_a_term_makes_a_search(q: &PackageQuery, r: Fetch)
    requires
        call_ensures(list_packages, (q,), r),
    ensures
        r == Fetch::Search <==> q.term@.len() > 0,
        r == Fetch::Browse <==> q.term@.len() == 0,
{
}

// ---------------------------------------------------------------------------
// Pages of results
// ---------------------------------------------------------------------------

/// Whether an optional cursor is at this package.
pub open spec fn is_at<P>(c: Option<Cursor>, package: Package<P>) -> bool {
    c matches Some(cursor) && cursor.name@ == package.cursor.name@ && cursor.id
        == package.cursor.id
}

/// Whether the results hold these packages, and say of them whether there is more.
pub open spec fn holds<P>(
    r: PackageResults<P>,
    q: PackageQuery,
    packages: Vec<Package<P>>,
    has_more: bool,
) -> bool {
    r.packages == packages && r.has_more == has_more && r.per_page == q.limit
}

/// The results of a search hold the packages that it found and say that there is more exactly
/// if the search did. They are on the page that was asked for, are not counted, and have no
/// links.
pub proof fn law_results_of_a_search<P>(
    repo: &Repo,
    q: &PackageQuery,
    packages: Vec<Package<P>>,
    has_more: bool,
    r: ListStep<P>,
)
    requires
        q.term@.len() > 0,
        call_ensures(list_fetched::<P>, (repo, q, packages, has_more), r),
    ensures
        r matches ListStep::Done(results) && {
            &&& holds(results, *q, packages, has_more)
            &&& results.page == q.page
            &&& results.total is None && !results.total_capped
            &&& results.next is None && results.prev is None
        },
{
}

/// Packages that are browsed are counted first if a filter restricts them. Without filters
/// the results are as if the count had come to the number of packages in the repository.
pub proof fn law_results_of_browsing<P>(
    repo: &Repo,
    q: &PackageQuery,
    packages: Vec<Package<P>>,
    has_more: bool,
    r: ListStep<P>,
)
    requires
        q.term@.len() == 0,
        call_ensures(list_fetched::<P>, (repo, q, packages, has_more), r),
    ensures
        q.has_filters ==> r == ListStep::Count(packages, has_more),
        !q.has_filters ==> (r matches ListStep::Done(results) && {
            &&& holds(results, *q, packages, has_more)
            &&& results.page == 0
            &&& results.total == Some(repo.package_count) && !results.total_capped
            &&& links(results, *q)
        }),
{
}

/// Whether the links of a page lead where they should. Going onwards, the next page starts
/// after the last package if there is more, and the previous one ends before the first
/// package unless this is the first page. Going backwards, there is always a next page, and
/// a previous one if there is more. A page without packages has no links.
pub open spec fn links<P>(r: PackageResults<P>, q: PackageQuery) -> bool {
    let some = r.packages@.len() > 0;
    let back = q.before@.len() > 0;
    &&& if some && (back || r.has_more) {
        is_at(r.next, r.packages@[r.packages@.len() - 1])
    } else {
        r.next is None
    }
    &&& if some && (if back {
        r.has_more
    } else {
        q.after@.len() > 0
    }) {
        is_at(r.prev, r.packages@[0])
    } else {
        r.prev is None
    }
}

/// Once packages were counted, the results hold them with the count as it is, and the links
/// to the pages next to it.
pub proof fn law_results_with_a_count<P>(
    q: &PackageQuery,
    packages: Vec<Package<P>>,
    has_more: bool,
    total: i64,
    total_capped: bool,
    r: PackageResults<P>,
)
    requires
        call_ensures(list_counted::<P>, (q, packages, has_more, total, total_capped), r),
    ensures
        holds(r, *q, packages, has_more),
        r.page == 0,
        r.total == Some(total),
        r.total_capped == total_capped,
        links(r, *q),
{
}

/// A copy of a filter is that filter, and the cursor of a package is at that package.
pub proof fn law_copies<P>(facet: &Facet, copied: Facet, package: &Package<P>, cursor: Cursor)
    requires
        call_ensures(Facet::copy, (facet,), copied),
        call_ensures(Cursor::of::<P>, (package,), cursor),
    ensures
        copied.kind@ == facet.kind@,
        copied.value@ == facet.value@,
        is_at(Some(cursor), *package),
{
}

} // verus!
