//! Laws on the queries that the database is asked, and on what is made of its replies.

use vstd::prelude::*;

use crate::json::to_facet_json;
use crate::laws::filters::{asked, lemma_asked};
use crate::manager::fts::{norm_name, to_fts_query};
use crate::manager::plan::{law_residual_empty, plan_with, Drive, Plan};
use crate::manager::statement::{Bind, Statement};
use crate::manager::{
    counted, cursor_text, found, listed, searched, CountStep, Error, Manager, PackagesStep,
};
use crate::models::{Cursor, Listing, Operands, PackageQuery, Queries, RepoQuery, Sort};
use crate::text::{is_blank, is_word_char, law_trimmed, lower_text, replace, trimmed};

verus! {

// ---------------------------------------------------------------------------
// Parameters
// ---------------------------------------------------------------------------

/// Whether a parameter is this text.
pub open spec fn is_text(b: Bind, s: Seq<char>) -> bool {
    b matches Bind::Text(Some(t)) && t@ == s
}

/// Whether a parameter is this number.
pub open spec fn is_int(b: Bind, n: int) -> bool {
    b matches Bind::Int(Some(m)) && m == n
}

/// Whether a parameter is this text, or missing where there is none.
pub open spec fn is_optional(b: Bind, s: Option<String>) -> bool {
    match s {
        None => b == Bind::Text(None),
        Some(t) => is_text(b, t@),
    }
}

/// Whether two parameters are the same text or the same number.
pub open spec fn are_same(a: Bind, b: Bind) -> bool {
    match a {
        Bind::Int(n) => b == Bind::Int(n),
        Bind::Text(None) => b == Bind::Text(None),
        Bind::Text(Some(t)) => is_text(b, t@),
    }
}

/// The parameters of a query, one by one.
proof fn lemma_binds(s: Statement)
    ensures
        s@.binds.len() == s.binds@.len(),
        forall|i: int| 0 <= i < s.binds@.len() ==> s@.binds[i] == (#[trigger] s.binds@[i])@,
{
}

/// Whether the first parameters of a query say which packages it is about: those of the
/// repository, of the filter that is browsed by, of the filters left to check, and of the
/// platform without white space around it.
pub open spec fn restricts(
    s: Statement,
    pq: PackageQuery,
    kind: Seq<char>,
    value: Seq<char>,
    residual: Seq<char>,
) -> bool {
    &&& s.binds@.len() >= 5
    &&& is_int(s.binds@[0], pq.repo_id as int)
    &&& is_text(s.binds@[1], kind)
    &&& is_text(s.binds@[2], value)
    &&& is_text(s.binds@[3], residual)
    &&& is_text(s.binds@[4], trimmed(pq.platform@))
}

/// Whether the two parameters from number `first` on, the last ones of the query, are those
/// that its comparisons are with: the version, and the date where one is asked for.
pub open spec fn compares(s: Statement, pq: PackageQuery, operands: Operands, first: u32) -> bool {
    &&& s.compare_from == Some(first)
    &&& s.binds@.len() == first + 1
    &&& is_optional(s.binds@[first - 1], operands.version)
    &&& if pq.updated_at@.len() == 0 {
        s.binds@[first as int] == Bind::Text(None)
    } else {
        is_text(s.binds@[first as int], operands.updated_at@)
    }
}

/// Whether a query without comparisons has this text.
pub open spec fn is_plain(s: Statement, sql: Seq<char>, parameters: int) -> bool {
    s.sql@ == sql && s.compare_from is None && s.binds@.len() == parameters
}

/// A manager asks by the queries that it was given.
pub proof fn law_queries_are_kept(queries: Queries, r: Manager)
    requires
        call_ensures(Manager::new, (queries,), r),
    ensures
        r.queries == queries,
{
}

// ---------------------------------------------------------------------------
// Listing
// ---------------------------------------------------------------------------

/// Whether a query is for a page from the cursor on, or back from it, by these queries.
pub open spec fn lists(
    s: Statement,
    lst: Listing,
    pq: PackageQuery,
    cursor: Cursor,
    operands: Operands,
) -> bool {
    &&& pq.before@.len() == 0 ==> s.sql@ == lst.next@
    &&& pq.before@.len() > 0 ==> s.sql@ == lst.prev@
    &&& compares(s, pq, operands, 9)
    &&& is_text(s.binds@[5], cursor.name@)
    &&& is_int(s.binds@[6], cursor.id as int)
    &&& is_int(s.binds@[7], pq.limit + 1)
}

/// Without filters all packages of a repository are listed by name. A request without
/// `before` is fetched onwards and one with it backwards, whatever its `after` is, from the
/// place of the cursor, with one row more than the page holds.
pub proof fn law_listing_by_name(
    m: &Manager,
    pq: &PackageQuery,
    cursor: &Cursor,
    operands: &Operands,
    r: PackagesStep,
)
    requires
        pq.facets@.len() == 0,
        call_ensures(Manager::get_packages, (m, pq, cursor, operands), r),
    ensures
        r matches PackagesStep::List(s) && lists(s, m.queries.by_name, *pq, *cursor, *operands)
            && restricts(s, *pq, Seq::<char>::empty(), Seq::<char>::empty(), "[]"@),
{
    if let PackagesStep::List(s) = r {
        lemma_binds(s);
    }
}

/// With filters packages are listed by the filter that was picked, and checked for the
/// others; nothing is listed where there is no plan.
pub proof fn law_listing_by_filter(
    m: &Manager,
    pq: &PackageQuery,
    cursor: &Cursor,
    operands: &Operands,
    drive: Option<Drive>,
    plan: Option<Plan>,
    r: PackagesStep,
)
    requires
        call_ensures(plan_with, (&pq.facets, drive), plan),
        call_ensures(Manager::get_packages_by, (m, pq, cursor, operands, drive), r),
    ensures
        plan is None ==> r == PackagesStep::Nothing,
        plan matches Some(p) ==> (r matches PackagesStep::List(s) && lists(
            s,
            m.queries.by_facet,
            *pq,
            *cursor,
            *operands,
        ) && restricts(s, *pq, drive->0.kind@, drive->0.value@, p.residual@)),
{
    if let PackagesStep::List(s) = r {
        lemma_binds(s);
    }
}

/// Before packages with filters are listed or counted, the database is asked which filter
/// matches the fewest packages of the repository, of all the filters.
pub proof fn law_filters_are_picked_from(
    m: &Manager,
    pq: &PackageQuery,
    cursor: &Cursor,
    operands: &Operands,
    written: String,
    pick: Option<Statement>,
    page: PackagesStep,
    count: CountStep,
)
    requires
        call_ensures(to_facet_json, (&pq.facets,), written),
        call_ensures(Manager::plan, (m, pq), pick),
        call_ensures(Manager::get_packages, (m, pq, cursor, operands), page),
        call_ensures(Manager::count_packages, (m, pq, operands), count),
    ensures
        pq.facets@.len() == 0 ==> pick is None && page is List && count is Count,
        pq.facets@.len() > 0 ==> {
            &&& pick matches Some(s) && page matches PackagesStep::Pick(t)
                && count matches CountStep::Pick(u) && {
                &&& is_pick(s, m.queries.pick_facet@, pq.repo_id as int, written@)
                &&& is_pick(t, m.queries.pick_facet@, pq.repo_id as int, written@)
                &&& is_pick(u, m.queries.pick_facet@, pq.repo_id as int, written@)
            }
        },
{
    if pq.facets@.len() > 0 {
        lemma_binds(pick->0);
        lemma_binds(page->Pick_0);
        lemma_binds(count->Pick_0);
    }
}

/// Whether a query picks a filter of these in a repository.
pub open spec fn is_pick(s: Statement, sql: Seq<char>, repo_id: int, filters: Seq<char>) -> bool {
    is_plain(s, sql, 2) && is_int(s.binds@[0], repo_id) && is_text(s.binds@[1], filters)
}

// ---------------------------------------------------------------------------
// Counting
// ---------------------------------------------------------------------------

/// Whether a query counts packages by these queries, one further than a thousand.
pub open spec fn counts(
    s: Statement,
    lst: Listing,
    pq: PackageQuery,
    operands: Operands,
) -> bool {
    s.sql@ == lst.count@ && compares(s, pq, operands, 7) && is_int(s.binds@[5], 1001)
}

/// Without filters all packages of a repository are counted.
pub proof fn law_counting_by_name(
    m: &Manager,
    pq: &PackageQuery,
    operands: &Operands,
    r: CountStep,
)
    requires
        pq.facets@.len() == 0,
        call_ensures(Manager::count_packages, (m, pq, operands), r),
    ensures
        r matches CountStep::Count(s) && counts(s, m.queries.by_name, *pq, *operands) && restricts(
            s,
            *pq,
            Seq::<char>::empty(),
            Seq::<char>::empty(),
            "[]"@,
        ),
{
    if let CountStep::Count(s) = r {
        lemma_binds(s);
    }
}

/// A text is white space alone exactly if trimming leaves nothing of it.
proof fn lemma_all_blank(s: Seq<char>)
    ensures
        trimmed(s).len() == 0 <==> forall|i: int| 0 <= i < s.len() ==> is_blank(#[trigger] s[i]),
{
    law_trimmed(s);
    let (i, j) = choose|i: int, j: int|
        #![trigger s.subrange(i, j)]
        {
            &&& 0 <= i <= j <= s.len()
            &&& trimmed(s) == s.subrange(i, j)
            &&& forall|k: int| 0 <= k < i || j <= k < s.len() ==> is_blank(#[trigger] s[k])
            &&& i < j ==> !is_blank(s[i]) && !is_blank(s[j - 1])
        };
    assert(trimmed(s) == s.subrange(i, j));
}

/// Whether a request asks for the packages of one filter, and restricts them by nothing
/// else: all its filters have this kind and value, the kind is not empty, and there is no
/// platform, no version and no date.
pub open spec fn is_for_one_filter(pq: PackageQuery, drive: Drive) -> bool {
    &&& forall|i: int|
        0 <= i < pq.facets@.len() ==> (#[trigger] pq.facets@[i]).kind@ == drive.kind@
            && pq.facets@[i].value@ == drive.value@
    &&& drive.kind@.len() > 0
    &&& forall|i: int| 0 <= i < pq.platform@.len() ==> is_blank(#[trigger] pq.platform@[i])
    &&& pq.version@.len() == 0
    &&& pq.updated_at@.len() == 0
}

/// With filters there are three ways to count: nothing where there is no plan; by the saved
/// count where one filter alone is asked for; and else by counting what the filter that was
/// picked and all the others leave.
pub proof fn law_counting_by_filter(
    m: &Manager,
    pq: &PackageQuery,
    operands: &Operands,
    drive: Option<Drive>,
    plan: Option<Plan>,
    r: CountStep,
)
    requires
        call_ensures(plan_with, (&pq.facets, drive), plan),
        call_ensures(Manager::count_packages_by, (m, pq, operands, drive), r),
    ensures
        plan is None ==> r == CountStep::Known(0, false),
        plan is Some ==> (r is Saved <==> is_for_one_filter(*pq, drive->0)),
        plan is Some ==> r is Saved || r is Count,
        r matches CountStep::Saved(p, s) ==> {
            &&& plan is Some
            &&& p.by_facet && p.kind@ == drive->0.kind@ && p.value@ == drive->0.value@
            &&& p.residual@ == "[]"@
            &&& is_plain(
                s,
                "SELECT package_count FROM facet_counts
                 WHERE repo_id = $1 AND kind = $2 AND value = $3"@,
                3,
            )
            &&& is_int(s.binds@[0], pq.repo_id as int)
            &&& is_text(s.binds@[1], drive->0.kind@)
            &&& is_text(s.binds@[2], drive->0.value@)
        },
        r matches CountStep::Count(s) ==> plan matches Some(p) && counts(
            s,
            m.queries.by_facet,
            *pq,
            *operands,
        ) && restricts(s, *pq, drive->0.kind@, drive->0.value@, p.residual@),
{
    lemma_asked(pq.facets@);
    lemma_all_blank(pq.platform@);
    if let Some(d) = drive {
        if plan is Some {
            let wanted = asked(pq.facets@);
            law_residual_empty(wanted, d);
            assert((forall|i: int| 0 <= i < wanted.len() ==> #[trigger] wanted[i] == d.facet())
                <==> (forall|i: int|
                0 <= i < pq.facets@.len() ==> (#[trigger] pq.facets@[i]).kind@ == d.kind@
                    && pq.facets@[i].value@ == d.value@)) by {
                if forall|i: int| 0 <= i < wanted.len() ==> #[trigger] wanted[i] == d.facet() {
                    assert forall|i: int| 0 <= i < pq.facets@.len() implies (
                    #[trigger] pq.facets@[i]).kind@ == d.kind@ && pq.facets@[i].value@
                        == d.value@ by {
                        assert(wanted[i] == d.facet());
                    }
                }
            }
        }
    }
    match r {
        CountStep::Saved(p, s) => lemma_binds(s),
        CountStep::Count(s) => lemma_binds(s),
        _ => {},
    }
}

/// The saved count is exact; where there is none, packages are counted by the same plan.
pub proof fn law_saved_count_or_counting(
    m: &Manager,
    pq: &PackageQuery,
    plan: &Plan,
    operands: &Operands,
    exact: Option<i64>,
    r: CountStep,
)
    requires
        call_ensures(Manager::count_packages_unless, (m, pq, plan, operands, exact), r),
    ensures
        exact matches Some(n) ==> r == CountStep::Known(n, false),
        exact is None ==> (r matches CountStep::Count(s) && counts(
            s,
            if plan.by_facet {
                m.queries.by_facet
            } else {
                m.queries.by_name
            },
            *pq,
            *operands,
        ) && restricts(s, *pq, plan.kind@, plan.value@, plan.residual@)),
{
    if let CountStep::Count(s) = r {
        lemma_binds(s);
    }
}

/// What is counted is what is listed: the query that counts restricts packages by the same
/// repository, filters and platform as the query that lists them, with the same comparisons.
pub proof fn law_what_is_listed_is_counted(
    m: &Manager,
    pq: &PackageQuery,
    cursor: &Cursor,
    operands: &Operands,
    drive: Option<Drive>,
    page: PackagesStep,
    count: CountStep,
)
    requires
        (call_ensures(Manager::get_packages_by, (m, pq, cursor, operands, drive), page)
            && call_ensures(Manager::count_packages_by, (m, pq, operands, drive), count)) || (
        call_ensures(Manager::get_packages, (m, pq, cursor, operands), page) && call_ensures(
            Manager::count_packages,
            (m, pq, operands),
            count,
        )),
    ensures
        page is Nothing ==> count == CountStep::Known(0, false),
        page matches PackagesStep::List(s) ==> count matches CountStep::Count(t) ==> {
            &&& s.binds@.len() == 10 && t.binds@.len() == 8
            &&& forall|i: int| 0 <= i < 5 ==> are_same(#[trigger] s.binds@[i], t.binds@[i])
            &&& are_same(s.binds@[8], t.binds@[6])
            &&& are_same(s.binds@[9], t.binds@[7])
        },
{
    if page is List && count is Count {
        lemma_binds(page->List_0);
        lemma_binds(count->Count_0);
    }
}

/// A count is exact up to a thousand, and says so where there are more packages.
pub proof fn law_counts_are_capped(n: i64, r: (i64, bool))
    requires
        call_ensures(counted, (n,), r),
    ensures
        n <= 1000 ==> r == (n, false),
        n > 1000 ==> r == (1000i64, true),
{
}

// ---------------------------------------------------------------------------
// Searching
// ---------------------------------------------------------------------------

/// A term with a letter or a digit in it is searched for in the repository, among the
/// packages that all filters and the platform leave: by its full-text query, as it is in
/// lower case, and in its normalised form; from the offset on, with one row more than the
/// page holds.
pub proof fn law_searching(
    m: &Manager,
    pq: &PackageQuery,
    operands: &Operands,
    term: &str,
    fts: String,
    name: String,
    filters: String,
    r: Option<Statement>,
)
    requires
        term@ == pq.term@,
        call_ensures(to_fts_query, (term, pq.repo_id, pq.name_only), fts),
        call_ensures(norm_name, (term,), name),
        call_ensures(to_facet_json, (&pq.facets,), filters),
        call_ensures(Manager::search_packages, (m, pq, operands), r),
    ensures
        r is Some <==> exists|i: int|
            0 <= i < pq.term@.len() && is_word_char(#[trigger] pq.term@[i]),
        r matches Some(s) ==> {
            &&& s.sql@ == m.queries.search_packages@
            &&& compares(s, *pq, *operands, 9)
            &&& is_int(s.binds@[0], pq.repo_id as int)
            &&& is_text(s.binds@[1], fts@)
            &&& is_text(s.binds@[2], lower_text(pq.term@))
            &&& is_text(s.binds@[3], name@)
            &&& is_text(s.binds@[4], filters@)
            &&& is_text(s.binds@[5], trimmed(pq.platform@))
            &&& is_int(s.binds@[6], pq.offset as int)
            &&& is_int(s.binds@[7], pq.limit + 1)
        },
{
    if let Some(s) = r {
        lemma_binds(s);
    }
}

// ---------------------------------------------------------------------------
// Repositories, packages and lists of values
// ---------------------------------------------------------------------------

/// Whether a query is restricted by what is asked of repositories, without white space
/// around it.
pub open spec fn restricts_repos(s: Statement, filter: RepoQuery) -> bool {
    &&& is_text(s.binds@[0], trimmed(filter.family@))
    &&& is_text(s.binds@[1], trimmed(filter.distro@))
    &&& is_text(s.binds@[2], trimmed(filter.manager@))
}

/// A repository is asked for by its ID, its slug, or both.
pub proof fn law_asking_for_a_repository(
    m: &Manager,
    id: Option<i64>,
    slug: Option<&str>,
    r: Statement,
)
    requires
        call_ensures(Manager::get_repo, (m, id, slug), r),
    ensures
        is_plain(r, m.queries.get_repo@, 2),
        r.binds@[0] == Bind::Int(id),
        slug matches Some(s) ==> is_text(r.binds@[1], s@),
        slug is None ==> r.binds@[1] == Bind::Text(None),
{
    lemma_binds(r);
}

/// Repositories are asked for in the order given: the column is set in first, and then the
/// direction.
pub proof fn law_asking_for_repositories(
    m: &Manager,
    sort: &Sort,
    filter: &RepoQuery,
    template: &str,
    column: &str,
    direction: &str,
    by_column: String,
    ordered: &str,
    sql: String,
    r: Statement,
)
    requires
        template@ == m.queries.get_repos@,
        column@ == sort.order_by@,
        direction@ == sort.order@,
        call_ensures(replace, (template, "{ORDER_BY}", column), by_column),
        ordered@ == by_column@,
        call_ensures(replace, (ordered, "{ORDER}", direction), sql),
        call_ensures(Manager::get_repos, (m, sort, filter), r),
    ensures
        is_plain(r, sql@, 3),
        restricts_repos(r, *filter),
{
    lemma_binds(r);
}

/// Groups of repositories are restricted like the repositories themselves.
pub proof fn law_asking_for_groups(m: &Manager, filter: &RepoQuery, r: Statement)
    requires
        call_ensures(Manager::get_repos_grouped, (m, filter), r),
    ensures
        is_plain(r, m.queries.get_repos_grouped@, 3),
        restricts_repos(r, *filter),
{
    lemma_binds(r);
}

/// A package is asked for in its repository, by its slug.
pub proof fn law_asking_for_a_package(m: &Manager, repo_id: i64, slug: &str, r: Statement)
    requires
        call_ensures(Manager::get_package, (m, repo_id, slug), r),
    ensures
        is_plain(r, m.queries.get_package@, 2),
        is_int(r.binds@[0], repo_id as int),
        is_text(r.binds@[1], slug@),
{
    lemma_binds(r);
}

/// Licenses, platforms and the health of the database are asked for without conditions.
pub proof fn law_asking_for_everything(
    m: &Manager,
    licenses: Statement,
    platforms: Statement,
    health: Statement,
)
    requires
        call_ensures(Manager::get_licenses, (m,), licenses),
        call_ensures(Manager::get_platforms, (m,), platforms),
        call_ensures(Manager::health_check, (m,), health),
    ensures
        is_plain(licenses, m.queries.get_licenses@, 0),
        is_plain(platforms, m.queries.get_platforms@, 0),
        is_plain(health, "SELECT 1"@, 0),
{
    lemma_binds(licenses);
    lemma_binds(platforms);
    lemma_binds(health);
}

// ---------------------------------------------------------------------------
// Replies
// ---------------------------------------------------------------------------

/// An error is told in words: what was not found, or what the database said.
pub proof fn law_errors_in_words(e: &Error, r: String)
    requires
        call_ensures(Error::message, (e,), r),
    ensures
        e matches Error::NotFound ==> r@ == "not found"@,
        e matches Error::Db(message) ==> r@ == "database error: "@ + message@,
{
}

/// A row that is there is what was asked for, and one that is missing was not found.
pub proof fn law_rows_are_found<T>(row: Option<T>, r: Result<T, Error>)
    requires
        call_ensures(found::<T>, (row,), r),
    ensures
        row matches Some(t) ==> r == Ok::<T, Error>(t),
        row is None ==> r == Err::<T, Error>(Error::NotFound),
{
}

/// The cursor is `before` where there is one, and else `after`.
pub proof fn law_cursor_is_before_or_after(pq: &PackageQuery, r: &String)
    requires
        call_ensures(cursor_text, (pq,), r),
    ensures
        pq.before@.len() > 0 ==> r@ == pq.before@,
        pq.before@.len() == 0 ==> r@ == pq.after@,
{
}

/// How many rows a page holds: all of them, but no more than its limit, if that is one.
pub open spec fn kept(rows: int, limit: int) -> int {
    if 0 <= limit < rows {
        limit
    } else {
        rows
    }
}

/// A page holds the first rows up to its limit, in the order that they came in going
/// onwards, and in reverse going backwards. There is more exactly if a row was cut off.
pub proof fn law_page_of_a_listing<P>(pq: &PackageQuery, rows: Vec<P>, r: (Vec<P>, bool))
    requires
        call_ensures(listed::<P>, (pq, rows), r),
    ensures
        r.0@.len() == kept(rows@.len() as int, pq.limit as int),
        r.1 <==> r.0@.len() < rows@.len(),
        pq.before@.len() == 0 ==> forall|i: int|
            0 <= i < r.0@.len() ==> #[trigger] r.0@[i] == rows@[i],
        pq.before@.len() > 0 ==> forall|i: int|
            0 <= i < r.0@.len() ==> #[trigger] r.0@[i] == rows@[r.0@.len() - 1 - i],
{
}

/// A page of a search holds the first rows up to its limit, in order. There is more exactly
/// if a row was cut off.
pub proof fn law_page_of_a_search<P>(pq: &PackageQuery, rows: Vec<P>, r: (Vec<P>, bool))
    requires
        call_ensures(searched::<P>, (pq, rows), r),
    ensures
        r.0@.len() == kept(rows@.len() as int, pq.limit as int),
        r.1 <==> r.0@.len() < rows@.len(),
        forall|i: int| 0 <= i < r.0@.len() ==> #[trigger] r.0@[i] == rows@[i],
{
}

} // verus!
