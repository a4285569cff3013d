//! What the catalogue asks of its database, and what it makes of the replies.
//!
//! A method of [`Manager`] gives the next query to run. Where the reply decides how to
//! go on, a second method takes it.

use vstd::prelude::*;

use crate::json::facet_json;
use crate::models::{pairs_of, Cursor, Listing, Operands, PackageQuery, Queries, RepoQuery, Sort};
use crate::text::{lower_text, replace, replaced, text_lowercase, trim, trimmed};

use fts::{fts_query, has_word_char, normalized};
use plan::{
    default_plan, law_residual_empty, optional_plan, plan_for, plan_with, Drive, Plan, PlanView,
};
use statement::{
    binds_of, int_bind, int_value, optional_bind, optional_text, text_bind, text_value,
    trimmed_bind, Bind, BindView, Statement, StatementView,
};

pub use crate::json::to_facet_json;
pub use fts::{norm_name, query_of_terms, to_fts_query};

pub mod fts;
pub mod plan;
pub mod statement;

verus! {

/// Why a request to the database has no result.
#[derive(Debug)]
pub enum Error {
    /// The database failed, with its message.
    Db(String),
    NotFound,
}

impl Error {
    /// The text of an error.
    pub open spec fn text(&self) -> Seq<char> {
        match self {
            Error::Db(message) => "database error: "@ + message@,
            Error::NotFound => "not found"@,
        }
    }

    /// The error in words.
    pub fn message(&self) -> (r: String)
        ensures
            r@ == self.text(),
    {
        match self {
            Error::Db(message) => "database error: ".to_owned().concat(message.as_str()),
            Error::NotFound => "not found".to_owned(),
        }
    }
}

/// A filtered listing counts no further than this. An exact total means testing
/// every package in the repository, which no index can avoid.
pub const MAX_COUNT: i64 = 1000;

/// The query for the saved count of a filter in a repository.
pub const SAVED_COUNT: &'static str = "SELECT package_count FROM facet_counts
                 WHERE repo_id = $1 AND kind = $2 AND value = $3";

/// Holds the texts of the queries.
#[derive(Debug)]
pub struct Manager {
    pub queries: Queries,
}

/// How to go on fetching a page of packages.
#[derive(Debug)]
pub enum PackagesStep {
    /// Ask which filter matches the fewest packages.
    Pick(Statement),
    /// Fetch the rows of the page.
    List(Statement),
    /// No package matches.
    Nothing,
}

/// How to go on counting packages.
#[derive(Debug)]
pub enum CountStep {
    /// Ask which filter matches the fewest packages.
    Pick(Statement),
    /// Ask for the saved count of the filter that the plan browses by.
    Saved(Plan, Statement),
    /// Count the packages.
    Count(Statement),
    /// The count, and whether there are more packages than it says.
    Known(i64, bool),
}

// ---------------------------------------------------------------------------
// The queries as mathematical values
// ---------------------------------------------------------------------------

/// A query that needs no comparison signs.
pub open spec fn plain(sql: Seq<char>, binds: Seq<BindView>) -> StatementView {
    StatementView { sql, compare_from: None, binds }
}

/// What restricts a list of repositories.
pub open spec fn repo_binds(filter: RepoQuery) -> Seq<BindView> {
    seq![
        text_value(trimmed(filter.family@)),
        text_value(trimmed(filter.distro@)),
        text_value(trimmed(filter.manager@)),
    ]
}

/// The query for repositories, with the order of rows filled in.
pub open spec fn repos_sql(template: Seq<char>, sort: Sort) -> Seq<char> {
    replaced(
        replaced(template, "{ORDER_BY}"@, sort.order_by@),
        "{ORDER}"@,
        sort.order@,
    )
}

/// Whether a request pages backwards.
pub open spec fn is_back(pq: PackageQuery) -> bool {
    pq.before@.len() > 0
}

/// The queries that a plan browses with.
pub open spec fn listing_of(queries: Queries, plan: PlanView) -> Listing {
    if plan.by_facet {
        queries.by_facet
    } else {
        queries.by_name
    }
}

/// The date to compare with, if the request holds one.
pub open spec fn date_value(pq: PackageQuery, operands: Operands) -> BindView {
    if pq.updated_at@.len() == 0 {
        BindView::Text(None)
    } else {
        BindView::Text(Some(operands.updated_at@))
    }
}

/// The query for the filter that matches the fewest packages.
pub open spec fn pick_statement(queries: Queries, pq: PackageQuery) -> StatementView {
    plain(
        queries.pick_facet@,
        seq![int_value(pq.repo_id as int), text_value(facet_json(pairs_of(pq.facets@)))],
    )
}

/// The query for the rows of a page. One row more than the page holds is asked for, to
/// see whether there is another page.
pub open spec fn list_statement(
    queries: Queries,
    pq: PackageQuery,
    plan: PlanView,
    cursor: Cursor,
    operands: Operands,
) -> StatementView {
    StatementView {
        sql: if is_back(pq) {
            listing_of(queries, plan).prev@
        } else {
            listing_of(queries, plan).next@
        },
        compare_from: Some(9u32),
        binds: seq![
            int_value(pq.repo_id as int),
            text_value(plan.kind),
            text_value(plan.value),
            text_value(plan.residual),
            text_value(trimmed(pq.platform@)),
            text_value(cursor.name@),
            int_value(cursor.id as int),
            int_value(pq.limit + 1),
            BindView::Text(optional_text(operands.version)),
            date_value(pq, operands),
        ],
    }
}

/// The query that counts packages, one further than the limit.
pub open spec fn count_statement(
    queries: Queries,
    pq: PackageQuery,
    plan: PlanView,
    operands: Operands,
) -> StatementView {
    StatementView {
        sql: listing_of(queries, plan).count@,
        compare_from: Some(7u32),
        binds: seq![
            int_value(pq.repo_id as int),
            text_value(plan.kind),
            text_value(plan.value),
            text_value(plan.residual),
            text_value(trimmed(pq.platform@)),
            int_value(MAX_COUNT + 1),
            BindView::Text(optional_text(operands.version)),
            date_value(pq, operands),
        ],
    }
}

/// The query for the saved count of a filter.
pub open spec fn saved_statement(pq: PackageQuery, plan: PlanView) -> StatementView {
    plain(
        SAVED_COUNT@,
        seq![int_value(pq.repo_id as int), text_value(plan.kind), text_value(plan.value)],
    )
}

/// The query that searches packages, again with one row more than the page holds.
pub open spec fn search_statement(
    queries: Queries,
    pq: PackageQuery,
    operands: Operands,
) -> StatementView {
    StatementView {
        sql: queries.search_packages@,
        compare_from: Some(9u32),
        binds: seq![
            int_value(pq.repo_id as int),
            text_value(fts_query(pq.term@, pq.repo_id, pq.name_only)),
            text_value(lower_text(pq.term@)),
            text_value(normalized(pq.term@)),
            text_value(facet_json(pairs_of(pq.facets@))),
            text_value(trimmed(pq.platform@)),
            int_value(pq.offset as int),
            int_value(pq.limit + 1),
            BindView::Text(optional_text(operands.version)),
            date_value(pq, operands),
        ],
    }
}

/// Whether the saved count of the filter that is browsed by is the count asked for:
/// there is such a filter, and nothing else restricts the packages.
pub open spec fn saved_applies(pq: PackageQuery, plan: PlanView) -> bool {
    &&& plan.residual == "[]"@
    &&& trimmed(pq.platform@).len() == 0
    &&& plan.kind.len() > 0
    &&& pq.version@.len() == 0
    &&& pq.updated_at@.len() == 0
}

/// Whether `step` is the right one to count packages by a plan.
pub open spec fn counts_by(
    step: CountStep,
    queries: Queries,
    pq: PackageQuery,
    plan: PlanView,
    operands: Operands,
) -> bool {
    if saved_applies(pq, plan) {
        step matches CountStep::Saved(p, s) && p@ == plan && s@ == saved_statement(pq, plan)
    } else {
        step matches CountStep::Count(s) && s@ == count_statement(queries, pq, plan, operands)
    }
}

// ---------------------------------------------------------------------------
// Pages
// ---------------------------------------------------------------------------

/// Whether more rows came back than a page holds. A negative limit is no limit.
pub open spec fn more_than<P>(rows: Seq<P>, limit: int) -> bool {
    0 <= limit < rows.len()
}

/// The rows that a page holds.
pub open spec fn first_rows<P>(rows: Seq<P>, limit: int) -> Seq<P> {
    if more_than(rows, limit) {
        rows.take(limit)
    } else {
        rows
    }
}

/// The page in order. Rows that were fetched backwards are turned round.
pub open spec fn page_rows<P>(rows: Seq<P>, limit: int, back: bool) -> Seq<P> {
    if back {
        first_rows(rows, limit).reverse()
    } else {
        first_rows(rows, limit)
    }
}

/// The elements in reverse order.
fn reversed<P>(rows: Vec<P>) -> (r: Vec<P>)
    ensures
        r@ == rows@.reverse(),
{
    let mut from = rows;
    let mut out: Vec<P> = Vec::new();
    while from.len() > 0
        invariant
            from@.len() + out@.len() == rows@.len(),
            from@ =~= rows@.take(from@.len() as int),
            out@ =~= rows@.skip(from@.len() as int).reverse(),
        decreases from@.len(),
    {
        if let Some(row) = from.pop() {
            out.push(row);
        }
    }
    assert(rows@.skip(0) =~= rows@);
    out
}

/// Cuts rows off beyond the limit, and says whether there were any.
fn cut<P>(rows: Vec<P>, limit: i32) -> (r: (Vec<P>, bool))
    ensures
        r.0@ == first_rows(rows@, limit as int),
        r.1 == more_than(rows@, limit as int),
{
    let mut kept = rows;
    if limit < 0 || kept.len() <= limit as usize {
        return (kept, false);
    }
    kept.truncate(limit as usize);
    assert(kept@ =~= rows@.take(limit as int));
    (kept, true)
}

/// The text of the cursor that a page is fetched from: `before` where the request has
/// one, and else `after`.
pub open spec fn cursor_of(pq: PackageQuery) -> Seq<char> {
    if is_back(pq) {
        pq.before@
    } else {
        pq.after@
    }
}

/// The text of the cursor that a page is fetched from.
pub fn cursor_text(pq: &PackageQuery) -> (r: &String)
    ensures
        r@ == cursor_of(*pq),
{
    if !pq.before.as_str().is_empty() {
        &pq.before
    } else {
        &pq.after
    }
}

/// A row that may be missing.
pub fn found<T>(row: Option<T>) -> (r: Result<T, Error>)
    ensures
        row matches Some(t) ==> r == Ok::<T, Error>(t),
        row is None ==> r == Err::<T, Error>(Error::NotFound),
{
    match row {
        Some(t) => Ok(t),
        None => Err(Error::NotFound),
    }
}

/// The page that the rows of [`PackagesStep::List`] make, and whether there is another
/// one beyond it.
pub fn listed<P>(pq: &PackageQuery, rows: Vec<P>) -> (r: (Vec<P>, bool))
    ensures
        r.0@ == page_rows(rows@, pq.limit as int, is_back(*pq)),
        r.1 == more_than(rows@, pq.limit as int),
{
    let (kept, has_more) = cut(rows, pq.limit);
    if !pq.before.as_str().is_empty() {
        (reversed(kept), has_more)
    } else {
        (kept, has_more)
    }
}

/// The page that the rows of a search make, and whether there is another one after it.
pub fn searched<P>(pq: &PackageQuery, rows: Vec<P>) -> (r: (Vec<P>, bool))
    ensures
        r.0@ == page_rows(rows@, pq.limit as int, false),
        r.1 == more_than(rows@, pq.limit as int),
{
    cut(rows, pq.limit)
}

/// The count that the reply to [`CountStep::Count`] makes, and whether there are more
/// packages than it says.
pub fn counted(n: i64) -> (r: (i64, bool))
    ensures
        r.0 == (if n <= MAX_COUNT {
            n
        } else {
            MAX_COUNT
        }),
        r.1 == (n > MAX_COUNT),
{
    if n > MAX_COUNT {
        (MAX_COUNT, true)
    } else {
        (n, false)
    }
}

// ---------------------------------------------------------------------------
// Requests
// ---------------------------------------------------------------------------

/// A query that needs no comparison signs.
fn plain_statement(sql: &str, binds: Vec<Bind>) -> (r: Statement)
    ensures
        r@ == plain(sql@, binds_of(binds@)),
{
    Statement { sql: sql.to_owned(), compare_from: None, binds }
}

/// The date to compare with, if the request holds one.
fn date_bind(pq: &PackageQuery, operands: &Operands) -> (r: Bind)
    ensures
        r@ == date_value(*pq, *operands),
{
    if pq.updated_at.as_str().is_empty() {
        Bind::Text(None)
    } else {
        text_bind(operands.updated_at.as_str())
    }
}

/// What restricts a list of repositories.
fn filter_binds(filter: &RepoQuery) -> (r: Vec<Bind>)
    ensures
        binds_of(r@) == repo_binds(*filter),
{
    let binds = vec![
        trimmed_bind(filter.family.as_str()),
        trimmed_bind(filter.distro.as_str()),
        trimmed_bind(filter.manager.as_str()),
    ];
    assert(binds_of(binds@) =~= repo_binds(*filter));
    binds
}

/// Whether the saved count of the filter that is browsed by is the count asked for.
fn is_saved(pq: &PackageQuery, plan: &Plan) -> (r: bool)
    ensures
        r == saved_applies(*pq, plan@),
{
    let none = "[]".to_owned();
    plan.residual == none && trim(pq.platform.as_str()).as_str().is_empty()
        && !plan.kind.as_str().is_empty() && pq.version.as_str().is_empty()
        && pq.updated_at.as_str().is_empty()
}

impl Manager {
    /// A manager with the given queries.
    pub fn new(queries: Queries) -> (r: Manager)
        ensures
            r.queries == queries,
    {
        Manager { queries }
    }

    /// Asks whether the database answers.
    pub fn health_check(&self) -> (r: Statement)
        ensures
            r@ == plain("SELECT 1"@, seq![]),
    {
        let binds: Vec<Bind> = Vec::new();
        assert(binds_of(binds@) =~= seq![]);
        plain_statement("SELECT 1", binds)
    }

    /// Asks for a repository by its ID or slug. [`found`] takes the reply.
    pub fn get_repo(&self, id: Option<i64>, slug: Option<&str>) -> (r: Statement)
        ensures
            r@.sql == self.queries.get_repo@,
            r@.compare_from is None,
            r@.binds.len() == 2,
            r@.binds[0] == (match id {
                None => BindView::Int(None),
                Some(n) => int_value(n as int),
            }),
            r@.binds[1] == (match slug {
                None => BindView::Text(None),
                Some(s) => text_value(s@),
            }),
    {
        let slug_bind = match slug {
            None => Bind::Text(None),
            Some(s) => text_bind(s),
        };
        let binds = vec![Bind::Int(id), slug_bind];
        plain_statement(self.queries.get_repo.as_str(), binds)
    }

    /// Asks for the repositories in the given order.
    pub fn get_repos(&self, sort: &Sort, filter: &RepoQuery) -> (r: Statement)
        ensures
            r@ == plain(repos_sql(self.queries.get_repos@, *sort), repo_binds(*filter)),
    {
        proof {
            reveal_strlit("{ORDER_BY}");
            reveal_strlit("{ORDER}");
        }
        let ordered = replace(
            self.queries.get_repos.as_str(),
            "{ORDER_BY}",
            sort.order_by.as_str(),
        );
        let sql = replace(ordered.as_str(), "{ORDER}", sort.order.as_str());
        plain_statement(sql.as_str(), filter_binds(filter))
    }

    /// Asks for the repositories in groups.
    pub fn get_repos_grouped(&self, filter: &RepoQuery) -> (r: Statement)
        ensures
            r@ == plain(self.queries.get_repos_grouped@, repo_binds(*filter)),
    {
        plain_statement(self.queries.get_repos_grouped.as_str(), filter_binds(filter))
    }

    /// Asks for a package of a repository. [`found`] takes the reply.
    pub fn get_package(&self, repo_id: i64, slug: &str) -> (r: Statement)
        ensures
            r@ == plain(
                self.queries.get_package@,
                seq![int_value(repo_id as int), text_value(slug@)],
            ),
    {
        let binds = vec![int_bind(repo_id), text_bind(slug)];
        assert(binds_of(binds@) =~= seq![int_value(repo_id as int), text_value(slug@)]);
        plain_statement(self.queries.get_package.as_str(), binds)
    }

    /// Asks which filter matches the fewest packages, if there are filters at all.
    /// [`plan_with`] takes the reply.
    pub fn plan(&self, pq: &PackageQuery) -> (r: Option<Statement>)
        ensures
            r is None <==> pq.facets@.len() == 0,
            r matches Some(s) ==> s@ == pick_statement(self.queries, *pq),
    {
        if pq.facets.len() == 0 {
            return None;
        }
        let wanted = to_facet_json(&pq.facets);
        let binds = vec![int_bind(pq.repo_id), text_bind(wanted.as_str())];
        assert(binds_of(binds@) =~= pick_statement(self.queries, *pq).binds);
        Some(plain_statement(self.queries.pick_facet.as_str(), binds))
    }

    /// The query for the rows of a page.
    fn list(
        &self,
        pq: &PackageQuery,
        plan: &Plan,
        cursor: &Cursor,
        operands: &Operands,
    ) -> (r: Statement)
        requires
            pq.limit < i32::MAX,
        ensures
            r@ == list_statement(self.queries, *pq, plan@, *cursor, *operands),
    {
        let lst = if plan.by_facet {
            &self.queries.by_facet
        } else {
            &self.queries.by_name
        };
        let sql = if !pq.before.as_str().is_empty() {
            lst.prev.clone()
        } else {
            lst.next.clone()
        };
        let binds = vec![
            int_bind(pq.repo_id),
            text_bind(plan.kind.as_str()),
            text_bind(plan.value.as_str()),
            text_bind(plan.residual.as_str()),
            trimmed_bind(pq.platform.as_str()),
            text_bind(cursor.name.as_str()),
            int_bind(cursor.id),
            int_bind((pq.limit + 1) as i64),
            optional_bind(&operands.version),
            date_bind(pq, operands),
        ];
        assert(binds_of(binds@) =~= list_statement(
            self.queries,
            *pq,
            plan@,
            *cursor,
            *operands,
        ).binds);
        Statement { sql, compare_from: Some(9), binds }
    }

    /// Starts on a page of a repository's packages in alphabetical order. `cursor` is what
    /// [`cursor_text`] encodes.
    pub fn get_packages(
        &self,
        pq: &PackageQuery,
        cursor: &Cursor,
        operands: &Operands,
    ) -> (r: PackagesStep)
        requires
            pq.facets@.len() == 0 ==> pq.limit < i32::MAX,
        ensures
            pq.facets@.len() == 0 ==> (r matches PackagesStep::List(s) && s@ == list_statement(
                self.queries,
                *pq,
                default_plan(),
                *cursor,
                *operands,
            )),
            pq.facets@.len() > 0 ==> (r matches PackagesStep::Pick(s) && s@ == pick_statement(
                self.queries,
                *pq,
            )),
    {
        match self.plan(pq) {
            Some(s) => PackagesStep::Pick(s),
            None => PackagesStep::List(self.list(pq, &Plan::default(), cursor, operands)),
        }
    }

    /// Goes on with the page once the reply to [`PackagesStep::Pick`] is there.
    /// [`listed`] takes the rows.
    pub fn get_packages_by(
        &self,
        pq: &PackageQuery,
        cursor: &Cursor,
        operands: &Operands,
        drive: Option<Drive>,
    ) -> (r: PackagesStep)
        requires
            plan_for(pairs_of(pq.facets@), drive) is Some ==> pq.limit < i32::MAX,
        ensures
            match plan_for(pairs_of(pq.facets@), drive) {
                None => r is Nothing,
                Some(plan) => r matches PackagesStep::List(s) && s@ == list_statement(
                    self.queries,
                    *pq,
                    plan,
                    *cursor,
                    *operands,
                ),
            },
    {
        match plan_with(&pq.facets, drive) {
            None => PackagesStep::Nothing,
            Some(plan) => PackagesStep::List(self.list(pq, &plan, cursor, operands)),
        }
    }

    /// The query that counts packages.
    fn count(&self, pq: &PackageQuery, plan: &Plan, operands: &Operands) -> (r: Statement)
        ensures
            r@ == count_statement(self.queries, *pq, plan@, *operands),
    {
        let lst = if plan.by_facet {
            &self.queries.by_facet
        } else {
            &self.queries.by_name
        };
        let binds = vec![
            int_bind(pq.repo_id),
            text_bind(plan.kind.as_str()),
            text_bind(plan.value.as_str()),
            text_bind(plan.residual.as_str()),
            trimmed_bind(pq.platform.as_str()),
            int_bind(MAX_COUNT + 1),
            optional_bind(&operands.version),
            date_bind(pq, operands),
        ];
        assert(binds_of(binds@) =~= count_statement(self.queries, *pq, plan@, *operands).binds);
        Statement { sql: lst.count.clone(), compare_from: Some(7), binds }
    }

    /// Counts by a plan: asks for the saved count where there is one to ask for.
    fn count_with(&self, pq: &PackageQuery, plan: Plan, operands: &Operands) -> (r: CountStep)
        ensures
            counts_by(r, self.queries, *pq, plan@, *operands),
    {
        if is_saved(pq, &plan) {
            let binds = vec![
                int_bind(pq.repo_id),
                text_bind(plan.kind.as_str()),
                text_bind(plan.value.as_str()),
            ];
            assert(binds_of(binds@) =~= saved_statement(*pq, plan@).binds);
            let ask = plain_statement(
                SAVED_COUNT,
                binds,
            );
            CountStep::Saved(plan, ask)
        } else {
            CountStep::Count(self.count(pq, &plan, operands))
        }
    }

    /// Starts to count packages: the saved count serves for a single filter; otherwise
    /// packages are counted, up to [`MAX_COUNT`].
    pub fn count_packages(&self, pq: &PackageQuery, operands: &Operands) -> (r: CountStep)
        ensures
            pq.facets@.len() == 0 ==> (r matches CountStep::Count(s) && s@ == count_statement(
                self.queries,
                *pq,
                default_plan(),
                *operands,
            )),
            pq.facets@.len() > 0 ==> (r matches CountStep::Pick(s) && s@ == pick_statement(
                self.queries,
                *pq,
            )),
    {
        match self.plan(pq) {
            Some(s) => CountStep::Pick(s),
            None => self.count_with(pq, Plan::default(), operands),
        }
    }

    /// Goes on counting once the reply to [`CountStep::Pick`] is there.
    pub fn count_packages_by(
        &self,
        pq: &PackageQuery,
        operands: &Operands,
        drive: Option<Drive>,
    ) -> (r: CountStep)
        ensures
            match plan_for(pairs_of(pq.facets@), drive) {
                None => r == CountStep::Known(0, false),
                Some(plan) => counts_by(r, self.queries, *pq, plan, *operands),
            },
    {
        match plan_with(&pq.facets, drive) {
            None => CountStep::Known(0, false),
            Some(plan) => self.count_with(pq, plan, operands),
        }
    }

    /// Goes on counting once the reply to [`CountStep::Saved`] is there. [`counted`] takes
    /// the reply to [`CountStep::Count`].
    pub fn count_packages_unless(
        &self,
        pq: &PackageQuery,
        plan: &Plan,
        operands: &Operands,
        exact: Option<i64>,
    ) -> (r: CountStep)
        ensures
            match exact {
                Some(n) => r == CountStep::Known(n, false),
                None => r matches CountStep::Count(s) && s@ == count_statement(
                    self.queries,
                    *pq,
                    plan@,
                    *operands,
                ),
            },
    {
        match exact {
            Some(n) => CountStep::Known(n, false),
            None => CountStep::Count(self.count(pq, plan, operands)),
        }
    }

    /// Asks for the licenses, each of them once.
    pub fn get_licenses(&self) -> (r: Statement)
        ensures
            r@ == plain(self.queries.get_licenses@, seq![]),
    {
        let binds: Vec<Bind> = Vec::new();
        assert(binds_of(binds@) =~= seq![]);
        plain_statement(self.queries.get_licenses.as_str(), binds)
    }

    /// Asks for the platforms.
    pub fn get_platforms(&self) -> (r: Statement)
        ensures
            r@ == plain(self.queries.get_platforms@, seq![]),
    {
        let binds: Vec<Bind> = Vec::new();
        assert(binds_of(binds@) =~= seq![]);
        plain_statement(self.queries.get_platforms.as_str(), binds)
    }

    /// Asks for the packages that match a search term, if the term holds anything to
    /// search for. [`searched`] takes the rows.
    pub fn search_packages(&self, pq: &PackageQuery, operands: &Operands) -> (r: Option<Statement>)
        requires
            has_word_char(pq.term@) ==> pq.limit < i32::MAX,
        ensures
            r is Some <==> has_word_char(pq.term@),
            r matches Some(s) ==> s@ == search_statement(self.queries, *pq, *operands),
    {
        let fts = to_fts_query(pq.term.as_str(), pq.repo_id, pq.name_only);
        if fts.as_str().is_empty() {
            return None;
        }
        let raw = text_lowercase(pq.term.as_str());
        let norm = norm_name(pq.term.as_str());
        let wanted = to_facet_json(&pq.facets);
        let binds = vec![
            int_bind(pq.repo_id),
            text_bind(fts.as_str()),
            text_bind(raw.as_str()),
            text_bind(norm.as_str()),
            text_bind(wanted.as_str()),
            trimmed_bind(pq.platform.as_str()),
            int_bind(pq.offset as i64),
            int_bind((pq.limit + 1) as i64),
            optional_bind(&operands.version),
            date_bind(pq, operands),
        ];
        assert(binds_of(binds@) =~= search_statement(self.queries, *pq, *operands).binds);
        Some(
            Statement { sql: self.queries.search_packages.clone(), compare_from: Some(9), binds },
        )
    }
}

// ---------------------------------------------------------------------------
// Laws
// ---------------------------------------------------------------------------

/// A page holds as many rows as came back, but no more than its limit.
pub proof fn law_page_is_bounded<P>(rows: Seq<P>, limit: int, back: bool)
    requires
        limit >= 0,
    ensures
        page_rows(rows, limit, back).len() == if rows.len() <= limit {
            rows.len() as int
        } else {
            limit
        },
{
}

/// Of the rows that are asked for, one more than the limit, the last one tells that there
/// is another page.
pub proof fn law_extra_row_tells_of_more<P>(rows: Seq<P>, limit: int)
    requires
        limit >= 0,
        rows.len() <= limit + 1,
    ensures
        more_than(rows, limit) <==> rows.len() == limit + 1,
{
}

/// A page that was fetched backwards holds the same rows as one that was fetched onwards,
/// turned round.
pub proof fn law_backwards_is_turned_round<P>(rows: Seq<P>, limit: int)
    ensures
        page_rows(rows, limit, true).reverse() == page_rows(rows, limit, false),
{
    assert(page_rows(rows, limit, true).reverse() =~= page_rows(rows, limit, false));
}

/// The saved count serves for a single filter alone: it is asked for exactly if all
/// filters are the one that is browsed by, that one has a kind, and neither a platform
/// nor a comparison restricts the packages.
pub proof fn law_saved_count_is_for_one_filter(pq: PackageQuery, drive: Drive)
    requires
        drive.matched >= pq.facets@.len(),
    ensures
        saved_applies(pq, plan_for(pairs_of(pq.facets@), Some(drive))->0) <==> {
            &&& forall|i: int|
                0 <= i < pq.facets@.len() ==> (#[trigger] pairs_of(pq.facets@)[i])
                    == drive.facet()
            &&& drive.kind@.len() > 0
            &&& trimmed(pq.platform@).len() == 0
            &&& pq.version@.len() == 0
            &&& pq.updated_at@.len() == 0
        },
{
    law_residual_empty(pairs_of(pq.facets@), drive);
}

/// Without filters nothing is saved to ask for.
pub proof fn law_no_saved_count_without_filters(pq: PackageQuery)
    ensures
        !saved_applies(pq, default_plan()),
{
}

/// Whether the comparisons of a query end its parameters: first the version, then the date.
pub open spec fn compares_last(s: StatementView, pq: PackageQuery, operands: Operands) -> bool {
    &&& s.compare_from matches Some(n)
    &&& s.binds.len() == n + 1
    &&& s.binds[n - 1] == BindView::Text(optional_text(operands.version))
    &&& s.binds[n as int] == date_value(pq, operands)
}

/// A request that pages backwards does so whatever its other cursor: `after` plays no part
/// in the cursor that the page is fetched from, in the queries, nor in the order of rows.
pub proof fn law_before_comes_first<P>(
    queries: Queries,
    pq: PackageQuery,
    after: String,
    plan: PlanView,
    cursor: Cursor,
    operands: Operands,
    rows: Seq<P>,
)
    requires
        pq.before@.len() > 0,
    ensures
        ({
            let other = PackageQuery { after, ..pq };
            &&& cursor_of(pq) == pq.before@
            &&& cursor_of(other) == pq.before@
            &&& pick_statement(queries, other) == pick_statement(queries, pq)
            &&& list_statement(queries, other, plan, cursor, operands) == list_statement(
                queries,
                pq,
                plan,
                cursor,
                operands,
            )
            &&& list_statement(queries, pq, plan, cursor, operands).sql == listing_of(
                queries,
                plan,
            ).prev@
            &&& page_rows(rows, other.limit as int, is_back(other)) == page_rows(
                rows,
                pq.limit as int,
                is_back(pq),
            )
        }),
{
}

/// In every query with comparisons, these start at the parameter that the query says.
pub proof fn law_comparisons_are_in_place(
    queries: Queries,
    pq: PackageQuery,
    plan: PlanView,
    cursor: Cursor,
    operands: Operands,
)
    ensures
        compares_last(list_statement(queries, pq, plan, cursor, operands), pq, operands),
        compares_last(count_statement(queries, pq, plan, operands), pq, operands),
        compares_last(search_statement(queries, pq, operands), pq, operands),
{
}

} // verus!
