//! The values that requests carry and answers hold.

use vstd::prelude::*;

verus! {

/// A filter on packages: what to filter by, and the value asked for.
#[derive(Debug)]
pub struct Facet {
    pub kind: String,
    pub value: String,
}

impl View for Facet {
    type V = (Seq<char>, Seq<char>);

    open spec fn view(&self) -> (Seq<char>, Seq<char>) {
        (self.kind@, self.value@)
    }
}

/// Filters as pairs of texts.
pub open spec fn pairs_of(facets: Seq<Facet>) -> Seq<(Seq<char>, Seq<char>)> {
    facets.map_values(|f: Facet| f@)
}

impl Facet {
    /// The same filter once more.
    pub fn copy(&self) -> (r: Facet)
        ensures
            r@ == self@,
    {
        Facet { kind: self.kind.clone(), value: self.value.clone() }
    }
}

/// A place in a list of packages that is ordered by name: the name of a package, and
/// its ID to tell packages of the same name apart.
#[derive(Debug)]
pub struct Cursor {
    pub name: String,
    pub id: i64,
}

impl View for Cursor {
    type V = (Seq<char>, i64);

    open spec fn view(&self) -> (Seq<char>, i64) {
        (self.name@, self.id)
    }
}

impl Cursor {
    /// The cursor of a package.
    pub fn of<P>(package: &Package<P>) -> (r: Cursor)
        ensures
            r@ == package.cursor@,
    {
        Cursor { name: package.cursor.name.clone(), id: package.cursor.id }
    }
}

/// A package: the cursor that names its place, and everything else about it.
#[derive(Debug)]
pub struct Package<P> {
    pub cursor: Cursor,
    pub row: P,
}

/// A repository, as far as paging through its packages needs it.
#[derive(Debug)]
pub struct Repo {
    pub id: i64,
    pub package_count: i64,
}

/// Which repositories are asked for. An empty text asks for all of them.
#[derive(Debug)]
pub struct RepoQuery {
    pub family: String,
    pub distro: String,
    pub manager: String,
}

/// An order of rows: the column, and the direction.
#[derive(Debug)]
pub struct Sort {
    pub order_by: String,
    pub order: String,
}

/// Which packages are asked for, and which page of them.
#[derive(Debug)]
pub struct PackageQuery {
    pub repo_id: i64,
    /// The search term; empty when packages are listed rather than searched.
    pub term: String,
    /// Whether the term is looked for in names alone.
    pub name_only: bool,
    pub facets: Vec<Facet>,
    /// Whether any filter at all is set.
    pub has_filters: bool,
    pub platform: String,
    /// A version with an optional comparison sign before it.
    pub version: String,
    /// A date with an optional comparison sign before it.
    pub updated_at: String,
    /// Encoded cursor of the package that the page starts after.
    pub after: String,
    /// Encoded cursor of the package that the page ends before.
    pub before: String,
    pub page: i32,
    pub per_page: i32,
    pub limit: i32,
    pub offset: i32,
}

/// What a `PackageQuery` compares versions and dates with: the texts behind the
/// comparison signs, the version in the form that versions are ordered by.
#[derive(Debug)]
pub struct Operands {
    pub version: Option<String>,
    pub updated_at: String,
}

/// A page of packages.
#[derive(Debug)]
pub struct PackageResults<P> {
    pub packages: Vec<Package<P>>,
    pub per_page: i32,
    /// How many packages there are on all pages, where that was counted.
    pub total: Option<i64>,
    /// Whether there are more packages than `total` says.
    pub total_capped: bool,
    pub page: i32,
    pub has_more: bool,
    /// Where the next page starts, if there is one.
    pub next: Option<Cursor>,
    /// Where the previous page ends, if there is one.
    pub prev: Option<Cursor>,
}

/// The queries on one table of packages: a page onwards, a page backwards, and a count.
#[derive(Debug)]
pub struct Listing {
    pub next: String,
    pub prev: String,
    pub count: String,
}

/// The texts of the queries.
#[derive(Debug)]
pub struct Queries {
    pub get_repo: String,
    /// Holds `{ORDER_BY}` and `{ORDER}` where the order of the rows goes.
    pub get_repos: String,
    pub get_repos_grouped: String,
    pub get_package: String,
    pub pick_facet: String,
    pub get_licenses: String,
    pub get_platforms: String,
    pub search_packages: String,
    pub by_name: Listing,
    pub by_facet: Listing,
}

} // verus!
