use pkgcatalog::handlers::api::{
    get_package_by_slug, get_repo_by_slug, get_repos, health_check, list_counted, list_fetched,
    list_packages, package_found, query_packages, query_paging, repo_found, search_packages,
    search_paging, suggest_licenses, suggest_platforms, ApiErr, Fetch, ListStep, Paged, Source,
    SuggestQuery,
};
use pkgcatalog::manager::statement::Bind;
use pkgcatalog::manager::{listed, Error, Manager};
use pkgcatalog::models::{
    Cursor, Facet, Listing, Package, PackageQuery, Queries, Repo, RepoQuery,
};

fn text(s: &str) -> String {
    s.to_string()
}

fn listing() -> Listing {
    Listing { next: text("n"), prev: text("p"), count: text("c") }
}

fn manager() -> Manager {
    Manager::new(Queries {
        get_repo: text("repo"),
        get_repos: text("ORDER BY {ORDER_BY} {ORDER}"),
        get_repos_grouped: text(""),
        get_package: text("package"),
        pick_facet: text(""),
        get_licenses: text(""),
        get_platforms: text(""),
        search_packages: text(""),
        by_name: listing(),
        by_facet: listing(),
    })
}

fn query() -> PackageQuery {
    PackageQuery {
        repo_id: 0,
        term: text(""),
        name_only: false,
        facets: vec![Facet { kind: text("a"), value: text("b") }],
        has_filters: false,
        platform: text("linux"),
        version: text("1"),
        updated_at: text("2"),
        after: text("after"),
        before: text("before"),
        page: 4,
        per_page: 50,
        limit: 0,
        offset: 0,
    }
}

fn repo() -> Repo {
    Repo { id: 12, package_count: 345 }
}

fn package(name: &str, id: i64) -> Package<u8> {
    Package { cursor: Cursor { name: text(name), id }, row: id as u8 }
}

fn place(c: &Option<Cursor>) -> Option<(&str, i64)> {
    c.as_ref().map(|c| (c.name.as_str(), c.id))
}

fn says(e: &ApiErr, message: &str, status: u16) -> bool {
    matches!(e, ApiErr::Status(m, s) if m == message && *s == status)
}

const PAGED: Paged = Paged { page: 1, limit: 30, offset: 60 };

#[test]
fn health_follows_the_database() {
    let (status, body) = health_check(&Ok(()), 3);
    assert_eq!((status, body.status, body.database), (200, "healthy", "connected"));
    assert_eq!(body.repos_loaded, 3);
    let (status, body) = health_check(&Err(Error::Db(text("gone"))), 4);
    assert_eq!((status, body.status, body.database), (503, "unhealthy", "disconnected"));
    assert_eq!(body.repos_loaded, 4);
}

#[test]
fn suggestions_are_limited() {
    let q = SuggestQuery { q: text("gp") };
    let s = suggest_licenses(&q);
    assert_eq!((s.source, s.text.as_str(), s.limit), (Source::Licenses, "gp", 15));
    let s = suggest_platforms(&q);
    assert_eq!((s.source, s.text.as_str(), s.limit), (Source::Platforms, "gp", 15));
    assert_eq!(SuggestQuery::default().q, "");
}

#[test]
fn all_repositories_come_by_name() {
    let filter = RepoQuery { family: text("deb "), distro: text(""), manager: text("") };
    let s = get_repos(&manager(), "ASC", &filter);
    assert_eq!(s.sql, "ORDER BY name ASC");
    assert!(matches!(&s.binds[0], Bind::Text(Some(f)) if f == "deb"));
    assert_eq!(s.binds.len(), 3);
}

#[test]
fn slugs_are_looked_up() {
    let s = get_repo_by_slug(&manager(), "arch");
    assert_eq!(s.sql, "repo");
    assert!(matches!(&s.binds[0], Bind::Int(None)));
    assert!(matches!(&s.binds[1], Bind::Text(Some(f)) if f == "arch"));
    let s = get_package_by_slug(&manager(), &repo(), "zlib");
    assert_eq!(s.sql, "package");
    assert!(matches!(&s.binds[0], Bind::Int(Some(12))));
    assert!(matches!(&s.binds[1], Bind::Text(Some(f)) if f == "zlib"));
}

#[test]
fn unknown_slugs_have_answers_of_their_own() {
    assert!(matches!(repo_found(Ok(1u8)), Ok(1)));
    let e = repo_found::<u8>(Err(Error::NotFound)).err().unwrap();
    assert!(says(&e, "Unknown repository.", 404));
    let e = repo_found::<u8>(Err(Error::Db(text("x")))).err().unwrap();
    assert!(matches!(e, ApiErr::Manager(Error::Db(m)) if m == "x"));

    assert!(matches!(package_found(1u8, Ok(2u8)), Ok((1, 2))));
    let e = package_found::<u8, u8>(1, Err(Error::NotFound)).err().unwrap();
    assert!(says(&e, "The package does not exist in this repository.", 404));
    let e = package_found::<u8, u8>(1, Err(Error::Db(text("x")))).err().unwrap();
    assert!(matches!(e, ApiErr::Manager(Error::Db(m)) if m == "x"));
}

#[test]
fn the_api_only_exposes_the_first_batch() {
    let mut q = query();
    let p = query_paging(&q, 100, 20);
    assert_eq!((p.page, p.per_page, p.max_per_page, p.default_per_page), (1, 50, 100, 20));
    let fetch = query_packages(&mut q, Ok(repo()), Ok(()), PAGED);
    assert!(matches!(fetch, Ok(Fetch::Browse)));
    assert_eq!((q.repo_id, q.page, q.per_page, q.limit, q.offset), (12, 1, 30, 30, 60));
    assert_eq!((q.after.as_str(), q.before.as_str()), ("", ""));
    assert_eq!((q.platform.as_str(), q.version.as_str()), ("linux", "1"));
    assert_eq!((q.updated_at.as_str(), q.facets.len()), ("2", 1));

    let mut q = query();
    q.term = text("zlib");
    assert!(matches!(query_packages(&mut q, Ok(repo()), Ok(()), PAGED), Ok(Fetch::Search)));
}

#[test]
fn the_site_pages_through_packages() {
    let mut q = query();
    let p = search_paging(&q, 100, 20);
    assert_eq!((p.page, p.per_page, p.max_per_page, p.default_per_page), (4, 50, 100, 20));
    let found = search_packages(&mut q, Ok(repo()), Ok(()), PAGED);
    assert!(matches!(found, Ok(r) if r.id == 12 && r.package_count == 345));
    assert_eq!((q.repo_id, q.page, q.per_page, q.limit, q.offset), (12, 1, 30, 30, 60));
    assert_eq!((q.after.as_str(), q.before.as_str()), ("after", "before"));
}

#[test]
fn a_refused_request_is_left_alone() {
    let unchanged = |q: &PackageQuery| q.repo_id == 0 && q.page == 4 && q.after == "after";
    let mut q = query();
    let e = query_packages(&mut q, Err(Error::NotFound), Err(text("bad")), PAGED).err().unwrap();
    assert!(says(&e, "Unknown repository.", 404) && unchanged(&q));
    let e = query_packages(&mut q, Ok(repo()), Err(text("bad")), PAGED).err().unwrap();
    assert!(says(&e, "bad", 400) && unchanged(&q));
    let e = query_packages(&mut q, Err(Error::Db(text("x"))), Ok(()), PAGED).err().unwrap();
    assert!(matches!(e, ApiErr::Manager(Error::Db(_))) && unchanged(&q));
    let e = search_packages(&mut q, Err(Error::NotFound), Err(text("bad")), PAGED).err().unwrap();
    assert!(says(&e, "Unknown repository.", 404) && unchanged(&q));
    let e = search_packages(&mut q, Ok(repo()), Err(text("bad")), PAGED).err().unwrap();
    assert!(says(&e, "bad", 400) && unchanged(&q));
    let e = search_packages(&mut q, Err(Error::Db(text("x"))), Ok(()), PAGED).err().unwrap();
    assert!(matches!(e, ApiErr::Manager(Error::Db(_))) && unchanged(&q));
}

#[test]
fn a_search_is_neither_counted_nor_linked() {
    let mut q = query();
    q.term = text("z");
    q.has_filters = true;
    q.limit = 30;
    assert_eq!(list_packages(&q), Fetch::Search);
    match list_fetched(&repo(), &q, vec![package("a", 1)], true) {
        ListStep::Done(r) => {
            assert_eq!(r.packages.len(), 1);
            assert_eq!((r.per_page, r.page, r.has_more), (30, 4, true));
            assert_eq!((r.total, r.total_capped), (None, false));
            assert_eq!((place(&r.next), place(&r.prev)), (None, None));
        }
        _ => panic!("a search is not counted"),
    }
}

#[test]
fn an_unfiltered_repository_is_not_counted() {
    let mut q = query();
    q.before = text("");
    q.limit = 30;
    assert_eq!(list_packages(&q), Fetch::Browse);
    match list_fetched(&repo(), &q, vec![package("a", 1), package("b", 2)], false) {
        ListStep::Done(r) => {
            assert_eq!((r.total, r.total_capped), (Some(345), false));
            assert_eq!((r.per_page, r.page, r.has_more), (30, 0, false));
            assert_eq!(place(&r.next), None);
            assert_eq!(place(&r.prev), Some(("a", 1)));
        }
        _ => panic!("no filter, no count"),
    }
    q.has_filters = true;
    match list_fetched(&repo(), &q, vec![package("a", 1)], true) {
        ListStep::Count(packages, has_more) => {
            assert_eq!((packages.len(), has_more), (1, true));
        }
        _ => panic!("filters are counted"),
    }
}

#[test]
fn cursors_link_neighbouring_pages() {
    let links = |after: &str, before: &str, has_more: bool, names: &[&str]| {
        let mut q = query();
        q.after = text(after);
        q.before = text(before);
        let packages = names.iter().enumerate().map(|(i, n)| package(n, i as i64)).collect();
        let r = list_counted(&q, packages, has_more, 9, true);
        assert_eq!((r.total, r.total_capped, r.page), (Some(9), true, 0));
        (place(&r.next).map(|c| c.1), place(&r.prev).map(|c| c.1))
    };
    let three = ["a", "b", "c"];
    assert_eq!(links("", "", true, &three), (Some(2), None));
    assert_eq!(links("", "", false, &three), (None, None));
    assert_eq!(links("x", "", true, &three), (Some(2), Some(0)));
    assert_eq!(links("x", "", false, &three), (None, Some(0)));
    assert_eq!(links("", "x", true, &three), (Some(2), Some(0)));
    assert_eq!(links("", "x", false, &three), (Some(2), None));
    assert_eq!(links("x", "x", false, &three), (Some(2), None));
    assert_eq!(links("x", "", true, &[]), (None, None));
    assert_eq!(links("", "x", true, &[]), (None, None));
}

#[test]
fn pages_meet_at_the_last_row_kept() {
    let rows = |names: &[&str]| names.iter().map(|n| package(n, 1)).collect::<Vec<_>>();
    let mut q = query();
    q.limit = 2;
    q.after = text("");
    q.before = text("");
    let (page, more) = listed(&q, rows(&["a", "b", "c"]));
    let r = list_counted(&q, page, more, 0, false);
    assert_eq!((place(&r.next), place(&r.prev)), (Some(("b", 1)), None));
    q.before = text("e");
    let (page, more) = listed(&q, rows(&["d", "c", "b"]));
    let r = list_counted(&q, page, more, 0, false);
    assert_eq!((place(&r.next), place(&r.prev)), (Some(("d", 1)), Some(("c", 1))));
    // The last page backwards has nothing before it.
    let (page, more) = listed(&q, rows(&["d", "c"]));
    let r = list_counted(&q, page, more, 0, false);
    assert_eq!((place(&r.next), place(&r.prev)), (Some(("d", 1)), None));
}
