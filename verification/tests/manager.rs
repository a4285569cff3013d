use pkgcatalog::manager::plan::{has_plan, plan_with, Drive, Plan};
use pkgcatalog::manager::statement::{Bind, Statement};
use pkgcatalog::manager::{
    counted, cursor_text, found, listed, searched, CountStep, Error, Manager, PackagesStep,
    MAX_COUNT,
};
use pkgcatalog::models::{
    Cursor, Facet, Listing, Operands, PackageQuery, Queries, RepoQuery, Sort,
};

fn text(s: &str) -> String {
    s.to_string()
}

fn listing(name: &str) -> Listing {
    Listing {
        next: format!("{name} next"),
        prev: format!("{name} prev"),
        count: format!("{name} count"),
    }
}

fn manager() -> Manager {
    Manager::new(Queries {
        get_repo: text("repo"),
        get_repos: text("repos ORDER BY {ORDER_BY} {ORDER}, {ORDER_BY}"),
        get_repos_grouped: text("grouped"),
        get_package: text("package"),
        pick_facet: text("pick"),
        get_licenses: text("licenses"),
        get_platforms: text("platforms"),
        search_packages: text("search"),
        by_name: listing("name"),
        by_facet: listing("facet"),
    })
}

fn query() -> PackageQuery {
    PackageQuery {
        repo_id: 7,
        term: text(""),
        name_only: false,
        facets: vec![],
        has_filters: false,
        platform: text(" linux "),
        version: text(""),
        updated_at: text(""),
        after: text(""),
        before: text(""),
        page: 1,
        per_page: 20,
        limit: 20,
        offset: 40,
    }
}

fn facet(kind: &str, value: &str) -> Facet {
    Facet { kind: text(kind), value: text(value) }
}

fn drive(kind: &str, value: &str, matched: i64) -> Option<Drive> {
    Some(Drive { kind: text(kind), value: text(value), matched })
}

fn operands() -> Operands {
    Operands { version: Some(text("0001.0002")), updated_at: text("2024-01-01") }
}

fn cursor() -> Cursor {
    Cursor { name: text("zlib"), id: 99 }
}

fn shown(b: &Bind) -> String {
    match b {
        Bind::Int(None) | Bind::Text(None) => text("-"),
        Bind::Int(Some(n)) => format!("{n}"),
        Bind::Text(Some(s)) => format!("'{s}'"),
    }
}

fn written(s: &Statement) -> String {
    let binds: Vec<String> = s.binds.iter().map(shown).collect();
    let from = match s.compare_from {
        None => text(""),
        Some(n) => format!(" from {n}"),
    };
    format!("{}{} [{}]", s.sql, from, binds.join(", "))
}

#[test]
fn simple_requests() {
    let m = manager();
    assert_eq!(written(&m.health_check()), "SELECT 1 []");
    assert_eq!(written(&m.get_licenses()), "licenses []");
    assert_eq!(written(&m.get_platforms()), "platforms []");
    assert_eq!(written(&m.get_repo(Some(3), None)), "repo [3, -]");
    assert_eq!(written(&m.get_repo(None, Some("arch"))), "repo [-, 'arch']");
    assert_eq!(written(&m.get_package(3, "zlib")), "package [3, 'zlib']");
}

#[test]
fn repositories_are_ordered_and_filtered() {
    let m = manager();
    let sort = Sort { order_by: text("name"), order: text("ASC") };
    let filter =
        RepoQuery { family: text(" deb\n"), distro: text(""), manager: text("apt get ") };
    assert_eq!(
        written(&m.get_repos(&sort, &filter)),
        "repos ORDER BY name ASC, name ['deb', '', 'apt get']"
    );
    assert_eq!(written(&m.get_repos_grouped(&filter)), "grouped ['deb', '', 'apt get']");
}

#[test]
fn a_missing_row_is_not_found() {
    assert!(matches!(found::<u8>(None), Err(Error::NotFound)));
    assert!(matches!(found(Some(5u8)), Ok(5)));
}

#[test]
fn errors_have_messages() {
    assert_eq!(Error::NotFound.message(), "not found");
    assert_eq!(Error::Db(text("locked")).message(), "database error: locked");
}

#[test]
fn without_filters_packages_are_listed_by_name() {
    let m = manager();
    let mut q = query();
    assert!(m.plan(&q).is_none());
    match m.get_packages(&q, &cursor(), &operands()) {
        PackagesStep::List(s) => assert_eq!(
            written(&s),
            "name next from 9 [7, '', '', '[]', 'linux', 'zlib', 99, 21, '0001.0002', -]"
        ),
        _ => panic!("expected a listing"),
    }
    q.before = text("x");
    q.updated_at = text(">2024-01-01");
    match m.get_packages(&q, &cursor(), &Operands { version: None, updated_at: text("d") }) {
        PackagesStep::List(s) => assert_eq!(
            written(&s),
            "name prev from 9 [7, '', '', '[]', 'linux', 'zlib', 99, 21, -, 'd']"
        ),
        _ => panic!("expected a listing"),
    }
}

#[test]
fn with_filters_the_rarest_one_is_asked_for_first() {
    let m = manager();
    let mut q = query();
    q.facets = vec![facet("license", "MIT"), facet("tag", "c"), facet("tag", "d")];
    let asked = "pick [7, '[{\"k\":\"license\",\"v\":\"MIT\"},{\"k\":\"tag\",\"v\":\"c\"},\
                 {\"k\":\"tag\",\"v\":\"d\"}]']";
    match m.get_packages(&q, &cursor(), &operands()) {
        PackagesStep::Pick(s) => assert_eq!(written(&s), asked),
        _ => panic!("expected a choice of filters"),
    }
    match m.count_packages(&q, &operands()) {
        CountStep::Pick(s) => assert_eq!(written(&s), asked),
        _ => panic!("expected a choice of filters"),
    }
    match m.get_packages_by(&q, &cursor(), &operands(), drive("tag", "c", 3)) {
        PackagesStep::List(s) => assert_eq!(
            written(&s),
            "facet next from 9 [7, 'tag', 'c', '[{\"k\":\"license\",\"v\":\"MIT\"},\
             {\"k\":\"tag\",\"v\":\"d\"}]', 'linux', 'zlib', 99, 21, '0001.0002', -]"
        ),
        _ => panic!("expected a listing"),
    }
}

#[test]
fn a_filter_without_packages_leaves_nothing() {
    let m = manager();
    let mut q = query();
    q.facets = vec![facet("license", "MIT"), facet("tag", "c")];
    for d in [None, drive("tag", "c", 1)] {
        assert!(matches!(
            m.get_packages_by(&q, &cursor(), &operands(), d),
            PackagesStep::Nothing
        ));
    }
    for d in [None, drive("tag", "c", 1)] {
        assert!(matches!(
            m.count_packages_by(&q, &operands(), d),
            CountStep::Known(0, false)
        ));
    }
}

#[test]
fn a_plan_leaves_the_other_filters_to_check() {
    let wanted = vec![facet("a", "1"), facet("b", "2"), facet("a", "2"), facet("b", "2")];
    let plan = plan_with(&wanted, drive("b", "2", 4)).unwrap();
    assert!(plan.by_facet);
    assert_eq!((plan.kind.as_str(), plan.value.as_str()), ("b", "2"));
    assert_eq!(plan.residual, "[{\"k\":\"a\",\"v\":\"1\"},{\"k\":\"a\",\"v\":\"2\"}]");
    assert!(plan_with(&wanted, drive("b", "2", 3)).is_none());
    assert!(plan_with(&wanted, drive("b", "2", 9)).is_some());
    assert!(plan_with(&wanted, None).is_none());
}

#[test]
fn the_default_plan_lists_by_name() {
    let plan = Plan::default();
    assert!(!plan.by_facet);
    assert_eq!((plan.kind.as_str(), plan.value.as_str()), ("", ""));
    assert_eq!(plan.residual, "[]");
}

#[test]
fn the_saved_count_is_for_a_single_filter() {
    let m = manager();
    let mut q = query();
    q.platform = text("  ");
    q.facets = vec![facet("tag", "c")];
    let plan = match m.count_packages_by(&q, &operands(), drive("tag", "c", 1)) {
        CountStep::Saved(plan, s) => {
            assert_eq!(
                written(&s),
                "SELECT package_count FROM facet_counts\n                 \
                 WHERE repo_id = $1 AND kind = $2 AND value = $3 [7, 'tag', 'c']"
            );
            plan
        }
        _ => panic!("expected a saved count"),
    };
    assert!(matches!(
        m.count_packages_unless(&q, &plan, &operands(), Some(5000)),
        CountStep::Known(5000, false)
    ));
    match m.count_packages_unless(&q, &plan, &operands(), None) {
        CountStep::Count(s) => assert_eq!(
            written(&s),
            "facet count from 7 [7, 'tag', 'c', '[]', '', 1001, '0001.0002', -]"
        ),
        _ => panic!("expected a count"),
    }
}

#[test]
fn anything_else_is_counted() {
    let m = manager();
    let counts = |q: &PackageQuery, d: Option<Drive>| {
        matches!(m.count_packages_by(q, &operands(), d), CountStep::Count(_))
    };
    let mut q = query();
    q.platform = text("");
    q.facets = vec![facet("tag", "c")];
    assert!(!counts(&q, drive("tag", "c", 1)));
    assert!(counts(&q, drive("", "c", 1)));
    assert!(counts(&q, drive("tag", "d", 1)));
    q.platform = text("linux");
    assert!(counts(&q, drive("tag", "c", 1)));
    q.platform = text("");
    q.version = text("1");
    assert!(counts(&q, drive("tag", "c", 1)));
    q.version = text("");
    q.updated_at = text("2024");
    assert!(counts(&q, drive("tag", "c", 1)));
    q.updated_at = text("");
    q.facets.push(facet("tag", "d"));
    assert!(counts(&q, drive("tag", "c", 2)));
    q.facets = vec![];
    match m.count_packages(&q, &operands()) {
        CountStep::Count(s) => assert_eq!(
            written(&s),
            "name count from 7 [7, '', '', '[]', '', 1001, '0001.0002', -]"
        ),
        _ => panic!("expected a count"),
    }
}

#[test]
fn counting_stops_at_the_limit() {
    assert_eq!(MAX_COUNT, 1000);
    assert_eq!(counted(0), (0, false));
    assert_eq!(counted(999), (999, false));
    assert_eq!(counted(1000), (1000, false));
    assert_eq!(counted(1001), (1000, true));
    assert_eq!(counted(i64::MAX), (1000, true));
}

#[test]
fn an_extra_row_tells_of_another_page() {
    let mut q = query();
    q.limit = 3;
    assert_eq!(listed(&q, vec![1, 2, 3, 4]), (vec![1, 2, 3], true));
    assert_eq!(listed(&q, vec![1, 2, 3]), (vec![1, 2, 3], false));
    assert_eq!(listed::<u8>(&q, vec![]), (vec![], false));
    assert_eq!(searched(&q, vec![1, 2, 3, 4]), (vec![1, 2, 3], true));
    q.limit = 0;
    assert_eq!(listed(&q, vec![1]), (vec![], true));
    q.limit = -1;
    assert_eq!(listed(&q, vec![1, 2]), (vec![1, 2], false));
}

#[test]
fn a_page_backwards_is_turned_round() {
    let mut q = query();
    q.limit = 3;
    q.before = text("x");
    assert_eq!(listed(&q, vec![4, 3, 2, 1]), (vec![2, 3, 4], true));
    assert_eq!(listed(&q, vec![4, 3]), (vec![3, 4], false));
    // A search has no direction.
    assert_eq!(searched(&q, vec![4, 3, 2, 1]), (vec![4, 3, 2], true));
}

#[test]
fn the_cursor_comes_from_the_side_of_the_page() {
    let mut q = query();
    assert_eq!(cursor_text(&q), "");
    q.after = text("a");
    assert_eq!(cursor_text(&q), "a");
    q.before = text("b");
    assert_eq!(cursor_text(&q), "b");
}

#[test]
fn a_search_binds_its_term_in_three_forms() {
    let m = manager();
    let mut q = query();
    q.term = text("Foo-B");
    q.facets = vec![facet("tag", "c")];
    let s = m.search_packages(&q, &operands()).unwrap();
    assert_eq!(
        written(&s),
        "search from 9 [7, 'repo : 7 AND {identity keywords body} : (\"foo\" AND \"b\")', \
         'foo-b', 'foob', '[{\"k\":\"tag\",\"v\":\"c\"}]', 'linux', 40, 21, '0001.0002', -]"
    );
    q.name_only = true;
    q.repo_id = 0;
    q.facets = vec![];
    let s = m.search_packages(&q, &operands()).unwrap();
    assert_eq!(shown(&s.binds[1]), "'identity : (\"foo\" AND \"b\")'");
    assert_eq!(shown(&s.binds[4]), "'[]'");
    q.term = text("--");
    assert!(m.search_packages(&q, &operands()).is_none());
}

#[test]
fn any_limit_will_do_where_nothing_is_listed() {
    let m = manager();
    let mut q = query();
    q.limit = i32::MAX;
    q.term = text(" -- ");
    assert!(m.search_packages(&q, &operands()).is_none());
    q.facets = vec![facet("license", "MIT"), facet("arch", "x86")];
    assert!(matches!(m.get_packages(&q, &cursor(), &operands()), PackagesStep::Pick(_)));
    for d in [None, drive("arch", "x86", 1)] {
        assert!(!has_plan(&q.facets, &d));
        let step = m.get_packages_by(&q, &cursor(), &operands(), d);
        assert!(matches!(step, PackagesStep::Nothing));
    }
    assert!(has_plan(&q.facets, &drive("arch", "x86", 2)));
}

#[test]
fn the_largest_limit_leaves_room_for_an_extra_row() {
    let m = manager();
    let mut q = query();
    q.limit = i32::MAX - 1;
    q.term = text("zlib");
    let s = m.search_packages(&q, &operands()).unwrap();
    assert_eq!(shown(&s.binds[7]), "2147483647");
}

#[test]
fn going_backwards_after_is_ignored() {
    let m = manager();
    let mut q = query();
    q.before = text("b");
    q.limit = 2;
    let plain = match m.get_packages(&q, &cursor(), &operands()) {
        PackagesStep::List(s) => written(&s),
        _ => panic!("expected a listing"),
    };
    assert!(plain.starts_with("name prev"));
    for after in ["", "a", "b"] {
        q.after = text(after);
        assert_eq!(cursor_text(&q), "b");
        match m.get_packages(&q, &cursor(), &operands()) {
            PackagesStep::List(s) => assert_eq!(written(&s), plain),
            _ => panic!("expected a listing"),
        }
        assert_eq!(listed(&q, vec![3, 2, 1]), (vec![2, 3], true));
    }
}
