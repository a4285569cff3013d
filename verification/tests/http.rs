use std::path::{Component, Path};

use pkgcatalog::http::{
    init_handlers, serve_static, static_answer, static_path, static_response, Handler, Part,
    StaticResponse, GET,
};

#[test]
fn routes_without_a_site() {
    let routes = init_handlers(false);
    let paths: Vec<&str> = routes.iter().map(|r| r.path).collect();
    assert_eq!(
        paths,
        vec![
            "/api/health",
            "/api/repos",
            "/api/repos/{repo}",
            "/api/repos/{repo}/packages",
            "/api/repos/{repo}/packages/{pkg}",
            "/api/suggest/licenses",
            "/api/suggest/platforms",
        ]
    );
    assert!(routes.iter().all(|r| !r.timed));
    assert_eq!(routes[3].handler, Handler::QueryPackages);
}

#[test]
fn routes_with_a_site() {
    let routes = init_handlers(true);
    let api = init_handlers(false);
    for (r, a) in routes.iter().zip(api.iter()) {
        assert_eq!((r.path, r.handler, r.timed), (a.path, a.handler, a.timed));
    }
    let pages: Vec<(&str, Handler)> =
        routes.iter().skip(api.len()).map(|r| (r.path, r.handler)).collect();
    assert_eq!(
        pages,
        vec![
            ("/", Handler::RenderIndex),
            ("/p/{page}", Handler::RenderCustomPage),
            ("/search", Handler::RenderSearchForm),
            ("/repos", Handler::RenderRepos),
            ("/repos.xml", Handler::RenderRepos),
            ("/repos/{repo}", Handler::RenderSearch),
            ("/repos/{repo}/{pkg}", Handler::RenderPackage),
            ("/repos/{repo}/{pkg}/feed.xml", Handler::RenderPackage),
            ("/static/{*path}", Handler::ServeStatic),
        ]
    );
    assert!(routes.iter().skip(api.len()).all(|r| r.timed));
    for (i, r) in routes.iter().enumerate() {
        assert!(routes.iter().skip(i + 1).all(|s| s.path != r.path));
    }
}

#[test]
fn only_files_below_the_directory_are_served() {
    for p in ["a.css", "css/a.css", "a//b", "a/./b", "a/.", "...", "..a/b..", ".hidden", ""] {
        assert_eq!(serve_static(true, p).as_deref(), Some(p), "{p}");
        assert_eq!(serve_static(false, p), None);
    }
    for p in ["..", "../x", "a/../b", "a/..", ".", "./a", "//..", "/./a", "a/b/../../.."] {
        assert_eq!(serve_static(true, p), None, "{p}");
    }
    assert_eq!(serve_static(true, "//css/a.css").as_deref(), Some("css/a.css"));
}

#[test]
fn parts_decide_on_a_path() {
    let p = || "x".to_string();
    assert_eq!(static_path(true, p(), &vec![]), Some(p()));
    assert_eq!(static_path(true, p(), &vec![Part::Name, Part::Name]), Some(p()));
    assert_eq!(static_path(false, p(), &vec![Part::Name]), None);
    for part in [Part::Prefix, Part::Root, Part::Current, Part::Parent] {
        assert_eq!(static_path(true, p(), &vec![Part::Name, part]), None);
        assert_eq!(static_path(true, p(), &vec![part, Part::Name]), None);
    }
}

#[test]
fn files_come_with_their_media_type() {
    for (path, expected) in [
        ("css/a.css", "text/css"),
        ("img/A.GIF", "image/gif"),
        ("README", "application/octet-stream"),
        ("a.b/c", "application/octet-stream"),
        ("x.nosuchextension", "application/octet-stream"),
    ] {
        match static_response(path, Some(vec![1, 2, 3])) {
            StaticResponse::File(f) => {
                assert_eq!(f.status, 200);
                assert_eq!(f.content_type, expected);
                assert_eq!(f.cache_control, "public, max-age=604800");
                assert_eq!(f.body, vec![1, 2, 3]);
            }
            _ => panic!("{path} was read"),
        }
    }
}

#[test]
fn an_unreadable_file_is_not_found() {
    assert!(matches!(
        static_response("a.css", None),
        StaticResponse::NotFound(404, "not found")
    ));
    assert!(matches!(
        static_answer("text/css".to_string(), None),
        StaticResponse::NotFound(404, "not found")
    ));
}

#[test]
fn everything_is_read_by_get() {
    assert_eq!(GET, "GET");
    for has_site in [false, true] {
        let routes = init_handlers(has_site);
        assert_eq!(routes.len(), if has_site { 16 } else { 7 });
        assert!(routes.iter().all(|r| r.method == "GET"));
    }
}

#[test]
fn the_system_decides_on_unusual_paths() {
    for p in ["c:/a.css", "c:\\a.css", "a\\..\\b.css", "a:b/c.txt", "\\\\share\\x.png", "x:"] {
        let names = Path::new(p).components().all(|c| matches!(c, Component::Normal(_)));
        assert_eq!(serve_static(true, p).as_deref(), if names { Some(p) } else { None });
        assert_eq!(serve_static(false, p), None);
        let expected = mime_guess::from_path(p).first_or_octet_stream().to_string();
        match static_response(p, Some(vec![])) {
            StaticResponse::File(f) => assert_eq!(f.content_type, expected),
            _ => panic!("{p} was read"),
        }
    }
    // No dot, no extension.
    match static_response("c:\\css", Some(vec![])) {
        StaticResponse::File(f) => assert_eq!(f.content_type, "application/octet-stream"),
        _ => panic!("the file was read"),
    }
}
