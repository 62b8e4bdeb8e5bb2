use tide_fs::bundle::{Bundle, Item};
use tide_fs::mime::{content_type, extension};
use tide_fs::reply::Reply;
use tide_fs::serve_dir_compiled::ServeDirCompiled;

fn sample() -> Bundle {
    let mut b = Bundle::new();
    b.add_file("index.html", b"<h1>root</h1>".to_vec());
    b.add_dir("css");
    b.add_file("css/app.css", b"body{}".to_vec());
    b.add_dir("docs");
    b.add_file("docs/index.html", b"<h1>docs</h1>".to_vec());
    b.add_file("docs/notes.txt", b"notes".to_vec());
    b.add_dir("empty");
    b
}

fn content(r: Reply<Vec<u8>>) -> (Vec<u8>, Option<String>) {
    match r {
        Reply::Content { body, content_type } => (body, content_type),
        _ => panic!("expected content"),
    }
}

#[test]
fn empty_path_serves_root_index() {
    let c = ServeDirCompiled::new(sample(), "path").with_index_file(Some("index.html"));
    let r = c.resolve("");
    assert_eq!(r.status(), 200);
    assert_eq!(
        content(r),
        (b"<h1>root</h1>".to_vec(), Some("text/html;charset=utf-8".to_string()))
    );
}

#[test]
fn directory_without_index_is_not_found() {
    let c = ServeDirCompiled::new(sample(), "path");
    assert!(matches!(c.resolve("docs"), Reply::NotFound));
    assert!(matches!(c.resolve(""), Reply::NotFound));
    assert!(matches!(c.resolve("css"), Reply::NotFound));
}

#[test]
fn subdirectory_serves_its_own_index() {
    let c = ServeDirCompiled::new(sample(), "path").with_index_file(Some("index.html"));
    assert_eq!(content(c.resolve("/docs")).0, b"<h1>docs</h1>".to_vec());
    assert!(matches!(c.resolve("empty"), Reply::NotFound));
    assert!(matches!(c.resolve("css"), Reply::NotFound));
}

#[test]
fn files_are_typed_by_extension() {
    let c = ServeDirCompiled::new(sample(), "path");
    assert_eq!(
        content(c.resolve("css/app.css")),
        (b"body{}".to_vec(), Some("text/css;charset=utf-8".to_string()))
    );
    assert_eq!(content(c.resolve("//docs/notes.txt")), (b"notes".to_vec(), None));
}

#[test]
fn unknown_paths_are_not_found() {
    let c = ServeDirCompiled::new(sample(), "path").with_index_file(Some("index.html"));
    assert!(matches!(c.resolve("css/missing.css"), Reply::NotFound));
    assert!(matches!(c.resolve("docs/../index.html"), Reply::NotFound));
    assert_eq!(c.resolve("nothing").status(), 404);
}

#[test]
fn index_can_be_unset_again() {
    let c = ServeDirCompiled::new(sample(), "route")
        .with_index_file(Some("index.html"))
        .with_index_file(None);
    assert_eq!(c.pattern(), "route");
    assert!(matches!(c.resolve(""), Reply::NotFound));
}

#[test]
fn directory_takes_precedence_over_file() {
    let mut b = Bundle::new();
    b.add_file("same", b"file".to_vec());
    b.add_dir("same");
    b.add_file("same/index.html", b"dir index".to_vec());
    let c = ServeDirCompiled::new(b, "path").with_index_file(Some("index.html"));
    assert!(matches!(c.get_item("same"), Some(Item::Dir("same"))));
    assert_eq!(content(c.resolve("same")).0, b"dir index".to_vec());
}

#[test]
fn lookup_of_items() {
    let c = ServeDirCompiled::new(sample(), "path");
    assert!(matches!(c.get_item(""), Some(Item::Dir(""))));
    match c.get_item("docs/notes.txt") {
        Some(Item::File(f)) => {
            assert_eq!(f.path(), "docs/notes.txt");
            assert_eq!(f.contents(), &b"notes".to_vec());
        }
        _ => panic!("expected a file"),
    }
    assert!(c.get_item("docs/").is_none());
}

#[test]
fn clones_answer_alike() {
    let c = ServeDirCompiled::new(sample(), "path").with_index_file(Some("index.html"));
    let d = c.clone();
    assert_eq!(content(c.resolve("css/app.css")), content(d.resolve("css/app.css")));
    assert_eq!(content(c.resolve("")), content(c.resolve("")));
}

#[test]
fn extensions_of_paths() {
    assert_eq!(extension("a/b/app.css"), Some("css".to_string()));
    assert_eq!(extension("archive.tar.gz"), Some("gz".to_string()));
    assert_eq!(extension("dir.d/README"), None);
    assert_eq!(extension(".bashrc"), None);
    assert_eq!(extension("name."), Some("".to_string()));
    assert_eq!(extension(""), None);
}

#[test]
fn content_types_of_paths() {
    assert_eq!(content_type("index.html"), Some("text/html;charset=utf-8".to_string()));
    assert_eq!(content_type("app.mjs"), Some("application/javascript;charset=utf-8".to_string()));
    assert_eq!(content_type("data.json"), Some("application/json".to_string()));
    assert_eq!(content_type("logo.svg"), Some("image/svg+xml".to_string()));
    assert_eq!(content_type("feed.xml"), Some("application/xml;charset=utf-8".to_string()));
    assert_eq!(content_type("photo.png"), None);
    assert_eq!(content_type("html"), None);
}
