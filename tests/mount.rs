use tide_fs::serve_dir::{Access, ServeDir};
use tide_fs::serve_file::ServeFile;
use tide_fs::{TideFsExt, DIR_PARAM, DIR_ROUTE};

#[derive(Default)]
struct Recorder {
    files: Vec<ServeFile>,
    dirs: Vec<(String, ServeDir)>,
}

impl TideFsExt for Recorder {
    type Error = String;

    fn canonical_path(path: &str) -> Result<String, String> {
        if path.starts_with('/') {
            Ok(path.to_string())
        } else {
            Err(format!("cannot resolve {}", path))
        }
    }

    fn mount_file(&mut self, endpoint: ServeFile) {
        self.files.push(endpoint);
    }

    fn mount_dir(&mut self, pattern: &str, endpoint: ServeDir) {
        self.dirs.push((pattern.to_string(), endpoint));
    }
}

#[test]
fn serve_dir_mounts_wildcard_route() {
    let mut r = Recorder::default();
    assert_eq!(r.serve_dir("/srv/static"), Ok(()));
    assert_eq!(r.dirs.len(), 1);
    let (pattern, endpoint) = &r.dirs[0];
    assert_eq!(pattern, DIR_ROUTE);
    assert_eq!(pattern, "*path");
    assert_eq!(endpoint.pattern(), DIR_PARAM);
    assert_eq!(endpoint.root_path(), "/srv/static");
    assert!(matches!(endpoint.resolve("../x"), Access::Forbidden));
}

#[test]
fn serve_file_mounts_fixed_file() {
    let mut r = Recorder::default();
    assert_eq!(r.serve_file("/srv/index.html"), Ok(()));
    assert_eq!(r.files.len(), 1);
    assert_eq!(r.files[0].file_path(), "/srv/index.html");
}

#[test]
fn unresolvable_path_fails_setup() {
    let mut r = Recorder::default();
    assert_eq!(r.serve_dir("relative"), Err("cannot resolve relative".to_string()));
    assert_eq!(r.serve_file("missing"), Err("cannot resolve missing".to_string()));
    assert!(r.files.is_empty());
    assert!(r.dirs.is_empty());
}
