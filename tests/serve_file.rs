use tide_fs::reply::{settle_read, FileRead, Reply};
use tide_fs::serve_dir::Access;
use tide_fs::serve_file::ServeFile;

fn read_path(f: &ServeFile, request: &str) -> String {
    match f.resolve(request) {
        Access::Read(p) => p,
        Access::Forbidden => panic!("a single file is never forbidden"),
    }
}

#[test]
fn should_return_file_contents() {
    let f = ServeFile::init("/tmp/dir/file.txt");
    assert_eq!(f.file_path(), "/tmp/dir/file.txt");
    assert_eq!(read_path(&f, "/file"), "/tmp/dir/file.txt");
    let read: FileRead<Vec<u8>, String> = FileRead::Found(b"hello world".to_vec());
    match settle_read(read) {
        Ok(Reply::Content { body, .. }) => assert_eq!(body, b"hello world".to_vec()),
        _ => panic!("expected content"),
    }
}

#[test]
fn request_path_is_ignored() {
    let f = ServeFile::init("/srv/index.html");
    assert_eq!(read_path(&f, ""), "/srv/index.html");
    assert_eq!(read_path(&f, "../../etc/passwd"), "/srv/index.html");
    assert_eq!(read_path(&f, "other.css"), "/srv/index.html");
}
