//! Serving static content from a directory on disk, from a single file, or
//! from a bundle of files held in memory, with every request path kept
//! inside the configured root.

pub mod bundle;
pub mod mime;
pub mod path;
pub mod prelude;
pub mod reply;
pub mod serve_dir;
pub mod serve_dir_compiled;
pub mod serve_file;

use vstd::prelude::*;
use crate::serve_dir::ServeDir;
use crate::serve_file::ServeFile;

verus! {

/// The route pattern under which a served directory takes the rest of the
/// request path.
pub const DIR_ROUTE: &'static str = "*path";

/// The route parameter that holds the rest of the request path.
pub const DIR_PARAM: &'static str = "path";

/// Mounting the endpoints of this crate on a route of a web router.
pub trait TideFsExt {
    /// The failure of resolving a path in the file system.
    type Error;

    /// The canonical absolute form of `path`: `.`, `..` and links resolved.
    fn canonical_path(path: &str) -> Result<String, Self::Error>;

    /// Answers requests for this route with `endpoint`.
    fn mount_file(&mut self, endpoint: ServeFile);

    /// Answers requests for `pattern` below this route with `endpoint`.
    fn mount_dir(&mut self, pattern: &str, endpoint: ServeDir);

    /// Serves the file at `file` on this route.
    fn serve_file(&mut self, file: &str) -> Result<(), Self::Error> {
        match Self::canonical_path(file) {
            Ok(canonical) => {
                self.mount_file(ServeFile::init(canonical.as_str()));
                Ok(())
            },
            Err(e) => Err(e),
        }
    }

    /// Serves the directory at `dir` below this route, each request path
    /// naming a file inside it.
    fn serve_dir(&mut self, dir: &str) -> Result<(), Self::Error> {
        match Self::canonical_path(dir) {
            Ok(canonical) => {
                self.mount_dir(DIR_ROUTE, ServeDir::serve(canonical.as_str(), DIR_PARAM));
                Ok(())
            },
            Err(e) => Err(e),
        }
    }
}

} // verus!
