//! The endpoints and the mounting trait, for a single import.

pub use crate::serve_dir::ServeDir;
pub use crate::serve_dir_compiled::ServeDirCompiled;
pub use crate::serve_file::ServeFile;
pub use crate::TideFsExt;
