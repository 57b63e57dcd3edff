//! Shader-source preprocessing: a comment and quote scanner that keeps the
//! geometry of every line, and a directive extractor that reads module,
//! import and include declarations from the cleaned text. Beside them stand
//! the plain-data descriptions that go to and come from the shader compiler.

pub mod codes;
pub mod com;
pub mod matcher;
pub mod preprocess;
pub mod preprocess_laws;
pub mod reflect;
pub mod scanner;
pub mod scanner_laws;
pub mod text;
pub mod types;

pub use preprocess::get_file_type;
pub use preprocess::preprocess;
pub use preprocess::FileType;
pub use preprocess::Path;
pub use preprocess::PreprocessedShader;
pub use scanner::replace_comments;
pub use scanner::CleanedLine;
pub use scanner::CommentReplaceExt;
pub use scanner::CommentReplaceIter;
pub use scanner::ScanState;
