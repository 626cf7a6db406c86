pub mod multi_line_comment;
pub mod single_line_comment;

pub use crate::comment::multi_line_comment::MultiLineComment;
pub use crate::comment::single_line_comment::SingleLineComment;
