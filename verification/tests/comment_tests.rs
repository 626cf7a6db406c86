use source_generator::comment::multi_line_comment::MultiLineComment;
use source_generator::comment::single_line_comment::SingleLineComment;

#[test]
fn multi_line_single() {
    let c1 = MultiLineComment::from("/**", " *", "*/", "Single line of text");
    assert_eq!(
        c1.to_source_code(1),
        String::from("    /** Single line of text\n    */\n")
    );
}

#[test]
fn multi_line() {
    let c1 = MultiLineComment::from(
        "/**",
        " *",
        " */",
        "First line of text\nsecond line\n\nfourth line",
    );
    assert_eq!(
        c1.to_source_code(2),
        String::from("        /** First line of text\n         * second line\n         *\n         * fourth line\n         */\n")
    );
}

#[test]
fn single_line_comment_single_line() {
    let c1 = SingleLineComment::from("//!", "Single line comment");
    assert_eq!(
        c1.to_source_code(1),
        String::from("    //! Single line comment\n")
    );
}

#[test]
fn single_makefile() {
    let c1 = SingleLineComment::from("#", "A single line Makefile comment");
    assert_eq!(
        c1.to_source_code(0),
        String::from("# A single line Makefile comment\n")
    );
}

#[test]
fn single_line_multi() {
    let c1 = SingleLineComment::from("//!", "First line\nsecond line\n\n fourth line");
    assert_eq!(
        c1.to_source_code(0),
        String::from("//! First line\n//! second line\n//!\n//!  fourth line\n")
    );
}

#[test]
fn single_vhdl() {
    let c1 = SingleLineComment::from("--!", "First line\nsecond line\n\n fourth line");
    assert_eq!(
        c1.to_source_code(0),
        String::from("--! First line\n--! second line\n--!\n--!  fourth line\n")
    );
}

#[test]
fn single_line() {
    let c1 = source_generator::vhdl::single_line_comment::SingleLineComment::new_with_text(
        "Single line comment",
    );
    assert_eq!(
        c1.to_source_code(1),
        String::from("    -- Single line comment\n")
    );
}
