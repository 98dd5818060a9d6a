//! Lexer tests: source text split into tokens.

use rustyscheme::tokenise::tokenise;

fn run_test(tv: &str, expected: &Vec<&str>) {
    let chars: Vec<char> = tv.chars().collect();
    let res = tokenise(&chars);
    let got: Vec<&str> = res.iter().map(|s| s.as_str()).collect();
    assert_eq!(got, *expected);
}

#[test]
fn single_s_expr() {
    // junk whitespace added to (a be c)
    run_test(" (a be \tc)\n\t", &vec!["(", "a", "be", "c", ")"]);
}

#[test]
fn nested_s_expr() {
    run_test(
        "(apple (b cool) d)",
        &vec!["(", "apple", "(", "b", "cool", ")", "d", ")"],
    );
}

#[test]
fn line_comments() {
    run_test(
        "(add ; wild comment
                 1 2 3)",
        &vec!["(", "add", "1", "2", "3", ")"],
    )
}

#[test]
fn multiple_lines() {
    run_test(
        "
             (one two)
             ; two three four
             (five)
",
        &vec!["(", "one", "two", ")", "(", "five", ")"],
    )
}

#[test]
fn boolean() {
    run_test("#t #f", &vec!["#", "t", "#", "f"])
}

#[test]
fn quoting() {
    run_test("'(I am quoted)", &vec!["'", "(", "I", "am", "quoted", ")"])
}

#[test]
fn strings() {
    run_test("\"Hello world(!)\"", &vec!["\"Hello world(!)\""])
}

#[test]
fn escaping() {
    run_test(
        "\"I said \\\"Hello world\\\"\"",
        &vec!["\"I said \"Hello world\"\""],
    )
}

#[test]
fn comment_in_string() {
    run_test(
        ";this is a comment
            \"; this is not a comment\"",
        &vec!["\"; this is not a comment\""],
    )
}

#[test]
fn empty_input() {
    run_test("", &vec![]);
}

#[test]
fn unterminated_string_is_flushed() {
    // the lexer does not detect the missing quote; the parser does
    run_test("\"abc", &vec!["\"abc"]);
}
