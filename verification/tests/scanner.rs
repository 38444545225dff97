use a2ltool::creator::scanner::{skip_char_literal, skip_string_literal, CommentScanner};

#[test]
fn test_skip_string_literal() {
    let data = b"\"Hello, \\\"world\\\"!\"";
    let pos = skip_string_literal(data, 0);
    assert_eq!(pos, data.len());
}

#[test]
fn test_skip_char_literal() {
    let data = b"'a'";
    let pos = skip_char_literal(data, 0);
    assert_eq!(pos, data.len());
}

#[test]
fn comment_scanner() {
    let input = br#"
        abc
        "def\""
        // regular comment
        ---
        // @@ looks like a definition
        struct whatever {
            int thing;
        };
        /*
        @@ defintion block with various specific cases
        @@ compact range = [0...1.0],555
        @@ alternative range = [ 0 ... 1.0 ], 555
        */
        y = x / 3;
        "#;

    let scanner = CommentScanner::new(b"@@ ");
    let comments = scanner.scan_comments(input);
    assert_eq!(comments.len(), 2);
    let (_, first_comment) = &comments[0];
    assert_eq!(first_comment[0], b"looks");
    assert_eq!(first_comment[1], b"like");
    assert_eq!(first_comment[2], b"a");
    assert_eq!(first_comment[3], b"definition");
}

#[test]
fn scanner_char_literals() {
    // an escaped char literal is four bytes long
    let data = b"'\\n' x";
    assert_eq!(skip_char_literal(data, 0), 4);
    // a quote as the third byte closes the literal there
    let data = b"'\\'' x";
    assert_eq!(skip_char_literal(data, 0), 3);
}

#[test]
fn scanner_unterminated_literals_end_at_data_end() {
    assert_eq!(skip_string_literal(b"\"abc", 0), 4);
    // a lone quote is skipped by itself
    assert_eq!(skip_char_literal(b"'a", 0), 1);
}

#[test]
fn scanner_block_comment_commands() {
    let input = b"/*\n@@ SYMBOL = a\n@@ END\n*/ int a; // @@ MAIN_GROUP = g\n";
    let scanner = CommentScanner::new(b"@@");
    let comments = scanner.scan_comments(input);
    assert_eq!(comments.len(), 2);
    assert_eq!(comments[0].1, vec![b"SYMBOL".to_vec(), b"=".to_vec(), b"a".to_vec(), b"END".to_vec()]);
    assert_eq!(comments[1].1, vec![b"MAIN_GROUP".to_vec(), b"=".to_vec(), b"g".to_vec()]);
}

#[test]
fn scanner_ignores_markers_in_strings() {
    let input = b"char *s = \"// @@ not a comment\";\n";
    let scanner = CommentScanner::new(b"@@");
    let comments = scanner.scan_comments(input);
    assert_eq!(comments.len(), 0);
}
