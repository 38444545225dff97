use a2ltool::creator::parser::Parser;

fn toks(list: &[&[u8]]) -> Vec<Vec<u8>> {
    list.iter().map(|t| t.to_vec()).collect()
}

#[test]
fn basic_readers_take_any_tokens() {
    let tokens = toks(&[b"", b"\"", b"WRITEABLE", b"x"]);
    let mut p = Parser::new(&tokens);
    // an empty token is taken like any other
    assert_eq!(p.get_token("ctx").unwrap(), b"");
    // a token that is not the one required is taken all the same
    assert_eq!(p.require_token("ctx", "=").unwrap_err(), "Expected = in ctx, got \"");
    assert_eq!(p.parse_write_access(), Some(true));
    assert_eq!(p.get_identifier("X").unwrap(), "x");
    assert_eq!(p.get_token("ctx").unwrap_err(), "Unexpected end of input in ctx");
}

#[test]
fn string_reader_refuses_empty_and_unquoted_tokens() {
    let tokens = toks(&[b"", b"\"abc\"", b"READ_ONLY"]);
    let mut p = Parser::new(&tokens);
    assert_eq!(p.get_string("S").unwrap_err(), "Expected quoted string in S definition");
    assert_eq!(p.get_token("S").unwrap(), b"");
    assert_eq!(p.get_string("S").unwrap(), "abc");
    assert_eq!(p.get_identifier("S").unwrap(), "READ_ONLY");
    assert_eq!(p.parse_write_access(), None);
}
