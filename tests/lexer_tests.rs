use ts_scss::lexer::{tokenize, Lexer, LexicalError, Operator, Token, TokenKind};

fn token(kind: TokenKind, value: &str) -> Result<Token, LexicalError> {
    Ok(Token {
        kind,
        value: value.to_string(),
    })
}

#[test]
fn test_lexer_initialization() {
    let input = "div { color: $primary; }";
    let lexer = Lexer::new(input);
    assert_eq!(lexer.position(), 0);
    assert_eq!(lexer.current_char(), Some('d'));
}

#[test]
fn test_class() {
    let input = ".class-name { color: $primary; }";
    let mut lexer = Lexer::new(input);
    assert_eq!(lexer.next_token(), token(TokenKind::Class(false), "class-name"));
}

#[test]
fn test_skip_whitespace() {
    let input = "  div { color: $primary; }";
    let mut lexer = Lexer::new(input);
    assert_eq!(lexer.next_token(), token(TokenKind::Indent(2), ""));
}

#[test]
fn test_pseudo_class() {
    let input = "&:hover { color: $primary; }";
    let mut lexer = Lexer::new(input);
    assert_eq!(
        lexer.next_token(),
        token(TokenKind::Property("hover".to_string()), "")
    );
}

#[test]
fn test_single_line_comment() {
    let input = "// This is a comment\ndiv { color: $primary; }";
    let mut lexer = Lexer::new(input);
    assert_eq!(lexer.next_token(), token(TokenKind::Comment, " This is a comment"));
    assert_eq!(lexer.next_token(), token(TokenKind::Op(Operator::NewLine), "\\n"));
    assert_eq!(lexer.next_token(), token(TokenKind::Element, "div "));
}

#[test]
fn test_multi_line_comment() {
    let input = "/* This is a\nmulti-line comment */\ndiv { color: $primary; }";
    let mut lexer = Lexer::new(input);
    assert_eq!(
        lexer.next_token(),
        token(TokenKind::Comment, " This is a\nmulti-line comment ")
    );
    assert_eq!(lexer.next_token(), token(TokenKind::Op(Operator::NewLine), "\\n"));
    assert_eq!(lexer.next_token(), token(TokenKind::Element, "div "));
}

#[test]
fn test_variable_token() {
    let input = "$primary: #ff0000;";
    let mut lexer = Lexer::new(input);
    assert_eq!(lexer.next_token(), token(TokenKind::Variable, "primary"));
}

#[test]
fn test_class_token() {
    let input = ".class-name { color: $primary; }";
    let mut lexer = Lexer::new(input);
    assert_eq!(lexer.next_token(), token(TokenKind::Class(false), "class-name"));
}

#[test]
fn test_nested_class_token() {
    let input = "&.child { color: $primary; }";
    let mut lexer = Lexer::new(input);
    assert_eq!(lexer.next_token(), token(TokenKind::Class(true), "child"));
}

#[test]
fn test_import_token() {
    let input = "@import 'styles.css';";
    let mut lexer = Lexer::new(input);
    assert_eq!(lexer.next_token(), token(TokenKind::Import, "import 'styles.css'"));
}

#[test]
fn test_element_and_property_tokens_with_variables() {
    let input = "div { color: $primary; }";
    let mut lexer = Lexer::new(input);
    assert_eq!(lexer.next_token(), token(TokenKind::Element, "div "));
    assert_eq!(lexer.next_token(), token(TokenKind::Op(Operator::LBrace), "{"));
    assert_eq!(lexer.next_token(), token(TokenKind::Indent(1), ""));
    assert_eq!(
        lexer.next_token(),
        token(TokenKind::Property("color".to_string()), "$primary")
    );
    assert_eq!(lexer.next_token(), token(TokenKind::Indent(1), ""));
    // The last character is scanned too: the end comes only after it.
    assert_eq!(lexer.next_token(), token(TokenKind::Op(Operator::RBrace), "}"));
    assert_eq!(lexer.next_token(), token(TokenKind::EOF, ""));
}

#[test]
fn test_element_and_property_tokens_with_percent() {
    let input = "div { height: 100%; }";
    let mut lexer = Lexer::new(input);
    assert_eq!(lexer.next_token(), token(TokenKind::Element, "div "));
    assert_eq!(lexer.next_token(), token(TokenKind::Op(Operator::LBrace), "{"));
    assert_eq!(lexer.next_token(), token(TokenKind::Indent(1), ""));
    assert_eq!(
        lexer.next_token(),
        token(TokenKind::Property("height".to_string()), "100%")
    );
    assert_eq!(lexer.next_token(), token(TokenKind::Indent(1), ""));
    assert_eq!(lexer.next_token(), token(TokenKind::Op(Operator::RBrace), "}"));
    assert_eq!(lexer.next_token(), token(TokenKind::EOF, ""));
}

#[test]
fn test_css_variable_token() {
    let input = "--primary-color: var(--color) !important;";
    let mut lexer = Lexer::new(input);
    assert_eq!(lexer.next_token(), token(TokenKind::CssVariable, "primary-color"));
}

fn kinds(input: &str) -> Vec<TokenKind> {
    tokenize(input).unwrap().into_iter().map(|t| t.kind).collect()
}

#[test]
fn class_rule_tokens() {
    let tokens = tokenize(".foo { color: $primary; }").unwrap();
    let expected = vec![
        Token { kind: TokenKind::Class(false), value: "foo".to_string() },
        Token { kind: TokenKind::Indent(1), value: "".to_string() },
        Token { kind: TokenKind::Op(Operator::LBrace), value: "{".to_string() },
        Token { kind: TokenKind::Indent(1), value: "".to_string() },
        Token { kind: TokenKind::Property("color".to_string()), value: "$primary".to_string() },
        Token { kind: TokenKind::Indent(1), value: "".to_string() },
        Token { kind: TokenKind::Op(Operator::RBrace), value: "}".to_string() },
        Token { kind: TokenKind::EOF, value: "".to_string() },
    ];
    assert_eq!(tokens, expected);
}

#[test]
fn single_eof_at_the_end() {
    for input in ["", "a", ".x", "div {\n  color: red;\n}\n", "/* open", "// c"] {
        let tokens = tokenize(input).unwrap();
        let eofs = tokens.iter().filter(|t| t.kind == TokenKind::EOF).count();
        assert_eq!(eofs, 1, "{input:?}");
        assert_eq!(tokens.last().unwrap().kind, TokenKind::EOF);
    }
}

#[test]
fn eof_repeats_at_the_end() {
    let mut lexer = Lexer::new("a");
    assert_eq!(lexer.next_token(), token(TokenKind::Element, "a"));
    assert_eq!(lexer.next_token(), token(TokenKind::EOF, ""));
    assert_eq!(lexer.next_token(), token(TokenKind::EOF, ""));
    assert_eq!(lexer.position(), 1);
}

#[test]
fn nested_class_with_space() {
    let mut lexer = Lexer::new("& .child { }");
    assert_eq!(lexer.next_token(), token(TokenKind::Class(true), "child"));
}

#[test]
fn pseudo_class_with_declaration() {
    let tokens = tokenize("&:hover { color: red; }").unwrap();
    assert_eq!(tokens[0], Token { kind: TokenKind::Property("hover".to_string()), value: "".to_string() });
    assert!(tokens.iter().all(|t| !matches!(t.kind, TokenKind::Class(_))));
}

#[test]
fn css_variable_is_never_class_or_property() {
    let mut lexer = Lexer::new("--brand-color: #112233;");
    assert_eq!(lexer.next_token(), token(TokenKind::CssVariable, "brand-color"));
    assert_eq!(lexer.next_token(), token(TokenKind::Op(Operator::Colon), ":"));
    assert_eq!(lexer.next_token(), token(TokenKind::Indent(1), ""));
    assert_eq!(
        lexer.next_token(),
        Err(LexicalError { position: 15, character: '#' })
    );
}

#[test]
fn directives() {
    assert_eq!(tokenize("@import 'a.scss';").unwrap()[0], Token { kind: TokenKind::Import, value: "import 'a.scss'".to_string() });
    assert_eq!(tokenize("@include mix(1);").unwrap()[0], Token { kind: TokenKind::Include, value: "include mix(1)".to_string() });
    assert_eq!(tokenize("@use 'b';").unwrap()[0], Token { kind: TokenKind::Include, value: "use 'b'".to_string() });
}

#[test]
fn mixin_and_media() {
    let mut lexer = Lexer::new("@mixin round {");
    assert_eq!(lexer.next_token(), token(TokenKind::Mixin, "mixin"));
    let mut lexer = Lexer::new("@media (max-width: 10px) {\n.a {}");
    assert_eq!(lexer.next_token(), token(TokenKind::Media, "media"));
    assert_eq!(lexer.next_token(), token(TokenKind::Op(Operator::NewLine), "\\n"));
    assert_eq!(lexer.next_token(), token(TokenKind::Class(false), "a"));
}

#[test]
fn carriage_return_and_operators() {
    assert_eq!(
        kinds("\r\n+()"),
        vec![
            TokenKind::Op(Operator::NewLine),
            TokenKind::Op(Operator::NewLine),
            TokenKind::Op(Operator::Plus),
            TokenKind::Op(Operator::LParen),
            TokenKind::Op(Operator::RParen),
            TokenKind::EOF,
        ]
    );
    let mut lexer = Lexer::new("\r");
    assert_eq!(lexer.next_token(), token(TokenKind::Op(Operator::NewLine), "\\r"));
}

#[test]
fn unterminated_comment_runs_to_the_end() {
    let tokens = tokenize("/* open .a").unwrap();
    assert_eq!(tokens[0], Token { kind: TokenKind::Comment, value: " open .a".to_string() });
    assert_eq!(tokens.len(), 2);
}

#[test]
fn unexpected_top_level_character() {
    assert_eq!(
        tokenize(".a {}\n#b {}"),
        Err(LexicalError { position: 6, character: '#' })
    );
}

#[test]
fn unexpected_character_in_value() {
    assert_eq!(
        tokenize("a { color: red?; }"),
        Err(LexicalError { position: 14, character: '?' })
    );
}

#[test]
fn property_value_keeps_spaces_and_ends_at_input_end() {
    let tokens = tokenize("margin: 0 auto").unwrap();
    assert_eq!(tokens[0], Token { kind: TokenKind::Property("margin".to_string()), value: "0 auto".to_string() });
}

#[test]
fn bare_colon_does_not_end_a_name() {
    let tokens = tokenize("a:b{").unwrap();
    assert_eq!(tokens[0], Token { kind: TokenKind::Element, value: "ab".to_string() });
}

#[test]
fn kind_descriptions() {
    assert_eq!(TokenKind::Indent(120).description(), "<indent: 120>");
    assert_eq!(TokenKind::Indent(0).description(), "<indent: 0>");
    assert_eq!(TokenKind::Property("color".to_string()).description(), "<property: color>");
    assert_eq!(TokenKind::Class(true).description(), "<class:true>");
    assert_eq!(TokenKind::Op(Operator::LBrace).description(), "<operator: {>");
    assert_eq!(TokenKind::EOF.description(), "<EOF>");
    assert_eq!(Operator::NewLine.text(), "\\n");
}

#[test]
fn line_comment_stops_at_carriage_return() {
    let mut lexer = Lexer::new("// x\r\n.a { }");
    assert_eq!(lexer.next_token(), token(TokenKind::Comment, " x"));
    assert_eq!(lexer.next_token(), token(TokenKind::Op(Operator::NewLine), "\\r"));
    assert_eq!(lexer.next_token(), token(TokenKind::Op(Operator::NewLine), "\\n"));
    assert_eq!(lexer.next_token(), token(TokenKind::Class(false), "a"));
}

#[test]
fn media_stops_at_carriage_return() {
    let mut lexer = Lexer::new("@media print {\r\n");
    assert_eq!(lexer.next_token(), token(TokenKind::Media, "media"));
    assert_eq!(lexer.next_token(), token(TokenKind::Op(Operator::NewLine), "\\r"));
    assert_eq!(lexer.next_token(), token(TokenKind::Op(Operator::NewLine), "\\n"));
    assert_eq!(lexer.next_token(), token(TokenKind::EOF, ""));
}

#[test]
fn unicode_whitespace_is_indentation() {
    let mut lexer = Lexer::new("\u{A0}\u{3000} \u{2003}\t.a");
    assert_eq!(lexer.next_token(), token(TokenKind::Indent(5), ""));
    assert_eq!(lexer.next_token(), token(TokenKind::Class(false), "a"));
    let mut lexer = Lexer::new("\u{85}\u{0B}x");
    assert_eq!(lexer.next_token(), token(TokenKind::Indent(2), ""));
}

#[test]
fn unicode_letters_outside_class_names() {
    assert_eq!(
        tokenize("@import 'café.scss';").unwrap()[0],
        Token { kind: TokenKind::Import, value: "import 'café.scss'".to_string() }
    );
    assert_eq!(
        tokenize("content: café;").unwrap()[0],
        Token { kind: TokenKind::Property("content".to_string()), value: "café".to_string() }
    );
    let mut lexer = Lexer::new("@mñx {");
    assert_eq!(lexer.next_token(), token(TokenKind::Mixin, "mñx"));
    let mut lexer = Lexer::new("ñav {");
    assert_eq!(lexer.next_token(), token(TokenKind::Element, "ñav "));
    let mut lexer = Lexer::new("$größe: 1;");
    assert_eq!(lexer.next_token(), token(TokenKind::Variable, "größe"));
}

#[test]
fn class_names_stay_ascii() {
    let mut lexer = Lexer::new(".caf\u{E9} {");
    assert_eq!(lexer.next_token(), token(TokenKind::Class(false), "caf"));
    let mut lexer = Lexer::new("&.n\u{F1}o {");
    assert_eq!(lexer.next_token(), token(TokenKind::Class(true), "n"));
}
