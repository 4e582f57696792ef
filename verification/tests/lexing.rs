//! The lexer and parser on their own: token shapes, positions, imports,
//! and the errors malformed text must produce.

use aocl::lexer::{FileSet, Lexer};
use aocl::parser::Parser;
use aocl::statements::{StatementContext, Value};
use aocl::token::{Token, TokenType};

fn lex(src: &str) -> Vec<Token> {
    let files = FileSet::new();
    let mut lexer = Lexer::new("main".to_string(), src.to_string());
    lexer.tokenise(&files).expect("lexing failed")
}

fn lex_with(src: &str, files: &FileSet) -> Vec<Token> {
    let mut lexer = Lexer::new("main".to_string(), src.to_string());
    lexer.tokenise(files).expect("lexing failed")
}

fn kinds(tokens: &[Token]) -> Vec<TokenType> {
    tokens.iter().map(|t| t.token_type.clone()).collect()
}

#[test]
fn lexing_twice_gives_identical_tokens() {
    let src = "x = 1\ny = \"hi\"\n# note\ngoto end if x <= 2\n~end\n";
    let a = lex(src);
    let b = lex(src);
    assert_eq!(a, b);
}

#[test]
fn tokens_carry_positions_and_context() {
    let toks = lex("x = 1\n");
    assert_eq!(toks[0].token_type, TokenType::Identifier("x".to_string()));
    assert_eq!(toks[0].line, 1);
    assert_eq!(toks[0].column, 1);
    assert_eq!(toks[0].index, 0);
    assert_eq!(toks[0].width, 1);
    assert_eq!(toks[0].context, "x = 1");
    assert_eq!(toks[2].token_type, TokenType::Int(1));
    assert_eq!(toks[2].index, 4);
}

#[test]
fn literals_keywords_and_operators() {
    let toks = lex("if goto call ret true false 12 3.5 -4 \"s\" == != <= >= < > + - * / % @ ~ :\n");
    let expect = vec![
        TokenType::If,
        TokenType::Goto,
        TokenType::Call,
        TokenType::Ret,
        TokenType::Bool(true),
        TokenType::Bool(false),
        TokenType::Int(12),
        TokenType::Float(3.5f64.to_bits()),
        TokenType::Int(-4),
        TokenType::Str("s".to_string()),
        TokenType::EqualsEquals,
        TokenType::BangEquals,
        TokenType::LessEquals,
        TokenType::GreaterEquals,
        TokenType::Less,
        TokenType::Greater,
        TokenType::Plus,
        TokenType::Minus,
        TokenType::Star,
        TokenType::Slash,
        TokenType::Percent,
        TokenType::At,
        TokenType::Tilde,
        TokenType::Colon,
        TokenType::EOS,
    ];
    assert_eq!(kinds(&toks), expect);
}

#[test]
fn string_escapes_are_decoded() {
    let toks = lex("s = \"a\\n\\t\\r\\0\\'\\\"\\\\b\"\n");
    assert_eq!(
        toks[2].token_type,
        TokenType::Str("a\n\t\r\0'\"\\b".to_string())
    );
}

#[test]
fn comments_are_skipped_and_newlines_collapse() {
    let toks = lex("# leading note\n\n\nx = 1\n");
    assert_eq!(
        kinds(&toks),
        vec![
            TokenType::EOS,
            TokenType::Identifier("x".to_string()),
            TokenType::Equals,
            TokenType::Int(1),
            TokenType::EOS,
        ]
    );
}

#[test]
fn unterminated_string_is_a_lexing_error() {
    let files = FileSet::new();
    let mut lexer = Lexer::new("main".to_string(), "s = \"oops\n".to_string());
    let err = lexer.tokenise(&files).expect_err("must fail");
    assert!(err.message.contains("Unterminated string literal"));
}

#[test]
fn second_decimal_point_is_a_lexing_error() {
    let files = FileSet::new();
    let mut lexer = Lexer::new("main".to_string(), "x = 1.2.3\n".to_string());
    let err = lexer.tokenise(&files).expect_err("must fail");
    assert!(err.message.contains("second decimal point"));
}

#[test]
fn value_must_end_at_a_boundary() {
    let files = FileSet::new();
    let mut lexer = Lexer::new("main".to_string(), "x = 12abc\n".to_string());
    let err = lexer.tokenise(&files).expect_err("must fail");
    assert!(err.message.contains("Unexpected character in numeric literal"));
}

#[test]
fn bad_escape_is_a_lexing_error() {
    let files = FileSet::new();
    let mut lexer = Lexer::new("main".to_string(), "s = \"a\\q\"\n".to_string());
    let err = lexer.tokenise(&files).expect_err("must fail");
    assert!(err.message.contains("Invalid escape sequence"));
}

#[test]
fn import_splices_the_named_file() {
    let mut files = FileSet::new();
    files.insert("b".to_string(), "z = 3\n".to_string());
    let toks = lex_with("x = 1\nimport \"b\"\ny = 2\n", &files);
    // the spliced stream reads as the three statements in order
    let flat = lex("x = 1\nz = 3\ny = 2\n");
    assert_eq!(kinds(&toks), kinds(&flat));
    // spliced tokens keep their own file for diagnostics
    let z = toks
        .iter()
        .find(|t| t.token_type == TokenType::Identifier("z".to_string()))
        .unwrap();
    assert_eq!(z.file, "b");
    assert_eq!(z.line, 1);
}

#[test]
fn nested_imports_flatten_transitively() {
    let mut files = FileSet::new();
    files.insert("b".to_string(), "import \"c\"\nzb = 2\n".to_string());
    files.insert("c".to_string(), "zc = 3\n".to_string());
    let toks = lex_with("import \"b\"\nza = 1\n", &files);
    let flat = lex("zc = 3\nzb = 2\nza = 1\n");
    assert_eq!(kinds(&toks), kinds(&flat));
}

#[test]
fn trailing_statement_without_newline_is_kept() {
    let toks = lex("x = 1");
    assert_eq!(
        kinds(&toks),
        vec![
            TokenType::Identifier("x".to_string()),
            TokenType::Equals,
            TokenType::Int(1),
            TokenType::EOS,
        ]
    );
    // and both statements survive when only the last lacks its newline
    let toks2 = lex("x = 1\ny = 2");
    assert_eq!(kinds(&toks2), kinds(&lex("x = 1\ny = 2\n")));
}

#[test]
fn trailing_import_without_newline_is_spliced() {
    let mut files = FileSet::new();
    files.insert("b".to_string(), "z = 3\n".to_string());
    let toks = lex_with("import \"b\"", &files);
    assert_eq!(kinds(&toks), kinds(&lex("z = 3\n")));
}

#[test]
fn missing_import_is_a_lexing_error() {
    let files = FileSet::new();
    let mut lexer = Lexer::new("main".to_string(), "import \"gone\"\n".to_string());
    let err = lexer.tokenise(&files).expect_err("must fail");
    assert!(err.message.contains("Failed to import file 'gone'"));
}

#[test]
fn cyclic_imports_are_reported_not_looped() {
    let mut files = FileSet::new();
    files.insert("a".to_string(), "import \"b\"\n".to_string());
    files.insert("b".to_string(), "import \"a\"\n".to_string());
    let mut lexer = Lexer::new("main".to_string(), "import \"a\"\n".to_string());
    assert!(lexer.tokenise(&files).is_err());
}

#[test]
fn parser_builds_every_statement_shape() {
    let toks = lex(
        "x = 1\ny = x + 2\nz = @array:new 1\n~lbl\ngoto lbl\ngoto lbl if x < 2\n@io:println x\ncall lbl\nret\n",
    );
    let mut parser = Parser::new(toks);
    let stmts = parser.parse().expect("parsing failed");
    assert_eq!(stmts.len(), 9);
    assert!(matches!(stmts[0].context, StatementContext::AssignLiteral(..)));
    assert!(matches!(stmts[1].context, StatementContext::AssignBinOp(..)));
    assert!(matches!(stmts[2].context, StatementContext::AssignCall(..)));
    assert!(matches!(stmts[3].context, StatementContext::GotoDef(..)));
    assert!(matches!(stmts[4].context, StatementContext::Goto(..)));
    assert!(matches!(stmts[5].context, StatementContext::GotoIf(..)));
    assert!(matches!(stmts[6].context, StatementContext::Call(..)));
    assert!(matches!(stmts[7].context, StatementContext::CallLabel(..)));
    assert!(matches!(stmts[8].context, StatementContext::Ret));
    assert_eq!(stmts[4].line, 5);
}

#[test]
fn malformed_assignment_is_a_parse_error() {
    let toks = lex("x = \n");
    let mut parser = Parser::new(toks);
    let err = parser.parse().expect_err("must fail");
    assert!(err.message.contains("Invalid assignment"));
}

#[test]
fn short_label_definition_is_a_parse_error() {
    let toks = lex("~\n");
    let mut parser = Parser::new(toks);
    let err = parser.parse().expect_err("must fail");
    assert!(err.message.contains("Incomplete statement"));
}

#[test]
fn goto_with_wrong_token_count_is_a_parse_error() {
    let toks = lex("goto a b\n");
    let mut parser = Parser::new(toks);
    let err = parser.parse().expect_err("must fail");
    assert!(err.message.contains("Invalid goto statement"));
}

#[test]
fn statement_rendering_matches_source_shape() {
    let ctx = StatementContext::AssignLiteral("x".to_string(), Value::Int(-3));
    assert_eq!(ctx.rewrite(), "x = -3");
    let g = StatementContext::Goto("loop".to_string());
    assert_eq!(g.rewrite(), "goto loop");
    let v = Value::Str("a\"b\n".to_string());
    assert_eq!(v.rewrite(), "\"a\\\"b\\n\"");
}

#[test]
fn errors_render_with_stage_and_caret() {
    let toks = lex("x = \n");
    let mut parser = Parser::new(toks);
    let err = parser.parse().expect_err("must fail");
    let text = err.render();
    assert!(text.starts_with("Parsing error:"));
    assert!(text.contains("main"));
    assert!(text.contains("^"));
}
