use ditto_checker::cst::lexer::{lex, LexemeKind, SyntaxError};
use ditto_checker::cst::{Expression, Type, TypeDeclaration, ValueDeclaration};
use ditto_checker::fmt::has_comments::HasComments;
use ditto_checker::token::{Comment, Span, Token};

#[test]
fn lexemes_are_cut_from_the_text_with_their_comments() {
    let cut = lex("-- above\nfoo -- behind\n  (\"bar\", 12.5) -> Baz").unwrap();
    let texts: Vec<&str> = cut.lexemes.iter().map(|lexeme| lexeme.text.as_str()).collect();
    assert_eq!(texts, vec!["foo", "(", "bar", ",", "12.5", ")", "->", "Baz"]);
    let kinds: Vec<LexemeKind> = cut.lexemes.iter().map(|lexeme| lexeme.kind).collect();
    assert_eq!(
        kinds,
        vec![
            LexemeKind::Name,
            LexemeKind::Symbol,
            LexemeKind::String,
            LexemeKind::Symbol,
            LexemeKind::Number,
            LexemeKind::Symbol,
            LexemeKind::Symbol,
            LexemeKind::ProperName,
        ]
    );
    assert_eq!(cut.lexemes[0].leading_comments, vec![Comment("-- above".to_string())]);
    assert_eq!(cut.lexemes[0].trailing_comment, Some(Comment("-- behind".to_string())));
    assert_eq!(cut.lexemes[0].span, Span { start_offset: 9, end_offset: 12 });
    assert_eq!(cut.lexemes[2].span, Span { start_offset: 26, end_offset: 31 });
    assert!(cut.dangling_comments.is_empty());
}

#[test]
fn comments_behind_the_last_lexeme_dangle() {
    let cut = lex("x\n-- one\n-- two").unwrap();
    assert_eq!(cut.lexemes.len(), 1);
    assert_eq!(
        cut.dangling_comments,
        vec![Comment("-- one".to_string()), Comment("-- two".to_string())]
    );
}

#[test]
fn the_lexer_names_what_it_cannot_read() {
    assert_eq!(lex("foo ? bar").err(), Some(SyntaxError::UnexpectedCharacter(4)));
    assert_eq!(lex("x = \"open\n").err(), Some(SyntaxError::UnterminatedString(4)));
    assert_eq!(lex("\"open").err(), Some(SyntaxError::UnterminatedString(0)));
    assert!(lex("").unwrap().lexemes.is_empty());
}

#[test]
fn the_parser_names_what_it_cannot_read() {
    assert_eq!(Expression::parse("foo bar").err(), Some(SyntaxError::UnexpectedLexeme(1)));
    assert_eq!(Expression::parse("foo(").err(), Some(SyntaxError::UnexpectedEnd));
    assert_eq!(Expression::parse("").err(), Some(SyntaxError::UnexpectedEnd));
    assert_eq!(Expression::parse("if true then 1").err(), Some(SyntaxError::UnexpectedEnd));
    assert_eq!(Expression::parse("[1 2]").err(), Some(SyntaxError::UnexpectedLexeme(2)));
    assert_eq!(Expression::parse("then").err(), Some(SyntaxError::UnexpectedLexeme(0)));
    assert_eq!(Expression::parse("?").err(), Some(SyntaxError::UnexpectedCharacter(0)));
    assert_eq!(Type::parse("Maybe()").err(), Some(SyntaxError::UnexpectedLexeme(2)));
    assert_eq!(ValueDeclaration::parse("x = 5").err(), Some(SyntaxError::UnexpectedEnd));
    assert_eq!(TypeDeclaration::parse("type a;").err(), Some(SyntaxError::UnexpectedLexeme(1)));
}

#[test]
fn the_parser_tells_the_forms_of_expressions_apart() {
    assert!(matches!(Expression::parse("true"), Ok(Expression::True(_))));
    assert!(matches!(Expression::parse("unit"), Ok(Expression::Unit(_))));
    assert!(matches!(Expression::parse("5"), Ok(Expression::Int(_))));
    assert!(matches!(Expression::parse("5.0"), Ok(Expression::Float(_))));
    assert!(matches!(Expression::parse("\"five\""), Ok(Expression::String(_))));
    assert!(matches!(Expression::parse("five"), Ok(Expression::Variable(_))));
    assert!(matches!(Expression::parse("Data.five"), Ok(Expression::Variable(_))));
    assert!(matches!(Expression::parse("Five"), Ok(Expression::Constructor(_))));
    assert!(matches!(Expression::parse("Data.Five"), Ok(Expression::Constructor(_))));
    assert!(matches!(Expression::parse("(five)"), Ok(Expression::Parens(_))));
    assert!(matches!(Expression::parse("(five) -> 5"), Ok(Expression::Function { .. })));
    assert!(matches!(Expression::parse("(): Int -> 5"), Ok(Expression::Function { .. })));
    assert!(matches!(Expression::parse("(five)(5)"), Ok(Expression::Call { .. })));
    assert!(matches!(Expression::parse("[5, 5,]"), Ok(Expression::Array(_))));
    assert!(matches!(Expression::parse("if a then b else c"), Ok(Expression::If { .. })));
    assert!(matches!(Type::parse("(a) -> b"), Ok(Type::Function { .. })));
    assert!(matches!(Type::parse("(a)"), Ok(Type::Parens(_))));
    assert!(matches!(Type::parse("f(a)"), Ok(Type::Call { .. })));
    match Expression::parse("\"five\"") {
        Ok(Expression::String(token)) => assert_eq!(token.value, "five"),
        other => panic!("{:?}", other),
    }
}

#[test]
fn comments_are_found_wherever_they_are() {
    let plain = Expression::parse("f(a, [b, c])").unwrap();
    assert!(!plain.has_comments());
    assert!(!plain.has_leading_comments());
    let inside = Expression::parse("f(a, [b, -- here\n c])").unwrap();
    assert!(inside.has_comments());
    assert!(!inside.has_leading_comments());
    let above = Expression::parse("-- here\nf(a, [b, c])").unwrap();
    assert!(above.has_comments());
    assert!(above.has_leading_comments());
    let annotated = Expression::parse("(a: Maybe(b -- here\n)) -> a").unwrap();
    assert!(annotated.has_comments());
    let on_type = Type::parse("-- here\n(a) -> b").unwrap();
    assert!(on_type.has_leading_comments());
    assert!(!Type::parse("(a) -> b").unwrap().has_comments());
}

#[test]
fn a_token_knows_its_comments() {
    let token = Token {
        span: Span { start_offset: 0, end_offset: 1 },
        leading_comments: vec![Comment("-- a".to_string())],
        trailing_comment: None,
        value: 5u8,
    };
    assert!(token.has_comments());
    assert!(token.has_leading_comments());
    assert!(!token.has_trailing_comment());
    let empty = token.to_empty();
    assert_eq!(empty.span, token.span);
    assert_eq!(empty.leading_comments, token.leading_comments);
    assert_eq!(empty.trailing_comment, None);
    let bare = Token {
        span: Span { start_offset: 0, end_offset: 1 },
        leading_comments: vec![],
        trailing_comment: Some(Comment("-- b".to_string())),
        value: (),
    };
    assert!(bare.has_comments());
    assert!(!bare.has_leading_comments());
    assert!(bare.has_trailing_comment());
    assert_eq!(bare.to_empty().trailing_comment, Some(Comment("-- b".to_string())));
}

#[test]
fn a_declared_type_has_its_constructors_in_order() {
    match TypeDeclaration::parse("type Maybe(a) = | Just(a) | Nothing;") {
        Ok(TypeDeclaration::WithConstructors { head_constructor, tail_constructors, .. }) => {
            assert!(head_constructor.pipe.is_some());
            assert_eq!(head_constructor.constructor_name.0.value, "Just");
            assert!(head_constructor.fields.is_some());
            assert_eq!(tail_constructors.len(), 1);
            assert_eq!(tail_constructors[0].constructor_name.0.value, "Nothing");
            assert!(tail_constructors[0].fields.is_none());
        }
        _ => panic!("a type with two constructors"),
    }
    match TypeDeclaration::parse("type Unit = Unit;") {
        Ok(TypeDeclaration::WithConstructors { head_constructor, tail_constructors, .. }) => {
            assert!(head_constructor.pipe.is_none());
            assert!(tail_constructors.is_empty());
        }
        _ => panic!("a type with one constructor"),
    }
    assert!(matches!(
        TypeDeclaration::parse("type Never;"),
        Ok(TypeDeclaration::WithoutConstructors { .. })
    ));
    assert_eq!(TypeDeclaration::parse("type T = ;").err(), Some(SyntaxError::UnexpectedLexeme(3)));
    assert_eq!(TypeDeclaration::parse("type T = A |").err(), Some(SyntaxError::UnexpectedEnd));
    assert_eq!(TypeDeclaration::parse("type T = A").err(), Some(SyntaxError::UnexpectedEnd));
    assert_eq!(
        TypeDeclaration::parse("type T = A; B").err(),
        Some(SyntaxError::UnexpectedLexeme(5))
    );
}
