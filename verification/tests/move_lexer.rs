use iota_logic::move_lexer::{lex, parse_exp_string, LexError, SyntaxError};
use iota_logic::move_parser::{BinOp, Exp_, Expected, ParsedValue, Span, Tok, Token};

fn kinds(src: &str) -> Vec<Tok> {
    lex(src.as_bytes()).unwrap().iter().map(|t| t.tok).collect()
}

#[test]
fn keywords_identifiers_and_numbers() {
    assert_eq!(
        kinds("let x = 0x1f + 10u64; if (true) move y"),
        vec![
            Tok::Let,
            Tok::Identifier,
            Tok::Equal,
            Tok::NumValue,
            Tok::Plus,
            Tok::NumTypedValue,
            Tok::Semicolon,
            Tok::If,
            Tok::LParen,
            Tok::True,
            Tok::RParen,
            Tok::Move,
            Tok::Identifier,
        ]
    );
    assert_eq!(kinds("letter iff"), vec![Tok::Identifier, Tok::Identifier]);
    assert_eq!(kinds("1u8x"), vec![Tok::NumTypedValue, Tok::Identifier]);
    assert_eq!(kinds("1_000u256"), vec![Tok::NumTypedValue]);
}

#[test]
fn operators_take_the_longest_match() {
    assert_eq!(
        kinds("a ==> b <==> c == d = e <= f << g < h"),
        vec![
            Tok::Identifier,
            Tok::EqualEqualGreater,
            Tok::Identifier,
            Tok::LessEqualEqualGreater,
            Tok::Identifier,
            Tok::EqualEqual,
            Tok::Identifier,
            Tok::Equal,
            Tok::Identifier,
            Tok::LessEqual,
            Tok::Identifier,
            Tok::LessLess,
            Tok::Identifier,
            Tok::Less,
            Tok::Identifier,
        ]
    );
    assert_eq!(kinds("&& & || | ..>= >> >"), vec![
        Tok::AmpAmp,
        Tok::Amp,
        Tok::PipePipe,
        Tok::Pipe,
        Tok::PeriodPeriod,
        Tok::GreaterEqual,
        Tok::GreaterGreater,
        Tok::Greater,
    ]);
}

#[test]
fn comments_and_spans() {
    let toks = lex(b"  x // note\n /* block */ 'a").unwrap();
    assert_eq!(
        toks,
        vec![
            Token { tok: Tok::Identifier, start: 2, end: 3 },
            Token { tok: Tok::BlockLabel, start: 25, end: 27 },
        ]
    );
}

#[test]
fn lexing_errors() {
    assert_eq!(lex(b"x /* open"), Err(LexError::UnclosedComment { pos: 2 }));
    assert_eq!(lex(b"x $ y"), Err(LexError::InvalidCharacter { pos: 2 }));
    assert_eq!(lex(b"x ` y"), Err(LexError::InvalidCharacter { pos: 2 }));
    assert_eq!(lex(b"' x"), Err(LexError::InvalidCharacter { pos: 0 }));
}

#[test]
fn expression_strings_parse_to_the_end() {
    let e = parse_exp_string(b"a + b * 2").unwrap();
    match &e.exp {
        Exp_::BinopExp(l, BinOp::Add, r) => {
            assert!(matches!(l.exp, Exp_::Name(Span { start: 0, end: 1 }, None)));
            match &r.exp {
                Exp_::BinopExp(_, BinOp::Mul, two) => {
                    assert!(matches!(two.exp, Exp_::Value(ParsedValue::Num(Span { start: 8, end: 9 }))))
                }
                other => panic!("not a product: {:?}", other),
            }
        }
        other => panic!("not a sum: {:?}", other),
    }
    assert_eq!((e.start, e.end), (0, 9));
    let e = parse_exp_string(b"{ let x = 1; while (x < 10) { x = x + 1 }; x }").unwrap();
    assert!(matches!(e.exp, Exp_::Block(_)));
    match parse_exp_string(b"a b") {
        Err(SyntaxError::Parse(err)) => {
            assert_eq!(err.expected, Expected::Token(Tok::EOF));
            assert_eq!((err.start, err.end, err.found), (2, 3, Tok::Identifier));
        }
        other => panic!("expected a parse error: {:?}", other),
    }
    assert!(matches!(
        parse_exp_string(b"a $"),
        Err(SyntaxError::Lex(LexError::InvalidCharacter { pos: 2 }))
    ));
    match parse_exp_string(b"") {
        Err(SyntaxError::Parse(err)) => {
            assert_eq!(err.expected, Expected::ExpressionTerm);
            assert_eq!(err.found, Tok::EOF);
        }
        other => panic!("expected a parse error: {:?}", other),
    }
}

#[test]
fn quantifier_words_and_paths() {
    assert_eq!(
        kinds("forall x in v where 0x1::m::S"),
        vec![
            Tok::Forall,
            Tok::Identifier,
            Tok::In,
            Tok::Identifier,
            Tok::Where,
            Tok::NumValue,
            Tok::ColonColon,
            Tok::Identifier,
            Tok::ColonColon,
            Tok::Identifier,
        ]
    );
}

#[test]
fn quantifiers_parse_from_text() {
    let e = parse_exp_string(b"forall x: u64, y in v { x, y } where x < y: x + 1 > y").unwrap();
    match &e.exp {
        Exp_::Quant(kind, _, _, Some(_), body) => {
            assert_eq!(*kind, iota_logic::move_parser::QuantKind::Forall);
            assert_eq!(match &body.exp { Exp_::BinopExp(_, op, _) => *op, _ => BinOp::Add }, BinOp::Gt);
        }
        other => panic!("not a quantifier: {:?}", other),
    }
    let e = parse_exp_string(b"choose min i: u8 where i > 3").unwrap();
    assert!(matches!(
        e.exp,
        Exp_::Quant(iota_logic::move_parser::QuantKind::ChooseMin, _, _, None, _)
    ));
    // a quantifier word followed by an operator is a name
    let e = parse_exp_string(b"forall + 1").unwrap();
    assert!(matches!(e.exp, Exp_::BinopExp(_, BinOp::Add, _)));
}
