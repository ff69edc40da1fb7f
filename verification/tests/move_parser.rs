use iota_logic::move_parser::{parse_quant, parse_type, QuantBindings, QuantRange, TypeList, Type_};
use iota_logic::move_parser::Tok::{
    AmpAmp, Comma, Else, Equal, Identifier, If, LBrace, LParen, Let, Loop, Minus, NumValue,
    Plus, RBrace, RParen, Return, Semicolon, Star, True, While, BlockLabel, Colon, Break, EOF,
};
use iota_logic::move_parser::{
    Bind_, Item, Items,
    parse_control_exp, parse_exp, parse_sequence, parse_term, BinOp, Exp, Exp_, Expected,
    ParsedValue, SequenceItem, SequenceItems, Span, Tok, Token, Tokens,
};

/// Tokens laid out one per byte-pair: token `i` covers bytes `2i .. 2i+1`.
fn stream(kinds: &[Tok]) -> Tokens {
    let toks: Vec<Token> =
        kinds.iter().enumerate().map(|(i, k)| Token { tok: *k, start: 2 * i, end: 2 * i + 1 }).collect();
    Tokens::new(toks, 2 * kinds.len())
}

fn binop(e: &Exp) -> (&Exp, BinOp, &Exp) {
    match &e.exp {
        Exp_::BinopExp(l, op, r) => (l, *op, r),
        other => panic!("not a binary expression: {:?}", other),
    }
}

#[test]
fn multiplication_binds_tighter_than_addition() {
    let mut t = stream(&[Identifier, Plus, Identifier, Star, Identifier]);
    let e = parse_exp(&mut t).unwrap();
    let (l, op, r) = binop(&e);
    assert_eq!(op, BinOp::Add);
    assert!(matches!(l.exp, Exp_::Name(Span { start: 0, end: 1 }, None)));
    let (rl, rop, _) = binop(r);
    assert_eq!(rop, BinOp::Mul);
    assert!(matches!(rl.exp, Exp_::Name(Span { start: 4, end: 5 }, None)));
    assert_eq!((e.start, e.end), (0, 9));
    assert_eq!(t.peek(), EOF);
}

#[test]
fn same_precedence_associates_to_the_left() {
    let mut t = stream(&[NumValue, Minus, NumValue, Minus, NumValue]);
    let e = parse_exp(&mut t).unwrap();
    let (l, op, r) = binop(&e);
    assert_eq!(op, BinOp::Sub);
    assert!(matches!(r.exp, Exp_::Value(ParsedValue::Num(Span { start: 8, end: 9 }))));
    let (_, lop, _) = binop(l);
    assert_eq!(lop, BinOp::Sub);
}

#[test]
fn assignment_takes_the_whole_right_side() {
    let mut t = stream(&[Star, Identifier, Equal, Identifier, AmpAmp, True]);
    let e = parse_exp(&mut t).unwrap();
    match &e.exp {
        Exp_::Assign(l, r) => {
            assert!(matches!(l.exp, Exp_::Dereference(_)));
            assert_eq!(binop(r).1, BinOp::And);
        }
        other => panic!("not an assignment: {:?}", other),
    }
}

#[test]
fn block_ending_control_expression_is_continued_by_an_operator() {
    // if (c) x else { y } + 1
    let mut t = stream(&[
        If, LParen, Identifier, RParen, Identifier, Else, LBrace, Identifier, RBrace, Plus, NumValue,
    ]);
    let e = parse_exp(&mut t).unwrap();
    let (l, op, _) = binop(&e);
    assert_eq!(op, BinOp::Add);
    assert!(matches!(l.exp, Exp_::IfElse(_, _, Some(_))));
    // if (c) x else y + 1: the addition belongs to the else branch
    let mut t = stream(&[If, LParen, Identifier, RParen, Identifier, Else, Identifier, Plus, NumValue]);
    let e = parse_exp(&mut t).unwrap();
    match &e.exp {
        Exp_::IfElse(_, _, Some(f)) => assert_eq!(binop(f).1, BinOp::Add),
        other => panic!("not an if: {:?}", other),
    }
}

#[test]
fn control_expression_reports_ending_in_a_block() {
    let mut t = stream(&[While, LParen, True, RParen, LBrace, RBrace]);
    let (e, ends_in_block) = parse_control_exp(&mut t).unwrap();
    assert!(ends_in_block);
    assert!(matches!(e.exp, Exp_::While(_, _)));
    let mut t = stream(&[Return, Semicolon]);
    let (e, ends_in_block) = parse_control_exp(&mut t).unwrap();
    assert!(!ends_in_block);
    assert!(matches!(e.exp, Exp_::Return(None, None)));
    assert_eq!(t.peek(), Semicolon);
    let mut t = stream(&[BlockLabel, Colon, Loop, LBrace, Break, BlockLabel, RBrace]);
    let (e, _) = parse_control_exp(&mut t).unwrap();
    match &e.exp {
        Exp_::Labeled(Span { start: 0, end: 1 }, inner) => assert!(matches!(inner.exp, Exp_::Loop(_))),
        other => panic!("not labeled: {:?}", other),
    }
}

#[test]
fn terms_cover_unit_parens_and_lists() {
    let mut t = stream(&[LParen, RParen]);
    assert!(matches!(parse_term(&mut t).unwrap().exp, Exp_::Unit));
    let mut t = stream(&[LParen, Identifier, RParen]);
    assert!(matches!(parse_term(&mut t).unwrap().exp, Exp_::Parens(_)));
    let mut t = stream(&[LParen, Identifier, Comma, NumValue, Comma, RParen]);
    assert!(matches!(parse_term(&mut t).unwrap().exp, Exp_::ExpList(_)));
    let mut t = stream(&[LParen, Identifier, Comma, Comma, RParen]);
    let err = parse_term(&mut t).unwrap_err();
    assert_eq!(err.expected, Expected::ListItem);
    assert_eq!((err.start, err.end, err.found), (6, 6, Comma));
}

#[test]
fn missing_term_is_an_unexpected_token() {
    let mut t = stream(&[Plus]);
    let err = parse_exp(&mut t).unwrap_err();
    assert_eq!(err.expected, Expected::ExpressionTerm);
    assert_eq!(err.found, Plus);
    let mut t = stream(&[]);
    let err = parse_exp(&mut t).unwrap_err();
    assert_eq!(err.found, EOF);
}

#[test]
fn sequences_split_the_final_expression() {
    // let x = 1; x }
    let mut t = stream(&[Let, Identifier, Equal, NumValue, Semicolon, Identifier, RBrace]);
    let sq = parse_sequence(&mut t).unwrap();
    match &sq.items {
        SequenceItems::Cons(item, rest) => {
            match &**item {
                SequenceItem::Bind(binds, None, _) => match &**binds {
                    Items::Cons(b, _) => assert!(matches!(&**b, Item::Bind(bd) if matches!(bd.bind, Bind_::Var(false, Span { start: 2, end: 3 })))),
                    Items::Nil => panic!("no binding"),
                },
                other => panic!("not a let: {:?}", other),
            }
            assert!(matches!(**rest, SequenceItems::Nil));
        }
        SequenceItems::Nil => panic!("no items"),
    }
    assert!(sq.last.is_some());
    // a declaration cannot end a block
    let mut t = stream(&[Let, Identifier, RBrace]);
    let err = parse_sequence(&mut t).unwrap_err();
    assert_eq!(err.expected, Expected::Token(Semicolon));
    // missing semicolon between items
    let mut t = stream(&[Identifier, Identifier, RBrace]);
    let err = parse_sequence(&mut t).unwrap_err();
    assert_eq!((err.found, err.expected), (Identifier, Expected::Token(Semicolon)));
}

#[test]
fn types_of_quantifier_bindings() {
    // &mut vector<0x1::m::S>
    let mut t = stream(&[
        Tok::Amp,
        Tok::Mut,
        Identifier,
        Tok::Less,
        NumValue,
        Tok::ColonColon,
        Identifier,
        Tok::ColonColon,
        Identifier,
        Tok::Greater,
    ]);
    let ty = parse_type(&mut t).unwrap();
    match &ty.ty {
        Type_::Ref(true, inner) => match &inner.ty {
            Type_::Apply(Span { start: 4, end: 5 }, args) => match &**args {
                TypeList::Cons(arg, rest) => {
                    assert!(matches!(arg.ty, Type_::Apply(Span { start: 8, end: 17 }, _)));
                    assert!(matches!(**rest, TypeList::Nil));
                }
                TypeList::Nil => panic!("no type arguments"),
            },
            other => panic!("not a named type: {:?}", other),
        },
        other => panic!("not a reference: {:?}", other),
    }
    assert_eq!(t.peek(), EOF);
    // (u8) is u8; (u8, bool) is a tuple; () is unit
    let mut t = stream(&[LParen, Identifier, RParen]);
    assert!(matches!(parse_type(&mut t).unwrap().ty, Type_::Apply(_, _)));
    let mut t = stream(&[LParen, Identifier, Comma, Identifier, RParen]);
    assert!(matches!(parse_type(&mut t).unwrap().ty, Type_::Multiple(_)));
    let mut t = stream(&[LParen, RParen]);
    assert!(matches!(parse_type(&mut t).unwrap().ty, Type_::Unit));
    // an address alone is no type
    let mut t = stream(&[NumValue, Comma]);
    let err = parse_type(&mut t).unwrap_err();
    assert_eq!((err.found, err.expected), (Comma, Expected::Token(Tok::ColonColon)));
    // exists x in v: x
    let mut t = stream(&[Tok::Exists, Identifier, Tok::In, Identifier, Colon, Identifier]);
    let e = parse_quant(&mut t).unwrap();
    match &e.exp {
        Exp_::Quant(_, bs, _, None, _) => match &**bs {
            QuantBindings::Cons(b, _) => assert!(matches!(b.range, QuantRange::In(_))),
            QuantBindings::Nil => panic!("no bindings"),
        },
        other => panic!("not a quantifier: {:?}", other),
    }
    // choose without where
    let mut t = stream(&[Tok::Choose, Identifier, Colon, Identifier, Colon, Identifier]);
    let err = parse_quant(&mut t).unwrap_err();
    assert_eq!(err.expected, Expected::Token(Tok::Where));
}
