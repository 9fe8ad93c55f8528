use program_synthesis_parser::intern::Interner;
use program_synthesis_parser::lang::{ActualType, Exp, Pattern};
use program_synthesis_parser::lexer::{new_builder, tokenize};
use program_synthesis_parser::token::TokKind;

#[test]
fn interning_deduplicates_types() {
    let mut it = Interner::new();
    let a = it.ty_named("nat".to_string());
    let b = it.ty_named("nat".to_string());
    assert_eq!(a, b);
    assert_eq!(it.ty_count(), 1);
    let c = it.ty_named("bool".to_string());
    assert_ne!(a, c);
    assert_eq!(it.ty_count(), 2);
    let arrow1 = it.ty_arrow(a, c);
    let arrow2 = it.ty_arrow(b, c);
    assert_eq!(arrow1, arrow2);
    assert_eq!(it.ty_count(), 3);
}

#[test]
fn interning_deduplicates_expressions() {
    let mut it = Interner::new();
    let u1 = Exp::Unit(&mut it);
    let u2 = it.exp_tuple(Vec::new());
    assert_eq!(u1, u2);
    let o1 = it.exp_ctor("O".to_string(), u1);
    let o2 = it.exp_ctor("O".to_string(), u2);
    assert_eq!(o1, o2);
    assert_eq!(it.exp_count(), 2);
}

#[test]
fn tuple_of_one_collapses() {
    let mut it = Interner::new();
    let x = it.exp_var("x".to_string());
    let before = it.exp_count();
    let same = it.exp_tuple_collapsed(vec![x]);
    assert_eq!(same, x);
    assert_eq!(it.exp_count(), before);
    let nat = it.ty_named("nat".to_string());
    let ty_same = it.ty_tuple_collapsed(vec![nat]);
    assert_eq!(ty_same, nat);
}

#[test]
fn naming_rule_splits_ctor_and_unctor() {
    let mut it = Interner::new();
    let u = Exp::Unit(&mut it);
    let plain = Exp::mk_unctor_or_ctor_by_name(&mut it, "Cons", u);
    let expected_ctor = it.exp_ctor("Cons".to_string(), u);
    assert_eq!(plain, expected_ctor);
    let stripped = Exp::mk_unctor_or_ctor_by_name(&mut it, "Un_Cons", u);
    let expected_unctor = it.exp_unctor("Cons".to_string(), u);
    assert_eq!(stripped, expected_unctor);
    assert_ne!(plain, stripped);
    // The prefix alone strips to the empty name.
    let bare = Exp::mk_unctor_or_ctor_by_name(&mut it, "Un_", u);
    let expected_bare = it.exp_unctor(String::new(), u);
    assert_eq!(bare, expected_bare);
}

#[test]
fn peano_of_zero_and_two() {
    let mut it = Interner::new();
    let zero = Exp::from_u64(&mut it, 0);
    let u = Exp::Unit(&mut it);
    let o = it.exp_ctor("O".to_string(), u);
    assert_eq!(zero, o);
    let two = Exp::from_u64(&mut it, 2);
    let one = it.exp_ctor("S".to_string(), o);
    let expected = it.exp_ctor("S".to_string(), one);
    assert_eq!(two, expected);
}

#[test]
fn is_named_distinguishes_nodes() {
    let mut it = Interner::new();
    let nat = it.ty_named("nat".to_string());
    let arrow = it.ty_arrow(nat, nat);
    assert!(it.get_ty(nat).is_named());
    assert!(!it.get_ty(arrow).is_named());
    match it.get_ty(nat) {
        ActualType::Named(s) => assert_eq!(s, "nat"),
        _ => panic!("expected a name node"),
    }
}

#[test]
fn mu_types_intern_like_any_node() {
    let mut it = Interner::new();
    let nat = it.ty_named("nat".to_string());
    let m1 = it.ty_mu("t".to_string(), nat);
    let m2 = it.ty_mu("t".to_string(), nat);
    assert_eq!(m1, m2);
    let m3 = it.ty_mu("u".to_string(), nat);
    assert_ne!(m1, m3);
}

#[test]
fn pattern_contains_var() {
    let p = Pattern::Tuple(vec![
        Pattern::Var("x".to_string()),
        Pattern::Ctor("Cons".to_string(), Box::new(Pattern::Var("y".to_string()))),
        Pattern::Wildcard,
    ]);
    assert!(p.contains_var("x"));
    assert!(p.contains_var("y"));
    assert!(!p.contains_var("z"));
    assert!(!Pattern::Wildcard.contains_var("x"));
}

#[test]
fn pattern_rendering() {
    let p = Pattern::Tuple(vec![
        Pattern::Var("x".to_string()),
        Pattern::Ctor("Cons".to_string(), Box::new(Pattern::Wildcard)),
    ]);
    assert_eq!(p.to_text(), "x, Cons _");
    assert_eq!(Pattern::Wildcard.to_text(), "_");
    assert_eq!(Pattern::Var("v".to_string()).to_text(), "v");
}

#[test]
fn tokenizer_kinds_and_spans() {
    let toks = tokenize("let f = (x, 1) ;;").unwrap();
    let kinds: Vec<TokKind> = toks.iter().map(|t| t.kind).collect();
    assert_eq!(
        kinds,
        vec![
            TokKind::KwLet,
            TokKind::Lid,
            TokKind::Equal,
            TokKind::LParen,
            TokKind::Lid,
            TokKind::Comma,
            TokKind::IntLit,
            TokKind::RParen,
            TokKind::SemiSemi,
        ]
    );
    assert_eq!(toks[1].text, "f");
    assert_eq!(toks[6].val, 1);
    assert_eq!(toks[0].start, 0);
    assert_eq!(toks[0].end, 3);
}

#[test]
fn unit_token_is_one_token_only_when_adjacent() {
    let toks = tokenize("()").unwrap();
    assert_eq!(toks.len(), 1);
    assert_eq!(toks[0].kind, TokKind::UnitParen);
    let split = tokenize("( )").unwrap();
    assert_eq!(split.len(), 2);
    assert_eq!(split[0].kind, TokKind::LParen);
    assert_eq!(split[1].kind, TokKind::RParen);
}

#[test]
fn keywords_beat_identifiers_only_exactly() {
    let toks = tokenize("let lettuce equiv equivalent").unwrap();
    let kinds: Vec<TokKind> = toks.iter().map(|t| t.kind).collect();
    assert_eq!(
        kinds,
        vec![TokKind::KwLet, TokKind::Lid, TokKind::KwEquiv, TokKind::Lid]
    );
}

#[test]
fn underscore_starts_no_identifier() {
    let toks = tokenize("_x").unwrap();
    assert_eq!(toks.len(), 2);
    assert_eq!(toks[0].kind, TokKind::Underscore);
    assert_eq!(toks[1].kind, TokKind::Lid);
    assert_eq!(toks[1].text, "x");
}

#[test]
fn comment_body_may_not_hold_a_star() {
    let plain = tokenize("a (* note *) b").unwrap();
    assert_eq!(plain.len(), 2);
    let starred = tokenize("a (* no*te *) b").unwrap();
    // The opening is no comment, so its characters lex as tokens.
    assert!(starred.len() > 2);
    assert_eq!(starred[1].kind, TokKind::LParen);
}

#[test]
fn string_token_keeps_quotes() {
    let toks = tokenize("include \"lib.mls\"").unwrap();
    assert_eq!(toks.len(), 2);
    assert_eq!(toks[0].kind, TokKind::KwInclude);
    assert_eq!(toks[1].kind, TokKind::StrLit);
    assert_eq!(toks[1].text, "\"lib.mls\"");
}

#[test]
fn unterminated_string_fails_at_its_quote() {
    let err = tokenize("x \"abc").unwrap_err();
    assert!(err.is_lex_error());
    assert_eq!(err.offset(), 2);
}

#[test]
fn lone_dash_matches_no_token() {
    let err = tokenize("a - b").unwrap_err();
    assert!(err.is_lex_error());
    assert_eq!(err.offset(), 2);
    let ok = tokenize("a -> b").unwrap();
    assert_eq!(ok[1].kind, TokKind::Arrow);
}

#[test]
fn builder_tokenizes_like_the_free_function() {
    let builder = new_builder();
    let a = builder.tokenize("synth nat").unwrap();
    let b = tokenize("synth nat").unwrap();
    assert_eq!(a.len(), b.len());
    assert_eq!(a[0].kind, TokKind::KwSynth);
    assert_eq!(a[1].kind, TokKind::Lid);
}

#[test]
fn integer_value_is_decimal() {
    let toks = tokenize("120").unwrap();
    assert_eq!(toks.len(), 1);
    assert_eq!(toks[0].kind, TokKind::IntLit);
    assert_eq!(toks[0].val, 120);
}

#[test]
fn handles_order_by_first_interning() {
    let mut it = Interner::new();
    let a = it.ty_named("zeta".to_string());
    let b = it.ty_named("alpha".to_string());
    let mut v = vec![b, a];
    v.sort();
    // Handles order by when their value was first interned, not by name.
    assert_eq!(v, vec![a, b]);
}
