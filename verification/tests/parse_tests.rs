use program_synthesis_parser::error::ParseError;
use program_synthesis_parser::intern::Interner;
use program_synthesis_parser::lang::{ActualExp, Declaration, Exp, Problem};
use program_synthesis_parser::parser::{parse_decls_text, ProblemParser};
use program_synthesis_parser::token::TokKind;

#[test]
fn end_to_end_identity_examples() {
    let mut it = Interner::new();
    let parser = ProblemParser::new();
    let p = parser
        .parse(&mut it, "synth nat -> nat satisfying [O] -> O, [S O] -> S O")
        .unwrap();
    assert_eq!(p.imports.len(), 0);
    assert_eq!(p.decls.len(), 0);
    let nat = it.ty_named("nat".to_string());
    let arrow = it.ty_arrow(nat, nat);
    assert_eq!(p.synth_type, arrow);
    let unit = Exp::Unit(&mut it);
    let o = it.exp_ctor("O".to_string(), unit);
    let s_o = it.exp_ctor("S".to_string(), o);
    match &p.spec_clause {
        Problem::UIOEs(examples) => {
            assert_eq!(examples.len(), 2);
            assert_eq!(examples[0].input, vec![o]);
            assert_eq!(examples[0].output, o);
            assert_eq!(examples[1].input, vec![s_o]);
            assert_eq!(examples[1].output, s_o);
        }
        _ => panic!("expected a plain example list"),
    }
}

#[test]
fn peano_literal_three() {
    let mut it = Interner::new();
    let parser = ProblemParser::new();
    let p = parser.parse(&mut it, "synth nat satisfying 3").unwrap();
    let unit = Exp::Unit(&mut it);
    let zero = it.exp_ctor("O".to_string(), unit);
    let one = it.exp_ctor("S".to_string(), zero);
    let two = it.exp_ctor("S".to_string(), one);
    let three = it.exp_ctor("S".to_string(), two);
    match &p.spec_clause {
        Problem::UPost(e) => assert_eq!(*e, three),
        _ => panic!("expected a postcondition"),
    }
}

#[test]
fn peano_from_u64_matches_parse() {
    let mut it = Interner::new();
    let parser = ProblemParser::new();
    let p = parser.parse(&mut it, "synth nat satisfying 2").unwrap();
    let two = Exp::from_u64(&mut it, 2);
    match &p.spec_clause {
        Problem::UPost(e) => assert_eq!(*e, two),
        _ => panic!("expected a postcondition"),
    }
}

#[test]
fn application_is_left_associative() {
    let mut it = Interner::new();
    let parser = ProblemParser::new();
    let p = parser.parse(&mut it, "synth nat satisfying f a b").unwrap();
    let f = it.exp_var("f".to_string());
    let a = it.exp_var("a".to_string());
    let fa = it.exp_app(f, a);
    let b = it.exp_var("b".to_string());
    let fab = it.exp_app(fa, b);
    match &p.spec_clause {
        Problem::UPost(e) => assert_eq!(*e, fab),
        _ => panic!("expected a postcondition"),
    }
}

#[test]
fn arrow_is_right_associative() {
    let mut it = Interner::new();
    let parser = ProblemParser::new();
    let p = parser.parse(&mut it, "synth a -> b -> c satisfying x").unwrap();
    let a = it.ty_named("a".to_string());
    let b = it.ty_named("b".to_string());
    let c = it.ty_named("c".to_string());
    let bc = it.ty_arrow(b, c);
    let abc = it.ty_arrow(a, bc);
    assert_eq!(p.synth_type, abc);
}

#[test]
fn parenthesized_expression_collapses() {
    let mut it = Interner::new();
    let parser = ProblemParser::new();
    let plain = parser.parse(&mut it, "synth nat satisfying foo").unwrap();
    let wrapped = parser.parse(&mut it, "synth nat satisfying (foo)").unwrap();
    assert_eq!(plain.spec_clause, wrapped.spec_clause);
}

#[test]
fn unit_parses_to_empty_tuple() {
    let mut it = Interner::new();
    let parser = ProblemParser::new();
    let p = parser.parse(&mut it, "synth nat satisfying ()").unwrap();
    let unit = it.exp_tuple(Vec::new());
    match &p.spec_clause {
        Problem::UPost(e) => assert_eq!(*e, unit),
        _ => panic!("expected a postcondition"),
    }
}

#[test]
fn parenthesized_type_collapses() {
    let mut it = Interner::new();
    let parser = ProblemParser::new();
    let plain = parser.parse(&mut it, "synth nat satisfying x").unwrap();
    let wrapped = parser.parse(&mut it, "synth (nat) satisfying x").unwrap();
    assert_eq!(plain.synth_type, wrapped.synth_type);
}

#[test]
fn destructor_prefix_builds_unctor() {
    let mut it = Interner::new();
    let parser = ProblemParser::new();
    let p = parser.parse(&mut it, "synth nat satisfying Un_Cons x").unwrap();
    let x = it.exp_var("x".to_string());
    let expected = it.exp_unctor("Cons".to_string(), x);
    let not_expected = it.exp_ctor("Un_Cons".to_string(), x);
    match &p.spec_clause {
        Problem::UPost(e) => {
            assert_eq!(*e, expected);
            assert_ne!(*e, not_expected);
            match it.get_exp(*e) {
                ActualExp::Unctor(name, arg) => {
                    assert_eq!(name, "Cons");
                    assert_eq!(*arg, x);
                }
                _ => panic!("expected a destructor node"),
            }
        }
        _ => panic!("expected a postcondition"),
    }
}

#[test]
fn equiv_form_with_examples() {
    let mut it = Interner::new();
    let parser = ProblemParser::new();
    let p = parser
        .parse(&mut it, "synth nat satisfying [O] -> O equiv identity")
        .unwrap();
    let unit = Exp::Unit(&mut it);
    let o = it.exp_ctor("O".to_string(), unit);
    let reference = it.exp_var("identity".to_string());
    match &p.spec_clause {
        Problem::UEquiv(examples, e) => {
            assert_eq!(examples.len(), 1);
            assert_eq!(examples[0].input, vec![o]);
            assert_eq!(examples[0].output, o);
            assert_eq!(*e, reference);
        }
        _ => panic!("expected an equivalence specification"),
    }
}

#[test]
fn missing_satisfying_reports_expected_set() {
    let mut it = Interner::new();
    let parser = ProblemParser::new();
    let err = parser.parse(&mut it, "synth nat [O] -> O").unwrap_err();
    assert!(err.expected_kinds().unwrap().contains(&TokKind::KwSatisfying));
    match err {
        ParseError::UnrecognizedToken {
            start,
            end,
            kind,
            expected,
        } => {
            assert_eq!(start, 10);
            assert_eq!(end, 11);
            assert_eq!(kind, TokKind::LBrack);
            assert!(expected.contains(&TokKind::KwSatisfying));
        }
        other => panic!("expected a syntax error at the bracket, got {:?}", other),
    }
}

#[test]
fn repeated_type_mentions_share_one_handle() {
    let mut it = Interner::new();
    let parser = ProblemParser::new();
    let p = parser
        .parse(&mut it, "type t = nat synth nat satisfying x")
        .unwrap();
    assert_eq!(p.decls.len(), 1);
    match &p.decls[0] {
        Declaration::TypeDecl(name, t) => {
            assert_eq!(name, "t");
            assert_eq!(*t, p.synth_type);
        }
        _ => panic!("expected a type declaration"),
    }
}

#[test]
fn includes_precede_declarations() {
    let mut it = Interner::new();
    let parser = ProblemParser::new();
    let p = parser
        .parse(
            &mut it,
            "include \"list.mls\" let f = x ;; synth nat satisfying f",
        )
        .unwrap();
    assert_eq!(p.imports, vec!["\"list.mls\"".to_string()]);
    assert_eq!(p.decls.len(), 1);
    match &p.decls[0] {
        Declaration::ExpDecl(name, e) => {
            assert_eq!(name, "f");
            let x = it.exp_var("x".to_string());
            assert_eq!(*e, x);
        }
        _ => panic!("expected a value declaration"),
    }
}

#[test]
fn empty_specification_is_empty_example_list() {
    let mut it = Interner::new();
    let parser = ProblemParser::new();
    let p = parser.parse(&mut it, "synth nat satisfying").unwrap();
    match &p.spec_clause {
        Problem::UIOEs(examples) => assert_eq!(examples.len(), 0),
        _ => panic!("expected an empty example list"),
    }
}

#[test]
fn equiv_without_examples() {
    let mut it = Interner::new();
    let parser = ProblemParser::new();
    let p = parser.parse(&mut it, "synth nat satisfying equiv f").unwrap();
    let f = it.exp_var("f".to_string());
    match &p.spec_clause {
        Problem::UEquiv(examples, e) => {
            assert_eq!(examples.len(), 0);
            assert_eq!(*e, f);
        }
        _ => panic!("expected an equivalence specification"),
    }
}

#[test]
fn variant_type_with_constructors() {
    let mut it = Interner::new();
    let parser = ProblemParser::new();
    let p = parser
        .parse(&mut it, "synth | Nil | Cons of nat * natlist satisfying x")
        .unwrap();
    let unit = it.ty_tuple(Vec::new());
    let nat = it.ty_named("nat".to_string());
    let natlist = it.ty_named("natlist".to_string());
    let pair = it.ty_tuple(vec![nat, natlist]);
    let expected = it.ty_variant(vec![
        ("Nil".to_string(), unit),
        ("Cons".to_string(), pair),
    ]);
    assert_eq!(p.synth_type, expected);
}

#[test]
fn star_binds_tighter_than_arrow() {
    let mut it = Interner::new();
    let parser = ProblemParser::new();
    let p = parser.parse(&mut it, "synth a * b -> c satisfying x").unwrap();
    let a = it.ty_named("a".to_string());
    let b = it.ty_named("b".to_string());
    let c = it.ty_named("c".to_string());
    let ab = it.ty_tuple(vec![a, b]);
    let expected = it.ty_arrow(ab, c);
    assert_eq!(p.synth_type, expected);
}

#[test]
fn constructor_argument_forms() {
    let mut it = Interner::new();
    let parser = ProblemParser::new();
    let p = parser.parse(&mut it, "synth nat satisfying S(a, b)").unwrap();
    let a = it.exp_var("a".to_string());
    let b = it.exp_var("b".to_string());
    let pair = it.exp_tuple(vec![a, b]);
    let expected = it.exp_ctor("S".to_string(), pair);
    match &p.spec_clause {
        Problem::UPost(e) => assert_eq!(*e, expected),
        _ => panic!("expected a postcondition"),
    }
    let single = parser.parse(&mut it, "synth nat satisfying S(a)").unwrap();
    let collapsed = it.exp_ctor("S".to_string(), a);
    match &single.spec_clause {
        Problem::UPost(e) => assert_eq!(*e, collapsed),
        _ => panic!("expected a postcondition"),
    }
}

#[test]
fn projection_and_equality() {
    let mut it = Interner::new();
    let parser = ProblemParser::new();
    let p = parser.parse(&mut it, "synth nat satisfying x.0 == y").unwrap();
    let x = it.exp_var("x".to_string());
    let proj = it.exp_proj(0, x);
    let y = it.exp_var("y".to_string());
    let expected = it.exp_eq(true, proj, y);
    match &p.spec_clause {
        Problem::UPost(e) => assert_eq!(*e, expected),
        _ => panic!("expected a postcondition"),
    }
    let q = parser.parse(&mut it, "synth nat satisfying x != y").unwrap();
    let ne = it.exp_eq(false, x, y);
    match &q.spec_clause {
        Problem::UPost(e) => assert_eq!(*e, ne),
        _ => panic!("expected a postcondition"),
    }
}

#[test]
fn chained_equality_is_rejected() {
    let mut it = Interner::new();
    let parser = ProblemParser::new();
    let err = parser
        .parse(&mut it, "synth nat satisfying x == y == z")
        .unwrap_err();
    match err {
        ParseError::ExtraToken { kind, .. } => assert_eq!(kind, TokKind::EqualEqual),
        other => panic!("expected trailing input, got {:?}", other),
    }
}

#[test]
fn match_with_branches() {
    let mut it = Interner::new();
    let parser = ProblemParser::new();
    let p = parser
        .parse(&mut it, "synth nat satisfying match x with | Cons y -> y | _ -> x")
        .unwrap();
    match &p.spec_clause {
        Problem::UPost(e) => match it.get_exp(*e) {
            ActualExp::Match(_, branches) => assert_eq!(branches.len(), 2),
            _ => panic!("expected a match node"),
        },
        _ => panic!("expected a postcondition"),
    }
}

#[test]
fn fun_and_fix_binders() {
    let mut it = Interner::new();
    let parser = ProblemParser::new();
    let p = parser
        .parse(&mut it, "let f = fix (r : nat -> nat) = fun (x : nat) -> r x ;; synth nat satisfying f")
        .unwrap();
    assert_eq!(p.decls.len(), 1);
    match &p.decls[0] {
        Declaration::ExpDecl(name, e) => {
            assert_eq!(name, "f");
            match it.get_exp(*e) {
                ActualExp::Fix(binder, _, _) => assert_eq!(binder, "r"),
                _ => panic!("expected a fix node"),
            }
        }
        _ => panic!("expected a value declaration"),
    }
}

#[test]
fn comments_and_whitespace_are_skipped() {
    let mut it = Interner::new();
    let parser = ProblemParser::new();
    let p = parser
        .parse(&mut it, "synth (* the goal *) nat\n\tsatisfying (* spec *) y")
        .unwrap();
    let nat = it.ty_named("nat".to_string());
    assert_eq!(p.synth_type, nat);
    let y = it.exp_var("y".to_string());
    match &p.spec_clause {
        Problem::UPost(e) => assert_eq!(*e, y),
        _ => panic!("expected a postcondition"),
    }
}

#[test]
fn lex_error_on_stray_character() {
    let mut it = Interner::new();
    let parser = ProblemParser::new();
    let err = parser.parse(&mut it, "synth nat satisfying $").unwrap_err();
    assert!(err.is_lex_error());
    assert_eq!(err.offset(), 21);
}

#[test]
fn lex_error_on_oversized_integer() {
    let mut it = Interner::new();
    let parser = ProblemParser::new();
    let err = parser
        .parse(&mut it, "synth nat satisfying 99999999999999999999")
        .unwrap_err();
    assert!(err.is_lex_error());
    assert_eq!(err.offset(), 21);
}

#[test]
fn unexpected_end_of_input() {
    let mut it = Interner::new();
    let parser = ProblemParser::new();
    let err = parser.parse(&mut it, "synth nat satisfying [").unwrap_err();
    match err {
        ParseError::UnrecognizedEof { offset, expected } => {
            assert_eq!(offset, 22);
            assert!(expected.contains(&TokKind::RBrack));
        }
        other => panic!("expected an end-of-input error, got {:?}", other),
    }
}

#[test]
fn reserved_word_is_not_an_identifier() {
    let mut it = Interner::new();
    let parser = ProblemParser::new();
    let err = parser.parse(&mut it, "synth mu satisfying x").unwrap_err();
    match err {
        ParseError::UnrecognizedToken { kind, .. } => assert_eq!(kind, TokKind::KwMu),
        other => panic!("expected a syntax error at the keyword, got {:?}", other),
    }
}

#[test]
fn trailing_input_is_an_extra_token() {
    let mut it = Interner::new();
    let parser = ProblemParser::new();
    let err = parser.parse(&mut it, "synth nat satisfying 3 3").unwrap_err();
    match err {
        ParseError::ExtraToken { start, kind, .. } => {
            assert_eq!(start, 23);
            assert_eq!(kind, TokKind::IntLit);
        }
        other => panic!("expected trailing input, got {:?}", other),
    }
}

#[test]
fn declaration_text_parses_alone() {
    let mut it = Interner::new();
    let decls = parse_decls_text(&mut it, "type t = nat let f = x ;;").unwrap();
    assert_eq!(decls.len(), 2);
    let nat = it.ty_named("nat".to_string());
    match &decls[0] {
        Declaration::TypeDecl(name, t) => {
            assert_eq!(name, "t");
            assert_eq!(*t, nat);
        }
        _ => panic!("expected a type declaration"),
    }
}

#[test]
fn sessions_do_not_share_handles() {
    let mut it1 = Interner::new();
    let mut it2 = Interner::new();
    let parser = ProblemParser::new();
    let p1 = parser.parse(&mut it1, "synth nat satisfying x").unwrap();
    let p2 = parser.parse(&mut it2, "synth bool satisfying x").unwrap();
    // Each session numbers its own arena from zero.
    assert_eq!(p1.synth_type.id, p2.synth_type.id);
    let nat = it1.ty_named("nat".to_string());
    let boolean = it2.ty_named("bool".to_string());
    assert_eq!(p1.synth_type, nat);
    assert_eq!(p2.synth_type, boolean);
}

#[test]
fn example_with_empty_input_list() {
    let mut it = Interner::new();
    let parser = ProblemParser::new();
    let p = parser.parse(&mut it, "synth nat satisfying [] -> O").unwrap();
    let unit = Exp::Unit(&mut it);
    let o = it.exp_ctor("O".to_string(), unit);
    match &p.spec_clause {
        Problem::UIOEs(examples) => {
            assert_eq!(examples.len(), 1);
            assert_eq!(examples[0].input.len(), 0);
            assert_eq!(examples[0].output, o);
        }
        _ => panic!("expected a plain example list"),
    }
}

#[test]
fn trailing_comma_before_equiv() {
    let mut it = Interner::new();
    let parser = ProblemParser::new();
    let p = parser
        .parse(&mut it, "synth nat satisfying [O] -> O, equiv f")
        .unwrap();
    match &p.spec_clause {
        Problem::UEquiv(examples, _) => assert_eq!(examples.len(), 1),
        _ => panic!("expected an equivalence specification"),
    }
}

#[test]
fn duplicate_variant_constructors_are_kept_in_order() {
    let mut it = Interner::new();
    let parser = ProblemParser::new();
    let p = parser.parse(&mut it, "synth | A | A satisfying x").unwrap();
    let unit = it.ty_tuple(Vec::new());
    let expected = it.ty_variant(vec![("A".to_string(), unit), ("A".to_string(), unit)]);
    assert_eq!(p.synth_type, expected);
}

#[test]
fn singleton_pattern_collapses() {
    let mut it = Interner::new();
    let parser = ProblemParser::new();
    let p = parser
        .parse(&mut it, "synth nat satisfying match x with | (y) -> y")
        .unwrap();
    match &p.spec_clause {
        Problem::UPost(e) => match it.get_exp(*e) {
            ActualExp::Match(_, branches) => {
                assert_eq!(branches.len(), 1);
                assert_eq!(
                    branches[0].0,
                    program_synthesis_parser::lang::Pattern::Var("y".to_string())
                );
            }
            _ => panic!("expected a match node"),
        },
        _ => panic!("expected a postcondition"),
    }
}

#[test]
fn declaration_text_of_pure_trivia_is_empty() {
    let mut it = Interner::new();
    let none = parse_decls_text(&mut it, "").unwrap();
    assert_eq!(none.len(), 0);
    let trivia = parse_decls_text(&mut it, "  (* nothing here *)  ").unwrap();
    assert_eq!(trivia.len(), 0);
}

#[test]
fn declaration_text_rejects_trailing_input() {
    let mut it = Interner::new();
    let err = parse_decls_text(&mut it, "type t = nat 3").unwrap_err();
    match err {
        ParseError::ExtraToken { kind, .. } => assert_eq!(kind, TokKind::IntLit),
        other => panic!("expected trailing input, got {:?}", other),
    }
}

#[test]
fn import_without_path_reports_expected_string() {
    let mut it = Interner::new();
    let parser = ProblemParser::new();
    let err = parser
        .parse(&mut it, "include include \"a\" synth nat satisfying x")
        .unwrap_err();
    match err {
        ParseError::UnrecognizedToken { kind, expected, .. } => {
            assert_eq!(kind, TokKind::KwInclude);
            assert_eq!(expected, vec![TokKind::StrLit]);
        }
        other => panic!("expected a syntax error at the import, got {:?}", other),
    }
}
