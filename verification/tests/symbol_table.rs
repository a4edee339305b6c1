use grammar_core::symbols::{KindSymbInfo, Symbs};
use grammar_core::GrammarError;

fn term_fields(s: &grammar_core::symbols::Symb) -> (u32, usize) {
    match &s.kind {
        KindSymbInfo::Terminal(t) => (t.code, t.term_num),
        KindSymbInfo::Nonterminal(_) => panic!("expected a terminal"),
    }
}

fn nonterm_num_of(s: &grammar_core::symbols::Symb) -> usize {
    match &s.kind {
        KindSymbInfo::Terminal(_) => panic!("expected a nonterminal"),
        KindSymbInfo::Nonterminal(n) => n.nonterm_num,
    }
}

#[test]
fn lookup_returns_creation_ids() {
    let mut symbs = Symbs::new();
    let a = symbs.add_term("a".to_string(), 10).unwrap();
    let b = symbs.add_term("b".to_string(), 20).unwrap();
    let s = symbs.add_nonterm("S".to_string()).unwrap();
    assert_eq!(a, 0);
    assert_eq!(b, 1);
    assert_eq!(s, 2);
    assert_eq!(symbs.symb_by_repr(&"a".to_string()).unwrap().num, a);
    assert_eq!(symbs.symb_by_repr(&"b".to_string()).unwrap().num, b);
    assert_eq!(symbs.symb_by_repr(&"S".to_string()).unwrap().num, s);
    assert_eq!(symbs.symb_by_code(10).unwrap().num, a);
    assert_eq!(symbs.symb_by_code(20).unwrap().num, b);
    assert!(symbs.symb_by_repr(&"T".to_string()).is_none());
    assert!(symbs.symb_by_code(30).is_none());
}

#[test]
fn duplicates_fail_and_leave_table_unchanged() {
    let mut symbs = Symbs::new();
    symbs.add_term("a".to_string(), 1).unwrap();
    symbs.add_nonterm("S".to_string()).unwrap();

    assert_eq!(
        symbs.add_term("a".to_string(), 9),
        Err(GrammarError::DuplicateName)
    );
    assert_eq!(
        symbs.add_term("S".to_string(), 9),
        Err(GrammarError::DuplicateName)
    );
    assert_eq!(
        symbs.add_nonterm("a".to_string()),
        Err(GrammarError::DuplicateName)
    );
    assert_eq!(
        symbs.add_term("c".to_string(), 1),
        Err(GrammarError::DuplicateCode)
    );

    assert_eq!(symbs.n_terms(), 1);
    assert_eq!(symbs.n_nonterms(), 1);
    assert_eq!(symbs.symb_by_repr(&"a".to_string()).unwrap().num, 0);
    assert_eq!(symbs.symb_by_repr(&"S".to_string()).unwrap().num, 1);
    assert_eq!(symbs.symb_by_code(1).unwrap().num, 0);
    assert!(symbs.symb_by_code(9).is_none());
}

#[test]
fn dense_numbering_over_mixed_additions() {
    let mut symbs = Symbs::new();
    symbs.add_term("x".to_string(), 100).unwrap();
    symbs.add_nonterm("A".to_string()).unwrap();
    symbs.add_term("y".to_string(), 101).unwrap();
    symbs.add_nonterm("B".to_string()).unwrap();
    symbs.add_term("z".to_string(), 102).unwrap();

    for i in 0..5 {
        assert_eq!(symbs.get(i).unwrap().num, i);
    }
    assert!(symbs.get(5).is_none());

    for t in 0..3 {
        let s = symbs.term_get(t).unwrap();
        assert_eq!(term_fields(s).1, t);
    }
    assert!(symbs.term_get(3).is_none());
    assert_eq!(term_fields(symbs.term_get(0).unwrap()).0, 100);
    assert_eq!(term_fields(symbs.term_get(2).unwrap()).0, 102);

    for n in 0..2 {
        let s = symbs.nonterm_get(n).unwrap();
        assert_eq!(nonterm_num_of(s), n);
    }
    assert!(symbs.nonterm_get(2).is_none());
    assert_eq!(symbs.nonterm_get(0).unwrap().repr.as_str(), "A");
    assert_eq!(symbs.nonterm_get(1).unwrap().repr.as_str(), "B");
}

#[test]
fn finalize_with_clustered_codes_keeps_lookups() {
    let mut symbs = Symbs::new();
    symbs.add_term("a".to_string(), 10).unwrap();
    symbs.add_term("b".to_string(), 12).unwrap();
    symbs.add_term("c".to_string(), 1000).unwrap();
    let before: Vec<Option<usize>> = (0..1200)
        .map(|c| symbs.symb_by_code(c).map(|s| s.num))
        .collect();
    symbs.finish_adding_terms();
    for c in 0..1200u32 {
        assert_eq!(
            symbs.symb_by_code(c).map(|s| s.num),
            before[c as usize],
            "code {} changed after finalize",
            c
        );
    }
    assert_eq!(symbs.symb_by_code(10).unwrap().num, 0);
    assert_eq!(symbs.symb_by_code(1000).unwrap().num, 2);
    assert!(symbs.symb_by_code(9).is_none());
    assert!(symbs.symb_by_code(11).is_none());
    assert!(symbs.symb_by_code(1001).is_none());
}

#[test]
fn finalize_with_spread_codes_keeps_lookups() {
    let mut symbs = Symbs::new();
    symbs.add_term("low".to_string(), 0).unwrap();
    symbs.add_term("high".to_string(), 20000).unwrap();
    symbs.finish_adding_terms();
    assert_eq!(symbs.symb_by_code(0).unwrap().num, 0);
    assert_eq!(symbs.symb_by_code(20000).unwrap().num, 1);
    assert!(symbs.symb_by_code(1).is_none());
    assert!(symbs.symb_by_code(19999).is_none());
}

#[test]
fn finalize_single_terminal() {
    let mut symbs = Symbs::new();
    symbs.add_term("only".to_string(), 42).unwrap();
    symbs.finish_adding_terms();
    assert_eq!(symbs.symb_by_code(42).unwrap().num, 0);
    assert!(symbs.symb_by_code(41).is_none());
    assert!(symbs.symb_by_code(43).is_none());
}

#[test]
fn clear_resets_everything() {
    let mut symbs = Symbs::new();
    symbs.add_term("a".to_string(), 1).unwrap();
    symbs.add_nonterm("S".to_string()).unwrap();
    symbs.finish_adding_terms();
    symbs.clear();
    assert_eq!(symbs.n_terms(), 0);
    assert_eq!(symbs.n_nonterms(), 0);
    assert!(symbs.get(0).is_none());
    assert!(symbs.symb_by_repr(&"a".to_string()).is_none());
    assert!(symbs.symb_by_code(1).is_none());
    let again = symbs.add_term("a".to_string(), 1).unwrap();
    assert_eq!(again, 0);
}

#[test]
fn analysis_setters_update_single_symbol() {
    let mut symbs = Symbs::new();
    let a = symbs.add_term("a".to_string(), 1).unwrap();
    let s = symbs.add_nonterm("S".to_string()).unwrap();
    symbs.set_access_p(s, true);
    symbs.set_derivation_p(s, true);
    symbs.set_empty_p(s, true);
    symbs.set_loop_p(s, true);
    symbs.set_first(s, 3);
    symbs.set_follow(s, 4);
    let sym = symbs.get(s).unwrap();
    assert!(sym.access_p && sym.derivation_p && sym.empty_p);
    match &sym.kind {
        KindSymbInfo::Nonterminal(n) => {
            assert!(n.loop_p);
            assert_eq!(n.first, Some(3));
            assert_eq!(n.follow, Some(4));
        }
        KindSymbInfo::Terminal(_) => panic!("expected a nonterminal"),
    }
    let t = symbs.get(a).unwrap();
    assert!(!t.access_p && !t.derivation_p && !t.empty_p);
}
