use grammar_core::render::{decimal_string, symb_print, term_set_print};
use grammar_core::symbols::Symbs;
use grammar_core::term_sets::TermSets;

#[test]
fn decimal_rendering() {
    assert_eq!(decimal_string(0).as_str(), "0");
    assert_eq!(decimal_string(7).as_str(), "7");
    assert_eq!(decimal_string(10).as_str(), "10");
    assert_eq!(decimal_string(90210).as_str(), "90210");
    assert_eq!(decimal_string(u32::MAX).as_str(), "4294967295");
}

#[test]
fn symbol_rendering_annotates_terminal_codes() {
    let mut symbs = Symbs::new();
    let a = symbs.add_term("ident".to_string(), 257).unwrap();
    let s = symbs.add_nonterm("expr".to_string()).unwrap();

    let term = symbs.get(a).unwrap();
    assert_eq!(symb_print(term, false).as_str(), "ident");
    assert_eq!(symb_print(term, true).as_str(), "ident(257)");

    let nonterm = symbs.get(s).unwrap();
    assert_eq!(symb_print(nonterm, false).as_str(), "expr");
    assert_eq!(symb_print(nonterm, true).as_str(), "expr");
}

#[test]
fn term_set_rendering_lists_contained_terminals() {
    let mut symbs = Symbs::new();
    symbs.add_term("a".to_string(), 1).unwrap();
    symbs.add_term("b".to_string(), 2).unwrap();
    symbs.add_term("c".to_string(), 3).unwrap();
    symbs.finish_adding_terms();

    let sets = TermSets::new(symbs.n_terms());
    let mut set = sets.create();
    sets.set_bit(&mut set, 0).unwrap();
    sets.set_bit(&mut set, 2).unwrap();
    assert_eq!(term_set_print(&symbs, &sets, &set).as_str(), " a c");

    let empty = sets.create();
    assert_eq!(term_set_print(&symbs, &sets, &empty).as_str(), "");
}
