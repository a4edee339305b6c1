use grammar_core::grammar::{DebugLevel, InternalGrammar, LookaheadLevel};
use grammar_core::rules::{Rules, ORDER_REJECTED};
use grammar_core::symbols::Symbs;
use grammar_core::term_sets::TermSets;

fn two_terminals_and_s() -> (Symbs, usize, usize, usize) {
    let mut symbs = Symbs::new();
    let a = symbs.add_term("a".to_string(), 1).unwrap();
    let b = symbs.add_term("b".to_string(), 2).unwrap();
    let s = symbs.add_nonterm("S".to_string()).unwrap();
    (symbs, a, b, s)
}

#[test]
fn rule_start_offsets_accumulate() {
    let (mut symbs, a, b, s) = two_terminals_and_s();

    let mut rules = Rules::new();
    rules.begin_rule(s);
    rules.add_rhs_symbol(a);
    rules.add_rhs_symbol(b);
    let r0 = rules.finish_rule(&mut symbs);
    assert_eq!(r0, 0);
    assert_eq!(rules.rule(r0).unwrap().rule_start_offset, 0);

    rules.begin_rule(s);
    rules.add_rhs_symbol(a);
    rules.add_rhs_symbol(b);
    rules.add_rhs_symbol(a);
    let r1 = rules.finish_rule(&mut symbs);
    assert_eq!(r1, 1);
    // previous rhs length 2 plus one for the lhs
    assert_eq!(rules.rule(r1).unwrap().rule_start_offset, 3);

    rules.begin_rule(s);
    let r2 = rules.finish_rule(&mut symbs);
    assert_eq!(rules.rule(r2).unwrap().rule_start_offset, 7);

    assert_eq!(rules.n_rules(), 3);
    assert_eq!(rules.n_rhs_lens(), 5);
    assert_eq!(rules.next_offset(), 8);
}

#[test]
fn finished_rule_carries_rhs_and_lhs() {
    let (mut symbs, a, b, s) = two_terminals_and_s();
    let mut rules = Rules::new();
    rules.begin_rule(s);
    rules.add_rhs_symbol(a);
    rules.add_rhs_symbol(b);
    let r0 = rules.finish_rule(&mut symbs);
    let rule = rules.rule(r0).unwrap();
    assert_eq!(rule.num, 0);
    assert_eq!(rule.lhs, s);
    assert_eq!(rule.rhs, vec![a, b]);
    assert_eq!(rule.anode, None);
    assert_eq!(rule.anode_cost, 0);
    assert_eq!(rule.order, vec![ORDER_REJECTED, ORDER_REJECTED]);
    assert!(rules.rule(1).is_none());
}

#[test]
fn translation_template_is_stored() {
    let (mut symbs, a, b, s) = two_terminals_and_s();
    let mut rules = Rules::new();
    rules.begin_rule(s);
    rules.add_rhs_symbol(a);
    rules.add_rhs_symbol(b);
    rules.set_translation(Some("pair".to_string()), 3);
    rules.set_symbol_translation_order(0, 1);
    rules.set_symbol_translation_order(1, 0);
    let r0 = rules.finish_rule(&mut symbs);
    let rule = rules.rule(r0).unwrap();
    assert_eq!(rule.anode.as_deref(), Some("pair"));
    assert_eq!(rule.anode_cost, 3);
    assert_eq!(rule.order, vec![1, 0]);
}

#[test]
fn nonterminal_owns_rules_in_creation_order() {
    let (mut symbs, a, b, s) = two_terminals_and_s();
    let t = symbs.add_nonterm("T".to_string()).unwrap();
    let mut rules = Rules::new();

    rules.begin_rule(s);
    rules.add_rhs_symbol(a);
    let r0 = rules.finish_rule(&mut symbs);
    rules.begin_rule(t);
    rules.add_rhs_symbol(b);
    let r1 = rules.finish_rule(&mut symbs);
    rules.begin_rule(s);
    rules.add_rhs_symbol(b);
    let r2 = rules.finish_rule(&mut symbs);

    assert_eq!(symbs.rules_for(s).unwrap(), &vec![r0, r2]);
    assert_eq!(symbs.rules_for(t).unwrap(), &vec![r1]);
    assert!(symbs.rules_for(a).is_none());
    assert!(symbs.rules_for(99).is_none());
}

#[test]
fn grammar_bundles_stores_and_freezes() {
    let (mut symbs, a, _b, s) = two_terminals_and_s();
    symbs.finish_adding_terms();
    let mut rules = Rules::new();
    rules.begin_rule(s);
    rules.add_rhs_symbol(a);
    rules.finish_rule(&mut symbs);
    let term_sets = TermSets::new(symbs.n_terms());

    let mut grammar = InternalGrammar::new(
        symbs,
        term_sets,
        rules,
        LookaheadLevel::Static,
        3,
        DebugLevel::Silent,
        true,
        false,
        true,
    );
    assert_eq!(grammar.lookahead_level(), LookaheadLevel::Static);
    assert_eq!(grammar.recovery_token_matches(), 3);
    assert_eq!(grammar.debug_level(), DebugLevel::Silent);
    assert!(grammar.one_parse_p());
    assert!(!grammar.cost_p());
    assert!(grammar.error_recovery_p());
    assert_eq!(grammar.start_nonterm(), None);

    grammar.set_start_nonterm(s);
    grammar.set_end_marker(0);
    grammar.set_term_error(1);
    let id = grammar.symbs_mut().add_nonterm("Extra".to_string()).unwrap();
    assert_eq!(id, 3);

    assert!(!grammar.is_frozen());
    grammar.freeze();
    assert!(grammar.is_frozen());

    assert_eq!(grammar.start_nonterm(), Some(s));
    assert_eq!(grammar.end_marker(), Some(0));
    assert_eq!(grammar.term_error(), Some(1));
    assert_eq!(grammar.symbs().n_terms(), 2);
    assert_eq!(grammar.rules().n_rules(), 1);
    assert_eq!(grammar.term_sets().n_terms(), 2);
}

#[test]
fn lookahead_variants_carry_bounds() {
    assert_ne!(LookaheadLevel::NoLookahead, LookaheadLevel::Static);
    assert_eq!(LookaheadLevel::Dynamic(2), LookaheadLevel::Dynamic(2));
    assert_ne!(LookaheadLevel::Dynamic(2), LookaheadLevel::Dynamic(3));
    assert_ne!(DebugLevel::Graphviz(1), DebugLevel::Stats);
}
