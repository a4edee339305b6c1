use grammar_core::term_sets::{InternResult, TermSets};
use grammar_core::GrammarError;

#[test]
fn interning_same_pattern_twice() {
    let mut symbs = grammar_core::symbols::Symbs::new();
    let a = symbs.add_term("a".to_string(), 1).unwrap();
    let b = symbs.add_term("b".to_string(), 2).unwrap();
    let s = symbs.add_nonterm("S".to_string()).unwrap();
    assert_eq!((a, b, s), (0, 1, 2));
    symbs.finish_adding_terms();

    let mut store = TermSets::new(symbs.n_terms());
    let mut set_a = store.create();
    assert_eq!(store.set_bit(&mut set_a, 0), Ok(true));
    assert_eq!(store.insert(set_a), InternResult::New(0));

    let mut set_b = store.create();
    assert_eq!(store.set_bit(&mut set_b, 1), Ok(true));
    assert_eq!(store.insert(set_b), InternResult::New(1));

    let mut set_c = store.create();
    assert_eq!(store.set_bit(&mut set_c, 0), Ok(true));
    assert_eq!(store.insert(set_c), InternResult::Existing(0));

    assert_eq!(store.n_sets(), 2);
}

#[test]
fn canonical_copy_is_bit_identical() {
    let store = {
        let mut st = TermSets::new(130);
        let mut set = st.create();
        st.set_bit(&mut set, 0).unwrap();
        st.set_bit(&mut set, 64).unwrap();
        st.set_bit(&mut set, 129).unwrap();
        assert_eq!(st.insert(set), InternResult::New(0));
        st
    };
    let canon = store.get(0);
    for i in 0..130 {
        let expected = i == 0 || i == 64 || i == 129;
        assert_eq!(store.test_bit(canon, i), expected, "bit {}", i);
    }
}

#[test]
fn third_distinct_pattern_gets_fresh_id() {
    let mut store = TermSets::new(8);
    let mut s1 = store.create();
    store.set_bit(&mut s1, 3).unwrap();
    let mut s2 = store.create();
    store.set_bit(&mut s2, 4).unwrap();
    let mut s3 = store.create();
    store.set_bit(&mut s3, 3).unwrap();
    store.set_bit(&mut s3, 4).unwrap();
    assert_eq!(store.insert(s1), InternResult::New(0));
    assert_eq!(store.insert(s2), InternResult::New(1));
    assert_eq!(store.insert(s3), InternResult::New(2));
}

#[test]
fn set_bit_reports_prior_state_and_rejects_out_of_range() {
    let store = TermSets::new(65);
    let mut set = store.create();
    assert_eq!(store.set_bit(&mut set, 64), Ok(true));
    assert_eq!(store.set_bit(&mut set, 64), Ok(false));
    assert_eq!(
        store.set_bit(&mut set, 65),
        Err(GrammarError::InvalidTerminalIndex)
    );
    assert_eq!(
        store.set_bit(&mut set, 1000),
        Err(GrammarError::InvalidTerminalIndex)
    );
    assert!(store.test_bit(&set, 64));
    assert!(!store.test_bit(&set, 63));
}

#[test]
fn union_with_subset_reports_no_change() {
    let store = TermSets::new(130);
    let mut set = store.create();
    store.set_bit(&mut set, 5).unwrap();
    store.set_bit(&mut set, 70).unwrap();
    store.set_bit(&mut set, 129).unwrap();

    let mut subset = store.create();
    store.set_bit(&mut subset, 70).unwrap();

    assert!(!set.union_in_place(&subset));
    for i in 0..130 {
        let expected = i == 5 || i == 70 || i == 129;
        assert_eq!(store.test_bit(&set, i), expected, "bit {}", i);
    }
}

#[test]
fn union_with_extra_bit_is_exact_bitwise_union() {
    let store = TermSets::new(130);
    let mut set = store.create();
    store.set_bit(&mut set, 5).unwrap();
    store.set_bit(&mut set, 70).unwrap();

    let mut other = store.create();
    store.set_bit(&mut other, 70).unwrap();
    store.set_bit(&mut other, 128).unwrap();

    assert!(set.union_in_place(&other));
    for i in 0..130 {
        let expected = i == 5 || i == 70 || i == 128;
        assert_eq!(store.test_bit(&set, i), expected, "bit {}", i);
    }
}

#[test]
fn clear_and_copy_whole_buffers() {
    let store = TermSets::new(100);
    let mut a = store.create();
    store.set_bit(&mut a, 0).unwrap();
    store.set_bit(&mut a, 99).unwrap();

    let mut b = store.create();
    store.set_bit(&mut b, 50).unwrap();
    b.copy(&a);
    for i in 0..100 {
        assert_eq!(store.test_bit(&b, i), i == 0 || i == 99);
    }

    a.clear();
    for i in 0..100 {
        assert!(!store.test_bit(&a, i));
    }
    // the copy is unaffected by clearing the source
    assert!(store.test_bit(&b, 0));
}

#[test]
fn empty_width_store_interns_the_empty_pattern() {
    let mut store = TermSets::new(0);
    let e1 = store.create();
    let e2 = store.create();
    assert_eq!(store.insert(e1), InternResult::New(0));
    assert_eq!(store.insert(e2), InternResult::Existing(0));
}
