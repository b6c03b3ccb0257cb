use compiler::Interner;

#[test]
fn interning_is_idempotent() {
    let mut interner = Interner::new();
    let h1 = interner.intern("abc".to_string());
    let h2 = interner.intern("abc".to_string());
    assert_eq!(h1, h2);
    assert_eq!(interner.lookup(h1).as_str(), "abc");
}

#[test]
fn distinct_texts_get_distinct_handles() {
    let mut interner = Interner::new();
    let ha = interner.intern("a".to_string());
    let hb = interner.intern("b".to_string());
    let he = interner.intern("".to_string());
    assert_ne!(ha, hb);
    assert_ne!(ha, he);
    assert_ne!(hb, he);
    assert_eq!(interner.lookup(ha).as_str(), "a");
    assert_eq!(interner.lookup(hb).as_str(), "b");
    assert_eq!(interner.lookup(he).as_str(), "");
}

#[test]
fn handles_stay_stable_as_the_table_grows() {
    let mut interner = Interner::new();
    let ha = interner.intern("alpha".to_string());
    for n in 0..100 {
        interner.intern(format!("filler{}", n));
    }
    assert_eq!(interner.intern("alpha".to_string()), ha);
    assert_eq!(interner.lookup(ha).as_str(), "alpha");
}
