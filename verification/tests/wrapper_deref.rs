use abstract_struct::Wrapper;

#[test]
fn deref_gives_the_contained_value() {
    let w = Wrapper(vec![1, 2, 3]);
    assert_eq!(w.len(), 3);
    assert_eq!(*w, vec![1, 2, 3]);
    assert_eq!(w.0[1], 2);
}
