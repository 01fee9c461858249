use combinators::identity::identity;

#[test]
fn test_i32() {
    assert_eq!(identity(1), 1);
}

#[test]
fn test_ne_i32() {
    assert_ne!(identity(1), 2);
}

#[test]
fn identity_keeps_an_owned_string() {
    let s = String::from("unchanged");
    assert_eq!(identity(s.clone()), s);
}

#[test]
fn identity_keeps_a_vec_and_a_tuple() {
    assert_eq!(identity(vec![3u8, 1, 2]), vec![3u8, 1, 2]);
    assert_eq!(identity((7i64, 'z', true)), (7i64, 'z', true));
    assert_eq!(identity(Vec::<u32>::new()), Vec::<u32>::new());
}
