use enterpolation::never::Never;

#[test]
fn size_of_never_is_zero() {
    assert_eq!(0, std::mem::size_of::<Never>());
}
