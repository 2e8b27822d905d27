use dim_sig_dig::substance::Substance;

#[test]
fn create_keeps_name_and_molar_mass() {
    let s = Substance::create("Mohr".to_string(), 392.1f64);
    assert_eq!(s.get_name(), "Mohr");
    assert_eq!(*s.get_molar_mass(), 392.1f64);
    assert_eq!(s.name, "Mohr");
}

#[test]
fn create_is_generic_in_the_magnitude() {
    let s = Substance::create("Fe".to_string(), (5585u64, 4usize));
    assert_eq!(s.get_name(), "Fe");
    assert_eq!(s.molar_mass, (5585u64, 4usize));
}
