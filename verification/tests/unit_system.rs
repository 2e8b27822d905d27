use dim_sig_dig::unit_system::{SIPrefix, UnitSystem};

const VOLUME_DIM: [i8; 7] = [0, 0, 3, 0, 0, 0, 0];
const MASS_DIM: [i8; 7] = [0, 1, 0, 0, 0, 0, 0];
const MOL_DIM: [i8; 7] = [1, 0, 0, 0, 0, 0, 0];
const MOLARITY_DIM: [i8; 7] = [1, 0, -3, 0, 0, 0, 0];

#[test]
fn into_same_prefix_test() {
    let cubic_meter = UnitSystem::new(VOLUME_DIM).pow10(-3);
    let liter = UnitSystem::new(VOLUME_DIM).set_meter_prefix(SIPrefix::Deci);
    let milli_liter = UnitSystem::new(VOLUME_DIM)
        .set_meter_prefix(SIPrefix::Centi)
        .pow10(3);
    assert_eq!(cubic_meter.into_same_prefix_with(&liter), liter);
    assert_eq!(liter, milli_liter.into_same_prefix_with(&liter));
}

#[test]
fn prefix_degrees() {
    assert_eq!(SIPrefix::NoPrefix.get_degree(), 0);
    assert_eq!(SIPrefix::Deci.get_degree(), -1);
    assert_eq!(SIPrefix::Centi.get_degree(), -2);
    assert_eq!(SIPrefix::Milli.get_degree(), -3);
}

#[test]
fn new_unit_is_bare() {
    let u = UnitSystem::new(MASS_DIM);
    assert_eq!(u.get_pow10coe(), 0);
    assert_eq!(u.get_degree_array(), MASS_DIM);
    assert_eq!(u.prefix, [SIPrefix::NoPrefix; 7]);
}

#[test]
fn convert_meter_prefix_keeps_scale() {
    // A liter (dm^3) re-expressed on the centi scale becomes 10^3 cm^3.
    let liter = UnitSystem::new(VOLUME_DIM).set_meter_prefix(SIPrefix::Deci);
    let as_milli_liter = liter.convert_meter_prefix(SIPrefix::Centi);
    assert_eq!(as_milli_liter.get_pow10coe(), 3);
    assert_eq!(as_milli_liter.prefix[2], SIPrefix::Centi);
    // Same descriptor through the general conversion entry point.
    let mut prefix = [SIPrefix::NoPrefix; 7];
    prefix[2] = SIPrefix::Centi;
    assert_eq!(liter.convert_with_prefix(prefix), as_milli_liter);
}

#[test]
fn into_no_prefix_carries_whole_scale() {
    // 10^3 cm^3 flattened to base units is 10^-3 m^3.
    let milli_liter = UnitSystem::new(VOLUME_DIM)
        .set_meter_prefix(SIPrefix::Centi)
        .pow10(3);
    let flat = milli_liter.into_no_prefix();
    assert_eq!(flat.get_pow10coe(), -3);
    assert_eq!(flat.prefix, [SIPrefix::NoPrefix; 7]);
    assert_eq!(flat.get_degree_array(), VOLUME_DIM);
}

#[test]
fn harmonize_round_trip_preserves_scale() {
    // Harmonizing cannot change the physical scale: flattening before and
    // after gives the same coefficient.
    let cubic_meter = UnitSystem::new(VOLUME_DIM).pow10(-3);
    let liter = UnitSystem::new(VOLUME_DIM).set_meter_prefix(SIPrefix::Deci);
    let harmonized = cubic_meter.into_same_prefix_with(&liter);
    assert_eq!(
        harmonized.into_no_prefix().get_pow10coe(),
        cubic_meter.into_no_prefix().get_pow10coe()
    );
}

#[test]
fn take_red_pow10coe_extracts_residual() {
    let liter = UnitSystem::new(VOLUME_DIM).set_meter_prefix(SIPrefix::Deci);
    let scaled = liter.pow10(2);
    let mut harmonized = scaled.into_same_prefix_with(&liter);
    let red = harmonized.take_red_pow10coe(&liter);
    assert_eq!(red, 2);
    assert_eq!(harmonized.get_pow10coe(), liter.get_pow10coe());
    assert_eq!(harmonized, liter);
}

#[test]
fn multiply_combines_dimensions() {
    // Volume (cm^3 convention) times molarity (per-liter convention) has
    // the amount-of-substance dimension.
    let volume = UnitSystem::new(VOLUME_DIM).set_meter_prefix(SIPrefix::Centi);
    let molarity = UnitSystem::new(MOLARITY_DIM).set_meter_prefix(SIPrefix::Deci);
    let product = volume.multiply(&molarity);
    assert_eq!(product.get_degree_array(), MOL_DIM);
    // cm^3 is 10^-6 m^3, mol/dm^3 is 10^3 mol/m^3: the product sits at 10^-3.
    assert_eq!(product.into_no_prefix().get_pow10coe(), -3);
}

#[test]
fn divide_cancels_dimensions() {
    let mol = UnitSystem::new(MOL_DIM);
    let volume = UnitSystem::new(VOLUME_DIM).set_meter_prefix(SIPrefix::Deci);
    let quotient = mol.divide(&volume);
    assert_eq!(quotient.get_degree_array(), MOLARITY_DIM);
    assert_eq!(quotient.into_no_prefix().get_pow10coe(), 3);
}

#[test]
fn dimension_legality_check() {
    let volume = UnitSystem::new(VOLUME_DIM);
    let mass = UnitSystem::new(MASS_DIM);
    assert!(!volume.same_dimension(&mass));
    assert!(volume.same_dimension(&volume));
    // Multiplication needs no dimension agreement.
    let product = volume.multiply(&mass);
    assert_eq!(product.get_degree_array(), [0, 1, 3, 0, 0, 0, 0]);
}

#[test]
fn render_unit_text() {
    let liter = UnitSystem::new(VOLUME_DIM).set_meter_prefix(SIPrefix::Deci);
    assert_eq!(liter.render(), "dm^3");
    let milli_liter = UnitSystem::new(VOLUME_DIM)
        .set_meter_prefix(SIPrefix::Centi)
        .pow10(3);
    assert_eq!(milli_liter.render(), "10^3 cm^3");
    let mol = UnitSystem::new(MOL_DIM);
    assert_eq!(mol.render(), "mol");
    let molarity = UnitSystem::new(MOLARITY_DIM).set_meter_prefix(SIPrefix::Deci);
    assert_eq!(molarity.render(), "mol dm^-3");
    let bare = UnitSystem::new([0; 7]);
    assert_eq!(bare.render(), "");
    assert_eq!(bare.pow10(1).render(), "10");
    assert_eq!(bare.pow10(-4).render(), "10^-4");
    let gram = UnitSystem::new(MASS_DIM).set_gram_prefix(SIPrefix::Milli);
    assert_eq!(gram.render(), "mg");
}

#[test]
fn compute_scale_exponent_matches_flattening() {
    let milli_liter = UnitSystem::new(VOLUME_DIM)
        .set_meter_prefix(SIPrefix::Centi)
        .pow10(3);
    assert_eq!(milli_liter.compute_scale_exponent(), -3);
    assert_eq!(
        milli_liter.compute_scale_exponent(),
        milli_liter.into_no_prefix().get_pow10coe() as i32
    );
    assert_eq!(UnitSystem::new(MASS_DIM).compute_scale_exponent(), 0);
}

#[test]
fn checked_harmonization_signals_overflow() {
    let liter = UnitSystem::new(VOLUME_DIM).set_meter_prefix(SIPrefix::Deci);
    let cubic_meter = UnitSystem::new(VOLUME_DIM).pow10(-3);
    // The in-range case agrees with the plain operation.
    assert_eq!(
        cubic_meter.checked_into_same_prefix_with(&liter),
        Some(cubic_meter.into_same_prefix_with(&liter))
    );
    // Harmonizing toward the deci prefix costs +3 on the coefficient, which
    // no longer fits once the coefficient is at its ceiling.
    let saturated = UnitSystem::new(VOLUME_DIM).pow10(127);
    assert_eq!(saturated.checked_into_same_prefix_with(&liter), None);
}

#[test]
fn checked_multiply_signals_overflow() {
    let volume = UnitSystem::new(VOLUME_DIM).set_meter_prefix(SIPrefix::Centi);
    let molarity = UnitSystem::new(MOLARITY_DIM).set_meter_prefix(SIPrefix::Deci);
    assert_eq!(
        volume.checked_multiply(&molarity),
        Some(volume.multiply(&molarity))
    );
    // A dimension exponent past the representable range is refused.
    let huge = UnitSystem::new([127, 0, 0, 0, 0, 0, 0]);
    let mol = UnitSystem::new(MOL_DIM);
    assert_eq!(huge.checked_multiply(&mol), None);
    // So is a coefficient sum past the range.
    let high = UnitSystem::new(MOL_DIM).pow10(100);
    assert_eq!(high.checked_multiply(&high), None);
}

#[test]
fn checked_divide_signals_overflow() {
    let mol = UnitSystem::new(MOL_DIM);
    let volume = UnitSystem::new(VOLUME_DIM).set_meter_prefix(SIPrefix::Deci);
    assert_eq!(mol.checked_divide(&volume), Some(mol.divide(&volume)));
    let low = UnitSystem::new([-128, 0, 0, 0, 0, 0, 0]);
    assert_eq!(low.checked_divide(&mol), None);
}

#[test]
fn checked_convert_signals_overflow() {
    let liter = UnitSystem::new(VOLUME_DIM).set_meter_prefix(SIPrefix::Deci);
    assert_eq!(
        liter.checked_convert_meter_prefix(SIPrefix::Centi),
        Some(liter.convert_meter_prefix(SIPrefix::Centi))
    );
    // Moving three length exponents from no prefix to milli costs +9.
    let saturated = UnitSystem::new(VOLUME_DIM).pow10(125);
    assert_eq!(saturated.checked_convert_meter_prefix(SIPrefix::Milli), None);
}
