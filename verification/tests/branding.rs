use encapfn::branding::{EFLifetimeBranding, EFRuntimeBranding, EFID};

#[test]
fn test_lifetime_branding_equality() {
    let mut counter: u64 = 0;
    EFLifetimeBranding::new(&mut counter, |brand: EFLifetimeBranding| {
        let imprint_a = brand.get_imprint();
        let imprint_b = brand.get_imprint();
        assert!(EFLifetimeBranding::compare(&imprint_a, &imprint_b));
    })
}

#[test]
fn test_lifetime_branding_distinct_regions_compare_unequal() {
    let mut counter: u64 = 0;
    let imprint_a = EFLifetimeBranding::new(&mut counter, |brand_a: EFLifetimeBranding| {
        brand_a.get_imprint()
    });
    let imprint_b = EFLifetimeBranding::new(&mut counter, |brand_b: EFLifetimeBranding| {
        brand_b.get_imprint()
    });
    assert!(!EFLifetimeBranding::compare(&imprint_a, &imprint_b));
    assert_eq!(counter, 2);
}

#[test]
fn test_runtime_branding_same_brand_compares_equal() {
    let mut counter: u64 = 0;
    let brand = EFRuntimeBranding::new(&mut counter);
    let imprint_a = brand.get_imprint();
    let imprint_b = brand.get_imprint();
    assert!(EFRuntimeBranding::compare(&imprint_a, &imprint_b));
}

#[test]
fn test_runtime_branding_distinct_brands_compare_unequal() {
    let mut counter: u64 = 0;
    let brand_1 = EFRuntimeBranding::new(&mut counter);
    let brand_2 = EFRuntimeBranding::new(&mut counter);
    assert!(!EFRuntimeBranding::compare(
        &brand_1.get_imprint(),
        &brand_2.get_imprint()
    ));
    assert!(EFRuntimeBranding::compare(
        &brand_2.get_imprint(),
        &brand_2.get_imprint()
    ));
}

#[test]
fn test_runtime_branding_advances_counter() {
    let mut counter: u64 = 41;
    let _brand = EFRuntimeBranding::new(&mut counter);
    assert_eq!(counter, 42);
}
