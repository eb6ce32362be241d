use growdb::models::{Float4, NewBatch, NewTerpenes, Species};

fn f4(x: f32) -> Float4 {
    Float4::from_bits(x.to_bits())
}

#[test]
fn species_display_names() {
    assert_eq!(Species::Indica.to_string(), "indica");
    assert_eq!(Species::Sativa.to_string(), "sativa");
    assert_eq!(Species::Hybrid.as_str(), "hybrid");
}

#[test]
fn float4_compares_as_numbers() {
    assert!(f4(22.9).same_value(&f4(22.9)));
    assert!(!f4(22.9).same_value(&f4(22.8)));
    assert!(f4(0.0).same_value(&f4(-0.0)));
    assert!(!f4(f32::NAN).same_value(&f4(f32::NAN)));
    assert!(f4(f32::INFINITY).same_value(&f4(f32::INFINITY)));
    assert!(!f4(f32::INFINITY).same_value(&f4(f32::NEG_INFINITY)));
}

#[test]
fn terpenes_builder_sets_each_field() {
    let t = NewTerpenes::builder()
        .batch_id(7)
        .caryophyllene(Some(f4(0.1)))
        .humulene(Some(f4(0.2)))
        .limonene(Some(f4(0.3)))
        .hinalool(Some(f4(0.4)))
        .myrcene(Some(f4(0.5)))
        .pinene(None)
        .build();
    assert_eq!(t.batch_id, 7);
    assert_eq!(t.caryophyllene, Some(f4(0.1)));
    assert_eq!(t.humulene, Some(f4(0.2)));
    assert_eq!(t.limonene, Some(f4(0.3)));
    assert_eq!(t.linalool, Some(f4(0.4)));
    assert_eq!(t.myrcene, Some(f4(0.5)));
    assert_eq!(t.pinene, None);
}

#[test]
fn default_drafts() {
    let t = NewTerpenes::new();
    assert_eq!(t.batch_id, -1);
    assert_eq!(t.linalool, None);
    assert_eq!(NewTerpenes::default(), t);
    let b = NewBatch::new();
    assert_eq!(b.strain_id, -1);
    assert_eq!(b.grower_id, -1);
    assert_eq!(b.harvest_date, None);
    assert_eq!(f32::from_bits(b.thc_content.bits), 0.0);
    assert_eq!(NewBatch::builder().build(), b);
}
