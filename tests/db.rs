use growdb::db::{
    BatchField, Creatable, Db, DbError, Deletable, GrowerField, Retrievable, StrainField,
};
use growdb::models::{
    Batch, Date, Float4, Grower, NewBatch, NewGrower, NewStrain, NewTerpenes, Species, Strain,
};

fn f4(x: f32) -> Float4 {
    Float4::from_bits(x.to_bits())
}

fn grower(db: &mut Db, name: &str) -> Grower {
    NewGrower { name: name.to_string() }.create(db).unwrap()
}

fn strain(db: &mut Db, name: &str, species: Species) -> Strain {
    NewStrain { name: name.to_string(), species }.create(db).unwrap()
}

/// Growers 1..=3 (the third is "Summa"), strains 1..=4 (the third is
/// "Blackwater OG", three of them indica) and one batch of strain 3 by grower 3.
fn seeded() -> Db {
    let mut db = Db::new();
    grower(&mut db, "Green Acres");
    grower(&mut db, "Tegridy Farms");
    grower(&mut db, "Summa");
    strain(&mut db, "Gaylord OG", Species::Indica);
    strain(&mut db, "Wedding Cake", Species::Hybrid);
    strain(&mut db, "Blackwater OG", Species::Indica);
    strain(&mut db, "Northern Lights", Species::Indica);
    NewBatch::builder()
        .strain_id(3)
        .grower_id(3)
        .thc_content(f4(22.9))
        .cbd_content(f4(0.2))
        .build()
        .create(&mut db)
        .unwrap();
    db
}

#[test]
fn new_strain_created() {
    let mut conn = seeded();
    let new = NewStrain { name: "Test OG".to_owned(), species: Species::Indica };
    let strain = new.create(&mut conn);

    assert!(strain.is_ok());
    assert_eq!(strain.as_ref().unwrap().species, Species::Indica);
    strain.as_ref().unwrap().delete(&mut conn).unwrap();
}

#[test]
fn strain_deleted() {
    let mut conn = seeded();
    let new = NewStrain { name: "Reggie Kush".to_owned(), species: Species::Indica };
    let strain = new.create(&mut conn).unwrap();
    assert!(strain.delete(&mut conn).is_ok());
    let fails = strain.delete(&mut conn);
    assert!(fails.is_err());
}

#[test]
fn all_strains_retrieved() {
    let conn = seeded();
    let all = Strain::all(&conn);
    assert_ne!(all.as_ref().unwrap().len(), 0);
}

#[test]
fn strain_filtered_by_id() {
    let conn = seeded();
    let filtered_by_id = Strain::filter(&conn, StrainField::Id(3)).unwrap();
    let indicas = Strain::filter(&conn, StrainField::Species(Species::Indica)).unwrap();
    assert_eq!(filtered_by_id[0].id, 3);
    assert_eq!(indicas[2].species, Species::Indica);
}

#[test]
fn strain_filtered_by_species() {
    let conn = seeded();
    let indicas = Strain::filter(&conn, StrainField::Species(Species::Indica)).unwrap();
    assert_eq!(indicas[2].species, Species::Indica);
}

#[test]
fn strain_filtered_by_name() {
    let conn = seeded();
    let res = Strain::filter(&conn, StrainField::Name("gaylord oG")).unwrap();
    assert_eq!(res[0].name, "Gaylord OG");
}

#[test]
fn new_batch_created() {
    let mut conn = seeded();
    let batch = NewBatch::builder()
        .strain_id(3)
        .grower_id(3)
        .thc_content(f4(22.9))
        .cbd_content(f4(0.2))
        .build()
        .create(&mut conn);

    assert_eq!(batch.unwrap().strain_id, 3);
}

#[test]
fn batch_deleted() {
    let mut conn = seeded();
    let batch = NewBatch::builder()
        .strain_id(1)
        .grower_id(3)
        .thc_content(f4(32.9))
        .cbd_content(f4(1.2))
        .build()
        .create(&mut conn)
        .unwrap();

    assert!(batch.delete(&mut conn).is_ok());
}

#[test]
fn new_grower_created() {
    let mut conn = seeded();
    let new = NewGrower { name: "Tegridy Farms".to_string() };
    let grower = new.create(&mut conn);
    assert!(grower.is_ok());
}

#[test]
fn grower_retrieved_by_name() {
    let conn = seeded();
    let tegridy = Grower::filter(&conn, GrowerField::Name("Tegridy Farms")).unwrap();
    assert_eq!(tegridy[0].name, "Tegridy Farms");
}

#[test]
fn all_growers_retrieved() {
    let conn = seeded();
    let growers = Grower::all(&conn);
    assert!(growers.is_ok());
}

#[test]
fn all_batches_retrieved() {
    let conn = seeded();
    let all = Batch::all(&conn).unwrap();
    assert_ne!(all.len(), 0);
}

#[test]
fn batch_filtered_by_strain_name() {
    let conn = seeded();
    let res = Batch::filter(&conn, BatchField::Strain("Blackwater OG")).unwrap();
    assert_eq!(res[0].strain, "Blackwater OG");
}

#[test]
fn batch_filtered_by_strain_id() {
    let conn = seeded();
    let res = Batch::filter(&conn, BatchField::StrainID(3)).unwrap();
    assert_eq!(res[0].strain, "Blackwater OG".to_owned());
}

#[test]
fn batch_filtered_by_grower_id() {
    let conn = seeded();
    let res = Batch::filter(&conn, BatchField::GrowerID(3)).unwrap();
    assert_eq!(res[0].grower, "Summa");
}

#[test]
fn batch_filtered_by_grower_name() {
    let conn = seeded();
    let res = Batch::filter(&conn, BatchField::Grower("Summa")).unwrap();
    assert_eq!(res[0].grower, "Summa");
}

#[test]
fn created_grower_read_back_by_id() {
    let mut db = seeded();
    let g = grower(&mut db, "Half Baked");
    assert_eq!(g.id, 4);
    let res = Grower::filter(&db, GrowerField::Id(g.id)).unwrap();
    assert_eq!(res, vec![Grower { id: 4, name: "Half Baked".to_string() }]);
}

#[test]
fn created_strain_read_back_by_id() {
    let mut db = seeded();
    let s = strain(&mut db, "Sour Diesel", Species::Sativa);
    assert_eq!(s.id, 5);
    let res = Strain::filter(&db, StrainField::Id(5)).unwrap();
    assert_eq!(res.len(), 1);
    assert_eq!(res[0], s);
    assert_eq!(res[0].name, "Sour Diesel");
    assert_eq!(res[0].species, Species::Sativa);
}

#[test]
fn created_batch_read_back_by_id() {
    let mut db = seeded();
    let d = Date { days_from_ce: 738_000 };
    let b = NewBatch::builder()
        .strain_id(1)
        .grower_id(2)
        .harvest_date(Some(d))
        .thc_content(f4(18.5))
        .cbd_content(f4(0.7))
        .build()
        .create(&mut db)
        .unwrap();
    assert_eq!(b.id, 2);
    let res = Batch::filter(&db, BatchField::Id(b.id)).unwrap();
    assert_eq!(res.len(), 1);
    assert_eq!(res[0].strain, "Gaylord OG");
    assert_eq!(res[0].grower, "Tegridy Farms");
    assert_eq!(res[0].harvest_date, Some(d));
    assert_eq!(res[0].final_test_date, None);
    assert_eq!(f32::from_bits(res[0].thc_content.bits), 18.5);
    assert_eq!(f32::from_bits(res[0].cbd_content.bits), 0.7);
}

#[test]
fn deleted_grower_is_gone() {
    let mut db = seeded();
    let g = grower(&mut db, "Short Lived");
    assert_eq!(g.delete(&mut db), Ok(Grower { id: 4, name: "Short Lived".to_string() }));
    assert!(Grower::filter(&db, GrowerField::Id(4)).unwrap().is_empty());
    assert_eq!(g.delete(&mut db), Err(DbError::NotFound));
    assert_eq!(Grower::all(&db).unwrap().len(), 3);
}

#[test]
fn deleted_batch_is_gone() {
    let mut db = seeded();
    let b = Batch::all(&db).unwrap();
    assert_eq!(b.len(), 1);
    let stored = NewBatch::builder().strain_id(2).grower_id(1).build().create(&mut db).unwrap();
    assert_eq!(stored.delete(&mut db).map(|x| x.id), Ok(2));
    assert!(Batch::filter(&db, BatchField::Id(2)).unwrap().is_empty());
    assert_eq!(stored.delete(&mut db), Err(DbError::NotFound));
}

#[test]
fn identities_are_not_reused() {
    let mut db = seeded();
    let g = grower(&mut db, "Temporary");
    g.delete(&mut db).unwrap();
    let next = grower(&mut db, "Permanent");
    assert_eq!(next.id, 5);
}

#[test]
fn id_filters_select_all_and_only_equal_rows() {
    let mut db = seeded();
    NewBatch::builder().strain_id(3).grower_id(1).build().create(&mut db).unwrap();
    NewBatch::builder().strain_id(2).grower_id(3).build().create(&mut db).unwrap();
    let by_strain = Batch::filter(&db, BatchField::StrainID(3)).unwrap();
    assert_eq!(by_strain.len(), 2);
    assert!(by_strain.iter().all(|r| r.strain == "Blackwater OG"));
    let by_grower = Batch::filter(&db, BatchField::GrowerID(3)).unwrap();
    assert_eq!(by_grower.len(), 2);
    assert!(by_grower.iter().all(|r| r.grower == "Summa"));
    let hybrids = Strain::filter(&db, StrainField::Species(Species::Hybrid)).unwrap();
    assert_eq!(hybrids.len(), 1);
    assert_eq!(hybrids[0].name, "Wedding Cake");
    let indicas = Strain::filter(&db, StrainField::Species(Species::Indica)).unwrap();
    let ids: Vec<i32> = indicas.iter().map(|s| s.id).collect();
    assert_eq!(ids, vec![1, 3, 4]);
}

#[test]
fn name_filter_is_substring_and_ignores_case() {
    let mut db = Db::new();
    strain(&mut db, "Gaylord OG", Species::Indica);
    strain(&mut db, "Wedding Cake", Species::Hybrid);
    for q in ["og", "OG", "Og"] {
        let res = Strain::filter(&db, StrainField::Name(q)).unwrap();
        assert_eq!(res.len(), 1);
        assert_eq!(res[0].name, "Gaylord OG");
    }
    let cake = Strain::filter(&db, StrainField::Name("wedding cake")).unwrap();
    assert_eq!(cake[0].name, "Wedding Cake");
    let every = Strain::filter(&db, StrainField::Name("")).unwrap();
    assert_eq!(every.len(), 2);
}

#[test]
fn batch_name_filters_match_substrings() {
    let db = seeded();
    assert_eq!(Batch::filter(&db, BatchField::Strain("water")).unwrap().len(), 1);
    assert_eq!(Batch::filter(&db, BatchField::Grower("SUM")).unwrap().len(), 1);
    assert!(Batch::filter(&db, BatchField::Grower("Tegridy")).unwrap().is_empty());
}

#[test]
fn joined_view_resolves_names() {
    let mut db = Db::new();
    grower(&mut db, "One");
    grower(&mut db, "Two");
    grower(&mut db, "Summa");
    strain(&mut db, "A", Species::Sativa);
    strain(&mut db, "B", Species::Hybrid);
    strain(&mut db, "Blackwater OG", Species::Indica);
    NewBatch::builder()
        .strain_id(3)
        .grower_id(3)
        .thc_content(f4(22.9))
        .cbd_content(f4(0.2))
        .build()
        .create(&mut db)
        .unwrap();
    let all = Batch::all(&db).unwrap();
    assert_eq!(all.len(), 1);
    assert_eq!(all[0].strain, "Blackwater OG");
    assert_eq!(all[0].grower, "Summa");
    assert_eq!(f32::from_bits(all[0].thc_content.bits), 22.9);
    assert_eq!(f32::from_bits(all[0].cbd_content.bits), 0.2);
    assert_eq!(all[0].harvest_date, None);
}

#[test]
fn unmatched_filters_return_empty() {
    let db = seeded();
    assert_eq!(Grower::filter(&db, GrowerField::Id(99)), Ok(vec![]));
    assert_eq!(Grower::filter(&db, GrowerField::Name("nobody")), Ok(vec![]));
    assert_eq!(Strain::filter(&db, StrainField::Species(Species::Sativa)), Ok(vec![]));
    assert_eq!(Batch::filter(&db, BatchField::StrainID(1)), Ok(vec![]));
    assert_eq!(Batch::filter(&db, BatchField::THCContent(f4(1.0))), Ok(vec![]));
    let empty = Db::new();
    assert_eq!(Batch::all(&empty), Ok(vec![]));
    assert_eq!(Strain::filter(&empty, StrainField::Id(1)), Ok(vec![]));
}

#[test]
fn tegridy_farms_scenario() {
    let mut db = Db::new();
    let g = NewGrower { name: "Tegridy Farms".to_string() }.create(&mut db).unwrap();
    assert_eq!(g.name, "Tegridy Farms");
    let res = Grower::filter(&db, GrowerField::Name("tegridy farms")).unwrap();
    assert_eq!(res, vec![g]);
}

#[test]
fn date_and_content_filters() {
    let mut db = seeded();
    let harvest = Date { days_from_ce: 737_500 };
    let tested = Date { days_from_ce: 737_520 };
    NewBatch::builder()
        .strain_id(2)
        .grower_id(2)
        .harvest_date(Some(harvest))
        .final_test_date(Some(tested))
        .package_date(Some(tested))
        .thc_content(f4(0.0))
        .cbd_content(f4(15.5))
        .build()
        .create(&mut db)
        .unwrap();
    let h = Batch::filter(&db, BatchField::HarvestDate(harvest)).unwrap();
    assert_eq!(h.len(), 1);
    assert_eq!(h[0].strain, "Wedding Cake");
    assert_eq!(Batch::filter(&db, BatchField::FinalTestDate(tested)).unwrap().len(), 1);
    assert_eq!(Batch::filter(&db, BatchField::PackageDate(tested)).unwrap().len(), 1);
    assert!(Batch::filter(&db, BatchField::PackageDate(harvest)).unwrap().is_empty());
    assert_eq!(Batch::filter(&db, BatchField::CBDContent(f4(15.5))).unwrap().len(), 1);
    // -0.0 equals 0.0 as a number.
    assert_eq!(Batch::filter(&db, BatchField::THCContent(f4(-0.0))).unwrap().len(), 1);
    assert_eq!(Batch::filter(&db, BatchField::THCContent(f4(22.9))).unwrap()[0].grower, "Summa");
    assert!(Batch::filter(&db, BatchField::THCContent(f4(f32::NAN))).unwrap().is_empty());
}

#[test]
fn missing_references_are_refused() {
    let mut db = seeded();
    let before = Batch::all(&db).unwrap().len();
    let orphan = NewBatch::builder().strain_id(42).grower_id(1).build().create(&mut db);
    assert_eq!(orphan, Err(DbError::ForeignKeyViolation));
    let orphan = NewBatch::builder().strain_id(1).grower_id(42).build().create(&mut db);
    assert_eq!(orphan, Err(DbError::ForeignKeyViolation));
    assert_eq!(Batch::all(&db).unwrap().len(), before);
    let profile = NewTerpenes::builder().batch_id(9).build().create(&mut db);
    assert_eq!(profile, Err(DbError::ForeignKeyViolation));
}

#[test]
fn referenced_rows_cannot_be_deleted() {
    let mut db = seeded();
    let summa = Grower { id: 3, name: "Summa".to_string() };
    assert_eq!(summa.delete(&mut db), Err(DbError::ForeignKeyViolation));
    let strain = Strain::filter(&db, StrainField::Id(3)).unwrap().remove(0);
    assert_eq!(strain.delete(&mut db), Err(DbError::ForeignKeyViolation));
    assert_eq!(Grower::all(&db).unwrap().len(), 3);
    let profile = NewTerpenes::builder().batch_id(1).pinene(Some(f4(0.3))).build();
    let stored = profile.create(&mut db).unwrap();
    assert_eq!(stored.id, 1);
    assert_eq!(stored.batch_id, 1);
    assert_eq!(stored.pinene, Some(f4(0.3)));
    let batch = Batch {
        id: 1,
        strain_id: 3,
        harvest_date: None,
        final_test_date: None,
        package_date: None,
        grower_id: 3,
        thc_content: f4(22.9),
        cbd_content: f4(0.2),
    };
    assert_eq!(batch.delete(&mut db), Err(DbError::ForeignKeyViolation));
}

#[test]
fn unknown_rows_are_not_found() {
    let mut db = seeded();
    let ghost = Strain { id: 77, name: "Nowhere".to_string(), species: Species::Sativa };
    assert_eq!(ghost.delete(&mut db), Err(DbError::NotFound));
    let ghost = Grower { id: 0, name: String::new() };
    assert_eq!(ghost.delete(&mut db), Err(DbError::NotFound));
}
