use component_runtime::fonts::{
    asset_error_kind, AssetCollection, ExperimentalError, FamilyOrAlias, FontError, FontService,
    GenericFontFamily, Typeface,
};

#[test]
fn assets_get_their_ids_in_turn() {
    let mut assets = AssetCollection::new();
    assert_eq!(assets.add_or_get_asset_id("/fonts/a.ttf"), Some(0));
    assert_eq!(assets.add_or_get_asset_id("/fonts/b.ttf"), Some(1));
    assert_eq!(assets.add_or_get_asset_id("/fonts/a.ttf"), Some(0));
    assert_eq!(assets.add_or_get_asset_id("/fonts/c.ttf"), Some(2));
    assert_eq!(assets.path_of(1).unwrap(), "/fonts/b.ttf");
    assert_eq!(assets.path_of(2).unwrap(), "/fonts/c.ttf");
    assert!(assets.path_of(3).is_none());
}

#[test]
fn a_service_needs_a_fallback_font_to_start() {
    let mut service = FontService::new();
    assert_eq!(service.check_can_start(), Err(FontError::NoFallbackFont));
    service.add_family("Roboto", None).unwrap();
    let plain = Typeface { asset_id: 0, font_index: 0 };
    service.add_typeface("Roboto", plain, false).unwrap();
    assert_eq!(service.check_can_start(), Err(FontError::NoFallbackFont));
    let bold = Typeface { asset_id: 0, font_index: 1 };
    service.add_typeface("roboto", bold, true).unwrap();
    assert_eq!(service.check_can_start(), Ok(()));
    assert_eq!(service.fallback_collection().faces, vec![bold]);
    assert_eq!(service.match_family("Roboto").unwrap().faces.faces, vec![plain, bold]);
}

#[test]
fn families_are_found_without_regard_to_case() {
    let mut service = FontService::new();
    service.add_family("Roboto", Some(GenericFontFamily::SansSerif)).unwrap();
    let family = service.match_family("ROBOTO").unwrap();
    assert_eq!(family.name, "Roboto");
    assert_eq!(family.generic_family, Some(GenericFontFamily::SansSerif));
    assert!(service.match_family("roboto").is_some());
    assert!(service.match_family("Roboto Slab").is_none());
    // A family that is held already is not taken in again.
    service.add_family("roboto", None).unwrap();
    assert_eq!(service.families().len(), 1);
    assert_eq!(service.match_family("roboto").unwrap().name, "Roboto");
}

#[test]
fn folding_goes_beyond_ascii() {
    let mut service = FontService::new();
    service.add_family("Straße", None).unwrap();
    assert!(service.match_family("STRASSE").is_some());
    assert_eq!(service.families()[0].key, "strasse");
}

#[test]
fn an_alias_leads_to_its_family() {
    let mut service = FontService::new();
    service.add_family("Material Icons", None).unwrap();
    service.add_alias("MaterialIcons", "material icons").unwrap();
    assert_eq!(service.match_family("materialicons").unwrap().name, "Material Icons");
    // The same alias for the same family again is fine.
    assert_eq!(service.add_alias("MATERIALICONS", "Material Icons"), Ok(()));
    assert_eq!(service.families().len(), 2);
    match &service.families()[1].value {
        FamilyOrAlias::Alias(target) => assert_eq!(target, "material icons"),
        FamilyOrAlias::Family(_) => panic!("the alias was taken in as a family"),
    }
}

#[test]
fn aliases_and_families_must_not_clash() {
    let mut service = FontService::new();
    service.add_family("Roboto", None).unwrap();
    service.add_family("Noto", None).unwrap();
    service.add_alias("Droid", "Roboto").unwrap();
    assert_eq!(service.add_alias("noto", "Roboto"), Err(FontError::AliasIsFamily));
    assert_eq!(service.add_alias("droid", "Noto"), Err(FontError::AliasOfOther));
    assert_eq!(service.add_alias("x", "Nowhere"), Err(FontError::NoSuchFamily));
    assert_eq!(service.add_alias("x", "Droid"), Err(FontError::NoSuchFamily));
    assert_eq!(service.add_family("DROID", None), Err(FontError::FamilyIsAlias));
    assert_eq!(service.families().len(), 3);
}

#[test]
fn the_fallback_is_tried_unless_the_family_is_insisted_on() {
    assert!(FontService::tries_fallback(false, false));
    assert!(!FontService::tries_fallback(false, true));
    assert!(!FontService::tries_fallback(true, false));
    assert!(!FontService::tries_fallback(true, true));
}

#[test]
fn the_fallback_family_comes_from_the_request_or_the_matched_family() {
    let mut service = FontService::new();
    service.add_family("Roboto", Some(GenericFontFamily::SansSerif)).unwrap();
    let family = service.match_family("roboto");
    assert_eq!(
        FontService::fallback_family(Some(GenericFontFamily::Serif), family),
        Some(GenericFontFamily::Serif)
    );
    assert_eq!(FontService::fallback_family(None, family), Some(GenericFontFamily::SansSerif));
    assert_eq!(FontService::fallback_family(None, None), None);
}

#[test]
fn a_missing_asset_is_told_apart_from_other_failures() {
    assert_eq!(asset_error_kind("No asset found with id 7"), ExperimentalError::NotFound);
    assert_eq!(asset_error_kind("Failed to load /fonts/a.ttf"), ExperimentalError::Internal);
    assert_eq!(asset_error_kind("no asset found"), ExperimentalError::Internal);
    assert_eq!(asset_error_kind(""), ExperimentalError::Internal);
}

#[test]
fn typefaces_are_added_to_families_not_to_aliases() {
    let mut service = FontService::new();
    service.add_family("Roboto", None).unwrap();
    service.add_family("Noto", None).unwrap();
    service.add_alias("Droid", "Roboto").unwrap();
    let face = Typeface { asset_id: 3, font_index: 0 };
    assert_eq!(service.add_typeface("Droid", face, true), Err(FontError::NoSuchFamily));
    assert_eq!(service.add_typeface("Arial", face, true), Err(FontError::NoSuchFamily));
    assert!(service.fallback_collection().is_empty());
    assert_eq!(service.add_typeface("NOTO", face, false), Ok(()));
    assert_eq!(service.match_family("noto").unwrap().faces.faces, vec![face]);
    assert!(service.match_family("droid").unwrap().faces.is_empty());
    assert_eq!(service.families().len(), 3);
}

#[test]
fn the_service_numbers_its_assets() {
    let mut service = FontService::new();
    assert_eq!(service.add_or_get_asset_id("/fonts/a.ttf"), Some(0));
    assert_eq!(service.add_or_get_asset_id("/fonts/b.ttf"), Some(1));
    assert_eq!(service.add_or_get_asset_id("/fonts/a.ttf"), Some(0));
    assert_eq!(service.assets().path_of(1).unwrap(), "/fonts/b.ttf");
}
