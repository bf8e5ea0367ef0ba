use biome_svc::pkg_cli::{dependency_query, listing_type, signing_origin, DependencyRelation,
                         ListingType, Scope, SignError};

#[test]
fn listing_prefers_all_then_origin_then_ident() {
    assert_eq!(listing_type(true, Some("core".into()), None), ListingType::AllPackages);
    assert_eq!(listing_type(false, Some("core".into()), Some("core/redis".into())),
               ListingType::Origin("core".into()));
    assert_eq!(listing_type(false, None, Some("core/redis".into())),
               ListingType::Ident("core/redis".into()));
}

#[test]
fn dependency_flags_select_scope_and_relation() {
    assert_eq!(dependency_query(false, false), (Scope::Package, DependencyRelation::Requires));
    assert_eq!(dependency_query(true, true),
               (Scope::PackageAndDependencies, DependencyRelation::Supports));
}

#[test]
fn signing_origin_falls_back_to_configuration() {
    assert_eq!(signing_origin(Some("a".into()), Some("b".into())), Ok("a".to_string()));
    assert_eq!(signing_origin(None, Some("b".into())), Ok("b".to_string()));
    assert_eq!(signing_origin(None, None), Err(SignError::NoOriginSpecified));
}
