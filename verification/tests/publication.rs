use app_core::publication::{select_supported_manifests, supports_all, ManifestCandidate, SupportedContracts};
use app_core::bundle_map::{BundleManifest, BundleManifestMap, BundlePackageArtifact};
use app_core::publication::{
    nav_db_artifact_candidates_from_installed_artifacts, CoreResourcePolicy, CoreResourceSource,
    CurrentArtifactsArtifactRoots, CurrentArtifactsBundleRef, CurrentArtifactsManifest,
    FetchedPublication, InstalledArtifact, OfflinePackagesLibraryCache, PublicationOutcome,
    PublicationResolver,
};

fn current_artifacts() -> CurrentArtifactsManifest {
    CurrentArtifactsManifest {
        artifact_roots: CurrentArtifactsArtifactRoots {
            packaged: "published_packaged".to_string(),
            unpacked: "published_unpacked".to_string(),
        },
        as_of_utc: None,
        bundles: vec![CurrentArtifactsBundleRef {
            filename: "bundle_cycle.json".to_string(),
            relative_path: "bundles/bundle_cycle.json".to_string(),
        }],
    }
}

fn package(id: &str, family_id: &str, filename: &str) -> BundlePackageArtifact {
    BundlePackageArtifact {
        id: id.to_string(),
        family_id: family_id.to_string(),
        contract_id: format!("{family_id}-contract"),
        contract_supported: true,
        filename: filename.to_string(),
        relative_path: filename.to_string(),
        cycle: None,
        cycle_version: None,
        effective_date: None,
        expiration_date: None,
        warning_text: None,
    }
}

fn bundle() -> BundleManifest {
    BundleManifest { packages: vec![package("nav-db", "nav-db", "nav_db_hash.zip")] }
}

fn resolver_with_bundle(policy: CoreResourcePolicy) -> PublicationResolver {
    let mut resolver = PublicationResolver::with_resource_policy("/packages", policy);
    resolver.ingest_current_artifacts_manifests(vec![current_artifacts()], None);
    resolver.ingest_bundle_manifest("bundle_cycle.json".to_string(), bundle());
    resolver
}

#[test]
fn resolver_requests_current_artifacts_first() {
    let resolver = PublicationResolver::new("/packages");
    let outcome = resolver
        .resolve_family_resource("nav-db", "root")
        .expect("resolve outcome");
    let PublicationOutcome::NeedResources { resources } = outcome else {
        panic!("expected resource request");
    };
    assert_eq!(resources.len(), 1);
    assert_eq!(resources[0].id, "publication/current_artifacts");
    assert_eq!(
        resources[0].source,
        CoreResourceSource::PublicUrl {
            url: "/packages/current_artifacts.json".to_string(),
        }
    );
}

#[test]
fn resolver_requests_bundle_from_current_artifacts_packaged_root() {
    let mut resolver = PublicationResolver::new("/packages");
    resolver.ingest_current_artifacts_manifests(vec![current_artifacts()], None);
    let outcome = resolver
        .resolve_family_resource("nav-db", "root")
        .expect("resolve outcome");
    let PublicationOutcome::NeedResources { resources } = outcome else {
        panic!("expected resource request");
    };
    assert_eq!(resources[0].id, "publication/bundle/bundle_cycle.json");
    assert_eq!(
        resources[0].source,
        CoreResourceSource::PublicUrl {
            url: "/packages/published_packaged/bundles/bundle_cycle.json".to_string(),
        }
    );
}

#[test]
fn refreshed_current_artifacts_forgets_withdrawn_bundle_manifests() {
    let mut resolver = resolver_with_bundle(CoreResourcePolicy::PublicUnpacked);
    assert_eq!(resolver.loaded_bundle_manifest_count(), 1);

    let mut refreshed = current_artifacts();
    refreshed.bundles.clear();
    resolver.ingest_current_artifacts_manifests(vec![refreshed], None);

    assert_eq!(resolver.loaded_bundle_manifest_count(), 0);
    assert!(resolver.loaded_bundle_packages().is_empty());
}

#[test]
fn resolver_resolves_package_resource_from_active_bundle() {
    let resolver = resolver_with_bundle(CoreResourcePolicy::PublicUnpacked);
    let outcome = resolver
        .resolve_family_resource("nav-db", "page_0007")
        .expect("resolve outcome");
    let PublicationOutcome::Complete { resolved } = outcome else {
        panic!("expected complete result");
    };
    assert_eq!(
        resolved.source,
        CoreResourceSource::PublicUrl {
            url: "/packages/published_unpacked/nav_db_hash/page_0007".to_string(),
        }
    );
}

#[test]
fn resolver_exposes_direct_package_member_public_url() {
    let resolver = resolver_with_bundle(CoreResourcePolicy::PublicUnpacked);
    assert_eq!(
        resolver.package_member_public_url("nav-db", "page_0007").unwrap(),
        "/packages/published_unpacked/nav_db_hash/page_0007"
    );
}

#[test]
fn resolver_produces_opaque_fetchable_request_for_package_member() {
    let resolver = resolver_with_bundle(CoreResourcePolicy::PublicUnpacked);
    let resources = resolver
        .family_resource_requests("nav/root", "nav-db", "root", false)
        .unwrap();
    assert_eq!(resources.len(), 1);
    assert_eq!(resources[0].id, "nav/root");
    assert_eq!(
        resources[0].source,
        CoreResourceSource::PublicUrl {
            url: "/packages/published_unpacked/nav_db_hash/root".to_string(),
        }
    );
}

#[test]
fn resolver_produces_installed_package_request_when_policy_requires_packages() {
    let resolver = resolver_with_bundle(CoreResourcePolicy::InstalledPackage);
    let resources = resolver
        .family_resource_requests("nav/root", "nav-db", "root", false)
        .unwrap();
    assert_eq!(
        resources[0].source,
        CoreResourceSource::PackageMember {
            package_id: "nav-db".to_string(),
            filename: "nav_db_hash.zip".to_string(),
            member_path: "root".to_string(),
        }
    );
}

#[test]
fn installed_artifact_nav_db_candidates_are_core_derived_from_cached_catalog() {
    let mut nav_db = package("nav-db-2606", "nav-db", "nav_db_2606.zip");
    nav_db.cycle = Some("2606".to_string());
    nav_db.cycle_version = Some("01".to_string());
    nav_db.effective_date = Some("2026-05-14".to_string());
    nav_db.expiration_date = Some("2026-06-11".to_string());
    let mut sec = package("sec-nw-2606", "sec", "sec_nw_2606.zip");
    sec.cycle = Some("2606".to_string());
    let mut bundles = BundleManifestMap::new();
    bundles.insert("bundle_cycle.json".to_string(), BundleManifest { packages: vec![nav_db, sec] });
    let cache = OfflinePackagesLibraryCache {
        package_source_base_url: "/packages".to_string(),
        fetched_at_epoch_ms: 1_768_000_000_000,
        discovery_manifests: vec![current_artifacts()],
        bundle_manifests_by_filename: bundles,
    };
    let installed = vec![
        InstalledArtifact {
            artifact_id: "WHATEVER_ANDROID_CALLED_IT".to_string(),
            filename: "sec_nw_2606.zip".to_string(),
        },
        InstalledArtifact {
            artifact_id: "NOT_INTERPRETED_BY_ANDROID".to_string(),
            filename: "nav_db_2606.zip".to_string(),
        },
    ];

    let candidates =
        nav_db_artifact_candidates_from_installed_artifacts(&installed, Some(&cache))
            .expect("candidates");
    assert_eq!(candidates.len(), 1);
    assert_eq!(candidates[0].package_id, "nav-db-2606");
    assert_eq!(candidates[0].cycle.as_deref(), Some("2606"));
    assert_eq!(
        candidates[0].root_source,
        Some(CoreResourceSource::InstalledArtifactMember {
            filename: "nav_db_2606.zip".to_string(),
            member_path: "root".to_string(),
        })
    );
}

#[test]
fn unsupported_contracts_are_not_nav_db_candidates() {
    let mut unsupported = package("nav-db-old", "nav-db", "nav_db_old.zip");
    unsupported.contract_supported = false;
    let mut resolver = PublicationResolver::new("/packages");
    resolver.ingest_current_artifacts_manifests(vec![current_artifacts()], Some(5));
    resolver.ingest_bundle_manifest(
        "bundle_cycle.json".to_string(),
        BundleManifest { packages: vec![unsupported, package("nav-db", "nav-db", "nav_db_hash.zip")] },
    );
    assert_eq!(resolver.current_artifacts_checked_epoch_ms(), Some(5));
    let candidates = resolver.nav_db_artifact_candidates().unwrap().unwrap();
    assert_eq!(candidates.len(), 1);
    assert_eq!(candidates[0].package_id, "nav-db");
}

#[test]
fn refresh_requires_the_public_policy() {
    let resolver = PublicationResolver::with_resource_policy("/packages/", CoreResourcePolicy::InstalledPackage);
    assert_eq!(
        resolver.current_artifacts_refresh_request().unwrap_err(),
        "publication refresh requires public_unpacked resource policy"
    );
    let resolver = PublicationResolver::new("/packages/");
    let request = resolver.current_artifacts_refresh_request().unwrap();
    assert_eq!(
        request.source,
        CoreResourceSource::PublicUrl { url: "/packages/current_artifacts.json".to_string() }
    );
}

#[test]
fn fetched_resources_must_be_utf8_and_named() {
    let err = app_core::publication::read_publication_resource("publication/current_artifacts", &[0xff])
        .unwrap_err();
    assert_eq!(
        err,
        "publication resource publication/current_artifacts is not utf-8: invalid utf-8 sequence of 1 bytes from index 0"
    );
    let err = app_core::publication::read_publication_resource("nav/root", b"{}").unwrap_err();
    assert_eq!(err, "unsupported publication resource id: nav/root");
    let (resource, payload) =
        app_core::publication::read_publication_resource("publication/bundle/b.json", b"{}").unwrap();
    assert_eq!(
        resource,
        app_core::publication::PublicationResource::Bundle { filename: "b.json".to_string() }
    );
    assert_eq!(payload, "{}");
}

#[test]
fn fetched_resources_are_taken_in_by_kind() {
    let mut resolver = PublicationResolver::new("/packages");
    resolver.ingest_resource_at_epoch_ms(
        FetchedPublication::CurrentArtifacts { manifests: vec![current_artifacts()] },
        42,
    );
    assert_eq!(resolver.current_artifacts_checked_epoch_ms(), Some(42));
    assert_eq!(resolver.loaded_bundle_manifest_count(), 0);
    resolver.ingest_resource(FetchedPublication::Bundle {
        filename: "bundle_cycle.json".to_string(),
        manifest: bundle(),
    });
    assert_eq!(resolver.loaded_bundle_manifest_count(), 1);
    assert_eq!(resolver.current_artifacts_checked_epoch_ms(), Some(42));

    resolver.ingest_resource(FetchedPublication::CurrentArtifacts { manifests: Vec::new() });
    assert!(resolver.current_artifacts().is_none());
    assert_eq!(resolver.current_artifacts_checked_epoch_ms(), None);
    assert_eq!(resolver.loaded_bundle_manifest_count(), 0);
}

#[test]
fn only_publications_whose_contracts_are_all_supported_are_selected() {
    let supported = SupportedContracts {
        contract_ids: vec!["nav-db/v2".to_string(), "charts/v1".to_string()],
    };
    assert!(supported.supports("charts/v1"));
    assert!(!supported.supports("charts/v2"));
    assert!(supports_all(&supported, &vec![]));
    let mut second = current_artifacts();
    second.as_of_utc = Some("2026-01-02".to_string());
    let candidates = vec![
        ManifestCandidate { contract_ids: vec!["nav-db/v3".to_string()], manifest: current_artifacts() },
        ManifestCandidate {
            contract_ids: vec!["nav-db/v2".to_string(), "charts/v1".to_string()],
            manifest: second.clone(),
        },
        ManifestCandidate { contract_ids: vec![], manifest: current_artifacts() },
    ];
    let selected = select_supported_manifests(&supported, &candidates);
    assert_eq!(selected, vec![second, current_artifacts()]);
    let none = SupportedContracts { contract_ids: vec![] };
    assert_eq!(select_supported_manifests(&none, &candidates).len(), 1);
}
