use remote_files::config::{reject_empty_string, reject_empty_url, reject_empty_url_dir, Bucket, BucketVariant, GCSConfig, GcsStorageClass, S3Config, S3StorageClass, Secret};
use remote_files::profiles::{add_profile, get_profile, profile_infos, remove_profile, set_current_profile, CliState, Configuration, ProfileError};
use remote_files::url_path::{UrlDirPath, UrlPath};

fn gcs(name: &str) -> Bucket {
    Bucket::Gcs(GCSConfig {
        name: name.to_string(),
        credential: None,
        credential_path: None,
        default_storage_class: None,
        endpoint: None,
        prefix: None,
        predefined_acl: None,
    })
}

fn bucket_name(b: &Bucket) -> String {
    match b {
        Bucket::Gcs(c) => c.name.clone(),
        Bucket::S3(c) => c.name.clone(),
    }
}

#[test]
fn secret_is_redacted_but_readable() {
    let s = Secret::from_string("SECRET-REDACTED".to_string());
    assert_eq!(s.to_string(), "[REDACTED]");
    assert_eq!(s.read(), "SECRET-REDACTED");
    assert!(s == Secret::from_string("SECRET-REDACTED".to_string()));
}

#[test]
fn storage_classes_round_trip_by_name() {
    for c in GcsStorageClass::variants() {
        assert_eq!(GcsStorageClass::from_name(c.as_str()), Ok(c));
    }
    for c in S3StorageClass::variants() {
        assert_eq!(S3StorageClass::from_name(c.as_str()), Ok(c));
    }
    assert_eq!(GcsStorageClass::variants().len(), 4);
    assert_eq!(S3StorageClass::variants().len(), 9);
    assert_eq!(GcsStorageClass::COLDLINE.as_str(), "COLDLINE");
    assert_eq!(S3StorageClass::GLACIER_IR.as_str(), "GLACIER_IR");
}

#[test]
fn unknown_storage_class_is_rejected() {
    assert_eq!(
        GcsStorageClass::from_name("coldline"),
        Err("unknown variant coldline".to_string())
    );
    assert_eq!(
        S3StorageClass::from_name("GLACIER_X"),
        Err("unknown variant GLACIER_X".to_string())
    );
    assert_eq!(BucketVariant::from_name("azure"), Err("unknown variant azure".to_string()));
    assert_eq!(BucketVariant::from_name("s3"), Ok(BucketVariant::s3));
    assert_eq!(
        BucketVariant::variants(),
        vec![BucketVariant::gcs, BucketVariant::s3]
    );
}

#[test]
fn gcs_backend_settings() {
    let cfg = GCSConfig {
        name: "my-bucket".to_string(),
        credential: Some(Secret::from_string("c".to_string())),
        credential_path: Some("/path/to/file".to_string()),
        default_storage_class: Some(GcsStorageClass::COLDLINE),
        endpoint: Some(UrlPath::parse("/api/v1/").unwrap()),
        prefix: Some(UrlDirPath::parse("a-prefix").unwrap()),
        predefined_acl: None,
    };
    let s = cfg.backend_settings();
    assert_eq!(s.variant, BucketVariant::gcs);
    assert_eq!(s.bucket, "my-bucket");
    assert_eq!(s.credential.as_deref(), Some("c"));
    assert_eq!(s.credential_path.as_deref(), Some("/path/to/file"));
    assert_eq!(s.default_storage_class.as_deref(), Some("COLDLINE"));
    assert_eq!(s.endpoint.as_deref(), Some("api/v1"));
    assert_eq!(s.root.as_deref(), Some("/a-prefix/"));
    assert_eq!(s.predefined_acl, None);
    assert_eq!(s.region, None);
}

#[test]
fn s3_backend_settings() {
    let cfg = S3Config {
        name: "b".to_string(),
        endpoint: None,
        prefix: None,
        region: Some("eu-west-1".to_string()),
        access_key_id: Some(Secret::from_string("id".to_string())),
        secret_access_key: Some(Secret::from_string("key".to_string())),
        default_storage_class: Some(S3StorageClass::STANDARD_IA),
    };
    let s = cfg.backend_settings();
    assert_eq!(s.variant, BucketVariant::s3);
    assert_eq!(Bucket::S3(cfg.clone()).variant(), BucketVariant::s3);
    assert_eq!(s.region.as_deref(), Some("eu-west-1"));
    assert_eq!(s.access_key_id.as_deref(), Some("id"));
    assert_eq!(s.secret_access_key.as_deref(), Some("key"));
    assert_eq!(s.default_storage_class.as_deref(), Some("STANDARD_IA"));
    assert_eq!(s.root, None);
    assert_eq!(s.credential, None);
}

#[test]
fn reject_empty_values() {
    assert_eq!(reject_empty_string("  \t ".to_string()), None);
    assert_eq!(reject_empty_string(String::new()), None);
    assert_eq!(reject_empty_string(" x ".to_string()), Some(" x ".to_string()));
    assert!(reject_empty_url(UrlPath::parse("/").unwrap()).is_none());
    assert!(reject_empty_url(UrlPath::parse("/a").unwrap()).is_some());
    assert!(reject_empty_url_dir(UrlDirPath::parse("").unwrap()).is_none());
    assert!(reject_empty_url_dir(UrlDirPath::parse("d").unwrap()).is_some());
}

#[test]
fn configuration_insert_get_remove() {
    let mut cfg = Configuration::new();
    assert!(cfg.is_empty());
    assert!(cfg.insert("gcs".to_string(), gcs("one")).is_none());
    assert!(cfg.insert("other".to_string(), gcs("two")).is_none());
    assert!(cfg.contains_key("gcs"));
    let replaced = cfg.insert("gcs".to_string(), gcs("three")).unwrap();
    assert_eq!(bucket_name(&replaced), "one");
    assert_eq!(bucket_name(cfg.get("gcs").unwrap()), "three");
    let mut names = cfg.names();
    names.sort();
    assert_eq!(names, vec!["gcs".to_string(), "other".to_string()]);
    assert_eq!(bucket_name(&cfg.remove("gcs").unwrap()), "three");
    assert!(cfg.remove("gcs").is_none());
    assert!(!cfg.contains_key("gcs"));
    assert_eq!(cfg.names(), vec!["other".to_string()]);
}

#[test]
fn configuration_schema_tag() {
    let mut cfg = Configuration::new();
    assert_eq!(cfg.schema(), None);
    cfg.set_schema(Some("./schema.json".to_string()));
    assert_eq!(cfg.schema().as_deref(), Some("./schema.json"));
}

#[test]
fn profile_is_chosen_explicitly_or_from_state() {
    let mut cfg = Configuration::new();
    cfg.insert("gcs".to_string(), gcs("b"));
    assert_eq!(get_profile(Some("gcs"), Some("x"), &cfg), Ok("gcs".to_string()));
    assert_eq!(get_profile(None, Some("gcs"), &cfg), Ok("gcs".to_string()));
    assert_eq!(
        get_profile(Some("x"), Some("gcs"), &cfg),
        Err(ProfileError::NotFound("x".to_string()))
    );
    assert_eq!(get_profile(None, None, &cfg), Err(ProfileError::NoProfileSelected));
}

#[test]
fn adding_an_existing_profile_is_refused() {
    let mut cfg = Configuration::new();
    let mut state = CliState::default();
    assert_eq!(
        add_profile(&mut cfg, &mut state, "p".to_string(), gcs("b"), true),
        Ok(())
    );
    assert_eq!(state.current.as_deref(), Some("p"));
    assert_eq!(
        add_profile(&mut cfg, &mut state, "p".to_string(), gcs("c"), false),
        Err(ProfileError::AlreadySet("p".to_string()))
    );
    assert_eq!(bucket_name(cfg.get("p").unwrap()), "b");
    assert_eq!(
        add_profile(&mut cfg, &mut state, "q".to_string(), gcs("c"), false),
        Ok(())
    );
    assert_eq!(state.current.as_deref(), Some("p"));
}

#[test]
fn setting_and_removing_profiles() {
    let mut cfg = Configuration::new();
    let mut state = CliState::default();
    cfg.insert("a".to_string(), gcs("x"));
    assert_eq!(
        set_current_profile(&cfg, &mut state, "b".to_string()),
        Err(ProfileError::NotFound("b".to_string()))
    );
    assert_eq!(state.current, None);
    assert_eq!(set_current_profile(&cfg, &mut state, "a".to_string()), Ok(()));
    assert_eq!(state.current.as_deref(), Some("a"));
    assert!(matches!(remove_profile(&mut cfg, "b"), Err(ProfileError::NotFound(n)) if n == "b"));
    assert_eq!(bucket_name(&remove_profile(&mut cfg, "a").unwrap()), "x");
    assert!(cfg.is_empty());
}

#[test]
fn profile_list_marks_the_current_one() {
    let mut cfg = Configuration::new();
    cfg.insert("a".to_string(), gcs("x"));
    cfg.insert("b".to_string(), gcs("y"));
    let state = CliState { current: Some("b".to_string()) };
    let mut infos = profile_infos(&cfg, &state);
    infos.sort_by(|l, r| l.name.cmp(&r.name));
    assert_eq!(infos.len(), 2);
    assert_eq!((infos[0].name.as_str(), infos[0].current), ("a", false));
    assert_eq!((infos[1].name.as_str(), infos[1].current), ("b", true));
}
