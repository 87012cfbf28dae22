use agent_k_backend::mounts::{may_start_sync, mirror_still_referenced};
use agent_k_backend::mounts::{
    gmail_config_of, normalize_prefix, parse_provider_kind, provider_kind, require_mount_in,
    ExchangedToken, GoogleService, MountSyncResponse, NotionConfig, PrefixError, ProviderConfig,
    ProviderInfo, ProviderKind, ProviderSpec, Resolution, SyncProgress,
};

#[test]
fn prefixes_are_single_absolute_segments() {
    assert_eq!(normalize_prefix(" /s3-prod/ ").unwrap(), "/s3-prod");
    assert_eq!(normalize_prefix("notion").unwrap(), "/notion");
    assert_eq!(normalize_prefix("/a/b"), Err(PrefixError::NotSingleSegment));
    assert_eq!(normalize_prefix("//"), Err(PrefixError::NotSingleSegment));
    assert_eq!(normalize_prefix("files"), Err(PrefixError::Reserved));
    assert_eq!(normalize_prefix("/files/"), Err(PrefixError::Reserved));
}

#[test]
fn s3_defaults_its_region_and_info_hides_secrets() {
    let spec = ProviderSpec::S3 {
        bucket: "b".into(),
        region: None,
        access_key_id: "AK".into(),
        secret_access_key: "SK".into(),
        endpoint: None,
        key_prefix: Some("p/".into()),
    };
    let cfg = match spec.plan(None, None) {
        Ok(Resolution::Ready(c)) => c,
        _ => panic!("s3 resolves directly"),
    };
    assert_eq!(provider_kind(&cfg), "s3");
    match ProviderInfo::from(&cfg) {
        ProviderInfo::S3 { bucket, region, endpoint, key_prefix } => {
            assert_eq!((bucket.as_str(), region.as_str()), ("b", "us-east-1"));
            assert_eq!((endpoint, key_prefix.as_deref()), (None, Some("p/")));
        }
        _ => panic!("s3 info"),
    }
    let notion = ProviderConfig::Notion(NotionConfig { api_key: "secret".into() });
    assert!(matches!(ProviderInfo::from(&notion), ProviderInfo::Notion {}));
}

#[test]
fn google_mounts_need_the_server_client_and_an_exchange() {
    let spec = ProviderSpec::Gmail { code: "c".into(), redirect_uri: "r".into(), index_cap: Some(50) };
    let e = spec.plan(None, None).err().unwrap();
    assert_eq!(e.status, 400);
    assert!(e.message.starts_with("Gmail is not configured"));
    let spec = ProviderSpec::Gmail { code: "c".into(), redirect_uri: "r".into(), index_cap: Some(50) };
    let x = match spec.plan(Some(("id".into(), "sec".into())), Some("http://mock".into())) {
        Ok(Resolution::Exchange(x)) => x,
        _ => panic!("gmail needs an exchange"),
    };
    assert_eq!(x.service, GoogleService::Gmail);
    assert_eq!((x.code.as_str(), x.base_url.as_deref(), x.index_cap), ("c", Some("http://mock"), Some(50)));
    let cfg = x
        .complete(Ok(ExchangedToken { refresh_token: "rt".into(), account_email: "a@b.c".into() }))
        .ok()
        .unwrap();
    match &cfg {
        ProviderConfig::Gmail(g) => {
            assert_eq!((g.refresh_token.as_str(), g.account_email.as_str()), ("rt", "a@b.c"));
            assert_eq!(g.index_cap, Some(50));
        }
        _ => panic!("gmail config"),
    }
    match ProviderInfo::from(&cfg) {
        ProviderInfo::Gmail { email } => assert_eq!(email, "a@b.c"),
        _ => panic!("gmail info"),
    }
    let spec = ProviderSpec::Gdrive { code: "c".into(), redirect_uri: "r".into() };
    let x = match spec.plan(Some(("id".into(), "sec".into())), None) {
        Ok(Resolution::Exchange(x)) => x,
        _ => panic!("drive needs an exchange"),
    };
    let e = x.complete(Err("bad code".into())).err().unwrap();
    assert_eq!((e.status, e.message.as_str()), (400, "gdrive oauth: bad code"));
}

#[test]
fn mount_route_checks() {
    assert!(require_mount_in(Some(1), 1).is_ok());
    assert_eq!(require_mount_in(Some(2), 1).err().unwrap().status, 404);
    assert_eq!(require_mount_in(None, 1).err().unwrap().message, "mount not found");
    let notion = ProviderConfig::Notion(NotionConfig { api_key: "k".into() });
    assert_eq!(gmail_config_of(notion).err().unwrap().status, 400);
    assert_eq!(parse_provider_kind("gdrive"), Some(ProviderKind::Gdrive));
    assert_eq!(parse_provider_kind("ftp"), None);
    let none = MountSyncResponse::of(None, true, false);
    assert_eq!((none.total, none.fetched, none.completed, none.running), (0, 0, false, true));
    let some = MountSyncResponse::of(Some(SyncProgress { total: 9, fetched: 4, completed: false }), false, true);
    assert_eq!((some.total, some.fetched, some.started), (9, 4, true));
}

#[test]
fn mirror_sync_single_flight_and_gc() {
    assert!(may_start_sync(None));
    assert!(may_start_sync(Some(false)));
    assert!(!may_start_sync(Some(true)));
    let dirs = vec!["/m/gmail/a@x".to_string(), "/m/gmail/b@x".to_string()];
    assert!(mirror_still_referenced("/m/gmail/b@x", &dirs));
    assert!(!mirror_still_referenced("/m/gmail/c@x", &dirs));
}

#[test]
fn a_google_mount_stores_its_own_half_and_none_of_the_deployments_client() {
    for service in [GoogleService::Gmail, GoogleService::Gdrive] {
        let spec = match service {
            GoogleService::Gmail => ProviderSpec::Gmail { code: "c".into(), redirect_uri: "r".into(), index_cap: None },
            GoogleService::Gdrive => ProviderSpec::Gdrive { code: "c".into(), redirect_uri: "r".into() },
        };
        let x = match spec.plan(
            Some(("deployment-client".into(), "deployment-secret".into())),
            Some("deployment-origin".into()),
        ) {
            Ok(Resolution::Exchange(x)) => x,
            _ => panic!("google mounts need an exchange"),
        };
        let cfg = x
            .complete(Ok(ExchangedToken { refresh_token: "rt".into(), account_email: "a@b.c".into() }))
            .ok()
            .unwrap();
        match cfg {
            ProviderConfig::Gmail(g) => {
                assert_eq!((g.refresh_token.as_str(), g.account_email.as_str(), g.index_cap), ("rt", "a@b.c", None));
            }
            ProviderConfig::Gdrive(g) => {
                assert_eq!((g.refresh_token.as_str(), g.account_email.as_str()), ("rt", "a@b.c"));
            }
            _ => panic!("google config"),
        }
    }
}
