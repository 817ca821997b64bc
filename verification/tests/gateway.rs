use asset_gateway::config::AppConfig;
use asset_gateway::errors::{translate_fault, status_of, ErrorKind, StoreFault};
use asset_gateway::routes::assets::{
    AssetsApi, BatchAssetInfoRequest, GetAssetOutcome, InfoOutcome, ListOutcome, PutAssetOutcome,
    PutGate,
};
use asset_gateway::routes::images::ImagesApi;
use asset_gateway::routes::RootApi;
use asset_gateway::setup::get_object_storage;
use asset_gateway::store::{MemoryStore, StatData};

fn store_with(entries: &[(&str, &[u8])]) -> MemoryStore {
    let mut store = MemoryStore::new();
    for (name, content) in entries {
        store.put(&name.to_string(), content.to_vec());
    }
    store
}

fn add_asset_claims() -> Vec<String> {
    vec!["read".to_string(), "add asset".to_string()]
}

#[test]
fn translate_classifies_store_failures() {
    assert!(matches!(translate_fault(&StoreFault::Http(404)), ErrorKind::NotFound));
    assert!(matches!(translate_fault(&StoreFault::Http(500)), ErrorKind::Upstream));
    assert!(matches!(translate_fault(&StoreFault::Http(403)), ErrorKind::Upstream));
    assert!(matches!(translate_fault(&StoreFault::HttpNoStatus), ErrorKind::Internal));
    assert!(matches!(translate_fault(&StoreFault::Transport), ErrorKind::Internal));
}

#[test]
fn error_kinds_map_to_http_statuses() {
    assert_eq!(status_of(&ErrorKind::NotFound), 404);
    assert_eq!(status_of(&ErrorKind::Upstream), 500);
    assert_eq!(status_of(&ErrorKind::Internal), 500);
}

#[test]
fn put_then_get_round_trip() {
    let api = AssetsApi;
    let mut store = MemoryStore::new();
    let content = vec![7u8, 13, 255, 0, 42];
    let outcome = api.put_asset(
        &mut store,
        &add_asset_claims(),
        &Some("a.png".to_string()),
        content.clone(),
    );
    match outcome {
        PutAssetOutcome::Stored(path) => assert_eq!(path, "/assets/a.png"),
        _ => panic!("upload refused"),
    }
    match api.get_asset(&store, &"a.png".to_string()) {
        GetAssetOutcome::Content(bytes) => assert_eq!(bytes, content),
        _ => panic!("stored asset not served"),
    }
}

#[test]
fn put_overwrites_namesake_last_write_wins() {
    let api = AssetsApi;
    let mut store = MemoryStore::new();
    let claims = add_asset_claims();
    api.put_asset(&mut store, &claims, &Some("a.png".to_string()), vec![1, 2, 3]);
    api.put_asset(&mut store, &claims, &Some("a.png".to_string()), vec![9, 9]);
    match api.get_asset(&store, &"a.png".to_string()) {
        GetAssetOutcome::Content(bytes) => assert_eq!(bytes, vec![9, 9]),
        _ => panic!("overwritten asset not served"),
    }
    assert_eq!(store.list_names(), vec!["a.png".to_string()]);
}

#[test]
fn put_rejects_disallowed_type_without_store_call() {
    let api = AssetsApi;
    let mut store = MemoryStore::new();
    let outcome = api.put_asset(
        &mut store,
        &add_asset_claims(),
        &Some("a.exe".to_string()),
        vec![1, 2, 3],
    );
    assert!(matches!(outcome, PutAssetOutcome::UnsupportedMediaType));
    assert!(store.list_names().is_empty());
}

#[test]
fn put_without_capability_is_forbidden_without_store_call() {
    let api = AssetsApi;
    let mut store = MemoryStore::new();
    let claims = vec!["read".to_string()];
    let outcome = api.put_asset(&mut store, &claims, &Some("a.png".to_string()), vec![1]);
    assert!(matches!(outcome, PutAssetOutcome::Forbidden));
    assert!(store.list_names().is_empty());
}

#[test]
fn put_without_filename_is_bad_request() {
    let api = AssetsApi;
    let mut store = MemoryStore::new();
    let outcome = api.put_asset(&mut store, &add_asset_claims(), &None, vec![1]);
    assert!(matches!(outcome, PutAssetOutcome::BadRequest));
    assert!(store.list_names().is_empty());
}

#[test]
fn put_gate_order_forbidden_before_bad_request() {
    let api = AssetsApi;
    let gate = api.put_asset_gate(&vec!["read".to_string()], &None);
    assert!(matches!(gate, PutGate::Forbidden));
    let gate = api.put_asset_gate(&add_asset_claims(), &Some("a.exe".to_string()));
    assert!(matches!(gate, PutGate::UnsupportedMediaType));
    let gate = api.put_asset_gate(&add_asset_claims(), &Some("a.png".to_string()));
    assert!(matches!(gate, PutGate::Proceed));
}

#[test]
fn put_complete_reports_store_failure_as_internal() {
    let api = AssetsApi;
    let name = "a.png".to_string();
    match api.put_asset_complete(&name, Ok(())) {
        PutAssetOutcome::Stored(path) => assert_eq!(path, "/assets/a.png"),
        _ => panic!("success not reported"),
    }
    let failed = api.put_asset_complete(&name, Err(StoreFault::Transport));
    assert!(matches!(failed, PutAssetOutcome::Internal));
}

#[test]
fn get_of_unknown_name_is_not_found_never_internal() {
    let api = AssetsApi;
    let store = store_with(&[("a.png", &[1u8])]);
    let outcome = api.get_asset(&store, &"missing.png".to_string());
    assert!(matches!(outcome, GetAssetOutcome::NotFound));
    let outcome = api.get_asset_outcome(Err(StoreFault::Http(404)));
    assert!(matches!(outcome, GetAssetOutcome::NotFound));
}

#[test]
fn get_outcome_for_other_failures_is_internal() {
    let api = AssetsApi;
    assert!(matches!(api.get_asset_outcome(Err(StoreFault::Http(503))), GetAssetOutcome::Internal));
    assert!(matches!(api.get_asset_outcome(Err(StoreFault::HttpNoStatus)), GetAssetOutcome::Internal));
    assert!(matches!(api.get_asset_outcome(Err(StoreFault::Transport)), GetAssetOutcome::Internal));
}

#[test]
fn asset_info_reports_size_and_empty_timestamp() {
    let api = AssetsApi;
    let store = store_with(&[("a.png", &[1u8, 2, 3, 4])]);
    match api.get_asset_info(&store, &"a.png".to_string()) {
        InfoOutcome::Found(info) => {
            assert_eq!(info.name, "a.png");
            assert_eq!(info.size, 4);
            assert_eq!(info.last_modified, "");
        },
        _ => panic!("present asset not reported"),
    }
    let outcome = api.get_asset_info(&store, &"missing.png".to_string());
    assert!(matches!(outcome, InfoOutcome::NotFound));
}

#[test]
fn asset_info_outcome_carries_reported_timestamp() {
    let api = AssetsApi;
    let statted = Ok(StatData {
        object: "a.png".to_string(),
        size: 10,
        last_modified: Some("2024-05-01T12:00:00+00:00".to_string()),
    });
    match api.get_asset_info_outcome(statted) {
        InfoOutcome::Found(info) => {
            assert_eq!(info.last_modified, "2024-05-01T12:00:00+00:00");
        },
        _ => panic!("stat success not reported"),
    }
    let outcome = api.get_asset_info_outcome(Err(StoreFault::Http(404)));
    assert!(matches!(outcome, InfoOutcome::NotFound));
    let outcome = api.get_asset_info_outcome(Err(StoreFault::Transport));
    assert!(matches!(outcome, InfoOutcome::Internal));
}

#[test]
fn batch_info_drops_missing_names_keeps_order() {
    let api = AssetsApi;
    let store = store_with(&[("a.png", &[1u8, 2]), ("b.png", &[3u8])]);
    let request = BatchAssetInfoRequest {
        asset_names: vec![
            "a.png".to_string(),
            "missing.png".to_string(),
            "b.png".to_string(),
        ],
    };
    let response = api.get_batch_asset_info(&store, &request);
    assert_eq!(response.assets.len(), 2);
    assert_eq!(response.assets[0].name, "a.png");
    assert_eq!(response.assets[0].size, 2);
    assert_eq!(response.assets[1].name, "b.png");
    assert_eq!(response.assets[1].size, 1);
}

#[test]
fn batch_info_of_only_missing_names_is_empty() {
    let api = AssetsApi;
    let store = store_with(&[("a.png", &[1u8])]);
    let request = BatchAssetInfoRequest {
        asset_names: vec!["x.png".to_string(), "y.png".to_string()],
    };
    let response = api.get_batch_asset_info(&store, &request);
    assert!(response.assets.is_empty());
}

#[test]
fn batch_info_processes_duplicates_independently() {
    let api = AssetsApi;
    let store = store_with(&[("a.png", &[1u8])]);
    let request = BatchAssetInfoRequest {
        asset_names: vec!["a.png".to_string(), "a.png".to_string()],
    };
    let response = api.get_batch_asset_info(&store, &request);
    assert_eq!(response.assets.len(), 2);
}

#[test]
fn batch_outcome_aggregation_skips_failures() {
    let api = AssetsApi;
    let results = vec![
        Ok(StatData { object: "a.png".to_string(), size: 1, last_modified: None }),
        Err(StoreFault::Http(404)),
        Ok(StatData {
            object: "b.png".to_string(),
            size: 2,
            last_modified: Some("2024-01-01T00:00:00+00:00".to_string()),
        }),
        Err(StoreFault::Transport),
    ];
    let response = api.batch_asset_info(results);
    assert_eq!(response.assets.len(), 2);
    assert_eq!(response.assets[0].name, "a.png");
    assert_eq!(response.assets[0].last_modified, "");
    assert_eq!(response.assets[1].name, "b.png");
    assert_eq!(response.assets[1].last_modified, "2024-01-01T00:00:00+00:00");
}

#[test]
fn listing_drains_all_pages_with_trustworthy_count() {
    let api = AssetsApi;
    let pages: Vec<Result<Vec<String>, StoreFault>> = vec![
        Ok(vec!["a.png".to_string(), "b.png".to_string()]),
        Ok(vec![]),
        Ok(vec!["c.png".to_string()]),
    ];
    match api.list_assets(&pages) {
        ListOutcome::Listed(resp) => {
            assert_eq!(resp.assets, vec!["a.png", "b.png", "c.png"]);
            assert_eq!(resp.total_count, 3);
        },
        _ => panic!("complete listing refused"),
    }
}

#[test]
fn listing_of_no_pages_is_empty() {
    let api = AssetsApi;
    let pages: Vec<Result<Vec<String>, StoreFault>> = vec![];
    match api.list_assets(&pages) {
        ListOutcome::Listed(resp) => {
            assert!(resp.assets.is_empty());
            assert_eq!(resp.total_count, 0);
        },
        _ => panic!("empty listing refused"),
    }
}

#[test]
fn listing_fails_whole_on_any_page_failure() {
    let api = AssetsApi;
    let pages: Vec<Result<Vec<String>, StoreFault>> = vec![
        Ok(vec!["a.png".to_string()]),
        Err(StoreFault::Transport),
        Ok(vec!["b.png".to_string()]),
    ];
    match api.list_assets(&pages) {
        ListOutcome::Failed(kind) => assert!(matches!(kind, ErrorKind::Internal)),
        _ => panic!("partial listing served"),
    }
    let pages: Vec<Result<Vec<String>, StoreFault>> = vec![Err(StoreFault::Http(503))];
    match api.list_assets(&pages) {
        ListOutcome::Failed(kind) => assert!(matches!(kind, ErrorKind::Upstream)),
        _ => panic!("failed page ignored"),
    }
}

#[test]
fn legacy_image_put_skips_auth_and_type_gates() {
    let api = ImagesApi;
    let mut store = MemoryStore::new();
    let outcome = api.put_image(&mut store, &Some("tool.exe".to_string()), vec![1, 2]);
    match outcome {
        PutAssetOutcome::Stored(path) => assert_eq!(path, "/images/tool.exe"),
        _ => panic!("legacy upload refused"),
    }
    match api.get_image(&store, &"tool.exe".to_string()) {
        GetAssetOutcome::Content(bytes) => assert_eq!(bytes, vec![1, 2]),
        _ => panic!("legacy image not served"),
    }
    let outcome = api.put_image(&mut store, &None, vec![1]);
    assert!(matches!(outcome, PutAssetOutcome::BadRequest));
}

#[test]
fn setup_carries_connection_settings_over() {
    let config = AppConfig {
        minio_url: "http://localhost:9000".to_string(),
        minio_access: "access".to_string(),
        minio_secret: "secret".to_string(),
        jwt_public_key: "key".to_string(),
    };
    let storage = get_object_storage(&config);
    assert_eq!(storage.url, "http://localhost:9000");
    assert_eq!(storage.access_key, "access");
    assert_eq!(storage.secret_key, "secret");
}

#[test]
fn outcomes_map_to_handler_table_statuses() {
    assert_eq!(GetAssetOutcome::Content(vec![1]).status(), 200);
    assert_eq!(GetAssetOutcome::NotFound.status(), 404);
    assert_eq!(GetAssetOutcome::Internal.status(), 500);
    assert_eq!(PutAssetOutcome::Stored("/assets/a.png".to_string()).status(), 200);
    assert_eq!(PutAssetOutcome::Forbidden.status(), 403);
    assert_eq!(PutAssetOutcome::BadRequest.status(), 400);
    assert_eq!(PutAssetOutcome::UnsupportedMediaType.status(), 415);
    assert_eq!(PutAssetOutcome::Internal.status(), 500);
    assert_eq!(InfoOutcome::NotFound.status(), 404);
    assert_eq!(ListOutcome::Failed(ErrorKind::Upstream).status(), 500);
}

#[test]
fn healthcheck_answers() {
    let api = RootApi;
    api.healthcheck();
}
