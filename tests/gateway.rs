use vertex_oai::catalog::{
    catalog_from_fetch, models_response, on_cache_lookup, status_is_success, CatalogFetch, ModelsError, ModelsStep,
};
use vertex_oai::models::{translate_catalog, Model, VertexModel, VertexModelsResponse};
use vertex_oai::routing::{
    build_chat_url, chat_target, outbound_headers, select_location, should_forward_header, ChatError, Config,
    ConfigError,
};
use vertex_oai::token::{CredentialError, CredentialResult, TokenSlot};
use vertex_oai::{split_bounds, str_contains};

fn record(name: &str, stage: Option<&str>) -> VertexModel {
    VertexModel {
        name: name.to_string(),
        version_id: "001".to_string(),
        launch_stage: stage.map(|s| s.to_string()),
        open_source_category: None,
    }
}

fn config(location: &str) -> Config {
    Config {
        location: location.to_string(),
        endpoint_id: "openapi".to_string(),
        project_id: "my-project".to_string(),
    }
}

fn pairs(hs: &[(&str, &str)]) -> Vec<(String, String)> {
    hs.iter().map(|(k, v)| (k.to_string(), v.to_string())).collect()
}

#[test]
fn model_id_takes_publisher_and_model() {
    let m = record("publishers/google/models/gemini-pro", Some("GA"));
    assert_eq!(m.model_id(), "google/gemini-pro");
    let t = m.to_openai_model_at(1700000000);
    assert_eq!(t.id, "google/gemini-pro");
    assert_eq!(t.object, "model");
    assert_eq!(t.created, 1700000000);
    assert_eq!(t.owned_by, "google");
}

#[test]
fn model_id_falls_back_to_last_piece() {
    assert_eq!(record("models/gemini-x", None).model_id(), "gemini-x");
    assert_eq!(record("gemini-solo", None).model_id(), "gemini-solo");
    assert_eq!(record("a/b/", None).model_id(), "");
    assert_eq!(record("", None).model_id(), "unknown");
}

#[test]
fn to_openai_model_stamps_current_time() {
    let t = record("publishers/google/models/gemini-pro", Some("GA")).to_openai_model();
    assert_eq!(t.id, "google/gemini-pro");
    assert!(t.created > 1_600_000_000);
}

#[test]
fn filter_drops_experimental_stage() {
    assert!(!record("publishers/google/models/gemini-pro", Some("EXPERIMENTAL")).should_include());
    assert!(!record("publishers/google/models/gemini-pro", None).should_include());
    assert!(!record("publishers/google/models/imagen-3", Some("GA")).should_include());
    assert!(record("publishers/google/models/gemini-pro", Some("GA")).should_include());
    assert!(record("publishers/google/models/gemini-2.5-flash", Some("PUBLIC_PREVIEW")).should_include());
}

#[test]
fn catalog_translation_filters_and_keeps_order() {
    let recs = vec![
        record("publishers/google/models/gemini-b", Some("GA")),
        record("publishers/google/models/gemini-pro", Some("EXPERIMENTAL")),
        record("publishers/google/models/imagen-3", Some("GA")),
        record("publishers/google/models/gemini-a", Some("PUBLIC_PREVIEW")),
    ];
    let out = translate_catalog(&recs, 42);
    let ids: Vec<&str> = out.iter().map(|m| m.id.as_str()).collect();
    assert_eq!(ids, vec!["google/gemini-b", "google/gemini-a"]);
    assert!(out.iter().all(|m| m.created == 42));
    let again = translate_catalog(&recs, 42);
    let ids2: Vec<&str> = again.iter().map(|m| m.id.as_str()).collect();
    assert_eq!(ids, ids2);
    assert!(translate_catalog(&Vec::new(), 42).is_empty());
}

#[test]
fn catalog_fetch_outcomes() {
    assert!(matches!(catalog_from_fetch(&CatalogFetch::TransportFailed, 1), Err(ModelsError::BadGateway)));
    let denied = CatalogFetch::Answered { status: 403, payload: None };
    assert!(matches!(catalog_from_fetch(&denied, 1), Err(ModelsError::BadGateway)));
    let garbled = CatalogFetch::Answered { status: 200, payload: None };
    assert!(matches!(catalog_from_fetch(&garbled, 1), Err(ModelsError::Internal)));
    let payload = VertexModelsResponse {
        publisher_models: vec![
            record("publishers/google/models/gemini-pro", Some("GA")),
            record("publishers/google/models/gemini-pro", Some("EXPERIMENTAL")),
        ],
    };
    let ok = CatalogFetch::Answered { status: 200, payload: Some(payload) };
    let models = catalog_from_fetch(&ok, 7).ok().unwrap();
    assert_eq!(models.len(), 1);
    assert_eq!(models[0].id, "google/gemini-pro");
    assert_eq!(ModelsError::BadGateway.status_code(), 502);
    assert_eq!(ModelsError::Internal.status_code(), 500);
    assert!(status_is_success(200) && status_is_success(299));
    assert!(!status_is_success(199) && !status_is_success(300) && !status_is_success(502));
}

#[test]
fn cache_hit_serves_cached_list() {
    let cached = vec![Model {
        id: "google/gemini-pro".to_string(),
        object: "model".to_string(),
        created: 5,
        owned_by: "google".to_string(),
    }];
    match on_cache_lookup(Some(cached)) {
        ModelsStep::Serve(m) => {
            assert_eq!(m.len(), 1);
            assert_eq!(m[0].id, "google/gemini-pro");
            assert_eq!(m[0].created, 5);
        }
        ModelsStep::Fetch => panic!("a hit must not fetch"),
    }
    assert!(matches!(on_cache_lookup(None), ModelsStep::Fetch));
    let r = models_response(Vec::new());
    assert_eq!(r.object, "list");
    assert!(r.data.is_empty());
}

#[test]
fn newest_family_routes_to_global_host() {
    let cfg = config("us-central1");
    let url = chat_target(&cfg, r#"{"model":"google/gemini-3-pro-preview","messages":[]}"#).ok().unwrap();
    assert_eq!(
        url,
        "https://aiplatform.googleapis.com/v1beta1/projects/my-project/locations/global/endpoints/openapi/chat/completions"
    );
}

#[test]
fn other_models_use_configured_region() {
    let cfg = config("europe-west4");
    let url = chat_target(&cfg, r#"{"model":"google/gemini-2.5-pro"}"#).ok().unwrap();
    assert_eq!(
        url,
        "https://europe-west4-aiplatform.googleapis.com/v1beta1/projects/my-project/locations/europe-west4/endpoints/openapi/chat/completions"
    );
    let no_model = chat_target(&cfg, r#"{"messages":[]}"#).ok().unwrap();
    assert_eq!(no_model, url);
    let not_string = chat_target(&cfg, r#"{"model":3}"#).ok().unwrap();
    assert_eq!(not_string, url);
    let global = chat_target(&config("global"), r#"{"model":"x"}"#).ok().unwrap();
    assert!(global.starts_with("https://aiplatform.googleapis.com/"));
}

#[test]
fn malformed_body_is_refused() {
    let cfg = config("us-central1");
    assert!(matches!(chat_target(&cfg, "not json"), Err(ChatError::MalformedInput)));
    assert!(matches!(chat_target(&cfg, "[1,2]"), Err(ChatError::MalformedInput)));
}

#[test]
fn location_and_url_pieces() {
    let default = "asia-east1".to_string();
    assert_eq!(select_location(&default, &Some("gemini-3-flash".to_string())), "global");
    assert_eq!(select_location(&default, &Some("gemini-2.0".to_string())), "asia-east1");
    assert_eq!(select_location(&default, &None), "asia-east1");
    assert_eq!(
        build_chat_url(&"us-east5".to_string(), &"p".to_string(), &"e".to_string()),
        "https://us-east5-aiplatform.googleapis.com/v1beta1/projects/p/locations/us-east5/endpoints/e/chat/completions"
    );
}

#[test]
fn header_forwarding_keeps_only_custom_headers() {
    let inbound = pairs(&[
        ("Host", "localhost:8087"),
        ("Authorization", "Bearer client"),
        ("Content-Length", "12"),
        ("Content-Type", "text/plain"),
        ("X-Goog-Foo", "1"),
        ("X-Custom", "bar"),
    ]);
    let out = outbound_headers("Bearer token", "my-project", &inbound);
    let expected = pairs(&[
        ("authorization", "Bearer token"),
        ("x-goog-user-project", "my-project"),
        ("content-type", "application/json"),
        ("X-Custom", "bar"),
    ]);
    assert_eq!(out, expected);
    assert!(should_forward_header("accept"));
    assert!(!should_forward_header("x-goog-api-client"));
    assert!(!should_forward_header("HOST"));
    assert!(should_forward_header("x-goo"));
    assert!(should_forward_header("hosts"));
}

#[test]
fn new_credential_is_kept_across_not_modified() {
    let mut slot = TokenSlot::new();
    assert_eq!(slot.authorization(CredentialResult::NotModified).ok().unwrap(), "");
    let first = slot.authorization(CredentialResult::New(Some("Bearer one".to_string()))).ok().unwrap();
    assert_eq!(first, "Bearer one");
    for _ in 0..3 {
        assert_eq!(slot.authorization(CredentialResult::NotModified).ok().unwrap(), "Bearer one");
    }
    let second = slot.authorization(CredentialResult::New(Some("Bearer two".to_string()))).ok().unwrap();
    assert_eq!(second, "Bearer two");
    assert_eq!(slot.authorization(CredentialResult::NotModified).ok().unwrap(), "Bearer two");
    assert_eq!(slot.authorization(CredentialResult::New(None)).ok().unwrap(), "");
}

#[test]
fn malformed_credential_is_refused() {
    let mut slot = TokenSlot::new();
    slot.authorization(CredentialResult::New(Some("Bearer good".to_string()))).ok().unwrap();
    let bad = slot.authorization(CredentialResult::New(Some("Bearer \u{1}bad".to_string())));
    assert!(matches!(bad, Err(CredentialError::Malformed)));
    assert_eq!(slot.auth, "Bearer good");
    let tab = slot.authorization(CredentialResult::New(Some("a\tb".to_string())));
    assert_eq!(tab.ok().unwrap(), "a\tb");
    let del = slot.authorization(CredentialResult::New(Some("a\u{7f}".to_string())));
    assert!(matches!(del, Err(CredentialError::Malformed)));
}

#[test]
fn empty_project_id_is_refused() {
    assert!(matches!(Config::from_settings(None, Some(String::new())), Err(ConfigError::MissingProjectId)));
    assert!(matches!(Config::from_settings(Some("us-east1".to_string()), None), Err(ConfigError::MissingProjectId)));
    let c = Config::from_settings(None, Some("proj".to_string())).ok().unwrap();
    assert_eq!(c.location, "global");
    assert_eq!(c.project_id, "proj");
    assert_eq!(c.endpoint_id, "openapi");
    let r = Config::from_settings(Some("us-east1".to_string()), Some("proj".to_string())).ok().unwrap();
    assert_eq!(r.location, "us-east1");
}

#[test]
fn default_config_values() {
    let c = Config::default();
    assert_eq!(c.location, "us-central1");
    assert_eq!(c.endpoint_id, "openapi");
    assert_eq!(c.project_id, "");
}

#[test]
fn text_helpers() {
    assert!(str_contains("publishers/google/models/gemini-pro", "gemini"));
    assert!(str_contains("abc", ""));
    assert!(!str_contains("gem", "gemini"));
    assert_eq!(split_bounds("a//bc", '/'), vec![(0, 1), (2, 2), (3, 5)]);
    assert_eq!(split_bounds("", '/'), vec![(0, 0)]);
}
