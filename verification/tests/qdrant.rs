use relix_nodes::memory::qdrant::{
    check_status, collection_body, default_collection, default_collection_prefix, default_dim, resolve_collection_name,
    Operation, QdrantClient, QdrantConfig, QdrantError, Request, Verb,
};

fn cfg_for(server_url: &str) -> QdrantConfig {
    QdrantConfig {
        url: server_url.to_string(),
        collection: "test_coll".to_string(),
        dim: 4,
        api_key: None,
        tenant_isolation: false,
        collection_prefix: "relix".to_string(),
    }
}

/// Answers the requests of an operation as a server that accepts all of them does.
fn perform(client: &mut QdrantClient, op: Operation, collection: &str) -> Vec<Request> {
    let plan = client.plan(op, collection);
    for r in &plan {
        if r.operation == Operation::Ensure {
            client.collection_answered(collection, 200, String::new()).unwrap();
        }
    }
    plan
}

#[test]
fn ensure_collection_sends_put_with_vector_dim() {
    let mut client = QdrantClient::new(cfg_for("http://q:6333"));
    let coll = client.config().collection.clone();
    let cap = perform(&mut client, Operation::Ensure, &coll);
    assert_eq!(cap.len(), 1);
    assert_eq!(cap[0].verb, Verb::Put);
    assert_eq!(cap[0].url, "http://q:6333/collections/test_coll");
    let body: serde_json::Value = serde_json::from_str(&collection_body(client.config())).unwrap();
    assert_eq!(body["vectors"]["size"], 4);
    assert_eq!(body["vectors"]["distance"], "Cosine");
    assert!(cap[0].api_key.is_none());
}

#[test]
fn upsert_sends_put_with_points_array() {
    let mut client = QdrantClient::new(cfg_for("http://q:6333"));
    let cap = perform(&mut client, Operation::Upsert, "test_coll");
    assert_eq!(cap.len(), 2);
    assert_eq!(cap[0].operation, Operation::Ensure);
    assert_eq!(cap[1].verb, Verb::Put);
    assert_eq!(cap[1].url, "http://q:6333/collections/test_coll/points?wait=true");
}

#[test]
fn search_round_trips_request_and_response() {
    let mut client = QdrantClient::new(cfg_for("http://q:6333"));
    let cap = perform(&mut client, Operation::Search, "test_coll");
    let search = cap
        .iter()
        .find(|r| r.operation == Operation::Search)
        .expect("search call must land");
    assert_eq!(search.verb, Verb::Post);
    assert_eq!(search.url, "http://q:6333/collections/test_coll/points/search");
}

#[test]
fn delete_by_filter_sends_post_with_filter_clause() {
    let mut client = QdrantClient::new(cfg_for("http://q:6333"));
    let cap = perform(&mut client, Operation::Delete, "test_coll");
    assert_eq!(cap.len(), 1);
    assert_eq!(cap[0].verb, Verb::Post);
    assert!(cap[0].url.starts_with("http://q:6333/collections/test_coll/points/delete"));
}

#[test]
fn api_key_is_passed_as_header_when_configured() {
    let mut cfg = cfg_for("http://q:6333");
    cfg.api_key = Some("topsecret".into());
    let client = QdrantClient::new(cfg);
    let cap = client.plan(Operation::Ensure, "test_coll");
    assert_eq!(cap[0].api_key.as_deref(), Some("topsecret"));
}

#[test]
fn empty_api_key_counts_as_none() {
    let mut cfg = cfg_for("http://q:6333");
    cfg.api_key = Some(String::new());
    let client = QdrantClient::new(cfg);
    assert!(client.request(Operation::Search, "c").api_key.is_none());
}

#[test]
fn resolve_collection_name_returns_default_when_isolation_off() {
    let cfg = QdrantConfig {
        url: String::new(),
        collection: "relix_memory".into(),
        dim: 1536,
        api_key: None,
        tenant_isolation: false,
        collection_prefix: "relix".into(),
    };
    assert_eq!(resolve_collection_name(&cfg, Some("acme")), "relix_memory");
    assert_eq!(resolve_collection_name(&cfg, None), "relix_memory");
}

#[test]
fn resolve_collection_name_isolates_per_tenant_when_enabled() {
    let cfg = QdrantConfig {
        url: String::new(),
        collection: "relix_memory".into(),
        dim: 1536,
        api_key: None,
        tenant_isolation: true,
        collection_prefix: "relix".into(),
    };
    assert_eq!(resolve_collection_name(&cfg, Some("acme")), "relix_acme");
    assert_eq!(
        resolve_collection_name(&cfg, Some("globex")),
        "relix_globex"
    );
    assert_ne!(
        resolve_collection_name(&cfg, Some("acme")),
        resolve_collection_name(&cfg, Some("globex"))
    );
}

#[test]
fn resolve_collection_name_sanitises_special_chars() {
    let cfg = QdrantConfig {
        url: String::new(),
        collection: "x".into(),
        dim: 1536,
        api_key: None,
        tenant_isolation: true,
        collection_prefix: "relix".into(),
    };
    assert_eq!(
        resolve_collection_name(&cfg, Some("acme/tenant-1.dev")),
        "relix_acme_tenant_1_dev"
    );
    assert_eq!(resolve_collection_name(&cfg, Some("")), "relix_default");
    assert_eq!(resolve_collection_name(&cfg, None), "relix_default");
}

#[test]
fn resolve_collection_name_uses_configured_prefix() {
    let cfg = QdrantConfig {
        url: String::new(),
        collection: "x".into(),
        dim: 1536,
        api_key: None,
        tenant_isolation: true,
        collection_prefix: "saas".into(),
    };
    assert_eq!(resolve_collection_name(&cfg, Some("acme")), "saas_acme");
}

#[test]
fn ensure_collection_in_is_idempotent_across_calls() {
    let mut client = QdrantClient::new(cfg_for("http://q:6333"));
    let mut cap = perform(&mut client, Operation::Ensure, "acme_coll");
    cap.extend(perform(&mut client, Operation::Ensure, "acme_coll"));
    let puts: Vec<_> = cap
        .iter()
        .filter(|r| r.verb == Verb::Put && r.url == "http://q:6333/collections/acme_coll")
        .collect();
    assert_eq!(puts.len(), 1, "ensure_collection_in should cache");
}

#[test]
fn upsert_in_targets_named_collection_and_auto_ensures() {
    let mut client = QdrantClient::new(cfg_for("http://q:6333/"));
    let cap = perform(&mut client, Operation::Upsert, "tenant_acme");
    let ensure_calls: Vec<_> = cap
        .iter()
        .filter(|r| r.verb == Verb::Put && r.url == "http://q:6333/collections/tenant_acme")
        .collect();
    assert_eq!(ensure_calls.len(), 1);
    let upsert_calls: Vec<_> = cap
        .iter()
        .filter(|r| r.verb == Verb::Put && r.url.starts_with("http://q:6333/collections/tenant_acme/points"))
        .collect();
    assert_eq!(upsert_calls.len(), 1);
}

#[test]
fn auto_create_per_tenant_collection_on_first_write() {
    let mut cfg = cfg_for("http://q:6333");
    cfg.tenant_isolation = true;
    let mut client = QdrantClient::new(cfg);
    let coll = client.collection_for_tenant(Some("tenant_x"));
    let cap = perform(&mut client, Operation::Upsert, &coll);
    assert!(
        cap.iter()
            .any(|r| r.verb == Verb::Put && r.url == "http://q:6333/collections/relix_tenant_x"),
        "first write to new tenant must auto-create its collection"
    );
}

#[test]
fn two_tenants_with_isolation_use_distinct_collections() {
    let mut cfg = cfg_for("http://q:6333");
    cfg.tenant_isolation = true;
    cfg.collection_prefix = "relix".into();
    let mut client = QdrantClient::new(cfg);
    let coll_a = client.collection_for_tenant(Some("alpha"));
    let coll_b = client.collection_for_tenant(Some("beta"));
    assert_eq!(coll_a, "relix_alpha");
    assert_eq!(coll_b, "relix_beta");
    let mut cap = perform(&mut client, Operation::Upsert, &coll_a);
    cap.extend(perform(&mut client, Operation::Upsert, &coll_b));
    assert!(cap.iter().any(|r| r.url == "http://q:6333/collections/relix_alpha"));
    assert!(cap.iter().any(|r| r.url == "http://q:6333/collections/relix_beta"));
}

#[test]
fn non_2xx_response_surfaces_as_api_error() {
    let mut client = QdrantClient::new(cfg_for("http://q:6333"));
    let err = client
        .collection_answered("test_coll", 400, "vector dim mismatch".to_string())
        .unwrap_err();
    match err {
        QdrantError::Api { status, message } => {
            assert_eq!(status, 400);
            assert!(message.contains("dim mismatch"));
        }
        other => panic!("expected QdrantError::Api, got {other:?}"),
    }
    assert!(!client.was_ensured("test_coll"));
}

#[test]
fn success_is_the_two_hundreds() {
    assert!(check_status(200, String::new()).is_ok());
    assert!(check_status(299, String::new()).is_ok());
    assert!(check_status(199, String::new()).is_err());
    assert!(check_status(300, String::new()).is_err());
}

#[test]
fn qdrant_errors_in_words() {
    assert_eq!(QdrantError::Http("refused".into()).message(), "qdrant http: refused");
    let api = QdrantError::Api {
        status: 404,
        message: "gone".into(),
    };
    assert_eq!(api.message(), "qdrant api status=404 body=gone");
    assert_eq!(
        QdrantError::Serialization("eof".into()).message(),
        "qdrant serialization: eof"
    );
}

#[test]
fn qdrant_defaults() {
    assert_eq!(default_collection(), "relix_memory");
    assert_eq!(default_dim(), 1536);
    assert_eq!(default_collection_prefix(), "relix");
}
