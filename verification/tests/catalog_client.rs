use game_systems_web::catalog_client::{
    search_results, CatalogClient, Publisher, PublisherResource, SearchResponse, MIN_QUERY_LEN,
};

fn resources() -> Vec<PublisherResource> {
    vec![
        PublisherResource { id: "pub-1".into(), name: "Wizards of the Coast".into() },
        PublisherResource { id: "pub-2".into(), name: "Paizo".into() },
    ]
}

#[test]
fn decodes_the_jsonapi_search_envelope() {
    let publishers = search_results(SearchResponse::Received { status: 200, body: Some(resources()) });
    assert_eq!(
        publishers,
        vec![
            Publisher { id: "pub-1".to_string(), name: "Wizards of the Coast".to_string() },
            Publisher { id: "pub-2".to_string(), name: "Paizo".to_string() },
        ]
    );
}

#[test]
fn resources_without_id_or_name_are_dropped() {
    let mut rs = resources();
    rs.insert(0, PublisherResource { id: String::new(), name: "Anonymous".into() });
    rs.push(PublisherResource { id: "pub-3".into(), name: String::new() });
    let publishers = search_results(SearchResponse::Received { status: 200, body: Some(rs) });
    assert_eq!(publishers.len(), 2);
    assert_eq!(publishers[1].name, "Paizo");
}

#[test]
fn non_success_yields_empty() {
    assert!(search_results(SearchResponse::Received { status: 500, body: Some(resources()) }).is_empty());
}

#[test]
fn failures_yield_empty() {
    assert!(search_results(SearchResponse::Received { status: 200, body: None }).is_empty());
    assert!(search_results(SearchResponse::Failed).is_empty());
}

#[test]
fn short_query_makes_no_request() {
    let client = CatalogClient::new(Some("http://127.0.0.1:1".to_string()));
    assert!(client.search_request(" a ").is_none());
    assert_eq!(MIN_QUERY_LEN, 2);
    // one character, two bytes: long enough
    assert!(client.search_request(" é ").is_some());
}

#[test]
fn disabled_client_yields_empty() {
    let client = CatalogClient::new(None);
    assert!(!client.is_enabled());
    assert!(client.search_request("wizards").is_none());
}

#[test]
fn search_request_targets_the_search_route() {
    let client = CatalogClient::new(Some("http://catalog:8000/".to_string()));
    let req = client.search_request("  wiz ").unwrap();
    assert_eq!(req.url, "http://catalog:8000/publishers/search");
    assert_eq!(req.q, "wiz");
}
