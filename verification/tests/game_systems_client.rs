use game_systems_web::game_systems_client::{
    error_for_status, is_success, ApiError, ClientError, GameSystemView, GameSystemsApiClient,
    ListQuery, SystemsPage, SystemsPayload,
};
use game_systems_web::routes::systems::upstream_status;

fn system(id: &str, name: &str) -> GameSystemView {
    GameSystemView { id: id.to_string(), name: name.to_string(), ..Default::default() }
}

#[test]
fn list_decodes_the_paginated_envelope() {
    let page = SystemsPage::from_payload(SystemsPayload::Envelope {
        systems: vec![system("gs1", "Dungeon Quest")],
        total: 1,
        page: 1,
        per_page: 24,
    });
    assert_eq!(page.total, 1);
    assert_eq!(page.systems.len(), 1);
    assert_eq!(page.systems[0].name, "Dungeon Quest");
    assert_eq!(page.per_page, 24);
}

#[test]
fn envelope_payload_without_paging_is_repaired() {
    let page = SystemsPage::from_payload(SystemsPayload::Envelope {
        systems: vec![system("a", "A"), system("b", "B")],
        total: 0,
        page: 0,
        per_page: 0,
    });
    assert_eq!(page.total, 2);
    assert_eq!(page.page, 1);
    assert_eq!(page.per_page, 1);
}

#[test]
fn list_decodes_a_bare_array_from_the_pre_pagination_api() {
    let page = SystemsPage::from_payload(SystemsPayload::BareList(vec![
        system("gs1", "Dungeon Quest"),
        system("gs2", "Star Frontier"),
    ]));
    assert_eq!(page.systems.len(), 2);
    assert_eq!(page.total, 2);
    assert_eq!(page.page, 1);
    assert_eq!(page.per_page, 2);
    assert_eq!(page.systems[1].name, "Star Frontier");
    let empty = SystemsPage::from_payload(SystemsPayload::BareList(vec![]));
    assert_eq!((empty.total, empty.page, empty.per_page), (0, 1, 1));
}

#[test]
fn get_maps_404_to_not_found() {
    assert!(matches!(error_for_status(404, ApiError::default()), ClientError::NotFound));
}

#[test]
fn create_maps_403_to_forbidden() {
    let e = ApiError { error: "forbidden".into(), message: "requires a write role".into() };
    match error_for_status(403, e.clone()) {
        ClientError::Forbidden(got) => assert_eq!(got.error, "forbidden"),
        other => panic!("expected Forbidden, got {other:?}"),
    }
    assert!(matches!(error_for_status(401, e), ClientError::Forbidden(_)));
}

#[test]
fn create_maps_400_to_bad_request_with_message() {
    let e = ApiError { error: "invalid_request".into(), message: "system_id already in use".into() };
    match error_for_status(400, e) {
        ClientError::BadRequest(got) => assert_eq!(got.message, "system_id already in use"),
        other => panic!("expected BadRequest, got {other:?}"),
    }
    assert!(matches!(error_for_status(422, ApiError::default()), ClientError::BadRequest(_)));
}

#[test]
fn server_errors_are_upstream_with_the_status_text() {
    match error_for_status(500, ApiError::default()) {
        ClientError::Upstream(m) => assert_eq!(m, "api returned 500 Internal Server Error"),
        other => panic!("expected Upstream, got {other:?}"),
    }
    match error_for_status(599, ApiError::default()) {
        ClientError::Upstream(m) => assert_eq!(m, "api returned 599 <unknown status code>"),
        other => panic!("expected Upstream, got {other:?}"),
    }
    match error_for_status(302, ApiError::default()) {
        ClientError::Upstream(m) => assert_eq!(m, "api returned 302 Found"),
        other => panic!("expected Upstream, got {other:?}"),
    }
}

#[test]
fn error_pages_follow_the_status() {
    for (status, page) in [(404u16, 404u16), (401, 403), (403, 403), (400, 400), (418, 400), (500, 502), (503, 502)] {
        assert_eq!(upstream_status(&error_for_status(status, ApiError::default())), page);
    }
}

#[test]
fn success_statuses() {
    assert!(is_success(200) && is_success(204) && is_success(299));
    assert!(!is_success(199) && !is_success(300) && !is_success(404));
}

#[test]
fn client_error_messages() {
    let e = ApiError { error: "x".into(), message: "nope".into() };
    assert_eq!(ClientError::NotFound.message(), "not found");
    assert_eq!(ClientError::Forbidden(e.clone()).message(), "forbidden: nope");
    assert_eq!(ClientError::BadRequest(e).message(), "bad request: nope");
    assert_eq!(ClientError::Upstream("decode: eof".into()).message(), "upstream error: decode: eof");
}

#[test]
fn urls_drop_trailing_slashes_of_the_base() {
    let client = GameSystemsApiClient::new("http://api:8000//".to_string());
    assert_eq!(client.base_url(), "http://api:8000");
    assert_eq!(client.systems_url(), "http://api:8000/systems");
    assert_eq!(client.system_url("missing"), "http://api:8000/systems/missing");
    assert_eq!(client.versions_url("gs1"), "http://api:8000/systems/gs1/versions");
}

#[test]
fn list_params_forward_only_what_is_set() {
    assert!(GameSystemsApiClient::list_params(&ListQuery::default()).is_empty());
    let params = GameSystemsApiClient::list_params(&ListQuery {
        search: Some("dune".into()),
        sort: Some(String::new()),
        page: Some(3),
        per_page: Some(24),
    });
    let expected: Vec<(String, String)> = vec![
        ("q".into(), "dune".into()),
        ("page".into(), "3".into()),
        ("per_page".into(), "24".into()),
    ];
    assert_eq!(params, expected);
}
