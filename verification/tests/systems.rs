use game_systems_web::catalog_client::Publisher;
use game_systems_web::game_systems_client::{
    ApiError, ClientError, GameSystemView, SystemsPage, SystemsPayload, Tag,
};
use game_systems_web::routes::systems::{
    body_after_lookup, browse_page, detail_page, form_gate, has_write_role, login_url, page_url,
    parse_tags, plan_browse, resolve_publisher, sanitize_sort, submit_outcome, submit_step,
    upstream_status, version_history_url, BrowseParams, FormGate, NewFormSubmission,
    NewFormValues, PublisherError, SessionUser, SubmitOutcome, SubmitStep, SystemView, LOGOUT_URL,
};

fn user_with_roles(roles: &[&str]) -> SessionUser {
    SessionUser {
        name: "Tester".into(),
        roles: roles.iter().map(|s| s.to_string()).collect(),
        access_token: Some("tok".into()),
    }
}

fn system(id: &str, name: &str, edition: &str) -> GameSystemView {
    GameSystemView {
        id: id.to_string(),
        name: name.to_string(),
        edition: edition.to_string(),
        ..Default::default()
    }
}

#[test]
fn write_role_detected_for_submitter() {
    assert!(has_write_role(&user_with_roles(&["viewer", "submitter"])));
}

#[test]
fn no_write_role_for_plain_viewer() {
    assert!(!has_write_role(&user_with_roles(&["viewer"])));
}

#[test]
fn disallowed_sort_is_dropped() {
    let params = BrowseParams {
        sort: Some("notes".into()),
        ..Default::default()
    };
    let sort = sanitize_sort(params.sort);
    assert!(sort.is_empty());
}

#[test]
fn page_url_carries_search_and_sort() {
    let u = page_url("d&d", "-name", 3);
    assert!(u.contains("q=d%26d"));
    assert!(u.contains("sort=-name"));
    assert!(u.contains("page=3"));
}

#[test]
fn parse_tags_splits_and_trims() {
    let tags = parse_tags(" fantasy, , d20 ");
    assert_eq!(tags.len(), 2);
    assert_eq!(tags[0].name, "fantasy");
    assert_eq!(tags[1].name, "d20");
}

#[test]
fn parse_tags_edge_cases() {
    assert!(parse_tags("").is_empty());
    assert!(parse_tags(" , ,").is_empty());
    let tags = parse_tags("a,b,");
    assert_eq!(tags.len(), 2);
    assert!(tags.iter().all(|t| t.value.is_empty()));
    assert_eq!(parse_tags("\u{3000}horror\t")[0].name, "horror");
}

#[test]
fn page_url_exact_forms() {
    assert_eq!(page_url("", "", 1), "/game-systems?page=1");
    assert_eq!(page_url("star wars", "", 12), "/game-systems?q=star+wars&page=12");
    assert_eq!(page_url("", "-created", 4294967295), "/game-systems?sort=-created&page=4294967295");
    assert_eq!(page_url("é", "name", 2), "/game-systems?q=%C3%A9&sort=name&page=2");
}

#[test]
fn login_url_encodes_the_return_path() {
    assert_eq!(login_url("/game-systems"), "/auth/login?return_to=%2Fgame-systems");
    assert_eq!(LOGOUT_URL, "/auth/logout");
}

#[test]
fn browse_request_is_cleaned_up() {
    let req = plan_browse(BrowseParams {
        q: Some("  dune  ".into()),
        sort: Some("-name".into()),
        page: Some(0),
        per_page: Some(500),
    });
    assert_eq!(req.search, "dune");
    assert_eq!(req.sort, "-name");
    assert_eq!(req.page, 1);
    assert_eq!(req.per_page, 100);
    let defaults = plan_browse(BrowseParams::default());
    assert_eq!(defaults.search, "");
    assert_eq!(defaults.page, 1);
    assert_eq!(defaults.per_page, 24);
    let q = defaults.list_query();
    assert!(q.search.is_none() && q.sort.is_none());
    assert_eq!(q.page, Some(1));
    assert_eq!(q.per_page, Some(24));
    assert_eq!(plan_browse(BrowseParams { per_page: Some(0), ..Default::default() }).per_page, 1);
}

#[test]
fn browse_page_pager_and_rows() {
    let req = plan_browse(BrowseParams {
        q: Some("quest".into()),
        page: Some(2),
        per_page: Some(10),
        ..Default::default()
    });
    let result = SystemsPage {
        systems: vec![system("gs1", "Dungeon Quest", "1e")],
        total: 21,
        page: 2,
        per_page: 10,
        whole_list: false,
    };
    let page = browse_page(req.clone(), result, Some(&user_with_roles(&["editor"])));
    assert_eq!(page.rows.len(), 1);
    assert_eq!(page.rows[0].id, "gs1");
    assert_eq!(page.rows[0].edition, "1e");
    assert_eq!(page.rows[0].detail_url, "/game-systems/gs1");
    assert!(page.can_add);
    assert!(page.has_prev);
    assert!(page.has_next);
    assert_eq!(page.prev_url, "/game-systems?q=quest&page=1");
    assert_eq!(page.next_url, "/game-systems?q=quest&page=3");

    let last = browse_page(
        req,
        SystemsPage { systems: vec![], total: 20, page: 2, per_page: 10, whole_list: false },
        None,
    );
    assert!(!last.has_next);
    assert!(!last.can_add);
}

#[test]
fn first_page_links_back_to_itself() {
    let req = plan_browse(BrowseParams::default());
    let page = browse_page(req, SystemsPage { systems: vec![], total: 0, page: 1, per_page: 1, whole_list: false }, None);
    assert!(!page.has_prev);
    assert_eq!(page.prev_url, "/game-systems?page=1");
    assert_eq!(page.next_url, "/game-systems?page=2");
}

#[test]
fn bare_list_is_shown_as_one_page() {
    let systems: Vec<GameSystemView> = (0..30).map(|i| system(&format!("gs{i}"), "S", "")).collect();
    let result = SystemsPage::from_payload(SystemsPayload::BareList(systems));
    assert_eq!(result.per_page, 30);
    assert!(result.whole_list);
    let page = browse_page(plan_browse(BrowseParams::default()), result, None);
    assert_eq!(page.rows.len(), 30);
    assert!(!page.has_next);
    assert!(!page.has_prev);
}

#[test]
fn system_view_flattens_tags() {
    let mut view = system("gs1", "Dungeon Quest", "1e");
    view.tags = vec![
        Tag { name: "genre".into(), value: "fantasy".into() },
        Tag { name: "d20".into(), value: String::new() },
        Tag::default(),
        Tag { name: String::new(), value: "x".into() },
    ];
    let sv = SystemView::from_view(view.clone());
    assert_eq!(sv.name, "Dungeon Quest");
    assert_eq!(sv.tags, vec!["genre: fantasy", "d20", ": x"]);
    assert_eq!(version_history_url("gs1"), "/game-systems/gs1/versions");
    assert_eq!(detail_page(view.clone()).version_history_url, "/game-systems/gs1/versions");
    view.record_id = "rec-9".into();
    let page = detail_page(view);
    assert_eq!(page.version_history_url, "/game-systems/rec-9/versions");
    assert_eq!(page.system.tags.len(), 3);
}

#[test]
fn form_gate_sends_visitors_to_sign_in_or_refuses_them() {
    match form_gate(None) {
        FormGate::SignIn(url) => assert_eq!(url, "/auth/login?return_to=%2Fgame-systems%2Fnew"),
        other => panic!("expected SignIn, got {other:?}"),
    }
    assert!(matches!(form_gate(Some(&user_with_roles(&["viewer"]))), FormGate::Forbidden));
    assert!(matches!(form_gate(Some(&user_with_roles(&["admin"]))), FormGate::Open));
}

#[test]
fn submit_step_checks_token_and_builds_body() {
    let submission = NewFormSubmission {
        system_id: " dungeon-quest ".into(),
        name: "Dungeon Quest ".into(),
        edition: "".into(),
        publisher_id: " pub-1".into(),
        publisher_name: "Paizo".into(),
        notes: "".into(),
        tags: "fantasy, d20".into(),
    };
    let values = NewFormValues::from_submission(&submission);
    assert_eq!(values.system_id, " dungeon-quest ");
    assert!(matches!(submit_step(None, &submission, true), SubmitStep::SignIn(_)));
    assert!(matches!(
        submit_step(Some(&user_with_roles(&["viewer"])), &submission, true),
        SubmitStep::Forbidden
    ));
    let mut tokenless = user_with_roles(&["submitter"]);
    tokenless.access_token = Some(String::new());
    assert!(matches!(submit_step(Some(&tokenless), &submission, true), SubmitStep::MissingToken));
    tokenless.access_token = None;
    assert!(matches!(submit_step(Some(&tokenless), &submission, true), SubmitStep::MissingToken));
    match submit_step(Some(&user_with_roles(&["submitter"])), &submission, true) {
        SubmitStep::Create { token, body } => {
            assert_eq!(token, "tok");
            assert_eq!(body.system_id, "dungeon-quest");
            assert_eq!(body.name, "Dungeon Quest");
            assert_eq!(body.publisher_id, "pub-1");
            assert_eq!(body.tags.len(), 2);
            assert_eq!(body.tags[1].name, "d20");
            assert!(body.tags.iter().all(|t| t.value.is_empty()));
        }
        other => panic!("expected Create, got {other:?}"),
    }
}

#[test]
fn submit_outcome_follows_the_api_answer() {
    match submit_outcome(Ok(system("abc", "A", ""))) {
        SubmitOutcome::Redirect(u) => assert_eq!(u, "/game-systems/abc"),
        other => panic!("expected Redirect, got {other:?}"),
    }
    let mut created = system("abc", "A", "");
    created.record_id = "rec-1".into();
    match submit_outcome(Ok(created)) {
        SubmitOutcome::Redirect(u) => assert_eq!(u, "/game-systems/rec-1"),
        other => panic!("expected Redirect, got {other:?}"),
    }
    let rejected = ApiError { error: "invalid_request".into(), message: "system_id already in use".into() };
    match submit_outcome(Err(ClientError::BadRequest(rejected))) {
        SubmitOutcome::Rerender(m) => assert_eq!(m, "system_id already in use"),
        other => panic!("expected Rerender, got {other:?}"),
    }
    let forbidden = ApiError { error: "forbidden".into(), message: "requires a write role".into() };
    assert!(matches!(submit_outcome(Err(ClientError::Forbidden(forbidden))), SubmitOutcome::Rerender(_)));
    assert!(matches!(submit_outcome(Err(ClientError::NotFound)), SubmitOutcome::Status(404)));
    assert!(matches!(
        submit_outcome(Err(ClientError::Upstream("down".into()))),
        SubmitOutcome::Status(502)
    ));
}

#[test]
fn upstream_errors_map_to_error_pages() {
    assert_eq!(upstream_status(&ClientError::NotFound), 404);
    assert_eq!(upstream_status(&ClientError::Forbidden(ApiError::default())), 403);
    assert_eq!(upstream_status(&ClientError::BadRequest(ApiError::default())), 400);
    assert_eq!(upstream_status(&ClientError::Upstream(String::new())), 502);
}

fn publisher(id: &str, name: &str) -> Publisher {
    Publisher { id: id.to_string(), name: name.to_string() }
}

#[test]
fn typed_publisher_name_is_looked_up_when_the_picker_is_on() {
    let submission = NewFormSubmission {
        system_id: "dq".into(),
        name: "Dungeon Quest".into(),
        publisher_name: "  Paizo ".into(),
        tags: "a, b".into(),
        ..Default::default()
    };
    let user = user_with_roles(&["editor"]);
    match submit_step(Some(&user), &submission, true) {
        SubmitStep::LookupPublisher { token, name } => {
            assert_eq!(token, "tok");
            assert_eq!(name, "Paizo");
        }
        other => panic!("expected LookupPublisher, got {other:?}"),
    }
    // picker disabled: the name is accepted with a blank id
    match submit_step(Some(&user), &submission, false) {
        SubmitStep::Create { body, .. } => assert_eq!(body.publisher_id, ""),
        other => panic!("expected Create, got {other:?}"),
    }
    // a chosen publisher id wins over the typed name
    let chosen = NewFormSubmission { publisher_id: "pub-7".into(), ..submission };
    match submit_step(Some(&user), &chosen, true) {
        SubmitStep::Create { body, .. } => assert_eq!(body.publisher_id, "pub-7"),
        other => panic!("expected Create, got {other:?}"),
    }
}

#[test]
fn exactly_one_case_insensitive_match_resolves_the_publisher() {
    let candidates = vec![publisher("pub-1", "Paizo Publishing"), publisher("pub-2", "PAIZO")];
    assert_eq!(resolve_publisher("paizo", &candidates), Ok("pub-2".to_string()));
    let submission = NewFormSubmission {
        system_id: " dq ".into(),
        name: "Dungeon Quest".into(),
        publisher_name: "paizo".into(),
        tags: "x,, y".into(),
        ..Default::default()
    };
    let body = body_after_lookup(&submission, "paizo", &candidates).unwrap();
    assert_eq!(body.publisher_id, "pub-2");
    assert_eq!(body.system_id, "dq");
    assert_eq!(body.tags.len(), 2);
    assert!(body.tags.iter().all(|t| t.value.is_empty()));
}

#[test]
fn no_match_or_several_matches_reject_the_name() {
    let candidates = vec![publisher("pub-1", "Paizo"), publisher("pub-2", "paizo")];
    assert_eq!(resolve_publisher("Paizo", &candidates), Err(PublisherError::Ambiguous));
    assert_eq!(resolve_publisher("Wizards", &candidates), Err(PublisherError::NotFound));
    assert_eq!(resolve_publisher("Paizo", &Vec::new()), Err(PublisherError::NotFound));
    let submission = NewFormSubmission::default();
    assert!(matches!(body_after_lookup(&submission, "Paizo", &candidates), Err(PublisherError::Ambiguous)));
    assert_eq!(PublisherError::NotFound.message(), "no publisher has that name");
    assert_eq!(PublisherError::Ambiguous.message(), "more than one publisher has that name");
}

#[test]
fn page_links_parse_back() {
    for (search, sort, page) in [("d&d = fun", "-name", 3u32), ("", "", 1), ("100% é+", "", 7)] {
        let url = page_url(search, sort, page);
        let query = url.strip_prefix("/game-systems?").unwrap();
        let pairs: Vec<(String, String)> = url::form_urlencoded::parse(query.as_bytes()).into_owned().collect();
        let mut expected = Vec::new();
        if !search.is_empty() {
            expected.push(("q".to_string(), search.to_string()));
        }
        if !sort.is_empty() {
            expected.push(("sort".to_string(), sort.to_string()));
        }
        expected.push(("page".to_string(), page.to_string()));
        assert_eq!(pairs, expected);
    }
}

#[test]
fn joined_tag_names_parse_back() {
    let tags = parse_tags(" fantasy ,\thorror, ,d20,");
    let names: Vec<String> = tags.iter().map(|t| t.name.clone()).collect();
    assert_eq!(names, vec!["fantasy", "horror", "d20"]);
    let again: Vec<String> = parse_tags(&names.join(",")).into_iter().map(|t| t.name).collect();
    assert_eq!(again, names);
}
