use interfere::model::Command;
use interfere::model::EndpointDb;
use interfere::model::EndpointKvPair;
use interfere::model::HttpMethod;
use interfere::model::MHeader;
use interfere::model::MQueryParam;
use interfere::model::Message;
use interfere::model::MyErr;
use interfere::model::Request;
use interfere::model::Response;
use interfere::model::State;
use interfere::reducer::update;
use interfere::store::Store;

fn pair(id: u64, key: &str, value: &str, on: bool) -> EndpointKvPair {
    EndpointKvPair {
        id,
        parent_response_id: 0,
        key: key.to_string(),
        value: value.to_string(),
        on,
    }
}

fn endpoint(id: u64, url: &str, n_responses: usize) -> EndpointDb {
    let mut responses = Vec::new();
    for i in 0..n_responses {
        responses.push(Response {
            id: 100 * id + i as u64,
            parent_endpoint_id: id,
            text: format!("body{}", i),
            code: 200,
            received_time: i as i64,
            request: Request { query_params: vec![], headers: vec![] },
        });
    }
    EndpointDb { id, url: url.to_string(), method: HttpMethod::GET, responses }
}

#[test]
fn new_state_is_blank() {
    let st = State::new(vec![endpoint(1, "http://a", 1)]);
    assert!(st.can_send);
    assert_eq!(st.endpoints.len(), 1);
    assert!(st.selected_endpoint.is_none());
    assert_eq!(st.draft, "");
    assert!(st.copy_request.is_none());
    assert_eq!(st.selected_response_index, 0);
    assert!(!st.ctrl_pressed);
}

#[test]
fn set_draft_and_send_builds_url_and_headers() {
    let mut st = State::new(vec![]);
    let none = update(&mut st, Message::SetDraft("http://h".to_string()));
    assert!(none.is_empty());
    update(&mut st, Message::QueryParam(MQueryParam::AddQueryParam()));
    update(
        &mut st,
        Message::QueryParam(MQueryParam::SetQueryParamKey(0, "q k".to_string())),
    );
    update(
        &mut st,
        Message::QueryParam(MQueryParam::SetQueryParamContent(0, "v&1".to_string())),
    );
    update(&mut st, Message::Header(MHeader::AddHeader()));
    update(&mut st, Message::Header(MHeader::SetHeaderKey(0, "x-token".to_string())));
    update(
        &mut st,
        Message::Header(MHeader::SetHeaderContent(0, "tok-123".to_string())),
    );
    let cmds = update(&mut st, Message::Send);
    assert!(!st.can_send);
    assert_eq!(cmds.len(), 1);
    match &cmds[0] {
        Command::Send { url, headers, method, is_draft } => {
            assert_eq!(url, "http://h?q%20k=v%261");
            assert_eq!(headers.len(), 1);
            assert_eq!(headers[0].0, "x-token");
            assert_eq!(headers[0].1, "tok-123");
            assert_eq!(*method, HttpMethod::GET);
            assert!(!is_draft);
        },
        other => panic!("expected a send command, got {:?}", other),
    }
}

#[test]
fn disabled_and_unnamed_pairs_stay_out_of_the_url() {
    let mut st = State::new(vec![]);
    update(&mut st, Message::SetDraft("http://h".to_string()));
    st.draft_request.query_params = vec![
        pair(0, "on", "1", true),
        pair(1, "off", "2", false),
        pair(2, "", "3", true),
    ];
    let cmds = update(&mut st, Message::Send);
    match &cmds[0] {
        Command::Send { url, .. } => assert_eq!(url, "http://h?on=1"),
        other => panic!("expected a send command, got {:?}", other),
    }
}

#[test]
fn send_without_pairs_has_no_query_string() {
    let mut st = State::new(vec![]);
    update(&mut st, Message::SetDraft("http://h".to_string()));
    let cmds = update(&mut st, Message::Send);
    match &cmds[0] {
        Command::Send { url, is_draft, .. } => {
            assert_eq!(url, "http://h");
            assert!(!is_draft);
        },
        other => panic!("expected a send command, got {:?}", other),
    }
}

#[test]
fn send_draft_marks_the_command() {
    let mut st = State::new(vec![]);
    let cmds = update(&mut st, Message::SendDraft);
    match &cmds[0] {
        Command::Send { is_draft, .. } => assert!(is_draft),
        other => panic!("expected a send command, got {:?}", other),
    }
}

#[test]
fn got_draft_response_is_kept_with_its_time() {
    let mut st = State::new(vec![]);
    st.draft = "http://h".to_string();
    let cmds = update(
        &mut st,
        Message::GotResponse("hello".to_string(), 201, true, 9),
    );
    assert!(st.can_send);
    assert_eq!(st.draft_response, Some((201, "hello".to_string(), 9)));
    assert_eq!(st.draft, "");
    assert_eq!(cmds.len(), 1);
    match &cmds[0] {
        Command::Refetch { search } => assert_eq!(search, ""),
        other => panic!("expected a reload command, got {:?}", other),
    }
}

#[test]
fn got_response_without_selection_saves_a_new_endpoint() {
    let mut st = State::new(vec![]);
    update(&mut st, Message::SetDraft("http://h".to_string()));
    st.draft_request.query_params = vec![pair(0, "a", "1", true), pair(1, "off", "2", false)];
    let cmds = update(
        &mut st,
        Message::GotResponse("body".to_string(), 200, false, 7),
    );
    assert!(st.can_send);
    assert_eq!(st.draft, "http://h");
    assert_eq!(cmds.len(), 1);
    match &cmds[0] {
        Command::CreateEndpoint { url, method, text, code, query_params, headers } => {
            assert_eq!(url, "http://h");
            assert_eq!(*method, HttpMethod::GET);
            assert_eq!(text, "body");
            assert_eq!(*code, 200);
            assert_eq!(query_params.len(), 2);
            assert_eq!(query_params[0].key, "a");
            assert_eq!(query_params[1].key, "off");
            assert!(!query_params[1].on);
            assert_eq!(headers.len(), 0);
        },
        other => panic!("expected a create command, got {:?}", other),
    }
}

#[test]
fn saved_endpoint_keeps_the_method_that_was_sent() {
    let mut st = State::new(vec![]);
    update(&mut st, Message::SetDraft("http://h".to_string()));
    update(&mut st, Message::ClickMethod);
    assert_eq!(st.draft_method, HttpMethod::POST);
    let send = update(&mut st, Message::Send);
    match &send[0] {
        Command::Send { method, .. } => assert_eq!(*method, HttpMethod::POST),
        other => panic!("expected a send command, got {:?}", other),
    }
    let cmds = update(
        &mut st,
        Message::GotResponse("body".to_string(), 200, false, 7),
    );
    match &cmds[0] {
        Command::CreateEndpoint { method, .. } => assert_eq!(*method, HttpMethod::POST),
        other => panic!("expected a create command, got {:?}", other),
    }
}

#[test]
fn got_response_on_selected_exchange_updates_it() {
    let mut st = State::new(vec![endpoint(1, "http://a", 2)]);
    update(&mut st, Message::ClickEndpoint(1));
    assert_eq!(st.selected_response_index, 1);
    let cmds = update(
        &mut st,
        Message::GotResponse("fresh".to_string(), 404, false, 3),
    );
    assert_eq!(cmds.len(), 2);
    match &cmds[0] {
        Command::UpdateResponse { id, text, code } => {
            assert_eq!(*id, 101);
            assert_eq!(text, "fresh");
            assert_eq!(*code, 404);
        },
        other => panic!("expected an update command, got {:?}", other),
    }
    assert!(matches!(&cmds[1], Command::Refetch { .. }));
    assert_eq!(st.draft, "");
}

#[test]
fn got_response_with_copy_open_records_a_new_exchange() {
    let mut st = State::new(vec![endpoint(1, "http://a", 2)]);
    update(&mut st, Message::ClickEndpoint(1));
    update(&mut st, Message::QueryParam(MQueryParam::AddQueryParam()));
    assert!(st.copy_request.is_some());
    let cmds = update(
        &mut st,
        Message::GotResponse("body".to_string(), 200, false, 3),
    );
    assert_eq!(cmds.len(), 2);
    match &cmds[0] {
        Command::CreateResponse { parent_endpoint_id, text, code, query_params, .. } => {
            assert_eq!(*parent_endpoint_id, 1);
            assert_eq!(text, "body");
            assert_eq!(*code, 200);
            assert_eq!(query_params.len(), 1);
            assert_eq!(query_params[0].key, "");
            assert!(query_params[0].on);
        },
        other => panic!("expected a create-response command, got {:?}", other),
    }
    assert!(st.copy_request.is_none());
    assert_eq!(st.selected_response_index, 2);
}

#[test]
fn click_endpoint_selects_its_newest_exchange() {
    let mut st = State::new(vec![endpoint(1, "http://a", 3), endpoint(2, "http://b", 0)]);
    update(&mut st, Message::ClickEndpoint(1));
    assert_eq!(st.selected_endpoint, Some(1));
    assert_eq!(st.selected_response_index, 2);
    update(&mut st, Message::ClickEndpoint(2));
    assert_eq!(st.selected_response_index, 0);
    update(&mut st, Message::ClickEndpoint(99));
    assert_eq!(st.selected_endpoint, Some(99));
    assert_eq!(st.selected_response_index, 0);
}

#[test]
fn back_clears_the_draft_view_and_refocuses() {
    let mut st = State::new(vec![endpoint(1, "http://a", 1)]);
    update(&mut st, Message::ClickEndpoint(1));
    st.draft_request.query_params = vec![pair(0, "a", "1", true)];
    st.error_message = Some("boom".to_string());
    let cmds = update(&mut st, Message::Back);
    assert!(st.selected_endpoint.is_none());
    assert!(st.error_message.is_none());
    assert!(st.draft_request.query_params.is_empty());
    assert_eq!(cmds.len(), 1);
    match &cmds[0] {
        Command::Focus(t) => assert_eq!(*t, "main_urlbar"),
        other => panic!("expected a focus command, got {:?}", other),
    }
}

#[test]
fn back_discards_a_pending_draft_response_first() {
    let mut st = State::new(vec![]);
    st.draft_response = Some((200, "x".to_string(), 1));
    st.formatted_response = Some("x".to_string());
    let cmds = update(&mut st, Message::Back);
    assert!(st.draft_response.is_none());
    assert!(st.formatted_response.is_none());
    assert!(cmds.is_empty());
}

#[test]
fn duplicate_puts_the_url_into_the_draft() {
    let mut st = State::new(vec![endpoint(1, "http://a", 1)]);
    update(&mut st, Message::ClickEndpoint(1));
    let cmds = update(&mut st, Message::Duplicate("http://a".to_string()));
    assert!(st.selected_endpoint.is_none());
    assert_eq!(st.draft, "http://a");
    assert_eq!(cmds.len(), 1);
    assert!(matches!(&cmds[0], Command::Focus(_)));
}

#[test]
fn refetch_is_idempotent_on_unchanged_storage() {
    let mut st = State::new(vec![endpoint(1, "http://a", 1)]);
    st.endp_search = "a".to_string();
    let snapshot_search = st.endp_search.clone();
    let before_eps = st.endpoints.len();
    let c1 = update(&mut st, Message::RefetchDb);
    let c2 = update(&mut st, Message::RefetchDb);
    assert_eq!(st.endpoints.len(), before_eps);
    assert_eq!(st.endp_search, snapshot_search);
    match (&c1[0], &c2[0]) {
        (Command::Refetch { search: s1 }, Command::Refetch { search: s2 }) => {
            assert_eq!(s1, s2);
            assert_eq!(s1, "a");
        },
        other => panic!("expected two reload commands, got {:?}", other),
    }
}

#[test]
fn reloading_the_same_list_changes_nothing() {
    let eps = vec![endpoint(1, "http://a", 1)];
    let mut st = State::new(eps.clone());
    update(&mut st, Message::GotEndpoints(eps));
    assert_eq!(st.endpoints.len(), 1);
    assert_eq!(st.endpoints[0].url, "http://a");
}

#[test]
fn set_search_reloads_with_the_new_text() {
    let mut st = State::new(vec![]);
    let cmds = update(&mut st, Message::SetSearch("api".to_string()));
    assert_eq!(st.endp_search, "api");
    match &cmds[0] {
        Command::Refetch { search } => assert_eq!(search, "api"),
        other => panic!("expected a reload command, got {:?}", other),
    }
}

#[test]
fn got_error_shows_the_banner() {
    let mut st = State::new(vec![]);
    st.can_send = false;
    let cmds = update(
        &mut st,
        Message::GotError(MyErr::Unknown("connection refused".to_string())),
    );
    assert!(st.can_send);
    assert_eq!(st.error_message, Some("Unknown error: connection refused".to_string()));
    assert!(cmds.is_empty());
    update(&mut st, Message::ClearErrorMessage);
    assert!(st.error_message.is_none());
}

#[test]
fn click_method_toggles() {
    let mut st = State::new(vec![]);
    update(&mut st, Message::ClickMethod);
    assert_eq!(st.draft_method, HttpMethod::POST);
    update(&mut st, Message::ClickMethod);
    assert_eq!(st.draft_method, HttpMethod::GET);
}

#[test]
fn delete_endpoint_clears_a_matching_selection() {
    let mut st = State::new(vec![endpoint(1, "http://a", 1)]);
    update(&mut st, Message::ClickEndpoint(1));
    let cmds = update(&mut st, Message::ClickDeleteEndpoint(1));
    assert!(st.selected_endpoint.is_none());
    assert!(matches!(&cmds[0], Command::DeleteEndpoint { id: 1 }));
    assert!(matches!(&cmds[1], Command::Refetch { .. }));
}

#[test]
fn delete_response_steps_back_from_the_last_slot() {
    let mut st = State::new(vec![endpoint(1, "http://a", 2)]);
    update(&mut st, Message::ClickEndpoint(1));
    assert_eq!(st.selected_response_index, 1);
    let cmds = update(&mut st, Message::ClickDeleteResponse(101));
    assert_eq!(st.selected_response_index, 0);
    assert!(matches!(&cmds[0], Command::DeleteResponse { id: 101 }));
    assert!(matches!(&cmds[1], Command::Refetch { .. }));
}

#[test]
fn navigation_walks_endpoints_and_exchanges() {
    let mut st = State::new(vec![endpoint(1, "http://a", 2), endpoint(2, "http://b", 1)]);
    update(&mut st, Message::IncrementSelectedEndpoint);
    assert_eq!(st.selected_endpoint, Some(1));
    update(&mut st, Message::IncrementSelectedEndpoint);
    assert_eq!(st.selected_endpoint, Some(2));
    let cmds = update(&mut st, Message::IncrementSelectedEndpoint);
    assert_eq!(st.selected_endpoint, Some(2));
    assert!(cmds.is_empty());
    update(&mut st, Message::DecrementSelectedEndpoint);
    assert_eq!(st.selected_endpoint, Some(1));
    update(&mut st, Message::DecrementSelectedResponseIndex);
    assert_eq!(st.selected_response_index, 0);
    update(&mut st, Message::IncrementSelectedResponseIndex);
    assert_eq!(st.selected_response_index, 1);
    update(&mut st, Message::IncrementSelectedResponseIndex);
    assert!(st.copy_request.is_some());
}

#[test]
fn draft_pair_edits_add_set_toggle_delete() {
    let mut st = State::new(vec![]);
    update(&mut st, Message::QueryParam(MQueryParam::AddQueryParam()));
    update(&mut st, Message::QueryParam(MQueryParam::AddQueryParam()));
    assert_eq!(st.draft_request.query_params.len(), 2);
    assert_eq!(st.draft_request.query_params[1].id, 1);
    update(
        &mut st,
        Message::QueryParam(MQueryParam::SetQueryParamKey(1, "k".to_string())),
    );
    update(
        &mut st,
        Message::QueryParam(MQueryParam::SetQueryParamContent(1, "v".to_string())),
    );
    assert_eq!(st.draft_request.query_params[1].key, "k");
    assert_eq!(st.draft_request.query_params[1].value, "v");
    update(&mut st, Message::QueryParam(MQueryParam::ToggleQueryParamIsOn(1)));
    assert!(!st.draft_request.query_params[1].on);
    let cmds = update(&mut st, Message::QueryParam(MQueryParam::DeleteQueryParam(0)));
    assert_eq!(st.draft_request.query_params.len(), 1);
    assert_eq!(st.draft_request.query_params[0].id, 1);
    assert!(matches!(&cmds[0], Command::Refetch { .. }));
}

#[test]
fn stored_pair_edits_become_commands() {
    let mut st = State::new(vec![endpoint(1, "http://a", 1)]);
    update(&mut st, Message::ClickEndpoint(1));
    let cmds = update(
        &mut st,
        Message::QueryParam(MQueryParam::SetQueryParamContent(7, "v".to_string())),
    );
    assert_eq!(cmds.len(), 2);
    match &cmds[0] {
        Command::UpdateQueryParamValue { id, value } => {
            assert_eq!(*id, 7);
            assert_eq!(value, "v");
        },
        other => panic!("expected a value-update command, got {:?}", other),
    }
    let cmds = update(&mut st, Message::Header(MHeader::DeleteHeader(9)));
    assert!(matches!(&cmds[0], Command::DeleteHeader { id: 9 }));
}

#[test]
fn copy_request_edits_stay_local() {
    let mut st = State::new(vec![endpoint(1, "http://a", 1)]);
    update(&mut st, Message::ClickEndpoint(1));
    update(&mut st, Message::Header(MHeader::AddHeader()));
    let copy = st.copy_request.as_ref().expect("copy request should be open");
    assert_eq!(copy.headers.len(), 1);
    assert!(copy.query_params.is_empty());
    let cmds = update(
        &mut st,
        Message::Header(MHeader::SetHeaderKey(0, "x".to_string())),
    );
    assert!(cmds.is_empty());
    let copy = st.copy_request.as_ref().expect("copy request should stay open");
    assert_eq!(copy.headers[0].key, "x");
}

#[test]
fn full_loop_against_the_store() {
    let mut store = Store::new();
    let mut st = State::new(store.load_endpoints(None));
    update(&mut st, Message::SetDraft("http://h".to_string()));
    let cmds = update(
        &mut st,
        Message::GotResponse("body".to_string(), 200, false, 7),
    );
    let id = match &cmds[0] {
        Command::CreateEndpoint { url, method, text, code, query_params, headers } => {
            let ev = EndpointDb {
                id: 0,
                url: url.clone(),
                method: *method,
                responses: vec![Response {
                    id: 0,
                    parent_endpoint_id: 0,
                    text: text.clone(),
                    code: *code,
                    received_time: 0,
                    request: Request {
                        query_params: query_params.clone(),
                        headers: headers.clone(),
                    },
                }],
            };
            store.create_endpoint_full(&ev, 7)
        },
        other => panic!("expected a create command, got {:?}", other),
    };
    update(&mut st, Message::ClickEndpoint(id));
    update(&mut st, Message::GotEndpoints(store.load_endpoints(None)));
    assert_eq!(st.endpoints.len(), 1);
    assert_eq!(st.endpoints[0].url, "http://h");
    let cmds = update(&mut st, Message::Send);
    match &cmds[0] {
        Command::Send { url, .. } => assert_eq!(url, "http://h"),
        other => panic!("expected a send command, got {:?}", other),
    }
}
