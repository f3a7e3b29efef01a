use interfere::model::EndpointDb;
use interfere::model::EndpointKvPair;
use interfere::model::HttpMethod;
use interfere::model::Request;
use interfere::model::Response;
use interfere::store::Store;

fn pair(id: u64, key: &str, value: &str, on: bool) -> EndpointKvPair {
    EndpointKvPair {
        id,
        parent_response_id: 0,
        key: key.to_string(),
        value: value.to_string(),
        on,
    }
}

fn sample_endpoint(url: &str, method: HttpMethod) -> EndpointDb {
    EndpointDb {
        id: 0,
        url: url.to_string(),
        method,
        responses: vec![Response {
            id: 0,
            parent_endpoint_id: 0,
            text: "ok".to_string(),
            code: 200,
            received_time: 0,
            request: Request {
                query_params: vec![pair(1, "a", "1", true), pair(2, "b", "2", false)],
                headers: vec![pair(3, "x-key", "secret", true)],
            },
        }],
    }
}

#[test]
fn create_then_load_round_trips_the_graph() {
    let mut store = Store::new();
    let ev = sample_endpoint("https://api.example.com/items", HttpMethod::POST);
    let id = store.create_endpoint_full(&ev, 42);
    assert_eq!(id, 1);
    let loaded = store.load_endpoints(None);
    assert_eq!(loaded.len(), 1);
    let g = &loaded[0];
    assert_eq!(g.id, 1);
    assert_eq!(g.url, "https://api.example.com/items");
    assert_eq!(g.method, HttpMethod::POST);
    assert_eq!(g.responses.len(), 1);
    let r = &g.responses[0];
    assert_eq!(r.parent_endpoint_id, 1);
    assert_eq!(r.text, "ok");
    assert_eq!(r.code, 200);
    assert_eq!(r.received_time, 42);
    assert_eq!(r.request.query_params.len(), 2);
    assert_eq!(r.request.query_params[0].key, "a");
    assert_eq!(r.request.query_params[0].value, "1");
    assert!(r.request.query_params[0].on);
    assert_eq!(r.request.query_params[1].key, "b");
    assert_eq!(r.request.query_params[1].value, "2");
    assert_eq!(r.request.headers.len(), 1);
    assert_eq!(r.request.headers[0].key, "x-key");
    assert!(r.request.headers[0].on);
}

#[test]
fn disabled_pairs_are_retained_in_storage() {
    let mut store = Store::new();
    let ev = EndpointDb {
        id: 0,
        url: "http://one".to_string(),
        method: HttpMethod::GET,
        responses: vec![Response {
            id: 0,
            parent_endpoint_id: 0,
            text: "ok".to_string(),
            code: 200,
            received_time: 0,
            request: Request {
                query_params: vec![pair(1, "off", "x", false)],
                headers: vec![],
            },
        }],
    };
    store.create_endpoint_full(&ev, 1);
    assert_eq!(store.query_params.len(), 1);
    assert_eq!(store.query_params[0].key, "off");
    assert_eq!(store.query_params[0].value, "x");
}

#[test]
fn load_is_newest_first() {
    let mut store = Store::new();
    store.create_endpoint_full(&sample_endpoint("http://one", HttpMethod::GET), 1);
    store.create_endpoint_full(&sample_endpoint("http://two", HttpMethod::GET), 2);
    let loaded = store.load_endpoints(None);
    assert_eq!(loaded.len(), 2);
    assert_eq!(loaded[0].url, "http://two");
    assert_eq!(loaded[1].url, "http://one");
}

#[test]
fn search_filter_is_case_insensitive_substring() {
    let mut store = Store::new();
    store.create_endpoint_full(&sample_endpoint("http://Example.COM/a", HttpMethod::GET), 1);
    store.create_endpoint_full(&sample_endpoint("http://other.net/b", HttpMethod::GET), 2);
    let hits = store.load_endpoints(Some("example"));
    assert_eq!(hits.len(), 1);
    assert_eq!(hits[0].url, "http://Example.COM/a");
    let all = store.load_endpoints(Some(""));
    assert_eq!(all.len(), 2);
    let none = store.load_endpoints(Some("missing"));
    assert_eq!(none.len(), 0);
}

#[test]
fn delete_endpoint_cascades_to_descendants() {
    let mut store = Store::new();
    let e1 = store.create_endpoint_full(&sample_endpoint("http://one", HttpMethod::GET), 1);
    let e2 = store.create_endpoint_full(&sample_endpoint("http://two", HttpMethod::GET), 2);
    assert_eq!(store.responses.len(), 2);
    assert_eq!(store.query_params.len(), 4);
    assert_eq!(store.headers.len(), 2);
    store.delete_endpoint(e1);
    assert_eq!(store.endpoints.len(), 1);
    assert_eq!(store.endpoints[0].id, e2);
    assert_eq!(store.responses.len(), 1);
    assert_eq!(store.responses[0].parent_endpoint_id, e2);
    assert_eq!(store.query_params.len(), 2);
    assert_eq!(store.headers.len(), 1);
    assert_eq!(store.response_count_by_endpoint_id(e1), 0);
    assert_eq!(store.response_count_by_endpoint_id(e2), 1);
}

#[test]
fn delete_response_cascades_to_pairs() {
    let mut store = Store::new();
    let eid = store.create_endpoint("http://one");
    let rid = store.create_response(eid, "body", 200, 5);
    store.create_query_param(rid, "k", "v");
    store.create_header(rid, "h", "w");
    store.delete_response(rid);
    assert_eq!(store.responses.len(), 0);
    assert_eq!(store.query_params.len(), 0);
    assert_eq!(store.headers.len(), 0);
    assert_eq!(store.endpoints.len(), 1);
}

#[test]
fn deleting_a_missing_response_keeps_pairs() {
    let mut store = Store::new();
    let eid = store.create_endpoint("http://one");
    let rid = store.create_response(eid, "body", 200, 5);
    store.create_query_param(rid, "k", "v");
    store.delete_response(rid + 7);
    assert_eq!(store.responses.len(), 1);
    assert_eq!(store.query_params.len(), 1);
}

#[test]
fn bare_create_endpoint_defaults_to_get() {
    let mut store = Store::new();
    let id = store.create_endpoint("http://bare");
    assert_eq!(id, 1);
    assert_eq!(store.endpoints[0].method, HttpMethod::GET);
    assert_eq!(store.endpoints[0].url, "http://bare");
}

#[test]
fn update_endpoint_url_rewrites_the_row() {
    let mut store = Store::new();
    let id = store.create_endpoint("http://before");
    store.create_endpoint("http://other");
    store.update_endpoint_url(id, "http://after");
    assert_eq!(store.endpoints[0].url, "http://after");
    assert_eq!(store.endpoints[1].url, "http://other");
}

#[test]
fn update_response_rewrites_text_and_code() {
    let mut store = Store::new();
    let eid = store.create_endpoint("http://one");
    let rid = store.create_response(eid, "old", 200, 5);
    store.update_response(rid, "new", 404);
    assert_eq!(store.responses[0].text, "new");
    assert_eq!(store.responses[0].code, 404);
    assert_eq!(store.responses[0].received_time, 5);
}

#[test]
fn update_pair_rows_by_id() {
    let mut store = Store::new();
    let eid = store.create_endpoint("http://one");
    let rid = store.create_response(eid, "b", 200, 5);
    let q = store.create_query_param(rid, "k", "v");
    let h = store.create_header(rid, "hk", "hv");
    store.update_query_param_key(q, "k2");
    store.update_query_param_value(q, "v2");
    store.update_header_key(h, "hk2");
    store.update_header_value(h, "hv2");
    assert_eq!(store.query_params[0].key, "k2");
    assert_eq!(store.query_params[0].value, "v2");
    assert_eq!(store.headers[0].key, "hk2");
    assert_eq!(store.headers[0].value, "hv2");
    store.update_header(h, "hk3", "hv3");
    assert_eq!(store.headers[0].key, "hk3");
    assert_eq!(store.headers[0].value, "hv3");
    store.delete_query_param(q);
    assert_eq!(store.query_params.len(), 0);
    store.delete_header(h);
    assert_eq!(store.headers.len(), 0);
}

#[test]
fn delete_pairs_by_response() {
    let mut store = Store::new();
    let eid = store.create_endpoint("http://one");
    let r1 = store.create_response(eid, "b", 200, 5);
    let r2 = store.create_response(eid, "c", 200, 6);
    store.create_query_param(r1, "a", "1");
    store.create_query_param(r2, "b", "2");
    store.create_header(r1, "h", "1");
    store.delete_query_params_by_response(r1);
    assert_eq!(store.query_params.len(), 1);
    assert_eq!(store.query_params[0].parent_response_id, r2);
    store.delete_headers_by_response(r1);
    assert_eq!(store.headers.len(), 0);
    store.delete_responses_by_endpoint(eid);
    assert_eq!(store.responses.len(), 0);
    assert_eq!(store.query_params.len(), 0);
}
