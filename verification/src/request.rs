//! Assembling the outgoing request from the state: which of the three
//! sources (draft, copy request, or the selected endpoint's recorded
//! request) is authoritative, the query string built from the enabled
//! pairs, and the headers handed to the transport.

use vstd::prelude::*;

use crate::list::first_where;
use crate::list::lemma_filter_push;
use crate::list::lemma_first_where_found;
use crate::model::EndpointDb;
use crate::model::EndpointKvPair;
use crate::model::HttpMethod;
use crate::model::KvView;
use crate::model::Response;
use crate::model::State;
use crate::store::seq_views;
use crate::text::chars_of;
use crate::text::has_prefix;
use crate::text::slice_starts_with;

verus! {

/// What `urlencoding::encode` turns a string into.
pub uninterp spec fn url_encoded(s: Seq<char>) -> Seq<char>;

/// Relies on urlencoding::encode: percent-encodes every byte except ASCII
/// alphanumerics and `-`, `_`, `.`, `~`. The result depends on the input
/// text alone.
#[verifier::external_body]
fn url_encode(s: &str) -> (r: String)
    ensures
        r@ == url_encoded(s@),
{
    urlencoding::encode(s).into_owned()
}

/// Index of the first endpoint with this id, or -1.
pub open spec fn endpoint_index(eps: Seq<EndpointDb>, id: u64) -> int {
    first_where(eps, |e: EndpointDb| e.id == id)
}

/// The endpoint the selection points at, if it is in the loaded list.
pub open spec fn spec_current_endpoint(s: State) -> Option<EndpointDb> {
    match s.selected_endpoint {
        Option::Some(id) => {
            let i = endpoint_index(s.endpoints@, id);
            if i >= 0 {
                Option::Some(s.endpoints@[i])
            } else {
                Option::None
            }
        },
        Option::None => Option::None,
    }
}

/// The recorded exchange the selection points at, if the index is in
/// range.
pub open spec fn spec_current_response(s: State) -> Option<Response> {
    match spec_current_endpoint(s) {
        Option::Some(e) => {
            if s.selected_response_index < e.responses@.len() {
                Option::Some(e.responses@[s.selected_response_index as int])
            } else {
                Option::None
            }
        },
        Option::None => Option::None,
    }
}

/// The selected endpoint, straight from the in-memory list.
pub fn current_endpoint(state: &State) -> (r: Option<&EndpointDb>)
    ensures
        (match r {
            Option::Some(e) => spec_current_endpoint(*state) == Option::Some(*e),
            Option::None => spec_current_endpoint(*state) is None,
        }),
{
    let id = match state.selected_endpoint {
        Option::Some(id) => id,
        Option::None => {
            return Option::None;
        },
    };
    let n = state.endpoints.len();
    let mut found: Option<usize> = Option::None;
    let mut i: usize = 0;
    while i < n
        invariant
            n == state.endpoints@.len(),
            i <= n,
            (match found {
                Option::Some(k) => {
                    &&& k < i
                    &&& state.endpoints@[k as int].id == id
                    &&& forall|j: int| 0 <= j < k ==> state.endpoints@[j].id != id
                },
                Option::None => forall|j: int| 0 <= j < i ==> state.endpoints@[j].id != id,
            }),
        decreases n - i,
    {
        if found.is_none() && state.endpoints[i].id == id {
            found = Option::Some(i);
        }
        i = i + 1;
    }
    let ghost p = |e: EndpointDb| e.id == id;
    match found {
        Option::Some(k) => {
            proof {
                assert(p(state.endpoints@[k as int]));
                assert forall|j: int| 0 <= j < k implies !p(state.endpoints@[j]) by {}
                lemma_first_where_found(state.endpoints@, p, k as int);
            }
            Option::Some(&state.endpoints[k])
        },
        Option::None => {
            proof {
                assert forall|j: int| 0 <= j < n implies !p(state.endpoints@[j]) by {}
                lemma_first_where_found(state.endpoints@, p, n as int);
            }
            Option::None
        },
    }
}

/// The selected recorded exchange, straight from the in-memory list.
pub fn current_response(state: &State) -> (r: Option<&Response>)
    ensures
        (match r {
            Option::Some(resp) => spec_current_response(*state) == Option::Some(*resp),
            Option::None => spec_current_response(*state) is None,
        }),
{
    match current_endpoint(state) {
        Option::Some(endpoint) => {
            if state.selected_response_index < endpoint.responses.len() {
                Option::Some(&endpoint.responses[state.selected_response_index])
            } else {
                Option::None
            }
        },
        Option::None => Option::None,
    }
}

/// The method of the next send: the selected endpoint's, or the draft's.
pub open spec fn spec_method_from_state(s: State) -> HttpMethod {
    match spec_current_endpoint(s) {
        Option::Some(e) => e.method,
        Option::None => s.draft_method,
    }
}

/// The method of the next send.
pub fn method_from_state(state: &State) -> (r: HttpMethod)
    ensures
        r == spec_method_from_state(*state),
{
    match current_endpoint(state) {
        Option::Some(endpoint) => endpoint.method,
        Option::None => state.draft_method,
    }
}

/// The pairs the next send draws from: the copy request when one is being
/// edited, else the selected exchange's recorded pairs, else the draft's.
/// `hdr` picks headers over query parameters.
pub open spec fn spec_request_kvs(s: State, hdr: bool) -> Seq<KvView> {
    match spec_current_endpoint(s) {
        Option::Some(_) => match s.copy_request {
            Option::Some(d) => if hdr {
                seq_views(d.headers@)
            } else {
                seq_views(d.query_params@)
            },
            Option::None => match spec_current_response(s) {
                Option::Some(resp) => if hdr {
                    seq_views(resp.request.headers@)
                } else {
                    seq_views(resp.request.query_params@)
                },
                Option::None => Seq::empty(),
            },
        },
        Option::None => if hdr {
            seq_views(s.draft_request.headers@)
        } else {
            seq_views(s.draft_request.query_params@)
        },
    }
}

/// The pairs that actually go out: key nonempty and switched on.
pub open spec fn sendable(kvs: Seq<KvView>) -> Seq<KvView> {
    kvs.filter(|k: KvView| k.key.len() > 0 && k.on)
}

/// One `key=value` fragment, both sides percent-encoded.
pub open spec fn enc_pair(k: KvView) -> Seq<char> {
    url_encoded(k.key) + "="@ + url_encoded(k.value)
}

/// The fragments joined with `&`.
pub open spec fn amp_joined(e: Seq<KvView>) -> Seq<char>
    decreases e.len(),
{
    if e.len() == 0 {
        Seq::empty()
    } else if e.len() == 1 {
        enc_pair(e[0])
    } else {
        amp_joined(e.drop_last()) + "&"@ + enc_pair(e.last())
    }
}

/// The query string the pairs produce: empty when nothing goes out, else
/// `?` followed by the joined fragments.
pub open spec fn query_string(kvs: Seq<KvView>) -> Seq<char> {
    if sendable(kvs).len() == 0 {
        Seq::empty()
    } else {
        "?"@ + amp_joined(sendable(kvs))
    }
}

/// One more pair extends the sendable run exactly when its key is
/// nonempty and it is switched on.
proof fn lemma_sendable_push(s: Seq<KvView>, x: KvView)
    ensures
        sendable(s.push(x)) == (if x.key.len() > 0 && x.on {
            sendable(s).push(x)
        } else {
            sendable(s)
        }),
{
    lemma_filter_push(s, |k: KvView| k.key.len() > 0 && k.on, x);
}

/// The `(key, value)` pairs of the sendable entries.
pub open spec fn sendable_pairs(kvs: Seq<KvView>) -> Seq<(Seq<char>, Seq<char>)> {
    sendable(kvs).map_values(|k: KvView| (k.key, k.value))
}

/// The views of a run of owned string pairs.
pub open spec fn string_pair_views(s: Seq<(String, String)>) -> Seq<(Seq<char>, Seq<char>)> {
    s.map_values(|p: (String, String)| (p.0@, p.1@))
}

/// One more pair extends the sendable `(key, value)` run exactly when it
/// is sendable.
proof fn lemma_sendable_pairs_push(s: Seq<KvView>, x: KvView)
    ensures
        sendable_pairs(s.push(x)) == (if x.key.len() > 0 && x.on {
            sendable_pairs(s).push((x.key, x.value))
        } else {
            sendable_pairs(s)
        }),
{
    lemma_sendable_push(s, x);
    if x.key.len() > 0 && x.on {
        assert(sendable(s.push(x)).map_values(|k: KvView| (k.key, k.value)) =~= sendable(
            s,
        ).map_values(|k: KvView| (k.key, k.value)).push((x.key, x.value)));
    }
}

/// Pushing an owned pair pushes its views.
pub proof fn lemma_string_pair_views_push(s: Seq<(String, String)>, x: (String, String))
    ensures
        string_pair_views(s.push(x)) == string_pair_views(s).push((x.0@, x.1@)),
{
    assert(s.push(x).map_values(|p: (String, String)| (p.0@, p.1@)) =~= s.map_values(
        |p: (String, String)| (p.0@, p.1@),
    ).push((x.0@, x.1@)));
}

/// The base URL of the next send: the selected endpoint's, or the draft
/// text.
pub open spec fn spec_base_url(s: State) -> Seq<char> {
    match spec_current_endpoint(s) {
        Option::Some(e) => e.url@,
        Option::None => s.draft@,
    }
}

/// The full URL of the next send: base URL plus the query string built
/// from the authoritative pairs.
pub fn format_url_from_state(state: &State) -> (r: String)
    ensures
        r@ == spec_base_url(*state) + query_string(spec_request_kvs(*state, false)),
{
    let empty: Vec<EndpointKvPair> = Vec::new();
    let mut base: String;
    let kvs: &Vec<EndpointKvPair>;
    match current_endpoint(state) {
        Option::Some(endpoint) => {
            base = endpoint.url.clone();
            match &state.copy_request {
                Option::Some(d) => {
                    kvs = &d.query_params;
                },
                Option::None => {
                    match current_response(state) {
                        Option::Some(resp) => {
                            kvs = &resp.request.query_params;
                        },
                        Option::None => {
                            kvs = &empty;
                        },
                    }
                },
            }
        },
        Option::None => {
            base = state.draft.clone();
            kvs = &state.draft_request.query_params;
        },
    }
    proof {
        assert(seq_views(empty@) =~= Seq::<KvView>::empty());
        assert(seq_views(kvs@) == spec_request_kvs(*state, false));
        assert(base@ == spec_base_url(*state));
    }
    let qs = build_query_string(kvs);
    base.append(qs.as_str());
    base
}

/// Builds the query string from one list of pairs.
#[verifier::rlimit(50)]
#[verifier::loop_isolation(false)]
fn build_query_string(kvs: &Vec<EndpointKvPair>) -> (r: String)
    ensures
        r@ == query_string(seq_views(kvs@)),
{
    let ghost rows = seq_views(kvs@);
    let mut qs = String::new();
    let mut started = false;
    let mut i: usize = 0;
    proof {
        assert(rows.take(0) =~= Seq::<KvView>::empty());
        reveal(Seq::filter);
        assert(sendable(rows.take(0)) =~= Seq::<KvView>::empty());
        assert(qs@ =~= query_string(rows.take(0)));
    }
    while i < kvs.len()
        invariant
            i <= kvs@.len(),
            started == (sendable(rows.take(i as int)).len() > 0),
            qs@ == query_string(rows.take(i as int)),
        decreases kvs@.len() - i,
    {
        proof {
            assert(rows.take(i as int).push(rows[i as int]) =~= rows.take(i as int + 1));
            lemma_sendable_push(rows.take(i as int), rows[i as int]);
            assert(rows[i as int] == kvs@[i as int]@);
        }
        let kv = &kvs[i];
        if !kv.key.as_str().is_empty() && kv.on {
            proof {
                assert(rows[i as int].key.len() > 0 && rows[i as int].on);
                assert(sendable(rows.take(i as int + 1)) == sendable(rows.take(i as int)).push(
                    rows[i as int],
                ));
            }
            if started {
                qs.append("&");
            } else {
                qs.append("?");
                started = true;
            }
            let ek = url_encode(kv.key.as_str());
            qs.append(ek.as_str());
            qs.append("=");
            let ev = url_encode(kv.value.as_str());
            qs.append(ev.as_str());
            proof {
                let e0 = sendable(rows.take(i as int));
                let e1 = sendable(rows.take(i as int + 1));
                assert(e1 == e0.push(rows[i as int]));
                if e0.len() == 0 {
                    assert(e1.len() == 1);
                    assert(e1[0] == rows[i as int]);
                    assert(amp_joined(e1) == enc_pair(rows[i as int]));
                    assert(qs@ =~= "?"@ + amp_joined(e1));
                } else {
                    assert(e1.drop_last() =~= e0);
                    assert(e1.last() == rows[i as int]);
                    assert(amp_joined(e1) == amp_joined(e0) + "&"@ + enc_pair(rows[i as int]));
                    assert(qs@ =~= "?"@ + amp_joined(e1));
                }
            }
        } else {
            proof {
                assert(rows[i as int].key.len() == 0 || !rows[i as int].on);
                assert(sendable(rows.take(i as int + 1)) == sendable(rows.take(i as int)));
            }
        }
        i = i + 1;
    }
    proof {
        assert(rows.take(kvs@.len() as int) =~= rows);
    }
    qs
}

/// The headers that go out with the next send, as plain key-value pairs:
/// the authoritative pairs with nonempty keys that are switched on.
pub fn headers_from_state(state: &State) -> (r: Vec<(String, String)>)
    ensures
        string_pair_views(r@) == sendable_pairs(spec_request_kvs(*state, true)),
{
    let empty: Vec<EndpointKvPair> = Vec::new();
    let kvs: &Vec<EndpointKvPair>;
    match current_endpoint(state) {
        Option::Some(_) => {
            match &state.copy_request {
                Option::Some(d) => {
                    kvs = &d.headers;
                },
                Option::None => {
                    match current_response(state) {
                        Option::Some(resp) => {
                            kvs = &resp.request.headers;
                        },
                        Option::None => {
                            kvs = &empty;
                        },
                    }
                },
            }
        },
        Option::None => {
            kvs = &state.draft_request.headers;
        },
    }
    proof {
        assert(seq_views(empty@) =~= Seq::<KvView>::empty());
        assert(seq_views(kvs@) == spec_request_kvs(*state, true));
    }
    collect_sendable_pairs(kvs)
}

/// The `(key, value)` pairs of the sendable entries of one list.
#[verifier::rlimit(50)]
#[verifier::loop_isolation(false)]
fn collect_sendable_pairs(kvs: &Vec<EndpointKvPair>) -> (r: Vec<(String, String)>)
    ensures
        string_pair_views(r@) == sendable_pairs(seq_views(kvs@)),
{
    let ghost rows = seq_views(kvs@);
    let mut r: Vec<(String, String)> = Vec::new();
    let mut i: usize = 0;
    proof {
        assert(rows.take(0) =~= Seq::<KvView>::empty());
        reveal(Seq::filter);
        assert(sendable(rows.take(0)) =~= Seq::<KvView>::empty());
        assert(string_pair_views(r@) =~= sendable_pairs(rows.take(0)));
    }
    while i < kvs.len()
        invariant
            i <= kvs@.len(),
            string_pair_views(r@) == sendable_pairs(rows.take(i as int)),
        decreases kvs@.len() - i,
    {
        proof {
            assert(rows.take(i as int).push(rows[i as int]) =~= rows.take(i as int + 1));
            lemma_sendable_pairs_push(rows.take(i as int), rows[i as int]);
            assert(rows[i as int] == kvs@[i as int]@);
        }
        let kv = &kvs[i];
        if !kv.key.as_str().is_empty() && kv.on {
            let pair = (kv.key.clone(), kv.value.clone());
            proof {
                lemma_string_pair_views_push(r@, pair);
                assert(rows[i as int].key.len() > 0 && rows[i as int].on);
            }
            r.push(pair);
            proof {
                assert(string_pair_views(r@) =~= sendable_pairs(rows.take(i as int + 1)));
            }
        } else {
            proof {
                assert(rows[i as int].key.len() == 0 || !rows[i as int].on);
                assert(sendable_pairs(rows.take(i as int + 1)) == sendable_pairs(
                    rows.take(i as int),
                ));
            }
        }
        i = i + 1;
    }
    proof {
        assert(rows.take(kvs@.len() as int) =~= rows);
    }
    r
}

/// A URL without its scheme prefix.
pub open spec fn strip_url_spec(s: Seq<char>) -> Seq<char> {
    if has_prefix(s, "https://"@) {
        s.skip("https://"@.len() as int)
    } else if has_prefix(s, "http://"@) {
        s.skip("http://"@.len() as int)
    } else {
        s
    }
}

/// Drops a leading `https://` or `http://` from a URL, for display.
pub fn strip_url(url: &str) -> (r: String)
    ensures
        r@ == strip_url_spec(url@),
{
    let uc = chars_of(url);
    let https = chars_of("https://");
    let http = chars_of("http://");
    let n = url.unicode_len();
    if slice_starts_with(uc.as_slice(), https.as_slice()) {
        let stripped = url.substring_char(https.len(), n);
        proof {
            assert(stripped@ =~= url@.skip("https://"@.len() as int));
        }
        stripped.to_owned()
    } else if slice_starts_with(uc.as_slice(), http.as_slice()) {
        let stripped = url.substring_char(http.len(), n);
        proof {
            assert(stripped@ =~= url@.skip("http://"@.len() as int));
        }
        stripped.to_owned()
    } else {
        url.to_owned()
    }
}

/// Which of the three sources feeds the next send.
#[derive(Debug, Clone, Copy, PartialEq, Eq, Structural)]
pub enum RequestSource {
    Draft,
    Copy,
    Recorded,
    Nothing,
}

/// The one authoritative source for what will be sent next: the draft when
/// no endpoint is selected, the copy request while one is open, else the
/// selected recorded exchange, else nothing.
pub open spec fn request_source(s: State) -> RequestSource {
    match spec_current_endpoint(s) {
        Option::Some(_) => match s.copy_request {
            Option::Some(_) => RequestSource::Copy,
            Option::None => match spec_current_response(s) {
                Option::Some(_) => RequestSource::Recorded,
                Option::None => RequestSource::Nothing,
            },
        },
        Option::None => RequestSource::Draft,
    }
}

/// Law: exactly one source is authoritative for the next send — the pairs
/// that go out are drawn from the draft, from the copy request, or from
/// the selected recorded exchange, never from a mixture, and from nothing
/// when no source applies.
pub proof fn lemma_one_source_feeds_request(s: State, hdr: bool)
    ensures
        request_source(s) == RequestSource::Draft ==> spec_request_kvs(s, hdr) == (if hdr {
            seq_views(s.draft_request.headers@)
        } else {
            seq_views(s.draft_request.query_params@)
        }),
        request_source(s) == RequestSource::Copy ==> (s.copy_request matches Option::Some(d)
            && spec_request_kvs(s, hdr) == (if hdr {
            seq_views(d.headers@)
        } else {
            seq_views(d.query_params@)
        })),
        request_source(s) == RequestSource::Recorded ==> (spec_current_response(s)
            matches Option::Some(resp) && spec_request_kvs(s, hdr) == (if hdr {
            seq_views(resp.request.headers@)
        } else {
            seq_views(resp.request.query_params@)
        })),
        request_source(s) == RequestSource::Nothing ==> spec_request_kvs(s, hdr) == Seq::<
            KvView,
        >::empty(),
{
}

} // verus!
