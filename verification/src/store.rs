//! In-memory relational store mirroring the on-disk schema: one table each
//! for endpoints, responses, query parameters and headers, with
//! monotonically assigned row ids and cascading deletes. `load_endpoints`
//! reassembles the nested endpoint graph the rest of the crate works on.

use vstd::prelude::*;
use vstd::seq_lib::*;

use crate::model::EndpointDb;
use crate::model::EndpointKvPair;
use crate::model::EndpointView;
use crate::model::HttpMethod;
use crate::model::KvView;
use crate::model::Request;
use crate::model::RequestView;
use crate::model::Response;
use crate::model::ResponseView;
use crate::text::contains_ci;
use crate::text::chars_of;
use crate::text::slice_contains_ci;

verus! {

/// Row of the endpoint table.
#[derive(Debug, Clone)]
pub struct EndpointRow {
    pub id: u64,
    pub url: String,
    pub method: HttpMethod,
}

/// Mathematical image of an endpoint row.
#[verifier::ext_equal]
pub ghost struct ERowView {
    pub id: u64,
    pub url: Seq<char>,
    pub method: HttpMethod,
}

impl View for EndpointRow {
    type V = ERowView;

    open spec fn view(&self) -> ERowView {
        ERowView { id: self.id, url: self.url@, method: self.method }
    }
}

/// Row of the response table.
#[derive(Debug, Clone)]
pub struct ResponseRow {
    pub id: u64,
    pub parent_endpoint_id: u64,
    pub text: String,
    pub code: u16,
    pub received_time: i64,
}

/// Mathematical image of a response row.
#[verifier::ext_equal]
pub ghost struct RRowView {
    pub id: u64,
    pub parent_endpoint_id: u64,
    pub text: Seq<char>,
    pub code: u16,
    pub received_time: i64,
}

impl View for ResponseRow {
    type V = RRowView;

    open spec fn view(&self) -> RRowView {
        RRowView {
            id: self.id,
            parent_endpoint_id: self.parent_endpoint_id,
            text: self.text@,
            code: self.code,
            received_time: self.received_time,
        }
    }
}

/// Row of the query-parameter or header table.
#[derive(Debug, Clone)]
pub struct KvRow {
    pub id: u64,
    pub parent_response_id: u64,
    pub key: String,
    pub value: String,
}

/// Mathematical image of a key-value row.
#[verifier::ext_equal]
pub ghost struct KvRowView {
    pub id: u64,
    pub parent_response_id: u64,
    pub key: Seq<char>,
    pub value: Seq<char>,
}

impl View for KvRow {
    type V = KvRowView;

    open spec fn view(&self) -> KvRowView {
        KvRowView {
            id: self.id,
            parent_response_id: self.parent_response_id,
            key: self.key@,
            value: self.value@,
        }
    }
}

/// The views of a sequence's elements.
pub open spec fn seq_views<T: View>(s: Seq<T>) -> Seq<T::V> {
    s.map_values(|x: T| x@)
}

/// Mathematical image of the whole store.
#[verifier::ext_equal]
pub ghost struct StoreView {
    pub endpoints: Seq<ERowView>,
    pub responses: Seq<RRowView>,
    pub query_params: Seq<KvRowView>,
    pub headers: Seq<KvRowView>,
    pub next_endpoint_id: u64,
    pub next_response_id: u64,
    pub next_query_param_id: u64,
    pub next_header_id: u64,
}

impl StoreView {
    /// Every row id is below its table's next id, and every foreign key
    /// points below the id counter of the table it references.
    pub open spec fn wf(self) -> bool {
        &&& forall|i: int|
            0 <= i < self.endpoints.len() ==> self.endpoints[i].id < self.next_endpoint_id
        &&& forall|i: int|
            0 <= i < self.responses.len() ==> self.responses[i].id < self.next_response_id
        &&& forall|i: int|
            0 <= i < self.query_params.len() ==> self.query_params[i].id
                < self.next_query_param_id
        &&& forall|i: int| 0 <= i < self.headers.len() ==> self.headers[i].id < self.next_header_id
        &&& forall|i: int|
            0 <= i < self.responses.len() ==> self.responses[i].parent_endpoint_id
                < self.next_endpoint_id
        &&& forall|i: int|
            0 <= i < self.query_params.len() ==> self.query_params[i].parent_response_id
                < self.next_response_id
        &&& forall|i: int|
            0 <= i < self.headers.len() ==> self.headers[i].parent_response_id
                < self.next_response_id
    }
}

/// The in-memory store. Row ids start at 1, as the on-disk store's do.
#[derive(Debug, Clone)]
pub struct Store {
    pub endpoints: Vec<EndpointRow>,
    pub responses: Vec<ResponseRow>,
    pub query_params: Vec<KvRow>,
    pub headers: Vec<KvRow>,
    pub next_endpoint_id: u64,
    pub next_response_id: u64,
    pub next_query_param_id: u64,
    pub next_header_id: u64,
}

impl View for Store {
    type V = StoreView;

    open spec fn view(&self) -> StoreView {
        StoreView {
            endpoints: seq_views(self.endpoints@),
            responses: seq_views(self.responses@),
            query_params: seq_views(self.query_params@),
            headers: seq_views(self.headers@),
            next_endpoint_id: self.next_endpoint_id,
            next_response_id: self.next_response_id,
            next_query_param_id: self.next_query_param_id,
            next_header_id: self.next_header_id,
        }
    }
}

impl EndpointRow {
    /// A field-for-field copy.
    fn dup(&self) -> (r: EndpointRow)
        ensures
            r == *self,
    {
        EndpointRow { id: self.id, url: self.url.clone(), method: self.method }
    }
}

impl ResponseRow {
    /// A field-for-field copy.
    fn dup(&self) -> (r: ResponseRow)
        ensures
            r == *self,
    {
        ResponseRow {
            id: self.id,
            parent_endpoint_id: self.parent_endpoint_id,
            text: self.text.clone(),
            code: self.code,
            received_time: self.received_time,
        }
    }
}

impl KvRow {
    /// A field-for-field copy.
    fn dup(&self) -> (r: KvRow)
        ensures
            r == *self,
    {
        KvRow {
            id: self.id,
            parent_response_id: self.parent_response_id,
            key: self.key.clone(),
            value: self.value.clone(),
        }
    }
}

/// There is a response row with this id under this endpoint. Cascading an
/// endpoint delete removes exactly the key-value rows whose parent response
/// satisfies this.
pub open spec fn response_of_endpoint(rs: Seq<RRowView>, rid: u64, eid: u64) -> bool {
    exists|i: int| 0 <= i < rs.len() && rs[i].id == rid && rs[i].parent_endpoint_id == eid
}

/// There is a response row with this id.
pub open spec fn has_response(rs: Seq<RRowView>, rid: u64) -> bool {
    exists|i: int| 0 <= i < rs.len() && rs[i].id == rid
}

/// An endpoint row after a URL update aimed at `id`.
pub open spec fn upd_url(e: ERowView, id: u64, url: Seq<char>) -> ERowView {
    if e.id == id {
        ERowView { url: url, ..e }
    } else {
        e
    }
}

/// A response row after a text-and-code update aimed at `id`.
pub open spec fn upd_resp(r: RRowView, id: u64, text: Seq<char>, code: u16) -> RRowView {
    if r.id == id {
        RRowView { text: text, code: code, ..r }
    } else {
        r
    }
}

/// A key-value row after a key update aimed at `id`.
pub open spec fn upd_kv_key(k: KvRowView, id: u64, key: Seq<char>) -> KvRowView {
    if k.id == id {
        KvRowView { key: key, ..k }
    } else {
        k
    }
}

/// A key-value row after a value update aimed at `id`.
pub open spec fn upd_kv_value(k: KvRowView, id: u64, value: Seq<char>) -> KvRowView {
    if k.id == id {
        KvRowView { value: value, ..k }
    } else {
        k
    }
}

/// A key-value row after a key-and-value update aimed at `id`.
pub open spec fn upd_kv(k: KvRowView, id: u64, key: Seq<char>, value: Seq<char>) -> KvRowView {
    if k.id == id {
        KvRowView { key: key, value: value, ..k }
    } else {
        k
    }
}

/// One side of a recorded request: its headers if `hdr`, else its query
/// parameters.
pub open spec fn kvs_of(r: ResponseView, hdr: bool) -> Seq<KvView> {
    if hdr {
        r.request.headers
    } else {
        r.request.query_params
    }
}

/// The rows a response's pairs become — every pair, disabled ones
/// included, since a pair switched off is still retained in storage:
/// consecutive ids from `kid0`, all under the response row `rid`.
pub open spec fn kv_block(kvs: Seq<KvView>, rid: int, kid0: int) -> Seq<KvRowView> {
    Seq::new(
        kvs.len(),
        |j: int|
            KvRowView {
                id: (kid0 + j) as u64,
                parent_response_id: rid as u64,
                key: kvs[j].key,
                value: kvs[j].value,
            },
    )
}

/// How many pairs the responses carry in all, on one side.
pub open spec fn total_kvs(rs: Seq<ResponseView>, hdr: bool) -> int
    decreases rs.len(),
{
    if rs.len() == 0 {
        0
    } else {
        total_kvs(rs.drop_last(), hdr) + kvs_of(rs.last(), hdr).len()
    }
}

/// The key-value rows that saving these responses creates on one side:
/// one block per response, row ids consecutive from `kid0`, under response
/// rows whose ids run from `rid0`.
pub open spec fn created_kv_rows(rs: Seq<ResponseView>, hdr: bool, rid0: int, kid0: int) -> Seq<
    KvRowView,
>
    decreases rs.len(),
{
    if rs.len() == 0 {
        Seq::empty()
    } else {
        created_kv_rows(rs.drop_last(), hdr, rid0, kid0) + kv_block(
            kvs_of(rs.last(), hdr),
            rid0 + rs.len() - 1,
            kid0 + total_kvs(rs.drop_last(), hdr),
        )
    }
}

/// The response rows that saving these responses creates: ids consecutive
/// from `rid0`, all under endpoint `eid`, received at `now`.
pub open spec fn created_response_rows(rs: Seq<ResponseView>, eid: u64, rid0: int, now: i64) -> Seq<
    RRowView,
> {
    Seq::new(
        rs.len(),
        |t: int|
            RRowView {
                id: (rid0 + t) as u64,
                parent_endpoint_id: eid,
                text: rs[t].text,
                code: rs[t].code,
                received_time: now,
            },
    )
}

/// No count of pairs is negative.
proof fn lemma_total_kvs_nonneg(rs: Seq<ResponseView>, hdr: bool)
    ensures
        total_kvs(rs, hdr) >= 0,
    decreases rs.len(),
{
    if rs.len() > 0 {
        lemma_total_kvs_nonneg(rs.drop_last(), hdr);
    }
}

/// A prefix of the responses never carries more pairs than all of them do.
proof fn lemma_total_kvs_take_le(rs: Seq<ResponseView>, hdr: bool, i: int)
    requires
        0 <= i <= rs.len(),
    ensures
        total_kvs(rs.take(i), hdr) <= total_kvs(rs, hdr),
    decreases rs.len() - i,
{
    if i == rs.len() {
        assert(rs.take(i) =~= rs);
    } else {
        lemma_total_kvs_take_le(rs, hdr, i + 1);
        assert(rs.take(i + 1).drop_last() =~= rs.take(i));
        assert(rs.take(i + 1).last() == rs[i]);
    }
}

/// There is an endpoint row with this id.
pub open spec fn has_endpoint(eps: Seq<ERowView>, id: u64) -> bool {
    exists|i: int| 0 <= i < eps.len() && eps[i].id == id
}

/// A loaded pair: stored pairs come back switched on.
pub open spec fn kv_of_row(k: KvRowView) -> KvView {
    KvView {
        id: k.id,
        parent_response_id: k.parent_response_id,
        key: k.key,
        value: k.value,
        on: true,
    }
}

/// The pairs loaded for one response: its rows, in table order, all on.
pub open spec fn kvs_of_response(kvs: Seq<KvRowView>, rid: u64) -> Seq<KvView> {
    kvs.filter(|k: KvRowView| k.parent_response_id == rid).map_values(
        |k: KvRowView| kv_of_row(k),
    )
}

/// The exchange loaded for one response row: the row itself plus its query
/// parameters and headers.
pub open spec fn loaded_response(sv: StoreView, r: RRowView) -> ResponseView {
    ResponseView {
        id: r.id,
        parent_endpoint_id: r.parent_endpoint_id,
        text: r.text,
        code: r.code,
        received_time: r.received_time,
        request: RequestView {
            query_params: kvs_of_response(sv.query_params, r.id),
            headers: kvs_of_response(sv.headers, r.id),
        },
    }
}

/// The exchanges loaded from a run of response rows for endpoint `eid`.
pub open spec fn loaded_responses(sv: StoreView, rows: Seq<RRowView>, eid: u64) -> Seq<
    ResponseView,
> {
    rows.filter(|r: RRowView| r.parent_endpoint_id == eid).map_values(
        |r: RRowView| loaded_response(sv, r),
    )
}

/// The graph loaded for one endpoint row: the row plus its responses in
/// table order.
pub open spec fn loaded_endpoint(sv: StoreView, e: ERowView) -> EndpointView {
    EndpointView {
        id: e.id,
        url: e.url,
        method: e.method,
        responses: loaded_responses(sv, sv.responses, e.id),
    }
}

/// The search filter: no query matches everything, a query matches URLs
/// that contain it ignoring ASCII case.
pub open spec fn url_matches(url: Seq<char>, query: Option<Seq<char>>) -> bool {
    match query {
        Option::None => true,
        Option::Some(q) => contains_ci(url, q),
    }
}

/// The search text an optional string slice denotes.
pub open spec fn query_view(q: Option<&str>) -> Option<Seq<char>> {
    match q {
        Option::None => Option::None,
        Option::Some(s) => Option::Some(s@),
    }
}

/// Everything the store holds, as the nested endpoint graph: endpoints
/// newest first, each with its responses and their pairs in table order,
/// filtered by the search text.
pub open spec fn load_spec(sv: StoreView, query: Option<Seq<char>>) -> Seq<EndpointView> {
    loaded_list(sv, sv.endpoints.reverse(), query)
}

/// The graphs loaded from a run of endpoint rows, filtered by the search
/// text.
pub open spec fn loaded_list(sv: StoreView, eps: Seq<ERowView>, query: Option<Seq<char>>) -> Seq<
    EndpointView,
> {
    eps.filter(|e: ERowView| url_matches(e.url, query)).map_values(
        |e: ERowView| loaded_endpoint(sv, e),
    )
}

/// One more key-value row extends a response's loaded pairs exactly when
/// it belongs to that response.
proof fn lemma_kvs_of_response_push(s: Seq<KvRowView>, rid: u64, x: KvRowView)
    ensures
        kvs_of_response(s.push(x), rid) == (if x.parent_response_id == rid {
            kvs_of_response(s, rid).push(kv_of_row(x))
        } else {
            kvs_of_response(s, rid)
        }),
{
    let p = |k: KvRowView| k.parent_response_id == rid;
    let g = |k: KvRowView| kv_of_row(k);
    crate::list::lemma_filter_push(s, p, x);
    if p(x) {
        assert(s.push(x).filter(p).map_values(g) =~= s.filter(p).map_values(g).push(kv_of_row(x)));
    }
}

/// One more response row extends an endpoint's loaded exchanges exactly
/// when it belongs to that endpoint.
proof fn lemma_loaded_responses_push(sv: StoreView, rows: Seq<RRowView>, eid: u64, x: RRowView)
    ensures
        loaded_responses(sv, rows.push(x), eid) == (if x.parent_endpoint_id == eid {
            loaded_responses(sv, rows, eid).push(loaded_response(sv, x))
        } else {
            loaded_responses(sv, rows, eid)
        }),
{
    let p = |r: RRowView| r.parent_endpoint_id == eid;
    let g = |r: RRowView| loaded_response(sv, r);
    crate::list::lemma_filter_push(rows, p, x);
    if p(x) {
        assert(rows.push(x).filter(p).map_values(g) =~= rows.filter(p).map_values(g).push(
            loaded_response(sv, x),
        ));
    }
}

/// One more endpoint row extends the loaded list exactly when its URL
/// matches the search text.
proof fn lemma_loaded_list_push(sv: StoreView, eps: Seq<ERowView>, query: Option<Seq<char>>, x: ERowView)
    ensures
        loaded_list(sv, eps.push(x), query) == (if url_matches(x.url, query) {
            loaded_list(sv, eps, query).push(loaded_endpoint(sv, x))
        } else {
            loaded_list(sv, eps, query)
        }),
{
    let p = |e: ERowView| url_matches(e.url, query);
    let g = |e: ERowView| loaded_endpoint(sv, e);
    crate::list::lemma_filter_push(eps, p, x);
    if p(x) {
        assert(eps.push(x).filter(p).map_values(g) =~= eps.filter(p).map_values(g).push(
            loaded_endpoint(sv, x),
        ));
    }
}

/// The pairs of one response, rebuilt from the table.
#[verifier::rlimit(50)]
#[verifier::loop_isolation(false)]
fn load_kvs_for(kvs: &Vec<KvRow>, rid: u64) -> (r: Vec<EndpointKvPair>)
    ensures
        seq_views(r@) == kvs_of_response(seq_views(kvs@), rid),
{
    let ghost rows = seq_views(kvs@);
    let mut r: Vec<EndpointKvPair> = Vec::new();
    let mut i: usize = 0;
    proof {
        assert(rows.take(0) =~= Seq::<KvRowView>::empty());
        reveal(Seq::filter);
        assert(seq_views(r@) =~= kvs_of_response(rows.take(0), rid));
    }
    while i < kvs.len()
        invariant
            i <= kvs@.len(),
            seq_views(r@) == kvs_of_response(rows.take(i as int), rid),
        decreases kvs@.len() - i,
    {
        proof {
            assert(rows.take(i as int).push(rows[i as int]) =~= rows.take(i as int + 1));
            lemma_kvs_of_response_push(rows.take(i as int), rid, rows[i as int]);
        }
        let row = &kvs[i];
        if row.parent_response_id == rid {
            r.push(
                EndpointKvPair {
                    id: row.id,
                    parent_response_id: row.parent_response_id,
                    key: row.key.clone(),
                    value: row.value.clone(),
                    on: true,
                },
            );
            proof {
                assert(seq_views(r@) =~= kvs_of_response(rows.take(i as int + 1), rid));
            }
        }
        i = i + 1;
    }
    proof {
        assert(rows.take(kvs@.len() as int) =~= rows);
    }
    r
}

/// Whether some response row has this id under this endpoint.
fn response_belongs(rs: &Vec<ResponseRow>, rid: u64, eid: u64) -> (r: bool)
    ensures
        r == response_of_endpoint(seq_views(rs@), rid, eid),
{
    let ghost rows = seq_views(rs@);
    let mut i: usize = 0;
    while i < rs.len()
        invariant
            rows == seq_views(rs@),
            i <= rs@.len(),
            forall|j: int| 0 <= j < i ==> !(rows[j].id == rid && rows[j].parent_endpoint_id == eid),
        decreases rs@.len() - i,
    {
        if rs[i].id == rid && rs[i].parent_endpoint_id == eid {
            proof {
                assert(rows[i as int].id == rid && rows[i as int].parent_endpoint_id == eid);
            }
            return true;
        }
        i = i + 1;
    }
    false
}

impl Store {
    /// The empty store, as first created on disk.
    pub fn new() -> (r: Store)
        ensures
            r@.endpoints.len() == 0,
            r@.responses.len() == 0,
            r@.query_params.len() == 0,
            r@.headers.len() == 0,
            r@.next_endpoint_id == 1,
            r@.next_response_id == 1,
            r@.next_query_param_id == 1,
            r@.next_header_id == 1,
            r@.wf(),
    {
        let r = Store {
            endpoints: Vec::new(),
            responses: Vec::new(),
            query_params: Vec::new(),
            headers: Vec::new(),
            next_endpoint_id: 1,
            next_response_id: 1,
            next_query_param_id: 1,
            next_header_id: 1,
        };
        proof {
            assert(seq_views(r.endpoints@) =~= Seq::<ERowView>::empty());
            assert(seq_views(r.responses@) =~= Seq::<RRowView>::empty());
            assert(seq_views(r.query_params@) =~= Seq::<KvRowView>::empty());
            assert(seq_views(r.headers@) =~= Seq::<KvRowView>::empty());
        }
        r
    }

    /// Saves a bare endpoint with the given URL; the method column defaults
    /// to GET. Returns the fresh row id.
    pub fn create_endpoint(&mut self, url: &str) -> (r: u64)
        requires
            old(self)@.wf(),
            old(self)@.next_endpoint_id < u64::MAX,
        ensures
            r == old(self)@.next_endpoint_id,
            final(self)@ == (StoreView {
                endpoints: old(self)@.endpoints.push(
                    ERowView { id: r, url: url@, method: HttpMethod::GET },
                ),
                next_endpoint_id: (r + 1) as u64,
                ..old(self)@
            }),
            final(self)@.wf(),
    {
        let id = self.next_endpoint_id;
        self.endpoints.push(EndpointRow { id, url: url.to_owned(), method: HttpMethod::GET });
        self.next_endpoint_id = id + 1;
        proof {
            assert(seq_views(self.endpoints@) =~= old(self)@.endpoints.push(
                ERowView { id: id, url: url@, method: HttpMethod::GET },
            ));
            assert(self@ =~= (StoreView {
                endpoints: old(self)@.endpoints.push(
                    ERowView { id: id, url: url@, method: HttpMethod::GET },
                ),
                next_endpoint_id: (id + 1) as u64,
                ..old(self)@
            }));
        }
        id
    }

    /// Saves a new response row under an endpoint. `now` is the receive
    /// time recorded for the row. Returns the fresh row id.
    pub fn create_response(
        &mut self,
        parent_endpoint_id: u64,
        text: &str,
        code: u16,
        now: i64,
    ) -> (r: u64)
        requires
            old(self)@.wf(),
            old(self)@.next_response_id < u64::MAX,
            has_endpoint(old(self)@.endpoints, parent_endpoint_id),
        ensures
            r == old(self)@.next_response_id,
            final(self)@ == (StoreView {
                responses: old(self)@.responses.push(
                    RRowView {
                        id: r,
                        parent_endpoint_id: parent_endpoint_id,
                        text: text@,
                        code: code,
                        received_time: now,
                    },
                ),
                next_response_id: (r + 1) as u64,
                ..old(self)@
            }),
            final(self)@.wf(),
    {
        proof {
            let w = choose|i: int|
                0 <= i < self@.endpoints.len() && self@.endpoints[i].id == parent_endpoint_id;
            assert(parent_endpoint_id < self@.next_endpoint_id);
        }
        let id = self.next_response_id;
        self.responses.push(
            ResponseRow {
                id,
                parent_endpoint_id,
                text: text.to_owned(),
                code,
                received_time: now,
            },
        );
        self.next_response_id = id + 1;
        proof {
            let row = RRowView {
                id: id,
                parent_endpoint_id: parent_endpoint_id,
                text: text@,
                code: code,
                received_time: now,
            };
            assert(seq_views(self.responses@) =~= old(self)@.responses.push(row));
            assert(self@ =~= (StoreView {
                responses: old(self)@.responses.push(row),
                next_response_id: (id + 1) as u64,
                ..old(self)@
            }));
        }
        id
    }

    /// Saves a new query parameter under a response. Returns the fresh row
    /// id.
    pub fn create_query_param(&mut self, parent_response_id: u64, key: &str, value: &str) -> (r:
        u64)
        requires
            old(self)@.wf(),
            old(self)@.next_query_param_id < u64::MAX,
            has_response(old(self)@.responses, parent_response_id),
        ensures
            r == old(self)@.next_query_param_id,
            final(self)@ == (StoreView {
                query_params: old(self)@.query_params.push(
                    KvRowView {
                        id: r,
                        parent_response_id: parent_response_id,
                        key: key@,
                        value: value@,
                    },
                ),
                next_query_param_id: (r + 1) as u64,
                ..old(self)@
            }),
            final(self)@.wf(),
    {
        proof {
            let w = choose|i: int|
                0 <= i < self@.responses.len() && self@.responses[i].id == parent_response_id;
            assert(parent_response_id < self@.next_response_id);
        }
        let id = self.next_query_param_id;
        self.query_params.push(
            KvRow { id, parent_response_id, key: key.to_owned(), value: value.to_owned() },
        );
        self.next_query_param_id = id + 1;
        proof {
            let row = KvRowView {
                id: id,
                parent_response_id: parent_response_id,
                key: key@,
                value: value@,
            };
            assert(seq_views(self.query_params@) =~= old(self)@.query_params.push(row));
            assert(self@ =~= (StoreView {
                query_params: old(self)@.query_params.push(row),
                next_query_param_id: (id + 1) as u64,
                ..old(self)@
            }));
        }
        id
    }

    /// Saves a new header under a response. Returns the fresh row id.
    pub fn create_header(&mut self, parent_response_id: u64, key: &str, value: &str) -> (r: u64)
        requires
            old(self)@.wf(),
            old(self)@.next_header_id < u64::MAX,
            has_response(old(self)@.responses, parent_response_id),
        ensures
            r == old(self)@.next_header_id,
            final(self)@ == (StoreView {
                headers: old(self)@.headers.push(
                    KvRowView {
                        id: r,
                        parent_response_id: parent_response_id,
                        key: key@,
                        value: value@,
                    },
                ),
                next_header_id: (r + 1) as u64,
                ..old(self)@
            }),
            final(self)@.wf(),
    {
        proof {
            let w = choose|i: int|
                0 <= i < self@.responses.len() && self@.responses[i].id == parent_response_id;
            assert(parent_response_id < self@.next_response_id);
        }
        let id = self.next_header_id;
        self.headers.push(
            KvRow { id, parent_response_id, key: key.to_owned(), value: value.to_owned() },
        );
        self.next_header_id = id + 1;
        proof {
            let row = KvRowView {
                id: id,
                parent_response_id: parent_response_id,
                key: key@,
                value: value@,
            };
            assert(seq_views(self.headers@) =~= old(self)@.headers.push(row));
            assert(self@ =~= (StoreView {
                headers: old(self)@.headers.push(row),
                next_header_id: (id + 1) as u64,
                ..old(self)@
            }));
        }
        id
    }

    /// Saves an endpoint together with its whole response history in one
    /// step: the endpoint row, one response row per recorded exchange, and
    /// every query parameter and header of each. Disabled pairs are stored
    /// like the rest — only the outgoing request skips them. Returns the
    /// fresh endpoint row id.
    #[verifier::rlimit(80)]
    #[verifier::loop_isolation(false)]
    pub fn create_endpoint_full(&mut self, endpoint: &EndpointDb, now: i64) -> (r: u64)
        requires
            old(self)@.wf(),
            old(self)@.next_endpoint_id < u64::MAX,
            old(self)@.next_response_id + endpoint@.responses.len() <= u64::MAX,
            old(self)@.next_query_param_id + total_kvs(endpoint@.responses, false) <= u64::MAX,
            old(self)@.next_header_id + total_kvs(endpoint@.responses, true) <= u64::MAX,
        ensures
            r == old(self)@.next_endpoint_id,
            final(self)@ == (StoreView {
                endpoints: old(self)@.endpoints.push(
                    ERowView { id: r, url: endpoint@.url, method: endpoint@.method },
                ),
                responses: old(self)@.responses + created_response_rows(
                    endpoint@.responses,
                    r,
                    old(self)@.next_response_id as int,
                    now,
                ),
                query_params: old(self)@.query_params + created_kv_rows(
                    endpoint@.responses,
                    false,
                    old(self)@.next_response_id as int,
                    old(self)@.next_query_param_id as int,
                ),
                headers: old(self)@.headers + created_kv_rows(
                    endpoint@.responses,
                    true,
                    old(self)@.next_response_id as int,
                    old(self)@.next_header_id as int,
                ),
                next_endpoint_id: (r + 1) as u64,
                next_response_id: (old(self)@.next_response_id + endpoint@.responses.len()) as u64,
                next_query_param_id: (old(self)@.next_query_param_id + total_kvs(
                    endpoint@.responses,
                    false,
                )) as u64,
                next_header_id: (old(self)@.next_header_id + total_kvs(
                    endpoint@.responses,
                    true,
                )) as u64,
            }),
            final(self)@.wf(),
    {
        let ghost pre = self@;
        let ghost rs = endpoint@.responses;
        let ghost rid0 = pre.next_response_id as int;
        let ghost kq0 = pre.next_query_param_id as int;
        let ghost kh0 = pre.next_header_id as int;
        proof {
            lemma_total_kvs_nonneg(rs, false);
            lemma_total_kvs_nonneg(rs, true);
        }
        let eid = self.next_endpoint_id;
        let ghost erow = ERowView { id: eid, url: endpoint@.url, method: endpoint@.method };
        self.endpoints.push(
            EndpointRow { id: eid, url: endpoint.url.clone(), method: endpoint.method },
        );
        self.next_endpoint_id = eid + 1;
        proof {
            assert(seq_views(self.endpoints@) =~= pre.endpoints.push(erow));
            assert(self@ =~= (StoreView {
                endpoints: pre.endpoints.push(erow),
                next_endpoint_id: (eid + 1) as u64,
                ..pre
            }));
        }
        let n = endpoint.responses.len();
        let mut i: usize = 0;
        proof {
            assert(rs.take(0) =~= Seq::<ResponseView>::empty());
            assert(self@.responses =~= pre.responses + created_response_rows(
                rs.take(0),
                eid,
                rid0,
                now,
            ));
            assert(self@.query_params =~= pre.query_params + created_kv_rows(
                rs.take(0),
                false,
                rid0,
                kq0,
            ));
            assert(self@.headers =~= pre.headers + created_kv_rows(rs.take(0), true, rid0, kh0));
        }
        while i < n
            invariant
                i <= n,
                self@.wf(),
                self@.endpoints == pre.endpoints.push(erow),
                self@.next_endpoint_id == eid + 1,
                self@.responses == pre.responses + created_response_rows(
                    rs.take(i as int),
                    eid,
                    rid0,
                    now,
                ),
                self@.next_response_id == rid0 + i,
                self@.query_params == pre.query_params + created_kv_rows(
                    rs.take(i as int),
                    false,
                    rid0,
                    kq0,
                ),
                self@.next_query_param_id == kq0 + total_kvs(rs.take(i as int), false),
                self@.headers == pre.headers + created_kv_rows(rs.take(i as int), true, rid0, kh0),
                self@.next_header_id == kh0 + total_kvs(rs.take(i as int), true),
            decreases n - i,
        {
            let resp = &endpoint.responses[i];
            let ghost rv = rs[i as int];
            let ghost qkvs = kvs_of(rv, false);
            let ghost hkvs = kvs_of(rv, true);
            let ghost kqi = kq0 + total_kvs(rs.take(i as int), false);
            let ghost khi = kh0 + total_kvs(rs.take(i as int), true);
            proof {
                assert(rv == endpoint.responses@[i as int]@);
                lemma_total_kvs_take_le(rs, false, i as int);
                lemma_total_kvs_take_le(rs, true, i as int);
                lemma_total_kvs_take_le(rs, false, i as int + 1);
                lemma_total_kvs_take_le(rs, true, i as int + 1);
                assert(rs.take(i as int + 1).drop_last() =~= rs.take(i as int));
                assert(rs.take(i as int + 1).last() == rs[i as int]);
                lemma_total_kvs_nonneg(rs.take(i as int), false);
                lemma_total_kvs_nonneg(rs.take(i as int), true);
                assert(self@.endpoints[pre.endpoints.len() as int].id == eid);
                assert(has_endpoint(self@.endpoints, eid));
            }
            let rid = self.create_response(eid, resp.text.as_str(), resp.code, now);
            proof {
                assert(rid == rid0 + i);
                assert(self@.responses =~= pre.responses + created_response_rows(
                    rs.take(i as int + 1),
                    eid,
                    rid0,
                    now,
                ));
                assert(qkvs.take(0) =~= Seq::<KvView>::empty());
                assert(kv_block(qkvs.take(0), rid0 + i, kqi) =~= Seq::<KvRowView>::empty());
                assert(self@.query_params =~= pre.query_params + created_kv_rows(
                    rs.take(i as int),
                    false,
                    rid0,
                    kq0,
                ) + kv_block(qkvs.take(0), rid0 + i, kqi));
            }
            let nq = resp.request.query_params.len();
            let mut j: usize = 0;
            while j < nq
                invariant
                    j <= nq,
                    self@.wf(),
                    self@.endpoints == pre.endpoints.push(erow),
                    self@.next_endpoint_id == eid + 1,
                    self@.responses == pre.responses + created_response_rows(
                        rs.take(i as int + 1),
                        eid,
                        rid0,
                        now,
                    ),
                    self@.next_response_id == rid0 + i + 1,
                    self@.query_params == pre.query_params + created_kv_rows(
                        rs.take(i as int),
                        false,
                        rid0,
                        kq0,
                    ) + kv_block(qkvs.take(j as int), rid0 + i, kqi),
                    self@.next_query_param_id == kqi + j,
                    self@.headers == pre.headers + created_kv_rows(
                        rs.take(i as int),
                        true,
                        rid0,
                        kh0,
                    ),
                    self@.next_header_id == khi,
                decreases nq - j,
            {
                let qp = &resp.request.query_params[j];
                proof {
                    assert(qkvs[j as int] == resp.request.query_params@[j as int]@);
                    assert(total_kvs(rs.take(i as int + 1), false) == total_kvs(
                        rs.take(i as int),
                        false,
                    ) + qkvs.len());
                    assert(kqi + j + 1 <= kq0 + total_kvs(rs, false));
                    assert(self@.responses[pre.responses.len() + i as int].id == rid);
                    assert(has_response(self@.responses, rid));
                }
                self.create_query_param(rid, qp.key.as_str(), qp.value.as_str());
                proof {
                    assert(qkvs.take(j as int).push(qkvs[j as int]) =~= qkvs.take(j as int + 1));
                    assert(self@.query_params =~= pre.query_params + created_kv_rows(
                        rs.take(i as int),
                        false,
                        rid0,
                        kq0,
                    ) + kv_block(qkvs.take(j as int + 1), rid0 + i, kqi));
                }
                j = j + 1;
            }
            proof {
                assert(qkvs.take(nq as int) =~= qkvs);
                assert(hkvs.take(0) =~= Seq::<KvView>::empty());
                assert(kv_block(hkvs.take(0), rid0 + i, khi) =~= Seq::<KvRowView>::empty());
                assert(self@.headers =~= pre.headers + created_kv_rows(
                    rs.take(i as int),
                    true,
                    rid0,
                    kh0,
                ) + kv_block(hkvs.take(0), rid0 + i, khi));
            }
            let nh = resp.request.headers.len();
            let mut j2: usize = 0;
            while j2 < nh
                invariant
                    j2 <= nh,
                    self@.wf(),
                    self@.endpoints == pre.endpoints.push(erow),
                    self@.next_endpoint_id == eid + 1,
                    self@.responses == pre.responses + created_response_rows(
                        rs.take(i as int + 1),
                        eid,
                        rid0,
                        now,
                    ),
                    self@.next_response_id == rid0 + i + 1,
                    self@.query_params == pre.query_params + created_kv_rows(
                        rs.take(i as int),
                        false,
                        rid0,
                        kq0,
                    ) + kv_block(qkvs, rid0 + i, kqi),
                    self@.next_query_param_id == kqi + qkvs.len(),
                    self@.headers == pre.headers + created_kv_rows(
                        rs.take(i as int),
                        true,
                        rid0,
                        kh0,
                    ) + kv_block(hkvs.take(j2 as int), rid0 + i, khi),
                    self@.next_header_id == khi + j2,
                decreases nh - j2,
            {
                let hd = &resp.request.headers[j2];
                proof {
                    assert(hkvs[j2 as int] == resp.request.headers@[j2 as int]@);
                    assert(total_kvs(rs.take(i as int + 1), true) == total_kvs(
                        rs.take(i as int),
                        true,
                    ) + hkvs.len());
                    assert(khi + j2 + 1 <= kh0 + total_kvs(rs, true));
                    assert(self@.responses[pre.responses.len() + i as int].id == rid);
                    assert(has_response(self@.responses, rid));
                }
                self.create_header(rid, hd.key.as_str(), hd.value.as_str());
                proof {
                    assert(hkvs.take(j2 as int).push(hkvs[j2 as int]) =~= hkvs.take(
                        j2 as int + 1,
                    ));
                    assert(self@.headers =~= pre.headers + created_kv_rows(
                        rs.take(i as int),
                        true,
                        rid0,
                        kh0,
                    ) + kv_block(hkvs.take(j2 as int + 1), rid0 + i, khi));
                }
                j2 = j2 + 1;
            }
            proof {
                assert(hkvs.take(nh as int) =~= hkvs);
                assert(created_kv_rows(rs.take(i as int + 1), false, rid0, kq0)
                    == created_kv_rows(rs.take(i as int), false, rid0, kq0) + kv_block(
                    qkvs,
                    rid0 + i,
                    kqi,
                ));
                assert(self@.query_params =~= pre.query_params + created_kv_rows(
                    rs.take(i as int + 1),
                    false,
                    rid0,
                    kq0,
                ));
                assert(created_kv_rows(rs.take(i as int + 1), true, rid0, kh0)
                    == created_kv_rows(rs.take(i as int), true, rid0, kh0) + kv_block(
                    hkvs,
                    rid0 + i,
                    khi,
                ));
                assert(self@.headers =~= pre.headers + created_kv_rows(
                    rs.take(i as int + 1),
                    true,
                    rid0,
                    kh0,
                ));
            }
            i = i + 1;
        }
        proof {
            assert(rs.take(n as int) =~= rs);
            assert(self@ =~= (StoreView {
                endpoints: pre.endpoints.push(erow),
                responses: pre.responses + created_response_rows(rs, eid, rid0, now),
                query_params: pre.query_params + created_kv_rows(rs, false, rid0, kq0),
                headers: pre.headers + created_kv_rows(rs, true, rid0, kh0),
                next_endpoint_id: (eid + 1) as u64,
                next_response_id: (rid0 + rs.len()) as u64,
                next_query_param_id: (kq0 + total_kvs(rs, false)) as u64,
                next_header_id: (kh0 + total_kvs(rs, true)) as u64,
            }));
        }
        eid
    }

    /// The exchanges recorded for one endpoint, rebuilt from the tables.
    #[verifier::rlimit(50)]
    #[verifier::loop_isolation(false)]
    fn load_responses_for(&self, eid: u64) -> (r: Vec<Response>)
        ensures
            seq_views(r@) == loaded_responses(self@, self@.responses, eid),
    {
        let ghost rows = self@.responses;
        let mut r: Vec<Response> = Vec::new();
        let mut i: usize = 0;
        proof {
            assert(rows.take(0) =~= Seq::<RRowView>::empty());
            reveal(Seq::filter);
            assert(seq_views(r@) =~= loaded_responses(self@, rows.take(0), eid));
        }
        while i < self.responses.len()
            invariant
                i <= self.responses@.len(),
                seq_views(r@) == loaded_responses(self@, rows.take(i as int), eid),
            decreases self.responses@.len() - i,
        {
            proof {
                assert(rows.take(i as int).push(rows[i as int]) =~= rows.take(i as int + 1));
                lemma_loaded_responses_push(self@, rows.take(i as int), eid, rows[i as int]);
            }
            let row = &self.responses[i];
            if row.parent_endpoint_id == eid {
                let query_params = load_kvs_for(&self.query_params, row.id);
                let headers = load_kvs_for(&self.headers, row.id);
                let loaded = Response {
                    id: row.id,
                    parent_endpoint_id: row.parent_endpoint_id,
                    request: Request { query_params, headers },
                    text: row.text.clone(),
                    code: row.code,
                    received_time: row.received_time,
                };
                proof {
                    assert(loaded.request@.query_params =~= seq_views(
                        loaded.request.query_params@,
                    ));
                    assert(loaded.request@.headers =~= seq_views(loaded.request.headers@));
                    assert(loaded@ =~= loaded_response(self@, rows[i as int]));
                }
                r.push(loaded);
                proof {
                    assert(seq_views(r@) =~= loaded_responses(self@, rows.take(i as int + 1), eid));
                }
            }
            i = i + 1;
        }
        proof {
            assert(rows.take(self.responses@.len() as int) =~= rows);
        }
        r
    }

    /// Loads the whole endpoint graph, newest endpoint first, optionally
    /// filtered by a case-insensitive substring match on the URL.
    #[verifier::rlimit(50)]
    #[verifier::loop_isolation(false)]
    pub fn load_endpoints(&self, query: Option<&str>) -> (r: Vec<EndpointDb>)
        ensures
            seq_views(r@) == load_spec(self@, query_view(query)),
    {
        let ghost sv = self@;
        let ghost qv = query_view(query);
        let ghost rev = sv.endpoints.reverse();
        let qchars: Option<Vec<char>> = match query {
            Option::Some(q) => Option::Some(chars_of(q)),
            Option::None => Option::None,
        };
        let mut r: Vec<EndpointDb> = Vec::new();
        let n = self.endpoints.len();
        let mut i: usize = n;
        proof {
            assert(rev.take(0) =~= Seq::<ERowView>::empty());
            reveal(Seq::filter);
            assert(seq_views(r@) =~= loaded_list(sv, rev.take(0), qv));
        }
        while i > 0
            invariant
                i <= n,
                seq_views(r@) == loaded_list(sv, rev.take(n - i), qv),
            decreases i,
        {
            i = i - 1;
            let ghost k = n - i - 1;
            proof {
                assert(rev[k as int] == sv.endpoints[i as int]);
                assert(rev.take(k as int).push(rev[k as int]) =~= rev.take(k as int + 1));
                lemma_loaded_list_push(sv, rev.take(k as int), qv, rev[k as int]);
            }
            let e = &self.endpoints[i];
            let matched = match &qchars {
                Option::Some(qc) => {
                    let uc = chars_of(e.url.as_str());
                    slice_contains_ci(uc.as_slice(), qc.as_slice())
                },
                Option::None => true,
            };
            proof {
                assert(matched == url_matches(sv.endpoints[i as int].url, qv));
            }
            if matched {
                let responses = self.load_responses_for(e.id);
                let loaded = EndpointDb {
                    id: e.id,
                    url: e.url.clone(),
                    responses,
                    method: e.method,
                };
                proof {
                    assert(loaded@.responses =~= seq_views(loaded.responses@));
                    assert(loaded@ =~= loaded_endpoint(sv, rev[k as int]));
                }
                r.push(loaded);
                proof {
                    assert(seq_views(r@) =~= loaded_list(sv, rev.take(k as int + 1), qv));
                }
            }
        }
        proof {
            assert(rev.take(n as int) =~= rev);
        }
        r
    }

    /// How many responses an endpoint has.
    #[verifier::rlimit(50)]
    pub fn response_count_by_endpoint_id(&self, id: u64) -> (r: u64)
        ensures
            r == self@.responses.filter(|row: RRowView| row.parent_endpoint_id == id).len(),
    {
        let mut count: u64 = 0;
        let mut i: usize = 0;
        while i < self.responses.len()
            invariant
                i <= self.responses@.len(),
                count == seq_views(self.responses@).take(i as int).filter(
                    |row: RRowView| row.parent_endpoint_id == id,
                ).len(),
                count <= i,
            decreases self.responses@.len() - i,
        {
            proof {
                reveal(Seq::filter);
                let rows = seq_views(self.responses@);
                let pred = |row: RRowView| row.parent_endpoint_id == id;
                assert(rows.take(i as int + 1).drop_last() =~= rows.take(i as int));
                assert(rows.take(i as int + 1).last() == self.responses@[i as int]@);
                rows.take(i as int + 1).lemma_filter_len(pred);
            }
            if self.responses[i].parent_endpoint_id == id {
                count = count + 1;
            }
            i = i + 1;
        }
        proof {
            assert(seq_views(self.responses@).take(self.responses@.len() as int) =~= seq_views(
                self.responses@,
            ));
        }
        count
    }

    /// Deletes an endpoint; the delete cascades to its responses and to
    /// their query parameters and headers.
    pub fn delete_endpoint(&mut self, id: u64)
        requires
            old(self)@.wf(),
        ensures
            final(self)@ == (StoreView {
                endpoints: old(self)@.endpoints.filter(|e: ERowView| e.id != id),
                responses: old(self)@.responses.filter(
                    |r: RRowView| r.parent_endpoint_id != id,
                ),
                query_params: old(self)@.query_params.filter(
                    |k: KvRowView|
                        !response_of_endpoint(old(self)@.responses, k.parent_response_id, id),
                ),
                headers: old(self)@.headers.filter(
                    |k: KvRowView|
                        !response_of_endpoint(old(self)@.responses, k.parent_response_id, id),
                ),
                ..old(self)@
            }),
            final(self)@.wf(),
    {
        let ghost pre = self@;
        let new_query_params = retain_kvs_not_of_endpoint(&self.query_params, &self.responses, id);
        let new_headers = retain_kvs_not_of_endpoint(&self.headers, &self.responses, id);
        let new_responses = retain_responses_parent_ne(&self.responses, id);
        let new_endpoints = retain_endpoints_id_ne(&self.endpoints, id);
        self.query_params = new_query_params;
        self.headers = new_headers;
        self.responses = new_responses;
        self.endpoints = new_endpoints;
        proof {
            assert(self@ =~= (StoreView {
                endpoints: pre.endpoints.filter(|e: ERowView| e.id != id),
                responses: pre.responses.filter(|r: RRowView| r.parent_endpoint_id != id),
                query_params: pre.query_params.filter(
                    |k: KvRowView| !response_of_endpoint(pre.responses, k.parent_response_id, id),
                ),
                headers: pre.headers.filter(
                    |k: KvRowView| !response_of_endpoint(pre.responses, k.parent_response_id, id),
                ),
                ..pre
            }));
            crate::list::lemma_filter_in_original(pre.endpoints, |e: ERowView| e.id != id);
            crate::list::lemma_filter_in_original(
                pre.responses,
                |r: RRowView| r.parent_endpoint_id != id,
            );
            crate::list::lemma_filter_in_original(
                pre.query_params,
                |k: KvRowView| !response_of_endpoint(pre.responses, k.parent_response_id, id),
            );
            crate::list::lemma_filter_in_original(
                pre.headers,
                |k: KvRowView| !response_of_endpoint(pre.responses, k.parent_response_id, id),
            );
            lemma_filtered_rows_keep_bounds(pre, self@);
        }
    }

    /// Deletes one response row; the delete cascades to its query
    /// parameters and headers.
    pub fn delete_response(&mut self, id: u64)
        requires
            old(self)@.wf(),
        ensures
            final(self)@ == (StoreView {
                responses: old(self)@.responses.filter(|r: RRowView| r.id != id),
                query_params: (if has_response(old(self)@.responses, id) {
                    old(self)@.query_params.filter(
                        |k: KvRowView| k.parent_response_id != id,
                    )
                } else {
                    old(self)@.query_params
                }),
                headers: (if has_response(old(self)@.responses, id) {
                    old(self)@.headers.filter(|k: KvRowView| k.parent_response_id != id)
                } else {
                    old(self)@.headers
                }),
                ..old(self)@
            }),
            final(self)@.wf(),
    {
        let ghost pre = self@;
        let mut found = false;
        let mut i: usize = 0;
        while i < self.responses.len()
            invariant
                pre == self@,
                i <= self.responses@.len(),
                found == exists|j: int| 0 <= j < i && pre.responses[j].id == id,
            decreases self.responses@.len() - i,
        {
            if self.responses[i].id == id {
                proof {
                    assert(pre.responses[i as int].id == id);
                }
                found = true;
            }
            i = i + 1;
        }
        if found {
            let new_query_params = retain_kvs_parent_ne(&self.query_params, id);
            let new_headers = retain_kvs_parent_ne(&self.headers, id);
            self.query_params = new_query_params;
            self.headers = new_headers;
        }
        let new_responses = retain_responses_id_ne(&self.responses, id);
        self.responses = new_responses;
        proof {
            crate::list::lemma_all_contained(pre.endpoints);
            crate::list::lemma_filter_in_original(pre.responses, |r: RRowView| r.id != id);
            crate::list::lemma_all_contained(pre.query_params);
            crate::list::lemma_all_contained(pre.headers);
            crate::list::lemma_filter_in_original(
                pre.query_params,
                |k: KvRowView| k.parent_response_id != id,
            );
            crate::list::lemma_filter_in_original(
                pre.headers,
                |k: KvRowView| k.parent_response_id != id,
            );
            lemma_filtered_rows_keep_bounds(pre, self@);
        }
    }

    /// Deletes every response of an endpoint, cascading to their query
    /// parameters and headers, but keeps the endpoint row itself.
    pub fn delete_responses_by_endpoint(&mut self, parent_endpoint_id: u64)
        requires
            old(self)@.wf(),
        ensures
            final(self)@ == (StoreView {
                responses: old(self)@.responses.filter(
                    |r: RRowView| r.parent_endpoint_id != parent_endpoint_id,
                ),
                query_params: old(self)@.query_params.filter(
                    |k: KvRowView|
                        !response_of_endpoint(
                            old(self)@.responses,
                            k.parent_response_id,
                            parent_endpoint_id,
                        ),
                ),
                headers: old(self)@.headers.filter(
                    |k: KvRowView|
                        !response_of_endpoint(
                            old(self)@.responses,
                            k.parent_response_id,
                            parent_endpoint_id,
                        ),
                ),
                ..old(self)@
            }),
            final(self)@.wf(),
    {
        let ghost pre = self@;
        let new_query_params = retain_kvs_not_of_endpoint(
            &self.query_params,
            &self.responses,
            parent_endpoint_id,
        );
        let new_headers = retain_kvs_not_of_endpoint(
            &self.headers,
            &self.responses,
            parent_endpoint_id,
        );
        let new_responses = retain_responses_parent_ne(&self.responses, parent_endpoint_id);
        self.query_params = new_query_params;
        self.headers = new_headers;
        self.responses = new_responses;
        proof {
            crate::list::lemma_all_contained(pre.endpoints);
            crate::list::lemma_filter_in_original(
                pre.responses,
                |r: RRowView| r.parent_endpoint_id != parent_endpoint_id,
            );
            crate::list::lemma_filter_in_original(
                pre.query_params,
                |k: KvRowView|
                    !response_of_endpoint(pre.responses, k.parent_response_id, parent_endpoint_id),
            );
            crate::list::lemma_filter_in_original(
                pre.headers,
                |k: KvRowView|
                    !response_of_endpoint(pre.responses, k.parent_response_id, parent_endpoint_id),
            );
            lemma_filtered_rows_keep_bounds(pre, self@);
        }
    }

    /// Deletes one query parameter row.
    pub fn delete_query_param(&mut self, id: u64)
        requires
            old(self)@.wf(),
        ensures
            final(self)@ == (StoreView {
                query_params: old(self)@.query_params.filter(|k: KvRowView| k.id != id),
                ..old(self)@
            }),
            final(self)@.wf(),
    {
        let ghost pre = self@;
        let new_query_params = retain_kvs_id_ne(&self.query_params, id);
        self.query_params = new_query_params;
        proof {
            crate::list::lemma_all_contained(pre.endpoints);
            crate::list::lemma_all_contained(pre.responses);
            crate::list::lemma_all_contained(pre.headers);
            crate::list::lemma_filter_in_original(pre.query_params, |k: KvRowView| k.id != id);
            lemma_filtered_rows_keep_bounds(pre, self@);
        }
    }

    /// Deletes every query parameter of a response.
    pub fn delete_query_params_by_response(&mut self, parent_response_id: u64)
        requires
            old(self)@.wf(),
        ensures
            final(self)@ == (StoreView {
                query_params: old(self)@.query_params.filter(
                    |k: KvRowView| k.parent_response_id != parent_response_id,
                ),
                ..old(self)@
            }),
            final(self)@.wf(),
    {
        let ghost pre = self@;
        let new_query_params = retain_kvs_parent_ne(&self.query_params, parent_response_id);
        self.query_params = new_query_params;
        proof {
            crate::list::lemma_all_contained(pre.endpoints);
            crate::list::lemma_all_contained(pre.responses);
            crate::list::lemma_all_contained(pre.headers);
            crate::list::lemma_filter_in_original(
                pre.query_params,
                |k: KvRowView| k.parent_response_id != parent_response_id,
            );
            lemma_filtered_rows_keep_bounds(pre, self@);
        }
    }

    /// Deletes one header row.
    pub fn delete_header(&mut self, id: u64)
        requires
            old(self)@.wf(),
        ensures
            final(self)@ == (StoreView {
                headers: old(self)@.headers.filter(|k: KvRowView| k.id != id),
                ..old(self)@
            }),
            final(self)@.wf(),
    {
        let ghost pre = self@;
        let new_headers = retain_kvs_id_ne(&self.headers, id);
        self.headers = new_headers;
        proof {
            crate::list::lemma_all_contained(pre.endpoints);
            crate::list::lemma_all_contained(pre.responses);
            crate::list::lemma_all_contained(pre.query_params);
            crate::list::lemma_filter_in_original(pre.headers, |k: KvRowView| k.id != id);
            lemma_filtered_rows_keep_bounds(pre, self@);
        }
    }

    /// Deletes every header of a response.
    pub fn delete_headers_by_response(&mut self, parent_response_id: u64)
        requires
            old(self)@.wf(),
        ensures
            final(self)@ == (StoreView {
                headers: old(self)@.headers.filter(
                    |k: KvRowView| k.parent_response_id != parent_response_id,
                ),
                ..old(self)@
            }),
            final(self)@.wf(),
    {
        let ghost pre = self@;
        let new_headers = retain_kvs_parent_ne(&self.headers, parent_response_id);
        self.headers = new_headers;
        proof {
            crate::list::lemma_all_contained(pre.endpoints);
            crate::list::lemma_all_contained(pre.responses);
            crate::list::lemma_all_contained(pre.query_params);
            crate::list::lemma_filter_in_original(
                pre.headers,
                |k: KvRowView| k.parent_response_id != parent_response_id,
            );
            lemma_filtered_rows_keep_bounds(pre, self@);
        }
    }

    /// Overwrites the URL of the endpoint rows matching `id`.
    #[verifier::rlimit(100)]
    #[verifier::loop_isolation(false)]
    pub fn update_endpoint_url(&mut self, id: u64, url: &str)
        requires
            old(self)@.wf(),
        ensures
            final(self)@.endpoints.len() == old(self)@.endpoints.len(),
            forall|j: int|
                0 <= j < old(self)@.endpoints.len() ==> final(self)@.endpoints[j] == upd_url(
                    old(self)@.endpoints[j],
                    id, url@,
                ),
            final(self)@.responses == old(self)@.responses,
            final(self)@.query_params == old(self)@.query_params,
            final(self)@.headers == old(self)@.headers,
            final(self)@.next_endpoint_id == old(self)@.next_endpoint_id,
            final(self)@.next_response_id == old(self)@.next_response_id,
            final(self)@.next_query_param_id == old(self)@.next_query_param_id,
            final(self)@.next_header_id == old(self)@.next_header_id,
            final(self)@.wf(),
    {
        let ghost pre = self@;
        let mut out: Vec<EndpointRow> = Vec::new();
        let mut i: usize = 0;
        while i < self.endpoints.len()
            invariant
                i <= self.endpoints@.len(),
                out@.len() == i,
                forall|j: int| 0 <= j < i ==> out@[j]@ == upd_url(pre.endpoints[j], id, url@),
            decreases self.endpoints@.len() - i,
        {
            let row = &self.endpoints[i];
            if row.id == id {
                out.push(EndpointRow { id: row.id, url: url.to_owned(), method: row.method });
            } else {
                out.push(row.dup());
            }
            proof {
                assert(out@[i as int]@ == upd_url(pre.endpoints[i as int], id, url@));
            }
            i = i + 1;
        }
        self.endpoints = out;
        proof {
            let ghost post = self@;
            assert(post.endpoints =~= seq_views(out@));
            assert forall|j: int| 0 <= j < pre.endpoints.len() implies post.endpoints[j] == upd_url(pre.endpoints[j], id, url@) by {
                assert(out@[j]@ == upd_url(pre.endpoints[j], id, url@));
                assert(seq_views(out@)[j] == out@[j]@);
            }
            assert forall|j: int| 0 <= j < pre.endpoints.len() implies #[trigger] post.endpoints[j].id
                == pre.endpoints[j].id by {
                assert(post.endpoints[j] == upd_url(pre.endpoints[j], id, url@));
            }
            lemma_same_ids_keep_bounds(pre, post);
        }
    }

    /// Overwrites the text and status code of the response rows matching
    /// `id`.
    #[verifier::rlimit(100)]
    #[verifier::loop_isolation(false)]
    pub fn update_response(&mut self, id: u64, text: &str, code: u16)
        requires
            old(self)@.wf(),
        ensures
            final(self)@.responses.len() == old(self)@.responses.len(),
            forall|j: int|
                0 <= j < old(self)@.responses.len() ==> final(self)@.responses[j] == upd_resp(
                    old(self)@.responses[j],
                    id, text@, code,
                ),
            final(self)@.endpoints == old(self)@.endpoints,
            final(self)@.query_params == old(self)@.query_params,
            final(self)@.headers == old(self)@.headers,
            final(self)@.next_endpoint_id == old(self)@.next_endpoint_id,
            final(self)@.next_response_id == old(self)@.next_response_id,
            final(self)@.next_query_param_id == old(self)@.next_query_param_id,
            final(self)@.next_header_id == old(self)@.next_header_id,
            final(self)@.wf(),
    {
        let ghost pre = self@;
        let mut out: Vec<ResponseRow> = Vec::new();
        let mut i: usize = 0;
        while i < self.responses.len()
            invariant
                i <= self.responses@.len(),
                out@.len() == i,
                forall|j: int| 0 <= j < i ==> out@[j]@ == upd_resp(pre.responses[j], id, text@, code),
            decreases self.responses@.len() - i,
        {
            let row = &self.responses[i];
            if row.id == id {
                out.push(ResponseRow { id: row.id, parent_endpoint_id: row.parent_endpoint_id, text: text.to_owned(), code, received_time: row.received_time });
            } else {
                out.push(row.dup());
            }
            proof {
                assert(out@[i as int]@ == upd_resp(pre.responses[i as int], id, text@, code));
            }
            i = i + 1;
        }
        self.responses = out;
        proof {
            let ghost post = self@;
            assert(post.responses =~= seq_views(out@));
            assert forall|j: int| 0 <= j < pre.responses.len() implies post.responses[j] == upd_resp(pre.responses[j], id, text@, code) by {
                assert(out@[j]@ == upd_resp(pre.responses[j], id, text@, code));
                assert(seq_views(out@)[j] == out@[j]@);
            }
            assert forall|j: int| 0 <= j < pre.responses.len() implies #[trigger] post.responses[j].id
                == pre.responses[j].id && post.responses[j].parent_endpoint_id == pre.responses[j].parent_endpoint_id by {
                assert(post.responses[j] == upd_resp(pre.responses[j], id, text@, code));
            }
            lemma_same_ids_keep_bounds(pre, post);
        }
    }

    /// Renames the query parameter rows matching `id`.
    #[verifier::rlimit(100)]
    #[verifier::loop_isolation(false)]
    pub fn update_query_param_key(&mut self, id: u64, key: &str)
        requires
            old(self)@.wf(),
        ensures
            final(self)@.query_params.len() == old(self)@.query_params.len(),
            forall|j: int|
                0 <= j < old(self)@.query_params.len() ==> final(self)@.query_params[j] == upd_kv_key(
                    old(self)@.query_params[j],
                    id, key@,
                ),
            final(self)@.endpoints == old(self)@.endpoints,
            final(self)@.responses == old(self)@.responses,
            final(self)@.headers == old(self)@.headers,
            final(self)@.next_endpoint_id == old(self)@.next_endpoint_id,
            final(self)@.next_response_id == old(self)@.next_response_id,
            final(self)@.next_query_param_id == old(self)@.next_query_param_id,
            final(self)@.next_header_id == old(self)@.next_header_id,
            final(self)@.wf(),
    {
        let ghost pre = self@;
        let mut out: Vec<KvRow> = Vec::new();
        let mut i: usize = 0;
        while i < self.query_params.len()
            invariant
                i <= self.query_params@.len(),
                out@.len() == i,
                forall|j: int| 0 <= j < i ==> out@[j]@ == upd_kv_key(pre.query_params[j], id, key@),
            decreases self.query_params@.len() - i,
        {
            let row = &self.query_params[i];
            if row.id == id {
                out.push(KvRow { id: row.id, parent_response_id: row.parent_response_id, key: key.to_owned(), value: row.value.clone() });
            } else {
                out.push(row.dup());
            }
            proof {
                assert(out@[i as int]@ == upd_kv_key(pre.query_params[i as int], id, key@));
            }
            i = i + 1;
        }
        self.query_params = out;
        proof {
            let ghost post = self@;
            assert(post.query_params =~= seq_views(out@));
            assert forall|j: int| 0 <= j < pre.query_params.len() implies post.query_params[j] == upd_kv_key(pre.query_params[j], id, key@) by {
                assert(out@[j]@ == upd_kv_key(pre.query_params[j], id, key@));
                assert(seq_views(out@)[j] == out@[j]@);
            }
            assert forall|j: int| 0 <= j < pre.query_params.len() implies #[trigger] post.query_params[j].id
                == pre.query_params[j].id && post.query_params[j].parent_response_id == pre.query_params[j].parent_response_id by {
                assert(post.query_params[j] == upd_kv_key(pre.query_params[j], id, key@));
            }
            lemma_same_ids_keep_bounds(pre, post);
        }
    }

    /// Overwrites the value of the query parameter rows matching `id`.
    #[verifier::rlimit(100)]
    #[verifier::loop_isolation(false)]
    pub fn update_query_param_value(&mut self, id: u64, value: &str)
        requires
            old(self)@.wf(),
        ensures
            final(self)@.query_params.len() == old(self)@.query_params.len(),
            forall|j: int|
                0 <= j < old(self)@.query_params.len() ==> final(self)@.query_params[j] == upd_kv_value(
                    old(self)@.query_params[j],
                    id, value@,
                ),
            final(self)@.endpoints == old(self)@.endpoints,
            final(self)@.responses == old(self)@.responses,
            final(self)@.headers == old(self)@.headers,
            final(self)@.next_endpoint_id == old(self)@.next_endpoint_id,
            final(self)@.next_response_id == old(self)@.next_response_id,
            final(self)@.next_query_param_id == old(self)@.next_query_param_id,
            final(self)@.next_header_id == old(self)@.next_header_id,
            final(self)@.wf(),
    {
        let ghost pre = self@;
        let mut out: Vec<KvRow> = Vec::new();
        let mut i: usize = 0;
        while i < self.query_params.len()
            invariant
                i <= self.query_params@.len(),
                out@.len() == i,
                forall|j: int| 0 <= j < i ==> out@[j]@ == upd_kv_value(pre.query_params[j], id, value@),
            decreases self.query_params@.len() - i,
        {
            let row = &self.query_params[i];
            if row.id == id {
                out.push(KvRow { id: row.id, parent_response_id: row.parent_response_id, key: row.key.clone(), value: value.to_owned() });
            } else {
                out.push(row.dup());
            }
            proof {
                assert(out@[i as int]@ == upd_kv_value(pre.query_params[i as int], id, value@));
            }
            i = i + 1;
        }
        self.query_params = out;
        proof {
            let ghost post = self@;
            assert(post.query_params =~= seq_views(out@));
            assert forall|j: int| 0 <= j < pre.query_params.len() implies post.query_params[j] == upd_kv_value(pre.query_params[j], id, value@) by {
                assert(out@[j]@ == upd_kv_value(pre.query_params[j], id, value@));
                assert(seq_views(out@)[j] == out@[j]@);
            }
            assert forall|j: int| 0 <= j < pre.query_params.len() implies #[trigger] post.query_params[j].id
                == pre.query_params[j].id && post.query_params[j].parent_response_id == pre.query_params[j].parent_response_id by {
                assert(post.query_params[j] == upd_kv_value(pre.query_params[j], id, value@));
            }
            lemma_same_ids_keep_bounds(pre, post);
        }
    }

    /// Overwrites both the key and the value of the header rows matching
    /// `id`.
    #[verifier::rlimit(100)]
    #[verifier::loop_isolation(false)]
    pub fn update_header(&mut self, id: u64, key: &str, value: &str)
        requires
            old(self)@.wf(),
        ensures
            final(self)@.headers.len() == old(self)@.headers.len(),
            forall|j: int|
                0 <= j < old(self)@.headers.len() ==> final(self)@.headers[j] == upd_kv(
                    old(self)@.headers[j],
                    id, key@, value@,
                ),
            final(self)@.endpoints == old(self)@.endpoints,
            final(self)@.responses == old(self)@.responses,
            final(self)@.query_params == old(self)@.query_params,
            final(self)@.next_endpoint_id == old(self)@.next_endpoint_id,
            final(self)@.next_response_id == old(self)@.next_response_id,
            final(self)@.next_query_param_id == old(self)@.next_query_param_id,
            final(self)@.next_header_id == old(self)@.next_header_id,
            final(self)@.wf(),
    {
        let ghost pre = self@;
        let mut out: Vec<KvRow> = Vec::new();
        let mut i: usize = 0;
        while i < self.headers.len()
            invariant
                i <= self.headers@.len(),
                out@.len() == i,
                forall|j: int| 0 <= j < i ==> out@[j]@ == upd_kv(pre.headers[j], id, key@, value@),
            decreases self.headers@.len() - i,
        {
            let row = &self.headers[i];
            if row.id == id {
                out.push(KvRow { id: row.id, parent_response_id: row.parent_response_id, key: key.to_owned(), value: value.to_owned() });
            } else {
                out.push(row.dup());
            }
            proof {
                assert(out@[i as int]@ == upd_kv(pre.headers[i as int], id, key@, value@));
            }
            i = i + 1;
        }
        self.headers = out;
        proof {
            let ghost post = self@;
            assert(post.headers =~= seq_views(out@));
            assert forall|j: int| 0 <= j < pre.headers.len() implies post.headers[j] == upd_kv(pre.headers[j], id, key@, value@) by {
                assert(out@[j]@ == upd_kv(pre.headers[j], id, key@, value@));
                assert(seq_views(out@)[j] == out@[j]@);
            }
            assert forall|j: int| 0 <= j < pre.headers.len() implies #[trigger] post.headers[j].id
                == pre.headers[j].id && post.headers[j].parent_response_id == pre.headers[j].parent_response_id by {
                assert(post.headers[j] == upd_kv(pre.headers[j], id, key@, value@));
            }
            lemma_same_ids_keep_bounds(pre, post);
        }
    }

    /// Renames the header rows matching `id`.
    #[verifier::rlimit(100)]
    #[verifier::loop_isolation(false)]
    pub fn update_header_key(&mut self, id: u64, key: &str)
        requires
            old(self)@.wf(),
        ensures
            final(self)@.headers.len() == old(self)@.headers.len(),
            forall|j: int|
                0 <= j < old(self)@.headers.len() ==> final(self)@.headers[j] == upd_kv_key(
                    old(self)@.headers[j],
                    id, key@,
                ),
            final(self)@.endpoints == old(self)@.endpoints,
            final(self)@.responses == old(self)@.responses,
            final(self)@.query_params == old(self)@.query_params,
            final(self)@.next_endpoint_id == old(self)@.next_endpoint_id,
            final(self)@.next_response_id == old(self)@.next_response_id,
            final(self)@.next_query_param_id == old(self)@.next_query_param_id,
            final(self)@.next_header_id == old(self)@.next_header_id,
            final(self)@.wf(),
    {
        let ghost pre = self@;
        let mut out: Vec<KvRow> = Vec::new();
        let mut i: usize = 0;
        while i < self.headers.len()
            invariant
                i <= self.headers@.len(),
                out@.len() == i,
                forall|j: int| 0 <= j < i ==> out@[j]@ == upd_kv_key(pre.headers[j], id, key@),
            decreases self.headers@.len() - i,
        {
            let row = &self.headers[i];
            if row.id == id {
                out.push(KvRow { id: row.id, parent_response_id: row.parent_response_id, key: key.to_owned(), value: row.value.clone() });
            } else {
                out.push(row.dup());
            }
            proof {
                assert(out@[i as int]@ == upd_kv_key(pre.headers[i as int], id, key@));
            }
            i = i + 1;
        }
        self.headers = out;
        proof {
            let ghost post = self@;
            assert(post.headers =~= seq_views(out@));
            assert forall|j: int| 0 <= j < pre.headers.len() implies post.headers[j] == upd_kv_key(pre.headers[j], id, key@) by {
                assert(out@[j]@ == upd_kv_key(pre.headers[j], id, key@));
                assert(seq_views(out@)[j] == out@[j]@);
            }
            assert forall|j: int| 0 <= j < pre.headers.len() implies #[trigger] post.headers[j].id
                == pre.headers[j].id && post.headers[j].parent_response_id == pre.headers[j].parent_response_id by {
                assert(post.headers[j] == upd_kv_key(pre.headers[j], id, key@));
            }
            lemma_same_ids_keep_bounds(pre, post);
        }
    }

    /// Overwrites the value of the header rows matching `id`.
    #[verifier::rlimit(100)]
    #[verifier::loop_isolation(false)]
    pub fn update_header_value(&mut self, id: u64, value: &str)
        requires
            old(self)@.wf(),
        ensures
            final(self)@.headers.len() == old(self)@.headers.len(),
            forall|j: int|
                0 <= j < old(self)@.headers.len() ==> final(self)@.headers[j] == upd_kv_value(
                    old(self)@.headers[j],
                    id, value@,
                ),
            final(self)@.endpoints == old(self)@.endpoints,
            final(self)@.responses == old(self)@.responses,
            final(self)@.query_params == old(self)@.query_params,
            final(self)@.next_endpoint_id == old(self)@.next_endpoint_id,
            final(self)@.next_response_id == old(self)@.next_response_id,
            final(self)@.next_query_param_id == old(self)@.next_query_param_id,
            final(self)@.next_header_id == old(self)@.next_header_id,
            final(self)@.wf(),
    {
        let ghost pre = self@;
        let mut out: Vec<KvRow> = Vec::new();
        let mut i: usize = 0;
        while i < self.headers.len()
            invariant
                i <= self.headers@.len(),
                out@.len() == i,
                forall|j: int| 0 <= j < i ==> out@[j]@ == upd_kv_value(pre.headers[j], id, value@),
            decreases self.headers@.len() - i,
        {
            let row = &self.headers[i];
            if row.id == id {
                out.push(KvRow { id: row.id, parent_response_id: row.parent_response_id, key: row.key.clone(), value: value.to_owned() });
            } else {
                out.push(row.dup());
            }
            proof {
                assert(out@[i as int]@ == upd_kv_value(pre.headers[i as int], id, value@));
            }
            i = i + 1;
        }
        self.headers = out;
        proof {
            let ghost post = self@;
            assert(post.headers =~= seq_views(out@));
            assert forall|j: int| 0 <= j < pre.headers.len() implies post.headers[j] == upd_kv_value(pre.headers[j], id, value@) by {
                assert(out@[j]@ == upd_kv_value(pre.headers[j], id, value@));
                assert(seq_views(out@)[j] == out@[j]@);
            }
            assert forall|j: int| 0 <= j < pre.headers.len() implies #[trigger] post.headers[j].id
                == pre.headers[j].id && post.headers[j].parent_response_id == pre.headers[j].parent_response_id by {
                assert(post.headers[j] == upd_kv_value(pre.headers[j], id, value@));
            }
            lemma_same_ids_keep_bounds(pre, post);
        }
    }

}

/// Keeps the endpoint rows whose id differs from `id`.
#[verifier::rlimit(50)]
#[verifier::loop_isolation(false)]
fn retain_endpoints_id_ne(v: &Vec<EndpointRow>, id: u64) -> (r: Vec<EndpointRow>)
    ensures
        seq_views(r@) == seq_views(v@).filter(|e: ERowView| e.id != id),
{
    let ghost rows = seq_views(v@);
    let ghost pred = |e: ERowView| e.id != id;
    let mut r: Vec<EndpointRow> = Vec::new();
    let mut i: usize = 0;
    proof {
        assert(rows.take(0) =~= Seq::<ERowView>::empty());
        reveal(Seq::filter);
        assert(seq_views(r@) =~= rows.take(0).filter(pred));
    }
    while i < v.len()
        invariant
            rows == seq_views(v@),
            i <= v@.len(),
            seq_views(r@) == rows.take(i as int).filter(pred),
        decreases v@.len() - i,
    {
        proof {
            reveal(Seq::filter);
            assert(rows.take(i as int + 1).drop_last() =~= rows.take(i as int));
            assert(rows.take(i as int + 1).last() == rows[i as int]);
            crate::list::lemma_filter_push(rows.take(i as int), pred, rows[i as int]);
            assert(rows.take(i as int).push(rows[i as int]) =~= rows.take(i as int + 1));
        }
        if v[i].id != id {
            r.push(v[i].dup());
            proof {
                assert(seq_views(r@) =~= rows.take(i as int).filter(pred).push(rows[i as int]));
            }
        }
        i = i + 1;
    }
    proof {
        assert(rows.take(v@.len() as int) =~= rows);
    }
    r
}

/// Keeps the response rows whose parent endpoint differs from `id`.
#[verifier::rlimit(50)]
#[verifier::loop_isolation(false)]
fn retain_responses_parent_ne(v: &Vec<ResponseRow>, id: u64) -> (r: Vec<ResponseRow>)
    ensures
        seq_views(r@) == seq_views(v@).filter(|row: RRowView| row.parent_endpoint_id != id),
{
    let ghost rows = seq_views(v@);
    let ghost pred = |row: RRowView| row.parent_endpoint_id != id;
    let mut r: Vec<ResponseRow> = Vec::new();
    let mut i: usize = 0;
    proof {
        assert(rows.take(0) =~= Seq::<RRowView>::empty());
        reveal(Seq::filter);
        assert(seq_views(r@) =~= rows.take(0).filter(pred));
    }
    while i < v.len()
        invariant
            rows == seq_views(v@),
            i <= v@.len(),
            seq_views(r@) == rows.take(i as int).filter(pred),
        decreases v@.len() - i,
    {
        proof {
            reveal(Seq::filter);
            assert(rows.take(i as int + 1).drop_last() =~= rows.take(i as int));
            assert(rows.take(i as int + 1).last() == rows[i as int]);
            crate::list::lemma_filter_push(rows.take(i as int), pred, rows[i as int]);
            assert(rows.take(i as int).push(rows[i as int]) =~= rows.take(i as int + 1));
        }
        if v[i].parent_endpoint_id != id {
            r.push(v[i].dup());
            proof {
                assert(seq_views(r@) =~= rows.take(i as int).filter(pred).push(rows[i as int]));
            }
        }
        i = i + 1;
    }
    proof {
        assert(rows.take(v@.len() as int) =~= rows);
    }
    r
}

/// Keeps the response rows whose id differs from `id`.
#[verifier::rlimit(50)]
#[verifier::loop_isolation(false)]
fn retain_responses_id_ne(v: &Vec<ResponseRow>, id: u64) -> (r: Vec<ResponseRow>)
    ensures
        seq_views(r@) == seq_views(v@).filter(|row: RRowView| row.id != id),
{
    let ghost rows = seq_views(v@);
    let ghost pred = |row: RRowView| row.id != id;
    let mut r: Vec<ResponseRow> = Vec::new();
    let mut i: usize = 0;
    proof {
        assert(rows.take(0) =~= Seq::<RRowView>::empty());
        reveal(Seq::filter);
        assert(seq_views(r@) =~= rows.take(0).filter(pred));
    }
    while i < v.len()
        invariant
            rows == seq_views(v@),
            i <= v@.len(),
            seq_views(r@) == rows.take(i as int).filter(pred),
        decreases v@.len() - i,
    {
        proof {
            reveal(Seq::filter);
            assert(rows.take(i as int + 1).drop_last() =~= rows.take(i as int));
            assert(rows.take(i as int + 1).last() == rows[i as int]);
            crate::list::lemma_filter_push(rows.take(i as int), pred, rows[i as int]);
            assert(rows.take(i as int).push(rows[i as int]) =~= rows.take(i as int + 1));
        }
        if v[i].id != id {
            r.push(v[i].dup());
            proof {
                assert(seq_views(r@) =~= rows.take(i as int).filter(pred).push(rows[i as int]));
            }
        }
        i = i + 1;
    }
    proof {
        assert(rows.take(v@.len() as int) =~= rows);
    }
    r
}

/// Keeps the key-value rows whose id differs from `id`.
#[verifier::rlimit(50)]
#[verifier::loop_isolation(false)]
fn retain_kvs_id_ne(v: &Vec<KvRow>, id: u64) -> (r: Vec<KvRow>)
    ensures
        seq_views(r@) == seq_views(v@).filter(|k: KvRowView| k.id != id),
{
    let ghost rows = seq_views(v@);
    let ghost pred = |k: KvRowView| k.id != id;
    let mut r: Vec<KvRow> = Vec::new();
    let mut i: usize = 0;
    proof {
        assert(rows.take(0) =~= Seq::<KvRowView>::empty());
        reveal(Seq::filter);
        assert(seq_views(r@) =~= rows.take(0).filter(pred));
    }
    while i < v.len()
        invariant
            rows == seq_views(v@),
            i <= v@.len(),
            seq_views(r@) == rows.take(i as int).filter(pred),
        decreases v@.len() - i,
    {
        proof {
            reveal(Seq::filter);
            assert(rows.take(i as int + 1).drop_last() =~= rows.take(i as int));
            assert(rows.take(i as int + 1).last() == rows[i as int]);
            crate::list::lemma_filter_push(rows.take(i as int), pred, rows[i as int]);
            assert(rows.take(i as int).push(rows[i as int]) =~= rows.take(i as int + 1));
        }
        if v[i].id != id {
            r.push(v[i].dup());
            proof {
                assert(seq_views(r@) =~= rows.take(i as int).filter(pred).push(rows[i as int]));
            }
        }
        i = i + 1;
    }
    proof {
        assert(rows.take(v@.len() as int) =~= rows);
    }
    r
}

/// Keeps the key-value rows whose parent response differs from `parent`.
#[verifier::rlimit(50)]
#[verifier::loop_isolation(false)]
fn retain_kvs_parent_ne(v: &Vec<KvRow>, parent: u64) -> (r: Vec<KvRow>)
    ensures
        seq_views(r@) == seq_views(v@).filter(|k: KvRowView| k.parent_response_id != parent),
{
    let ghost rows = seq_views(v@);
    let ghost pred = |k: KvRowView| k.parent_response_id != parent;
    let mut r: Vec<KvRow> = Vec::new();
    let mut i: usize = 0;
    proof {
        assert(rows.take(0) =~= Seq::<KvRowView>::empty());
        reveal(Seq::filter);
        assert(seq_views(r@) =~= rows.take(0).filter(pred));
    }
    while i < v.len()
        invariant
            rows == seq_views(v@),
            i <= v@.len(),
            seq_views(r@) == rows.take(i as int).filter(pred),
        decreases v@.len() - i,
    {
        proof {
            reveal(Seq::filter);
            assert(rows.take(i as int + 1).drop_last() =~= rows.take(i as int));
            assert(rows.take(i as int + 1).last() == rows[i as int]);
            crate::list::lemma_filter_push(rows.take(i as int), pred, rows[i as int]);
            assert(rows.take(i as int).push(rows[i as int]) =~= rows.take(i as int + 1));
        }
        if v[i].parent_response_id != parent {
            r.push(v[i].dup());
            proof {
                assert(seq_views(r@) =~= rows.take(i as int).filter(pred).push(rows[i as int]));
            }
        }
        i = i + 1;
    }
    proof {
        assert(rows.take(v@.len() as int) =~= rows);
    }
    r
}

/// Keeps the key-value rows whose parent response does not belong to the
/// endpoint `eid`.
#[verifier::rlimit(50)]
#[verifier::loop_isolation(false)]
fn retain_kvs_not_of_endpoint(v: &Vec<KvRow>, rs: &Vec<ResponseRow>, eid: u64) -> (r: Vec<KvRow>)
    ensures
        seq_views(r@) == seq_views(v@).filter(
            |k: KvRowView| !response_of_endpoint(seq_views(rs@), k.parent_response_id, eid),
        ),
{
    let ghost rows = seq_views(v@);
    let ghost pred = |k: KvRowView|
        !response_of_endpoint(seq_views(rs@), k.parent_response_id, eid);
    let mut r: Vec<KvRow> = Vec::new();
    let mut i: usize = 0;
    proof {
        assert(rows.take(0) =~= Seq::<KvRowView>::empty());
        reveal(Seq::filter);
        assert(seq_views(r@) =~= rows.take(0).filter(pred));
    }
    while i < v.len()
        invariant
            rows == seq_views(v@),
            i <= v@.len(),
            seq_views(r@) == rows.take(i as int).filter(pred),
        decreases v@.len() - i,
    {
        proof {
            reveal(Seq::filter);
            assert(rows.take(i as int + 1).drop_last() =~= rows.take(i as int));
            assert(rows.take(i as int + 1).last() == rows[i as int]);
            crate::list::lemma_filter_push(rows.take(i as int), pred, rows[i as int]);
            assert(rows.take(i as int).push(rows[i as int]) =~= rows.take(i as int + 1));
        }
        if !response_belongs(rs, v[i].parent_response_id, eid) {
            r.push(v[i].dup());
            proof {
                assert(seq_views(r@) =~= rows.take(i as int).filter(pred).push(rows[i as int]));
            }
        }
        i = i + 1;
    }
    proof {
        assert(rows.take(v@.len() as int) =~= rows);
    }
    r
}

/// A store whose tables each shrank to a subset of the old rows, with the
/// id counters unchanged, stays well-formed.
proof fn lemma_filtered_rows_keep_bounds(pre: StoreView, post: StoreView)
    requires
        pre.wf(),
        forall|i: int|
            0 <= i < post.endpoints.len() ==> pre.endpoints.contains(#[trigger] post.endpoints[i]),
        forall|i: int|
            0 <= i < post.responses.len() ==> pre.responses.contains(#[trigger] post.responses[i]),
        forall|i: int|
            0 <= i < post.query_params.len() ==> pre.query_params.contains(
                #[trigger] post.query_params[i],
            ),
        forall|i: int|
            0 <= i < post.headers.len() ==> pre.headers.contains(#[trigger] post.headers[i]),
        post.next_endpoint_id == pre.next_endpoint_id,
        post.next_response_id == pre.next_response_id,
        post.next_query_param_id == pre.next_query_param_id,
        post.next_header_id == pre.next_header_id,
    ensures
        post.wf(),
{
    assert forall|i: int| 0 <= i < post.endpoints.len() implies post.endpoints[i].id
        < post.next_endpoint_id by {
        let j = choose|j: int|
            0 <= j < pre.endpoints.len() && pre.endpoints[j] == post.endpoints[i];
    }
    assert forall|i: int| 0 <= i < post.responses.len() implies post.responses[i].id
        < post.next_response_id && post.responses[i].parent_endpoint_id
        < post.next_endpoint_id by {
        let j = choose|j: int|
            0 <= j < pre.responses.len() && pre.responses[j] == post.responses[i];
    }
    assert forall|i: int| 0 <= i < post.query_params.len() implies post.query_params[i].id
        < post.next_query_param_id && post.query_params[i].parent_response_id
        < post.next_response_id by {
        let j = choose|j: int|
            0 <= j < pre.query_params.len() && pre.query_params[j] == post.query_params[i];
    }
    assert forall|i: int| 0 <= i < post.headers.len() implies post.headers[i].id
        < post.next_header_id && post.headers[i].parent_response_id < post.next_response_id by {
        let j = choose|j: int| 0 <= j < pre.headers.len() && pre.headers[j] == post.headers[i];
    }
}

/// A store whose rows kept their ids and parents, with everything else
/// unchanged, stays well-formed.
proof fn lemma_same_ids_keep_bounds(pre: StoreView, post: StoreView)
    requires
        pre.wf(),
        post.endpoints.len() == pre.endpoints.len(),
        forall|j: int|
            0 <= j < pre.endpoints.len() ==> #[trigger] post.endpoints[j].id
                == pre.endpoints[j].id,
        post.responses.len() == pre.responses.len(),
        forall|j: int|
            0 <= j < pre.responses.len() ==> #[trigger] post.responses[j].id
                == pre.responses[j].id && post.responses[j].parent_endpoint_id
                == pre.responses[j].parent_endpoint_id,
        post.query_params.len() == pre.query_params.len(),
        forall|j: int|
            0 <= j < pre.query_params.len() ==> #[trigger] post.query_params[j].id
                == pre.query_params[j].id && post.query_params[j].parent_response_id
                == pre.query_params[j].parent_response_id,
        post.headers.len() == pre.headers.len(),
        forall|j: int|
            0 <= j < pre.headers.len() ==> #[trigger] post.headers[j].id == pre.headers[j].id
                && post.headers[j].parent_response_id == pre.headers[j].parent_response_id,
        post.next_endpoint_id == pre.next_endpoint_id,
        post.next_response_id == pre.next_response_id,
        post.next_query_param_id == pre.next_query_param_id,
        post.next_header_id == pre.next_header_id,
    ensures
        post.wf(),
{
    assert forall|i: int| 0 <= i < post.endpoints.len() implies post.endpoints[i].id
        < post.next_endpoint_id by {
        assert(post.endpoints[i].id == pre.endpoints[i].id);
    }
    assert forall|i: int| 0 <= i < post.responses.len() implies post.responses[i].id
        < post.next_response_id && post.responses[i].parent_endpoint_id
        < post.next_endpoint_id by {
        assert(post.responses[i].id == pre.responses[i].id && post.responses[i].parent_endpoint_id
            == pre.responses[i].parent_endpoint_id);
    }
    assert forall|i: int| 0 <= i < post.query_params.len() implies post.query_params[i].id
        < post.next_query_param_id && post.query_params[i].parent_response_id
        < post.next_response_id by {
        assert(post.query_params[i].id == pre.query_params[i].id
            && post.query_params[i].parent_response_id
            == pre.query_params[i].parent_response_id);
    }
    assert forall|i: int| 0 <= i < post.headers.len() implies post.headers[i].id
        < post.next_header_id && post.headers[i].parent_response_id < post.next_response_id by {
        assert(post.headers[i].id == pre.headers[i].id && post.headers[i].parent_response_id
            == pre.headers[i].parent_response_id);
    }
}

/// Law: deleting an endpoint removes every descendant. After the delete,
/// no response row belongs to the endpoint, and no pair row belongs to a
/// response the endpoint used to own.
pub proof fn lemma_delete_endpoint_cascades(pre: StoreView, post: StoreView, id: u64)
    requires
        post.responses == pre.responses.filter(|r: RRowView| r.parent_endpoint_id != id),
        post.query_params == pre.query_params.filter(
            |k: KvRowView| !response_of_endpoint(pre.responses, k.parent_response_id, id),
        ),
        post.headers == pre.headers.filter(
            |k: KvRowView| !response_of_endpoint(pre.responses, k.parent_response_id, id),
        ),
    ensures
        forall|i: int|
            0 <= i < post.responses.len() ==> (#[trigger] post.responses[i]).parent_endpoint_id
                != id,
        forall|i: int|
            0 <= i < post.query_params.len() ==> !response_of_endpoint(
                pre.responses,
                (#[trigger] post.query_params[i]).parent_response_id,
                id,
            ),
        forall|i: int|
            0 <= i < post.headers.len() ==> !response_of_endpoint(
                pre.responses,
                (#[trigger] post.headers[i]).parent_response_id,
                id,
            ),
{
    assert forall|i: int| 0 <= i < post.responses.len() implies (
    #[trigger] post.responses[i]).parent_endpoint_id != id by {
        pre.responses.lemma_filter_pred(|r: RRowView| r.parent_endpoint_id != id, i);
    }
    assert forall|i: int| 0 <= i < post.query_params.len() implies !response_of_endpoint(
        pre.responses,
        (#[trigger] post.query_params[i]).parent_response_id,
        id,
    ) by {
        pre.query_params.lemma_filter_pred(
            |k: KvRowView| !response_of_endpoint(pre.responses, k.parent_response_id, id),
            i,
        );
    }
    assert forall|i: int| 0 <= i < post.headers.len() implies !response_of_endpoint(
        pre.responses,
        (#[trigger] post.headers[i]).parent_response_id,
        id,
    ) by {
        pre.headers.lemma_filter_pred(
            |k: KvRowView| !response_of_endpoint(pre.responses, k.parent_response_id, id),
            i,
        );
    }
}

/// An endpoint not touched by a save loads exactly as before: the new rows
/// all belong elsewhere.
proof fn lemma_old_endpoint_loads_same(
    pre: StoreView,
    post: StoreView,
    e: ERowView,
    newr: Seq<RRowView>,
    newq: Seq<KvRowView>,
    newh: Seq<KvRowView>,
)
    requires
        pre.wf(),
        post.responses == pre.responses + newr,
        post.query_params == pre.query_params + newq,
        post.headers == pre.headers + newh,
        forall|i: int|
            0 <= i < newr.len() ==> (#[trigger] newr[i]).parent_endpoint_id != e.id,
        forall|i: int|
            0 <= i < newq.len() ==> (#[trigger] newq[i]).parent_response_id
                >= pre.next_response_id,
        forall|i: int|
            0 <= i < newh.len() ==> (#[trigger] newh[i]).parent_response_id
                >= pre.next_response_id,
    ensures
        loaded_endpoint(post, e) == loaded_endpoint(pre, e),
{
    let p = |r: RRowView| r.parent_endpoint_id == e.id;
    Seq::filter_distributes_over_add(pre.responses, newr, p);
    crate::list::lemma_filter_none(newr, p);
    assert((pre.responses + newr).filter(p) =~= pre.responses.filter(p));
    let fr = pre.responses.filter(p);
    crate::list::lemma_filter_in_original(pre.responses, p);
    assert forall|i: int| 0 <= i < fr.len() implies loaded_response(post, #[trigger] fr[i])
        == loaded_response(pre, fr[i]) by {
        let r = fr[i];
        assert(pre.responses.contains(r));
        let j = choose|j: int| 0 <= j < pre.responses.len() && pre.responses[j] == r;
        assert(r.id < pre.next_response_id);
        let q = |k: KvRowView| k.parent_response_id == r.id;
        Seq::filter_distributes_over_add(pre.query_params, newq, q);
        crate::list::lemma_filter_none(newq, q);
        assert((pre.query_params + newq).filter(q) =~= pre.query_params.filter(q));
        Seq::filter_distributes_over_add(pre.headers, newh, q);
        crate::list::lemma_filter_none(newh, q);
        assert((pre.headers + newh).filter(q) =~= pre.headers.filter(q));
        assert(kvs_of_response(post.query_params, r.id) == kvs_of_response(
            pre.query_params,
            r.id,
        ));
        assert(kvs_of_response(post.headers, r.id) == kvs_of_response(pre.headers, r.id));
        assert(loaded_response(post, r) =~= loaded_response(pre, r));
    }
    assert(loaded_responses(post, post.responses, e.id) =~= loaded_responses(
        pre,
        pre.responses,
        e.id,
    ));
    assert(loaded_endpoint(post, e) =~= loaded_endpoint(pre, e));
}

/// Law: saving a fresh endpoint with one recorded exchange and then
/// loading the whole store yields exactly that graph first — same URL,
/// method, response text, status code and receive time, and every pair of
/// each side in order (disabled ones included, loaded switched on, since
/// this schema stores the row but not the toggle) — followed by
/// everything that loaded before, unchanged.
#[verifier::rlimit(100)]
pub proof fn lemma_create_then_load_roundtrip(
    pre: StoreView,
    post: StoreView,
    ev: EndpointView,
    now: i64,
)
    requires
        pre.wf(),
        ev.responses.len() == 1,
        pre.next_endpoint_id < u64::MAX,
        pre.next_response_id + ev.responses.len() <= u64::MAX,
        pre.next_query_param_id + total_kvs(ev.responses, false) <= u64::MAX,
        pre.next_header_id + total_kvs(ev.responses, true) <= u64::MAX,
        post == (StoreView {
            endpoints: pre.endpoints.push(
                ERowView { id: pre.next_endpoint_id, url: ev.url, method: ev.method },
            ),
            responses: pre.responses + created_response_rows(
                ev.responses,
                pre.next_endpoint_id,
                pre.next_response_id as int,
                now,
            ),
            query_params: pre.query_params + created_kv_rows(
                ev.responses,
                false,
                pre.next_response_id as int,
                pre.next_query_param_id as int,
            ),
            headers: pre.headers + created_kv_rows(
                ev.responses,
                true,
                pre.next_response_id as int,
                pre.next_header_id as int,
            ),
            next_endpoint_id: (pre.next_endpoint_id + 1) as u64,
            next_response_id: (pre.next_response_id + ev.responses.len()) as u64,
            next_query_param_id: (pre.next_query_param_id + total_kvs(
                ev.responses,
                false,
            )) as u64,
            next_header_id: (pre.next_header_id + total_kvs(ev.responses, true)) as u64,
        }),
    ensures
        load_spec(post, Option::None).len() == load_spec(pre, Option::None).len() + 1,
        load_spec(post, Option::None).skip(1) == load_spec(pre, Option::None),
        ({
            let g = load_spec(post, Option::None)[0];
            let qs = ev.responses[0].request.query_params;
            let hs = ev.responses[0].request.headers;
            &&& g.id == pre.next_endpoint_id
            &&& g.url == ev.url
            &&& g.method == ev.method
            &&& g.responses.len() == 1
            &&& g.responses[0].parent_endpoint_id == pre.next_endpoint_id
            &&& g.responses[0].text == ev.responses[0].text
            &&& g.responses[0].code == ev.responses[0].code
            &&& g.responses[0].received_time == now
            &&& g.responses[0].request.query_params.len() == qs.len()
            &&& (forall|j: int|
                0 <= j < qs.len() ==> {
                    let lk = #[trigger] g.responses[0].request.query_params[j];
                    lk.key == qs[j].key && lk.value == qs[j].value && lk.on
                })
            &&& g.responses[0].request.headers.len() == hs.len()
            &&& (forall|j: int|
                0 <= j < hs.len() ==> {
                    let lk = #[trigger] g.responses[0].request.headers[j];
                    lk.key == hs[j].key && lk.value == hs[j].value && lk.on
                })
        }),
{
    let eid = pre.next_endpoint_id;
    let rid0 = pre.next_response_id as int;
    let kq0 = pre.next_query_param_id as int;
    let kh0 = pre.next_header_id as int;
    let erow = ERowView { id: eid, url: ev.url, method: ev.method };
    let rv = ev.responses[0];
    let newr = created_response_rows(ev.responses, eid, rid0, now);
    let newq = created_kv_rows(ev.responses, false, rid0, kq0);
    let newh = created_kv_rows(ev.responses, true, rid0, kh0);
    assert(newr.len() == 1);
    let rrow = newr[0];
    assert(rrow.id == pre.next_response_id);
    assert(ev.responses.drop_last() =~= Seq::<ResponseView>::empty());
    assert(ev.responses.last() == rv);
    assert(total_kvs(ev.responses.drop_last(), false) == 0);
    assert(total_kvs(ev.responses.drop_last(), true) == 0);
    assert(created_kv_rows(ev.responses.drop_last(), false, rid0, kq0) == Seq::<
        KvRowView,
    >::empty());
    assert(created_kv_rows(ev.responses.drop_last(), true, rid0, kh0) == Seq::<
        KvRowView,
    >::empty());
    let qkvs = kvs_of(rv, false);
    let hkvs = kvs_of(rv, true);
    assert(newq =~= Seq::<KvRowView>::empty() + kv_block(qkvs, rid0, kq0));
    assert(newq =~= kv_block(qkvs, rid0, kq0));
    assert(newh =~= Seq::<KvRowView>::empty() + kv_block(hkvs, rid0, kh0));
    assert(newh =~= kv_block(hkvs, rid0, kh0));
    lemma_total_kvs_nonneg(ev.responses, false);
    lemma_total_kvs_nonneg(ev.responses, true);

    // The two loaded lists, with the always-true search filter removed.
    let pnone = |e: ERowView| url_matches(e.url, Option::<Seq<char>>::None);
    let gpost = |e: ERowView| loaded_endpoint(post, e);
    let gpre = |e: ERowView| loaded_endpoint(pre, e);
    assert(post.endpoints.reverse() =~= seq![erow] + pre.endpoints.reverse());
    crate::list::lemma_filter_all(post.endpoints.reverse(), pnone);
    crate::list::lemma_filter_all(pre.endpoints.reverse(), pnone);
    assert(load_spec(post, Option::None) == post.endpoints.reverse().map_values(gpost));
    assert(load_spec(pre, Option::None) == pre.endpoints.reverse().map_values(gpre));

    // Old endpoints load exactly as before.
    assert forall|i: int| 0 <= i < pre.endpoints.len() implies gpost(
        #[trigger] pre.endpoints.reverse()[i],
    ) == gpre(pre.endpoints.reverse()[i]) by {
        let e = pre.endpoints.reverse()[i];
        assert(e == pre.endpoints[pre.endpoints.len() - 1 - i]);
        assert(e.id < pre.next_endpoint_id);
        assert forall|t: int| 0 <= t < newr.len() implies (#[trigger] newr[t]).parent_endpoint_id
            != e.id by {
            assert(newr[t].parent_endpoint_id == eid);
        }
        assert forall|t: int| 0 <= t < newq.len() implies (#[trigger] newq[t]).parent_response_id
            >= pre.next_response_id by {
            assert(newq[t] == kv_block(qkvs, rid0, kq0)[t]);
        }
        assert forall|t: int| 0 <= t < newh.len() implies (#[trigger] newh[t]).parent_response_id
            >= pre.next_response_id by {
            assert(newh[t] == kv_block(hkvs, rid0, kh0)[t]);
        }
        lemma_old_endpoint_loads_same(pre, post, e, newr, newq, newh);
    }

    // The fresh endpoint's graph.
    let pnew = |r: RRowView| r.parent_endpoint_id == eid;
    Seq::filter_distributes_over_add(pre.responses, newr, pnew);
    crate::list::lemma_filter_none(pre.responses, pnew);
    crate::list::lemma_filter_all(newr, pnew);
    assert(post.responses.filter(pnew) =~= newr);
    let q = |k: KvRowView| k.parent_response_id == rrow.id;
    Seq::filter_distributes_over_add(pre.query_params, newq, q);
    crate::list::lemma_filter_none(pre.query_params, q);
    assert forall|t: int| 0 <= t < newq.len() implies q(#[trigger] newq[t]) by {
        assert(newq[t] == kv_block(qkvs, rid0, kq0)[t]);
    }
    crate::list::lemma_filter_all(newq, q);
    assert(post.query_params.filter(q) =~= newq);
    Seq::filter_distributes_over_add(pre.headers, newh, q);
    crate::list::lemma_filter_none(pre.headers, q);
    assert forall|t: int| 0 <= t < newh.len() implies q(#[trigger] newh[t]) by {
        assert(newh[t] == kv_block(hkvs, rid0, kh0)[t]);
    }
    crate::list::lemma_filter_all(newh, q);
    assert(post.headers.filter(q) =~= newh);
    assert(kvs_of_response(post.query_params, rrow.id) =~= newq.map_values(
        |k: KvRowView| kv_of_row(k),
    ));
    assert(kvs_of_response(post.headers, rrow.id) =~= newh.map_values(
        |k: KvRowView| kv_of_row(k),
    ));
    assert(loaded_responses(post, post.responses, eid) =~= newr.map_values(
        |r: RRowView| loaded_response(post, r),
    ));
    assert(loaded_responses(post, post.responses, eid).len() == 1);
    assert(loaded_responses(post, post.responses, eid)[0] == loaded_response(post, rrow));

    // Put the list together.
    assert(load_spec(post, Option::None) =~= seq![loaded_endpoint(post, erow)]
        + pre.endpoints.reverse().map_values(gpost));
    assert(pre.endpoints.reverse().map_values(gpost) =~= pre.endpoints.reverse().map_values(
        gpre,
    ));
    assert(load_spec(post, Option::None).skip(1) =~= load_spec(pre, Option::None));
    let g = load_spec(post, Option::None)[0];
    assert(g == loaded_endpoint(post, erow));
    assert(g.responses[0] == loaded_response(post, rrow));
    let qs = ev.responses[0].request.query_params;
    let hs = ev.responses[0].request.headers;
    assert forall|j: int| 0 <= j < qs.len() implies {
        let lk = #[trigger] g.responses[0].request.query_params[j];
        lk.key == qs[j].key && lk.value == qs[j].value && lk.on
    } by {
        assert(g.responses[0].request.query_params[j] == kv_of_row(kv_block(qkvs, rid0, kq0)[j]));
    }
    assert forall|j: int| 0 <= j < hs.len() implies {
        let lk = #[trigger] g.responses[0].request.headers[j];
        lk.key == hs[j].key && lk.value == hs[j].value && lk.on
    } by {
        assert(g.responses[0].request.headers[j] == kv_of_row(kv_block(hkvs, rid0, kh0)[j]));
    }
}

} // verus!
