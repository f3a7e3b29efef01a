//! The reducer: one function from application state and incoming event to
//! the next state and the commands the outside loop must perform. Every
//! state change of the application happens here.

use vstd::prelude::*;

use crate::list::first_where;
use crate::list::lemma_first_where_found;
use crate::model::Command;
use crate::model::EndpointDb;
use crate::model::EndpointKvPair;
use crate::model::HttpMethod;
use crate::model::KvView;
use crate::model::Message;
use crate::model::MHeader;
use crate::model::MQueryParam;
use crate::model::Request;
use crate::model::State;
use crate::store::seq_views;
use crate::request::endpoint_index;
use crate::request::spec_current_endpoint;
use crate::request::spec_current_response;
use crate::request::string_pair_views;

verus! {

/// Index of the first pair with this id, or -1.
pub open spec fn kv_first(s: Seq<EndpointKvPair>, id: u64) -> int {
    first_where(s, |kv: EndpointKvPair| kv.id == id)
}

/// A freshly added pair: empty key and value, switched on, not yet owned
/// by any stored response.
pub open spec fn blank_kv(id: u64) -> KvView {
    KvView {
        id: id,
        parent_response_id: 0,
        key: Seq::empty(),
        value: Seq::empty(),
        on: true,
    }
}

/// The id the next pair added to a draft list gets: one past the last
/// pair's id, reusing the last id at the numeric ceiling.
pub open spec fn next_kv_id(s: Seq<EndpointKvPair>) -> u64 {
    if s.len() == 0 {
        0
    } else if s.last()@.id < u64::MAX {
        (s.last()@.id + 1) as u64
    } else {
        s.last()@.id
    }
}

/// One blank pair with this id was appended; nothing else moved.
pub open spec fn kv_blank_added(
    pre: Seq<EndpointKvPair>,
    post: Seq<EndpointKvPair>,
    id: u64,
) -> bool {
    &&& post.len() == pre.len() + 1
    &&& post.drop_last() == pre
    &&& post.last()@ == blank_kv(id)
}

/// The first pair with this id had its value overwritten; with no such
/// pair nothing changed.
pub open spec fn kv_value_updated(
    pre: Seq<EndpointKvPair>,
    post: Seq<EndpointKvPair>,
    id: u64,
    v: Seq<char>,
) -> bool {
    let k = kv_first(pre, id);
    if k < 0 {
        post == pre
    } else {
        &&& post.len() == pre.len()
        &&& forall|j: int| 0 <= j < pre.len() && j != k ==> post[j] == pre[j]
        &&& post[k]@ == (KvView { value: v, ..pre[k]@ })
    }
}

/// The first pair with this id had its key overwritten; with no such pair
/// nothing changed.
pub open spec fn kv_key_updated(
    pre: Seq<EndpointKvPair>,
    post: Seq<EndpointKvPair>,
    id: u64,
    key: Seq<char>,
) -> bool {
    let k = kv_first(pre, id);
    if k < 0 {
        post == pre
    } else {
        &&& post.len() == pre.len()
        &&& forall|j: int| 0 <= j < pre.len() && j != k ==> post[j] == pre[j]
        &&& post[k]@ == (KvView { key: key, ..pre[k]@ })
    }
}

/// The first pair with this id had its toggle flipped; with no such pair
/// nothing changed.
pub open spec fn kv_toggled(
    pre: Seq<EndpointKvPair>,
    post: Seq<EndpointKvPair>,
    id: u64,
) -> bool {
    let k = kv_first(pre, id);
    if k < 0 {
        post == pre
    } else {
        &&& post.len() == pre.len()
        &&& forall|j: int| 0 <= j < pre.len() && j != k ==> post[j] == pre[j]
        &&& post[k]@ == (KvView { on: !pre[k]@.on, ..pre[k]@ })
    }
}

/// The first pair with this id left the list; with no such pair nothing
/// changed.
pub open spec fn kv_removed(
    pre: Seq<EndpointKvPair>,
    post: Seq<EndpointKvPair>,
    id: u64,
) -> bool {
    let k = kv_first(pre, id);
    if k < 0 {
        post == pre
    } else {
        post == pre.remove(k)
    }
}

/// Position of the first pair with this id.
fn kv_position(v: &Vec<EndpointKvPair>, id: u64) -> (r: Option<usize>)
    ensures
        (match r {
            Option::Some(k) => {
                &&& kv_first(v@, id) == k as int
                &&& k < v@.len()
                &&& v@[k as int].id == id
            },
            Option::None => kv_first(v@, id) < 0,
        }),
{
    let n = v.len();
    let mut found: Option<usize> = Option::None;
    let mut i: usize = 0;
    while i < n
        invariant
            n == v@.len(),
            i <= n,
            (match found {
                Option::Some(k) => {
                    &&& k < i
                    &&& v@[k as int].id == id
                    &&& forall|j: int| 0 <= j < k ==> v@[j].id != id
                },
                Option::None => forall|j: int| 0 <= j < i ==> v@[j].id != id,
            }),
        decreases n - i,
    {
        if found.is_none() && v[i].id == id {
            found = Option::Some(i);
        }
        i = i + 1;
    }
    let ghost p = |kv: EndpointKvPair| kv.id == id;
    match found {
        Option::Some(k) => {
            proof {
                assert(p(v@[k as int]));
                assert forall|j: int| 0 <= j < k implies !p(v@[j]) by {}
                lemma_first_where_found(v@, p, k as int);
            }
            Option::Some(k)
        },
        Option::None => {
            proof {
                assert forall|j: int| 0 <= j < n implies !p(v@[j]) by {}
                lemma_first_where_found(v@, p, n as int);
            }
            Option::None
        },
    }
}

/// Appends one blank pair under this id.
fn push_blank_kv(v: &mut Vec<EndpointKvPair>, id: u64)
    ensures
        kv_blank_added(old(v)@, final(v)@, id),
{
    v.push(
        EndpointKvPair {
            id,
            parent_response_id: 0,
            key: String::new(),
            value: String::new(),
            on: true,
        },
    );
    proof {
        assert(final(v)@.drop_last() =~= old(v)@);
    }
}

/// The id a pair freshly added to this draft list gets.
fn fresh_draft_kv_id(v: &Vec<EndpointKvPair>) -> (r: u64)
    ensures
        r == next_kv_id(v@),
{
    let n = v.len();
    if n == 0 {
        0
    } else {
        let last_id = v[n - 1].id;
        if last_id < u64::MAX {
            last_id + 1
        } else {
            last_id
        }
    }
}

/// Overwrites the value of the first pair with this id, if any.
fn set_kv_value(v: &mut Vec<EndpointKvPair>, id: u64, content: String)
    ensures
        kv_value_updated(old(v)@, final(v)@, id, content@),
{
    match kv_position(v, id) {
        Option::Some(k) => {
            let kv = v.remove(k);
            v.insert(
                k,
                EndpointKvPair {
                    id: kv.id,
                    parent_response_id: kv.parent_response_id,
                    key: kv.key,
                    value: content,
                    on: kv.on,
                },
            );
            proof {
                assert(v@ =~= old(v)@.update(k as int, v@[k as int]));
            }
        },
        Option::None => {
        },
    }
}

/// Overwrites the key of the first pair with this id, if any.
fn set_kv_key(v: &mut Vec<EndpointKvPair>, id: u64, content: String)
    ensures
        kv_key_updated(old(v)@, final(v)@, id, content@),
{
    match kv_position(v, id) {
        Option::Some(k) => {
            let kv = v.remove(k);
            v.insert(
                k,
                EndpointKvPair {
                    id: kv.id,
                    parent_response_id: kv.parent_response_id,
                    key: content,
                    value: kv.value,
                    on: kv.on,
                },
            );
            proof {
                assert(v@ =~= old(v)@.update(k as int, v@[k as int]));
            }
        },
        Option::None => {
        },
    }
}

/// Flips the toggle of the first pair with this id, if any.
fn toggle_kv(v: &mut Vec<EndpointKvPair>, id: u64)
    ensures
        kv_toggled(old(v)@, final(v)@, id),
{
    match kv_position(v, id) {
        Option::Some(k) => {
            let kv = v.remove(k);
            let flipped = !kv.on;
            v.insert(
                k,
                EndpointKvPair {
                    id: kv.id,
                    parent_response_id: kv.parent_response_id,
                    key: kv.key,
                    value: kv.value,
                    on: flipped,
                },
            );
            proof {
                assert(v@ =~= old(v)@.update(k as int, v@[k as int]));
            }
        },
        Option::None => {
        },
    }
}

/// Removes the first pair with this id, if any.
fn remove_kv(v: &mut Vec<EndpointKvPair>, id: u64)
    ensures
        kv_removed(old(v)@, final(v)@, id),
{
    match kv_position(v, id) {
        Option::Some(k) => {
            v.remove(k);
        },
        Option::None => {
        },
    }
}

/// A field-for-field copy of a pair list.
fn copy_kvs(v: &Vec<EndpointKvPair>) -> (r: Vec<EndpointKvPair>)
    ensures
        r@ == v@,
{
    let mut r: Vec<EndpointKvPair> = Vec::new();
    let mut i: usize = 0;
    while i < v.len()
        invariant
            i <= v@.len(),
            r@ == v@.take(i as int),
        decreases v@.len() - i,
    {
        let kv = &v[i];
        r.push(
            EndpointKvPair {
                id: kv.id,
                parent_response_id: kv.parent_response_id,
                key: kv.key.clone(),
                value: kv.value.clone(),
                on: kv.on,
            },
        );
        proof {
            assert(r@ =~= v@.take(i as int + 1));
        }
        i = i + 1;
    }
    proof {
        assert(v@.take(v@.len() as int) =~= v@);
    }
    r
}

impl Request {
    /// A field-for-field copy.
    pub fn duplicate(&self) -> (r: Request)
        ensures
            r.query_params@ == self.query_params@,
            r.headers@ == self.headers@,
    {
        Request {
            query_params: copy_kvs(&self.query_params),
            headers: copy_kvs(&self.headers),
        }
    }
}

/// The one command a state-refreshing event produces: reload the endpoint
/// list with the current search text.
pub open spec fn is_refetch(cmds: Seq<Command>, search: Seq<char>) -> bool {
    &&& cmds.len() == 1
    &&& cmds[0] matches Command::Refetch { search: s } && s@ == search
}

/// Emits the reload command for the current search text.
fn refetch_cmd(state: &State) -> (cmds: Vec<Command>)
    ensures
        is_refetch(cmds@, state.endp_search@),
{
    let mut cmds: Vec<Command> = Vec::new();
    cmds.push(Command::Refetch { search: state.endp_search.clone() });
    cmds
}

/// Everything a query-parameter event does: the state change and the
/// commands, by event and by which source is being edited.
pub open spec fn query_param_effect(pre: State, post: State, cmds: Seq<Command>, message: MQueryParam) -> bool {
    (match message {
            MQueryParam::AddQueryParam() => (match pre.copy_request {
                Option::Some(q) => {
                    &&& post == (State {
                        copy_request: post.copy_request,
                        ..pre
                    })
                    &&& post.copy_request matches Option::Some(d) && kv_blank_added(
                        q.query_params@,
                        d.query_params@,
                        q.query_params@.len() as u64,
                    ) && d.headers@ == q.headers@
                    &&& cmds.len() == 0
                },
                Option::None => (match pre.selected_endpoint {
                    Option::Some(_) => {
                        &&& post == (State {
                            copy_request: post.copy_request,
                            ..pre
                        })
                        &&& post.copy_request matches Option::Some(d)
                            && d.headers@.len() == 0 && d.query_params@.len() == 1
                            && d.query_params@[0]@ == blank_kv(0)
                        &&& cmds.len() == 0
                    },
                    Option::None => {
                        &&& post == (State {
                            draft_request: post.draft_request,
                            ..pre
                        })
                        &&& kv_blank_added(
                            pre.draft_request.query_params@,
                            post.draft_request.query_params@,
                            next_kv_id(pre.draft_request.query_params@),
                        )
                        &&& post.draft_request.headers@ == pre.draft_request.headers@
                        &&& cmds.len() == 0
                    },
                }),
            }),
            MQueryParam::SetQueryParamContent(id, content) => (match pre.copy_request {
                Option::Some(q) => {
                    &&& post == (State {
                        copy_request: post.copy_request,
                        ..pre
                    })
                    &&& post.copy_request matches Option::Some(d) && kv_value_updated(
                        q.query_params@,
                        d.query_params@,
                        id,
                        content@,
                    ) && d.headers@ == q.headers@
                    &&& cmds.len() == 0
                },
                Option::None => (match pre.selected_endpoint {
                    Option::Some(_) => {
                        &&& post == pre
                        &&& cmds.len() == 2
                        &&& cmds[0] matches Command::UpdateQueryParamValue { id: ci, value }
                            && ci == id && value@ == content@
                        &&& cmds[1] matches Command::Refetch { search } && search@ == pre.endp_search@
                    },
                    Option::None => {
                        &&& post == (State {
                            draft_request: post.draft_request,
                            ..pre
                        })
                        &&& kv_value_updated(
                            pre.draft_request.query_params@,
                            post.draft_request.query_params@,
                            id,
                            content@,
                        )
                        &&& post.draft_request.headers@ == pre.draft_request.headers@
                        &&& cmds.len() == 0
                    },
                }),
            }),
            MQueryParam::SetQueryParamKey(id, content) => (match pre.copy_request {
                Option::Some(q) => {
                    &&& post == (State {
                        copy_request: post.copy_request,
                        ..pre
                    })
                    &&& post.copy_request matches Option::Some(d) && kv_key_updated(
                        q.query_params@,
                        d.query_params@,
                        id,
                        content@,
                    ) && d.headers@ == q.headers@
                    &&& cmds.len() == 0
                },
                Option::None => (match pre.selected_endpoint {
                    Option::Some(_) => {
                        &&& post == pre
                        &&& cmds.len() == 2
                        &&& cmds[0] matches Command::UpdateQueryParamKey { id: ci, key }
                            && ci == id && key@ == content@
                        &&& cmds[1] matches Command::Refetch { search } && search@ == pre.endp_search@
                    },
                    Option::None => {
                        &&& post == (State {
                            draft_request: post.draft_request,
                            ..pre
                        })
                        &&& kv_key_updated(
                            pre.draft_request.query_params@,
                            post.draft_request.query_params@,
                            id,
                            content@,
                        )
                        &&& post.draft_request.headers@ == pre.draft_request.headers@
                        &&& cmds.len() == 0
                    },
                }),
            }),
            MQueryParam::ToggleQueryParamIsOn(id) => (match pre.copy_request {
                Option::Some(q) => {
                    &&& post == (State {
                        copy_request: post.copy_request,
                        ..pre
                    })
                    &&& post.copy_request matches Option::Some(d) && kv_toggled(
                        q.query_params@,
                        d.query_params@,
                        id,
                    ) && d.headers@ == q.headers@
                    &&& cmds.len() == 0
                },
                Option::None => (match pre.selected_endpoint {
                    Option::Some(_) => {
                        &&& post == pre
                        &&& cmds.len() == 0
                    },
                    Option::None => {
                        &&& post == (State {
                            draft_request: post.draft_request,
                            ..pre
                        })
                        &&& kv_toggled(
                            pre.draft_request.query_params@,
                            post.draft_request.query_params@,
                            id,
                        )
                        &&& post.draft_request.headers@ == pre.draft_request.headers@
                        &&& cmds.len() == 0
                    },
                }),
            }),
            MQueryParam::DeleteQueryParam(id) => (match pre.copy_request {
                Option::Some(q) => {
                    &&& post == (State {
                        copy_request: post.copy_request,
                        ..pre
                    })
                    &&& post.copy_request matches Option::Some(d) && kv_removed(
                        q.query_params@,
                        d.query_params@,
                        id,
                    ) && d.headers@ == q.headers@
                    &&& is_refetch(cmds, pre.endp_search@)
                },
                Option::None => (match pre.selected_endpoint {
                    Option::Some(_) => {
                        &&& post == pre
                        &&& cmds.len() == 2
                        &&& cmds[0] matches Command::DeleteQueryParam { id: ci } && ci == id
                        &&& cmds[1] matches Command::Refetch { search } && search@ == pre.endp_search@
                    },
                    Option::None => {
                        &&& post == (State {
                            draft_request: post.draft_request,
                            ..pre
                        })
                        &&& kv_removed(
                            pre.draft_request.query_params@,
                            post.draft_request.query_params@,
                            id,
                        )
                        &&& post.draft_request.headers@ == pre.draft_request.headers@
                        &&& is_refetch(cmds, pre.endp_search@)
                    },
                }),
            }),
        })
}

/// Applies a query-parameter event. Edits land in the copy request when
/// one is open, go to storage as commands when an endpoint is selected,
/// and otherwise edit the draft request.
pub fn message_query_param(state: &mut State, message: MQueryParam) -> (cmds: Vec<Command>)
    ensures
        query_param_effect(*old(state), *final(state), cmds@, message),
{
    match message {
        MQueryParam::AddQueryParam() => {
            let cur = state.copy_request.take();
            match cur {
                Option::Some(mut q) => {
                    let id = q.query_params.len() as u64;
                    push_blank_kv(&mut q.query_params, id);
                    state.copy_request = Option::Some(q);
                    Vec::new()
                },
                Option::None => {
                    match state.selected_endpoint {
                        Option::Some(_) => {
                            let mut qp: Vec<EndpointKvPair> = Vec::new();
                            push_blank_kv(&mut qp, 0);
                            state.copy_request = Option::Some(
                                Request { query_params: qp, headers: Vec::new() },
                            );
                            Vec::new()
                        },
                        Option::None => {
                            let id = fresh_draft_kv_id(&state.draft_request.query_params);
                            push_blank_kv(&mut state.draft_request.query_params, id);
                            Vec::new()
                        },
                    }
                },
            }
        },
        MQueryParam::SetQueryParamContent(id, content) => {
            let cur = state.copy_request.take();
            match cur {
                Option::Some(mut q) => {
                    set_kv_value(&mut q.query_params, id, content);
                    state.copy_request = Option::Some(q);
                    Vec::new()
                },
                Option::None => {
                    match state.selected_endpoint {
                        Option::Some(_) => {
                            let mut cmds: Vec<Command> = Vec::new();
                            cmds.push(Command::UpdateQueryParamValue { id, value: content });
                            cmds.push(
                                Command::Refetch { search: state.endp_search.clone() },
                            );
                            cmds
                        },
                        Option::None => {
                            set_kv_value(&mut state.draft_request.query_params, id, content);
                            Vec::new()
                        },
                    }
                },
            }
        },
        MQueryParam::SetQueryParamKey(id, content) => {
            let cur = state.copy_request.take();
            match cur {
                Option::Some(mut q) => {
                    set_kv_key(&mut q.query_params, id, content);
                    state.copy_request = Option::Some(q);
                    Vec::new()
                },
                Option::None => {
                    match state.selected_endpoint {
                        Option::Some(_) => {
                            let mut cmds: Vec<Command> = Vec::new();
                            cmds.push(Command::UpdateQueryParamKey { id, key: content });
                            cmds.push(
                                Command::Refetch { search: state.endp_search.clone() },
                            );
                            cmds
                        },
                        Option::None => {
                            set_kv_key(&mut state.draft_request.query_params, id, content);
                            Vec::new()
                        },
                    }
                },
            }
        },
        MQueryParam::ToggleQueryParamIsOn(id) => {
            let cur = state.copy_request.take();
            match cur {
                Option::Some(mut q) => {
                    toggle_kv(&mut q.query_params, id);
                    state.copy_request = Option::Some(q);
                    Vec::new()
                },
                Option::None => {
                    match state.selected_endpoint {
                        Option::Some(_) => Vec::new(),
                        Option::None => {
                            toggle_kv(&mut state.draft_request.query_params, id);
                            Vec::new()
                        },
                    }
                },
            }
        },
        MQueryParam::DeleteQueryParam(id) => {
            let cur = state.copy_request.take();
            match cur {
                Option::Some(mut q) => {
                    remove_kv(&mut q.query_params, id);
                    state.copy_request = Option::Some(q);
                    refetch_cmd(state)
                },
                Option::None => {
                    match state.selected_endpoint {
                        Option::Some(_) => {
                            let mut cmds: Vec<Command> = Vec::new();
                            cmds.push(Command::DeleteQueryParam { id });
                            cmds.push(
                                Command::Refetch { search: state.endp_search.clone() },
                            );
                            cmds
                        },
                        Option::None => {
                            remove_kv(&mut state.draft_request.query_params, id);
                            refetch_cmd(state)
                        },
                    }
                },
            }
        },
    }
}

/// Everything a header event does: the state change and the
/// commands, by event and by which source is being edited.
pub open spec fn header_effect(pre: State, post: State, cmds: Seq<Command>, message: MHeader) -> bool {
    (match message {
            MHeader::AddHeader() => (match pre.copy_request {
                Option::Some(q) => {
                    &&& post == (State {
                        copy_request: post.copy_request,
                        ..pre
                    })
                    &&& post.copy_request matches Option::Some(d) && kv_blank_added(
                        q.headers@,
                        d.headers@,
                        q.headers@.len() as u64,
                    ) && d.query_params@ == q.query_params@
                    &&& cmds.len() == 0
                },
                Option::None => (match pre.selected_endpoint {
                    Option::Some(_) => {
                        &&& post == (State {
                            copy_request: post.copy_request,
                            ..pre
                        })
                        &&& post.copy_request matches Option::Some(d)
                            && d.query_params@.len() == 0 && d.headers@.len() == 1
                            && d.headers@[0]@ == blank_kv(0)
                        &&& cmds.len() == 0
                    },
                    Option::None => {
                        &&& post == (State {
                            draft_request: post.draft_request,
                            ..pre
                        })
                        &&& kv_blank_added(
                            pre.draft_request.headers@,
                            post.draft_request.headers@,
                            next_kv_id(pre.draft_request.headers@),
                        )
                        &&& post.draft_request.query_params@ == pre.draft_request.query_params@
                        &&& cmds.len() == 0
                    },
                }),
            }),
            MHeader::SetHeaderContent(id, content) => (match pre.copy_request {
                Option::Some(q) => {
                    &&& post == (State {
                        copy_request: post.copy_request,
                        ..pre
                    })
                    &&& post.copy_request matches Option::Some(d) && kv_value_updated(
                        q.headers@,
                        d.headers@,
                        id,
                        content@,
                    ) && d.query_params@ == q.query_params@
                    &&& cmds.len() == 0
                },
                Option::None => (match pre.selected_endpoint {
                    Option::Some(_) => {
                        &&& post == pre
                        &&& cmds.len() == 2
                        &&& cmds[0] matches Command::UpdateHeaderValue { id: ci, value }
                            && ci == id && value@ == content@
                        &&& cmds[1] matches Command::Refetch { search } && search@ == pre.endp_search@
                    },
                    Option::None => {
                        &&& post == (State {
                            draft_request: post.draft_request,
                            ..pre
                        })
                        &&& kv_value_updated(
                            pre.draft_request.headers@,
                            post.draft_request.headers@,
                            id,
                            content@,
                        )
                        &&& post.draft_request.query_params@ == pre.draft_request.query_params@
                        &&& cmds.len() == 0
                    },
                }),
            }),
            MHeader::SetHeaderKey(id, content) => (match pre.copy_request {
                Option::Some(q) => {
                    &&& post == (State {
                        copy_request: post.copy_request,
                        ..pre
                    })
                    &&& post.copy_request matches Option::Some(d) && kv_key_updated(
                        q.headers@,
                        d.headers@,
                        id,
                        content@,
                    ) && d.query_params@ == q.query_params@
                    &&& cmds.len() == 0
                },
                Option::None => (match pre.selected_endpoint {
                    Option::Some(_) => {
                        &&& post == pre
                        &&& cmds.len() == 2
                        &&& cmds[0] matches Command::UpdateHeaderKey { id: ci, key }
                            && ci == id && key@ == content@
                        &&& cmds[1] matches Command::Refetch { search } && search@ == pre.endp_search@
                    },
                    Option::None => {
                        &&& post == (State {
                            draft_request: post.draft_request,
                            ..pre
                        })
                        &&& kv_key_updated(
                            pre.draft_request.headers@,
                            post.draft_request.headers@,
                            id,
                            content@,
                        )
                        &&& post.draft_request.query_params@ == pre.draft_request.query_params@
                        &&& cmds.len() == 0
                    },
                }),
            }),
            MHeader::ToggleHeaderIsOn(id) => (match pre.copy_request {
                Option::Some(q) => {
                    &&& post == (State {
                        copy_request: post.copy_request,
                        ..pre
                    })
                    &&& post.copy_request matches Option::Some(d) && kv_toggled(
                        q.headers@,
                        d.headers@,
                        id,
                    ) && d.query_params@ == q.query_params@
                    &&& cmds.len() == 0
                },
                Option::None => (match pre.selected_endpoint {
                    Option::Some(_) => {
                        &&& post == pre
                        &&& cmds.len() == 0
                    },
                    Option::None => {
                        &&& post == (State {
                            draft_request: post.draft_request,
                            ..pre
                        })
                        &&& kv_toggled(
                            pre.draft_request.headers@,
                            post.draft_request.headers@,
                            id,
                        )
                        &&& post.draft_request.query_params@ == pre.draft_request.query_params@
                        &&& cmds.len() == 0
                    },
                }),
            }),
            MHeader::DeleteHeader(id) => (match pre.copy_request {
                Option::Some(q) => {
                    &&& post == (State {
                        copy_request: post.copy_request,
                        ..pre
                    })
                    &&& post.copy_request matches Option::Some(d) && kv_removed(
                        q.headers@,
                        d.headers@,
                        id,
                    ) && d.query_params@ == q.query_params@
                    &&& is_refetch(cmds, pre.endp_search@)
                },
                Option::None => (match pre.selected_endpoint {
                    Option::Some(_) => {
                        &&& post == pre
                        &&& cmds.len() == 2
                        &&& cmds[0] matches Command::DeleteHeader { id: ci } && ci == id
                        &&& cmds[1] matches Command::Refetch { search } && search@ == pre.endp_search@
                    },
                    Option::None => {
                        &&& post == (State {
                            draft_request: post.draft_request,
                            ..pre
                        })
                        &&& kv_removed(
                            pre.draft_request.headers@,
                            post.draft_request.headers@,
                            id,
                        )
                        &&& post.draft_request.query_params@ == pre.draft_request.query_params@
                        &&& is_refetch(cmds, pre.endp_search@)
                    },
                }),
            }),
        })
}

/// Applies a header event. Edits land in the copy request when
/// one is open, go to storage as commands when an endpoint is selected,
/// and otherwise edit the draft request.
pub fn message_header(state: &mut State, message: MHeader) -> (cmds: Vec<Command>)
    ensures
        header_effect(*old(state), *final(state), cmds@, message),
{
    match message {
        MHeader::AddHeader() => {
            let cur = state.copy_request.take();
            match cur {
                Option::Some(mut q) => {
                    let id = q.headers.len() as u64;
                    push_blank_kv(&mut q.headers, id);
                    state.copy_request = Option::Some(q);
                    Vec::new()
                },
                Option::None => {
                    match state.selected_endpoint {
                        Option::Some(_) => {
                            let mut qp: Vec<EndpointKvPair> = Vec::new();
                            push_blank_kv(&mut qp, 0);
                            state.copy_request = Option::Some(
                                Request { headers: qp, query_params: Vec::new() },
                            );
                            Vec::new()
                        },
                        Option::None => {
                            let id = fresh_draft_kv_id(&state.draft_request.headers);
                            push_blank_kv(&mut state.draft_request.headers, id);
                            Vec::new()
                        },
                    }
                },
            }
        },
        MHeader::SetHeaderContent(id, content) => {
            let cur = state.copy_request.take();
            match cur {
                Option::Some(mut q) => {
                    set_kv_value(&mut q.headers, id, content);
                    state.copy_request = Option::Some(q);
                    Vec::new()
                },
                Option::None => {
                    match state.selected_endpoint {
                        Option::Some(_) => {
                            let mut cmds: Vec<Command> = Vec::new();
                            cmds.push(Command::UpdateHeaderValue { id, value: content });
                            cmds.push(
                                Command::Refetch { search: state.endp_search.clone() },
                            );
                            cmds
                        },
                        Option::None => {
                            set_kv_value(&mut state.draft_request.headers, id, content);
                            Vec::new()
                        },
                    }
                },
            }
        },
        MHeader::SetHeaderKey(id, content) => {
            let cur = state.copy_request.take();
            match cur {
                Option::Some(mut q) => {
                    set_kv_key(&mut q.headers, id, content);
                    state.copy_request = Option::Some(q);
                    Vec::new()
                },
                Option::None => {
                    match state.selected_endpoint {
                        Option::Some(_) => {
                            let mut cmds: Vec<Command> = Vec::new();
                            cmds.push(Command::UpdateHeaderKey { id, key: content });
                            cmds.push(
                                Command::Refetch { search: state.endp_search.clone() },
                            );
                            cmds
                        },
                        Option::None => {
                            set_kv_key(&mut state.draft_request.headers, id, content);
                            Vec::new()
                        },
                    }
                },
            }
        },
        MHeader::ToggleHeaderIsOn(id) => {
            let cur = state.copy_request.take();
            match cur {
                Option::Some(mut q) => {
                    toggle_kv(&mut q.headers, id);
                    state.copy_request = Option::Some(q);
                    Vec::new()
                },
                Option::None => {
                    match state.selected_endpoint {
                        Option::Some(_) => Vec::new(),
                        Option::None => {
                            toggle_kv(&mut state.draft_request.headers, id);
                            Vec::new()
                        },
                    }
                },
            }
        },
        MHeader::DeleteHeader(id) => {
            let cur = state.copy_request.take();
            match cur {
                Option::Some(mut q) => {
                    remove_kv(&mut q.headers, id);
                    state.copy_request = Option::Some(q);
                    refetch_cmd(state)
                },
                Option::None => {
                    match state.selected_endpoint {
                        Option::Some(_) => {
                            let mut cmds: Vec<Command> = Vec::new();
                            cmds.push(Command::DeleteHeader { id });
                            cmds.push(
                                Command::Refetch { search: state.endp_search.clone() },
                            );
                            cmds
                        },
                        Option::None => {
                            remove_kv(&mut state.draft_request.headers, id);
                            refetch_cmd(state)
                        },
                    }
                },
            }
        },
    }
}

impl State {
    /// The state the application starts in: nothing selected, nothing
    /// drafted, the given endpoint list loaded, ready to send.
    pub fn new(endpoints: Vec<EndpointDb>) -> (r: State)
        ensures
            r.can_send == true,
            r.endpoints == endpoints,
            r.selected_endpoint is None,
            r.draft@.len() == 0,
            r.copy_request is None,
            r.draft_request.query_params@.len() == 0,
            r.draft_request.headers@.len() == 0,
            r.draft_response is None,
            r.draft_method == HttpMethod::GET,
            r.endp_search@.len() == 0,
            r.selected_response_index == 0,
            r.formatted_response is None,
            r.error_message is None,
            r.ctrl_pressed == false,
    {
        State {
            can_send: true,
            endpoints,
            selected_endpoint: Option::None,
            draft: String::new(),
            copy_request: Option::None,
            draft_request: Request { query_params: Vec::new(), headers: Vec::new() },
            draft_response: Option::None,
            draft_method: HttpMethod::GET,
            endp_search: String::new(),
            selected_response_index: 0,
            formatted_response: Option::None,
            error_message: Option::None,
            ctrl_pressed: false,
        }
    }
}

/// How many exchanges the endpoint with this id holds in the loaded list;
/// zero when it is not loaded.
pub open spec fn spec_resp_count(eps: Seq<EndpointDb>, id: u64) -> int {
    let k = endpoint_index(eps, id);
    if k >= 0 {
        eps[k].responses@.len() as int
    } else {
        0
    }
}

/// The exchange index selecting an endpoint lands on: its last exchange,
/// or zero when it has none.
pub open spec fn click_index(eps: Seq<EndpointDb>, id: u64) -> int {
    let c = spec_resp_count(eps, id);
    if c >= 1 {
        c - 1
    } else {
        0
    }
}

/// Selecting an endpoint: every transient overlay is dropped, the banner
/// cleared, and the newest exchange selected.
pub open spec fn click_endpoint_effect(pre: State, post: State, id: u64) -> bool {
    &&& post == (State {
        formatted_response: Option::None,
        copy_request: Option::None,
        draft_response: Option::None,
        selected_endpoint: Option::Some(id),
        error_message: Option::None,
        selected_response_index: post.selected_response_index,
        ..pre
    })
    &&& post.selected_response_index as int == click_index(pre.endpoints@, id)
}

/// Selecting an exchange by index drops the overlays and the cached
/// pretty text.
pub open spec fn set_index_effect(pre: State, post: State, index: usize) -> bool {
    post == (State {
        formatted_response: Option::None,
        selected_response_index: index,
        draft_response: Option::None,
        copy_request: Option::None,
        ..pre
    })
}

/// Leaving the current view: with no temporary response pending this
/// clears the draft pairs, deselects the endpoint and refocuses the URL
/// bar; otherwise it just discards the temporary response.
pub open spec fn back_effect(pre: State, post: State, cmds: Seq<Command>) -> bool {
    if pre.draft_response is None {
        &&& post == (State {
            error_message: Option::None,
            draft_request: post.draft_request,
            selected_endpoint: Option::None,
            ..pre
        })
        &&& post.draft_request.query_params@.len() == 0
        &&& post.draft_request.headers@.len() == 0
        &&& cmds.len() == 1
        &&& cmds[0] matches Command::Focus(t) && t@ == "main_urlbar"@
    } else {
        &&& post == (State {
            draft_response: Option::None,
            formatted_response: Option::None,
            error_message: Option::None,
            ..pre
        })
        &&& cmds.len() == 0
    }
}

/// Opening a copy request: a duplicate of the selected exchange's request,
/// or a fresh empty one.
pub open spec fn set_draft_query_effect(pre: State, post: State, copy: bool) -> bool {
    if copy {
        match spec_current_response(pre) {
            Option::Some(resp) => {
                &&& post == (State { copy_request: post.copy_request, ..pre })
                &&& post.copy_request matches Option::Some(d) && d.query_params@
                    == resp.request.query_params@ && d.headers@ == resp.request.headers@
            },
            Option::None => post == pre,
        }
    } else {
        &&& post == (State { copy_request: post.copy_request, ..pre })
        &&& post.copy_request matches Option::Some(d) && d.query_params@.len() == 0
            && d.headers@.len() == 0
    }
}

/// Firing the request: sending is locked and one transport command goes
/// out, built from the authoritative source.
pub open spec fn send_effect(pre: State, post: State, cmds: Seq<Command>, is_draft: bool) -> bool {
    &&& post == (State { can_send: false, ..pre })
    &&& cmds.len() == 1
    &&& cmds[0] matches Command::Send { url, headers, method, is_draft: d } && url@
        == crate::request::spec_base_url(pre) + crate::request::query_string(
        crate::request::spec_request_kvs(pre, false),
    ) && string_pair_views(headers@) == crate::request::sendable_pairs(
        crate::request::spec_request_kvs(pre, true),
    ) && method == crate::request::spec_method_from_state(pre) && d == is_draft
}

/// One side of the copy request's pairs, or nothing when no copy is open.
pub open spec fn copy_side(pre: State, hdr: bool) -> Seq<KvView> {
    match pre.copy_request {
        Option::Some(d) => if hdr {
            seq_views(d.headers@)
        } else {
            seq_views(d.query_params@)
        },
        Option::None => Seq::empty(),
    }
}

/// The command that records a new exchange under an existing endpoint,
/// carrying the copy request's pairs as the request snapshot.
pub open spec fn create_response_cmd(
    cmd: Command,
    pre: State,
    parent_id: u64,
    text: Seq<char>,
    code: u16,
) -> bool {
    cmd matches Command::CreateResponse { parent_endpoint_id, text: t, code: c, query_params, headers }
        && parent_endpoint_id == parent_id && t@ == text && c == code && seq_views(query_params@)
        == copy_side(pre, false) && seq_views(headers@) == copy_side(pre, true)
}

/// Recording a new exchange under an existing endpoint: the storage
/// command goes out, the overlays close, and the selection moves to where
/// the new exchange will appear.
pub open spec fn create_new_endpoint_effect(
    pre: State,
    post: State,
    cmds: Seq<Command>,
    parent_id: u64,
    text: Seq<char>,
    code: u16,
) -> bool {
    &&& cmds.len() == 1
    &&& create_response_cmd(cmds[0], pre, parent_id, text, code)
    &&& post == (State {
        draft_response: (if pre.copy_request is Some {
            Option::<(u16, String, i64)>::None
        } else {
            pre.draft_response
        }),
        copy_request: Option::None,
        selected_response_index: post.selected_response_index,
        ..pre
    })
    &&& post.selected_response_index as int == spec_resp_count(pre.endpoints@, parent_id)
}

/// Position of the first endpoint with this id.
fn endpoint_position(eps: &Vec<EndpointDb>, id: u64) -> (r: Option<usize>)
    ensures
        (match r {
            Option::Some(k) => {
                &&& endpoint_index(eps@, id) == k as int
                &&& k < eps@.len()
                &&& eps@[k as int].id == id
            },
            Option::None => endpoint_index(eps@, id) < 0,
        }),
{
    let n = eps.len();
    let mut found: Option<usize> = Option::None;
    let mut i: usize = 0;
    while i < n
        invariant
            n == eps@.len(),
            i <= n,
            (match found {
                Option::Some(k) => {
                    &&& k < i
                    &&& eps@[k as int].id == id
                    &&& forall|j: int| 0 <= j < k ==> eps@[j].id != id
                },
                Option::None => forall|j: int| 0 <= j < i ==> eps@[j].id != id,
            }),
        decreases n - i,
    {
        if found.is_none() && eps[i].id == id {
            found = Option::Some(i);
        }
        i = i + 1;
    }
    let ghost p = |e: EndpointDb| e.id == id;
    match found {
        Option::Some(k) => {
            proof {
                assert(p(eps@[k as int]));
                assert forall|j: int| 0 <= j < k implies !p(eps@[j]) by {}
                lemma_first_where_found(eps@, p, k as int);
            }
            Option::Some(k)
        },
        Option::None => {
            proof {
                assert forall|j: int| 0 <= j < n implies !p(eps@[j]) by {}
                lemma_first_where_found(eps@, p, n as int);
            }
            Option::None
        },
    }
}

/// Selects an endpoint and its newest exchange.
fn apply_click_endpoint(state: &mut State, id: u64)
    ensures
        click_endpoint_effect(*old(state), *final(state), id),
{
    state.formatted_response = Option::None;
    state.copy_request = Option::None;
    state.draft_response = Option::None;
    state.selected_endpoint = Option::Some(id);
    state.error_message = Option::None;
    let count: usize = match endpoint_position(&state.endpoints, id) {
        Option::Some(k) => state.endpoints[k].responses.len(),
        Option::None => 0,
    };
    state.selected_response_index = if count >= 1 {
        count - 1
    } else {
        0
    };
}

/// Selects an exchange by index.
fn apply_set_index(state: &mut State, index: usize)
    ensures
        set_index_effect(*old(state), *final(state), index),
{
    state.formatted_response = Option::None;
    state.selected_response_index = index;
    state.draft_response = Option::None;
    state.copy_request = Option::None;
}

/// Leaves the current view.
fn apply_back(state: &mut State) -> (cmds: Vec<Command>)
    ensures
        back_effect(*old(state), *final(state), cmds@),
{
    state.error_message = Option::None;
    if state.draft_response.is_none() {
        state.draft_request = Request { query_params: Vec::new(), headers: Vec::new() };
        state.selected_endpoint = Option::None;
        let mut cmds: Vec<Command> = Vec::new();
        cmds.push(Command::Focus("main_urlbar"));
        cmds
    } else {
        state.draft_response = Option::None;
        state.formatted_response = Option::None;
        Vec::new()
    }
}

/// Opens a copy request.
fn apply_set_draft_query(state: &mut State, copy: bool)
    ensures
        set_draft_query_effect(*old(state), *final(state), copy),
{
    if copy {
        let dup: Option<Request> = match crate::request::current_response(state) {
            Option::Some(resp) => Option::Some(resp.request.duplicate()),
            Option::None => Option::None,
        };
        match dup {
            Option::Some(d) => {
                state.copy_request = Option::Some(d);
            },
            Option::None => {
            },
        }
    } else {
        state.copy_request = Option::Some(
            Request { query_params: Vec::new(), headers: Vec::new() },
        );
    }
}

/// Fires the request at the authoritative source.
fn apply_send(state: &mut State, is_draft: bool) -> (cmds: Vec<Command>)
    ensures
        send_effect(*old(state), *final(state), cmds@, is_draft),
{
    let url = crate::request::format_url_from_state(state);
    let headers = crate::request::headers_from_state(state);
    let method = crate::request::method_from_state(state);
    state.can_send = false;
    let mut cmds: Vec<Command> = Vec::new();
    cmds.push(Command::Send { url, headers, method, is_draft });
    cmds
}

/// Records a finished exchange under an existing endpoint: emits the
/// storage command, closes the overlays, and selects where the new
/// exchange will appear.
fn create_new_endpoint(state: &mut State, parent_id: u64, text: String, code: u16) -> (cmds: Vec<
    Command,
>)
    ensures
        create_new_endpoint_effect(
            *old(state),
            *final(state),
            cmds@,
            parent_id,
            text@,
            code,
        ),
{
    let mut query_params: Vec<EndpointKvPair> = Vec::new();
    let mut headers: Vec<EndpointKvPair> = Vec::new();
    match &state.copy_request {
        Option::Some(d) => {
            query_params = copy_kvs(&d.query_params);
            headers = copy_kvs(&d.headers);
            proof {
                assert(seq_views(query_params@) =~= copy_side(*old(state), false));
                assert(seq_views(headers@) =~= copy_side(*old(state), true));
            }
        },
        Option::None => {
            proof {
                assert(seq_views(query_params@) =~= copy_side(*old(state), false));
                assert(seq_views(headers@) =~= copy_side(*old(state), true));
            }
        },
    }
    if state.copy_request.is_some() {
        state.draft_response = Option::None;
        state.copy_request = Option::None;
    }
    let count: usize = match endpoint_position(&state.endpoints, parent_id) {
        Option::Some(k) => state.endpoints[k].responses.len(),
        Option::None => 0,
    };
    state.selected_response_index = count;
    let mut cmds: Vec<Command> = Vec::new();
    cmds.push(
        Command::CreateResponse { parent_endpoint_id: parent_id, text, code, query_params, headers },
    );
    cmds
}

/// Recording a finished exchange under the selected endpoint when a copy
/// request is open or no exchange is selected: the new-exchange effect,
/// sending unlocked, the URL bar cleared, and a reload appended.
pub open spec fn got_response_create(
    pre: State,
    post: State,
    cmds: Seq<Command>,
    id: u64,
    text: Seq<char>,
    code: u16,
) -> bool {
    &&& post == (State {
        can_send: true,
        draft: post.draft,
        draft_response: (if pre.copy_request is Some {
            Option::<(u16, String, i64)>::None
        } else {
            pre.draft_response
        }),
        copy_request: Option::None,
        selected_response_index: post.selected_response_index,
        ..pre
    })
    &&& post.draft@.len() == 0
    &&& post.selected_response_index as int == spec_resp_count(pre.endpoints@, id)
    &&& cmds.len() == 2
    &&& create_response_cmd(cmds[0], pre, id, text, code)
    &&& cmds[1] matches Command::Refetch { search } && search@ == pre.endp_search@
}

/// Maps one incoming event to its state change and the commands the
/// outside loop must perform, exactly as the contract's case analysis
/// states.
#[verifier::rlimit(100)]
pub fn update(state: &mut State, message: Message) -> (cmds: Vec<Command>)
    ensures
        (match message {
            Message::SetCtrlPressed(b) => {
                &&& *final(state) == (State { ctrl_pressed: b, ..*old(state) })
                &&& cmds@.len() == 0
            },
            Message::SetDraftQuery(copy) => {
                &&& set_draft_query_effect(*old(state), *final(state), copy)
                &&& cmds@.len() == 0
            },
            Message::Duplicate(s) => {
                &&& *final(state) == (State {
                    draft_response: Option::None,
                    error_message: Option::None,
                    draft_request: final(state).draft_request,
                    selected_endpoint: Option::None,
                    draft: s,
                    ..*old(state)
                })
                &&& final(state).draft_request.query_params@.len() == 0
                &&& final(state).draft_request.headers@.len() == 0
                &&& cmds@.len() == 1
                &&& cmds@[0] matches Command::Focus(t) && t@ == "main_urlbar"@
            },
            Message::Start => {
                &&& *final(state) == *old(state)
                &&& cmds@.len() == 1
                &&& cmds@[0] matches Command::Focus(t) && t@ == "main_urlbar"@
            },
            Message::RefetchDb => {
                &&& *final(state) == *old(state)
                &&& is_refetch(cmds@, old(state).endp_search@)
            },
            Message::GotEndpoints(v) => {
                &&& *final(state) == (State { endpoints: v, ..*old(state) })
                &&& cmds@.len() == 0
            },
            Message::SetSelectedResponseIndex(index) => {
                &&& set_index_effect(*old(state), *final(state), index)
                &&& cmds@.len() == 0
            },
            Message::SetDraft(s) => {
                &&& *final(state) == (State { draft: s, ..*old(state) })
                &&& cmds@.len() == 0
            },
            Message::Send => send_effect(*old(state), *final(state), cmds@, false),
            Message::SendDraft => send_effect(*old(state), *final(state), cmds@, true),
            Message::Back => back_effect(*old(state), *final(state), cmds@),
            Message::GotResponse(text, code, is_draft, now) => {
                if is_draft {
                    &&& *final(state) == (State {
                        can_send: true,
                        draft_response: final(state).draft_response,
                        draft: final(state).draft,
                        ..*old(state)
                    })
                    &&& final(state).draft_response matches Option::Some(t3) && t3.0 == code
                        && t3.1@ == text@ && t3.2 == now
                    &&& final(state).draft@.len() == 0
                    &&& is_refetch(cmds@, old(state).endp_search@)
                } else {
                    match old(state).selected_endpoint {
                        Option::Some(id) => (match spec_current_response(*old(state)) {
                            Option::Some(cur) => {
                                if old(state).copy_request is None {
                                    &&& *final(state) == (State {
                                        can_send: true,
                                        draft: final(state).draft,
                                        ..*old(state)
                                    })
                                    &&& final(state).draft@.len() == 0
                                    &&& cmds@.len() == 2
                                    &&& cmds@[0] matches Command::UpdateResponse {
                                        id: rid,
                                        text: t,
                                        code: c,
                                    } && rid == cur.id && t@ == text@ && c == code
                                    &&& cmds@[1] matches Command::Refetch { search } && search@
                                        == old(state).endp_search@
                                } else {
                                    got_response_create(
                                        *old(state),
                                        *final(state),
                                        cmds@,
                                        id,
                                        text@,
                                        code,
                                    )
                                }
                            },
                            Option::None => got_response_create(
                                *old(state),
                                *final(state),
                                cmds@,
                                id,
                                text@,
                                code,
                            ),
                        }),
                        Option::None => {
                            &&& *final(state) == (State { can_send: true, ..*old(state) })
                            &&& cmds@.len() == 1
                            &&& cmds@[0] matches Command::CreateEndpoint {
                                url,
                                method,
                                text: t,
                                code: c,
                                query_params,
                                headers,
                            } && url@ == old(state).draft@ && method == old(state).draft_method && t@
                                == text@ && c == code && query_params@ == old(state).draft_request.query_params@ && headers@ == old(state).draft_request.headers@
                        },
                    }
                }
            },
            Message::GotError(err) => {
                &&& *final(state) == (State {
                    can_send: true,
                    error_message: final(state).error_message,
                    ..*old(state)
                })
                &&& final(state).error_message matches Option::Some(m) && m@
                    == err.spec_message()
                &&& cmds@.len() == 0
            },
            Message::ClearErrorMessage => {
                &&& *final(state) == (State { error_message: Option::None, ..*old(state) })
                &&& cmds@.len() == 0
            },
            Message::QueryParam(m) => query_param_effect(*old(state), *final(state), cmds@, m),
            Message::Header(m) => header_effect(*old(state), *final(state), cmds@, m),
            Message::ClickEndpoint(id) => {
                &&& click_endpoint_effect(*old(state), *final(state), id)
                &&& cmds@.len() == 0
            },
            Message::ClickMethod => {
                &&& *final(state) == (State {
                    draft_method: (match old(state).draft_method {
                        HttpMethod::GET => HttpMethod::POST,
                        HttpMethod::POST => HttpMethod::GET,
                    }),
                    ..*old(state)
                })
                &&& cmds@.len() == 0
            },
            Message::ClickDeleteEndpoint(id) => {
                &&& *final(state) == (State {
                    selected_endpoint: (if old(state).selected_endpoint == Option::Some(id) {
                        Option::<u64>::None
                    } else {
                        old(state).selected_endpoint
                    }),
                    ..*old(state)
                })
                &&& cmds@.len() == 2
                &&& cmds@[0] matches Command::DeleteEndpoint { id: di } && di == id
                &&& cmds@[1] matches Command::Refetch { search } && search@ == old(state).endp_search@
            },
            Message::ClickDeleteResponse(id) => {
                if old(state).draft_response is Some {
                    &&& *final(state) == (State {
                        draft_response: Option::None,
                        ..*old(state)
                    })
                    &&& cmds@.len() == 0
                } else {
                    match old(state).selected_endpoint {
                        Option::Some(eid) => ({
                            let k = endpoint_index(old(state).endpoints@, eid);
                            if k >= 0 {
                                let len = old(state).endpoints@[k].responses@.len();
                                &&& *final(state) == (State {
                                    selected_response_index: final(state).selected_response_index,
                                    ..*old(state)
                                })
                                &&& final(state).selected_response_index as int == (if old(state).selected_response_index + 1 == len {
                                    if old(state).selected_response_index >= 1 {
                                        old(state).selected_response_index - 1
                                    } else {
                                        0
                                    }
                                } else {
                                    old(state).selected_response_index as int
                                })
                                &&& cmds@.len() == 2
                                &&& cmds@[0] matches Command::DeleteResponse { id: di } && di
                                    == id
                                &&& cmds@[1] matches Command::Refetch { search } && search@
                                    == old(state).endp_search@
                            } else {
                                &&& *final(state) == *old(state)
                                &&& cmds@.len() == 0
                            }
                        }),
                        Option::None => {
                            &&& *final(state) == *old(state)
                            &&& cmds@.len() == 0
                        },
                    }
                }
            },
            Message::SetSearch(q) => {
                &&& *final(state) == (State { endp_search: q, ..*old(state) })
                &&& is_refetch(cmds@, q@)
            },
            Message::FormatResponse => {
                &&& cmds@.len() == 0
                &&& (match spec_current_endpoint(*old(state)) {
                    Option::Some(_) => (match spec_current_response(*old(state)) {
                        Option::Some(resp) => {
                            &&& *final(state) == (State {
                                formatted_response: final(state).formatted_response,
                                ..*old(state)
                            })
                            &&& final(state).formatted_response matches Option::Some(f)
                                && crate::format::is_formatted(f@, resp.text@)
                        },
                        Option::None => (match old(state).draft_response {
                            Option::Some(d) => {
                                &&& *final(state) == (State {
                                    formatted_response: final(state).formatted_response,
                                    ..*old(state)
                                })
                                &&& final(state).formatted_response matches Option::Some(f)
                                    && crate::format::is_formatted(f@, d.1@)
                            },
                            Option::None => *final(state) == *old(state),
                        }),
                    }),
                    Option::None => *final(state) == *old(state),
                })
            },
            Message::Focus(it) => {
                &&& *final(state) == *old(state)
                &&& cmds@.len() == 1
                &&& cmds@[0] matches Command::Focus(t) && t@ == it@
            },
            Message::DecrementSelectedResponseIndex => {
                &&& cmds@.len() == 0
                &&& (if old(state).copy_request is Some {
                    *final(state) == (State {
                        draft_response: Option::None,
                        copy_request: Option::None,
                        ..*old(state)
                    })
                } else {
                    set_index_effect(
                        *old(state),
                        *final(state),
                        (if old(state).selected_response_index >= 1 {
                            (old(state).selected_response_index - 1) as usize
                        } else {
                            0
                        }),
                    )
                })
            },
            Message::IncrementSelectedResponseIndex => {
                &&& cmds@.len() == 0
                &&& (match spec_current_endpoint(*old(state)) {
                    Option::Some(e) => ({
                        let len = e.responses@.len();
                        if len > 0 && old(state).selected_response_index < len - 1 {
                            set_index_effect(
                                *old(state),
                                *final(state),
                                (old(state).selected_response_index + 1) as usize,
                            )
                        } else {
                            set_draft_query_effect(*old(state), *final(state), false)
                        }
                    }),
                    Option::None => *final(state) == *old(state),
                })
            },
            Message::DiscardDraftResponse => {
                &&& *final(state) == (State {
                    draft_response: Option::None,
                    formatted_response: Option::None,
                    ..*old(state)
                })
                &&& cmds@.len() == 0
            },
            Message::IncrementSelectedEndpoint => {
                &&& cmds@.len() == 0
                &&& (match spec_current_endpoint(*old(state)) {
                    Option::Some(e) => ({
                        let p = endpoint_index(old(state).endpoints@, e.id);
                        if p + 1 < old(state).endpoints@.len() {
                            click_endpoint_effect(
                                *old(state),
                                *final(state),
                                old(state).endpoints@[p + 1].id,
                            )
                        } else {
                            *final(state) == *old(state)
                        }
                    }),
                    Option::None => (if old(state).endpoints@.len() > 0 {
                        click_endpoint_effect(
                            *old(state),
                            *final(state),
                            old(state).endpoints@[0].id,
                        )
                    } else {
                        *final(state) == *old(state)
                    }),
                })
            },
            Message::DecrementSelectedEndpoint => {
                &&& cmds@.len() == 0
                &&& (match spec_current_endpoint(*old(state)) {
                    Option::Some(e) => ({
                        let p = endpoint_index(old(state).endpoints@, e.id);
                        click_endpoint_effect(
                            *old(state),
                            *final(state),
                            old(state).endpoints@[if p >= 1 {
                                p - 1
                            } else {
                                0
                            }].id,
                        )
                    }),
                    Option::None => (if old(state).endpoints@.len() > 0 {
                        click_endpoint_effect(
                            *old(state),
                            *final(state),
                            old(state).endpoints@[old(state).endpoints@.len() - 1].id,
                        )
                    } else {
                        *final(state) == *old(state)
                    }),
                })
            },
        }),
{
    match message {
        Message::SetCtrlPressed(pressed) => {
            state.ctrl_pressed = pressed;
            Vec::new()
        },
        Message::SetDraftQuery(copy) => {
            apply_set_draft_query(state, copy);
            Vec::new()
        },
        Message::Duplicate(s) => {
            state.draft_response = Option::None;
            let cmds = apply_back(state);
            state.draft = s;
            cmds
        },
        Message::Start => {
            let mut cmds: Vec<Command> = Vec::new();
            cmds.push(Command::Focus("main_urlbar"));
            cmds
        },
        Message::RefetchDb => refetch_cmd(state),
        Message::GotEndpoints(v) => {
            state.endpoints = v;
            Vec::new()
        },
        Message::SetSelectedResponseIndex(index) => {
            apply_set_index(state, index);
            Vec::new()
        },
        Message::SetDraft(string) => {
            state.draft = string;
            Vec::new()
        },
        Message::Send => apply_send(state, false),
        Message::SendDraft => apply_send(state, true),
        Message::Back => apply_back(state),
        Message::GotResponse(text, code, is_draft, now) => {
            state.can_send = true;
            proof {
                assert(spec_current_endpoint(*state) == spec_current_endpoint(*old(state)));
                assert(spec_current_response(*state) == spec_current_response(*old(state)));
            }
            if is_draft {
                state.draft_response = Option::Some((code, text, now));
                state.draft = String::new();
                refetch_cmd(state)
            } else {
                match state.selected_endpoint {
                    Option::Some(id) => {
                        let cur_id: Option<u64> = match crate::request::current_response(state) {
                            Option::Some(r) => Option::Some(r.id),
                            Option::None => Option::None,
                        };
                        match cur_id {
                            Option::Some(rid) => {
                                if state.copy_request.is_none() {
                                    state.draft = String::new();
                                    let mut cmds: Vec<Command> = Vec::new();
                                    cmds.push(
                                        Command::UpdateResponse { id: rid, text, code },
                                    );
                                    cmds.push(
                                        Command::Refetch { search: state.endp_search.clone() },
                                    );
                                    cmds
                                } else {
                                    let mut cmds = create_new_endpoint(state, id, text, code);
                                    state.draft = String::new();
                                    cmds.push(
                                        Command::Refetch { search: state.endp_search.clone() },
                                    );
                                    cmds
                                }
                            },
                            Option::None => {
                                let mut cmds = create_new_endpoint(state, id, text, code);
                                state.draft = String::new();
                                cmds.push(
                                    Command::Refetch { search: state.endp_search.clone() },
                                );
                                cmds
                            },
                        }
                    },
                    Option::None => {
                        let query_params = copy_kvs(&state.draft_request.query_params);
                        let headers = copy_kvs(&state.draft_request.headers);
                        let mut cmds: Vec<Command> = Vec::new();
                        cmds.push(
                            Command::CreateEndpoint {
                                url: state.draft.clone(),
                                method: state.draft_method,
                                text,
                                code,
                                query_params,
                                headers,
                            },
                        );
                        cmds
                    },
                }
            }
        },
        Message::GotError(err) => {
            state.can_send = true;
            state.error_message = Option::Some(err.message());
            Vec::new()
        },
        Message::ClearErrorMessage => {
            state.error_message = Option::None;
            Vec::new()
        },
        Message::QueryParam(m) => message_query_param(state, m),
        Message::Header(m) => message_header(state, m),
        Message::ClickEndpoint(id) => {
            apply_click_endpoint(state, id);
            Vec::new()
        },
        Message::ClickMethod => {
            state.draft_method = state.draft_method.toggled();
            Vec::new()
        },
        Message::ClickDeleteEndpoint(id) => {
            let mut cmds: Vec<Command> = Vec::new();
            cmds.push(Command::DeleteEndpoint { id });
            match state.selected_endpoint {
                Option::Some(selected_id) => {
                    if id == selected_id {
                        state.selected_endpoint = Option::None;
                    }
                },
                Option::None => {
                },
            }
            cmds.push(Command::Refetch { search: state.endp_search.clone() });
            cmds
        },
        Message::ClickDeleteResponse(id) => {
            if state.draft_response.is_some() {
                state.draft_response = Option::None;
                Vec::new()
            } else {
                match state.selected_endpoint {
                    Option::Some(endpoint_id) => {
                        match endpoint_position(&state.endpoints, endpoint_id) {
                            Option::Some(k) => {
                                let len = state.endpoints[k].responses.len();
                                if len >= 1 && state.selected_response_index == len - 1 {
                                    state.selected_response_index =
                                        if state.selected_response_index >= 1 {
                                            state.selected_response_index - 1
                                        } else {
                                            0
                                        };
                                }
                                let mut cmds: Vec<Command> = Vec::new();
                                cmds.push(Command::DeleteResponse { id });
                                cmds.push(
                                    Command::Refetch { search: state.endp_search.clone() },
                                );
                                cmds
                            },
                            Option::None => Vec::new(),
                        }
                    },
                    Option::None => Vec::new(),
                }
            }
        },
        Message::SetSearch(query) => {
            state.endp_search = query;
            refetch_cmd(state)
        },
        Message::FormatResponse => {
            let new_fmt: Option<String> = match crate::request::current_endpoint(state) {
                Option::Some(_) => {
                    match crate::request::current_response(state) {
                        Option::Some(resp) => Option::Some(
                            crate::format::format_response(resp.text.as_str()),
                        ),
                        Option::None => {
                            match &state.draft_response {
                                Option::Some(d) => Option::Some(
                                    crate::format::format_response(d.1.as_str()),
                                ),
                                Option::None => Option::None,
                            }
                        },
                    }
                },
                Option::None => Option::None,
            };
            match new_fmt {
                Option::Some(f) => {
                    state.formatted_response = Option::Some(f);
                },
                Option::None => {
                },
            }
            Vec::new()
        },
        Message::Focus(it) => {
            let mut cmds: Vec<Command> = Vec::new();
            cmds.push(Command::Focus(it));
            cmds
        },
        Message::DecrementSelectedResponseIndex => {
            if state.copy_request.is_some() {
                state.draft_response = Option::None;
                state.copy_request = Option::None;
                Vec::new()
            } else {
                let index = if state.selected_response_index >= 1 {
                    state.selected_response_index - 1
                } else {
                    0
                };
                apply_set_index(state, index);
                Vec::new()
            }
        },
        Message::IncrementSelectedResponseIndex => {
            let len_opt: Option<usize> = match crate::request::current_endpoint(state) {
                Option::Some(e) => Option::Some(e.responses.len()),
                Option::None => Option::None,
            };
            match len_opt {
                Option::Some(len) => {
                    if len > 0 && state.selected_response_index < len - 1 {
                        let index = state.selected_response_index + 1;
                        apply_set_index(state, index);
                    } else {
                        apply_set_draft_query(state, false);
                    }
                    Vec::new()
                },
                Option::None => Vec::new(),
            }
        },
        Message::DiscardDraftResponse => {
            state.draft_response = Option::None;
            state.formatted_response = Option::None;
            Vec::new()
        },
        Message::IncrementSelectedEndpoint => {
            let target: Option<u64> = match crate::request::current_endpoint(state) {
                Option::Some(e) => {
                    let eid = e.id;
                    match endpoint_position(&state.endpoints, eid) {
                        Option::Some(p) => {
                            let n = state.endpoints.len();
                            if p + 1 < n {
                                Option::Some(state.endpoints[p + 1].id)
                            } else {
                                Option::None
                            }
                        },
                        Option::None => {
                            // Never reached: a selected endpoint that was
                            // found in the list has a position in it.
                            proof {
                                match state.selected_endpoint {
                                    Option::Some(sel) => {
                                        crate::list::lemma_first_where_props(
                                            state.endpoints@,
                                            |ep: EndpointDb| ep.id == sel,
                                        );
                                    },
                                    Option::None => {
                                    },
                                }
                                assert(false);
                            }
                            Option::None
                        },
                    }
                },
                Option::None => {
                    if state.endpoints.len() > 0 {
                        Option::Some(state.endpoints[0].id)
                    } else {
                        Option::None
                    }
                },
            };
            match target {
                Option::Some(id) => {
                    apply_click_endpoint(state, id);
                    Vec::new()
                },
                Option::None => Vec::new(),
            }
        },
        Message::DecrementSelectedEndpoint => {
            let target: Option<u64> = match crate::request::current_endpoint(state) {
                Option::Some(e) => {
                    let eid = e.id;
                    match endpoint_position(&state.endpoints, eid) {
                        Option::Some(p) => {
                            let prev = if p >= 1 {
                                p - 1
                            } else {
                                0
                            };
                            Option::Some(state.endpoints[prev].id)
                        },
                        Option::None => {
                            // Never reached: a selected endpoint that was
                            // found in the list has a position in it.
                            proof {
                                match state.selected_endpoint {
                                    Option::Some(sel) => {
                                        crate::list::lemma_first_where_props(
                                            state.endpoints@,
                                            |ep: EndpointDb| ep.id == sel,
                                        );
                                    },
                                    Option::None => {
                                    },
                                }
                                assert(false);
                            }
                            Option::None
                        },
                    }
                },
                Option::None => {
                    if state.endpoints.len() > 0 {
                        Option::Some(state.endpoints[state.endpoints.len() - 1].id)
                    } else {
                        Option::None
                    }
                },
            };
            match target {
                Option::Some(id) => {
                    apply_click_endpoint(state, id);
                    Vec::new()
                },
                Option::None => Vec::new(),
            }
        },
    }
}

/// Law: reloading is idempotent on unchanged storage. Applying the reload
/// event twice leaves the state exactly where it started, and both
/// applications ask for the very same reload.
pub proof fn lemma_refetch_idempotent(
    pre: State,
    mid: State,
    post: State,
    cmds1: Seq<Command>,
    cmds2: Seq<Command>,
)
    requires
        mid == pre,
        is_refetch(cmds1, pre.endp_search@),
        post == mid,
        is_refetch(cmds2, mid.endp_search@),
    ensures
        post == pre,
        is_refetch(cmds2, pre.endp_search@),
{
}

/// Law: a reload that brings back the very list already held changes
/// nothing.
pub proof fn lemma_same_list_reload_noop(pre: State, v: Vec<EndpointDb>)
    requires
        v == pre.endpoints,
    ensures
        (State { endpoints: v, ..pre }) == pre,
{
}

} // verus!
