//! The shared state that the ops read and write: page metadata, navigation
//! and binding requests queued for the host, the URLs fetched, and a bounded
//! buffer of network response bodies.
//!
//! The handles on outside services (DOM tree, cookie jar, HTTP clients,
//! interception channel) live beside this state in the runtime; what is here
//! is the part the library decides on.

use vstd::prelude::*;
use crate::text::{push_dec, string_from};

verus! {

/// A response body kept for the network inspector.
#[derive(Debug, Clone)]
pub struct StoredNetworkResponseBody {
    pub body: String,
    pub base64_encoded: bool,
}

impl View for StoredNetworkResponseBody {
    type V = (Seq<char>, bool);

    open spec fn view(&self) -> (Seq<char>, bool) {
        (self.body@, self.base64_encoded)
    }
}

impl StoredNetworkResponseBody {
    /// A copy with the same body and flag.
    pub fn copy(&self) -> (r: StoredNetworkResponseBody)
        ensures
            r@ == self@,
    {
        StoredNetworkResponseBody { body: self.body.clone(), base64_encoded: self.base64_encoded }
    }
}

/// The state shared by the ops.
pub struct ObscuraState {
    pub url: String,
    pub encoding: String,
    pub title: String,
    pub blocked_urls: Vec<String>,
    pub pending_navigation: Option<(String, String, String)>,
    pub intercept_counter: u64,
    pub intercept_enabled: bool,
    pub pending_binding_calls: Vec<(String, String)>,
    /// Buffered response bodies by request id, oldest first.
    pub network_response_bodies: Vec<(String, StoredNetworkResponseBody)>,
    pub network_response_body_counter: u64,
    pub fetched_urls: Vec<String>,
    /// Results of finished asynchronous ops by slot id, not yet handed to
    /// the JavaScript side.
    pub pending_async_results: Vec<(u64, Result<String, String>)>,
}

/// The view of a buffered body: request id, body, base64 flag.
pub open spec fn body_entry_view(e: (String, StoredNetworkResponseBody)) -> (Seq<char>, Seq<char>, bool) {
    (e.0@, e.1.body@, e.1.base64_encoded)
}

/// The view of an optional stored body.
pub open spec fn opt_body_view(o: Option<StoredNetworkResponseBody>) -> Option<(Seq<char>, bool)> {
    match o {
        Some(b) => Some(b@),
        None => None,
    }
}

/// The view of a (name, payload) pair.
pub open spec fn pair_view(p: (String, String)) -> (Seq<char>, Seq<char>) {
    (p.0@, p.1@)
}

/// The view of an async result.
pub open spec fn result_view(r: Result<String, String>) -> Result<Seq<char>, Seq<char>> {
    match r {
        Ok(s) => Ok(s@),
        Err(e) => Err(e@),
    }
}

/// The id of the `n`-th buffered response: `fetch-n`.
pub open spec fn fetch_request_id(n: nat) -> Seq<char> {
    "fetch-"@ + crate::text::dec(n)
}

/// Every id is `fetch-n` for some `n` at most `counter`, and no id occurs twice.
pub open spec fn bodies_wf(b: Seq<(Seq<char>, Seq<char>, bool)>, counter: nat) -> bool {
    &&& forall|i: int| 0 <= i < b.len() ==> #[trigger] numbered_id(b[i].0, counter)
    &&& forall|i: int, j: int| 0 <= i < j < b.len() ==> #[trigger] b[i].0 != #[trigger] b[j].0
}

/// `id` is `fetch-n` for some `n` at most `counter`.
pub open spec fn numbered_id(id: Seq<char>, counter: nat) -> bool {
    exists|n: nat| n <= counter && #[trigger] fetch_request_id(n) == id
}

/// How many of `n` buffered bodies are dropped to keep at most `max`:
/// the oldest ones, as many as are over the limit.
pub open spec fn evicted(n: nat, max: nat) -> int {
    if n > max { n - max } else { 0 }
}

/// No slot id occurs twice.
pub open spec fn slots_distinct(r: Seq<(u64, Result<Seq<char>, Seq<char>>)>) -> bool {
    forall|i: int, j: int| 0 <= i < j < r.len() ==> #[trigger] r[i].0 != #[trigger] r[j].0
}

impl ObscuraState {
    /// The buffered bodies as (request id, body, base64 flag), oldest first.
    pub open spec fn bodies(&self) -> Seq<(Seq<char>, Seq<char>, bool)> {
        self.network_response_bodies@.map_values(|e: (String, StoredNetworkResponseBody)| body_entry_view(e))
    }

    /// The body buffered under `id`, if any.
    pub open spec fn body_of(&self, id: Seq<char>) -> Option<(Seq<char>, bool)> {
        if exists|i: int| 0 <= i < self.bodies().len() && #[trigger] self.bodies()[i].0 == id {
            let i = choose|i: int| 0 <= i < self.bodies().len() && #[trigger] self.bodies()[i].0 == id;
            Some((self.bodies()[i].1, self.bodies()[i].2))
        } else {
            None
        }
    }

    /// The async results as (slot id, result).
    pub open spec fn async_results(&self) -> Seq<(u64, Result<Seq<char>, Seq<char>>)> {
        self.pending_async_results@.map_values(|e: (u64, Result<String, String>)| (e.0, result_view(e.1)))
    }

    /// Well-formedness: every buffered body sits under an id `fetch-n` with
    /// `n` at most the counter, the ids are distinct, and so are the slot ids
    /// of pending async results.
    pub open spec fn wf(&self) -> bool {
        &&& bodies_wf(self.bodies(), self.network_response_body_counter as nat)
        &&& slots_distinct(self.async_results())
    }

    /// The initial state: `about:blank`, UTF-8, nothing queued or buffered.
    pub fn new() -> (s: ObscuraState)
        ensures
            s.wf(),
            s.url@ == "about:blank"@,
            s.encoding@ == "UTF-8"@,
            s.title@.len() == 0,
            s.blocked_urls@.len() == 0,
            s.pending_navigation is None,
            s.intercept_counter == 0,
            !s.intercept_enabled,
            s.pending_binding_calls@.len() == 0,
            s.bodies().len() == 0,
            s.network_response_body_counter == 0,
            s.fetched_urls@.len() == 0,
            s.async_results().len() == 0,
    {
        ObscuraState {
            url: string_from("about:blank"),
            encoding: string_from("UTF-8"),
            title: String::new(),
            blocked_urls: Vec::new(),
            pending_navigation: None,
            intercept_counter: 0,
            intercept_enabled: false,
            pending_binding_calls: Vec::new(),
            network_response_bodies: Vec::new(),
            network_response_body_counter: 0,
            fetched_urls: Vec::new(),
            pending_async_results: Vec::new(),
        }
    }

    /// Sets the page URL.
    pub fn set_url(&mut self, url: &str)
        ensures
            final(self).url@ == url@,
            *final(self) == (ObscuraState { url: final(self).url, ..*old(self) }),
            final(self).wf() == old(self).wf(),
    {
        self.url = string_from(url);
    }

    /// Sets the document encoding.
    pub fn set_encoding(&mut self, encoding: &str)
        ensures
            final(self).encoding@ == encoding@,
            *final(self) == (ObscuraState { encoding: final(self).encoding, ..*old(self) }),
            final(self).wf() == old(self).wf(),
    {
        self.encoding = string_from(encoding);
    }

    /// Sets the document title.
    pub fn set_title(&mut self, title: &str)
        ensures
            final(self).title@ == title@,
            *final(self) == (ObscuraState { title: final(self).title, ..*old(self) }),
            final(self).wf() == old(self).wf(),
    {
        self.title = string_from(title);
    }

    /// Replaces the blocked-URL patterns.
    pub fn set_blocked_urls(&mut self, patterns: Vec<String>)
        ensures
            final(self).blocked_urls == patterns,
            *final(self) == (ObscuraState { blocked_urls: patterns, ..*old(self) }),
            final(self).wf() == old(self).wf(),
    {
        self.blocked_urls = patterns;
    }

    /// Turns request interception on or off.
    pub fn set_intercept_enabled(&mut self, enabled: bool)
        ensures
            final(self).intercept_enabled == enabled,
            *final(self) == (ObscuraState { intercept_enabled: enabled, ..*old(self) }),
            final(self).wf() == old(self).wf(),
    {
        self.intercept_enabled = enabled;
    }

    /// Hands the pending navigation to the host, leaving none.
    pub fn take_pending_navigation(&mut self) -> (r: Option<(String, String, String)>)
        ensures
            r == old(self).pending_navigation,
            final(self).pending_navigation is None,
            *final(self) == (ObscuraState { pending_navigation: None, ..*old(self) }),
            final(self).wf() == old(self).wf(),
    {
        self.pending_navigation.take()
    }

    /// Hands the queued binding calls to the host, in order, leaving none.
    pub fn take_pending_binding_calls(&mut self) -> (r: Vec<(String, String)>)
        ensures
            r == old(self).pending_binding_calls,
            final(self).pending_binding_calls@.len() == 0,
            *final(self) == (ObscuraState { pending_binding_calls: final(self).pending_binding_calls, ..*old(self) }),
            final(self).wf() == old(self).wf(),
    {
        let mut taken: Vec<(String, String)> = Vec::new();
        std::mem::swap(&mut taken, &mut self.pending_binding_calls);
        taken
    }

    /// Records that `url` was fetched.
    pub fn record_fetched_url(&mut self, url: &str)
        ensures
            final(self).fetched_urls@.map_values(|s: String| s@)
                == old(self).fetched_urls@.map_values(|s: String| s@).push(url@),
            *final(self) == (ObscuraState { fetched_urls: final(self).fetched_urls, ..*old(self) }),
            final(self).wf() == old(self).wf(),
    {
        let ghost before = self.fetched_urls@;
        self.fetched_urls.push(string_from(url));
        assert(self.fetched_urls@.map_values(|s: String| s@) =~= before.map_values(|s: String| s@).push(url@));
    }

    /// The URLs fetched so far, in order.
    pub fn fetched_urls(&self) -> (r: Vec<String>)
        ensures
            r@ == self.fetched_urls@,
    {
        let mut r: Vec<String> = Vec::new();
        let mut i: usize = 0;
        while i < self.fetched_urls.len()
            invariant
                i <= self.fetched_urls.len(),
                r@ == self.fetched_urls@.subrange(0, i as int),
            decreases self.fetched_urls.len() - i,
        {
            r.push(self.fetched_urls[i].clone());
            assert(self.fetched_urls@.subrange(0, i + 1) == self.fetched_urls@.subrange(0, i as int).push(self.fetched_urls@[i as int]));
            i = i + 1;
        }
        assert(self.fetched_urls@.subrange(0, self.fetched_urls@.len() as int) == self.fetched_urls@);
        r
    }

    /// The position of the body buffered under `id`.
    fn find_body(&self, id: &str) -> (r: Option<usize>)
        ensures
            match r {
                Some(i) => i < self.bodies().len() && self.bodies()[i as int].0 == id@,
                None => forall|i: int| 0 <= i < self.bodies().len() ==> #[trigger] self.bodies()[i].0 != id@,
            },
    {
        let key = string_from(id);
        let mut i: usize = 0;
        while i < self.network_response_bodies.len()
            invariant
                i <= self.network_response_bodies.len(),
                key@ == id@,
                forall|j: int| 0 <= j < i ==> #[trigger] self.bodies()[j].0 != id@,
            decreases self.network_response_bodies.len() - i,
        {
            if self.network_response_bodies[i].0 == key {
                return Some(i);
            }
            i = i + 1;
        }
        None
    }

    /// The body buffered under `request_id`, if it is still buffered.
    pub fn get_network_response_body(&self, request_id: &str) -> (r: Option<StoredNetworkResponseBody>)
        requires
            self.wf(),
        ensures
            opt_body_view(r) == self.body_of(request_id@),
    {
        match self.find_body(request_id) {
            Some(i) => {
                let ghost b = self.bodies();
                assert(b[i as int].0 == request_id@);
                let ghost k = choose|k: int| 0 <= k < b.len() && #[trigger] b[k].0 == request_id@;
                assert(k == i);
                Some(self.network_response_bodies[i].1.copy())
            },
            None => None,
        }
    }

    /// Drops every buffered body.
    pub fn clear_network_response_bodies(&mut self)
        ensures
            final(self).bodies().len() == 0,
            *final(self) == (ObscuraState { network_response_bodies: final(self).network_response_bodies, ..*old(self) }),
            old(self).wf() ==> final(self).wf(),
            forall|x: Seq<char>| #[trigger] final(self).body_of(x) is None,
    {
        self.network_response_bodies = Vec::new();
    }

    /// The result stored for slot `id`, if any.
    pub open spec fn async_result_of(&self, id: u64) -> Option<Result<Seq<char>, Seq<char>>> {
        if exists|i: int| 0 <= i < self.async_results().len() && #[trigger] self.async_results()[i].0 == id {
            let i = choose|i: int| 0 <= i < self.async_results().len() && #[trigger] self.async_results()[i].0 == id;
            Some(self.async_results()[i].1)
        } else {
            None
        }
    }

    /// The position of the result for slot `id`.
    fn find_async(&self, id: u64) -> (r: Option<usize>)
        ensures
            match r {
                Some(i) => i < self.async_results().len() && self.async_results()[i as int].0 == id,
                None => forall|i: int| 0 <= i < self.async_results().len() ==> #[trigger] self.async_results()[i].0 != id,
            },
    {
        let mut i: usize = 0;
        while i < self.pending_async_results.len()
            invariant
                i <= self.pending_async_results.len(),
                forall|j: int| 0 <= j < i ==> #[trigger] self.async_results()[j].0 != id,
            decreases self.pending_async_results.len() - i,
        {
            if self.pending_async_results[i].0 == id {
                return Some(i);
            }
            i = i + 1;
        }
        None
    }

    /// Records the result of the asynchronous op in slot `id`, replacing an
    /// earlier result for the same slot.
    pub fn complete_async(&mut self, id: u64, result: Result<String, String>)
        requires
            old(self).wf(),
        ensures
            final(self).wf(),
            final(self).async_result_of(id) == Some(result_view(result)),
            forall|other: u64| other != id ==> #[trigger] final(self).async_result_of(other) == old(self).async_result_of(other),
            *final(self) == (ObscuraState { pending_async_results: final(self).pending_async_results, ..*old(self) }),
    {
        let ghost before = self.async_results();
        let ghost rv = result_view(result);
        let ghost mut pos: int = before.len() as int;
        match self.find_async(id) {
            Some(i) => {
                self.pending_async_results.set(i, (id, result));
                assert(self.async_results() =~= before.update(i as int, (id, rv)));
                proof { pos = i as int; }
            },
            None => {
                self.pending_async_results.push((id, result));
                assert(self.async_results() =~= before.push((id, rv)));
            },
        }
        let ghost after = self.async_results();
        proof {
            assert forall|a: int, b: int| 0 <= a < b < after.len() implies #[trigger] after[a].0 != #[trigger] after[b].0 by {
                if a < before.len() && b < before.len() {
                    if after[a] != before[a] {
                        assert(before[a].0 == id);
                    }
                    if after[b] != before[b] {
                        assert(before[b].0 == id);
                    }
                }
            }
            assert(after[pos] == (id, rv));
            assert(after[pos].0 == id);
            let k = choose|k: int| 0 <= k < after.len() && #[trigger] after[k].0 == id;
            assert(k == pos);
            assert forall|other: u64| other != id implies #[trigger] self.async_result_of(other) == old(self).async_result_of(other) by {
                if exists|i: int| 0 <= i < before.len() && #[trigger] before[i].0 == other {
                    let i = choose|i: int| 0 <= i < before.len() && #[trigger] before[i].0 == other;
                    assert(after[i] == before[i]);
                    let j = choose|j: int| 0 <= j < after.len() && #[trigger] after[j].0 == other;
                    assert(j == i);
                } else {
                    assert forall|j: int| 0 <= j < after.len() implies #[trigger] after[j].0 != other by {
                        if j < before.len() {
                            assert(after[j] == before[j] || after[j].0 == id);
                        }
                    }
                }
            }
        }
    }

    /// Whether results wait to be handed out.
    pub fn has_async_results(&self) -> (r: bool)
        ensures
            r == (self.async_results().len() > 0),
    {
        self.pending_async_results.len() > 0
    }

    /// Hands out every waiting result, leaving none.
    pub fn take_async_results(&mut self) -> (r: Vec<(u64, Result<String, String>)>)
        ensures
            r@ == old(self).pending_async_results@,
            final(self).async_results().len() == 0,
            *final(self) == (ObscuraState { pending_async_results: final(self).pending_async_results, ..*old(self) }),
            old(self).wf() ==> final(self).wf(),
    {
        let mut taken: Vec<(u64, Result<String, String>)> = Vec::new();
        std::mem::swap(&mut taken, &mut self.pending_async_results);
        taken
    }

    /// Gives the next response its request id (`fetch-n` with the counter
    /// raised by one), and buffers its body under that id where the buffer
    /// is enabled (both limits positive) and the response has at most
    /// `max_bytes` bytes; the oldest bodies are then dropped until at most
    /// `max_entries` remain.
    pub fn store_response_body(&mut self, body: &str, byte_len: usize, max_entries: usize, max_bytes: usize) -> (id: String)
        requires
            old(self).wf(),
            old(self).network_response_body_counter < u64::MAX,
        ensures
            final(self).wf(),
            final(self).network_response_body_counter == old(self).network_response_body_counter + 1,
            id@ == fetch_request_id(final(self).network_response_body_counter as nat),
            if max_entries > 0 && max_bytes > 0 && byte_len <= max_bytes {
                final(self).bodies() == old(self).bodies().push((id@, body@, false)).skip(
                    evicted(old(self).bodies().len() + 1, max_entries as nat))
            } else {
                final(self).bodies() == old(self).bodies()
            },
            max_entries > 0 && max_bytes > 0 && byte_len <= max_bytes ==> final(self).body_of(id@) == Some((body@, false)),
            forall|x: Seq<char>|
                x != id@ ==> #[trigger] final(self).body_of(x) is None || final(self).body_of(x) == old(self).body_of(x),
            *final(self) == (ObscuraState {
                network_response_bodies: final(self).network_response_bodies,
                network_response_body_counter: final(self).network_response_body_counter,
                ..*old(self)
            }),
    {
        self.network_response_body_counter = self.network_response_body_counter + 1;
        proof {
            lemma_wf_counter_grows(self.bodies(), (self.network_response_body_counter - 1) as nat, self.network_response_body_counter as nat);
        }
        let mut id = string_from("fetch-");
        push_dec(&mut id, self.network_response_body_counter);
        let ghost id_v = id@;
        if max_entries > 0 && max_bytes > 0 && byte_len <= max_bytes {
            let ghost before = self.bodies();
            proof {
                lemma_fresh_id(before, (self.network_response_body_counter - 1) as nat);
            }
            let entry = (id.clone(), StoredNetworkResponseBody { body: string_from(body), base64_encoded: false });
            self.network_response_bodies.push(entry);
            let ghost pushed = before.push((id_v, body@, false));
            assert(self.bodies() =~= pushed);
            let mut dropped: usize = 0;
            let n = self.network_response_bodies.len();
            if n > max_entries {
                dropped = n - max_entries;
            }
            let kept = split_off_front(&mut self.network_response_bodies, dropped);
            self.network_response_bodies = kept;
            assert(self.bodies() =~= pushed.skip(dropped as int));
            proof {
                let ghost fb = self.bodies();
                assert forall|i: int, j: int|
                    0 <= i < j < fb.len() implies #[trigger] fb[i].0 != #[trigger] fb[j].0 by {
                    assert(fb[i] == pushed[i + dropped]);
                    assert(fb[j] == pushed[j + dropped]);
                }
                let last = fb.len() - 1;
                assert(fb[last] == (id_v, body@, false));
                assert(fb[last].0 == id_v);
                let k = choose|k: int| 0 <= k < fb.len() && #[trigger] fb[k].0 == id_v;
                assert(k == last);
                assert forall|x: Seq<char>| x != id_v implies #[trigger] self.body_of(x) is None || self.body_of(x) == old(self).body_of(x) by {
                    if exists|j: int| 0 <= j < fb.len() && #[trigger] fb[j].0 == x {
                        let j = choose|j: int| 0 <= j < fb.len() && #[trigger] fb[j].0 == x;
                        assert(fb[j] == pushed[j + dropped]);
                        assert(before[j + dropped] == fb[j]);
                        assert(before[j + dropped].0 == x);
                        let m = choose|m: int| 0 <= m < before.len() && #[trigger] before[m].0 == x;
                        assert(m == j + dropped);
                    }
                }
                assert forall|i: int, j: int|
                    0 <= i < j < self.bodies().len() implies #[trigger] self.bodies()[i].0 != #[trigger] self.bodies()[j].0 by {
                    assert(self.bodies()[i] == pushed[i + dropped]);
                    assert(self.bodies()[j] == pushed[j + dropped]);
                }
                let ghost c = self.network_response_body_counter as nat;
                let ghost b = self.bodies();
                assert forall|i: int| 0 <= i < b.len() implies #[trigger] numbered_id(b[i].0, c) by {
                    assert(b[i] == pushed[i + dropped]);
                    if i + dropped < before.len() {
                        assert(pushed[i + dropped] == before[i + dropped]);
                        assert(numbered_id(before[i + dropped].0, c));
                    } else {
                        assert(fetch_request_id(c) == b[i].0);
                    }
                }
            }
        }
        id
    }

}

/// The page asks to navigate. The page URL becomes `url`
/// and the request (url, method, body) waits for the host, replacing any
/// earlier one.
pub fn op_navigate_impl(state: &mut ObscuraState, url: &str, method: &str, body: &str)
    ensures
        final(state).url@ == url@,
        match final(state).pending_navigation {
            Some(n) => n.0@ == url@ && n.1@ == method@ && n.2@ == body@,
            None => false,
        },
        *final(state) == (ObscuraState {
            url: final(state).url,
            pending_navigation: final(state).pending_navigation,
            ..*old(state)
        }),
        final(state).wf() == old(state).wf(),
{
    state.url = string_from(url);
    state.pending_navigation = Some((string_from(url), string_from(method), string_from(body)));
}

/// The page called an exposed binding: the call is queued for the host.
pub fn op_binding_called_impl(state: &mut ObscuraState, name: &str, payload: &str)
    ensures
        final(state).pending_binding_calls@.map_values(|p: (String, String)| pair_view(p))
            == old(state).pending_binding_calls@.map_values(|p: (String, String)| pair_view(p)).push((name@, payload@)),
        *final(state) == (ObscuraState { pending_binding_calls: final(state).pending_binding_calls, ..*old(state) }),
        final(state).wf() == old(state).wf(),
{
    let ghost before = state.pending_binding_calls@;
    state.pending_binding_calls.push((string_from(name), string_from(payload)));
    assert(state.pending_binding_calls@.map_values(|p: (String, String)| pair_view(p))
        =~= before.map_values(|p: (String, String)| pair_view(p)).push((name@, payload@)));
}

/// Law: binding calls reach the host in the order the page made them,
/// however many there are. Where each queue in `queues` is the one before
/// it with one more call appended (what `op_binding_called_impl` does), the
/// last queue is the first followed by all the calls in order; and
/// `take_pending_binding_calls` hands that queue out whole.
pub proof fn law_binding_calls_in_order(
    queues: Seq<Seq<(Seq<char>, Seq<char>)>>,
    calls: Seq<(Seq<char>, Seq<char>)>,
)
    requires
        queues.len() == calls.len() + 1,
        forall|i: int| 0 <= i < calls.len() ==> #[trigger] queues[i + 1] == queues[i].push(calls[i]),
    ensures
        queues.last() == queues[0] + calls,
    decreases calls.len(),
{
    if calls.len() == 0 {
        assert(queues[0] + calls =~= queues[0]);
    } else {
        let qs = queues.drop_last();
        let cs = calls.drop_last();
        assert forall|i: int| 0 <= i < cs.len() implies #[trigger] qs[i + 1] == qs[i].push(cs[i]) by {
            assert(queues[i + 1] == queues[i].push(calls[i]));
        }
        law_binding_calls_in_order(qs, cs);
        let k = calls.len() - 1;
        assert(queues[k + 1] == queues[k].push(calls[k]));
        assert(queues[0] + calls =~= (queues[0] + cs).push(calls[k]));
    }
}

/// Law: a buffer that holds at most `max` bodies still holds at most `max`
/// after a body is stored (as `store_response_body` and `finish_fetch`
/// store it): the new body is the newest, and the bodies kept from before
/// are the newest of those, in their order.
pub proof fn law_body_buffer_bounded(
    b: Seq<(Seq<char>, Seq<char>, bool)>,
    entry: (Seq<char>, Seq<char>, bool),
    max: nat,
)
    requires
        max > 0,
        b.len() <= max,
    ensures
        ({
            let after = b.push(entry).skip(evicted(b.len() + 1, max));
            &&& 1 <= after.len() <= max
            &&& after.last() == entry
            &&& forall|i: int| 0 <= i < after.len() - 1 ==> #[trigger] after[i] == b[b.len() + 1 - after.len() + i]
        }),
{
    let after = b.push(entry).skip(evicted(b.len() + 1, max));
    assert(after.len() == b.len() + 1 - evicted(b.len() + 1, max));
    assert(after.last() == b.push(entry)[b.len() as int]);
}

/// An id `fetch-n` with `n` above the counter differs from every id of a
/// well-formed buffer.
proof fn lemma_fresh_id(b: Seq<(Seq<char>, Seq<char>, bool)>, counter: nat)
    requires
        bodies_wf(b, counter),
    ensures
        forall|i: int| 0 <= i < b.len() ==> #[trigger] b[i].0 != fetch_request_id(counter + 1),
{
    assert forall|i: int| 0 <= i < b.len() implies #[trigger] b[i].0 != fetch_request_id(counter + 1) by {
        assert(numbered_id(b[i].0, counter));
        let n = choose|n: nat| n <= counter && #[trigger] fetch_request_id(n) == b[i].0;
        lemma_fetch_id_injective(n, counter + 1);
    }
}

/// Raising the counter keeps a buffer well-formed.
proof fn lemma_wf_counter_grows(b: Seq<(Seq<char>, Seq<char>, bool)>, c: nat, d: nat)
    requires
        bodies_wf(b, c),
        c <= d,
    ensures
        bodies_wf(b, d),
{
    assert forall|i: int| 0 <= i < b.len() implies #[trigger] numbered_id(b[i].0, d) by {
        assert(numbered_id(b[i].0, c));
        let n = choose|n: nat| n <= c && #[trigger] fetch_request_id(n) == b[i].0;
        assert(fetch_request_id(n) == b[i].0);
    }
}

/// Distinct numbers give distinct ids.
proof fn lemma_fetch_id_injective(m: nat, n: nat)
    ensures
        m != n ==> fetch_request_id(m) != fetch_request_id(n),
{
    reveal_strlit("fetch-");
    if fetch_request_id(m) == fetch_request_id(n) {
        assert(fetch_request_id(m).skip(6) =~= crate::text::dec(m));
        assert(fetch_request_id(n).skip(6) =~= crate::text::dec(n));
        crate::text::lemma_dec_injective(m, n);
    }
}

/// Removes the first `k` elements of `v` (keeping the rest in order).
fn split_off_front<T>(v: &mut Vec<T>, k: usize) -> (r: Vec<T>)
    requires
        k <= old(v)@.len(),
    ensures
        r@ == old(v)@.skip(k as int),
{
    let rest = v.split_off(k);
    rest
}

} // verus!
