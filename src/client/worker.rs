//! The State-of-the-World session worker: subscriptions, requests and ACKs.
use vstd::prelude::*;
use crate::client::config::ClientConfig;
use crate::transport::{texts, RequestView, XdsDiscoveryRequest, XdsDiscoveryResponse};

verus! {

/// What the worker knows of one type URL: the names watched, the handlers to call
/// with each payload, and the last accepted version and nonce.
#[derive(Debug)]
pub struct Subscription {
    pub type_url: String,
    pub resources: Vec<String>,
    pub handlers: Vec<u64>,
    pub version: String,
    pub nonce: String,
}

pub ghost struct SubView {
    pub type_url: Seq<char>,
    pub resources: Seq<Seq<char>>,
    pub handlers: Seq<u64>,
    pub version: Seq<char>,
    pub nonce: Seq<char>,
}

impl View for Subscription {
    type V = SubView;

    open spec fn view(&self) -> SubView {
        SubView {
            type_url: self.type_url@,
            resources: texts(self.resources@),
            handlers: self.handlers@,
            version: self.version@,
            nonce: self.nonce@,
        }
    }
}

/// What the caller of the worker does next.
#[derive(Debug)]
pub enum Action {
    /// Hand payload number `resource` of the current response to handler `handler`.
    Dispatch { handler: u64, resource: usize },
    /// Send a request on the stream.
    Send(XdsDiscoveryRequest),
}

pub ghost enum ActionView {
    Dispatch { handler: u64, resource: int },
    Send(RequestView),
}

impl View for Action {
    type V = ActionView;

    open spec fn view(&self) -> ActionView {
        match self {
            Action::Dispatch { handler, resource } => ActionView::Dispatch { handler: *handler, resource: *resource as int },
            Action::Send(r) => ActionView::Send(r@),
        }
    }
}

pub open spec fn actions(v: Seq<Action>) -> Seq<ActionView> {
    v.map_values(|a: Action| a@)
}

/// `names` appended to `old`, each name once: a name already present is skipped.
pub open spec fn union_names(old: Seq<Seq<char>>, names: Seq<Seq<char>>) -> Seq<Seq<char>>
    decreases names.len(),
{
    if names.len() == 0 {
        old
    } else {
        let u = union_names(old, names.drop_last());
        if u.contains(names.last()) {
            u
        } else {
            u.push(names.last())
        }
    }
}

pub open spec fn unique_urls(s: Seq<SubView>) -> bool {
    forall|i: int, j: int| 0 <= i < s.len() && 0 <= j < s.len() && s[i].type_url == s[j].type_url ==> i == j
}

pub open spec fn has_sub(s: Seq<SubView>, url: Seq<char>) -> bool {
    exists|i: int| 0 <= i < s.len() && s[i].type_url == url
}

pub open spec fn sub_index(s: Seq<SubView>, url: Seq<char>) -> int {
    choose|i: int| 0 <= i < s.len() && s[i].type_url == url
}

/// The subscription for `url` after a watch of `names` with handler `h`.
pub open spec fn watched(s: Seq<SubView>, url: Seq<char>, names: Seq<Seq<char>>, h: u64) -> SubView {
    if has_sub(s, url) {
        let o = s[sub_index(s, url)];
        SubView {
            type_url: o.type_url,
            resources: union_names(o.resources, names),
            handlers: o.handlers.push(h),
            version: o.version,
            nonce: o.nonce,
        }
    } else {
        SubView {
            type_url: url,
            resources: union_names(Seq::empty(), names),
            handlers: seq![h],
            version: Seq::empty(),
            nonce: Seq::empty(),
        }
    }
}

/// The subscription table after a watch: the subscription is merged into, or added.
pub open spec fn watch_subs(s: Seq<SubView>, url: Seq<char>, names: Seq<Seq<char>>, h: u64) -> Seq<SubView> {
    if has_sub(s, url) {
        s.update(sub_index(s, url), watched(s, url, names, h))
    } else {
        s.push(watched(s, url, names, h))
    }
}

/// The subscription once a response with `version` and `nonce` is accepted.
pub open spec fn accepted(o: SubView, version: Seq<char>, nonce: Seq<char>) -> SubView {
    SubView { type_url: o.type_url, resources: o.resources, handlers: o.handlers, version, nonce }
}

/// The subscription as a new stream first states it: no version, no nonce.
pub open spec fn fresh(o: SubView) -> SubView {
    accepted(o, Seq::empty(), Seq::empty())
}

/// The request that states subscription `s`: all its names, its version and nonce.
pub open spec fn request_of(node: Seq<char>, s: SubView) -> RequestView {
    RequestView {
        version_info: s.version,
        node_id: node,
        resource_names: s.resources,
        type_url: s.type_url,
        response_nonce: s.nonce,
        has_error_detail: false,
    }
}

/// Every handler on every payload: payload by payload, handlers in order.
pub open spec fn dispatch_plan(hs: Seq<u64>, n: nat) -> Seq<ActionView>
    decreases n,
{
    if n == 0 {
        Seq::empty()
    } else {
        dispatch_plan(hs, (n - 1) as nat) + hs.map_values(|h: u64| ActionView::Dispatch { handler: h, resource: n - 1 })
    }
}

/// What a response for a subscribed type URL leads to: the dispatches, then the ACK.
pub open spec fn response_plan(hs: Seq<u64>, n: nat, ack: RequestView) -> Seq<ActionView> {
    dispatch_plan(hs, n).push(ActionView::Send(ack))
}

/// How a session with the server ended.
#[derive(Clone, Copy, Debug, PartialEq, Eq, Structural)]
pub enum SessionEnd {
    /// No stream could be opened.
    ConnectFailed,
    /// The stream failed or the server closed it.
    StreamFailed,
    /// The command queue closed: no caller is left.
    CommandsClosed,
}

/// What the worker does after a session.
#[derive(Clone, Copy, Debug, PartialEq, Eq, Structural)]
pub enum NextStep {
    /// End for good.
    Stop,
    /// Wait `delay_ms` milliseconds, then open a new stream.
    Reconnect { delay_ms: u64 },
}

/// Worker for the xDS client: owns the subscription table of one session.
#[derive(Debug)]
pub struct SotwWorker {
    config: ClientConfig,
    subscriptions: Vec<Subscription>,
}

fn copy_text(s: &String) -> (r: String)
    ensures
        r@ == s@,
{
    s.as_str().to_owned()
}

fn copy_names(v: &Vec<String>) -> (r: Vec<String>)
    ensures
        texts(r@) == texts(v@),
{
    let mut out: Vec<String> = Vec::new();
    let mut i: usize = 0;
    while i < v.len()
        invariant
            i <= v.len(),
            texts(out@) == texts(v@.take(i as int)),
        decreases v.len() - i,
    {
        let ghost before = out@;
        let t = copy_text(&v[i]);
        out.push(t);
        assert(v@.take(i + 1) =~= v@.take(i as int).push(v@[i as int]));
        assert(texts(out@) =~= texts(before).push(t@));
        assert(texts(v@.take(i + 1)) =~= texts(v@.take(i as int)).push(v@[i as int]@));
        i += 1;
    }
    assert(v@.take(i as int) =~= v@);
    out
}

fn contains_name(v: &Vec<String>, n: &String) -> (r: bool)
    ensures
        r == texts(v@).contains(n@),
{
    let mut i: usize = 0;
    while i < v.len()
        invariant
            i <= v.len(),
            forall|k: int| 0 <= k < i ==> texts(v@)[k] != n@,
        decreases v.len() - i,
    {
        if v[i].eq(n) {
            assert(texts(v@)[i as int] == n@);
            return true;
        }
        i += 1;
    }
    false
}

/// Adds each of `names` not yet in `v`, in order.
fn add_names(v: &mut Vec<String>, names: &Vec<String>)
    ensures
        texts(final(v)@) == union_names(texts(old(v)@), texts(names@)),
{
    let ghost start = texts(v@);
    let mut i: usize = 0;
    assert(texts(names@.take(0)) =~= Seq::<Seq<char>>::empty());
    while i < names.len()
        invariant
            i <= names.len(),
            texts(v@) == union_names(start, texts(names@.take(i as int))),
        decreases names.len() - i,
    {
        let n = &names[i];
        proof {
            let t = texts(names@.take(i + 1));
            assert(t.drop_last() =~= texts(names@.take(i as int)));
            assert(t.last() == n@);
        }
        if !contains_name(v, n) {
            let ghost before = texts(v@);
            v.push(copy_text(n));
            assert(texts(v@) =~= before.push(n@));
        }
        i += 1;
    }
    assert(names@.take(i as int) =~= names@);
}

impl SotwWorker {
    pub closed spec fn spec_config(&self) -> ClientConfig {
        self.config
    }

    pub closed spec fn subs(&self) -> Seq<SubView> {
        self.subscriptions@.map_values(|s: Subscription| s@)
    }

    pub closed spec fn node(&self) -> Seq<char> {
        self.config.node_id@
    }

    /// At most one subscription per type URL.
    pub open spec fn wf(&self) -> bool {
        unique_urls(self.subs())
    }

    /// Create a new worker with no subscription.
    pub fn new(config: ClientConfig) -> (r: SotwWorker)
        ensures
            r.wf(),
            r.subs().len() == 0,
            r.spec_config() == config,
            r.node() == config.node_id@,
    {
        SotwWorker { config, subscriptions: Vec::new() }
    }

    /// The configuration the worker was made with.
    pub fn config(&self) -> (r: &ClientConfig)
        ensures
            *r == self.spec_config(),
    {
        &self.config
    }

    /// After a session: a closed command queue ends the worker; any failure is
    /// followed by the configured pause and a new stream, with the subscriptions kept.
    pub fn after_session(&self, end: SessionEnd) -> (r: NextStep)
        ensures
            end == SessionEnd::CommandsClosed ==> r == NextStep::Stop,
            end != SessionEnd::CommandsClosed ==> r == (NextStep::Reconnect { delay_ms: self.spec_config().connect_timeout_ms }),
    {
        match end {
            SessionEnd::CommandsClosed => NextStep::Stop,
            _ => NextStep::Reconnect { delay_ms: self.config.connect_timeout_ms },
        }
    }

    /// The subscriptions, one per type URL.
    pub fn subscriptions(&self) -> (r: &Vec<Subscription>)
        ensures
            r@.map_values(|s: Subscription| s@) == self.subs(),
    {
        &self.subscriptions
    }

    fn find_sub(&self, url: &String) -> (r: Option<usize>)
        requires
            self.wf(),
        ensures
            match r {
                Some(i) => i < self.subs().len() && has_sub(self.subs(), url@) && sub_index(self.subs(), url@) == i,
                None => !has_sub(self.subs(), url@),
            },
    {
        let ghost s = self.subs();
        let mut i: usize = 0;
        while i < self.subscriptions.len()
            invariant
                i <= self.subscriptions.len(),
                s == self.subs(),
                unique_urls(s),
                forall|k: int| 0 <= k < i ==> s[k].type_url != url@,
            decreases self.subscriptions.len() - i,
        {
            if self.subscriptions[i].type_url.eq(url) {
                assert(s[i as int].type_url == url@);
                assert(has_sub(s, url@));
                let ghost j = sub_index(s, url@);
                assert(s[j].type_url == url@);
                return Some(i);
            }
            i += 1;
        }
        None
    }

    fn request_for(&self, s: &Subscription) -> (r: XdsDiscoveryRequest)
        ensures
            r@ == request_of(self.node(), s@),
    {
        XdsDiscoveryRequest {
            version_info: copy_text(&s.version),
            node_id: copy_text(&self.config.node_id),
            resource_names: copy_names(&s.resources),
            type_url: copy_text(&s.type_url),
            response_nonce: copy_text(&s.nonce),
            error_detail: None,
        }
    }

    /// The first requests on a new stream: one per subscription, with every watched
    /// name and an empty version and nonce.
    pub fn initial_requests(&self) -> (r: Vec<XdsDiscoveryRequest>)
        ensures
            r.len() == self.subs().len(),
            forall|i: int| 0 <= i < r.len() ==> (#[trigger] r@[i])@ == request_of(self.node(), fresh(self.subs()[i])),
    {
        let mut out: Vec<XdsDiscoveryRequest> = Vec::new();
        let mut i: usize = 0;
        while i < self.subscriptions.len()
            invariant
                i <= self.subscriptions.len(),
                out.len() == i,
                forall|k: int| 0 <= k < i ==> (#[trigger] out@[k])@ == request_of(self.node(), fresh(self.subs()[k])),
            decreases self.subscriptions.len() - i,
        {
            let s = &self.subscriptions[i];
            let req = XdsDiscoveryRequest {
                version_info: String::new(),
                node_id: copy_text(&self.config.node_id),
                resource_names: copy_names(&s.resources),
                type_url: copy_text(&s.type_url),
                response_nonce: String::new(),
                error_detail: None,
            };
            assert(req@ == request_of(self.node(), fresh(self.subs()[i as int])));
            out.push(req);
            i += 1;
        }
        out
    }

    /// Registers a watch: the subscription for `type_url` gains the names it lacks and
    /// the handler; the request states all its names with the last accepted version
    /// and nonce (empty before the first response).
    pub fn on_watch(&mut self, type_url: String, resource_names: Vec<String>, handler: u64) -> (r: XdsDiscoveryRequest)
        requires
            old(self).wf(),
        ensures
            final(self).wf(),
            final(self).spec_config() == old(self).spec_config(),
            final(self).subs() == watch_subs(old(self).subs(), type_url@, texts(resource_names@), handler),
            r@ == request_of(old(self).node(), watched(old(self).subs(), type_url@, texts(resource_names@), handler)),
    {
        let ghost s0 = self.subs();
        let ghost w = watched(s0, type_url@, texts(resource_names@), handler);
        match self.find_sub(&type_url) {
            Some(i) => {
                let mut sub = self.subscriptions.remove(i);
                add_names(&mut sub.resources, &resource_names);
                sub.handlers.push(handler);
                assert(sub@ == w);
                let req = self.request_for(&sub);
                self.subscriptions.insert(i, sub);
                assert(self.subs() =~= s0.update(i as int, w));
                req
            },
            None => {
                let mut names: Vec<String> = Vec::new();
                add_names(&mut names, &resource_names);
                let mut handlers: Vec<u64> = Vec::new();
                handlers.push(handler);
                let sub = Subscription { type_url, resources: names, handlers, version: String::new(), nonce: String::new() };
                assert(texts(Seq::<String>::empty()) =~= Seq::<Seq<char>>::empty());
                assert(handlers@ =~= seq![handler]);
                assert(sub@ == w);
                let req = self.request_for(&sub);
                self.subscriptions.push(sub);
                assert(self.subs() =~= s0.push(w));
                req
            },
        }
    }

    /// Takes in a response. For a type URL without subscription nothing happens and
    /// nothing is owed. Otherwise every handler gets every payload, in order, and
    /// after them the ACK carries the new version and nonce, which the subscription
    /// now holds as accepted.
    pub fn on_response(&mut self, resp: &XdsDiscoveryResponse) -> (r: Vec<Action>)
        requires
            old(self).wf(),
        ensures
            final(self).wf(),
            final(self).spec_config() == old(self).spec_config(),
            has_sub(old(self).subs(), resp.type_url@) ==> {
                let i = sub_index(old(self).subs(), resp.type_url@);
                let s = accepted(old(self).subs()[i], resp.version_info@, resp.nonce@);
                &&& final(self).subs() == old(self).subs().update(i, s)
                &&& actions(r@) == response_plan(s.handlers, resp.resources.len() as nat, request_of(old(self).node(), s))
            },
            !has_sub(old(self).subs(), resp.type_url@) ==> final(self).subs() == old(self).subs() && r@.len() == 0,
    {
        let ghost s0 = self.subs();
        let mut out: Vec<Action> = Vec::new();
        let i = match self.find_sub(&resp.type_url) {
            Some(i) => i,
            None => return out,
        };
        let mut sub = self.subscriptions.remove(i);
        sub.version = copy_text(&resp.version_info);
        sub.nonce = copy_text(&resp.nonce);
        let ghost sv = sub@;
        assert(sv == accepted(s0[i as int], resp.version_info@, resp.nonce@));
        let mut k: usize = 0;
        while k < resp.resources.len()
            invariant
                k <= resp.resources.len(),
                sub@ == sv,
                actions(out@) == dispatch_plan(sv.handlers, k as nat),
            decreases resp.resources.len() - k,
        {
            let mut j: usize = 0;
            let ghost base = actions(out@);
            while j < sub.handlers.len()
                invariant
                    j <= sub.handlers.len(),
                    k < resp.resources.len(),
                    sub@ == sv,
                    base == dispatch_plan(sv.handlers, k as nat),
                    actions(out@) == base + sv.handlers.take(j as int).map_values(
                        |h: u64| ActionView::Dispatch { handler: h, resource: k as int },
                    ),
                decreases sub.handlers.len() - j,
            {
                let ghost before = actions(out@);
                out.push(Action::Dispatch { handler: sub.handlers[j], resource: k });
                j += 1;
                assert(sv.handlers.take(j as int).map_values(|h: u64| ActionView::Dispatch { handler: h, resource: k as int })
                    =~= sv.handlers.take(j - 1).map_values(|h: u64| ActionView::Dispatch { handler: h, resource: k as int }).push(
                    ActionView::Dispatch { handler: sv.handlers[j - 1], resource: k as int }));
                assert(actions(out@) =~= before.push(ActionView::Dispatch { handler: sv.handlers[j - 1], resource: k as int }));
            }
            assert(sv.handlers.take(j as int) =~= sv.handlers);
            k += 1;
        }
        let ack = self.request_for(&sub);
        let ghost before = actions(out@);
        out.push(Action::Send(ack));
        assert(actions(out@) =~= before.push(ActionView::Send(request_of(self.node(), sv))));
        self.subscriptions.insert(i, sub);
        assert(self.subs() =~= s0.update(i as int, sv));
        out
    }
}

/// Once a response for `url` is accepted with `version` and `nonce`, the request that
/// a later watch of `url` emits carries that same version and nonce, and a watch of
/// any other type URL leaves them in place.
pub proof fn watch_after_accept_echoes_accepted(
    s: Seq<SubView>,
    url: Seq<char>,
    version: Seq<char>,
    nonce: Seq<char>,
    other: Seq<char>,
    names: Seq<Seq<char>>,
    h: u64,
)
    requires
        unique_urls(s),
        has_sub(s, url),
    ensures
        ({
            let t = s.update(sub_index(s, url), accepted(s[sub_index(s, url)], version, nonce));
            &&& request_of(Seq::empty(), watched(t, url, names, h)).version_info == version
            &&& request_of(Seq::empty(), watched(t, url, names, h)).response_nonce == nonce
            &&& has_sub(watch_subs(t, other, names, h), url)
            &&& watch_subs(t, other, names, h)[sub_index(watch_subs(t, other, names, h), url)].version == version
            &&& watch_subs(t, other, names, h)[sub_index(watch_subs(t, other, names, h), url)].nonce == nonce
        }),
{
    let i = sub_index(s, url);
    let t = s.update(i, accepted(s[i], version, nonce));
    assert(t[i].type_url == url);
    assert(sub_index(t, url) == i);
    let u = watch_subs(t, other, names, h);
    assert(u[i].type_url == url);
    let k = sub_index(u, url);
    if k != i {
        if has_sub(t, other) {
            assert(t[sub_index(t, other)].type_url == other);
        } else {
            assert(k == t.len());
        }
    }
}

/// The names of a subscription after a watch are the names before and the names
/// watched, as a set; and a name never appears twice.
pub proof fn watched_names_are_the_union(old: Seq<Seq<char>>, names: Seq<Seq<char>>)
    requires
        old.no_duplicates(),
    ensures
        union_names(old, names).to_set() == old.to_set().union(names.to_set()),
        union_names(old, names).no_duplicates(),
    decreases names.len(),
{
    if names.len() > 0 {
        let init = names.drop_last();
        watched_names_are_the_union(old, init);
        let u = union_names(old, init);
        assert(names =~= init.push(names.last()));
        init.lemma_push_to_set_commute(names.last());
        if !u.contains(names.last()) {
            u.lemma_push_to_set_commute(names.last());
            assert forall|a: int, b: int| 0 <= a < b < u.push(names.last()).len() implies
                u.push(names.last())[a] != u.push(names.last())[b] by {
                if b == u.len() {
                    assert(u.contains(u[a]));
                }
            }
        }
        assert(union_names(old, names).to_set() =~= old.to_set().union(names.to_set()));
    } else {
        assert(names.to_set() =~= Set::<Seq<char>>::empty());
        assert(old.to_set().union(names.to_set()) =~= old.to_set());
    }
}

/// Watching names that are all watched already leaves the names as they are.
pub proof fn rewatch_keeps_names(old: Seq<Seq<char>>, names: Seq<Seq<char>>)
    requires
        forall|k: int| 0 <= k < names.len() ==> old.contains(#[trigger] names[k]),
    ensures
        union_names(old, names) == old,
    decreases names.len(),
{
    if names.len() > 0 {
        rewatch_keeps_names(old, names.drop_last());
        assert(old.contains(names[names.len() - 1]));
    }
}

proof fn dispatch_plan_shape(hs: Seq<u64>, n: nat)
    ensures
        dispatch_plan(hs, n).len() == n * hs.len(),
        forall|i: int| 0 <= i < dispatch_plan(hs, n).len() ==> (#[trigger] dispatch_plan(hs, n)[i]) is Dispatch,
    decreases n,
{
    if n > 0 {
        dispatch_plan_shape(hs, (n - 1) as nat);
        let m = (n - 1) as nat;
        assert(dispatch_plan(hs, n).len() == dispatch_plan(hs, m).len() + hs.len());
        assert(n * hs.len() == m * hs.len() + hs.len()) by (nonlinear_arith)
            requires
                m + 1 == n,
        ;
    } else {
        assert(n * hs.len() == 0) by (nonlinear_arith)
            requires
                n == 0,
        ;
    }
}

/// Every handler call for a response comes before its ACK, and the ACK is the last
/// action: one dispatch per payload and handler, then one send.
pub proof fn ack_follows_dispatches(hs: Seq<u64>, n: nat, ack: RequestView)
    ensures
        response_plan(hs, n, ack).len() == n * hs.len() + 1,
        response_plan(hs, n, ack).last() == ActionView::Send(ack),
        forall|i: int| 0 <= i < response_plan(hs, n, ack).len() - 1 ==> (#[trigger] response_plan(hs, n, ack)[i]) is Dispatch,
{
    dispatch_plan_shape(hs, n);
}

/// A response without payloads calls no handler and is still acknowledged.
pub proof fn empty_response_only_acks(hs: Seq<u64>, ack: RequestView)
    ensures
        response_plan(hs, 0, ack) == seq![ActionView::Send(ack)],
{
    assert(response_plan(hs, 0, ack) =~= seq![ActionView::Send(ack)]);
}

/// The first request for a type URL that has no subscription yet carries an empty
/// version and nonce, as do the first requests on every new stream.
pub proof fn first_request_has_no_version(s: Seq<SubView>, node: Seq<char>, url: Seq<char>, names: Seq<Seq<char>>, h: u64)
    ensures
        !has_sub(s, url) ==> request_of(node, watched(s, url, names, h)).version_info.len() == 0
            && request_of(node, watched(s, url, names, h)).response_nonce.len() == 0,
        forall|i: int| 0 <= i < s.len() ==> (#[trigger] request_of(node, fresh(s[i]))).version_info.len() == 0
            && request_of(node, fresh(s[i])).response_nonce.len() == 0,
{
}

/// A watch never drops a name: the names before it stay first, in their order.
pub proof fn watch_only_adds_names(old: Seq<Seq<char>>, names: Seq<Seq<char>>)
    ensures
        old.is_prefix_of(union_names(old, names)),
    decreases names.len(),
{
    if names.len() > 0 {
        watch_only_adds_names(old, names.drop_last());
    }
}

} // verus!
