//! The Listener resource: a listener's name and the route configuration it names.
use vstd::prelude::*;
use crate::error::Error;
use crate::resource::XdsResource;
use crate::wire::{
    any_step, bytes_field, fold_fields, lemma_fold_done, lemma_fold_step, merge_any, merge_message, read_fields,
    read_string, same_result, spans_view, string_field, AnyValue, AnyView, Field, WireError, WireType,
};

verus! {

/// Type URL of the Listener resource.
pub const LISTENER_TYPE_URL: &'static str = "type.googleapis.com/envoy.config.listener.v3.Listener";

/// Type URL of the HTTP connection manager packed in an `Any`.
pub const HCM_TYPE_URL: &'static str = "type.googleapis.com/envoy.extensions.filters.network.http_connection_manager.v3.HttpConnectionManager";

/// Name of the network filter that carries an HTTP connection manager.
pub const HCM_FILTER_NAME: &'static str = "envoy.filters.network.http_connection_manager";

/// Listener resource.
#[derive(Clone, Debug)]
pub struct Listener {
    /// The name of the listener.
    pub name: String,
    /// The name of the route configuration found in RDS, if any.
    pub route_config_name: Option<String>,
}

pub ghost struct ListenerView {
    pub name: Seq<char>,
    pub route_config_name: Option<Seq<char>>,
}

pub open spec fn opt_text(o: Option<String>) -> Option<Seq<char>> {
    match o {
        Some(t) => Some(t@),
        None => None,
    }
}

impl View for Listener {
    type V = ListenerView;

    open spec fn view(&self) -> ListenerView {
        ListenerView { name: self.name@, route_config_name: opt_text(self.route_config_name) }
    }
}

/// Fields of `Rds`: route_config_name = 2.
pub open spec fn rds_step() -> spec_fn(Seq<char>, Field) -> Result<Seq<char>, WireError> {
    |a: Seq<char>, f: Field|
        if f.num == 2 {
            string_field(f)
        } else {
            Ok(a)
        }
}

/// The `route_specifier` oneof of an HTTP connection manager, with the RDS variant read out.
#[derive(Debug)]
pub enum RouteSpecifier {
    Unset,
    Rds(String),
    Other,
}

pub ghost enum RouteSpecView {
    Unset,
    Rds(Seq<char>),
    Other,
}

impl View for RouteSpecifier {
    type V = RouteSpecView;

    open spec fn view(&self) -> RouteSpecView {
        match self {
            RouteSpecifier::Unset => RouteSpecView::Unset,
            RouteSpecifier::Rds(n) => RouteSpecView::Rds(n@),
            RouteSpecifier::Other => RouteSpecView::Other,
        }
    }
}

/// Fields of `HttpConnectionManager` that make up `route_specifier`: rds = 3,
/// route_config = 4, scoped_routes = 31. The last variant on the wire wins; repeated
/// `rds` payloads merge.
pub open spec fn hcm_step() -> spec_fn(RouteSpecView, Field) -> Result<RouteSpecView, WireError> {
    |a: RouteSpecView, f: Field|
        if f.num == 3 {
            match bytes_field(f) {
                Err(e) => Err(e),
                Ok(d) => {
                    let prev = match a {
                        RouteSpecView::Rds(n) => n,
                        _ => Seq::empty(),
                    };
                    match merge_message(d, prev, rds_step()) {
                        Ok(n) => Ok(RouteSpecView::Rds(n)),
                        Err(e) => Err(e),
                    }
                },
            }
        } else if f.num == 4 || f.num == 31 {
            match bytes_field(f) {
                Err(e) => Err(e),
                Ok(_) => Ok(RouteSpecView::Other),
            }
        } else {
            Ok(a)
        }
}

/// The `api_listener` field of an `ApiListener`.
#[derive(Debug)]
pub struct ApiListenerValue {
    pub api_listener: Option<AnyValue>,
}

impl View for ApiListenerValue {
    type V = Option<AnyView>;

    open spec fn view(&self) -> Option<AnyView> {
        match self.api_listener {
            Some(a) => Some(a@),
            None => None,
        }
    }
}

/// Fields of `ApiListener`: api_listener = 1.
pub open spec fn api_step() -> spec_fn(Option<AnyView>, Field) -> Result<Option<AnyView>, WireError> {
    |a: Option<AnyView>, f: Field|
        if f.num == 1 {
            match bytes_field(f) {
                Err(e) => Err(e),
                Ok(d) => {
                    let prev = match a {
                        Some(x) => x,
                        None => AnyView::empty(),
                    };
                    match merge_message(d, prev, any_step()) {
                        Ok(x) => Ok(Some(x)),
                        Err(e) => Err(e),
                    }
                },
            }
        } else {
            Ok(a)
        }
}

/// The `config_type` oneof of a network filter.
#[derive(Debug)]
pub enum ConfigType {
    Unset,
    Typed(AnyValue),
    Other,
}

pub ghost enum ConfigView {
    Unset,
    Typed(AnyView),
    Other,
}

/// A network filter: its name and its configuration.
#[derive(Debug)]
pub struct FilterValue {
    pub name: String,
    pub config: ConfigType,
}

pub ghost struct FilterView {
    pub name: Seq<char>,
    pub config: ConfigView,
}

impl FilterView {
    pub open spec fn empty() -> FilterView {
        FilterView { name: Seq::empty(), config: ConfigView::Unset }
    }
}

impl View for FilterValue {
    type V = FilterView;

    open spec fn view(&self) -> FilterView {
        FilterView {
            name: self.name@,
            config: match self.config {
                ConfigType::Unset => ConfigView::Unset,
                ConfigType::Typed(a) => ConfigView::Typed(a@),
                ConfigType::Other => ConfigView::Other,
            },
        }
    }
}

impl FilterValue {
    pub fn new() -> (r: FilterValue)
        ensures
            r@ == FilterView::empty(),
    {
        FilterValue { name: String::new(), config: ConfigType::Unset }
    }
}

/// Fields of `Filter`: name = 1, typed_config = 4, config_discovery = 5.
pub open spec fn filter_step() -> spec_fn(FilterView, Field) -> Result<FilterView, WireError> {
    |a: FilterView, f: Field|
        if f.num == 1 {
            match string_field(f) {
                Ok(t) => Ok(FilterView { name: t, config: a.config }),
                Err(e) => Err(e),
            }
        } else if f.num == 4 {
            match bytes_field(f) {
                Err(e) => Err(e),
                Ok(d) => {
                    let prev = match a.config {
                        ConfigView::Typed(x) => x,
                        _ => AnyView::empty(),
                    };
                    match merge_message(d, prev, any_step()) {
                        Ok(x) => Ok(FilterView { name: a.name, config: ConfigView::Typed(x) }),
                        Err(e) => Err(e),
                    }
                },
            }
        } else if f.num == 5 {
            match bytes_field(f) {
                Err(e) => Err(e),
                Ok(_) => Ok(FilterView { name: a.name, config: ConfigView::Other }),
            }
        } else {
            Ok(a)
        }
}

/// The filters of a listener's filter chains, chain after chain.
#[derive(Debug)]
pub struct FilterList {
    pub items: Vec<FilterValue>,
}

impl View for FilterList {
    type V = Seq<FilterView>;

    open spec fn view(&self) -> Seq<FilterView> {
        self.items@.map_values(|f: FilterValue| f@)
    }
}

/// Fields of `FilterChain`: filters = 3, each appended to the filters seen so far.
pub open spec fn chain_step() -> spec_fn(Seq<FilterView>, Field) -> Result<Seq<FilterView>, WireError> {
    |a: Seq<FilterView>, f: Field|
        if f.num == 3 {
            match bytes_field(f) {
                Err(e) => Err(e),
                Ok(d) => match merge_message(d, FilterView::empty(), filter_step()) {
                    Ok(x) => Ok(a.push(x)),
                    Err(e) => Err(e),
                },
            }
        } else {
            Ok(a)
        }
}

/// What the decoder reads of a `Listener` message.
#[derive(Debug)]
pub struct ListenerFields {
    pub name: String,
    pub filters: FilterList,
    pub api: ApiListenerValue,
}

pub ghost struct ListenerFieldsView {
    pub name: Seq<char>,
    pub filters: Seq<FilterView>,
    pub api: Option<AnyView>,
}

impl ListenerFieldsView {
    pub open spec fn empty() -> ListenerFieldsView {
        ListenerFieldsView { name: Seq::empty(), filters: Seq::empty(), api: None }
    }
}

impl View for ListenerFields {
    type V = ListenerFieldsView;

    open spec fn view(&self) -> ListenerFieldsView {
        ListenerFieldsView { name: self.name@, filters: self.filters@, api: self.api@ }
    }
}

/// Fields of `Listener`: name = 1, filter_chains = 3, api_listener = 19.
pub open spec fn listener_step() -> spec_fn(ListenerFieldsView, Field) -> Result<ListenerFieldsView, WireError> {
    |a: ListenerFieldsView, f: Field|
        if f.num == 1 {
            match string_field(f) {
                Ok(t) => Ok(ListenerFieldsView { name: t, filters: a.filters, api: a.api }),
                Err(e) => Err(e),
            }
        } else if f.num == 3 {
            match bytes_field(f) {
                Err(e) => Err(e),
                Ok(d) => match merge_message(d, a.filters, chain_step()) {
                    Ok(x) => Ok(ListenerFieldsView { name: a.name, filters: x, api: a.api }),
                    Err(e) => Err(e),
                },
            }
        } else if f.num == 19 {
            match bytes_field(f) {
                Err(e) => Err(e),
                Ok(d) => match merge_message(d, a.api, api_step()) {
                    Ok(x) => Ok(ListenerFieldsView { name: a.name, filters: a.filters, api: x }),
                    Err(e) => Err(e),
                },
            }
        } else {
            Ok(a)
        }
}

/// The RDS route name of an `Any` that packs an HTTP connection manager; `None` for
/// another type or another route specifier.
pub open spec fn hcm_route(a: AnyView) -> Result<Option<Seq<char>>, WireError> {
    if a.type_url == HCM_TYPE_URL@ {
        match merge_message(a.value, RouteSpecView::Unset, hcm_step()) {
            Err(e) => Err(e),
            Ok(RouteSpecView::Rds(n)) => Ok(Some(n)),
            Ok(_) => Ok(None),
        }
    } else {
        Ok(None)
    }
}

/// The route name that a filter yields: only the HTTP connection manager filter with a
/// typed configuration yields one.
pub open spec fn filter_route(f: FilterView) -> Result<Option<Seq<char>>, WireError> {
    match f.config {
        ConfigView::Typed(a) => if f.name == HCM_FILTER_NAME@ {
            hcm_route(a)
        } else {
            Ok(None)
        },
        _ => Ok(None),
    }
}

/// The first route name among the filters, in order; a filter before it that fails
/// to decode fails the search.
pub open spec fn filters_route(fs: Seq<FilterView>) -> Result<Option<Seq<char>>, WireError>
    decreases fs.len(),
{
    if fs.len() == 0 {
        Ok(None)
    } else {
        match filter_route(fs[0]) {
            Err(e) => Err(e),
            Ok(Some(n)) => Ok(Some(n)),
            Ok(None) => filters_route(fs.drop_first()),
        }
    }
}

/// The Listener view of a serialized `Listener`: the `api_listener` is searched
/// first, then the filter chains.
pub open spec fn listener_of(b: Seq<u8>) -> Result<ListenerView, WireError> {
    match merge_message(b, ListenerFieldsView::empty(), listener_step()) {
        Err(e) => Err(e),
        Ok(l) => {
            let api = match l.api {
                Some(a) => hcm_route(a),
                None => Ok(None),
            };
            match api {
                Err(e) => Err(e),
                Ok(Some(n)) => Ok(ListenerView { name: l.name, route_config_name: Some(n) }),
                Ok(None) => match filters_route(l.filters) {
                    Err(e) => Err(e),
                    Ok(r) => Ok(ListenerView { name: l.name, route_config_name: r }),
                },
            }
        },
    }
}

/// Merges the `Rds` in `b[lo..hi]` into a route name.
fn merge_rds(b: &[u8], lo: usize, hi: usize, init: String) -> (r: Result<String, WireError>)
    requires
        lo <= hi <= b.len(),
    ensures
        same_result(r, merge_message(b@.subrange(lo as int, hi as int), init@, rds_step())),
{
    let fields = match read_fields(b, lo, hi) {
        Ok(f) => f,
        Err(e) => return Err(e),
    };
    let ghost fs = spans_view(fields@, b@);
    let ghost a0 = init@;
    let mut acc = init;
    let mut i: usize = 0;
    assert(fs.subrange(0, fs.len() as int) =~= fs);
    while i < fields.len()
        invariant
            i <= fields.len(),
            hi <= b.len(),
            fs == spans_view(fields@, b@),
            forall|j: int| 0 <= j < fields.len() ==> (#[trigger] fields@[j]).within(lo as int, hi as int),
            init@ == a0,
            merge_message(b@.subrange(lo as int, hi as int), a0, rds_step()) == fold_fields(fs, a0, rds_step()),
            fold_fields(fs, a0, rds_step()) == fold_fields(fs.subrange(i as int, fs.len() as int), acc@, rds_step()),
        decreases fields.len() - i,
    {
        let s = fields[i];
        proof {
            lemma_fold_step(fs, i as int, acc@, rds_step());
            assert(fs[i as int] == s.view_in(b@));
        }
        if s.num == 2 {
            match read_string(b, s) {
                Ok(t) => {
                    acc = t;
                },
                Err(e) => return Err(e),
            }
        }
        i += 1;
    }
    proof {
        lemma_fold_done(fs, acc@, rds_step());
    }
    Ok(acc)
}

/// Merges the route specifier of the `HttpConnectionManager` in `b[lo..hi]`.
fn merge_hcm(b: &[u8], lo: usize, hi: usize, init: RouteSpecifier) -> (r: Result<RouteSpecifier, WireError>)
    requires
        lo <= hi <= b.len(),
    ensures
        same_result(r, merge_message(b@.subrange(lo as int, hi as int), init@, hcm_step())),
{
    let fields = match read_fields(b, lo, hi) {
        Ok(f) => f,
        Err(e) => return Err(e),
    };
    let ghost fs = spans_view(fields@, b@);
    let ghost a0 = init@;
    let mut acc = init;
    let mut i: usize = 0;
    assert(fs.subrange(0, fs.len() as int) =~= fs);
    while i < fields.len()
        invariant
            i <= fields.len(),
            hi <= b.len(),
            fs == spans_view(fields@, b@),
            forall|j: int| 0 <= j < fields.len() ==> (#[trigger] fields@[j]).within(lo as int, hi as int),
            init@ == a0,
            merge_message(b@.subrange(lo as int, hi as int), a0, hcm_step()) == fold_fields(fs, a0, hcm_step()),
            fold_fields(fs, a0, hcm_step()) == fold_fields(fs.subrange(i as int, fs.len() as int), acc@, hcm_step()),
        decreases fields.len() - i,
    {
        let s = fields[i];
        proof {
            lemma_fold_step(fs, i as int, acc@, hcm_step());
            assert(fs[i as int] == s.view_in(b@));
        }
        if s.num == 3 {
            if s.wire != WireType::Len {
                return Err(WireError::UnexpectedWireType);
            }
            let prev = match acc {
                RouteSpecifier::Rds(n) => n,
                _ => String::new(),
            };
            match merge_rds(b, s.lo, s.hi, prev) {
                Ok(n) => {
                    acc = RouteSpecifier::Rds(n);
                },
                Err(e) => return Err(e),
            }
        } else if s.num == 4 || s.num == 31 {
            if s.wire != WireType::Len {
                return Err(WireError::UnexpectedWireType);
            }
            acc = RouteSpecifier::Other;
        }
        i += 1;
    }
    proof {
        lemma_fold_done(fs, acc@, hcm_step());
    }
    Ok(acc)
}

/// Merges the `ApiListener` in `b[lo..hi]`.
fn merge_api(b: &[u8], lo: usize, hi: usize, init: ApiListenerValue) -> (r: Result<ApiListenerValue, WireError>)
    requires
        lo <= hi <= b.len(),
    ensures
        same_result(r, merge_message(b@.subrange(lo as int, hi as int), init@, api_step())),
{
    let fields = match read_fields(b, lo, hi) {
        Ok(f) => f,
        Err(e) => return Err(e),
    };
    let ghost fs = spans_view(fields@, b@);
    let ghost a0 = init@;
    let mut acc = init;
    let mut i: usize = 0;
    assert(fs.subrange(0, fs.len() as int) =~= fs);
    while i < fields.len()
        invariant
            i <= fields.len(),
            hi <= b.len(),
            fs == spans_view(fields@, b@),
            forall|j: int| 0 <= j < fields.len() ==> (#[trigger] fields@[j]).within(lo as int, hi as int),
            init@ == a0,
            merge_message(b@.subrange(lo as int, hi as int), a0, api_step()) == fold_fields(fs, a0, api_step()),
            fold_fields(fs, a0, api_step()) == fold_fields(fs.subrange(i as int, fs.len() as int), acc@, api_step()),
        decreases fields.len() - i,
    {
        let s = fields[i];
        proof {
            lemma_fold_step(fs, i as int, acc@, api_step());
            assert(fs[i as int] == s.view_in(b@));
        }
        if s.num == 1 {
            if s.wire != WireType::Len {
                return Err(WireError::UnexpectedWireType);
            }
            let prev = match acc.api_listener {
                Some(x) => x,
                None => AnyValue::new(),
            };
            match merge_any(b, s.lo, s.hi, prev) {
                Ok(x) => {
                    acc = ApiListenerValue { api_listener: Some(x) };
                },
                Err(e) => return Err(e),
            }
        }
        i += 1;
    }
    proof {
        lemma_fold_done(fs, acc@, api_step());
    }
    Ok(acc)
}

/// Merges the `Filter` in `b[lo..hi]`.
fn merge_filter(b: &[u8], lo: usize, hi: usize, init: FilterValue) -> (r: Result<FilterValue, WireError>)
    requires
        lo <= hi <= b.len(),
    ensures
        same_result(r, merge_message(b@.subrange(lo as int, hi as int), init@, filter_step())),
{
    let fields = match read_fields(b, lo, hi) {
        Ok(f) => f,
        Err(e) => return Err(e),
    };
    let ghost fs = spans_view(fields@, b@);
    let ghost a0 = init@;
    let mut acc = init;
    let mut i: usize = 0;
    assert(fs.subrange(0, fs.len() as int) =~= fs);
    while i < fields.len()
        invariant
            i <= fields.len(),
            hi <= b.len(),
            fs == spans_view(fields@, b@),
            forall|j: int| 0 <= j < fields.len() ==> (#[trigger] fields@[j]).within(lo as int, hi as int),
            init@ == a0,
            merge_message(b@.subrange(lo as int, hi as int), a0, filter_step()) == fold_fields(fs, a0, filter_step()),
            fold_fields(fs, a0, filter_step()) == fold_fields(fs.subrange(i as int, fs.len() as int), acc@, filter_step()),
        decreases fields.len() - i,
    {
        let s = fields[i];
        proof {
            lemma_fold_step(fs, i as int, acc@, filter_step());
            assert(fs[i as int] == s.view_in(b@));
        }
        if s.num == 1 {
            match read_string(b, s) {
                Ok(t) => {
                    acc.name = t;
                },
                Err(e) => return Err(e),
            }
        } else if s.num == 4 {
            if s.wire != WireType::Len {
                return Err(WireError::UnexpectedWireType);
            }
            let FilterValue { name, config } = acc;
            let prev = match config {
                ConfigType::Typed(x) => x,
                _ => AnyValue::new(),
            };
            match merge_any(b, s.lo, s.hi, prev) {
                Ok(x) => {
                    acc = FilterValue { name, config: ConfigType::Typed(x) };
                },
                Err(e) => return Err(e),
            }
        } else if s.num == 5 {
            if s.wire != WireType::Len {
                return Err(WireError::UnexpectedWireType);
            }
            acc.config = ConfigType::Other;
        }
        i += 1;
    }
    proof {
        lemma_fold_done(fs, acc@, filter_step());
    }
    Ok(acc)
}

/// Appends the filters of the `FilterChain` in `b[lo..hi]`.
fn merge_chain(b: &[u8], lo: usize, hi: usize, init: FilterList) -> (r: Result<FilterList, WireError>)
    requires
        lo <= hi <= b.len(),
    ensures
        same_result(r, merge_message(b@.subrange(lo as int, hi as int), init@, chain_step())),
{
    let fields = match read_fields(b, lo, hi) {
        Ok(f) => f,
        Err(e) => return Err(e),
    };
    let ghost fs = spans_view(fields@, b@);
    let ghost a0 = init@;
    let mut acc = init;
    let mut i: usize = 0;
    assert(fs.subrange(0, fs.len() as int) =~= fs);
    while i < fields.len()
        invariant
            i <= fields.len(),
            hi <= b.len(),
            fs == spans_view(fields@, b@),
            forall|j: int| 0 <= j < fields.len() ==> (#[trigger] fields@[j]).within(lo as int, hi as int),
            init@ == a0,
            merge_message(b@.subrange(lo as int, hi as int), a0, chain_step()) == fold_fields(fs, a0, chain_step()),
            fold_fields(fs, a0, chain_step()) == fold_fields(fs.subrange(i as int, fs.len() as int), acc@, chain_step()),
        decreases fields.len() - i,
    {
        let s = fields[i];
        proof {
            lemma_fold_step(fs, i as int, acc@, chain_step());
            assert(fs[i as int] == s.view_in(b@));
        }
        if s.num == 3 {
            if s.wire != WireType::Len {
                return Err(WireError::UnexpectedWireType);
            }
            match merge_filter(b, s.lo, s.hi, FilterValue::new()) {
                Ok(x) => {
                    let ghost before = acc@;
                    let ghost xv = x@;
                    acc.items.push(x);
                    assert(acc@ =~= before.push(xv));
                },
                Err(e) => return Err(e),
            }
        }
        i += 1;
    }
    proof {
        lemma_fold_done(fs, acc@, chain_step());
    }
    Ok(acc)
}

/// Merges the `Listener` in `b[lo..hi]`.
fn merge_listener(b: &[u8], lo: usize, hi: usize, init: ListenerFields) -> (r: Result<ListenerFields, WireError>)
    requires
        lo <= hi <= b.len(),
    ensures
        same_result(r, merge_message(b@.subrange(lo as int, hi as int), init@, listener_step())),
{
    let fields = match read_fields(b, lo, hi) {
        Ok(f) => f,
        Err(e) => return Err(e),
    };
    let ghost fs = spans_view(fields@, b@);
    let ghost a0 = init@;
    let mut acc = init;
    let mut i: usize = 0;
    assert(fs.subrange(0, fs.len() as int) =~= fs);
    while i < fields.len()
        invariant
            i <= fields.len(),
            hi <= b.len(),
            fs == spans_view(fields@, b@),
            forall|j: int| 0 <= j < fields.len() ==> (#[trigger] fields@[j]).within(lo as int, hi as int),
            init@ == a0,
            merge_message(b@.subrange(lo as int, hi as int), a0, listener_step()) == fold_fields(fs, a0, listener_step()),
            fold_fields(fs, a0, listener_step()) == fold_fields(fs.subrange(i as int, fs.len() as int), acc@, listener_step()),
        decreases fields.len() - i,
    {
        let s = fields[i];
        proof {
            lemma_fold_step(fs, i as int, acc@, listener_step());
            assert(fs[i as int] == s.view_in(b@));
        }
        if s.num == 1 {
            match read_string(b, s) {
                Ok(t) => {
                    acc.name = t;
                },
                Err(e) => return Err(e),
            }
        } else if s.num == 3 {
            if s.wire != WireType::Len {
                return Err(WireError::UnexpectedWireType);
            }
            let ListenerFields { name, filters, api } = acc;
            match merge_chain(b, s.lo, s.hi, filters) {
                Ok(x) => {
                    acc = ListenerFields { name, filters: x, api };
                },
                Err(e) => return Err(e),
            }
        } else if s.num == 19 {
            if s.wire != WireType::Len {
                return Err(WireError::UnexpectedWireType);
            }
            let ListenerFields { name, filters, api } = acc;
            match merge_api(b, s.lo, s.hi, api) {
                Ok(x) => {
                    acc = ListenerFields { name, filters, api: x };
                },
                Err(e) => return Err(e),
            }
        }
        i += 1;
    }
    proof {
        lemma_fold_done(fs, acc@, listener_step());
    }
    Ok(acc)
}

fn text_is(t: &String, lit: &str) -> (r: bool)
    ensures
        r == (t@ == lit@),
{
    let owned = lit.to_owned();
    t.eq(&owned)
}

/// The RDS route name packed in `a`, if it holds an HTTP connection manager.
fn any_route(a: &AnyValue) -> (r: Result<Option<String>, WireError>)
    ensures
        match hcm_route(a@) {
            Ok(n) => r matches Ok(x) && opt_text(x) == n,
            Err(e) => r == Err::<Option<String>, WireError>(e),
        },
{
    if !text_is(&a.type_url, HCM_TYPE_URL) {
        return Ok(None);
    }
    let v = a.value.as_slice();
    assert(v@.subrange(0, v@.len() as int) =~= a.value@);
    match merge_hcm(v, 0, v.len(), RouteSpecifier::Unset) {
        Err(e) => Err(e),
        Ok(RouteSpecifier::Rds(n)) => Ok(Some(n)),
        Ok(_) => Ok(None),
    }
}

/// The first route name that the filters yield, searching in order.
fn search_filters(filters: &Vec<FilterValue>) -> (r: Result<Option<String>, WireError>)
    ensures
        match filters_route(filters@.map_values(|f: FilterValue| f@)) {
            Ok(n) => r matches Ok(x) && opt_text(x) == n,
            Err(e) => r == Err::<Option<String>, WireError>(e),
        },
{
    let ghost fs = filters@.map_values(|f: FilterValue| f@);
    let mut i: usize = 0;
    assert(fs.subrange(0, fs.len() as int) =~= fs);
    while i < filters.len()
        invariant
            i <= filters.len(),
            fs == filters@.map_values(|f: FilterValue| f@),
            filters_route(fs) == filters_route(fs.subrange(i as int, fs.len() as int)),
        decreases filters.len() - i,
    {
        let f = &filters[i];
        proof {
            assert(fs.subrange(i as int, fs.len() as int).drop_first() =~= fs.subrange(i + 1, fs.len() as int));
            assert(fs.subrange(i as int, fs.len() as int)[0] == f@);
        }
        match &f.config {
            ConfigType::Typed(a) => {
                if text_is(&f.name, HCM_FILTER_NAME) {
                    match any_route(a) {
                        Err(e) => return Err(e),
                        Ok(Some(n)) => return Ok(Some(n)),
                        Ok(None) => {},
                    }
                }
            },
            _ => {},
        }
        i += 1;
    }
    assert(fs.subrange(i as int, fs.len() as int).len() == 0);
    Ok(None)
}

/// Decodes a serialized `Listener` into its view.
pub fn decode_listener(data: &[u8]) -> (r: Result<Listener, WireError>)
    ensures
        same_result(r, listener_of(data@)),
{
    let init = ListenerFields {
        name: String::new(),
        filters: FilterList { items: Vec::new() },
        api: ApiListenerValue { api_listener: None },
    };
    assert(init@.filters =~= Seq::<FilterView>::empty());
    assert(data@.subrange(0, data@.len() as int) =~= data@);
    let l = match merge_listener(data, 0, data.len(), init) {
        Ok(l) => l,
        Err(e) => return Err(e),
    };
    let api = match &l.api.api_listener {
        Some(a) => any_route(a),
        None => Ok(None),
    };
    match api {
        Err(e) => Err(e),
        Ok(Some(n)) => Ok(Listener { name: l.name, route_config_name: Some(n) }),
        Ok(None) => match search_filters(&l.filters.items) {
            Err(e) => Err(e),
            Ok(found) => Ok(Listener { name: l.name, route_config_name: found }),
        },
    }
}

/// Resource for a listener.
#[derive(Debug)]
pub struct ListenerResource;

impl XdsResource for ListenerResource {
    type Resource = Listener;

    open spec fn decodes_to(data: Seq<u8>, r: Result<Listener, Error>) -> bool {
        match listener_of(data) {
            Ok(v) => r matches Ok(x) && x@ == v,
            Err(e) => r matches Err(Error::Decode(x)) && x == e,
        }
    }

    fn type_url() -> (r: &'static str)
        ensures
            r@ == LISTENER_TYPE_URL@,
    {
        LISTENER_TYPE_URL
    }

    fn decode(data: &[u8]) -> (r: Result<Listener, Error>) {
        match decode_listener(data) {
            Ok(l) => Ok(l),
            Err(e) => Err(Error::Decode(e)),
        }
    }
}

} // verus!
