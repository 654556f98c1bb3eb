//! The messages that the session exchanges with the server.
use vstd::prelude::*;
use crate::wire::{
    len_field, push_len_field, push_text, push_texts, text_field, texts_field,
    any_step, bytes_field, fold_fields, lemma_fold_done, lemma_fold_step, merge_any, merge_message, read_fields,
    read_string, same_result, spans_view, string_field, AnyValue, AnyView, Field, WireError, WireType,
};

verus! {

pub open spec fn texts(v: Seq<String>) -> Seq<Seq<char>> {
    v.map_values(|s: String| s@)
}

/// Discovery request for the xDS client.
#[derive(Debug)]
pub struct XdsDiscoveryRequest {
    /// The version info of the request.
    pub version_info: String,
    /// The node ID of the request.
    pub node_id: String,
    /// The resource names of the request.
    pub resource_names: Vec<String>,
    /// The type URL of the request.
    pub type_url: String,
    /// The response nonce of the request.
    pub response_nonce: String,
    /// The error detail of the request.
    pub error_detail: Option<String>,
}

pub ghost struct RequestView {
    pub version_info: Seq<char>,
    pub node_id: Seq<char>,
    pub resource_names: Seq<Seq<char>>,
    pub type_url: Seq<char>,
    pub response_nonce: Seq<char>,
    pub has_error_detail: bool,
}

impl View for XdsDiscoveryRequest {
    type V = RequestView;

    open spec fn view(&self) -> RequestView {
        RequestView {
            version_info: self.version_info@,
            node_id: self.node_id@,
            resource_names: texts(self.resource_names@),
            type_url: self.type_url@,
            response_nonce: self.response_nonce@,
            has_error_detail: self.error_detail is Some,
        }
    }
}

/// Discovery response for the xDS client: the payload of each resource is the value
/// of its `Any`.
#[derive(Debug)]
pub struct XdsDiscoveryResponse {
    /// The type URL of the response.
    pub type_url: String,
    /// The version info of the response.
    pub version_info: String,
    /// The nonce of the response.
    pub nonce: String,
    /// The resources of the response.
    pub resources: Vec<Vec<u8>>,
}

/// The node that identifies this client to the server.
#[derive(Debug)]
pub struct Node {
    pub id: String,
    pub user_agent_name: String,
    pub client_features: Vec<String>,
}

/// A `DiscoveryRequest` as it goes on the wire.
#[derive(Debug)]
pub struct DiscoveryRequest {
    pub version_info: String,
    pub node: Option<Node>,
    pub resource_names: Vec<String>,
    pub type_url: String,
    pub response_nonce: String,
}

/// Agent name that every request reports.
pub const USER_AGENT_NAME: &'static str = "grpc";

/// Client feature that every request reports.
pub const CLIENT_FEATURE: &'static str = "xds.v3";

/// Wraps a request for the wire: the node carries the node id, the user agent
/// `grpc` and the single client feature `xds.v3`; no error detail is sent.
pub fn to_discovery_request(req: XdsDiscoveryRequest) -> (r: DiscoveryRequest)
    ensures
        r.version_info@ == req.version_info@,
        r.resource_names@ == req.resource_names@,
        r.type_url@ == req.type_url@,
        r.response_nonce@ == req.response_nonce@,
        r.node matches Some(n) && n.id@ == req.node_id@ && n.user_agent_name@ == USER_AGENT_NAME@
            && texts(n.client_features@) == seq![CLIENT_FEATURE@],
{
    let mut features: Vec<String> = Vec::new();
    features.push(CLIENT_FEATURE.to_owned());
    assert(texts(features@) =~= seq![CLIENT_FEATURE@]);
    DiscoveryRequest {
        version_info: req.version_info,
        node: Some(Node { id: req.node_id, user_agent_name: USER_AGENT_NAME.to_owned(), client_features: features }),
        resource_names: req.resource_names,
        type_url: req.type_url,
        response_nonce: req.response_nonce,
    }
}

pub ghost struct ResponseView {
    pub type_url: Seq<char>,
    pub version_info: Seq<char>,
    pub nonce: Seq<char>,
    pub resources: Seq<Seq<u8>>,
}

impl ResponseView {
    pub open spec fn empty() -> ResponseView {
        ResponseView { type_url: Seq::empty(), version_info: Seq::empty(), nonce: Seq::empty(), resources: Seq::empty() }
    }
}

impl View for XdsDiscoveryResponse {
    type V = ResponseView;

    open spec fn view(&self) -> ResponseView {
        ResponseView {
            type_url: self.type_url@,
            version_info: self.version_info@,
            nonce: self.nonce@,
            resources: self.resources@.map_values(|r: Vec<u8>| r@),
        }
    }
}

/// Fields of `DiscoveryResponse`: version_info = 1, resources = 2 (repeated `Any`,
/// of which the packed value is kept), type_url = 4, nonce = 5.
pub open spec fn response_step() -> spec_fn(ResponseView, Field) -> Result<ResponseView, WireError> {
    |a: ResponseView, f: Field|
        if f.num == 1 {
            match string_field(f) {
                Ok(t) => Ok(ResponseView { version_info: t, ..a }),
                Err(e) => Err(e),
            }
        } else if f.num == 2 {
            match bytes_field(f) {
                Err(e) => Err(e),
                Ok(d) => match merge_message(d, AnyView::empty(), any_step()) {
                    Ok(x) => Ok(ResponseView { resources: a.resources.push(x.value), ..a }),
                    Err(e) => Err(e),
                },
            }
        } else if f.num == 4 {
            match string_field(f) {
                Ok(t) => Ok(ResponseView { type_url: t, ..a }),
                Err(e) => Err(e),
            }
        } else if f.num == 5 {
            match string_field(f) {
                Ok(t) => Ok(ResponseView { nonce: t, ..a }),
                Err(e) => Err(e),
            }
        } else {
            Ok(a)
        }
}

/// The response that a serialized `DiscoveryResponse` carries.
pub open spec fn response_of(b: Seq<u8>) -> Result<ResponseView, WireError> {
    merge_message(b, ResponseView::empty(), response_step())
}

/// Merges the `DiscoveryResponse` in `b[lo..hi]`.
fn merge_response(b: &[u8], lo: usize, hi: usize, init: XdsDiscoveryResponse) -> (r: Result<XdsDiscoveryResponse, WireError>)
    requires
        lo <= hi <= b.len(),
    ensures
        same_result(r, merge_message(b@.subrange(lo as int, hi as int), init@, response_step())),
{
    let fields = match read_fields(b, lo, hi) {
        Ok(f) => f,
        Err(e) => return Err(e),
    };
    let ghost fs = spans_view(fields@, b@);
    let ghost a0 = init@;
    let mut acc = init;
    let mut i: usize = 0;
    assert(fs.subrange(0, fs.len() as int) =~= fs);
    while i < fields.len()
        invariant
            i <= fields.len(),
            hi <= b.len(),
            fs == spans_view(fields@, b@),
            forall|j: int| 0 <= j < fields.len() ==> (#[trigger] fields@[j]).within(lo as int, hi as int),
            init@ == a0,
            merge_message(b@.subrange(lo as int, hi as int), a0, response_step()) == fold_fields(fs, a0, response_step()),
            fold_fields(fs, a0, response_step()) == fold_fields(fs.subrange(i as int, fs.len() as int), acc@, response_step()),
        decreases fields.len() - i,
    {
        let s = fields[i];
        proof {
            lemma_fold_step(fs, i as int, acc@, response_step());
            assert(fs[i as int] == s.view_in(b@));
        }
        if s.num == 1 {
            match read_string(b, s) {
                Ok(t) => {
                    acc.version_info = t;
                },
                Err(e) => return Err(e),
            }
        } else if s.num == 2 {
            if s.wire != WireType::Len {
                return Err(WireError::UnexpectedWireType);
            }
            match merge_any(b, s.lo, s.hi, AnyValue::new()) {
                Ok(x) => {
                    let ghost before = acc@;
                    let ghost xv = x@.value;
                    acc.resources.push(x.value);
                    assert(acc@.resources =~= before.resources.push(xv));
                },
                Err(e) => return Err(e),
            }
        } else if s.num == 4 {
            match read_string(b, s) {
                Ok(t) => {
                    acc.type_url = t;
                },
                Err(e) => return Err(e),
            }
        } else if s.num == 5 {
            match read_string(b, s) {
                Ok(t) => {
                    acc.nonce = t;
                },
                Err(e) => return Err(e),
            }
        }
        i += 1;
    }
    proof {
        lemma_fold_done(fs, acc@, response_step());
    }
    Ok(acc)
}

/// Decodes a serialized `DiscoveryResponse`, unpacking each resource's `Any` into its
/// value bytes; the response's own type URL is the one that counts.
pub fn decode_response(data: &[u8]) -> (r: Result<XdsDiscoveryResponse, WireError>)
    ensures
        same_result(r, response_of(data@)),
{
    let init = XdsDiscoveryResponse {
        type_url: String::new(),
        version_info: String::new(),
        nonce: String::new(),
        resources: Vec::new(),
    };
    assert(init@.resources =~= Seq::<Seq<u8>>::empty());
    assert(data@.subrange(0, data@.len() as int) =~= data@);
    merge_response(data, 0, data.len(), init)
}

/// The bytes of a `Node` with the fields this client fills: id = 1,
/// user_agent_name = 6, client_features = 10.
pub open spec fn node_bytes(n: Node) -> Seq<u8> {
    text_field(1, n.id@) + text_field(6, n.user_agent_name@) + texts_field(10, texts(n.client_features@))
}

/// The bytes of a `DiscoveryRequest`, fields in number order: version_info = 1,
/// node = 2, resource_names = 3, type_url = 4, response_nonce = 5.
pub open spec fn request_bytes(r: DiscoveryRequest) -> Seq<u8> {
    text_field(1, r.version_info@) + match r.node {
        Some(n) => len_field(2, node_bytes(n)),
        None => Seq::empty(),
    } + texts_field(3, texts(r.resource_names@)) + text_field(4, r.type_url@) + text_field(5, r.response_nonce@)
}

fn encode_node(n: &Node) -> (r: Vec<u8>)
    ensures
        r@ == node_bytes(*n),
{
    let mut buf: Vec<u8> = Vec::new();
    push_text(&mut buf, 1, &n.id);
    push_text(&mut buf, 6, &n.user_agent_name);
    push_texts(&mut buf, 10, &n.client_features);
    assert(buf@ =~= node_bytes(*n));
    buf
}

/// Serializes a request for the wire.
pub fn encode_request(r: &DiscoveryRequest) -> (b: Vec<u8>)
    ensures
        b@ == request_bytes(*r),
{
    let mut buf: Vec<u8> = Vec::new();
    push_text(&mut buf, 1, &r.version_info);
    match &r.node {
        Some(n) => {
            let nb = encode_node(n);
            push_len_field(&mut buf, 2, nb.as_slice());
        },
        None => {},
    }
    push_texts(&mut buf, 3, &r.resource_names);
    push_text(&mut buf, 4, &r.type_url);
    push_text(&mut buf, 5, &r.response_nonce);
    assert(buf@ =~= request_bytes(*r));
    buf
}

} // verus!
