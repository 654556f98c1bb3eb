use prost::encoding::{encode_key, encode_varint, WireType};
use xds_client::client::worker::{Action, NextStep, SessionEnd, SotwWorker};
use xds_client::error::Error;
use xds_client::resource::listener::{HCM_TYPE_URL, LISTENER_TYPE_URL};
use xds_client::resource::route::ROUTE_TYPE_URL;
use xds_client::resource::{ListenerResource, RouteResource};
use xds_client::transport::{encode_request, to_discovery_request, DiscoveryRequest, Node, XdsDiscoveryRequest, XdsDiscoveryResponse};
use xds_client::{ClientConfig, TlsConfig, XdsClientBuilder, XdsResource};

fn put_len(buf: &mut Vec<u8>, tag: u32, data: &[u8]) {
    encode_key(tag, WireType::LengthDelimited, buf);
    encode_varint(data.len() as u64, buf);
    buf.extend_from_slice(data);
}

fn listener_with_route(name: &str, route: &str) -> Vec<u8> {
    let mut rds = Vec::new();
    put_len(&mut rds, 2, route.as_bytes());
    let mut hcm = Vec::new();
    put_len(&mut hcm, 3, &rds);
    let mut any = Vec::new();
    put_len(&mut any, 1, HCM_TYPE_URL.as_bytes());
    put_len(&mut any, 2, &hcm);
    let mut api = Vec::new();
    put_len(&mut api, 1, &any);
    let mut l = Vec::new();
    put_len(&mut l, 1, name.as_bytes());
    put_len(&mut l, 19, &api);
    l
}

fn worker() -> SotwWorker {
    let mut config = ClientConfig::default();
    config.node_id = "node-1".to_string();
    SotwWorker::new(config)
}

fn names(v: &[&str]) -> Vec<String> {
    v.iter().map(|s| s.to_string()).collect()
}

fn response(type_url: &str, version: &str, nonce: &str, resources: Vec<Vec<u8>>) -> XdsDiscoveryResponse {
    XdsDiscoveryResponse {
        type_url: type_url.to_string(),
        version_info: version.to_string(),
        nonce: nonce.to_string(),
        resources,
    }
}

fn assert_request(r: &XdsDiscoveryRequest, type_url: &str, names: &[&str], version: &str, nonce: &str) {
    assert_eq!(r.type_url, type_url);
    assert_eq!(r.resource_names, names.iter().map(|s| s.to_string()).collect::<Vec<_>>());
    assert_eq!(r.version_info, version);
    assert_eq!(r.response_nonce, nonce);
    assert_eq!(r.node_id, "node-1");
    assert!(r.error_detail.is_none());
}

fn sent(actions: &[Action]) -> &XdsDiscoveryRequest {
    match actions.last() {
        Some(Action::Send(r)) => r,
        other => panic!("expected a send last, got {:?}", other),
    }
}

fn dispatches(actions: &[Action]) -> Vec<(u64, usize)> {
    actions
        .iter()
        .filter_map(|a| match a {
            Action::Dispatch { handler, resource } => Some((*handler, *resource)),
            Action::Send(_) => None,
        })
        .collect()
}

#[test]
fn watch_listener_then_ack() {
    let mut w = worker();
    let req = w.on_watch(LISTENER_TYPE_URL.to_string(), names(&["L"]), 0);
    assert_request(&req, LISTENER_TYPE_URL, &["L"], "", "");
    let payload = listener_with_route("L", "R");
    let resp = response(LISTENER_TYPE_URL, "v1", "n1", vec![payload.clone()]);
    let actions = w.on_response(&resp);
    assert_eq!(actions.len(), 2);
    assert_eq!(dispatches(&actions), vec![(0, 0)]);
    let l = ListenerResource::decode(&resp.resources[0]).unwrap();
    assert_eq!(l.name, "L");
    assert_eq!(l.route_config_name, Some("R".to_string()));
    assert_request(sent(&actions), LISTENER_TYPE_URL, &["L"], "v1", "n1");
}

#[test]
fn watch_route_after_listener() {
    let mut w = worker();
    w.on_watch(LISTENER_TYPE_URL.to_string(), names(&["L"]), 0);
    w.on_response(&response(LISTENER_TYPE_URL, "v1", "n1", vec![listener_with_route("L", "R")]));
    let req = w.on_watch(ROUTE_TYPE_URL.to_string(), names(&["R"]), 1);
    assert_request(&req, ROUTE_TYPE_URL, &["R"], "", "");
    let mut vh = Vec::new();
    put_len(&mut vh, 1, b"vh");
    put_len(&mut vh, 2, b"*");
    let mut rc = Vec::new();
    put_len(&mut rc, 1, b"R");
    put_len(&mut rc, 2, &vh);
    let actions = w.on_response(&response(ROUTE_TYPE_URL, "rv1", "rn1", vec![rc.clone()]));
    assert_eq!(dispatches(&actions), vec![(1, 0)]);
    assert_request(sent(&actions), ROUTE_TYPE_URL, &["R"], "rv1", "rn1");
    let c = RouteResource::decode(&rc).unwrap();
    assert_eq!(c.name, "R");
    assert_eq!(c.virtual_hosts[0].name, "vh");
    assert_eq!(c.virtual_hosts[0].domains, vec!["*".to_string()]);
}

#[test]
fn two_watches_merge_names() {
    let mut w = worker();
    let first = w.on_watch(LISTENER_TYPE_URL.to_string(), names(&["A"]), 0);
    let second = w.on_watch(LISTENER_TYPE_URL.to_string(), names(&["B"]), 1);
    assert_request(&first, LISTENER_TYPE_URL, &["A"], "", "");
    assert_request(&second, LISTENER_TYPE_URL, &["A", "B"], "", "");
    assert_eq!(w.subscriptions().len(), 1);
    assert_eq!(w.subscriptions()[0].resources, names(&["A", "B"]));
    assert_eq!(w.subscriptions()[0].handlers, vec![0, 1]);
}

#[test]
fn same_name_twice_is_watched_once() {
    let mut w = worker();
    w.on_watch(LISTENER_TYPE_URL.to_string(), names(&["L"]), 0);
    let again = w.on_watch(LISTENER_TYPE_URL.to_string(), names(&["L", "L"]), 1);
    assert_request(&again, LISTENER_TYPE_URL, &["L"], "", "");
    assert_eq!(w.subscriptions()[0].handlers, vec![0, 1]);
    let actions = w.on_response(&response(LISTENER_TYPE_URL, "v1", "n1", vec![vec![], vec![]]));
    assert_eq!(dispatches(&actions), vec![(0, 0), (1, 0), (0, 1), (1, 1)]);
}

#[test]
fn undecodable_listener_is_still_acked() {
    let mut w = worker();
    w.on_watch(LISTENER_TYPE_URL.to_string(), names(&["L"]), 0);
    let resp = response(LISTENER_TYPE_URL, "v1", "n1", vec![vec![0xff]]);
    let actions = w.on_response(&resp);
    assert_eq!(dispatches(&actions), vec![(0, 0)]);
    assert!(matches!(ListenerResource::decode(&resp.resources[0]), Err(Error::Decode(_))));
    assert_request(sent(&actions), LISTENER_TYPE_URL, &["L"], "v1", "n1");
}

#[test]
fn reconnect_restates_subscriptions_without_version() {
    let mut w = worker();
    w.on_watch(LISTENER_TYPE_URL.to_string(), names(&["L"]), 0);
    w.on_watch(LISTENER_TYPE_URL.to_string(), names(&["M"]), 1);
    w.on_watch(ROUTE_TYPE_URL.to_string(), names(&["R"]), 2);
    w.on_response(&response(LISTENER_TYPE_URL, "v1", "n1", vec![listener_with_route("L", "R")]));
    let initial = w.initial_requests();
    assert_eq!(initial.len(), 2);
    assert_request(&initial[0], LISTENER_TYPE_URL, &["L", "M"], "", "");
    assert_request(&initial[1], ROUTE_TYPE_URL, &["R"], "", "");
    let actions = w.on_response(&response(LISTENER_TYPE_URL, "v2", "n2", vec![listener_with_route("L", "R")]));
    assert_eq!(dispatches(&actions), vec![(0, 0), (1, 0)]);
    assert_request(sent(&actions), LISTENER_TYPE_URL, &["L", "M"], "v2", "n2");
}

#[test]
fn fresh_worker_has_no_initial_requests() {
    assert!(worker().initial_requests().is_empty());
}

#[test]
fn response_without_subscription_is_ignored() {
    let mut w = worker();
    w.on_watch(LISTENER_TYPE_URL.to_string(), names(&["L"]), 0);
    let actions = w.on_response(&response(ROUTE_TYPE_URL, "v9", "n9", vec![vec![1, 2, 3]]));
    assert!(actions.is_empty());
    assert_eq!(w.subscriptions().len(), 1);
    assert_eq!(w.subscriptions()[0].version, "");
    assert_eq!(w.subscriptions()[0].nonce, "");
}

#[test]
fn empty_response_is_acked_without_dispatch() {
    let mut w = worker();
    w.on_watch(LISTENER_TYPE_URL.to_string(), names(&["L"]), 0);
    let actions = w.on_response(&response(LISTENER_TYPE_URL, "v2", "n2", vec![]));
    assert_eq!(actions.len(), 1);
    assert_request(sent(&actions), LISTENER_TYPE_URL, &["L"], "v2", "n2");
    assert_eq!(w.subscriptions()[0].version, "v2");
}

#[test]
fn watch_after_accept_carries_accepted_version() {
    let mut w = worker();
    w.on_watch(LISTENER_TYPE_URL.to_string(), names(&["L"]), 0);
    w.on_response(&response(LISTENER_TYPE_URL, "v1", "n1", vec![]));
    let other = w.on_watch(ROUTE_TYPE_URL.to_string(), names(&["R"]), 1);
    assert_request(&other, ROUTE_TYPE_URL, &["R"], "", "");
    let req = w.on_watch(LISTENER_TYPE_URL.to_string(), names(&["M"]), 2);
    assert_request(&req, LISTENER_TYPE_URL, &["L", "M"], "v1", "n1");
}

#[test]
fn wire_request_carries_grpc_node() {
    let req = XdsDiscoveryRequest {
        version_info: "v1".to_string(),
        node_id: "node-1".to_string(),
        resource_names: names(&["L"]),
        type_url: LISTENER_TYPE_URL.to_string(),
        response_nonce: "n1".to_string(),
        error_detail: None,
    };
    let wire = to_discovery_request(req);
    let node = wire.node.unwrap();
    assert_eq!(node.id, "node-1");
    assert_eq!(node.user_agent_name, "grpc");
    assert_eq!(node.client_features, vec!["xds.v3".to_string()]);
    assert_eq!(wire.version_info, "v1");
    assert_eq!(wire.response_nonce, "n1");
    assert_eq!(wire.resource_names, names(&["L"]));
    assert_eq!(wire.type_url, LISTENER_TYPE_URL);
}

#[test]
fn default_config() {
    let c = ClientConfig::default();
    assert_eq!(c.server_uri, "http://localhost:50005");
    assert_eq!(c.node_id, "grpc");
    assert_eq!(c.connect_timeout_ms, 5000);
    assert!(c.tls_config.is_none());
}

#[test]
fn mutual_tls_needs_cert_and_key() {
    let mut t = TlsConfig::default();
    assert!(!t.mutual_tls());
    t.client_cert_pem = Some(b"cert".to_vec());
    assert!(!t.mutual_tls());
    t.client_key_pem = Some(b"key".to_vec());
    assert!(t.mutual_tls());
}

#[test]
fn builder_keeps_config_and_starts_empty() {
    let mut config = ClientConfig::default();
    config.node_id = "n".to_string();
    let b = XdsClientBuilder::new(config);
    assert_eq!(b.config().node_id, "n");
    let w = b.into_worker();
    assert!(w.subscriptions().is_empty());
    assert_eq!(w.config().node_id, "n");
}

#[test]
fn session_end_decides_reconnect() {
    let mut w = worker();
    w.on_watch(LISTENER_TYPE_URL.to_string(), names(&["L"]), 0);
    assert_eq!(w.after_session(SessionEnd::StreamFailed), NextStep::Reconnect { delay_ms: 5000 });
    assert_eq!(w.after_session(SessionEnd::ConnectFailed), NextStep::Reconnect { delay_ms: 5000 });
    assert_eq!(w.after_session(SessionEnd::CommandsClosed), NextStep::Stop);
    assert_eq!(w.subscriptions().len(), 1);
}

#[test]
fn encoded_request_matches_protobuf_layout() {
    let long = "r".repeat(200);
    let req = XdsDiscoveryRequest {
        version_info: "v1".to_string(),
        node_id: "node-1".to_string(),
        resource_names: vec!["L".to_string(), long.clone()],
        type_url: LISTENER_TYPE_URL.to_string(),
        response_nonce: "n1".to_string(),
        error_detail: None,
    };
    let bytes = encode_request(&to_discovery_request(req));
    let mut node = Vec::new();
    put_len(&mut node, 1, b"node-1");
    put_len(&mut node, 6, b"grpc");
    put_len(&mut node, 10, b"xds.v3");
    let mut expected = Vec::new();
    put_len(&mut expected, 1, b"v1");
    put_len(&mut expected, 2, &node);
    put_len(&mut expected, 3, b"L");
    put_len(&mut expected, 3, long.as_bytes());
    put_len(&mut expected, 4, LISTENER_TYPE_URL.as_bytes());
    put_len(&mut expected, 5, b"n1");
    assert_eq!(bytes, expected);
}

#[test]
fn encoded_request_leaves_out_empty_strings() {
    let req = DiscoveryRequest {
        version_info: String::new(),
        node: None,
        resource_names: vec![String::new()],
        type_url: "t".to_string(),
        response_nonce: String::new(),
    };
    assert_eq!(encode_request(&req), vec![0x1a, 0x00, 0x22, 0x01, b't']);
    let with_node = DiscoveryRequest {
        version_info: String::new(),
        node: Some(Node { id: String::new(), user_agent_name: String::new(), client_features: vec![] }),
        resource_names: vec![],
        type_url: String::new(),
        response_nonce: String::new(),
    };
    assert_eq!(encode_request(&with_node), vec![0x12, 0x00]);
}
