use prost::encoding::{encode_key, encode_varint, WireType};
use xds_client::error::Error;
use xds_client::resource::listener::{HCM_FILTER_NAME, HCM_TYPE_URL};
use xds_client::resource::{ListenerResource, RouteResource};
use xds_client::transport::decode_response;
use xds_client::wire::WireError;
use xds_client::XdsResource;

fn put_len(buf: &mut Vec<u8>, tag: u32, data: &[u8]) {
    encode_key(tag, WireType::LengthDelimited, buf);
    encode_varint(data.len() as u64, buf);
    buf.extend_from_slice(data);
}

fn put_varint(buf: &mut Vec<u8>, tag: u32, v: u64) {
    encode_key(tag, WireType::Varint, buf);
    encode_varint(v, buf);
}

fn any(type_url: &str, value: &[u8]) -> Vec<u8> {
    let mut b = Vec::new();
    put_len(&mut b, 1, type_url.as_bytes());
    put_len(&mut b, 2, value);
    b
}

fn hcm_rds(route: &str) -> Vec<u8> {
    let mut rds = Vec::new();
    put_len(&mut rds, 1, &[]);
    put_len(&mut rds, 2, route.as_bytes());
    let mut hcm = Vec::new();
    put_len(&mut hcm, 2, b"stats");
    put_len(&mut hcm, 3, &rds);
    hcm
}

fn hcm_inline_routes() -> Vec<u8> {
    let mut hcm = Vec::new();
    put_len(&mut hcm, 4, b"");
    hcm
}

fn api_listener(name: &str, hcm: &[u8]) -> Vec<u8> {
    let mut api = Vec::new();
    put_len(&mut api, 1, &any(HCM_TYPE_URL, hcm));
    let mut l = Vec::new();
    put_len(&mut l, 1, name.as_bytes());
    put_len(&mut l, 19, &api);
    l
}

fn filter(name: &str, typed: &[u8]) -> Vec<u8> {
    let mut f = Vec::new();
    put_len(&mut f, 1, name.as_bytes());
    put_len(&mut f, 4, typed);
    f
}

fn chain(filters: &[Vec<u8>]) -> Vec<u8> {
    let mut c = Vec::new();
    for f in filters {
        put_len(&mut c, 3, f);
    }
    c
}

#[test]
fn listener_api_listener_names_route() {
    let l = ListenerResource::decode(&api_listener("L", &hcm_rds("R"))).unwrap();
    assert_eq!(l.name, "L");
    assert_eq!(l.route_config_name, Some("R".to_string()));
}

#[test]
fn listener_filter_chain_names_route() {
    let mut l = Vec::new();
    put_len(&mut l, 1, b"L");
    put_len(&mut l, 3, &chain(&[filter(HCM_FILTER_NAME, &any(HCM_TYPE_URL, &hcm_rds("R")))]));
    let v = ListenerResource::decode(&l).unwrap();
    assert_eq!(v.name, "L");
    assert_eq!(v.route_config_name, Some("R".to_string()));
}

#[test]
fn listener_without_hcm_has_no_route() {
    let mut l = Vec::new();
    put_len(&mut l, 1, b"plain");
    let v = ListenerResource::decode(&l).unwrap();
    assert_eq!(v.name, "plain");
    assert_eq!(v.route_config_name, None);
}

#[test]
fn listener_empty_payload_is_default() {
    let v = ListenerResource::decode(&[]).unwrap();
    assert_eq!(v.name, "");
    assert_eq!(v.route_config_name, None);
}

#[test]
fn listener_api_without_rds_falls_back_to_filter_chains() {
    let mut l = api_listener("L", &hcm_inline_routes());
    put_len(&mut l, 3, &chain(&[filter(HCM_FILTER_NAME, &any(HCM_TYPE_URL, &hcm_rds("R2")))]));
    let v = ListenerResource::decode(&l).unwrap();
    assert_eq!(v.route_config_name, Some("R2".to_string()));
}

#[test]
fn listener_api_listener_wins_over_filter_chains() {
    let mut l = api_listener("L", &hcm_rds("A"));
    put_len(&mut l, 3, &chain(&[filter(HCM_FILTER_NAME, &any(HCM_TYPE_URL, &hcm_rds("B")))]));
    let v = ListenerResource::decode(&l).unwrap();
    assert_eq!(v.route_config_name, Some("A".to_string()));
}

#[test]
fn listener_first_matching_filter_wins() {
    let mut l = Vec::new();
    put_len(&mut l, 1, b"L");
    put_len(
        &mut l,
        3,
        &chain(&[
            filter("envoy.filters.network.tcp_proxy", &any(HCM_TYPE_URL, &hcm_rds("X"))),
            filter(HCM_FILTER_NAME, &any("type.googleapis.com/other", &hcm_rds("Y"))),
            filter(HCM_FILTER_NAME, &any(HCM_TYPE_URL, &hcm_inline_routes())),
        ]),
    );
    put_len(&mut l, 3, &chain(&[filter(HCM_FILTER_NAME, &any(HCM_TYPE_URL, &hcm_rds("R1")))]));
    put_len(&mut l, 3, &chain(&[filter(HCM_FILTER_NAME, &any(HCM_TYPE_URL, &hcm_rds("R2")))]));
    let v = ListenerResource::decode(&l).unwrap();
    assert_eq!(v.route_config_name, Some("R1".to_string()));
}

#[test]
fn listener_repeated_api_listener_merges() {
    let mut first = Vec::new();
    put_len(&mut first, 1, HCM_TYPE_URL.as_bytes());
    let mut api1 = Vec::new();
    put_len(&mut api1, 1, &first);
    let mut second = Vec::new();
    put_len(&mut second, 2, &hcm_rds("M"));
    let mut api2 = Vec::new();
    put_len(&mut api2, 1, &second);
    let mut l = Vec::new();
    put_len(&mut l, 19, &api1);
    put_len(&mut l, 19, &api2);
    let v = ListenerResource::decode(&l).unwrap();
    assert_eq!(v.route_config_name, Some("M".to_string()));
}

#[test]
fn listener_skips_unknown_fields() {
    let mut l = Vec::new();
    put_varint(&mut l, 7, 300);
    encode_key(8, WireType::SixtyFourBit, &mut l);
    l.extend_from_slice(&[0u8; 8]);
    encode_key(9, WireType::ThirtyTwoBit, &mut l);
    l.extend_from_slice(&[0u8; 4]);
    put_len(&mut l, 2, b"\xff\xff");
    put_len(&mut l, 1, b"L");
    let v = ListenerResource::decode(&l).unwrap();
    assert_eq!(v.name, "L");
}

#[test]
fn listener_last_name_wins() {
    let mut l = Vec::new();
    put_len(&mut l, 1, b"first");
    put_len(&mut l, 1, b"second");
    assert_eq!(ListenerResource::decode(&l).unwrap().name, "second");
}

fn decode_error(bytes: &[u8]) -> WireError {
    match ListenerResource::decode(bytes) {
        Err(Error::Decode(e)) => e,
        other => panic!("expected a decode error, got {:?}", other),
    }
}

#[test]
fn listener_bad_varint() {
    assert_eq!(decode_error(&[0x80]), WireError::InvalidVarint);
    assert_eq!(decode_error(&[0xff; 11]), WireError::InvalidVarint);
    let mut overflow = vec![0x08];
    overflow.extend_from_slice(&[0xff; 9]);
    overflow.push(0x02);
    assert_eq!(decode_error(&overflow), WireError::InvalidVarint);
}

#[test]
fn listener_largest_varint_is_accepted() {
    let mut l = vec![0x38];
    l.extend_from_slice(&[0xff; 9]);
    l.push(0x01);
    assert!(ListenerResource::decode(&l).is_ok());
}

#[test]
fn listener_bad_key() {
    let mut big = Vec::new();
    encode_varint((u32::MAX as u64) + 1, &mut big);
    assert_eq!(decode_error(&big), WireError::InvalidKey);
    assert_eq!(decode_error(&[0x0f]), WireError::InvalidWireType);
    assert_eq!(decode_error(&[0x02, 0x00]), WireError::InvalidTag);
    assert_eq!(decode_error(&[0x0b]), WireError::UnsupportedGroup);
}

#[test]
fn listener_truncated_payload() {
    assert_eq!(decode_error(&[0x0a, 0x05, b'a']), WireError::Truncated);
    assert_eq!(decode_error(&[0x09, 0x00, 0x00]), WireError::Truncated);
}

#[test]
fn listener_name_with_wrong_wire_type() {
    assert_eq!(decode_error(&[0x08, 0x01]), WireError::UnexpectedWireType);
}

#[test]
fn listener_name_not_utf8() {
    assert_eq!(decode_error(&[0x0a, 0x02, 0xc3, 0x28]), WireError::InvalidUtf8);
}

#[test]
fn listener_broken_hcm_fails_decode() {
    let l = api_listener("L", &[0x1a, 0x09]);
    assert_eq!(decode_error(&l), WireError::Truncated);
}

#[test]
fn route_config_decodes_virtual_hosts() {
    let mut vh = Vec::new();
    put_len(&mut vh, 1, b"vh");
    put_len(&mut vh, 2, b"*");
    let mut rc = Vec::new();
    put_len(&mut rc, 1, b"R");
    put_len(&mut rc, 2, &vh);
    let v = RouteResource::decode(&rc).unwrap();
    assert_eq!(v.name, "R");
    assert_eq!(v.virtual_hosts.len(), 1);
    assert_eq!(v.virtual_hosts[0].name, "vh");
    assert_eq!(v.virtual_hosts[0].domains, vec!["*".to_string()]);
}

#[test]
fn route_config_keeps_order_of_hosts_and_domains() {
    let mut a = Vec::new();
    put_len(&mut a, 1, b"a");
    put_len(&mut a, 2, b"a.example");
    put_len(&mut a, 2, b"www.a.example");
    let mut b = Vec::new();
    put_len(&mut b, 1, b"b");
    let mut rc = Vec::new();
    put_len(&mut rc, 2, &a);
    put_len(&mut rc, 1, b"routes");
    put_len(&mut rc, 2, &b);
    let v = RouteResource::decode(&rc).unwrap();
    assert_eq!(v.name, "routes");
    assert_eq!(v.virtual_hosts.len(), 2);
    assert_eq!(v.virtual_hosts[0].domains, vec!["a.example".to_string(), "www.a.example".to_string()]);
    assert_eq!(v.virtual_hosts[1].name, "b");
    assert!(v.virtual_hosts[1].domains.is_empty());
}

#[test]
fn route_config_bad_host_fails() {
    let mut rc = Vec::new();
    put_len(&mut rc, 2, &[0x12, 0x01, 0xff]);
    assert!(matches!(RouteResource::decode(&rc), Err(Error::Decode(WireError::InvalidUtf8))));
}

#[test]
fn resource_type_urls() {
    assert_eq!(ListenerResource::type_url(), "type.googleapis.com/envoy.config.listener.v3.Listener");
    assert_eq!(RouteResource::type_url(), "type.googleapis.com/envoy.config.route.v3.RouteConfiguration");
}

#[test]
fn response_unpacks_any_values() {
    let mut r = Vec::new();
    put_len(&mut r, 1, b"v1");
    put_len(&mut r, 2, &any("type.googleapis.com/envoy.config.listener.v3.Listener", b"\x0a\x01L"));
    put_len(&mut r, 2, &any("type.googleapis.com/envoy.config.listener.v3.Listener", b""));
    put_len(&mut r, 3, b"\x08\x01");
    put_len(&mut r, 4, b"type.googleapis.com/envoy.config.listener.v3.Listener");
    put_len(&mut r, 5, b"n1");
    let resp = decode_response(&r).unwrap();
    assert_eq!(resp.version_info, "v1");
    assert_eq!(resp.nonce, "n1");
    assert_eq!(resp.type_url, "type.googleapis.com/envoy.config.listener.v3.Listener");
    assert_eq!(resp.resources, vec![b"\x0a\x01L".to_vec(), Vec::new()]);
}

#[test]
fn response_with_broken_resource_fails() {
    let mut r = Vec::new();
    put_len(&mut r, 2, &[0x0a, 0x03, b'a']);
    assert_eq!(decode_response(&r).unwrap_err(), WireError::Truncated);
}
