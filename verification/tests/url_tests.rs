use pegboard_runner_ws::url_params::{parse_u16, parse_url_data, parse_url_params, UrlData};
use pegboard_runner_ws::error::WsError;

fn pairs(v: &[(&str, &str)]) -> Vec<(String, String)> {
    v.iter().map(|(a, b)| (a.to_string(), b.to_string())).collect()
}

#[test]
fn url_params_through_real_url_parsing() {
    // percent-decoding and query splitting come from the url crate; a key
    // with an escape proves the query text is decoded, not echoed
    let u = parse_url_params("/v1?protocol_version=1&namespace=ns1&runner_key=k%201").unwrap();
    assert_eq!(
        u,
        UrlData {
            protocol_version: 1,
            namespace: "ns1".to_string(),
            runner_key: "k 1".to_string()
        }
    );
}

#[test]
fn url_missing_params_fail_in_order() {
    match parse_url_params("/v1?namespace=ns1&runner_key=k") {
        Err(WsError::InvalidUrl { detail }) => {
            assert_eq!(detail, "missing `protocol_version` query parameter")
        }
        other => panic!("unexpected: {:?}", other),
    }
    match parse_url_params("/v1?protocol_version=70000&namespace=ns1&runner_key=k") {
        Err(WsError::InvalidUrl { detail }) => {
            assert_eq!(detail, "invalid `protocol_version` query parameter")
        }
        other => panic!("unexpected: {:?}", other),
    }
    match parse_url_params("/v1?protocol_version=1&runner_key=k") {
        Err(WsError::InvalidUrl { detail }) => {
            assert_eq!(detail, "missing `namespace` query parameter")
        }
        other => panic!("unexpected: {:?}", other),
    }
    match parse_url_params("/v1?protocol_version=1&namespace=ns1") {
        Err(WsError::InvalidUrl { detail }) => {
            assert_eq!(detail, "missing `runner_key` query parameter")
        }
        other => panic!("unexpected: {:?}", other),
    }
}

#[test]
fn url_data_takes_first_occurrence() {
    let p = pairs(&[
        ("protocol_version", "1"),
        ("protocol_version", "2"),
        ("namespace", "a"),
        ("namespace", "b"),
        ("runner_key", "k"),
    ]);
    let u = parse_url_data(&p).unwrap();
    assert_eq!(u.protocol_version, 1);
    assert_eq!(u.namespace, "a");
}

#[test]
fn parse_u16_exact() {
    assert_eq!(parse_u16(&"1".to_string()), Some(1));
    assert_eq!(parse_u16(&"0".to_string()), Some(0));
    assert_eq!(parse_u16(&"65535".to_string()), Some(65535));
    assert_eq!(parse_u16(&"65536".to_string()), None);
    assert_eq!(parse_u16(&"99999999999999999999".to_string()), None);
    assert_eq!(parse_u16(&"".to_string()), None);
    assert_eq!(parse_u16(&"12a".to_string()), None);
    assert_eq!(parse_u16(&"007".to_string()), Some(7));
}
