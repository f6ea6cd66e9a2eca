use authz_flow::dispatch::{back_to_client, ClientReply};
use authz_flow::response_mode::ResponseMode;
use authz_flow::url_parts::UrlParts;
use authz_flow::urlencode::{parse_query, serialize_pairs};

fn params(pairs: &[(&str, &str)]) -> Vec<(String, String)> {
    pairs.iter().map(|(k, v)| (k.to_string(), v.to_string())).collect()
}

#[test]
fn query_merge_preserves_existing_params() {
    let target = UrlParts::parse("https://rp.example/cb?a=1");
    let reply =
        back_to_client(&target, ResponseMode::Query, None, &params(&[("b", "2")])).unwrap();
    match reply {
        ClientReply::Redirect { location } => {
            assert_eq!(location, "https://rp.example/cb?a=1&b=2");
        }
        _ => panic!("expected a redirect"),
    }
}

#[test]
fn query_merge_new_params_win_on_collision() {
    let target = UrlParts::parse("https://rp.example/cb?a=1&b=0");
    let reply =
        back_to_client(&target, ResponseMode::Query, None, &params(&[("b", "2")])).unwrap();
    match reply {
        ClientReply::Redirect { location } => {
            assert_eq!(location, "https://rp.example/cb?a=1&b=2");
        }
        _ => panic!("expected a redirect"),
    }
}

#[test]
fn query_merge_includes_state_verbatim() {
    let target = UrlParts::parse("https://rp.example/cb");
    let state = "xy z".to_string();
    let reply = back_to_client(&target, ResponseMode::Query, Some(&state), &params(&[("b", "2")]))
        .unwrap();
    match reply {
        ClientReply::Redirect { location } => {
            assert_eq!(location, "https://rp.example/cb?state=xy%20z&b=2");
        }
        _ => panic!("expected a redirect"),
    }
}

#[test]
fn fragment_merge_rewrites_the_fragment() {
    let target = UrlParts::parse("https://rp.example/cb#a=1");
    let reply =
        back_to_client(&target, ResponseMode::Fragment, None, &params(&[("b", "2")])).unwrap();
    match reply {
        ClientReply::Redirect { location } => {
            assert_eq!(location, "https://rp.example/cb#a=1&b=2");
        }
        _ => panic!("expected a redirect"),
    }
}

#[test]
fn form_post_carries_state_and_params_without_merge() {
    let target = UrlParts::parse("https://rp.example/cb?a=1");
    let state = "s1".to_string();
    let reply =
        back_to_client(&target, ResponseMode::FormPost, Some(&state), &params(&[("b", "2")]))
            .unwrap();
    match reply {
        ClientReply::FormPost { target, fields } => {
            assert_eq!(target, "https://rp.example/cb?a=1");
            assert_eq!(
                fields,
                vec![
                    ("state".to_string(), "s1".to_string()),
                    ("b".to_string(), "2".to_string())
                ]
            );
        }
        _ => panic!("expected a form post"),
    }
}

#[test]
fn wire_encoding_round_trip() {
    let pairs: Vec<(Vec<u8>, Vec<u8>)> =
        vec![(b"a b".to_vec(), b"c&d=e".to_vec()), (b"k".to_vec(), "v\u{e9}".as_bytes().to_vec())];
    let wire = serialize_pairs(&pairs);
    assert_eq!(wire, b"a%20b=c%26d%3De&k=v%C3%A9".to_vec());
    let back = parse_query(&wire).unwrap();
    assert_eq!(back, pairs);
}

#[test]
fn parse_query_decodes_escapes_and_plus() {
    let back = parse_query(&b"a=%41&b=x+y".to_vec()).unwrap();
    assert_eq!(
        back,
        vec![(b"a".to_vec(), b"A".to_vec()), (b"b".to_vec(), b"x y".to_vec())]
    );
}

#[test]
fn parse_query_rejects_malformed_escape() {
    assert!(parse_query(&b"a=%4".to_vec()).is_none());
    assert!(parse_query(&b"a=%zz".to_vec()).is_none());
}

#[test]
fn unparseable_target_params_fail_the_merge() {
    let target = UrlParts::parse("https://rp.example/cb?%zz");
    let r = back_to_client(&target, ResponseMode::Query, None, &params(&[("b", "2")]));
    assert!(r.is_err());
}

#[test]
fn url_parts_split_and_assemble() {
    let p = UrlParts::parse("https://rp.example/cb?a=1#frag");
    assert_eq!(p.base, "https://rp.example/cb");
    assert_eq!(p.query.as_deref(), Some("a=1"));
    assert_eq!(p.fragment.as_deref(), Some("frag"));
    assert_eq!(p.assemble(), "https://rp.example/cb?a=1#frag");

    let bare = UrlParts::parse("https://rp.example/cb");
    assert_eq!(bare.base, "https://rp.example/cb");
    assert!(bare.query.is_none());
    assert!(bare.fragment.is_none());
    assert_eq!(bare.assemble(), "https://rp.example/cb");
}
