use xtools::xc::direct::do_direct;
use xtools::xc::error::XcError;
use xtools::xc::mode::{from, to};
use xtools::xc::{convert, mode_of, target, Target};
use xtools::xc::{ssh_config, vagrant_machine_readable_quote_unquote as vagrant};

#[test]
fn modes_name_formats() {
    assert_eq!(from(""), "r");
    assert_eq!(to(""), "j");
    assert_eq!(from("jy"), "j");
    assert_eq!(to("jy"), "y");
    assert_eq!(to("j"), "j");
    assert_eq!(from("é"), "r");
    assert_eq!(to("jé"), "j");
    let args = vec!["xc".to_string(), "hj".to_string()];
    assert_eq!(mode_of(&args), "hj");
    assert_eq!(mode_of(&args[..1]), "");
    assert_eq!(target("jr"), Ok(Target::Ron));
    assert_eq!(target("jq"), Err(XcError::UnknownTo("q")));
}

#[test]
fn direct_conversions() {
    assert_eq!(do_direct("sb", "AB").unwrap(), "[65, 66]");
    assert_eq!(do_direct("sb", "").unwrap(), "[]");
    assert_eq!(do_direct("s0", "a\nb\r\nc").unwrap(), "a\0b\0c");
    assert_eq!(do_direct("sx", "a"), Err(XcError::UnknownDirect("x")));
}

#[test]
fn ssh_config_index() {
    let idx = ssh_config::parse_index("Host a\n  User u\n\n  Port 22 x\nHost b\n").unwrap();
    assert_eq!(idx, vec![("a", vec![("User", vec!["u"]), ("Port", vec!["22", "x"])]), ("b", vec![])]);
    assert_eq!(ssh_config::parse_index("Host\n"), Err(XcError::NoHostName("Host")));
    assert_eq!(ssh_config::parse_index("User u\n"), Err(XcError::NoHostBefore("User u")));
}

#[test]
fn vagrant_listing_boxes() {
    let text = "1,,ui,info,x\n2,,box-name,b1\n3,,box-info,x\n4,,k,v\n5,,k,w\n6\n7,,box-name,b2\n8,,box-name,b1\n9,,j,u\n";
    let boxes = vagrant::parse_boxes(text).unwrap();
    let b1 = boxes.get("b1").unwrap();
    assert_eq!(b1.get("k"), Some(&"w"));
    assert_eq!(b1.get("j"), Some(&"u"));
    assert!(boxes.get("b2").unwrap().get("k").is_none());
    assert!(matches!(vagrant::parse_boxes("1,,k,v\n"), Err(XcError::NoBox)));
    assert!(matches!(
        vagrant::parse_boxes("1,,a,b,c\n"),
        Err(XcError::Undone(Some("a"), Some("b"), Some("c")))
    ));
    assert!(matches!(vagrant::parse_boxes("1,,box-name\n"), Err(XcError::Undone(Some("box-name"), None, None))));
}

#[test]
fn parsed_configurations_are_written_as_cbor() {
    assert_eq!(ssh_config::parse_compile("Host a\n").unwrap(), vec![0x81, 0x82, 0x61, b'a', 0x80]);
    assert_eq!(ssh_config::parse_compile("User u\n"), Err(XcError::NoHostBefore("User u")));
    assert_eq!(
        vagrant::parse_compile("1,,box-name,b\n2,,k,v\n").unwrap(),
        vec![0xa1, 0x61, b'b', 0xa1, 0x61, b'k', 0x61, b'v']
    );
    assert_eq!(vagrant::parse_compile("1,,k,v\n"), Err(XcError::NoBox));
}

fn text(r: Result<Vec<u8>, XcError<'_>>) -> String {
    String::from_utf8(r.unwrap()).unwrap()
}

#[test]
fn convert_between_formats() {
    assert_eq!(text(convert("jj", "{\"a\": 1}")), "{\"a\":1}");
    assert_eq!(text(convert("jy", "{\"a\": 1}")), "---\na: 1\n");
    assert_eq!(text(convert("rj", "(a: 1)")), "{\"a\":1}");
    assert_eq!(text(convert("", "[1, 2]")), "[1,2]");
    assert_eq!(text(convert("mj", "a = 1\n")), "{\"a\":1}");
    assert_eq!(text(convert("yj", "a: [x]\n")), "{\"a\":[\"x\"]}");
    assert_eq!(text(convert("hj", "Host a\n  User u\n")), "[[\"a\",[[\"User\",[\"u\"]]]]]");
    assert_eq!(text(convert("vj", "1,,box-name,b\n2,,k,v\n")), "{\"b\":{\"k\":\"v\"}}");
    assert_eq!(text(convert("sb", "A")), "[65]");
    assert_eq!(text(convert("s0", "a\nb")), "a\0b");
}

#[test]
fn convert_refusals() {
    assert_eq!(convert("t", ""), Err(XcError::UnknownFrom("t")));
    assert_eq!(convert("jq", "{}"), Err(XcError::UnknownTo("q")));
    assert_eq!(convert("hq", "Host a\n"), Err(XcError::UnknownTo("q")));
    assert_eq!(convert("sx", "a"), Err(XcError::UnknownDirect("x")));
    assert_eq!(convert("h", "User u\n"), Err(XcError::NoHostBefore("User u")));
    assert_eq!(convert("v", "1,,k,v\n"), Err(XcError::NoBox));
    assert!(matches!(convert("jj", "{"), Err(XcError::Convert(_))));
    assert!(matches!(convert("rq", "/*"), Err(XcError::Convert(_))));
    assert_eq!(convert("rq", "()"), Err(XcError::UnknownTo("q")));
}

#[test]
fn convert_to_ron_and_yaml() {
    assert_eq!(text(convert("jr", "{\"a\": 1}")), "{\n    \"a\": 1,\n}");
    assert_eq!(text(convert("hy", "Host a\n")), "---\n- - a\n  - []\n");
    assert_eq!(text(convert("vr", "1,,box-name,b\n")), "{\n    \"b\": {},\n}");
    assert_eq!(text(convert("my", "a = \"x\"\n")), "---\na: x\n");
}
