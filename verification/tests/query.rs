use avisaver::format::{OSCQHostInfo, OSCQNode, OSCValue};
use avisaver::nodes::build_node_tree;
use avisaver::queryserver::{query_service, ContentType, QueryReply};

fn setup() -> (OSCQHostInfo, OSCQNode) {
    let info = OSCQHostInfo::for_application("avisaver".to_string(), 9001);
    let root = build_node_tree(&vec!["/avatar".to_string()]);
    (info, root)
}

fn plain(reply: QueryReply<'_>) -> (u16, ContentType, String) {
    match reply {
        QueryReply::Plain { status, content_type, body } => (status, content_type, body),
        _ => panic!("expected a plain reply"),
    }
}

#[test]
fn host_info_query_comes_first() {
    let (info, root) = setup();
    match query_service("/", Some("HOST_INFO"), &info, &root) {
        QueryReply::HostInfo(h) => assert_eq!(h.name.as_deref(), Some("avisaver")),
        _ => panic!("expected host info"),
    }
    match query_service("/missing/path", Some("HOST_INFO&x"), &info, &root) {
        QueryReply::HostInfo(h) => assert_eq!(h.osc_port, Some(9001)),
        _ => panic!("expected host info"),
    }
}

#[test]
fn unknown_path_is_404() {
    let (info, root) = setup();
    assert_eq!(
        plain(query_service("/nothing", None, &info, &root)),
        (404, ContentType::TextPlain, "method not found".to_string())
    );
    assert_eq!(
        plain(query_service("/avatar/x", Some("FULL_PATH"), &info, &root)),
        (404, ContentType::TextPlain, "method not found".to_string())
    );
}

#[test]
fn no_query_returns_the_node() {
    let (info, root) = setup();
    match query_service("/avatar", None, &info, &root) {
        QueryReply::Node(n) => assert_eq!(n.full_path, "/avatar"),
        _ => panic!("expected node"),
    }
    match query_service("", None, &info, &root) {
        QueryReply::Node(n) => assert_eq!(n.full_path, "/"),
        _ => panic!("expected root"),
    }
}

#[test]
fn attribute_queries_on_listed_node() {
    let (info, root) = setup();
    assert_eq!(
        plain(query_service("/avatar", Some("FULL_PATH"), &info, &root)),
        (200, ContentType::TextPlain, "/avatar".to_string())
    );
    assert_eq!(
        plain(query_service("/avatar", Some("TYPE"), &info, &root)),
        (200, ContentType::TextPlain, "".to_string())
    );
    assert_eq!(
        plain(query_service("/avatar", Some("VALUE"), &info, &root)),
        (200, ContentType::ApplicationJson, "{}".to_string())
    );
    assert_eq!(
        plain(query_service("/avatar", Some("ACCESS"), &info, &root)),
        (200, ContentType::TextPlain, "0".to_string())
    );
    assert_eq!(
        plain(query_service("/avatar", Some("COLOR"), &info, &root)),
        (400, ContentType::TextPlain, "unsupported attribute query".to_string())
    );
}

#[test]
fn attribute_queries_on_filled_node() {
    let info = OSCQHostInfo::default();
    let mut root = build_node_tree(&vec!["/a".to_string(), "/b".to_string(), "/c".to_string()]);
    root.contents[0].1.ty = Some("f".to_string());
    root.contents[0].1.access = Some(3);
    root.contents[0].1.value = Some(vec![OSCValue::Number(1.5f64.to_bits()), OSCValue::Boolean(true)]);
    root.contents[1].1.access = Some(2);
    root.contents[2].1.access = Some(1);
    assert_eq!(
        plain(query_service("/a", Some("TYPE"), &info, &root)),
        (200, ContentType::TextPlain, "f".to_string())
    );
    assert_eq!(
        plain(query_service("/a", Some("ACCESS"), &info, &root)),
        (200, ContentType::TextPlain, "3".to_string())
    );
    match query_service("/a", Some("VALUE"), &info, &root) {
        QueryReply::Value(v) => assert_eq!(v.len(), 2),
        _ => panic!("expected value"),
    }
    assert_eq!(
        plain(query_service("/b", Some("VALUE"), &info, &root)),
        (204, ContentType::TextPlain, "".to_string())
    );
    assert_eq!(
        plain(query_service("/c", Some("VALUE"), &info, &root)),
        (200, ContentType::ApplicationJson, "{}".to_string())
    );
}
