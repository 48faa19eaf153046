use avisaver::format::{default_osc_transport, OSCQHostInfo, OSCQNode};
use avisaver::nodes::{build_node_tree, find_node, insert_path, split_path};

fn pieces(path: &str) -> Vec<String> {
    split_path(path)
}

fn strings(v: &[&str]) -> Vec<String> {
    v.iter().map(|s| s.to_string()).collect()
}

#[test]
fn split_skips_empty_pieces() {
    assert_eq!(pieces("/avatar/parameters"), strings(&["avatar", "parameters"]));
    assert_eq!(pieces("//a//b/"), strings(&["a", "b"]));
    assert_eq!(pieces("a"), strings(&["a"]));
    assert_eq!(pieces(""), Vec::<String>::new());
    assert_eq!(pieces("/"), Vec::<String>::new());
    assert_eq!(pieces("///"), Vec::<String>::new());
    assert_eq!(pieces("/ä/ö"), strings(&["ä", "ö"]));
}

#[test]
fn default_host_info_and_node() {
    let info = OSCQHostInfo::default();
    assert_eq!(info.name, None);
    assert_eq!(info.extensions, vec![("ACCESS".to_string(), true)]);
    assert_eq!(info.osc_ip.as_deref(), Some("127.0.0.1"));
    assert_eq!(info.osc_port, None);
    assert_eq!(info.osc_transport, "UDP");
    assert_eq!(default_osc_transport(), "UDP");

    let app = OSCQHostInfo::for_application("avisaver".to_string(), 9001);
    assert_eq!(app.name.as_deref(), Some("avisaver"));
    assert_eq!(app.osc_port, Some(9001));
    assert_eq!(app.osc_ip.as_deref(), Some("127.0.0.1"));
    assert_eq!(app.osc_transport, "UDP");

    let root = OSCQNode::default();
    assert_eq!(root.full_path, "/");
    assert!(root.contents.is_empty());
    assert!(root.ty.is_none() && root.access.is_none() && root.value.is_none());
}

#[test]
fn insert_creates_each_prefix() {
    let mut root = OSCQNode::default();
    insert_path(&mut root, "/avatar/parameters/VelocityX");
    let avatar = find_node(&root, &pieces("/avatar")).expect("avatar");
    assert_eq!(avatar.full_path, "/avatar");
    let params = find_node(&root, &pieces("/avatar/parameters")).expect("parameters");
    assert_eq!(params.full_path, "/avatar/parameters");
    let vx = find_node(&root, &pieces("avatar//parameters/VelocityX/")).expect("leaf");
    assert_eq!(vx.full_path, "/avatar/parameters/VelocityX");
    assert!(vx.contents.is_empty());
    assert!(find_node(&root, &pieces("/avatar/change")).is_none());
    assert!(find_node(&root, &pieces("/tracking")).is_none());
    assert_eq!(root.full_path, "/");
}

#[test]
fn insert_twice_changes_nothing() {
    let mut once = OSCQNode::default();
    insert_path(&mut once, "/avatar/parameters");
    let mut twice = OSCQNode::default();
    insert_path(&mut twice, "/avatar/parameters");
    insert_path(&mut twice, "/avatar/parameters");
    assert_eq!(twice.contents.len(), 1);
    assert_eq!(twice.contents[0].1.contents.len(), 1);
    assert_eq!(
        find_node(&twice, &pieces("/avatar/parameters")).unwrap().full_path,
        find_node(&once, &pieces("/avatar/parameters")).unwrap().full_path
    );
}

#[test]
fn insert_keeps_existing_attributes() {
    let mut root = OSCQNode::default();
    insert_path(&mut root, "/avatar");
    root.contents[0].1.ty = Some("f".to_string());
    root.contents[0].1.access = Some(3);
    insert_path(&mut root, "/avatar/change");
    let avatar = find_node(&root, &pieces("/avatar")).unwrap();
    assert_eq!(avatar.ty.as_deref(), Some("f"));
    assert_eq!(avatar.access, Some(3));
    assert_eq!(find_node(&root, &pieces("/avatar/change")).unwrap().full_path, "/avatar/change");
}

#[test]
fn build_tree_from_directories() {
    let dirs = strings(&["/avatar", "/avatar/parameters", "/tracking/eye"]);
    let root = build_node_tree(&dirs);
    assert_eq!(root.full_path, "/");
    assert_eq!(root.contents.len(), 2);
    assert_eq!(find_node(&root, &pieces("/tracking")).unwrap().full_path, "/tracking");
    assert_eq!(find_node(&root, &pieces("/tracking/eye")).unwrap().full_path, "/tracking/eye");
    assert_eq!(find_node(&root, &pieces("/avatar")).unwrap().contents.len(), 1);
    assert!(find_node(&root, &pieces("/eye")).is_none());
    let empty = build_node_tree(&Vec::new());
    assert!(empty.contents.is_empty());
}
