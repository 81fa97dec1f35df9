use oyasumivr_oscquery::json::{host_info_json, node_to_json};
use oyasumivr_oscquery::models::{
    Error, OSCMethod, OSCMethodAccessType, OSCMethodValueType, OSCQueryInitError,
};
use oyasumivr_oscquery::server::ServerState;
use oyasumivr_oscquery::tree::{access_of, build_root_node, resolve};

fn method(address: &str, ad_type: OSCMethodAccessType) -> OSCMethod {
    OSCMethod {
        address: address.to_string(),
        ad_type,
        value_type: None,
        value: None,
        description: None,
    }
}

fn valued(address: &str, value_type: OSCMethodValueType, value: &str) -> OSCMethod {
    OSCMethod {
        address: address.to_string(),
        ad_type: OSCMethodAccessType::Read,
        value_type: Some(value_type),
        value: Some(value.to_string()),
        description: None,
    }
}

fn json_at(methods: &Vec<OSCMethod>, address: &str) -> Option<String> {
    let root = build_root_node(methods);
    resolve(&root, address).map(node_to_json)
}

#[test]
fn osc_type_tags() {
    assert_eq!(OSCMethodValueType::Bool.osc_type(), "F");
    assert_eq!(OSCMethodValueType::Int.osc_type(), "i");
    assert_eq!(OSCMethodValueType::Float.osc_type(), "f");
    assert_eq!(OSCMethodValueType::String.osc_type(), "s");
}

#[test]
fn access_mapping() {
    assert_eq!(access_of(OSCMethodAccessType::Write), 2);
    assert_eq!(access_of(OSCMethodAccessType::Read), 1);
    assert_eq!(access_of(OSCMethodAccessType::ReadWrite), 3);
    let ms = vec![method("/a/b", OSCMethodAccessType::ReadWrite)];
    assert_eq!(json_at(&ms, "/a").unwrap(), r#"{"FULL_PATH":"/a","ACCESS":0,"CONTENTS":{"b":{"FULL_PATH":"/a/b","ACCESS":3}}}"#);
}

#[test]
fn registered_avatar_is_served() {
    let mut s = ServerState::new();
    s.init("Test", 9000).unwrap();
    s.add_osc_method(method("/avatar", OSCMethodAccessType::Write));
    let r = s.handle_oscquery_request("/avatar", None);
    assert_eq!(r.status, 200);
    assert!(r.json);
    assert_eq!(r.body, r#"{"FULL_PATH":"/avatar","ACCESS":2}"#);
    let r = s.handle_oscquery_request("/avatar/parameters/Foo", None);
    assert_eq!(r.status, 204);
    assert!(!r.json);
    assert_eq!(r.body, "");
}

#[test]
fn avatar_parameters_with_description() {
    let mut s = ServerState::new();
    s.receive_vrchat_avatar_parameters();
    let r = s.handle_oscquery_request("/avatar", None);
    assert_eq!(r.status, 200);
    assert_eq!(
        r.body,
        r#"{"DESCRIPTION":"VRChat Avatar Parameters","FULL_PATH":"/avatar","ACCESS":2}"#
    );
}

#[test]
fn root_lists_children() {
    let mut s = ServerState::new();
    s.receive_vrchat_avatar_parameters();
    s.receive_vrchat_tracking_data();
    let r = s.handle_oscquery_request("/", None);
    assert_eq!(r.status, 200);
    assert_eq!(
        r.body,
        r#"{"DESCRIPTION":"Root Container","FULL_PATH":"/","ACCESS":0,"CONTENTS":{"avatar":{"DESCRIPTION":"VRChat Avatar Parameters","FULL_PATH":"/avatar","ACCESS":2},"tracking":{"FULL_PATH":"/tracking","ACCESS":0,"CONTENTS":{"vrsystem":{"DESCRIPTION":"VRChat VR Tracking Data","FULL_PATH":"/tracking/vrsystem","ACCESS":2}}}}}"#
    );
}

#[test]
fn nothing_is_served_before_a_registration() {
    let s = ServerState::new();
    assert_eq!(s.handle_oscquery_request("/", None).status, 204);
}

#[test]
fn tree_has_every_prefix() {
    let ms = vec![method("/a/b/c", OSCMethodAccessType::Read)];
    assert_eq!(
        json_at(&ms, "/a").unwrap(),
        r#"{"FULL_PATH":"/a","ACCESS":0,"CONTENTS":{"b":{"FULL_PATH":"/a/b","ACCESS":0,"CONTENTS":{"c":{"FULL_PATH":"/a/b/c","ACCESS":1}}}}}"#
    );
    assert_eq!(
        json_at(&ms, "/a/b").unwrap(),
        r#"{"FULL_PATH":"/a/b","ACCESS":0,"CONTENTS":{"c":{"FULL_PATH":"/a/b/c","ACCESS":1}}}"#
    );
    assert_eq!(json_at(&ms, "/a/b/c").unwrap(), r#"{"FULL_PATH":"/a/b/c","ACCESS":1}"#);
    assert_eq!(json_at(&ms, "/a/x"), None);
    assert_eq!(json_at(&ms, "/a/b/c/d"), None);
}

#[test]
fn prefix_registration_is_leaf_and_container() {
    let ms = vec![
        method("/avatar/parameters/X", OSCMethodAccessType::Read),
        method("/avatar", OSCMethodAccessType::Write),
    ];
    assert_eq!(
        json_at(&ms, "/avatar").unwrap(),
        r#"{"FULL_PATH":"/avatar","ACCESS":2,"CONTENTS":{"parameters":{"FULL_PATH":"/avatar/parameters","ACCESS":0,"CONTENTS":{"X":{"FULL_PATH":"/avatar/parameters/X","ACCESS":1}}}}}"#
    );
}

#[test]
fn empty_segments_are_skipped() {
    let ms = vec![method("//a///b/", OSCMethodAccessType::Write)];
    assert_eq!(json_at(&ms, "a/b").unwrap(), r#"{"FULL_PATH":"/a/b","ACCESS":2}"#);
    assert_eq!(json_at(&ms, "/a//b").unwrap(), r#"{"FULL_PATH":"/a/b","ACCESS":2}"#);
}

#[test]
fn rebuilding_gives_identical_json() {
    let ms = vec![
        method("/b/x", OSCMethodAccessType::Read),
        method("/a", OSCMethodAccessType::Write),
        method("/b/y", OSCMethodAccessType::ReadWrite),
        valued("/c", OSCMethodValueType::Int, "7"),
    ];
    let first = node_to_json(&build_root_node(&ms));
    let second = node_to_json(&build_root_node(&ms));
    assert_eq!(first, second);
    assert_eq!(
        first,
        r#"{"DESCRIPTION":"Root Container","FULL_PATH":"/","ACCESS":0,"CONTENTS":{"b":{"FULL_PATH":"/b","ACCESS":0,"CONTENTS":{"x":{"FULL_PATH":"/b/x","ACCESS":1},"y":{"FULL_PATH":"/b/y","ACCESS":3}}},"a":{"FULL_PATH":"/a","ACCESS":2},"c":{"FULL_PATH":"/c","ACCESS":1,"TYPE":"i","VALUE":[7]}}}"#
    );
}

#[test]
fn typed_values() {
    let ms = vec![
        valued("/t", OSCMethodValueType::Bool, "true"),
        valued("/f", OSCMethodValueType::Bool, "yes"),
        valued("/i", OSCMethodValueType::Int, "-12"),
        valued("/x", OSCMethodValueType::Float, "1.50"),
        valued("/s", OSCMethodValueType::String, "say \"hi\""),
        valued("/bad", OSCMethodValueType::Int, "12abc"),
    ];
    assert_eq!(json_at(&ms, "/t").unwrap(), r#"{"FULL_PATH":"/t","ACCESS":1,"TYPE":"F","VALUE":[true]}"#);
    assert_eq!(json_at(&ms, "/f").unwrap(), r#"{"FULL_PATH":"/f","ACCESS":1,"TYPE":"F","VALUE":[false]}"#);
    assert_eq!(json_at(&ms, "/i").unwrap(), r#"{"FULL_PATH":"/i","ACCESS":1,"TYPE":"i","VALUE":[-12]}"#);
    assert_eq!(json_at(&ms, "/x").unwrap(), r#"{"FULL_PATH":"/x","ACCESS":1,"TYPE":"f","VALUE":[1.5]}"#);
    assert_eq!(
        json_at(&ms, "/s").unwrap(),
        r#"{"FULL_PATH":"/s","ACCESS":1,"TYPE":"s","VALUE":["say \"hi\""]}"#
    );
    assert_eq!(json_at(&ms, "/bad").unwrap(), r#"{"FULL_PATH":"/bad","ACCESS":1,"TYPE":"i"}"#);
}

#[test]
fn description_is_escaped() {
    let ms = vec![OSCMethod {
        address: "/q".to_string(),
        ad_type: OSCMethodAccessType::Write,
        value_type: None,
        value: None,
        description: Some("a\"b\\c\n".to_string()),
    }];
    assert_eq!(
        json_at(&ms, "/q").unwrap(),
        r#"{"DESCRIPTION":"a\"b\\c\n","FULL_PATH":"/q","ACCESS":2}"#
    );
}

#[test]
fn host_info_document() {
    let mut s = ServerState::new();
    assert_eq!(s.handle_oscquery_request("/", Some("HOST_INFO")).status, 204);
    s.init("My \"App\"", 9001).unwrap();
    let r = s.handle_oscquery_request("/anything", Some("HOST_INFO"));
    assert_eq!(r.status, 200);
    assert!(r.json);
    assert_eq!(
        r.body,
        r#"{"NAME":"My \"App\"","OSC_TRANSPORT":"UDP","OSC_IP":"127.0.0.1","OSC_PORT":9001,"EXTENSIONS":{"ACCESS":true,"VALUE":true,"DESCRIPTION":true}}"#
    );
    let h = s.host_info().unwrap();
    assert_eq!(host_info_json(&h), r.body);
}

#[test]
fn unknown_attribute() {
    let mut s = ServerState::new();
    s.init("Test", 9000).unwrap();
    s.receive_vrchat_avatar_parameters();
    let r = s.handle_oscquery_request("/avatar", Some("VALUE"));
    assert_eq!(r.status, 204);
    assert!(!r.json);
    assert_eq!(r.body, "Unknown Attribute");
}

#[test]
fn initializing_twice_is_refused() {
    let mut s = ServerState::new();
    assert!(s.init("First", 9000).is_ok());
    s.complete_init(9100);
    let e = s.init("Second", 9002);
    assert!(matches!(e, Err(Error::InitError(OSCQueryInitError::AlreadyInitialized))));
    assert!(s.initialized);
    assert_eq!(s.service_name.as_deref(), Some("First"));
    assert_eq!(s.osc_port, Some(9000));
    assert_eq!(s.oscquery_port, Some(9100));
}

#[test]
fn deinit_resets_and_needs_init() {
    let mut s = ServerState::new();
    assert!(matches!(
        s.deinit(),
        Err(Error::InitError(OSCQueryInitError::NotYetInitialized))
    ));
    s.init("A", 1).unwrap();
    s.complete_init(2);
    s.receive_vrchat_avatar_parameters();
    assert!(s.deinit().is_ok());
    assert!(!s.initialized);
    assert!(s.service_name.is_none() && s.osc_port.is_none() && s.oscquery_port.is_none());
    assert!(s.osc_methods.is_empty() && s.root_node.is_none());
    assert!(s.init("B", 3).is_ok());
}

#[test]
fn abort_init_allows_a_new_init() {
    let mut s = ServerState::new();
    s.init("A", 1).unwrap();
    s.abort_init();
    assert!(!s.initialized);
    assert!(s.init("B", 2).is_ok());
}

#[test]
fn advertise_needs_init_and_ports() {
    let mut s = ServerState::new();
    assert!(matches!(
        s.advertise(),
        Err(Error::InitError(OSCQueryInitError::NotYetInitialized))
    ));
    s.init("Svc", 9000).unwrap();
    assert!(matches!(
        s.advertise(),
        Err(Error::InitError(OSCQueryInitError::OSCQueryinitFailed))
    ));
    s.complete_init(9100);
    let a = s.advertise().unwrap();
    assert_eq!((a.osc_port, a.oscquery_port, a.service_name.as_str()), (9000, 9100, "Svc"));
    let a = s.set_osc_port(9005).unwrap();
    assert_eq!(a.osc_port, 9005);
    assert_eq!(s.osc_port, Some(9005));
}

#[test]
fn upsert_remove_and_set_value() {
    let mut s = ServerState::new();
    s.add_osc_method(method("/a", OSCMethodAccessType::Write));
    s.add_osc_method(method("/a", OSCMethodAccessType::Read));
    assert_eq!(s.osc_methods.len(), 1);
    assert_eq!(s.handle_oscquery_request("/a", None).body, r#"{"FULL_PATH":"/a","ACCESS":1}"#);
    s.add_osc_method(OSCMethod {
        address: "/v".to_string(),
        ad_type: OSCMethodAccessType::Read,
        value_type: Some(OSCMethodValueType::Int),
        value: None,
        description: None,
    });
    assert_eq!(s.handle_oscquery_request("/v", None).body, r#"{"FULL_PATH":"/v","ACCESS":1,"TYPE":"i"}"#);
    s.set_osc_method_value("/v".to_string(), Some("5".to_string()));
    assert_eq!(
        s.handle_oscquery_request("/v", None).body,
        r#"{"FULL_PATH":"/v","ACCESS":1,"TYPE":"i","VALUE":[5]}"#
    );
    s.set_osc_method_value("/missing".to_string(), Some("5".to_string()));
    assert_eq!(s.osc_methods.len(), 2);
    s.remove_osc_method("/a".to_string());
    assert_eq!(s.osc_methods.len(), 1);
    assert_eq!(s.handle_oscquery_request("/a", None).status, 204);
    s.remove_osc_method("/a".to_string());
    assert_eq!(s.osc_methods.len(), 1);
}
