use cloud_node_discovery::aws::{AwsProvider, Instance, Tag};
use cloud_node_discovery::upcloud::{Interface, Label, Server, UpcloudProvider};

fn s(x: &str) -> String {
    x.to_string()
}

fn aws() -> AwsProvider {
    AwsProvider { region: s("us-east-1"), tag_key: s("foo"), tag_value: s("bar") }
}

fn tag(k: &str, v: &str) -> Tag {
    Tag { key: Some(s(k)), value: Some(s(v)) }
}

#[test]
fn aws_instance_without_private_ip_is_skipped() {
    let insts = vec![Instance {
        instance_id: Some(s("i-1")),
        private_ip: None,
        tags: vec![tag("Name", "x")],
    }];
    assert_eq!(aws().nodes_from_instances(&insts).len(), 0);
}

#[test]
fn aws_nodes_keep_order_and_metadata() {
    let insts = vec![
        Instance { instance_id: Some(s("i-1")), private_ip: Some(s("10.0.0.1")), tags: vec![tag("Name", "a")] },
        Instance { instance_id: None, private_ip: None, tags: vec![] },
        Instance {
            instance_id: None,
            private_ip: Some(s("10.0.0.2")),
            tags: vec![
                tag("Name", "b"),
                Tag { key: Some(s("half")), value: None },
                tag("Name", "c"),
                tag("region", "elsewhere"),
            ],
        },
    ];
    let nodes = aws().nodes_from_instances(&insts);
    assert_eq!(nodes.len(), 2);
    assert_eq!(nodes[0].address, "10.0.0.1");
    assert_eq!(nodes[0].meta.get("Name"), Some(&s("a")));
    assert_eq!(nodes[0].meta.get("instance_id"), Some(&s("i-1")));
    assert_eq!(nodes[0].meta.get("region"), Some(&s("us-east-1")));
    assert_eq!(nodes[0].meta.len(), 3);
    assert_eq!(nodes[1].address, "10.0.0.2");
    assert_eq!(nodes[1].meta.get("Name"), Some(&s("c")));
    assert_eq!(nodes[1].meta.get("half"), None);
    assert_eq!(nodes[1].meta.get("instance_id"), None);
    assert_eq!(nodes[1].meta.get("region"), Some(&s("us-east-1")));
}

#[test]
fn aws_discovery_is_repeatable() {
    let insts = vec![Instance { instance_id: Some(s("i-9")), private_ip: Some(s("10.1.1.1")), tags: vec![tag("k", "v")] }];
    let a = aws().nodes_from_instances(&insts);
    let b = aws().nodes_from_instances(&insts);
    assert_eq!(a.len(), b.len());
    for (x, y) in a.iter().zip(b.iter()) {
        assert_eq!(x.address, y.address);
        assert_eq!(x.meta.len(), y.meta.len());
        for i in 0..x.meta.len() {
            assert_eq!(x.meta.entry(i), y.meta.entry(i));
        }
    }
}

fn upcloud() -> UpcloudProvider {
    UpcloudProvider { zone: s("fi-hel1"), label_key: s("role"), label_value: s("db") }
}

fn iface(kind: &str, addrs: Vec<Option<String>>) -> Interface {
    Interface { interface_type: s(kind), addresses: addrs }
}

fn server(zone: &str) -> Server {
    Server {
        uuid: s("0001"),
        zone: s(zone),
        labels: vec![Label { key: s("role"), value: s("db") }, Label { key: s("zone"), value: s("label-zone") }],
    }
}

#[test]
fn upcloud_server_without_private_interface() {
    let ifs = vec![iface("public", vec![Some(s("1.2.3.4"))])];
    let node = upcloud().node_from_server(&server("de-fra1"), &ifs);
    assert_eq!(node.address, "");
    assert_eq!(node.meta.get("zone"), Some(&s("fi-hel1")));
    assert_eq!(node.meta.get("public_ip"), Some(&s("1.2.3.4")));
    assert_eq!(node.meta.get("utility_ip"), Some(&s("")));
    assert_eq!(node.meta.get("uuid"), Some(&s("0001")));
    assert_eq!(node.meta.get("role"), Some(&s("db")));
}

#[test]
fn upcloud_first_interface_of_each_type_wins() {
    let ifs = vec![
        iface("utility", vec![Some(s("10.6.0.1"))]),
        iface("private", vec![Some(s("10.0.0.1")), Some(s("10.0.0.9"))]),
        iface("private", vec![Some(s("10.0.0.2"))]),
        iface("public", vec![]),
        iface("public", vec![Some(s("5.5.5.5"))]),
    ];
    let node = upcloud().node_from_server(&server("fi-hel1"), &ifs);
    assert_eq!(node.address, "10.0.0.1");
    assert_eq!(node.meta.get("utility_ip"), Some(&s("10.6.0.1")));
    assert_eq!(node.meta.get("public_ip"), Some(&s("")));
}

#[test]
fn upcloud_nodes_follow_listing_order() {
    let servers = vec![server("a"), Server { uuid: s("0002"), zone: s("b"), labels: vec![] }];
    let ifs = vec![vec![iface("private", vec![Some(s("10.0.0.1"))])], vec![iface("private", vec![None])]];
    let nodes = upcloud().nodes_from_servers(&servers, &ifs);
    assert_eq!(nodes.len(), 2);
    assert_eq!(nodes[0].address, "10.0.0.1");
    assert_eq!(nodes[1].address, "");
    assert_eq!(nodes[1].meta.get("uuid"), Some(&s("0002")));
    assert_eq!(nodes[1].meta.get("zone"), Some(&s("fi-hel1")));
    assert_eq!(nodes[1].meta.len(), 4);
}
