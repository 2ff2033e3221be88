use crate::settings::{is_config_error, require3, required3};
use crate::strmap::StringMap;
use crate::{DiscoveryError, Node};
use vstd::prelude::*;

verus! {

/// The settings of discovery on UpCloud: the zone, and the label that the servers
/// must carry.
#[derive(Clone, Debug)]
pub struct UpcloudProvider {
    pub zone: String,
    pub label_key: String,
    pub label_value: String,
}

/// A label of a server.
#[derive(Clone, Debug)]
pub struct Label {
    pub key: String,
    pub value: String,
}

/// What discovery reads of one server of a label-filtered listing.
#[derive(Clone, Debug)]
pub struct Server {
    pub uuid: String,
    pub zone: String,
    pub labels: Vec<Label>,
}

/// A network interface from a server's details: its type (`private`, `utility`,
/// `public`) and its addresses, each of which may be absent.
#[derive(Clone, Debug)]
pub struct Interface {
    pub interface_type: String,
    pub addresses: Vec<Option<String>>,
}

/// The metadata that the labels give, later ones winning.
pub open spec fn labels_meta(labels: Seq<Label>) -> Map<Seq<char>, Seq<char>>
    decreases labels.len(),
{
    if labels.len() == 0 {
        Map::empty()
    } else {
        labels_meta(labels.drop_last()).insert(labels.last().key@, labels.last().value@)
    }
}

/// The first address of the first interface of type `kind`; empty where there is
/// no such interface, or it has no first address.
pub open spec fn first_address(ifs: Seq<Interface>, kind: Seq<char>) -> Seq<char>
    decreases ifs.len(),
{
    if ifs.len() == 0 {
        Seq::empty()
    } else if ifs[0].interface_type@ == kind {
        if ifs[0].addresses@.len() > 0 && ifs[0].addresses@[0] is Some {
            ifs[0].addresses@[0]->0@
        } else {
            Seq::empty()
        }
    } else {
        first_address(ifs.drop_first(), kind)
    }
}

/// The metadata of a server: its labels, then `uuid`, its own `zone`, `utility_ip`,
/// `public_ip`, and last the configured zone over its own.
pub open spec fn server_meta(zone: Seq<char>, server: Server, ifs: Seq<Interface>) -> Map<
    Seq<char>,
    Seq<char>,
> {
    labels_meta(server.labels@).insert("uuid"@, server.uuid@).insert(
        "zone"@,
        server.zone@,
    ).insert("utility_ip"@, first_address(ifs, "utility"@)).insert(
        "public_ip"@,
        first_address(ifs, "public"@),
    ).insert("zone"@, zone)
}

/// The node of a server: its private address (maybe empty) and its metadata.
pub open spec fn server_node(zone: Seq<char>, server: Server, ifs: Seq<Interface>) -> (
    Seq<char>,
    Map<Seq<char>, Seq<char>>,
) {
    (first_address(ifs, "private"@), server_meta(zone, server, ifs))
}

fn first_address_of(ifs: &Vec<Interface>, kind: &str) -> (r: String)
    ensures
        r@ == first_address(ifs@, kind@),
{
    let mut i: usize = 0;
    let k = String::from_str(kind);
    assert(ifs@.subrange(0, ifs@.len() as int) =~= ifs@);
    while i < ifs.len()
        invariant
            i <= ifs@.len(),
            k@ == kind@,
            first_address(ifs@, kind@) == first_address(ifs@.subrange(i as int, ifs@.len() as int), kind@),
        decreases ifs@.len() - i,
    {
        let ghost rest = ifs@.subrange(i as int, ifs@.len() as int);
        assert(rest.drop_first() =~= ifs@.subrange(i + 1, ifs@.len() as int));
        assert(rest[0] == ifs@[i as int]);
        if ifs[i].interface_type == k {
            if ifs[i].addresses.len() > 0 {
                if let Some(a) = &ifs[i].addresses[0] {
                    return a.clone();
                }
            }
            return String::new();
        }
        i = i + 1;
    }
    String::new()
}

/// Whether `r` holds the nodes of the servers `servers` with their interfaces.
pub open spec fn holds_server_nodes(
    zone: Seq<char>,
    servers: Seq<Server>,
    ifs: Seq<Vec<Interface>>,
    r: Seq<Node>,
) -> bool {
    &&& r.len() == servers.len()
    &&& forall|i: int|
        0 <= i < r.len() ==> (#[trigger] r[i])@ == server_node(zone, servers[i], ifs[i]@)
}

/// Two discoveries over the same servers and details give equal nodes in the
/// same order.
pub proof fn lemma_servers_repeatable(
    zone: Seq<char>,
    servers: Seq<Server>,
    ifs: Seq<Vec<Interface>>,
    r1: Seq<Node>,
    r2: Seq<Node>,
)
    requires
        holds_server_nodes(zone, servers, ifs, r1),
        holds_server_nodes(zone, servers, ifs, r2),
    ensures
        r1.len() == r2.len(),
        forall|i: int| 0 <= i < r1.len() ==> (#[trigger] r1[i])@ == r2[i]@,
{
}

impl UpcloudProvider {
    /// Reads the required keys `zone`, `label_key` and `label_value`.
    pub fn new(config: &StringMap) -> (r: Result<UpcloudProvider, DiscoveryError>)
        requires
            config.wf(),
        ensures
            match required3(config@, "zone"@, "label_key"@, "label_value"@) {
                Ok(t) => r is Ok && r->Ok_0.zone@ == t.0 && r->Ok_0.label_key@ == t.1
                    && r->Ok_0.label_value@ == t.2,
                Err(msg) => r is Err && is_config_error(r->Err_0, msg),
            },
    {
        match require3(config, "zone", "label_key", "label_value") {
            Ok((zone, label_key, label_value)) => Ok(
                UpcloudProvider { zone, label_key, label_value },
            ),
            Err(e) => Err(e),
        }
    }

    /// Turns a server of the listing, with the interfaces of its details, into a node.
    pub fn node_from_server(&self, server: &Server, interfaces: &Vec<Interface>) -> (r: Node)
        ensures
            r.meta.wf(),
            r@ == server_node(self.zone@, *server, interfaces@),
            r.meta@.contains_key("zone"@) && r.meta@["zone"@] == self.zone@,
    {
        let private_ip = first_address_of(interfaces, "private");
        let utility_ip = first_address_of(interfaces, "utility");
        let public_ip = first_address_of(interfaces, "public");
        let mut meta = StringMap::new();
        let mut i: usize = 0;
        while i < server.labels.len()
            invariant
                i <= server.labels@.len(),
                meta.wf(),
                meta@ == labels_meta(server.labels@.take(i as int)),
            decreases server.labels@.len() - i,
        {
            assert(server.labels@.take(i + 1).drop_last() =~= server.labels@.take(i as int));
            let label = &server.labels[i];
            meta.insert(label.key.clone(), label.value.clone());
            i = i + 1;
        }
        assert(server.labels@.take(server.labels@.len() as int) =~= server.labels@);
        meta.insert(String::from_str("uuid"), server.uuid.clone());
        meta.insert(String::from_str("zone"), server.zone.clone());
        meta.insert(String::from_str("utility_ip"), utility_ip);
        meta.insert(String::from_str("public_ip"), public_ip);
        meta.insert(String::from_str("zone"), self.zone.clone());
        Node { address: private_ip, meta }
    }

    /// Turns the servers of a listing, each with the interfaces of its details,
    /// into nodes, in the order of the listing.
    pub fn nodes_from_servers(&self, servers: &Vec<Server>, interfaces: &Vec<Vec<Interface>>) -> (r:
        Vec<Node>)
        requires
            servers@.len() == interfaces@.len(),
        ensures
            holds_server_nodes(self.zone@, servers@, interfaces@, r@),
            forall|i: int| 0 <= i < r@.len() ==> (#[trigger] r@[i]).meta.wf(),
    {
        let mut nodes: Vec<Node> = Vec::new();
        let mut i: usize = 0;
        while i < servers.len()
            invariant
                servers@.len() == interfaces@.len(),
                i <= servers@.len(),
                nodes@.len() == i,
                forall|j: int|
                    0 <= j < i ==> (#[trigger] nodes@[j]).meta.wf() && nodes@[j]@ == server_node(
                        self.zone@,
                        servers@[j],
                        interfaces@[j]@,
                    ),
            decreases servers@.len() - i,
        {
            let node = self.node_from_server(&servers[i], &interfaces[i]);
            nodes.push(node);
            i = i + 1;
        }
        nodes
    }
}

} // verus!
