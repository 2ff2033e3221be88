use crate::settings::{is_config_error, require3, required3};
use crate::strmap::StringMap;
use crate::{DiscoveryError, Node};
use vstd::prelude::*;

verus! {

/// The settings of discovery on AWS EC2: the region to ask, and the tag that the
/// instances must carry.
#[derive(Clone, Debug)]
pub struct AwsProvider {
    pub region: String,
    pub tag_key: String,
    pub tag_value: String,
}

/// A tag of an instance as EC2 reports it; either half may be absent.
#[derive(Clone, Debug)]
pub struct Tag {
    pub key: Option<String>,
    pub value: Option<String>,
}

/// What discovery reads of one EC2 instance.
#[derive(Clone, Debug)]
pub struct Instance {
    pub instance_id: Option<String>,
    pub private_ip: Option<String>,
    pub tags: Vec<Tag>,
}

/// The metadata that the tags give: each tag with both a key and a value, later
/// ones winning.
pub open spec fn tags_meta(tags: Seq<Tag>) -> Map<Seq<char>, Seq<char>>
    decreases tags.len(),
{
    if tags.len() == 0 {
        Map::empty()
    } else {
        let m = tags_meta(tags.drop_last());
        let t = tags.last();
        if t.key is Some && t.value is Some {
            m.insert(t.key->0@, t.value->0@)
        } else {
            m
        }
    }
}

/// The metadata of an instance: its tags, then its id, then the configured region.
pub open spec fn instance_meta(region: Seq<char>, inst: Instance) -> Map<Seq<char>, Seq<char>> {
    let m = tags_meta(inst.tags@);
    let m = if inst.instance_id is Some {
        m.insert("instance_id"@, inst.instance_id->0@)
    } else {
        m
    };
    m.insert("region"@, region)
}

/// The nodes of a listing, in its order: one per instance that has a private
/// address, and none for the others.
pub open spec fn aws_nodes(region: Seq<char>, insts: Seq<Instance>) -> Seq<
    (Seq<char>, Map<Seq<char>, Seq<char>>),
>
    decreases insts.len(),
{
    if insts.len() == 0 {
        Seq::empty()
    } else {
        let rest = aws_nodes(region, insts.drop_last());
        let inst = insts.last();
        if inst.private_ip is Some {
            rest.push((inst.private_ip->0@, instance_meta(region, inst)))
        } else {
            rest
        }
    }
}

/// Whether `r` holds the nodes of the listing `insts`.
pub open spec fn holds_aws_nodes(region: Seq<char>, insts: Seq<Instance>, r: Seq<Node>) -> bool {
    &&& r.len() == aws_nodes(region, insts).len()
    &&& forall|i: int| 0 <= i < r.len() ==> (#[trigger] r[i])@ == aws_nodes(region, insts)[i]
}

/// Two discoveries over the same listing give equal nodes in the same order.
pub proof fn lemma_aws_repeatable(
    region: Seq<char>,
    insts: Seq<Instance>,
    r1: Seq<Node>,
    r2: Seq<Node>,
)
    requires
        holds_aws_nodes(region, insts, r1),
        holds_aws_nodes(region, insts, r2),
    ensures
        r1.len() == r2.len(),
        forall|i: int| 0 <= i < r1.len() ==> (#[trigger] r1[i])@ == r2[i]@,
{
}

impl AwsProvider {
    /// Reads the required keys `region`, `tag_key` and `tag_value`.
    pub fn new(config: &StringMap) -> (r: Result<AwsProvider, DiscoveryError>)
        requires
            config.wf(),
        ensures
            match required3(config@, "region"@, "tag_key"@, "tag_value"@) {
                Ok(t) => r is Ok && r->Ok_0.region@ == t.0 && r->Ok_0.tag_key@ == t.1
                    && r->Ok_0.tag_value@ == t.2,
                Err(msg) => r is Err && is_config_error(r->Err_0, msg),
            },
    {
        match require3(config, "region", "tag_key", "tag_value") {
            Ok((region, tag_key, tag_value)) => Ok(AwsProvider { region, tag_key, tag_value }),
            Err(e) => Err(e),
        }
    }

    /// The name of the EC2 filter on the configured tag: `tag:` and the key.
    pub fn tag_filter_name(&self) -> (r: String)
        ensures
            r@ == "tag:"@ + self.tag_key@,
    {
        String::from_str("tag:").concat(self.tag_key.as_str())
    }

    /// Turns the instances that a filtered listing returned into nodes.
    pub fn nodes_from_instances(&self, instances: &Vec<Instance>) -> (r: Vec<Node>)
        ensures
            holds_aws_nodes(self.region@, instances@, r@),
            forall|i: int| 0 <= i < r@.len() ==> (#[trigger] r@[i]).meta.wf(),
    {
        let mut nodes: Vec<Node> = Vec::new();
        let mut i: usize = 0;
        while i < instances.len()
            invariant
                i <= instances@.len(),
                nodes@.len() == aws_nodes(self.region@, instances@.take(i as int)).len(),
                forall|j: int|
                    0 <= j < nodes@.len() ==> (#[trigger] nodes@[j]).meta.wf() && nodes@[j].view()
                        == aws_nodes(self.region@, instances@.take(i as int))[j],
            decreases instances@.len() - i,
        {
            let inst = &instances[i];
            assert(instances@.take(i + 1).drop_last() =~= instances@.take(i as int));
            assert(instances@.take(i + 1).last() == *inst);
            if let Some(ip) = &inst.private_ip {
                let meta = instance_meta_of(&self.region, inst);
                nodes.push(Node { address: ip.clone(), meta });
                assert(aws_nodes(self.region@, instances@.take(i + 1)) == aws_nodes(
                    self.region@,
                    instances@.take(i as int),
                ).push((ip@, instance_meta(self.region@, *inst))));
            }
            i = i + 1;
        }
        assert(instances@.take(instances@.len() as int) =~= instances@);
        nodes
    }
}

fn instance_meta_of(region: &String, inst: &Instance) -> (r: StringMap)
    ensures
        r.wf(),
        r@ == instance_meta(region@, *inst),
{
    let mut meta = StringMap::new();
    let mut i: usize = 0;
    while i < inst.tags.len()
        invariant
            i <= inst.tags@.len(),
            meta.wf(),
            meta@ == tags_meta(inst.tags@.take(i as int)),
        decreases inst.tags@.len() - i,
    {
        assert(inst.tags@.take(i + 1).drop_last() =~= inst.tags@.take(i as int));
        let tag = &inst.tags[i];
        match (&tag.key, &tag.value) {
            (Some(k), Some(v)) => {
                meta.insert(k.clone(), v.clone());
            },
            _ => {},
        }
        i = i + 1;
    }
    assert(inst.tags@.take(inst.tags@.len() as int) =~= inst.tags@);
    if let Some(id) = &inst.instance_id {
        meta.insert(String::from_str("instance_id"), id.clone());
    }
    meta.insert(String::from_str("region"), region.clone());
    meta
}

} // verus!
