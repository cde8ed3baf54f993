//! The inventory of the installation: which sensors of which kind each node
//! has, as clients see it.
//!
//! Nodes and sensors come as the records of the persistence layer. A sensor
//! belongs to the node record whose key it names. Clients see nodes and
//! sensors under their public identifiers; node records that share a public
//! identifier are seen as one node.

use vstd::prelude::*;
use crate::comm::obtained;
use crate::messages::SensorTypeEnum;
use crate::registry::Node;

verus! {

/// A sensor as the persistence layer stores it. Text fields hold the bytes
/// of the text.
#[derive(Clone, Debug, PartialEq, Eq)]
pub struct Sensor {
    /// The key of the record.
    pub id: i32,
    /// The identifier under which clients know the sensor.
    pub public_id: i32,
    /// The key of the node record that the sensor belongs to.
    pub node_id: i32,
    /// What the sensor measures.
    pub sensor_type: SensorTypeEnum,
    /// The name shown to people.
    pub name: Vec<u8>,
}

/// The sensors of one node, by kind. Each list holds public identifiers of
/// sensors in the order of their records.
#[derive(Clone, Debug, PartialEq, Eq)]
pub struct NodeSensors {
    /// The public identifier of the node.
    pub node_public_id: u32,
    pub pressure: Vec<u32>,
    pub temperature: Vec<u32>,
    pub humidity: Vec<u32>,
    pub light_level: Vec<u32>,
}

impl NodeSensors {
    /// The sensors of `kind`.
    pub open spec fn of_kind(self, kind: SensorTypeEnum) -> Seq<u32> {
        match kind {
            SensorTypeEnum::Pressure => self.pressure@,
            SensorTypeEnum::Temperature => self.temperature@,
            SensorTypeEnum::Humidity => self.humidity@,
            SensorTypeEnum::LightLevel => self.light_level@,
        }
    }
}

/// A stored identifier as clients see it: the same number, or, for a
/// negative one, the number that has the same 32 bits.
pub open spec fn public_u32(id: i32) -> u32 {
    if id >= 0 {
        id as u32
    } else {
        (id + 0x1_0000_0000) as u32
    }
}

/// The public identifiers of the sensors of `kind` that belong to the node
/// record `node_key`, in the order of the sensor records.
pub open spec fn sensors_of(sensors: Seq<Sensor>, node_key: i32, kind: SensorTypeEnum) -> Seq<u32>
    decreases sensors.len(),
{
    if sensors.len() == 0 {
        Seq::empty()
    } else if sensors.last().node_id == node_key && sensors.last().sensor_type == kind {
        sensors_of(sensors.drop_last(), node_key, kind).push(public_u32(sensors.last().public_id))
    } else {
        sensors_of(sensors.drop_last(), node_key, kind)
    }
}

/// The sensors of `kind` that clients see under node `public_id`: those of
/// every node record with that public identifier, record after record.
pub open spec fn listed(
    nodes: Seq<Node>,
    sensors: Seq<Sensor>,
    public_id: u32,
    kind: SensorTypeEnum,
) -> Seq<u32>
    decreases nodes.len(),
{
    if nodes.len() == 0 {
        Seq::empty()
    } else if public_u32(nodes.last().public_id) == public_id {
        listed(nodes.drop_last(), sensors, public_id, kind) + sensors_of(
            sensors,
            nodes.last().id,
            kind,
        )
    } else {
        listed(nodes.drop_last(), sensors, public_id, kind)
    }
}

/// The public identifiers of the nodes, each once, in the order in which
/// the node records first name them.
pub open spec fn node_ids(nodes: Seq<Node>) -> Seq<u32>
    decreases nodes.len(),
{
    if nodes.len() == 0 {
        Seq::empty()
    } else {
        obtained(node_ids(nodes.drop_last()), public_u32(nodes.last().public_id))
    }
}

/// Whether `entry` lists what clients see under node `public_id`.
pub open spec fn is_entry_of(
    entry: NodeSensors,
    nodes: Seq<Node>,
    sensors: Seq<Sensor>,
    public_id: u32,
) -> bool {
    &&& entry.node_public_id == public_id
    &&& entry.pressure@ == listed(nodes, sensors, public_id, SensorTypeEnum::Pressure)
    &&& entry.temperature@ == listed(nodes, sensors, public_id, SensorTypeEnum::Temperature)
    &&& entry.humidity@ == listed(nodes, sensors, public_id, SensorTypeEnum::Humidity)
    &&& entry.light_level@ == listed(nodes, sensors, public_id, SensorTypeEnum::LightLevel)
}

/// The inventory names every node that a record names, and none twice.
pub proof fn lemma_node_ids(nodes: Seq<Node>)
    ensures
        node_ids(nodes).no_duplicates(),
        forall|k: int|
            0 <= k < nodes.len() ==> node_ids(nodes).contains(
                public_u32((#[trigger] nodes[k]).public_id),
            ),
    decreases nodes.len(),
{
    if nodes.len() > 0 {
        lemma_node_ids(nodes.drop_last());
        crate::comm::lemma_obtained_is_memoized(
            node_ids(nodes.drop_last()),
            public_u32(nodes.last().public_id),
        );
        assert forall|k: int| 0 <= k < nodes.len() implies node_ids(nodes).contains(
            public_u32((#[trigger] nodes[k]).public_id),
        ) by {
            if k < nodes.len() - 1 {
                assert(nodes.drop_last()[k] == nodes[k]);
            }
        }
    }
}

/// A stored identifier as clients see it.
pub fn to_public_u32(id: i32) -> (public_id: u32)
    ensures
        public_id == public_u32(id),
{
    if id >= 0 {
        id as u32
    } else {
        (id as i64 + 0x1_0000_0000) as u32
    }
}

/// Whether `id` is among `ids`.
fn contains_id(ids: &Vec<u32>, id: u32) -> (known: bool)
    ensures
        known == ids@.contains(id),
{
    let mut j: usize = 0;
    while j < ids.len()
        invariant
            j <= ids.len(),
            forall|w: int| 0 <= w < j ==> ids@[w] != id,
        decreases ids.len() - j,
    {
        if ids[j] == id {
            return true;
        }
        j += 1;
    }
    false
}

/// Appends the sensors of `kind` of the node record `node_key` to `out`.
fn collect_sensors(sensors: &Vec<Sensor>, node_key: i32, kind: SensorTypeEnum, out: &mut Vec<u32>)
    ensures
        final(out)@ == old(out)@ + sensors_of(sensors@, node_key, kind),
{
    let mut j: usize = 0;
    while j < sensors.len()
        invariant
            j <= sensors.len(),
            out@ == old(out)@ + sensors_of(sensors@.take(j as int), node_key, kind),
        decreases sensors.len() - j,
    {
        assert(sensors@.take(j + 1).drop_last() =~= sensors@.take(j as int));
        if sensors[j].node_id == node_key && sensors[j].sensor_type == kind {
            out.push(to_public_u32(sensors[j].public_id));
        }
        j += 1;
    }
    assert(sensors@.take(j as int) =~= sensors@);
}

/// The sensors of `kind` that clients see under node `public_id`.
fn list_sensors(nodes: &Vec<Node>, sensors: &Vec<Sensor>, public_id: u32, kind: SensorTypeEnum) -> (out:
    Vec<u32>)
    ensures
        out@ == listed(nodes@, sensors@, public_id, kind),
{
    let mut out: Vec<u32> = Vec::new();
    let mut i: usize = 0;
    while i < nodes.len()
        invariant
            i <= nodes.len(),
            out@ == listed(nodes@.take(i as int), sensors@, public_id, kind),
        decreases nodes.len() - i,
    {
        assert(nodes@.take(i + 1).drop_last() =~= nodes@.take(i as int));
        if to_public_u32(nodes[i].public_id) == public_id {
            collect_sensors(sensors, nodes[i].id, kind, &mut out);
        }
        i += 1;
    }
    assert(nodes@.take(i as int) =~= nodes@);
    out
}

/// The inventory: one entry for each node that clients see, in the order in
/// which the node records first name it, with the node's sensors by kind.
pub fn global_structure(nodes: &Vec<Node>, sensors: &Vec<Sensor>) -> (out: Vec<NodeSensors>)
    ensures
        out@.len() == node_ids(nodes@).len(),
        forall|k: int|
            0 <= k < out@.len() ==> is_entry_of(
                #[trigger] out@[k],
                nodes@,
                sensors@,
                node_ids(nodes@)[k],
            ),
{
    let mut ids: Vec<u32> = Vec::new();
    let mut i: usize = 0;
    while i < nodes.len()
        invariant
            i <= nodes.len(),
            ids@ == node_ids(nodes@.take(i as int)),
        decreases nodes.len() - i,
    {
        assert(nodes@.take(i + 1).drop_last() =~= nodes@.take(i as int));
        let id = to_public_u32(nodes[i].public_id);
        let known = contains_id(&ids, id);
        if !known {
            ids.push(id);
        }
        i += 1;
    }
    assert(nodes@.take(i as int) =~= nodes@);

    let mut out: Vec<NodeSensors> = Vec::new();
    let mut k: usize = 0;
    while k < ids.len()
        invariant
            k <= ids.len(),
            ids@ == node_ids(nodes@),
            out@.len() == k,
            forall|n: int|
                0 <= n < k ==> is_entry_of(
                    #[trigger] out@[n],
                    nodes@,
                    sensors@,
                    node_ids(nodes@)[n],
                ),
        decreases ids.len() - k,
    {
        let id = ids[k];
        out.push(
            NodeSensors {
                node_public_id: id,
                pressure: list_sensors(nodes, sensors, id, SensorTypeEnum::Pressure),
                temperature: list_sensors(nodes, sensors, id, SensorTypeEnum::Temperature),
                humidity: list_sensors(nodes, sensors, id, SensorTypeEnum::Humidity),
                light_level: list_sensors(nodes, sensors, id, SensorTypeEnum::LightLevel),
            },
        );
        k += 1;
    }
    out
}

} // verus!
