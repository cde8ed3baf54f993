//! The node registry: built once from the list of node descriptors, then
//! asked for nodes by their public identifier.
//!
//! Building resolves each descriptor to a logical node and notes which
//! serial links and I2C buses the nodes need, each bus once however many
//! nodes share it. Opening those buses is the caller's part.

use std::collections::HashMap;
use vstd::prelude::*;
use vstd::string::StringSliceAdditionalSpecFns;
use crate::comm::{lemma_obtained_is_memoized, obtained, CommChannel, CommChannelTx, CommPaths};
use crate::node::{enviro_phat_on, EnviroPHat, ErrorKind, LogicalNode, SerialNode};
use crate::text::{eq_bytes, parse_u32, parsed_u32};

verus! {

broadcast use vstd::std_specs::hash::group_hash_axioms;

/// A node descriptor as the persistence layer stores it. Text fields hold
/// the bytes of the text.
#[derive(Clone, Debug, PartialEq, Eq)]
pub struct Node {
    /// The key of the record.
    pub id: i32,
    /// The identifier under which clients know the node.
    pub public_id: i32,
    /// The name shown to people.
    pub name: Vec<u8>,
    /// How the node is reached: `serial` or `envirophat`.
    pub route_type: Vec<u8>,
    /// The decimal identifier of the bus the node sits on.
    pub route_param: Option<Vec<u8>>,
}

/// A node descriptor as a mathematical value.
pub struct NodeModel {
    pub id: i32,
    pub public_id: i32,
    pub name: Seq<u8>,
    pub route_type: Seq<u8>,
    pub route_param: Option<Seq<u8>>,
}

impl View for Node {
    type V = NodeModel;

    open spec fn view(&self) -> NodeModel {
        NodeModel {
            id: self.id,
            public_id: self.public_id,
            name: self.name@,
            route_type: self.route_type@,
            route_param: match self.route_param {
                Some(p) => Some(p@),
                None => None,
            },
        }
    }
}

/// Why a registry could not be built, or a node not be found.
#[derive(Clone, Copy, Debug, PartialEq, Eq, Structural)]
pub enum RegistryError {
    /// The public identifier of a descriptor is negative.
    InvalidPublicId { raw_public_id: i32 },
    /// The descriptor of this node names no bus.
    MissingRouteParam { public_id: u32 },
    /// The bus of this node is no 32-bit decimal number.
    InvalidRouteParam { public_id: u32 },
    /// The route type of this node is neither `serial` nor `envirophat`.
    InvalidRouteType { public_id: u32 },
    /// The registry holds no node with this identifier.
    UnknownNode { node_id: u32 },
}

/// The kind of failure that a registry error is: a lookup that finds no
/// node, or a descriptor that cannot be used.
pub open spec fn registry_error_kind(error: RegistryError) -> ErrorKind {
    match error {
        RegistryError::UnknownNode { .. } => ErrorKind::UnknownNode,
        _ => ErrorKind::ConfigurationError,
    }
}

impl RegistryError {
    /// The kind of failure that this error is.
    pub fn kind(&self) -> (kind: ErrorKind)
        ensures
            kind == registry_error_kind(*self),
    {
        match self {
            RegistryError::UnknownNode { .. } => ErrorKind::UnknownNode,
            _ => ErrorKind::ConfigurationError,
        }
    }
}

/// The ways in which a node can be reached.
#[derive(Clone, Copy, Debug, PartialEq, Eq, Structural)]
pub enum RouteTypes {
    /// Behind a serial link.
    Serial,
    /// On an I2C bus, as an EnviroPHat.
    EnviroPHat,
}

/// The name of a route type in a descriptor: `serial` or `envirophat`.
pub open spec fn route_name(route: RouteTypes) -> Seq<u8> {
    match route {
        RouteTypes::Serial => "serial".spec_bytes(),
        RouteTypes::EnviroPHat => "envirophat".spec_bytes(),
    }
}

/// The route type that a name stands for, if it stands for one.
pub open spec fn route_named(name: Seq<u8>) -> Option<RouteTypes> {
    if name == route_name(RouteTypes::Serial) {
        Some(RouteTypes::Serial)
    } else if name == route_name(RouteTypes::EnviroPHat) {
        Some(RouteTypes::EnviroPHat)
    } else {
        None
    }
}

impl RouteTypes {
    /// The name of the route type in a descriptor.
    pub fn as_ref(&self) -> (name: &'static str)
        ensures
            name.spec_bytes() == route_name(*self),
    {
        match self {
            RouteTypes::Serial => "serial",
            RouteTypes::EnviroPHat => "envirophat",
        }
    }

    /// The route type that a descriptor names.
    pub fn from_name(name: &[u8]) -> (route: Option<RouteTypes>)
        ensures
            route == route_named(name@),
    {
        if eq_bytes(name, "serial".as_bytes()) {
            Some(RouteTypes::Serial)
        } else if eq_bytes(name, "envirophat".as_bytes()) {
            Some(RouteTypes::EnviroPHat)
        } else {
            None
        }
    }
}

/// The bus that a descriptor names, for node `public_id`.
pub open spec fn route_bus(public_id: u32, route_param: Option<Seq<u8>>) -> Result<
    u32,
    RegistryError,
> {
    match route_param {
        None => Err(RegistryError::MissingRouteParam { public_id }),
        Some(text) => match parsed_u32(text) {
            None => Err(RegistryError::InvalidRouteParam { public_id }),
            Some(bus) => Ok(bus),
        },
    }
}

/// The public identifier and the logical node that a descriptor stands for,
/// or why it stands for none.
pub open spec fn resolved(node: NodeModel) -> Result<(u32, LogicalNode), RegistryError> {
    if node.public_id < 0 {
        Err(RegistryError::InvalidPublicId { raw_public_id: node.public_id })
    } else {
        match route_named(node.route_type) {
            None => Err(RegistryError::InvalidRouteType { public_id: node.public_id as u32 }),
            Some(route) => match route_bus(node.public_id as u32, node.route_param) {
                Err(e) => Err(e),
                Ok(bus) => Ok((node.public_id as u32, node_on(route, node.public_id as u32, bus))),
            },
        }
    }
}

/// The logical node `public_id` that is reached by `route` over bus `bus`.
pub open spec fn node_on(route: RouteTypes, public_id: u32, bus: u32) -> LogicalNode {
    match route {
        RouteTypes::Serial => LogicalNode::SerialBacked(
            SerialNode { node_public_id: public_id, comm_channel: CommChannelTx { path_id: bus } },
        ),
        RouteTypes::EnviroPHat => LogicalNode::I2cBacked(
            enviro_phat_on(CommChannel { path_id: bus }),
        ),
    }
}

/// The registry as a mathematical value.
pub struct RegistryModel {
    /// The node under each public identifier.
    pub nodes: Map<u32, LogicalNode>,
    /// The serial links that the nodes need, in order of first use.
    pub serial_paths: Seq<u32>,
    /// The I2C buses that the nodes need, in order of first use.
    pub i2c_paths: Seq<u32>,
}

/// The registry without nodes.
pub open spec fn empty_registry() -> RegistryModel {
    RegistryModel {
        nodes: Map::empty(),
        serial_paths: Seq::empty(),
        i2c_paths: Seq::empty(),
    }
}

/// The registry after `node` joined under `public_id`: the node takes the
/// place of any node known under that identifier, and its bus becomes known.
pub open spec fn with_node(m: RegistryModel, public_id: u32, node: LogicalNode) -> RegistryModel {
    RegistryModel {
        nodes: m.nodes.insert(public_id, node),
        serial_paths: match node {
            LogicalNode::SerialBacked(n) => obtained(m.serial_paths, n.comm_channel.path_id),
            LogicalNode::I2cBacked(_) => m.serial_paths,
        },
        i2c_paths: match node {
            LogicalNode::SerialBacked(_) => m.i2c_paths,
            LogicalNode::I2cBacked(n) => obtained(m.i2c_paths, n.bmp.comm_path.path_id),
        },
    }
}

/// The registry after one more descriptor, or why the descriptor is refused.
pub open spec fn registered(m: RegistryModel, node: NodeModel) -> Result<
    RegistryModel,
    RegistryError,
> {
    match resolved(node) {
        Err(e) => Err(e),
        Ok(found) => Ok(with_node(m, found.0, found.1)),
    }
}

/// The registry after a list of descriptors, taken in order, or the reason
/// why the first descriptor that is refused is refused.
pub open spec fn built_from(m: RegistryModel, nodes: Seq<Node>) -> Result<
    RegistryModel,
    RegistryError,
>
    decreases nodes.len(),
{
    if nodes.len() == 0 {
        Ok(m)
    } else {
        match built_from(m, nodes.drop_last()) {
            Err(e) => Err(e),
            Ok(r) => registered(r, nodes.last()@),
        }
    }
}

/// The registry that a list of descriptors builds.
pub open spec fn built(nodes: Seq<Node>) -> Result<RegistryModel, RegistryError> {
    built_from(empty_registry(), nodes)
}

/// The map from public identifiers to nodes, with the buses they need.
pub struct SensorNodeRegistry {
    node_map: HashMap<u32, LogicalNode>,
    serial_paths: CommPaths,
    i2c_paths: CommPaths,
}

impl View for SensorNodeRegistry {
    type V = RegistryModel;

    closed spec fn view(&self) -> RegistryModel {
        RegistryModel {
            nodes: self.node_map@,
            serial_paths: self.serial_paths@,
            i2c_paths: self.i2c_paths@,
        }
    }
}

/// Reads the bus that a descriptor names.
fn parse_route_param(public_id: u32, route_param: &Option<Vec<u8>>) -> (res: Result<
    u32,
    RegistryError,
>)
    ensures
        res == route_bus(
            public_id,
            match *route_param {
                Some(p) => Some(p@),
                None => None,
            },
        ),
{
    match route_param {
        None => Err(RegistryError::MissingRouteParam { public_id }),
        Some(text) => match parse_u32(text.as_slice()) {
            None => Err(RegistryError::InvalidRouteParam { public_id }),
            Some(bus) => Ok(bus),
        },
    }
}

impl SensorNodeRegistry {
    /// Builds the registry from the list of node descriptors. Of two
    /// descriptors with the same public identifier the later one counts.
    /// The first descriptor that cannot be resolved fails the build.
    pub fn new(nodes: &Vec<Node>) -> (res: Result<SensorNodeRegistry, RegistryError>)
        ensures
            match built(nodes@) {
                Ok(m) => res matches Ok(r) && r@ == m,
                Err(e) => res matches Err(x) && x == e,
            },
    {
        let mut registry = SensorNodeRegistry {
            node_map: HashMap::new(),
            serial_paths: CommPaths::new(),
            i2c_paths: CommPaths::new(),
        };
        let mut i: usize = 0;
        while i < nodes.len()
            invariant
                i <= nodes.len(),
                built_from(empty_registry(), nodes@.take(i as int)) == Ok::<
                    RegistryModel,
                    RegistryError,
                >(registry@),
            decreases nodes.len() - i,
        {
            assert(nodes@.take(i + 1).drop_last() =~= nodes@.take(i as int));
            match registry.register(&nodes[i]) {
                Ok(()) => {},
                Err(e) => {
                    proof {
                        lemma_build_fails_on_prefix(empty_registry(), nodes@, i + 1);
                    }
                    return Err(e);
                },
            }
            i += 1;
        }
        assert(nodes@.take(i as int) =~= nodes@);
        Ok(registry)
    }

    /// Adds the node that one descriptor stands for.
    fn register(&mut self, node: &Node) -> (res: Result<(), RegistryError>)
        ensures
            match registered(old(self)@, node@) {
                Ok(m) => res is Ok && final(self)@ == m,
                Err(e) => res == Err::<(), RegistryError>(e) && final(self)@ == old(self)@,
            },
    {
        if node.public_id < 0 {
            return Err(RegistryError::InvalidPublicId { raw_public_id: node.public_id });
        }
        let public_id = node.public_id as u32;
        match RouteTypes::from_name(node.route_type.as_slice()) {
            Some(RouteTypes::Serial) => {
                let bus = parse_route_param(public_id, &node.route_param)?;
                let (serial_node, _) = SerialNode::new(&mut self.serial_paths, public_id, bus);
                self.node_map.insert(public_id, LogicalNode::SerialBacked(serial_node));
                Ok(())
            },
            Some(RouteTypes::EnviroPHat) => {
                let bus = parse_route_param(public_id, &node.route_param)?;
                let (enviro_phat, _) = EnviroPHat::new(&mut self.i2c_paths, bus);
                self.node_map.insert(public_id, LogicalNode::I2cBacked(enviro_phat));
                Ok(())
            },
            None => Err(RegistryError::InvalidRouteType { public_id }),
        }
    }

    /// The node known under `node_id`.
    pub fn get_node(&self, node_id: u32) -> (res: Result<LogicalNode, RegistryError>)
        ensures
            res == (if self@.nodes.contains_key(node_id) {
                Ok::<LogicalNode, RegistryError>(self@.nodes[node_id])
            } else {
                Err::<LogicalNode, RegistryError>(RegistryError::UnknownNode { node_id })
            }),
    {
        match self.node_map.get(&node_id) {
            Some(node) => Ok(*node),
            None => Err(RegistryError::UnknownNode { node_id }),
        }
    }

    /// The serial links that the nodes need, each once: the ports to open.
    pub fn serial_paths(&self) -> (ids: &Vec<u32>)
        ensures
            ids@ == self@.serial_paths,
    {
        self.serial_paths.ids()
    }

    /// The I2C buses that the nodes need, each once: the buses to open.
    pub fn i2c_paths(&self) -> (ids: &Vec<u32>)
        ensures
            ids@ == self@.i2c_paths,
    {
        self.i2c_paths.ids()
    }
}

/// A build that fails on the first `k` descriptors fails in the same way on
/// the whole list.
pub proof fn lemma_build_fails_on_prefix(m: RegistryModel, nodes: Seq<Node>, k: int)
    requires
        0 <= k <= nodes.len(),
        built_from(m, nodes.take(k)) is Err,
    ensures
        built_from(m, nodes) == built_from(m, nodes.take(k)),
    decreases nodes.len() - k,
{
    if k < nodes.len() {
        assert(nodes.drop_last().take(k) =~= nodes.take(k));
        lemma_build_fails_on_prefix(m, nodes.drop_last(), k);
    } else {
        assert(nodes.take(k) =~= nodes);
    }
}

/// Whether the registry `m` knows the bus of every descriptor of `nodes`
/// that can be resolved.
pub open spec fn knows_buses(m: RegistryModel, nodes: Seq<Node>) -> bool {
    forall|k: int|
        0 <= k < nodes.len() ==> match resolved(#[trigger] nodes[k]@) {
            Ok((_, LogicalNode::SerialBacked(n))) => m.serial_paths.contains(
                n.comm_channel.path_id,
            ),
            Ok((_, LogicalNode::I2cBacked(n))) => m.i2c_paths.contains(n.bmp.comm_path.path_id),
            Err(_) => true,
        }
}

/// Whether `later` knows every bus that `earlier` knows.
pub open spec fn keeps_buses(earlier: RegistryModel, later: RegistryModel) -> bool {
    &&& forall|id: u32| earlier.serial_paths.contains(id) ==> later.serial_paths.contains(id)
    &&& forall|id: u32| earlier.i2c_paths.contains(id) ==> later.i2c_paths.contains(id)
}

/// A successful build forgets no bus, learns the bus of every descriptor,
/// and lists no bus twice if none was listed twice before: each bus is
/// obtained once however many nodes share it.
pub proof fn lemma_build_memoizes_buses(m: RegistryModel, nodes: Seq<Node>)
    requires
        built_from(m, nodes) is Ok,
    ensures
        keeps_buses(m, built_from(m, nodes).unwrap()),
        knows_buses(built_from(m, nodes).unwrap(), nodes),
        m.serial_paths.no_duplicates() ==> built_from(m, nodes).unwrap().serial_paths.no_duplicates(),
        m.i2c_paths.no_duplicates() ==> built_from(m, nodes).unwrap().i2c_paths.no_duplicates(),
    decreases nodes.len(),
{
    if nodes.len() > 0 {
        let before = built_from(m, nodes.drop_last()).unwrap();
        let after = built_from(m, nodes).unwrap();
        lemma_build_memoizes_buses(m, nodes.drop_last());
        let found = resolved(nodes.last()@).unwrap();
        assert(after == with_node(before, found.0, found.1));
        match found.1 {
            LogicalNode::SerialBacked(n) => {
                lemma_obtained_is_memoized(before.serial_paths, n.comm_channel.path_id);
            },
            LogicalNode::I2cBacked(n) => {
                lemma_obtained_is_memoized(before.i2c_paths, n.bmp.comm_path.path_id);
            },
        }
        assert forall|k: int| 0 <= k < nodes.len() implies match resolved(#[trigger] nodes[k]@) {
            Ok((_, LogicalNode::SerialBacked(n))) => after.serial_paths.contains(
                n.comm_channel.path_id,
            ),
            Ok((_, LogicalNode::I2cBacked(n))) => after.i2c_paths.contains(
                n.bmp.comm_path.path_id,
            ),
            Err(_) => true,
        } by {
            if k < nodes.len() - 1 {
                assert(nodes.drop_last()[k] == nodes[k]);
            }
        }
    }
}

/// Two lists that hold the same descriptors, one by one, build the same
/// registry or fail in the same way.
pub proof fn lemma_same_descriptors_same_registry(m: RegistryModel, a: Seq<Node>, b: Seq<Node>)
    requires
        a.len() == b.len(),
        forall|k: int| 0 <= k < a.len() ==> a[k]@ == b[k]@,
    ensures
        built_from(m, a) == built_from(m, b),
    decreases a.len(),
{
    if a.len() > 0 {
        assert forall|k: int| 0 <= k < a.drop_last().len() implies a.drop_last()[k]@
            == b.drop_last()[k]@ by {
            assert(a.drop_last()[k] == a[k]);
            assert(b.drop_last()[k] == b[k]);
        }
        lemma_same_descriptors_same_registry(m, a.drop_last(), b.drop_last());
        assert(a.last()@ == b.last()@);
    }
}

/// Building on top of a registry that knows all buses of the list only
/// overlays the nodes of the list on the nodes that were there.
proof fn lemma_build_overlays(x: RegistryModel, nodes: Seq<Node>)
    requires
        built(nodes) is Ok,
        knows_buses(x, nodes),
    ensures
        built_from(x, nodes) == Ok::<RegistryModel, RegistryError>(
            RegistryModel {
                nodes: x.nodes.union_prefer_right(built(nodes).unwrap().nodes),
                serial_paths: x.serial_paths,
                i2c_paths: x.i2c_paths,
            },
        ),
    decreases nodes.len(),
{
    if nodes.len() == 0 {
        assert(x.nodes.union_prefer_right(Map::<u32, LogicalNode>::empty()) =~= x.nodes);
    } else {
        let shorter = nodes.drop_last();
        assert forall|k: int| 0 <= k < shorter.len() implies match resolved(
            #[trigger] shorter[k]@,
        ) {
            Ok((_, LogicalNode::SerialBacked(n))) => x.serial_paths.contains(
                n.comm_channel.path_id,
            ),
            Ok((_, LogicalNode::I2cBacked(n))) => x.i2c_paths.contains(n.bmp.comm_path.path_id),
            Err(_) => true,
        } by {
            assert(shorter[k] == nodes[k]);
        }
        lemma_build_overlays(x, shorter);
        let found = resolved(nodes.last()@).unwrap();
        let alone = built(shorter).unwrap();
        assert(built(nodes).unwrap() == with_node(alone, found.0, found.1));
        assert(nodes[nodes.len() - 1] == nodes.last());
        assert(x.nodes.union_prefer_right(alone.nodes).insert(found.0, found.1)
            =~= x.nodes.union_prefer_right(alone.nodes.insert(found.0, found.1)));
    }
}

/// Building again from the same list, on top of the registry that the list
/// built, changes nothing: the mapping from public identifiers to nodes and
/// the buses stay as they are.
pub proof fn lemma_rebuild_changes_nothing(nodes: Seq<Node>)
    requires
        built(nodes) is Ok,
    ensures
        built_from(built(nodes).unwrap(), nodes) == built(nodes),
{
    let r = built(nodes).unwrap();
    lemma_build_memoizes_buses(empty_registry(), nodes);
    lemma_build_overlays(r, nodes);
    assert(r.nodes.union_prefer_right(r.nodes) =~= r.nodes);
}

} // verus!
