//! Plain data models describing an agent, the datastore it manages and the
//! shards hosted on a node.
use vstd::prelude::*;

verus! {

/// Agent-specific information.
#[derive(Clone, Eq, PartialEq, Hash, Debug)]
pub struct AgentInfo {
    pub version: AgentVersion,
}

impl AgentInfo {
    pub fn new(version: AgentVersion) -> (r: AgentInfo)
        ensures
            r.version == version,
    {
        AgentInfo { version }
    }
}

/// Agent version details.
#[derive(Clone, Eq, PartialEq, Hash, Debug)]
pub struct AgentVersion {
    pub checkout: String,
    pub number: String,
    pub taint: String,
}

impl AgentVersion {
    pub fn new(checkout: &str, number: &str, taint: &str) -> (r: AgentVersion)
        ensures
            r.checkout@ == checkout@,
            r.number@ == number@,
            r.taint@ == taint@,
    {
        AgentVersion {
            checkout: checkout.to_owned(),
            number: number.to_owned(),
            taint: taint.to_owned(),
        }
    }
}

/// Datastore version details.
#[derive(Clone, Eq, PartialEq, Hash, Debug)]
pub struct DatastoreInfo {
    pub cluster_display_name: Option<String>,
    pub cluster_id: String,
    pub kind: String,
    pub node_id: String,
    pub version: String,
}

impl DatastoreInfo {
    pub fn new(
        cluster_id: &str,
        kind: &str,
        node_id: &str,
        version: &str,
        cluster_display_name: Option<String>,
    ) -> (r: DatastoreInfo)
        ensures
            r.cluster_display_name == cluster_display_name,
            r.cluster_id@ == cluster_id@,
            r.kind@ == kind@,
            r.node_id@ == node_id@,
            r.version@ == version@,
    {
        DatastoreInfo {
            cluster_display_name,
            cluster_id: cluster_id.to_owned(),
            kind: kind.to_owned(),
            node_id: node_id.to_owned(),
            version: version.to_owned(),
        }
    }
}

/// Agent and datastore information.
#[derive(Clone, Eq, PartialEq, Hash, Debug)]
pub struct NodeInfo {
    pub agent: AgentInfo,
    pub datastore: DatastoreInfo,
}

impl NodeInfo {
    pub fn new(agent: AgentInfo, datastore: DatastoreInfo) -> (r: NodeInfo)
        ensures
            r.agent == agent,
            r.datastore == datastore,
    {
        NodeInfo { agent, datastore }
    }
}

/// Datastore status information.
#[derive(Clone, Eq, PartialEq, Hash, Debug)]
pub struct NodeStatus {
    pub shards: Vec<Shard>,
}

impl NodeStatus {
    pub fn new(shards: Vec<Shard>) -> (r: NodeStatus)
        ensures
            r.shards == shards,
    {
        NodeStatus { shards }
    }
}

/// Information about the current commit offset of a shard or replication lag.
#[derive(Clone, Eq, PartialEq, Hash, Debug)]
pub struct CommitOffset {
    pub unit: CommitUnit,
    pub value: i64,
}

impl CommitOffset {
    pub fn new(value: i64, unit: CommitUnit) -> (r: CommitOffset)
        ensures
            r.value == value,
            r.unit == unit,
    {
        CommitOffset { unit, value }
    }

    /// Commit offset measured in seconds.
    pub fn seconds(value: i64) -> (r: CommitOffset)
        ensures
            r.value == value,
            r.unit == CommitUnit::Seconds,
    {
        CommitOffset::new(value, CommitUnit::seconds())
    }

    /// Commit offset measured in a datastore-specific unit.
    pub fn unit(value: i64, unit: &str) -> (r: CommitOffset)
        ensures
            r.value == value,
            r.unit is Unit,
            r.unit->Unit_0@ == unit@,
    {
        CommitOffset::new(value, CommitUnit::unit(unit))
    }
}

/// Unit of commit offsets or replica lags.
#[derive(Clone, Eq, PartialEq, Hash, Debug)]
pub enum CommitUnit {
    Seconds,
    Unit(String),
}

impl CommitUnit {
    pub fn seconds() -> (r: CommitUnit)
        ensures
            r == CommitUnit::Seconds,
    {
        CommitUnit::Seconds
    }

    pub fn unit(unit: &str) -> (r: CommitUnit)
        ensures
            r is Unit,
            r->Unit_0@ == unit@,
    {
        CommitUnit::Unit(unit.to_owned())
    }
}

/// Information about a shard on a node.
#[derive(Clone, Eq, PartialEq, Hash, Debug)]
pub struct Shard {
    pub commit_offset: Option<CommitOffset>,
    pub id: String,
    pub lag: Option<CommitOffset>,
    pub role: ShardRole,
}

impl Shard {
    pub fn new(
        id: &str,
        role: ShardRole,
        commit_offset: Option<CommitOffset>,
        lag: Option<CommitOffset>,
    ) -> (r: Shard)
        ensures
            r.id@ == id@,
            r.role == role,
            r.commit_offset == commit_offset,
            r.lag == lag,
    {
        Shard { commit_offset, id: id.to_owned(), lag, role }
    }
}

/// Information about shards on a node.
#[derive(Clone, Eq, PartialEq, Hash, Debug)]
pub struct Shards {
    pub shards: Vec<Shard>,
}

impl Shards {
    pub fn new(shards: Vec<Shard>) -> (r: Shards)
        ensures
            r.shards == shards,
    {
        Shards { shards }
    }
}

/// Possible shard roles.
#[derive(Clone, Eq, PartialEq, Hash, Debug)]
pub enum ShardRole {
    Primary,
    Secondary,
    Unknown(String),
}

} // verus!
