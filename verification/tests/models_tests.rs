use replicante_util::actions::ActionState;
use replicante_util::models::AgentInfo;
use replicante_util::models::AgentVersion;
use replicante_util::models::CommitOffset;
use replicante_util::models::CommitUnit;
use replicante_util::models::DatastoreInfo;
use replicante_util::models::NodeInfo;
use replicante_util::models::NodeStatus;
use replicante_util::models::Shard;
use replicante_util::models::ShardRole;
use replicante_util::models::Shards;

#[test]
fn agent_info_holds_version() {
    let version = AgentVersion::new("abc123", "1.2.3", "tainted");
    let info = AgentInfo::new(version.clone());
    assert_eq!(info.version, version);
    assert_eq!(info.version.checkout, "abc123");
    assert_eq!(info.version.number, "1.2.3");
    assert_eq!(info.version.taint, "tainted");
}

#[test]
fn datastore_info_fields() {
    let info = DatastoreInfo::new("id", "DB", "Name", "1.2.3", None);
    assert_eq!(info.cluster_display_name, None);
    assert_eq!(info.cluster_id, "id");
    assert_eq!(info.kind, "DB");
    assert_eq!(info.node_id, "Name");
    assert_eq!(info.version, "1.2.3");
}

#[test]
fn node_models_group_parts() {
    let agent = AgentInfo::new(AgentVersion::new("abc123", "1.2.3", "tainted"));
    let datastore = DatastoreInfo::new("id", "DB", "Name", "1.2.3", None);
    let info = NodeInfo::new(agent.clone(), datastore.clone());
    assert_eq!(info.agent, agent);
    assert_eq!(info.datastore, datastore);
    let shard = Shard::new("id", ShardRole::Secondary, None, Some(CommitOffset::seconds(2)));
    let status = NodeStatus::new(vec![shard.clone()]);
    assert_eq!(status.shards, vec![shard.clone()]);
    let shards = Shards::new(vec![shard.clone()]);
    assert_eq!(shards.shards, vec![shard]);
}

#[test]
fn commit_offsets() {
    let seconds = CommitOffset::seconds(1234);
    assert_eq!(seconds.value, 1234);
    assert_eq!(seconds.unit, CommitUnit::Seconds);
    let unit = CommitOffset::unit(7, "offset");
    assert_eq!(unit.value, 7);
    assert_eq!(unit.unit, CommitUnit::Unit(String::from("offset")));
}

#[test]
fn shard_fields() {
    let shard = Shard::new(
        "shard-1",
        ShardRole::Primary,
        Some(CommitOffset::seconds(12345)),
        Some(CommitOffset::seconds(0)),
    );
    assert_eq!(shard.id, "shard-1");
    assert_eq!(shard.role, ShardRole::Primary);
    assert_eq!(shard.commit_offset, Some(CommitOffset::seconds(12345)));
    assert_eq!(shard.lag, Some(CommitOffset::seconds(0)));
}

#[test]
fn action_states_finished() {
    assert!(ActionState::Done.is_finished());
    assert!(ActionState::Failed.is_finished());
    assert!(!ActionState::New.is_finished());
    assert!(!ActionState::Running.is_finished());
}
