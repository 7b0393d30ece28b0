use shard_registry::protocol::{apply_command, reply_to_result, Command, ServiceError};
use shard_registry::gateway::Gateway;
use shard_registry::service::GatewayService;

#[test]
fn example_scenario() {
    // four shards, the reference walk-through
    let mut service = GatewayService::new(4).unwrap();
    service.add_client("client123");
    service.set_is_active("client123", true);
    assert_eq!(service.get_is_active("client123"), true);
    assert_eq!(service.get_is_active("unknown"), false);
}

#[test]
fn zero_buckets_is_a_routing_error() {
    match GatewayService::new(0) {
        Err(e) => assert_eq!(e, ServiceError::RoutingError),
        Ok(_) => panic!("a service must not start with zero buckets"),
    }
}

#[test]
fn get_bucket_is_repeatable() {
    let service = GatewayService::new(16).unwrap();
    let first = service.get_bucket("client123");
    let second = service.get_bucket("client123");
    assert_eq!(first, second);
    assert!(first < 16);
}

#[test]
fn read_after_write_in_program_order() {
    let mut service = GatewayService::new(8).unwrap();
    service.add_client("client123");
    service.set_is_active("client123", true);
    assert_eq!(service.get_is_active("client123"), true);
}

#[test]
fn partition_isolation_across_buckets() {
    let mut service = GatewayService::new(4).unwrap();
    let anchor = "client-a";
    let anchor_bucket = service.get_bucket(anchor);
    // find an id routed to a different shard
    let mut other = None;
    for i in 0..64 {
        let candidate = format!("candidate-{}", i);
        if service.get_bucket(&candidate) != anchor_bucket {
            other = Some(candidate);
            break;
        }
    }
    let other = other.expect("some id must land in another bucket");
    service.add_client(anchor);
    service.set_is_active(anchor, true);
    // hammer the other shard: none of it may leak into the anchor
    service.add_client(&other);
    service.set_is_active(&other, true);
    service.set_is_active(&other, false);
    assert_eq!(service.get_is_active(anchor), true);
    assert_eq!(service.get_is_active(&other), false);
}

#[test]
fn set_unknown_id_is_ignored_by_the_service() {
    let mut service = GatewayService::new(4).unwrap();
    service.set_is_active("ghost", true);
    assert_eq!(service.get_is_active("ghost"), false);
}

#[test]
fn dispatch_step_applies_each_command() {
    let mut gateway = Gateway::new();
    let add = Command::AddClient { client_id: String::from("c") };
    let set = Command::SetIsActive { client_id: String::from("c"), is_active: true };
    let get = Command::GetIsActive { client_id: String::from("c") };
    assert_eq!(apply_command(&mut gateway, &add), None);
    assert_eq!(apply_command(&mut gateway, &get), Some(false));
    assert_eq!(apply_command(&mut gateway, &set), None);
    assert_eq!(apply_command(&mut gateway, &get), Some(true));
}

#[test]
fn missing_reply_is_surfaced_not_defaulted() {
    assert_eq!(reply_to_result(Some(true)), Ok(true));
    assert_eq!(reply_to_result(Some(false)), Ok(false));
    assert_eq!(reply_to_result(None), Err(ServiceError::ReplyAbandoned));
}
