use shard_registry::gateway::Gateway;

#[test]
fn unknown_id_reads_inactive() {
    let gateway = Gateway::new();
    assert_eq!(gateway.get_is_active("never-added"), false);
}

#[test]
fn added_client_starts_inactive() {
    let mut gateway = Gateway::new();
    gateway.add_client("client123");
    assert_eq!(gateway.get_is_active("client123"), false);
}

#[test]
fn set_then_get_round_trip() {
    let mut gateway = Gateway::new();
    gateway.add_client("client123");
    gateway.set_is_active("client123", true);
    assert_eq!(gateway.get_is_active("client123"), true);
    gateway.set_is_active("client123", false);
    assert_eq!(gateway.get_is_active("client123"), false);
}

#[test]
fn re_adding_keeps_the_flag() {
    let mut gateway = Gateway::new();
    gateway.add_client("client123");
    gateway.set_is_active("client123", true);
    // intervening read, then a second add: the flag must survive
    assert_eq!(gateway.get_is_active("client123"), true);
    gateway.add_client("client123");
    assert_eq!(gateway.get_is_active("client123"), true);
}

#[test]
fn add_twice_equals_add_once() {
    let mut once = Gateway::new();
    once.add_client("c");
    let mut twice = Gateway::new();
    twice.add_client("c");
    assert_eq!(twice.get_is_active("c"), false);
    twice.add_client("c");
    assert_eq!(once.get_is_active("c"), twice.get_is_active("c"));
}

#[test]
fn set_unknown_id_is_ignored() {
    let mut gateway = Gateway::new();
    gateway.set_is_active("ghost", true);
    assert_eq!(gateway.get_is_active("ghost"), false);
}

#[test]
fn clients_do_not_interfere() {
    let mut gateway = Gateway::new();
    gateway.add_client("a");
    gateway.add_client("b");
    gateway.set_is_active("a", true);
    assert_eq!(gateway.get_is_active("a"), true);
    assert_eq!(gateway.get_is_active("b"), false);
    gateway.set_is_active("b", true);
    gateway.set_is_active("a", false);
    assert_eq!(gateway.get_is_active("b"), true);
    assert_eq!(gateway.get_is_active("a"), false);
}
