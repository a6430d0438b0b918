use deos_mcpd::approval::{Approvals, Decision, Pending};
use deos_mcpd::control::{approve, deny, health, list_pending};
use serde_json::Value;

fn pending(id: &str) -> Pending {
    Pending {
        id: id.to_string(),
        session_id: "s".to_string(),
        rule_id: "r".to_string(),
        tool_name: "t".to_string(),
        arguments: serde_json::from_str("{\"a\":[1]}").unwrap(),
        upstream: "u".to_string(),
        created_ms: 5,
    }
}

fn ids(infos: &[Pending]) -> Vec<String> {
    let mut ids: Vec<String> = infos.iter().map(|p| p.id.clone()).collect();
    ids.sort();
    ids
}

#[test]
fn nothing_waits_at_first() {
    let mut a: Approvals<u32> = Approvals::new();
    assert!(a.list().is_empty());
    assert!(a.decide("x", Decision::Approved).is_none());
}

#[test]
fn a_decision_reaches_its_waiter() {
    let mut a: Approvals<u32> = Approvals::new();
    a.register(pending("x"), 1);
    a.register(pending("y"), 2);
    let d = a.decide("x", Decision::Approved).unwrap();
    assert_eq!((d.sender, d.decision), (1, Decision::Approved));
    assert!(a.decide("x", Decision::Denied).is_none());
    let d = a.decide("y", Decision::TimedOut).unwrap();
    assert_eq!((d.sender, d.decision), (2, Decision::TimedOut));
}

#[test]
fn registering_again_takes_the_place() {
    let mut a: Approvals<u32> = Approvals::new();
    a.register(pending("x"), 1);
    a.register(pending("x"), 2);
    assert_eq!(a.list().len(), 1);
    assert_eq!(a.decide("x", Decision::Denied).unwrap().sender, 2);
    assert!(a.list().is_empty());
}

#[test]
fn lists_what_waits() {
    let mut a: Approvals<u32> = Approvals::new();
    for id in ["x", "y", "z"] {
        a.register(pending(id), 0);
    }
    a.decide("y", Decision::Denied);
    let infos = a.list();
    assert_eq!(ids(&infos), ["x", "z"]);
    let one = &infos[0];
    assert_eq!(one.session_id, "s");
    assert_eq!(one.rule_id, "r");
    assert_eq!(one.tool_name, "t");
    assert_eq!(one.arguments, serde_json::from_str::<Value>("{\"a\":[1]}").unwrap());
    assert_eq!(one.upstream, "u");
    assert_eq!(one.created_ms, 5);
}

#[test]
fn a_purged_call_is_not_decided() {
    let mut a: Approvals<u32> = Approvals::new();
    a.register(pending("x"), 1);
    a.register(pending("y"), 2);
    a.purge("x");
    a.purge("x");
    assert!(a.decide("x", Decision::Approved).is_none());
    assert_eq!(ids(&a.list()), ["y"]);
}

#[test]
fn shutdown_denies_everyone() {
    let mut a: Approvals<String> = Approvals::new();
    for id in ["x", "y", "z"] {
        a.register(pending(id), format!("sender of {}", id));
    }
    let (infos, deliveries) = a.shutdown_drain();
    assert_eq!(ids(&infos), ["x", "y", "z"]);
    assert_eq!(deliveries.len(), 3);
    for (info, d) in infos.iter().zip(deliveries.iter()) {
        assert_eq!(d.sender, format!("sender of {}", info.id));
        assert_eq!(d.decision, Decision::Denied);
    }
    assert!(a.list().is_empty());
    let (infos, deliveries) = a.shutdown_drain();
    assert!(infos.is_empty() && deliveries.is_empty());
}

#[test]
fn the_proxy_is_well() {
    assert_eq!(health(), "ok");
}

#[test]
fn approving_over_the_control_api() {
    let mut a: Approvals<u32> = Approvals::new();
    a.register(pending("x"), 9);
    let (reply, delivery) = approve(&mut a, "x");
    assert_eq!((reply.status, reply.body), (200, "approved"));
    let d = delivery.unwrap();
    assert_eq!((d.sender, d.decision), (9, Decision::Approved));
    let (reply, delivery) = approve(&mut a, "x");
    assert_eq!((reply.status, reply.body), (404, "not pending"));
    assert!(delivery.is_none());
}

#[test]
fn denying_over_the_control_api() {
    let mut a: Approvals<u32> = Approvals::new();
    a.register(pending("x"), 9);
    let (reply, delivery) = deny(&mut a, "z");
    assert_eq!((reply.status, reply.body), (404, "not pending"));
    assert!(delivery.is_none());
    let (reply, delivery) = deny(&mut a, "x");
    assert_eq!((reply.status, reply.body), (200, "denied"));
    let d = delivery.unwrap();
    assert_eq!((d.sender, d.decision), (9, Decision::Denied));
}

#[test]
fn listing_over_the_control_api() {
    let mut a: Approvals<u32> = Approvals::new();
    a.register(pending("x"), 9);
    a.register(pending("y"), 9);
    assert_eq!(ids(&list_pending(&a).pending), ["x", "y"]);
}
