use sabiden::ids::{CallId, DialogId, IpAddr, PlanId, ResponderId, SocketAddr};
use sabiden::registry::{OutboundCallEntry, OutboundCallRegistry, PendingOutbound};

fn entry(ext: &str, ngn: &str, aor: &str, n: u64) -> OutboundCallEntry {
    OutboundCallEntry {
        ext_call_id: ext.to_string(),
        ngn_call_id: ngn.to_string(),
        from_aor: aor.to_string(),
        ext_dialog: DialogId(n),
        ngn_dialog: DialogId(n + 100),
        ext_responder: ResponderId(n),
        ext_remote: SocketAddr {
            ip: IpAddr::V4(0xc0a8_1401),
            port: 5060,
        },
        bridge_call_id: Some(CallId(n)),
    }
}

#[test]
fn outbound_registry_lookup_by_either_call_id() {
    let mut registry = OutboundCallRegistry::new();
    registry.insert_pending(PendingOutbound {
        ext_call_id: "ext-cid".to_string(),
        invite_plan: PlanId(1),
        ext_responder: ResponderId(2),
    });
    let got = registry.get_pending("ext-cid").expect("pending");
    assert_eq!(got.ext_call_id, "ext-cid");
    let taken = registry.take_pending("ext-cid").expect("pending");
    assert_eq!(taken.ext_call_id, "ext-cid");
    assert_eq!((taken.invite_plan, taken.ext_responder), (PlanId(1), ResponderId(2)));
    assert!(registry.get_pending("ext-cid").is_none());
    assert!(registry.take_pending("ext-cid").is_none());
}

#[test]
fn confirmed_call_is_found_and_removed_from_either_side() {
    let mut registry = OutboundCallRegistry::new();
    registry.insert_confirmed(entry("e1", "n1", "iphone", 1));
    registry.insert_confirmed(entry("e2", "n2", "iphone", 2));
    assert_eq!(registry.lookup_by_ext("e1").unwrap().ext_dialog, DialogId(1));
    assert_eq!(registry.lookup_by_ngn("n2").unwrap().ext_dialog, DialogId(2));
    assert!(registry.lookup_by_ext("n1").is_none());
    assert!(registry.lookup_by_ngn("e1").is_none());

    assert_eq!(registry.remove_by_ext("e1").unwrap().ngn_call_id, "n1");
    assert!(registry.lookup_by_ngn("n1").is_none());
    assert!(registry.remove_by_ngn("n1").is_none());
    assert_eq!(registry.remove_by_ngn("n2").unwrap().ext_call_id, "e2");
    assert!(registry.lookup_by_ext("e2").is_none());
    assert!(registry.remove_by_ext("e2").is_none());
}

#[test]
fn draining_takes_the_calls_of_one_extension() {
    let mut registry = OutboundCallRegistry::new();
    registry.insert_confirmed(entry("e1", "n1", "iphone", 1));
    registry.insert_confirmed(entry("e2", "n2", "desk", 2));
    registry.insert_confirmed(entry("e3", "n3", "iphone", 3));
    let mut ids: Vec<String> = registry
        .drain_by_aor("iphone")
        .into_iter()
        .map(|e| e.ext_call_id)
        .collect();
    ids.sort();
    assert_eq!(ids, vec!["e1".to_string(), "e3".to_string()]);
    assert!(registry.lookup_by_ngn("n1").is_none());
    assert!(registry.lookup_by_ngn("n3").is_none());
    assert_eq!(registry.lookup_by_ngn("n2").unwrap().ext_call_id, "e2");
    assert!(registry.drain_by_aor("iphone").is_empty());
}
