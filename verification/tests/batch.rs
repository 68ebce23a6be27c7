use morrow::batch::{decode_batch, plan_batch, plan_tick, quarantine_panicked, BatchEvent, Span};
use morrow::host_api::DispatchTables;

struct Ev {
    kind: u16,
    f1: Vec<u8>,
    f2: Vec<u8>,
}

fn build_batch(events: &[Ev]) -> Vec<u8> {
    let mut data = Vec::new();
    data.extend_from_slice(&(events.len() as u32).to_le_bytes());
    for e in events {
        data.extend_from_slice(&e.kind.to_le_bytes());
        data.extend_from_slice(&(e.f1.len() as u16).to_le_bytes());
        data.extend_from_slice(&(e.f2.len() as u16).to_le_bytes());
        data.extend_from_slice(&e.f1);
        data.extend_from_slice(&e.f2);
    }
    data
}

fn ev(kind: u16, f1: &[u8], f2: &[u8]) -> Ev {
    Ev { kind, f1: f1.to_vec(), f2: f2.to_vec() }
}

fn text(data: &[u8], s: Span) -> &str {
    std::str::from_utf8(&data[s.start..s.start + s.len]).unwrap()
}

#[test]
fn all_seven_kinds_decode_in_order() {
    let data = build_batch(&[
        ev(0, &42u64.to_le_bytes(), b""),
        ev(1, b"alice", b""),
        ev(2, b"dave", b""),
        ev(3, b"bob", b"hi"),
        ev(4, b"carol", b"stone"),
        ev(5, b"carol", b"dirt"),
        ev(6, b"erin", b""),
    ]);
    let events = decode_batch(&data);
    assert_eq!(events.len(), 7);
    assert!(matches!(events[0], BatchEvent::Tick { tick: 42 }));
    match events[1] {
        BatchEvent::PlayerJoin { player } => assert_eq!(text(&data, player), "alice"),
        _ => panic!("expected join"),
    }
    match events[2] {
        BatchEvent::PlayerLeave { player } => assert_eq!(text(&data, player), "dave"),
        _ => panic!("expected leave"),
    }
    match events[3] {
        BatchEvent::ChatMessage { player, message } => {
            assert_eq!(text(&data, player), "bob");
            assert_eq!(text(&data, message), "hi");
        }
        _ => panic!("expected chat"),
    }
    match events[4] {
        BatchEvent::BlockBreak { player, block } => {
            assert_eq!(text(&data, player), "carol");
            assert_eq!(text(&data, block), "stone");
        }
        _ => panic!("expected break"),
    }
    match events[5] {
        BatchEvent::BlockPlace { player, block } => {
            assert_eq!(text(&data, player), "carol");
            assert_eq!(text(&data, block), "dirt");
        }
        _ => panic!("expected place"),
    }
    match events[6] {
        BatchEvent::PlayerDeath { player } => assert_eq!(text(&data, player), "erin"),
        _ => panic!("expected death"),
    }
}

#[test]
fn short_buffer_has_no_events() {
    assert!(decode_batch(&[]).is_empty());
    assert!(decode_batch(&[1, 0, 0]).is_empty());
}

#[test]
fn unknown_kinds_are_skipped() {
    let data = build_batch(&[ev(9, b"xx", b"yyy"), ev(1, b"zed", b"")]);
    let events = decode_batch(&data);
    assert_eq!(events.len(), 1);
    match events[0] {
        BatchEvent::PlayerJoin { player } => assert_eq!(text(&data, player), "zed"),
        _ => panic!("expected join"),
    }
}

#[test]
fn count_limits_the_events_read() {
    let mut data = build_batch(&[ev(1, b"a", b""), ev(1, b"b", b"")]);
    data[0] = 1;
    assert_eq!(decode_batch(&data).len(), 1);
}

#[test]
fn truncated_payload_ends_the_batch() {
    let mut data = build_batch(&[ev(3, b"bob", b"hello")]);
    data.truncate(data.len() - 2);
    assert!(decode_batch(&data).is_empty());
    let mut tick = build_batch(&[ev(0, &7u64.to_le_bytes(), b"")]);
    tick.truncate(tick.len() - 1);
    assert!(decode_batch(&tick).is_empty());
}

#[test]
fn plan_skips_quarantined_mods() {
    let mut tables: DispatchTables<u8, u8, u8> = DispatchTables::new();
    tables.tick.insert("a".to_string(), 1);
    tables.tick.insert("b".to_string(), 2);
    tables.events.player_join.insert("b".to_string(), 3);
    quarantine_panicked(&mut tables, &["a".to_string()]);

    let data = build_batch(&[ev(0, &5u64.to_le_bytes(), b""), ev(1, b"p", b"")]);
    let events = decode_batch(&data);
    let plan = plan_batch(&tables, &events);
    assert_eq!(plan.len(), 2);
    assert_eq!(plan[0].mod_name, "b");
    assert_eq!(plan[0].index, 1);
    assert!(matches!(plan[0].event, BatchEvent::Tick { tick: 5 }));
    assert_eq!(plan[1].mod_name, "b");
    assert_eq!(plan[1].index, 0);
    assert!(matches!(plan[1].event, BatchEvent::PlayerJoin { .. }));

    // The single-tick entry skips quarantined mods too.
    let single = plan_tick(&tables, 9);
    assert_eq!(single.len(), 1);
    assert_eq!(single[0].mod_name, "b");
    assert_eq!(single[0].index, 1);
    assert!(matches!(single[0].event, BatchEvent::Tick { tick: 9 }));
}

#[test]
fn quarantine_accumulates() {
    let mut tables: DispatchTables<u8, u8, u8> = DispatchTables::new();
    quarantine_panicked(&mut tables, &["x".to_string()]);
    quarantine_panicked(&mut tables, &["y".to_string(), "x".to_string()]);
    assert_eq!(tables.quarantined.len(), 2);
    assert!(tables.quarantined.contains("x"));
    assert!(tables.quarantined.contains("y"));
    assert!(!tables.quarantined.contains("z"));
}
