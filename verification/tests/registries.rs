use morrow::error::{ErrorChannel, ErrorIds};
use morrow::host_api::{CommandRegistry, ConfigStore, Outbound, Outbox};
use morrow::names::{NameMap, NameSet};

#[test]
fn name_map_keeps_first_insertion_order() {
    let mut m: NameMap<u32> = NameMap::new();
    m.insert("b".to_string(), 1);
    m.insert("a".to_string(), 2);
    m.insert("b".to_string(), 3);
    assert_eq!(m.len(), 2);
    assert_eq!(m.key_at(0), "b");
    assert_eq!(*m.value_at(0), 3);
    assert_eq!(m.get("a"), Some(&2));
    assert_eq!(m.find("zz"), None);
    m.clear();
    assert!(m.is_empty());
}

#[test]
fn name_set_counts_distinct_names() {
    let mut s = NameSet::new();
    s.insert("x".to_string());
    s.insert("x".to_string());
    s.insert("y".to_string());
    assert_eq!(s.len(), 2);
    assert!(s.contains("y"));
}

#[test]
fn error_channel_is_fifo_and_take_consumes() {
    let mut ids = ErrorIds::new();
    let mut c = ErrorChannel::new();
    assert_eq!(c.oldest_id(), 0);
    assert!(c.peek().is_none());
    assert!(c.has_room(&ids));
    let a = c.push(&mut ids, "first".to_string());
    let b = c.push(&mut ids, "second".to_string());
    assert_eq!(a, 1);
    assert_eq!(b, 2);
    assert_eq!(c.oldest_id(), a);
    assert_eq!(c.peek().unwrap().message, "first");
    let taken = c.take(b).unwrap();
    assert_eq!(taken.id, b);
    assert_eq!(taken.message, "second");
    assert!(c.take(b).is_none());
    assert_eq!(c.len(), 1);
    assert!(c.take(99).is_none());
    assert_eq!(c.take(a).unwrap().message, "first");
    assert_eq!(c.len(), 0);
    assert_eq!(c.push(&mut ids, "third".to_string()), 3);
}

#[test]
fn error_ids_are_unique_across_channels() {
    let mut ids = ErrorIds::new();
    let mut first = ErrorChannel::new();
    let mut second = ErrorChannel::new();
    let a = first.push(&mut ids, "runtime one".to_string());
    assert!(second.has_room(&ids));
    let b = second.push(&mut ids, "runtime two".to_string());
    let c = first.push(&mut ids, "runtime one again".to_string());
    assert_eq!((a, b, c), (1, 2, 3));
    // Each channel only knows its own ids.
    assert!(second.take(a).is_none());
    assert!(first.take(b).is_none());
    assert_eq!(second.take(b).unwrap().message, "runtime two");
    // A channel that fell behind its counter is refused until it catches up.
    let mut stale = ErrorIds::new();
    assert!(!first.has_room(&stale));
    for _ in 0..3 {
        let mut scratch = ErrorChannel::new();
        scratch.push(&mut stale, String::new());
    }
    assert!(first.has_room(&stale));
}

#[test]
fn config_store_round_trip() {
    let mut s = ConfigStore::new();
    assert!(s.get("m").is_none());
    s.insert("m", b"greeting = 1".to_vec());
    assert_eq!(s.get("m"), Some(b"greeting = 1".to_vec()));
    s.insert("m", b"x".to_vec());
    assert_eq!(s.get("m"), Some(b"x".to_vec()));
}

#[test]
fn duplicate_command_is_refused() {
    let mut r: CommandRegistry<u32> = CommandRegistry::new();
    assert_eq!(r.register("ping", 1), Ok(()));
    assert_eq!(
        r.register("ping", 2),
        Err("command '/ping' already registered by another mod".to_string())
    );
    assert_eq!(r.lookup("ping"), Some(1));
    assert_eq!(r.lookup("pong"), None);
    let mut seen = None;
    assert!(r.dispatch("ping", "hello", |cb, args| seen = Some((cb, args.to_string()))));
    assert_eq!(seen, Some((1, "hello".to_string())));
    assert!(!r.dispatch("pong", "", |_, _| {}));
}

#[test]
fn outbox_delivers_in_order() {
    let mut o = Outbox::new();
    o.queue_message("early");
    o.queue_command("say hi");
    o.queue_message("hi");
    assert_eq!(o.len(), 3);
    let items = o.take_all();
    assert_eq!(o.len(), 0);
    let texts: Vec<String> = items
        .into_iter()
        .map(|i| match i {
            Outbound::Message(m) => format!("msg:{m}"),
            Outbound::Command(c) => format!("cmd:{c}"),
        })
        .collect();
    assert_eq!(texts, vec!["msg:early", "cmd:say hi", "msg:hi"]);
}

#[test]
fn outbox_routes_by_thread() {
    let mut o = Outbox::new();
    assert!(o.route_message(true, "now"));
    assert!(o.route_command(true, "time set day"));
    assert_eq!(o.len(), 0);
    assert!(!o.route_message(false, "later"));
    assert!(!o.route_command(false, "weather clear"));
    assert_eq!(o.len(), 2);
    let items = o.take_all();
    assert!(matches!(&items[0], Outbound::Message(m) if m == "later"));
    assert!(matches!(&items[1], Outbound::Command(c) if c == "weather clear"));
}
