use morrow::error::ErrorIds;
use morrow::host_api::WorldSnapshot;
use morrow::runtime::{ModAbi, ModExports, RuntimeKernel};

struct TestAbi;

impl ModAbi for TestAbi {
    type Loaded = &'static str;
    type Tick = u8;
    type OneStr = u16;
    type TwoStr = u32;
    type Hook = u64;
    type Command = u8;
    type Host = ();
}

fn exports(tick: Option<u8>, chat: Option<u32>, start: Option<u64>) -> ModExports<TestAbi> {
    ModExports {
        tick_callback: tick,
        server_start_callback: start,
        server_stop_callback: None,
        player_join_callback: None,
        player_leave_callback: None,
        chat_message_callback: chat,
        block_break_callback: None,
        block_place_callback: None,
        player_death_callback: None,
    }
}

#[test]
fn register_mod_fills_the_tables() {
    let mut k = RuntimeKernel::<TestAbi>::new(());
    let d = k.data_mut();
    d.register_mod("alpha", "lib-a", exports(Some(1), Some(2), Some(3)), Some(b"x = 1".to_vec()));
    d.register_mod("beta", "lib-b", exports(None, None, None), None);
    assert_eq!(d.registry.len(), 2);
    assert_eq!(d.registry.get("alpha"), Some(&"lib-a"));
    assert_eq!(d.dispatch.tick.len(), 1);
    assert_eq!(d.dispatch.tick.get("alpha"), Some(&1));
    assert_eq!(d.dispatch.events.chat_message.get("alpha"), Some(&2));
    assert!(d.dispatch.events.player_join.is_empty());
    assert_eq!(d.lifecycle.server_start.get("alpha"), Some(&3));
    assert!(d.lifecycle.server_stop.is_empty());
    assert_eq!(d.configs.get("alpha"), Some(b"x = 1".to_vec()));
    assert_eq!(d.configs.get("beta"), None);
}

#[test]
fn snapshot_reads_switch_the_refresh_on() {
    let mut k = RuntimeKernel::<TestAbi>::new(());
    let d = k.data_mut();
    assert!(!d.snapshot_wanted());
    assert_eq!(d.snapshot_player_count(), -1);
    assert!(d.snapshot_wanted());
    assert_eq!(d.snapshot_world_time(), -1);
    assert!(d.snapshot_player_list(64).is_empty());
    d.store_snapshot(WorldSnapshot {
        player_count: 2,
        world_time: 12345,
        player_names: vec!["alice".to_string(), "bob".to_string()],
    });
    assert_eq!(d.snapshot_player_count(), 2);
    assert_eq!(d.snapshot_world_time(), 12345);
    assert_eq!(d.snapshot_player_list(64), b"alice,bob".to_vec());
    assert_eq!(d.snapshot_player_list(4), b"alic".to_vec());
    assert_eq!(d.snapshot_consumers, 1);
}

#[test]
fn errors_are_recorded_per_runtime() {
    let mut k = RuntimeKernel::<TestAbi>::new(());
    let d = k.data_mut();
    let mut ids = ErrorIds::new();
    assert!(d.errors.has_room(&ids));
    let id = d.errors.push(&mut ids, "morrow_load_mod: bad".to_string());
    assert_eq!(d.errors.oldest_id(), id);
}

fn snapshot_bytes(names: &[&str], time: i64) -> Vec<u8> {
    let mut out: Vec<u8> = Vec::new();
    out.extend_from_slice(&(names.len() as u32).to_le_bytes());
    out.extend_from_slice(&time.to_le_bytes());
    for name in names {
        out.extend_from_slice(&(name.len() as u16).to_le_bytes());
        out.extend_from_slice(name.as_bytes());
    }
    out
}

#[test]
fn snapshot_reads_open_the_gate_and_serve_cached_data() {
    let mut k = RuntimeKernel::<TestAbi>::new(());
    let mut refreshes = 0;

    // No consumer has queried yet, so a tick skips the refresh.
    if k.data().snapshot_wanted() {
        refreshes += 1;
    }
    assert_eq!(refreshes, 0, "snapshot refresh must not run before anyone reads it");

    // First query: switches the refresh on, but the first refresh hasn't landed yet.
    assert_eq!(k.data_mut().snapshot_player_count(), -1);

    // Next tick: the refresh runs once and the cache serves all reads.
    if k.data().snapshot_wanted() {
        refreshes += 1;
        let snap = WorldSnapshot::parse(&snapshot_bytes(&["alice", "bob"], 12345)).unwrap();
        k.data_mut().store_snapshot(snap);
    }
    assert_eq!(refreshes, 1);
    let d = k.data_mut();
    assert_eq!(d.snapshot_player_count(), 2);
    assert_eq!(d.snapshot_world_time(), 12345);
    assert_eq!(d.snapshot_player_list(64), b"alice,bob".to_vec());

    // Reads never refresh: the cache keeps serving, one consumer recorded.
    for _ in 0..100 {
        d.snapshot_player_count();
    }
    assert_eq!(d.snapshot_consumers, 1);
    assert_eq!(refreshes, 1);
}
