use morrow::host_api::WorldSnapshot;

fn write_snapshot(names: &[&str], count: u32, time: i64) -> Vec<u8> {
    let mut out: Vec<u8> = Vec::new();
    out.extend_from_slice(&count.to_le_bytes());
    out.extend_from_slice(&time.to_le_bytes());
    for name in names {
        out.extend_from_slice(&(name.len() as u16).to_le_bytes());
        out.extend_from_slice(name.as_bytes());
    }
    out
}

#[test]
fn parse_reads_header_and_names() {
    let data = write_snapshot(&["alice", "bob"], 2, 12345);
    let snap = WorldSnapshot::parse(&data).unwrap();
    assert_eq!(snap.player_count, 2);
    assert_eq!(snap.world_time, 12345);
    assert_eq!(snap.player_names, vec!["alice".to_string(), "bob".to_string()]);
}

#[test]
fn parse_refuses_a_short_header() {
    assert!(WorldSnapshot::parse(&[0u8; 11]).is_none());
    assert!(WorldSnapshot::parse(&[0u8; 12]).is_some());
}

#[test]
fn negative_world_time() {
    let data = write_snapshot(&[], 0, -5);
    assert_eq!(WorldSnapshot::parse(&data).unwrap().world_time, -5);
}

#[test]
fn names_that_do_not_fit_end_the_list() {
    let mut data = write_snapshot(&["alice", "bob"], 3, 1);
    data.truncate(data.len() - 1);
    let snap = WorldSnapshot::parse(&data).unwrap();
    assert_eq!(snap.player_count, 3);
    assert_eq!(snap.player_names, vec!["alice".to_string()]);
}

#[test]
fn invalid_utf8_is_replaced() {
    let mut data = write_snapshot(&[], 1, 0);
    data.extend_from_slice(&2u16.to_le_bytes());
    data.extend_from_slice(&[0xff, 0x41]);
    let snap = WorldSnapshot::parse(&data).unwrap();
    assert_eq!(snap.player_names, vec!["\u{fffd}A".to_string()]);
}
