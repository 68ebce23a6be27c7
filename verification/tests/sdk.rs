use morrow::sdk::{parse_player_list, LogLevel};

#[test]
fn parse_player_list_basic() {
    assert_eq!(
        parse_player_list("alice,bob,carol"),
        vec!["alice".to_string(), "bob".to_string(), "carol".to_string()]
    );
}

#[test]
fn parse_player_list_empty() {
    assert!(parse_player_list("").is_empty());
    assert_eq!(parse_player_list(",,,"), Vec::<String>::new());
}

#[test]
fn parse_player_list_single() {
    assert_eq!(parse_player_list("solo"), vec!["solo".to_string()]);
}

#[test]
fn log_level_encoding() {
    assert_eq!(LogLevel::Info.code(), 1);
    assert_eq!(LogLevel::Warn.code(), 2);
    assert_eq!(LogLevel::Error.code(), 3);
}

use morrow::sdk::{event_spec, ApiSlot, ArgSpec, CommandSlots, Context, FerrumError, COMMAND_SLOT_COUNT};

#[test]
fn parse_player_list_skips_empty_pieces() {
    assert_eq!(
        parse_player_list(",alice,,bob,"),
        vec!["alice".to_string(), "bob".to_string()]
    );
}

#[test]
fn command_slots_fill_in_order_and_reuse() {
    let mut slots: CommandSlots<u32> = CommandSlots::new();
    for i in 0..COMMAND_SLOT_COUNT {
        assert_eq!(slots.register_command_slot(i as u32), Some(i));
    }
    assert_eq!(slots.register_command_slot(99), None);
    slots.release_command_slot(5);
    assert_eq!(slots.handler(5), None);
    assert_eq!(slots.register_command_slot(77), Some(5));
    assert_eq!(slots.handler(5), Some(77));
}

#[test]
fn api_slot() {
    let mut slot: ApiSlot<u8> = ApiSlot::new();
    assert_eq!(slot.with_api(|a| a + 1), None);
    assert_eq!(slot.current_mod_name(), None);
    slot.store_api(4, "demo");
    assert_eq!(slot.with_api(|a| a + 1), Some(5));
    assert_eq!(slot.current_mod_name(), Some("demo"));
}

#[test]
fn context_from_api() {
    let c = Context::from_api(7u8, "demo");
    let d = c;
    assert_eq!(c.handle, 0);
    assert_eq!(d.api, 7);
    assert_eq!(d.mod_name, "demo");
}

#[test]
fn ferrum_error_text() {
    let e = FerrumError::new("boom");
    assert_eq!(e.message(), "boom");
    assert_eq!(e.describe(), "FerrumError: boom");
    let from_string: FerrumError = String::from("bad config").into();
    assert_eq!(from_string.message(), "bad config");
    assert_eq!(from_string.describe(), "FerrumError: bad config");
}

#[test]
fn event_specs() {
    let tick = event_spec("tick").unwrap();
    assert_eq!(tick.symbol, "morrow_mod_tick");
    assert!(tick.args == vec![ArgSpec::U64]);
    let chat = event_spec("chat_message").unwrap();
    assert_eq!(chat.symbol, "morrow_mod_chat_message");
    assert!(chat.args == vec![ArgSpec::Str, ArgSpec::Str]);
    let join = event_spec("player_join").unwrap();
    assert!(join.args == vec![ArgSpec::Str]);
    assert!(event_spec("server_stop").unwrap().args.is_empty());
    assert!(event_spec("explode").is_none());
}

use morrow::sdk::config_text;

#[test]
fn register_command_with_runtime_answer() {
    let mut slots: CommandSlots<u32> = CommandSlots::new();
    let mut asked = Vec::new();
    assert_eq!(
        slots.register_command_with("greet", 7, |idx| {
            asked.push(idx);
            0
        }),
        Ok(())
    );
    assert_eq!(slots.handler(0), Some(7));

    // The runtime refuses the name: the slot it was offered is freed again.
    assert_eq!(
        slots.register_command_with("greet", 8, |idx| {
            asked.push(idx);
            1
        }),
        Err("command '/greet' already registered".to_string())
    );
    assert_eq!(asked, vec![0, 1]);
    assert_eq!(slots.handler(1), None);

    for i in 1..COMMAND_SLOT_COUNT {
        assert_eq!(slots.register_command_with("c", i as u32, |_| 0), Ok(()));
    }
    let mut called = false;
    assert_eq!(
        slots.register_command_with("one_too_many", 99, |_| {
            called = true;
            0
        }),
        Err("command pool exhausted (max 64 commands per mod)".to_string())
    );
    assert!(!called);
}

#[test]
fn config_text_from_buffer() {
    let mut buf = [0u8; 16];
    assert_eq!(config_text(&buf, 0), None);
    buf[..7].copy_from_slice(b"a = \"\xff\"");
    assert_eq!(config_text(&buf, 7), Some("a = \"\u{fffd}\"".to_string()));
    buf[..5].copy_from_slice(b"x = 1");
    assert_eq!(config_text(&buf, 5), Some("x = 1".to_string()));
}

use morrow::sdk::read_str;

#[test]
fn read_str_null_is_empty() {
    assert_eq!(read_str(None), "");
}

#[test]
fn read_str_ok() {
    let bytes = b"hello";
    assert_eq!(read_str(Some(&bytes[..5])), "hello");
}

#[test]
fn read_str_bad_utf8() {
    assert_eq!(read_str(Some(b"\xff\xfe")), "<invalid utf-8>");
}
