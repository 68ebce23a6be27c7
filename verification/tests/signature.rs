use morrow::sdk::ArgSpec;
use morrow::signature::{
    check_event_handler, check_mod_main, is_path_named, is_reference_to, returns_unit, EntryError,
    FnShape, HandlerError, ParamShape, ReturnShape, TypeShape,
};

fn path(segs: &[&str]) -> TypeShape {
    TypeShape::Path(segs.iter().map(|s| s.to_string()).collect())
}

fn reference(segs: &[&str]) -> TypeShape {
    TypeShape::Reference(Box::new(path(segs)))
}

fn pointer(segs: &[&str]) -> TypeShape {
    TypeShape::Pointer(Box::new(path(segs)))
}

fn typed(t: TypeShape) -> ParamShape {
    ParamShape::Typed(t)
}

fn header(inputs: Vec<ParamShape>, output: ReturnShape) -> FnShape {
    FnShape { generic: false, inputs, output }
}

fn returns_result() -> ReturnShape {
    ReturnShape::Type(path(&["Result"]))
}

fn returns_nothing() -> ReturnShape {
    ReturnShape::Default
}

#[test]
fn path_and_reference_checks_look_at_the_last_segment() {
    assert!(is_path_named(&path(&["morrow", "Context"]), "Context"));
    assert!(!is_path_named(&path(&["Context", "Inner"]), "Context"));
    assert!(!is_path_named(&path(&[]), "Context"));
    assert!(!is_path_named(&reference(&["Context"]), "Context"));
    assert!(is_reference_to(&reference(&["str"]), "str"));
    assert!(!is_reference_to(&path(&["str"]), "str"));
    assert!(!is_reference_to(&pointer(&["str"]), "str"));
}

#[test]
fn unit_return_forms() {
    assert!(returns_unit(&header(vec![], ReturnShape::Default)));
    assert!(returns_unit(&header(vec![], ReturnShape::Type(TypeShape::Tuple(0)))));
    assert!(!returns_unit(&header(vec![], ReturnShape::Type(TypeShape::Tuple(2)))));
    assert!(!returns_unit(&header(vec![], ReturnShape::Type(path(&["u32"])))));
}

#[test]
fn mod_main_recommended_form() {
    let sig = header(vec![typed(reference(&["Context"]))], returns_result());
    assert_eq!(check_mod_main(&sig), Ok(false));
    let qualified = header(
        vec![typed(reference(&["morrow", "Context"]))],
        ReturnShape::Type(path(&["std", "result", "Result"])),
    );
    assert_eq!(check_mod_main(&qualified), Ok(false));
}

#[test]
fn mod_main_legacy_form() {
    let sig = header(
        vec![typed(reference(&["Context"])), typed(pointer(&["RuntimeApi"]))],
        returns_result(),
    );
    assert_eq!(check_mod_main(&sig), Ok(true));
}

#[test]
fn mod_main_rejections_in_order() {
    let method = FnShape {
        generic: true,
        inputs: vec![ParamShape::Receiver],
        output: returns_nothing(),
    };
    assert_eq!(check_mod_main(&method), Err(EntryError::Method));

    let generic = FnShape {
        generic: true,
        inputs: vec![typed(reference(&["Context"]))],
        output: returns_result(),
    };
    assert_eq!(check_mod_main(&generic), Err(EntryError::Generic));

    assert_eq!(check_mod_main(&header(vec![], returns_result())), Err(EntryError::Arity(0)));
    let three = header(
        vec![
            typed(reference(&["Context"])),
            typed(pointer(&["RuntimeApi"])),
            typed(path(&["u64"])),
        ],
        returns_result(),
    );
    assert_eq!(check_mod_main(&three), Err(EntryError::Arity(3)));

    let by_value = header(vec![typed(path(&["Context"]))], returns_result());
    assert_eq!(check_mod_main(&by_value), Err(EntryError::ContextArg));

    let wrong_api = header(
        vec![typed(reference(&["Context"])), typed(reference(&["RuntimeApi"]))],
        returns_result(),
    );
    assert_eq!(check_mod_main(&wrong_api), Err(EntryError::RuntimeApiArg));

    let self_second = header(
        vec![typed(reference(&["Context"])), ParamShape::Receiver],
        returns_result(),
    );
    assert_eq!(check_mod_main(&self_second), Err(EntryError::RuntimeApiArg));

    let no_result = header(vec![typed(reference(&["Context"]))], returns_nothing());
    assert_eq!(check_mod_main(&no_result), Err(EntryError::ReturnType));
}

#[test]
fn mod_main_messages() {
    assert_eq!(
        EntryError::Arity(3).message(),
        "#[morrow::mod_main] function must take `&mut Context` (or legacy `&mut Context, *const RuntimeApi`), found 3 arguments"
    );
    assert_eq!(
        EntryError::Arity(12).message(),
        "#[morrow::mod_main] function must take `&mut Context` (or legacy `&mut Context, *const RuntimeApi`), found 12 arguments"
    );
    assert_eq!(
        EntryError::Method.message(),
        "#[morrow::mod_main] cannot be used on a method (no `self`)"
    );
    assert_eq!(
        EntryError::ContextArg.message(),
        "#[morrow::mod_main] first argument must be `&mut Context`"
    );
    assert_eq!(
        EntryError::RuntimeApiArg.message(),
        "#[morrow::mod_main] second argument must be `*const RuntimeApi`"
    );
    assert_eq!(
        EntryError::ReturnType.message(),
        "#[morrow::mod_main] function must return `Result<(), MorrowError>`"
    );
    assert_eq!(
        EntryError::Generic.message(),
        "#[morrow::mod_main] function must not be generic"
    );
}

#[test]
fn event_handler_accepted_forms() {
    let tick = header(vec![typed(path(&["u64"]))], returns_nothing());
    let spec = check_event_handler("tick", &tick).ok().unwrap();
    assert_eq!(spec.symbol, "morrow_mod_tick");
    assert_eq!(spec.args, vec![ArgSpec::U64]);

    let start = header(vec![], ReturnShape::Type(TypeShape::Tuple(0)));
    let spec = check_event_handler("server_start", &start).ok().unwrap();
    assert_eq!(spec.symbol, "morrow_mod_server_start");
    assert!(spec.args.is_empty());

    let death = header(
        vec![typed(reference(&["str"])), typed(reference(&["str"]))],
        returns_nothing(),
    );
    let spec = check_event_handler("player_death", &death).ok().unwrap();
    assert_eq!(spec.symbol, "morrow_mod_player_death");
    assert_eq!(spec.args, vec![ArgSpec::Str, ArgSpec::Str]);
}

#[test]
fn event_handler_rejections() {
    let any = header(vec![], returns_nothing());
    assert_eq!(check_event_handler("explode", &any).err(), Some(HandlerError::UnknownKind));

    let generic = FnShape { generic: true, inputs: vec![ParamShape::Receiver], output: returns_nothing() };
    assert_eq!(check_event_handler("tick", &generic).err(), Some(HandlerError::Generic));

    let method = header(vec![ParamShape::Receiver], returns_nothing());
    assert_eq!(check_event_handler("tick", &method).err(), Some(HandlerError::Method));

    let two = header(
        vec![typed(reference(&["str"])), typed(reference(&["str"]))],
        returns_nothing(),
    );
    assert_eq!(
        check_event_handler("player_join", &two).err(),
        Some(HandlerError::Arity { expected: 1, found: 2 })
    );

    let mixed = header(vec![typed(reference(&["str"])), typed(path(&["u64"]))], returns_nothing());
    assert_eq!(
        check_event_handler("chat_message", &mixed).err(),
        Some(HandlerError::Arg { index: 1, want: ArgSpec::Str })
    );

    let tick_by_ref = header(vec![typed(reference(&["u64"]))], returns_nothing());
    assert_eq!(
        check_event_handler("tick", &tick_by_ref).err(),
        Some(HandlerError::Arg { index: 0, want: ArgSpec::U64 })
    );

    let returns_value = header(vec![], ReturnShape::Type(path(&["u32"])));
    assert_eq!(
        check_event_handler("server_stop", &returns_value).err(),
        Some(HandlerError::ReturnType)
    );
}

#[test]
fn event_handler_messages() {
    assert_eq!(
        HandlerError::UnknownKind.message("explode"),
        "unknown event kind 'explode'; expected one of: tick, server_start, server_stop, player_join, player_leave, chat_message, block_break, block_place, player_death"
    );
    assert_eq!(
        HandlerError::Arity { expected: 1, found: 2 }.message("player_join"),
        "#[morrow::event(player_join)] expects 1 argument(s), found 2"
    );
    assert_eq!(
        HandlerError::Arg { index: 1, want: ArgSpec::Str }.message("chat_message"),
        "#[morrow::event(chat_message)] argument 2 must be `&str`"
    );
    assert_eq!(
        HandlerError::Arg { index: 0, want: ArgSpec::U64 }.message("tick"),
        "#[morrow::event(tick)] argument 1 must be `u64`"
    );
    assert_eq!(
        HandlerError::Generic.message("tick"),
        "#[morrow::event(tick)] handler must not be generic"
    );
    assert_eq!(
        HandlerError::Method.message("tick"),
        "#[morrow::event(tick)] cannot be used on a method (no `self`)"
    );
    assert_eq!(
        HandlerError::ReturnType.message("server_stop"),
        "#[morrow::event(server_stop)] handler must return `()`"
    );
}
