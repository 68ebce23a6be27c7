use morrow::abi::{RESULT_ERR_WRONG_STATE, RESULT_OK};
use morrow::runtime::{ModAbi, RuntimeKernel, RuntimeState};

struct TestAbi;

impl ModAbi for TestAbi {
    type Loaded = ();
    type Tick = u8;
    type OneStr = u8;
    type TwoStr = u8;
    type Hook = u8;
    type Command = u8;
    type Host = ();
}

#[test]
fn test_valid_transitions() {
    assert!(RuntimeState::Ready.can_transition_to(RuntimeState::ShuttingDown));
    assert!(RuntimeState::ShuttingDown.can_transition_to(RuntimeState::Dead));
}

#[test]
fn test_invalid_transitions() {
    assert!(!RuntimeState::Ready.can_transition_to(RuntimeState::Dead));
    assert!(!RuntimeState::ShuttingDown.can_transition_to(RuntimeState::Ready));
    assert!(!RuntimeState::Dead.can_transition_to(RuntimeState::Ready));
    assert!(!RuntimeState::Dead.can_transition_to(RuntimeState::ShuttingDown));
}

#[test]
fn test_full_lifecycle() {
    let mut rt = RuntimeKernel::<TestAbi>::new(());
    assert_eq!(rt.state(), RuntimeState::Ready);

    assert!(rt.begin_shutdown().is_ok());
    assert_eq!(rt.state(), RuntimeState::ShuttingDown);

    assert!(rt.finish_shutdown().is_ok());
    assert_eq!(rt.state(), RuntimeState::Dead);
}

#[test]
fn test_double_shutdown_is_error() {
    let mut rt = RuntimeKernel::<TestAbi>::new(());
    rt.begin_shutdown().unwrap();
    rt.finish_shutdown().unwrap();
    assert!(rt.begin_shutdown().is_err());
}

#[test]
fn test_cycle_10_times() {
    for _ in 0..10 {
        let mut rt = RuntimeKernel::<TestAbi>::new(());
        rt.begin_shutdown().unwrap();
        rt.finish_shutdown().unwrap();
    }
}

#[test]
fn test_shutdown_drops_all_registries() {
    let rt = RuntimeKernel::<TestAbi>::new(());
    let data = rt.data();
    assert_eq!(data.registry.len(), 0);
    assert!(data.dispatch.events.player_join.is_empty());
    assert_eq!(data.dispatch.quarantined.len(), 0);
    assert!(!data.commands.dispatch("nope", "", |_cb, _args| {}));
}

#[test]
fn refused_transitions_report_the_current_state() {
    let mut rt = RuntimeKernel::<TestAbi>::new(());
    assert_eq!(rt.finish_shutdown(), Err(RuntimeState::Ready));
    assert_eq!(rt.state(), RuntimeState::Ready);
    rt.begin_shutdown().unwrap();
    assert_eq!(rt.begin_shutdown(), Err(RuntimeState::ShuttingDown));
    rt.finish_shutdown().unwrap();
    assert_eq!(rt.finish_shutdown(), Err(RuntimeState::Dead));
}

#[test]
fn state_names() {
    assert_eq!(RuntimeState::Ready.name(), "READY");
    assert_eq!(RuntimeState::ShuttingDown.name(), "SHUTTING_DOWN");
    assert_eq!(RuntimeState::Dead.name(), "DEAD");
}

#[test]
fn shutdown_answers_result_codes() {
    let mut k = RuntimeKernel::<TestAbi>::new(());
    assert_eq!(k.shutdown(), RESULT_OK);
    assert_eq!(k.state(), RuntimeState::Dead);
    assert_eq!(k.shutdown(), RESULT_ERR_WRONG_STATE);
    assert_eq!(k.state(), RuntimeState::Dead);
}
