use liquid_core::buffer::{StaticBuffer, SCRATCH_CAPACITY};
use liquid_core::calldata::build_call_data;
use liquid_core::env_access::EnvAccess;
use liquid_core::off_chain::{default_accounts, EnvInstance};
use liquid_core::on_chain;
use liquid_core::types::{Address, EnvError, ADDRESS_LENGTH};
use liquid_core::CallMode;

#[test]
fn storage_round_trip_on_the_simulated_backend() {
    let mut env = EnvInstance::new();
    let key = b"name".to_vec();
    let value = vec![1u8, 2, 3];
    env.set_storage(&key, &value);
    assert_eq!(env.get_storage(&key).unwrap(), value);
    // Overwriting wins.
    let value2 = vec![9u8];
    env.set_storage(&key, &value2);
    assert_eq!(env.get_storage(&key).unwrap(), value2);
}

#[test]
fn missing_and_removed_keys_cannot_be_read() {
    let mut env = EnvInstance::new();
    let key = b"gone".to_vec();
    assert_eq!(env.get_storage(&key).unwrap_err(), EnvError::UnableToReadFromStorage);
    env.set_storage(&key, &vec![5u8]);
    env.remove_storage(&key);
    assert_eq!(env.get_storage(&key).unwrap_err(), EnvError::UnableToReadFromStorage);
}

#[test]
fn context_stack_is_lifo() {
    let accounts = default_accounts();
    let mut env = EnvInstance::new();
    // Querying before any push fails loudly, never with a default.
    assert!(env.try_get_caller().is_none());
    assert!(env.try_current_exec_context().is_none());
    env.set_caller_callee(accounts.alice, accounts.bob);
    env.set_caller_callee(accounts.charlie, accounts.david);
    assert_eq!(env.get_caller(), accounts.charlie);
    env.pop_execution_context();
    assert_eq!(env.get_caller(), accounts.alice);
    assert_eq!(env.current_exec_context().callee, accounts.bob);
    env.pop_execution_context();
    assert!(env.try_get_caller().is_none());
    assert!(env.try_current_exec_context().is_none());
}

#[test]
fn env_access_reads_the_innermost_caller() {
    let accounts = default_accounts();
    let mut env = EnvInstance::new();
    env.set_caller(accounts.eve);
    let access = EnvAccess;
    assert_eq!(access.get_caller(&env), accounts.eve);
    // set_caller pushes a zero callee.
    assert_eq!(env.current_exec_context().callee, Address([0u8; ADDRESS_LENGTH]));
}

#[test]
fn blocks_start_at_zero() {
    let env = EnvInstance::new();
    assert_eq!(env.get_block_number(), 0);
    assert_eq!(env.now(), 0);
    assert_eq!(env.current_block().block_number(), 0);
}

#[test]
fn events_and_calls_are_recorded_in_order() {
    let accounts = default_accounts();
    let mut env = EnvInstance::new();
    env.emit(&vec![1u8], vec![vec![7u8; 32]]);
    env.emit(&vec![2u8], Vec::new());
    let events = env.get_events();
    assert_eq!(events.len(), 2);
    assert_eq!(events[0].data, vec![1u8]);
    assert_eq!(events[0].topics.len(), 1);
    assert_eq!(events[1].data, vec![2u8]);
    let returned = env.call(&accounts.frank, &vec![3u8, 4]).unwrap();
    assert!(returned.is_empty());
    assert_eq!(env.calls.len(), 1);
    assert_eq!(env.calls[0].callee, accounts.frank);
    assert_eq!(env.calls[0].data, vec![3u8, 4]);
}

#[test]
fn scratch_buffer_reports_exactly_the_loaded_length() {
    let mut buffer = StaticBuffer::new();
    assert_eq!(buffer.len(), 0);
    assert!(buffer.load(&vec![1u8, 2, 3]));
    assert_eq!(buffer.len(), 3);
    assert_eq!(buffer.to_vec(), vec![1u8, 2, 3]);
    // A shorter load leaves no stale bytes behind.
    assert!(buffer.load(&vec![9u8]));
    assert_eq!(buffer.len(), 1);
    assert_eq!(buffer.to_vec(), vec![9u8]);
}

#[test]
fn scratch_buffer_refuses_payloads_over_capacity() {
    let mut buffer = StaticBuffer::new();
    assert!(buffer.load(&vec![5u8, 6]));
    let oversized = vec![0u8; SCRATCH_CAPACITY + 1];
    assert!(!StaticBuffer::fits(oversized.len()));
    assert!(!buffer.load(&oversized));
    // Refused unchanged: the caller must take the heap path.
    assert_eq!(buffer.to_vec(), vec![5u8, 6]);
}

#[test]
fn scratch_buffer_appends_and_clears() {
    let mut buffer = StaticBuffer::new();
    assert!(buffer.append(&vec![1u8, 2]));
    assert!(buffer.append(&vec![3u8]));
    assert_eq!(buffer.to_vec(), vec![1u8, 2, 3]);
    assert_eq!(buffer.read(2), 3);
    buffer.set(0, 9);
    assert_eq!(buffer.to_vec(), vec![9u8, 2, 3]);
    buffer.clear();
    assert_eq!(buffer.len(), 0);
    let oversized = vec![0u8; SCRATCH_CAPACITY + 1];
    assert!(!buffer.append(&oversized));
    assert_eq!(buffer.len(), 0);
}

#[test]
fn buffer_resize_keeps_the_common_prefix() {
    let mut buffer = StaticBuffer::new();
    assert!(buffer.load(&vec![1u8, 2, 3, 4]));
    buffer.resize(2);
    assert_eq!(buffer.to_vec(), vec![1u8, 2]);
}

#[test]
fn host_env_buffer_follows_the_reported_byte_count() {
    let mut env = on_chain::EnvInstance::new();
    assert!(env.load_host_bytes(&vec![1u8, 2, 3]));
    assert_eq!(env.buffer_bytes(), vec![1u8, 2, 3]);
    env.reset_buffer();
    assert!(env.buffer_bytes().is_empty());
}

#[test]
fn host_return_codes_are_interpreted() {
    assert_eq!(on_chain::interpret_storage_probe(0).unwrap_err(), EnvError::UnableToReadFromStorage);
    assert_eq!(on_chain::interpret_storage_probe(7).unwrap(), 7);
    assert!(on_chain::check_call_status(0).is_ok());
    assert_eq!(
        on_chain::check_call_status(1).unwrap_err(),
        EnvError::FailToCallRemoteContract
    );
    assert!(on_chain::use_scratch_path(16));
    assert!(!on_chain::use_scratch_path((SCRATCH_CAPACITY as u32) + 1));
}

#[test]
fn addresses_come_back_from_their_byte_image() {
    let mut bytes = vec![0u8; ADDRESS_LENGTH];
    bytes[0] = 0xab;
    let addr = on_chain::address_from_bytes(&bytes).unwrap();
    assert_eq!(addr.0[0], 0xab);
    assert!(on_chain::address_from_bytes(&vec![1u8, 2]).is_none());
}

#[test]
fn call_data_splits_by_mode() {
    let raw = vec![1u8, 2, 3, 4, 5, 6];
    let call = build_call_data(CallMode::Call, &raw).unwrap();
    assert_eq!(call.selector, 0x01020304);
    assert_eq!(call.data, vec![5u8, 6]);
    let deploy = build_call_data(CallMode::Deploy, &raw).unwrap();
    assert_eq!(deploy.selector, 0);
    assert_eq!(deploy.data, raw);
    let short = vec![1u8, 2, 3];
    match build_call_data(CallMode::Call, &short) {
        Err(e) => assert_eq!(e, EnvError::UnableToReadCallData),
        Ok(_) => panic!("short call-mode input must be refused"),
    }
    assert_eq!(build_call_data(CallMode::Deploy, &short).unwrap().data, short);
}
