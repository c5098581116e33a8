use liquid_core::codec::{decode_string, encode_string};
use liquid_core::dispatch::{selector_to_bytes, DispatchError};
use liquid_core::hash::HashFamily;
use liquid_core::hello::{dispatch_hello, hello_table, HelloWorld};
use liquid_core::off_chain::{EnvInstance, Terminal};
use liquid_core::selector::compute_selector;
use liquid_core::CallMode;

fn get_selector() -> u32 {
    compute_selector(HashFamily::Keccak256, "get", &Vec::new())
}

fn set_selector() -> u32 {
    compute_selector(HashFamily::Keccak256, "set", &vec!["string".to_string()])
}

#[test]
fn deploy_invokes_exactly_the_constructor() {
    let table = hello_table(HashFamily::Keccak256).unwrap();
    // Deploy-mode input is decoded as the constructor's tuple whatever it
    // holds — even bytes spelling a registered selector.
    let mut contract = HelloWorld { name: String::new() };
    let mut env = EnvInstance::new();
    let input = selector_to_bytes(get_selector());
    let r = dispatch_hello(&mut contract, &mut env, &table, CallMode::Deploy, &input);
    assert!(r.is_ok());
    assert_eq!(contract.get(), "Hello, World!");
    match env.terminal {
        Some(Terminal::Finished(payload)) => assert!(payload.is_empty()),
        _ => panic!("deploy must finish"),
    }
}

#[test]
fn call_routes_to_get_and_finishes_with_its_output() {
    let table = hello_table(HashFamily::Keccak256).unwrap();
    let mut contract = HelloWorld::new();
    let mut env = EnvInstance::new();
    let input = selector_to_bytes(get_selector());
    let r = dispatch_hello(&mut contract, &mut env, &table, CallMode::Call, &input);
    assert!(r.is_ok());
    match env.terminal {
        Some(Terminal::Finished(payload)) => {
            assert_eq!(decode_string(&payload).unwrap(), "Hello, World!");
        }
        _ => panic!("get must finish"),
    }
}

#[test]
fn call_routes_to_set_and_updates_state() {
    let table = hello_table(HashFamily::Keccak256).unwrap();
    let mut contract = HelloWorld::new();
    let mut env = EnvInstance::new();
    let mut input = selector_to_bytes(set_selector());
    input.extend_from_slice(&encode_string(&"Bye, world!".to_string()));
    let r = dispatch_hello(&mut contract, &mut env, &table, CallMode::Call, &input);
    assert!(r.is_ok());
    assert_eq!(contract.get(), "Bye, world!");
    match env.terminal {
        Some(Terminal::Finished(payload)) => assert!(payload.is_empty()),
        _ => panic!("set must finish"),
    }
}

#[test]
fn short_input_reverts_without_running_a_handler() {
    let table = hello_table(HashFamily::Keccak256).unwrap();
    let mut contract = HelloWorld::new();
    let mut env = EnvInstance::new();
    env.set_storage(&b"slot".to_vec(), &b"before".to_vec());
    let input = vec![0u8, 1, 2];
    let r = dispatch_hello(&mut contract, &mut env, &table, CallMode::Call, &input);
    assert_eq!(r.unwrap_err(), DispatchError::CouldNotReadInput);
    // The handler never ran and storage is untouched.
    assert_eq!(contract.get(), "Hello, World!");
    assert_eq!(env.get_storage(&b"slot".to_vec()).unwrap(), b"before".to_vec());
    match env.terminal {
        Some(Terminal::Reverted(payload)) => {
            assert_eq!(decode_string(&payload).unwrap(), "could not read input");
        }
        _ => panic!("short input must revert"),
    }
}

#[test]
fn unknown_selector_reverts() {
    let table = hello_table(HashFamily::Keccak256).unwrap();
    let mut contract = HelloWorld::new();
    let mut env = EnvInstance::new();
    let input = vec![0xde, 0xad, 0xbe, 0xef];
    let r = dispatch_hello(&mut contract, &mut env, &table, CallMode::Call, &input);
    assert_eq!(r.unwrap_err(), DispatchError::UnknownSelector);
    assert_eq!(contract.get(), "Hello, World!");
    match env.terminal {
        Some(Terminal::Reverted(payload)) => {
            assert_eq!(decode_string(&payload).unwrap(), "unknown selector");
        }
        _ => panic!("an unmatched selector must revert"),
    }
}

#[test]
fn undecodable_params_revert() {
    let table = hello_table(HashFamily::Keccak256).unwrap();
    let mut contract = HelloWorld::new();
    let mut env = EnvInstance::new();
    let mut input = selector_to_bytes(set_selector());
    // A compact length prefix promising far more bytes than follow.
    input.extend_from_slice(&[0xfd, 0xff, 0xff, 0xff]);
    let r = dispatch_hello(&mut contract, &mut env, &table, CallMode::Call, &input);
    assert_eq!(r.unwrap_err(), DispatchError::InvalidParams);
    assert_eq!(contract.get(), "Hello, World!");
    match env.terminal {
        Some(Terminal::Reverted(payload)) => {
            assert_eq!(decode_string(&payload).unwrap(), "invalid params");
        }
        _ => panic!("undecodable params must revert"),
    }
}

#[test]
fn codec_round_trips_and_is_no_identity() {
    let value = "Hello, World!".to_string();
    let encoded = encode_string(&value);
    // SCALE prefixes the compact length: 13 characters encode as 0x34.
    assert_eq!(encoded[0], 0x34);
    assert_eq!(encoded.len(), value.len() + 1);
    assert_ne!(encoded, value.clone().into_bytes());
    assert_eq!(decode_string(&encoded).unwrap(), value);
}
