use liquid_core::dispatch::{
    route, selector_to_bytes, BuildError, Decision, DispatchError, DispatchRetInfo, DispatchTable,
    DispatchTableBuilder,
};
use liquid_core::hash::HashFamily;
use liquid_core::CallMode;

fn args(names: &[&str]) -> Vec<String> {
    names.iter().map(|n| n.to_string()).collect()
}

fn transfer_table(family: HashFamily) -> (DispatchTable, usize, usize) {
    let mut builder = DispatchTableBuilder::new(family);
    builder.register_constructor().unwrap();
    let one = builder.register_external("transfer", args(&["address"]), true);
    let two = builder.register_external("transfer", args(&["address", "uint256"]), true);
    let table = match builder.done() {
        Ok(t) => t,
        Err(_) => panic!("the two transfer overloads must not collide"),
    };
    (table, one, two)
}

#[test]
fn distinct_methods_build_distinct_selectors() {
    for family in [HashFamily::Keccak256, HashFamily::Sm3] {
        let mut builder = DispatchTableBuilder::new(family);
        builder.register_constructor().unwrap();
        builder.register_external("get", args(&[]), false);
        builder.register_external("set", args(&["string"]), true);
        builder.register_external("transfer", args(&["address"]), true);
        builder.register_external("transfer", args(&["address", "uint256"]), true);
        assert!(builder.done().is_ok());
    }
}

#[test]
fn duplicated_signature_fails_at_build_time() {
    for family in [HashFamily::Keccak256, HashFamily::Sm3] {
        let mut builder = DispatchTableBuilder::new(family);
        builder.register_constructor().unwrap();
        builder.register_external("transfer", args(&["address"]), true);
        builder.register_external("transfer", args(&["address"]), false);
        match builder.done() {
            Err(e) => assert_eq!(e, BuildError::DuplicateSelector),
            Ok(_) => panic!("a duplicated signature must fail at build time"),
        }
    }
}

#[test]
fn missing_constructor_fails_at_build_time() {
    let mut builder = DispatchTableBuilder::new(HashFamily::Keccak256);
    builder.register_external("get", args(&[]), false);
    match builder.done() {
        Err(e) => assert_eq!(e, BuildError::MissingConstructor),
        Ok(_) => panic!("a table without a constructor must fail at build time"),
    }
}

#[test]
fn second_constructor_is_refused() {
    let mut builder = DispatchTableBuilder::new(HashFamily::Keccak256);
    builder.register_constructor().unwrap();
    assert_eq!(
        builder.register_constructor().unwrap_err(),
        BuildError::ConstructorAlreadyRegistered
    );
}

#[test]
fn overloads_route_to_the_two_argument_handler() {
    // Two external methods transfer(address) and transfer(address,uint256):
    // calldata carrying the second selector invokes only the second handler.
    let (table, one, two) = transfer_table(HashFamily::Keccak256);
    let sel_one = liquid_core::selector::compute_selector(
        HashFamily::Keccak256,
        "transfer",
        &args(&["address"]),
    );
    let mut input = selector_to_bytes(sel_one);
    input.extend_from_slice(&[0u8; 32]);
    match route(&table, CallMode::Call, &input).unwrap() {
        Decision::Invoke { index, mutable, payload } => {
            assert_eq!(index, one);
            assert!(mutable);
            assert_eq!(payload.len(), 32);
        }
        Decision::Deploy { .. } => panic!("call mode must not deploy"),
    }
    // transfer(address,uint256) is the famous a9059cbb; its calldata with a
    // pretend (addr, 100) payload invokes only the two-argument handler.
    let mut input2 = selector_to_bytes(u32::from_be_bytes([0xa9, 0x05, 0x9c, 0xbb]));
    let mut pretend_args = vec![0u8; 52];
    pretend_args[51] = 100;
    input2.extend_from_slice(&pretend_args);
    match route(&table, CallMode::Call, &input2).unwrap() {
        Decision::Invoke { index, payload, .. } => {
            assert_eq!(index, two);
            assert_ne!(index, one);
            assert_eq!(payload, pretend_args);
        }
        Decision::Deploy { .. } => panic!("call mode must not deploy"),
    }
}

#[test]
fn short_call_input_is_refused() {
    let (table, _, _) = transfer_table(HashFamily::Keccak256);
    for short in [vec![], vec![1], vec![1, 2], vec![1, 2, 3]] {
        match route(&table, CallMode::Call, &short) {
            Err(DispatchError::CouldNotReadInput) => {}
            _ => panic!("input under four bytes must be refused"),
        }
    }
}

#[test]
fn unknown_selector_is_refused() {
    let (table, _, _) = transfer_table(HashFamily::Keccak256);
    let input = vec![0xde, 0xad, 0xbe, 0xef, 1, 2];
    match route(&table, CallMode::Call, &input) {
        Err(DispatchError::UnknownSelector) => {}
        _ => panic!("an unmatched selector must be refused"),
    }
}

#[test]
fn deploy_mode_ignores_the_table() {
    let (table, _, _) = transfer_table(HashFamily::Sm3);
    // Even bytes that look like a registered selector are plain payload.
    let input = vec![0xa9, 0x05, 0x9c, 0xbb, 7];
    match route(&table, CallMode::Deploy, &input).unwrap() {
        Decision::Deploy { payload } => assert_eq!(payload, input),
        Decision::Invoke { .. } => panic!("deploy mode must not match selectors"),
    }
    // And input shorter than a selector still deploys.
    let tiny = vec![1];
    match route(&table, CallMode::Deploy, &tiny).unwrap() {
        Decision::Deploy { payload } => assert_eq!(payload, tiny),
        Decision::Invoke { .. } => panic!("deploy mode must not match selectors"),
    }
}

#[test]
fn ret_info_carries_the_diagnostic_strings() {
    let unknown = DispatchRetInfo::from(DispatchError::UnknownSelector);
    assert!(!unknown.is_success());
    assert_eq!(unknown.get_info_string(), "unknown selector");
    let invalid = DispatchRetInfo::from(DispatchError::InvalidParams);
    assert!(!invalid.is_success());
    assert_eq!(invalid.get_info_string(), "invalid params");
    let unread = DispatchRetInfo::from(DispatchError::CouldNotReadInput);
    assert!(!unread.is_success());
    assert_eq!(unread.get_info_string(), "could not read input");
    let ok = DispatchRetInfo::from(Ok(()) as Result<(), DispatchError>);
    assert!(ok.is_success());
    assert_eq!(ok.get_info_string(), "");
}
