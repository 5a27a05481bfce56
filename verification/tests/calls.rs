use pwasm_test::externs;
use pwasm_test::{
    Address, Call, Endpoint, ExternalBuilder, ExternalInstance, Response, U256, ext_get,
    ext_reset, ext_update,
};

/// An example of how to use ext_get to access "calls" made against a host.
#[test]
fn has_called() {
    let mut ext = ExternalInstance::default();
    ext_reset(&mut ext, ExternalBuilder::new());
    let input = vec![2u8; 32];
    ext.call(2000, &Address::zero(), &U256::from_u64(10000), &input)
        .expect_err("Should be an Error");
    let calls = ext_get(&ext).calls();
    assert_eq!(calls.len(), 1);

    let call = &calls[0];
    assert_eq!(call.value, U256::from_u64(10000));
    assert_eq!(call.address, Address::zero());
    assert!(input == call.input);
}

#[test]
fn endpoint_has_called() {
    let addr = Address::from_hex("16a0772b17ae004e6645e0e95bf50ad69498a34e").unwrap();
    let mut ext = ExternalInstance::default();
    ext_reset(
        &mut ext,
        ExternalBuilder::new()
            .endpoint(addr.clone(), Endpoint::new(vec![], Response::Output(vec![2]))),
    );
    let mut result = vec![0u8; 1];
    let input = vec![2u8; 32];
    let status = externs::ccall(
        &mut ext,
        20000,
        addr.as_bytes(),
        U256::from_u64(100).as_bytes(),
        &input,
        &mut result,
    );
    assert_eq!(status, 0);
    assert_eq!(result[0], 2);
}

#[test]
fn endpoint_call_each_other() {
    let first = Address::from_hex("16a0772b17ae004e6645e0e95bf50ad69498a34e").unwrap();
    let second = Address::from_hex("35da6abcb08f2b6164fe380bb6c47bd8f2304d55").unwrap();
    let nested = Call {
        gas: 100,
        address: second.clone(),
        value: U256::from_u64(100),
        input: vec![2u8; 32],
    };
    let mut ext = ExternalInstance::default();
    ext_reset(
        &mut ext,
        ExternalBuilder::new()
            .endpoint(first.clone(), Endpoint::new(vec![nested], Response::Forward))
            .endpoint(second.clone(), Endpoint::new(vec![], Response::Output(vec![3]))),
    );
    let mut result = vec![0u8; 1];
    let input = vec![2u8; 32];
    let status = externs::ccall(
        &mut ext,
        20000,
        first.as_bytes(),
        U256::from_u64(100).as_bytes(),
        &input,
        &mut result,
    );
    assert_eq!(status, 0);
    assert_eq!(result[0], 3);
    let calls = ext_get(&ext).calls();
    assert_eq!(calls.len(), 2);
    assert_eq!(calls[0].address, first);
    assert_eq!(calls[1].address, second);
}

#[test]
fn calls_update_ext() {
    let mut ext = ExternalInstance::default();
    ext_reset(&mut ext, ExternalBuilder::new());
    let input = vec![2u8; 32];
    ext.call(2000, &Address::zero(), &U256::from_u64(10000), &input)
        .expect_err("Should be an Error");
    assert_eq!(ext_get(&ext).calls().len(), 1);
    let builder = ExternalBuilder::from_instance(ext_get(&ext));
    ext_update(&mut ext, builder);
    ext.call(2000, &Address::zero(), &U256::from_u64(10000), &input)
        .expect_err("Should be an Error");
    assert_eq!(ext_get(&ext).calls().len(), 2);
}

#[test]
fn test_call() {
    let contract = Address::from_hex("5484438c9bb11deeb87de29d7bf83c5d71dfd000").unwrap();
    let sender = Address::from_hex("16a0772b17ae004e6645e0e95bf50ad69498a34e").unwrap();
    let mut ext = ExternalInstance::default();
    ext_reset(
        &mut ext,
        ExternalBuilder::new()
            .sender(sender)
            .endpoint(contract.clone(), Endpoint::new(vec![], Response::Output(vec![1u8]))),
    );
    let mut result = vec![0u8; 1];
    let input = vec![0u8];
    let status = externs::ccall(
        &mut ext,
        0,
        contract.as_bytes(),
        U256::from_u64(2).as_bytes(),
        &input,
        &mut result,
    );
    assert_eq!(status, 0);
    assert_eq!(result, vec![1u8]);
}

/// A nested call's endpoint answers with the value of its own call, not
/// the value of the call that reached its caller.
#[test]
fn nested_call_sees_own_value() {
    let outer = Address::from_hex("16a0772b17ae004e6645e0e95bf50ad69498a34e").unwrap();
    let inner = Address::from_hex("35da6abcb08f2b6164fe380bb6c47bd8f2304d55").unwrap();
    let nested = Call {
        gas: 0,
        address: inner.clone(),
        value: U256::from_u64(5),
        input: vec![],
    };
    let mut ext = ExternalInstance::default();
    ext_reset(
        &mut ext,
        ExternalBuilder::new()
            .endpoint(outer.clone(), Endpoint::new(vec![nested], Response::Forward))
            .endpoint(inner.clone(), Endpoint::new(vec![], Response::CallValue)),
    );
    let out = ext
        .call(20000, &outer, &U256::from_u64(2), &vec![])
        .unwrap();
    assert_eq!(out, U256::from_u64(5).as_bytes().clone());
    assert_ne!(out, U256::from_u64(2).as_bytes().clone());
}

/// The host stops at its documented nesting allowance: an endpoint whose
/// script calls its own address again records one call per level and the
/// deepest attempt fails.
#[test]
fn self_call_stops_at_depth_limit() {
    let addr = Address::from_hex("16a0772b17ae004e6645e0e95bf50ad69498a34e").unwrap();
    let again = Call {
        gas: 0,
        address: addr.clone(),
        value: U256::zero(),
        input: vec![],
    };
    let mut ext = ExternalInstance::default();
    ext_reset(
        &mut ext,
        ExternalBuilder::new()
            .endpoint(addr.clone(), Endpoint::new(vec![again], Response::Output(vec![7]))),
    );
    ext.call(0, &addr, &U256::zero(), &vec![]).unwrap();
    let expected = pwasm_test::MAX_CALL_DEPTH as usize + 1;
    assert_eq!(ext_get(&ext).calls().len(), expected);
}
