//! Concrete scenarios for the host's documented behaviour: storage misses
//! and round trips, call recording, log additivity, and the reset and
//! update flows.

use pwasm_test::{
    Address, Endpoint, ExternalBuilder, ExternalInstance, H256, Response, U256, ext_get,
    ext_reset, ext_update,
};

fn h256(byte: u8) -> H256 {
    let mut b = vec![0u8; 32];
    b[31] = byte;
    H256::from_bytes(b)
}

#[test]
fn unwritten_key_reads_zero() {
    let mut ext = ExternalInstance::default();
    ext_reset(&mut ext, ExternalBuilder::new().storage(h256(1), vec![9u8; 32]));
    assert_eq!(vec![0u8; 32], ext.storage_read(&h256(2)));
    assert_eq!(vec![0u8; 32], ext.storage_read(&H256::zero()));
    assert_eq!(vec![9u8; 32], ext.storage_read(&h256(1)));
}

#[test]
fn storage_round_trip() {
    let mut ext = ExternalInstance::default();
    ext_reset(&mut ext, ExternalBuilder::new());
    let value = vec![17u8; 32];
    ext.storage_write(&h256(5), &value);
    assert_eq!(value, ext.storage_read(&h256(5)));
    // the last write for a key wins
    let newer = vec![18u8; 32];
    ext.storage_write(&h256(5), &newer);
    assert_eq!(newer, ext.storage_read(&h256(5)));
}

#[test]
fn failed_call_is_recorded() {
    let mut ext = ExternalInstance::default();
    ext_reset(&mut ext, ExternalBuilder::new());
    let target = Address::from_hex("16a0772b17ae004e6645e0e95bf50ad69498a34e").unwrap();
    let input = vec![1u8, 2, 3];
    let r = ext.call(777, &target, &U256::from_u64(42), &input);
    assert!(r.is_err());
    let calls = ext_get(&ext).calls();
    assert_eq!(calls.len(), 1);
    assert_eq!(calls[0].gas, 777);
    assert_eq!(calls[0].address, target);
    assert_eq!(calls[0].value, U256::from_u64(42));
    assert_eq!(calls[0].input, input);
}

#[test]
fn successful_call_is_recorded_with_declared_output() {
    let mut ext = ExternalInstance::default();
    let target = Address::from_hex("16a0772b17ae004e6645e0e95bf50ad69498a34e").unwrap();
    ext_reset(
        &mut ext,
        ExternalBuilder::new().endpoint(
            target.clone(),
            Endpoint::new(vec![], Response::Output(vec![7u8, 8, 9])),
        ),
    );
    let input = vec![4u8, 5];
    let out = ext.call(123, &target, &U256::from_u64(6), &input).unwrap();
    assert_eq!(out, vec![7u8, 8, 9]);
    let calls = ext_get(&ext).calls();
    assert_eq!(calls.len(), 1);
    assert_eq!(calls[0].address, target);
    assert_eq!(calls[0].value, U256::from_u64(6));
    assert_eq!(calls[0].input, input);
}

#[test]
fn endpoint_ok_and_err() {
    let mut ext = ExternalInstance::default();
    let good = Address::from_hex("16a0772b17ae004e6645e0e95bf50ad69498a34e").unwrap();
    let bad = Address::from_hex("35da6abcb08f2b6164fe380bb6c47bd8f2304d55").unwrap();
    ext_reset(
        &mut ext,
        ExternalBuilder::new()
            .endpoint(good.clone(), Endpoint::ok())
            .endpoint(bad.clone(), Endpoint::err()),
    );
    let out = ext.call(0, &good, &U256::zero(), &vec![]).unwrap();
    assert_eq!(out, Vec::<u8>::new());
    ext.call(0, &bad, &U256::zero(), &vec![])
        .expect_err("a failing endpoint fails the call");
    // both attempts were recorded all the same
    assert_eq!(ext_get(&ext).calls().len(), 2);
}

#[test]
fn endpoint_can_echo_its_input() {
    let mut ext = ExternalInstance::default();
    let target = Address::from_hex("16a0772b17ae004e6645e0e95bf50ad69498a34e").unwrap();
    ext_reset(
        &mut ext,
        ExternalBuilder::new()
            .endpoint(target.clone(), Endpoint::new(vec![], Response::EchoInput)),
    );
    let input = vec![11u8, 22, 33];
    let out = ext.call(0, &target, &U256::zero(), &input).unwrap();
    assert_eq!(out, input);
}

#[test]
fn log_is_strictly_additive() {
    let mut ext = ExternalInstance::default();
    ext_reset(&mut ext, ExternalBuilder::new());
    let payloads: Vec<Vec<u8>> = vec![b"one".to_vec(), b"two".to_vec(), b"three".to_vec()];
    for (n, payload) in payloads.iter().enumerate() {
        ext.elog(&vec![h256(n as u8)], payload);
        assert_eq!(ext_get(&ext).logs().len(), n + 1);
    }
    let log = ext_get(&ext).logs();
    assert_eq!(log.len(), payloads.len());
    for (n, payload) in payloads.iter().enumerate() {
        assert_eq!(log[n].topics, vec![h256(n as u8)]);
        assert_eq!(log[n].data, *payload);
    }
}

#[test]
fn reset_clears_accumulated_records() {
    let mut ext = ExternalInstance::default();
    ext_reset(&mut ext, ExternalBuilder::new());
    ext.call(1, &Address::zero(), &U256::zero(), &vec![]).ok();
    ext.elog(&vec![H256::zero()], &b"x".to_vec());
    assert_eq!(ext_get(&ext).calls().len(), 1);
    assert_eq!(ext_get(&ext).logs().len(), 1);
    ext_reset(
        &mut ext,
        ExternalBuilder::new().timestamp(9),
    );
    assert_eq!(ext_get(&ext).calls().len(), 0);
    assert_eq!(ext_get(&ext).logs().len(), 0);
    assert_eq!(ext.timestamp(), 9);
}

#[test]
fn update_keeps_records_and_applies_overrides() {
    let funded = Address::from_bytes(vec![
        1, 2, 3, 4, 5, 6, 7, 8, 9, 10, 11, 12, 13, 14, 15, 16, 17, 18, 19, 20,
    ]);
    let new_sender = Address::from_hex("16a0772b17ae004e6645e0e95bf50ad69498a34e").unwrap();
    let mut ext = ExternalInstance::default();
    ext_reset(
        &mut ext,
        ExternalBuilder::new().balance_of(funded.clone(), U256::from_u64(200000)),
    );
    ext.call(1, &Address::zero(), &U256::zero(), &vec![5u8]).ok();
    ext.elog(&vec![H256::zero()], &b"kept".to_vec());

    let builder = ExternalBuilder::from_instance(ext_get(&ext)).sender(new_sender.clone());
    ext_update(&mut ext, builder);

    // records survived the update, unchanged
    let calls = ext_get(&ext).calls();
    assert_eq!(calls.len(), 1);
    assert_eq!(calls[0].input, vec![5u8]);
    let log = ext_get(&ext).logs();
    assert_eq!(log.len(), 1);
    assert_eq!(log[0].data, b"kept".to_vec());
    // the override took, the untouched configuration carried over
    assert_eq!(ext.sender(), new_sender);
    assert_eq!(ext.balance(&funded), U256::from_u64(200000));
}
