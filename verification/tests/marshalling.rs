//! The byte-buffer entry points and the fixed-size value types: decoding,
//! encoding, status codes, and the behaviour of unconfigured capabilities.

use pwasm_test::externs;
use pwasm_test::{
    Address, Endpoint, ExternalBuilder, ExternalInstance, H256, Response, U256, ext_get,
    ext_reset,
};

#[test]
fn address_from_hex_decodes() {
    let a = Address::from_hex("16a0772b17ae004e6645e0e95bf50ad69498a34e").unwrap();
    assert_eq!(
        a.as_bytes().clone(),
        vec![
            0x16, 0xa0, 0x77, 0x2b, 0x17, 0xae, 0x00, 0x4e, 0x66, 0x45, 0xe0, 0xe9, 0x5b, 0xf5,
            0x0a, 0xd6, 0x94, 0x98, 0xa3, 0x4e,
        ]
    );
    let upper = Address::from_hex("16A0772B17AE004E6645E0E95BF50AD69498A34E").unwrap();
    assert_eq!(a, upper);
}

#[test]
fn address_from_hex_rejects_bad_text() {
    assert!(Address::from_hex("").is_none());
    assert!(Address::from_hex("16a0772b17ae004e6645e0e95bf50ad69498a34").is_none());
    assert!(Address::from_hex("16a0772b17ae004e6645e0e95bf50ad69498a34e0").is_none());
    assert!(Address::from_hex("0x16a0772b17ae004e6645e0e95bf50ad69498a34e").is_none());
    assert!(Address::from_hex("16a0772b17ae004g6645e0e95bf50ad69498a34e").is_none());
}

#[test]
fn u256_encodes_big_endian() {
    let mut expected = vec![0u8; 32];
    expected[24] = 0x01;
    expected[25] = 0x02;
    expected[26] = 0x03;
    expected[27] = 0x04;
    expected[28] = 0x05;
    expected[29] = 0x06;
    expected[30] = 0x07;
    expected[31] = 0x08;
    assert_eq!(
        U256::from_u64(0x0102030405060708).as_bytes().clone(),
        expected
    );
    assert_eq!(U256::zero().as_bytes().clone(), vec![0u8; 32]);
    let mut small = vec![0u8; 32];
    small[30] = 0x30;
    small[31] = 0x39;
    assert_eq!(U256::from_u64(12345).as_bytes().clone(), small);
}

#[test]
fn storage_entry_points_round_trip() {
    let mut ext = ExternalInstance::default();
    ext_reset(&mut ext, ExternalBuilder::new());
    let key = vec![3u8; 32];
    let value = vec![250u8; 32];
    externs::storage_write(&mut ext, &key, &value);
    let mut dest = vec![0u8; 32];
    externs::storage_read(&ext, &key, &mut dest);
    assert_eq!(dest, value);
    let other_key = vec![4u8; 32];
    externs::storage_read(&ext, &other_key, &mut dest);
    assert_eq!(dest, vec![0u8; 32]);
}

#[test]
fn context_entry_points_write_fixed_buffers() {
    let sender = Address::from_hex("16a0772b17ae004e6645e0e95bf50ad69498a34e").unwrap();
    let origin = Address::from_hex("51f9c432a4e59ac86282d6adab4c2eb8919160eb").unwrap();
    let mut ext = ExternalInstance::default();
    ext_reset(
        &mut ext,
        ExternalBuilder::new()
            .sender(sender.clone())
            .origin(origin.clone())
            .value(U256::from_u64(12345))
            .difficulty(U256::from_u64(123))
            .gas_limit(U256::from_u64(1234))
            .blocknumber(123123u64)
            .timestamp(123124u64),
    );
    let mut addr_buf = vec![0u8; 20];
    externs::sender(&ext, &mut addr_buf);
    assert_eq!(addr_buf, sender.as_bytes().clone());
    externs::origin(&ext, &mut addr_buf);
    assert_eq!(addr_buf, origin.as_bytes().clone());
    externs::coinbase(&ext, &mut addr_buf);
    assert_eq!(addr_buf, vec![0u8; 20]);
    externs::address(&ext, &mut addr_buf);
    assert_eq!(addr_buf, vec![0u8; 20]);
    let mut word_buf = vec![0u8; 32];
    externs::value(&ext, &mut word_buf);
    assert_eq!(word_buf, U256::from_u64(12345).as_bytes().clone());
    externs::difficulty(&ext, &mut word_buf);
    assert_eq!(word_buf, U256::from_u64(123).as_bytes().clone());
    externs::gaslimit(&ext, &mut word_buf);
    assert_eq!(word_buf, U256::from_u64(1234).as_bytes().clone());
    assert_eq!(externs::blocknumber(&ext), 123123i64);
    assert_eq!(externs::timestamp(&ext), 123124i64);
}

#[test]
fn balance_entry_point_encodes_big_endian() {
    let funded = Address::from_bytes(vec![
        1, 2, 3, 4, 5, 6, 7, 8, 9, 10, 11, 12, 13, 14, 15, 16, 17, 18, 19, 20,
    ]);
    let mut ext = ExternalInstance::default();
    ext_reset(
        &mut ext,
        ExternalBuilder::new().balance_of(funded.clone(), U256::from_u64(200000)),
    );
    let mut dest = vec![0u8; 32];
    externs::balance(&ext, funded.as_bytes(), &mut dest);
    assert_eq!(dest, U256::from_u64(200000).as_bytes().clone());
    externs::balance(&ext, Address::zero().as_bytes(), &mut dest);
    assert_eq!(dest, vec![0u8; 32]);
}

#[test]
fn elog_entry_point_splits_flat_topics() {
    let mut ext = ExternalInstance::default();
    ext_reset(&mut ext, ExternalBuilder::new());
    let mut topic_buf = vec![0u8; 64];
    topic_buf[31] = 1;
    topic_buf[63] = 2;
    let data = b"some data".to_vec();
    externs::elog(&mut ext, &topic_buf, 2, &data);
    let log = ext_get(&ext).logs();
    assert_eq!(log.len(), 1);
    assert_eq!(log[0].topics.len(), 2);
    let mut first = vec![0u8; 32];
    first[31] = 1;
    let mut second = vec![0u8; 32];
    second[31] = 2;
    assert_eq!(log[0].topics[0], H256::from_bytes(first));
    assert_eq!(log[0].topics[1], H256::from_bytes(second));
    assert_eq!(log[0].data, data);
}

#[test]
fn ccall_copies_output_over_result_prefix() {
    let target = Address::from_hex("16a0772b17ae004e6645e0e95bf50ad69498a34e").unwrap();
    let mut ext = ExternalInstance::default();
    ext_reset(
        &mut ext,
        ExternalBuilder::new().endpoint(
            target.clone(),
            Endpoint::new(vec![], Response::Output(vec![7u8, 8])),
        ),
    );
    // longer buffer: the tail stays
    let mut result = vec![9u8; 4];
    let status = externs::ccall(
        &mut ext,
        0,
        target.as_bytes(),
        U256::zero().as_bytes(),
        &vec![],
        &mut result,
    );
    assert_eq!(status, 0);
    assert_eq!(result, vec![7u8, 8, 9, 9]);
    // shorter buffer: the output is cut to fit
    let mut short = vec![0u8; 1];
    let status = externs::ccall(
        &mut ext,
        0,
        target.as_bytes(),
        U256::zero().as_bytes(),
        &vec![],
        &mut short,
    );
    assert_eq!(status, 0);
    assert_eq!(short, vec![7u8]);
}

#[test]
fn failed_ccall_reports_status_and_keeps_buffer() {
    let mut ext = ExternalInstance::default();
    ext_reset(&mut ext, ExternalBuilder::new());
    let mut result = vec![9u8; 2];
    let status = externs::ccall(
        &mut ext,
        2000,
        Address::zero().as_bytes(),
        U256::from_u64(10000).as_bytes(),
        &vec![2u8; 32],
        &mut result,
    );
    assert_eq!(status, 1);
    assert_eq!(result, vec![9u8, 9]);
    assert_eq!(ext_get(&ext).calls().len(), 1);
}

#[test]
fn unconfigured_capabilities_report_failure() {
    let mut ext = ExternalInstance::default();
    ext_reset(&mut ext, ExternalBuilder::new());
    let addr = vec![1u8; 20];
    let word = vec![0u8; 32];

    let mut address_out = vec![5u8; 20];
    assert_eq!(externs::create(&ext, &word, &vec![1, 2, 3], &mut address_out), 1);
    assert_eq!(address_out, vec![5u8; 20]);

    let mut result = vec![5u8; 3];
    assert_eq!(externs::dcall(&ext, 0, &addr, &vec![], &mut result), 1);
    assert_eq!(result, vec![5u8; 3]);
    assert_eq!(externs::scall(&ext, 0, &addr, &vec![], &mut result), 1);
    assert_eq!(result, vec![5u8; 3]);

    assert_eq!(externs::suicide(&ext, &addr), 1);

    let mut hash_out = vec![5u8; 32];
    assert_eq!(externs::blockhash(&ext, 7, &mut hash_out), 1);
    assert_eq!(hash_out, vec![5u8; 32]);

    assert_eq!(externs::debug(&ext, String::from("message")), 1);

    // none of these left a call record behind
    assert_eq!(ext_get(&ext).calls().len(), 0);
}
