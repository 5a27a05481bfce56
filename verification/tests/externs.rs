use pwasm_test::{Address, ExternalBuilder, ExternalInstance, U256, ext_reset};

#[test]
fn externals() {
    let mut ext = ExternalInstance::default();
    ext_reset(
        &mut ext,
        ExternalBuilder::new()
            .sender(Address::from_hex("16a0772b17ae004e6645e0e95bf50ad69498a34e").unwrap())
            .address(Address::from_hex("35da6abcb08f2b6164fe380bb6c47bd8f2304d55").unwrap())
            .origin(Address::from_hex("51f9c432a4e59ac86282d6adab4c2eb8919160eb").unwrap())
            .coinbase(Address::from_hex("c257274276a4e539741ca11b590b9447b26a8051").unwrap())
            .difficulty(U256::from_u64(123))
            .gas_limit(U256::from_u64(1234))
            .value(U256::from_u64(12345))
            .blocknumber(123123u64)
            .timestamp(123124u64),
    );
    assert_eq!(
        Address::from_hex("16a0772b17ae004e6645e0e95bf50ad69498a34e").unwrap(),
        ext.sender()
    );
    assert_eq!(
        Address::from_hex("35da6abcb08f2b6164fe380bb6c47bd8f2304d55").unwrap(),
        ext.address()
    );
    assert_eq!(
        Address::from_hex("51f9c432a4e59ac86282d6adab4c2eb8919160eb").unwrap(),
        ext.origin()
    );
    assert_eq!(
        Address::from_hex("c257274276a4e539741ca11b590b9447b26a8051").unwrap(),
        ext.coinbase()
    );
    assert_eq!(U256::from_u64(123), ext.difficulty());
    assert_eq!(U256::from_u64(1234), ext.gas_limit());
    assert_eq!(U256::from_u64(12345), ext.value());
    assert_eq!(123123u64, ext.blocknumber());
    assert_eq!(123124u64, ext.timestamp());
}

/// Four context fields configured together come back without
/// cross-contamination.
#[test]
fn context_fields_do_not_mix() {
    let sender = Address::from_hex("16a0772b17ae004e6645e0e95bf50ad69498a34e").unwrap();
    let contract = Address::from_hex("35da6abcb08f2b6164fe380bb6c47bd8f2304d55").unwrap();
    let mut ext = ExternalInstance::default();
    ext_reset(
        &mut ext,
        ExternalBuilder::new()
            .sender(sender.clone())
            .address(contract.clone())
            .difficulty(U256::from_u64(123))
            .timestamp(123124u64),
    );
    assert_eq!(sender, ext.sender());
    assert_eq!(contract, ext.address());
    assert_ne!(ext.sender(), ext.address());
    assert_eq!(U256::from_u64(123), ext.difficulty());
    assert_eq!(123124u64, ext.timestamp());
    assert_eq!(Address::zero(), ext.origin());
    assert_eq!(Address::zero(), ext.coinbase());
    assert_eq!(U256::zero(), ext.value());
    assert_eq!(U256::zero(), ext.gas_limit());
    assert_eq!(0u64, ext.blocknumber());
}
