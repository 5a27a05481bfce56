use pwasm_test::{ExternalBuilder, ExternalInstance, H256, ext_reset};

#[test]
fn read_storage() {
    let mut ext = ExternalInstance::default();
    ext_reset(&mut ext, ExternalBuilder::new().storage(H256::zero(), vec![250u8; 32]));
    assert_eq!(vec![250u8; 32], ext.storage_read(&H256::zero()));
}
