use relay_core::{build_modbus_write, modbus_key};

#[test]
fn key_is_formatted_from_device_and_register() {
    let key = modbus_key(&b"mock".to_vec(), 7);
    assert_eq!(key, b"modbus/device=mock/register=7".to_vec());
    let key = modbus_key(&b"mock".to_vec(), 40068);
    assert_eq!(key, b"modbus/device=mock/register=40068".to_vec());
    let key = modbus_key(&b"plant-3".to_vec(), 0);
    assert_eq!(key, b"modbus/device=plant-3/register=0".to_vec());
}

#[test]
fn one_write_item_per_polled_register() {
    let values: Vec<u16> = vec![100, 0, 65535];
    let items = build_modbus_write(&b"mock".to_vec(), &values);
    assert_eq!(items.len(), 3);
    assert_eq!(items[0].key, b"modbus/device=mock/register=0".to_vec());
    assert_eq!(items[0].value, b"100".to_vec());
    assert_eq!(items[1].key, b"modbus/device=mock/register=1".to_vec());
    assert_eq!(items[1].value, b"0".to_vec());
    assert_eq!(items[2].key, b"modbus/device=mock/register=2".to_vec());
    assert_eq!(items[2].value, b"65535".to_vec());
}
