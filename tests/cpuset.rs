use cgroups_rs::cpuset::convert_list_to_mask;
use cgroups_rs::error::SystemdError;
use cgroups_rs::unit_props::{cpus, mems};
use cgroups_rs::props::Value;

#[test]
fn test_convert_list_to_mask() {
    let mask = convert_list_to_mask("2-4").unwrap();
    assert_eq!(vec![0b00011100_u8], mask);

    let mask = convert_list_to_mask("1,7").unwrap();
    assert_eq!(vec![0b10000010_u8], mask);

    let mask = convert_list_to_mask("0-4,9").unwrap();
    assert_eq!(vec![0b00000010_u8, 0b00011111_u8], mask);

    assert!(convert_list_to_mask("1-3-4").is_err());

    assert!(convert_list_to_mask("1-3,,").is_err());
}

fn bit(mask: &[u8], i: usize) -> bool {
    let byte = mask[mask.len() - 1 - i / 8];
    (byte >> (i % 8)) & 1 == 1
}

#[test]
fn mask_bits_match_list() {
    let list = "0-3,5,7,16";
    let mask = convert_list_to_mask(list).unwrap();
    assert_eq!(mask.len(), 3);
    let members = [0usize, 1, 2, 3, 5, 7, 16];
    for i in 0..8 * mask.len() {
        assert_eq!(bit(&mask, i), members.contains(&i), "bit {}", i);
    }
}

#[test]
fn mask_edge_cases() {
    assert_eq!(convert_list_to_mask("0").unwrap(), vec![1u8]);
    assert_eq!(convert_list_to_mask("5-3").unwrap(), vec![0u8]);
    assert_eq!(convert_list_to_mask(""), Err(SystemdError::InvalidArgument));
    assert_eq!(convert_list_to_mask("a"), Err(SystemdError::InvalidArgument));
    assert_eq!(convert_list_to_mask("+3").unwrap(), vec![0b1000u8]);
}

#[test]
fn cpuset_properties_need_systemd_244() {
    assert_eq!(cpus("0-1", 243), Err(SystemdError::ObsoleteSystemd));
    let (name, value) = cpus("0-1", 244).unwrap();
    assert_eq!(name, "AllowedCPUs");
    assert_eq!(value, Value::ArrayU8(vec![3]));
    let (name, _) = mems("0", 250).unwrap();
    assert_eq!(name, "AllowedMemoryNodes");
}
