use tch::wrappers::tensor::{loaded_name, stored_name};
use tch::{Device, Kind, TchError};

const KINDS: [Kind; 16] = [
    Kind::Uint8,
    Kind::Int8,
    Kind::Int16,
    Kind::Int,
    Kind::Int64,
    Kind::Half,
    Kind::Float,
    Kind::Double,
    Kind::ComplexHalf,
    Kind::ComplexFloat,
    Kind::ComplexDouble,
    Kind::Bool,
    Kind::QInt8,
    Kind::QUInt8,
    Kind::QInt32,
    Kind::BFloat16,
];

#[test]
fn kind_codes_follow_scalar_types() {
    assert_eq!(Kind::Uint8.c_int(), 0);
    assert_eq!(Kind::Int64.c_int(), 4);
    assert_eq!(Kind::Float.c_int(), 6);
    assert_eq!(Kind::Bool.c_int(), 11);
    assert_eq!(Kind::BFloat16.c_int(), 15);
}

#[test]
fn kind_codes_roundtrip() {
    for (i, k) in KINDS.iter().enumerate() {
        assert_eq!(k.c_int(), i as i32);
        assert_eq!(Kind::from_c_int(k.c_int()).unwrap(), *k);
    }
}

#[test]
fn unknown_kind_codes_are_rejected() {
    for code in [-1, 16, 23, i32::MAX] {
        match Kind::from_c_int(code) {
            Err(TchError::UnknownKind(c)) => assert_eq!(c, code),
            _ => panic!("code {code} should be rejected"),
        }
    }
}

#[test]
fn device_codes_roundtrip() {
    assert_eq!(Device::Cpu.c_int(), -1);
    assert_eq!(Device::Mps.c_int(), -2);
    assert_eq!(Device::Vulkan.c_int(), -3);
    assert_eq!(Device::Cuda(3).c_int(), 3);
    for d in [Device::Cpu, Device::Mps, Device::Vulkan, Device::Cuda(0), Device::Cuda(7)] {
        assert_eq!(Device::from_c_int(d.c_int()), d);
    }
}

#[test]
fn saved_names_replace_dots() {
    assert_eq!(stored_name("layer1.conv.weight"), "layer1|conv|weight");
    assert_eq!(stored_name("bias"), "bias");
    assert_eq!(loaded_name("layer1|conv|weight"), "layer1.conv.weight");
}

#[test]
fn saved_names_roundtrip() {
    for name in ["features.0.weight", "fc.bias", "", "a..b", "plain"] {
        assert_eq!(loaded_name(&stored_name(name)), name);
    }
    // A name holding `|` does not come back unchanged.
    assert_eq!(loaded_name(&stored_name("a|b")), "a.b");
}
