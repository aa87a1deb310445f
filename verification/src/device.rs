//! The devices a tensor can live on.
use vstd::prelude::*;

verus! {

/// A device on which tensors are stored and computed.
#[derive(Debug, Clone, Copy, PartialEq, Eq, Structural)]
pub enum Device {
    /// The main CPU device.
    Cpu,
    /// The main GPU device, by index.
    Cuda(usize),
    /// The main MPS device.
    Mps,
    /// The main Vulkan device.
    Vulkan,
}

/// The code of a device in the C shims (a C `int`, so that the index of a
/// CUDA device is truncated to 32 bits): the index of a CUDA device,
/// `-1` for the CPU, `-2` for MPS and `-3` for Vulkan.
pub open spec fn device_code(d: Device) -> int {
    match d {
        Device::Cpu => -1,
        Device::Cuda(i) => i as int,
        Device::Mps => -2,
        Device::Vulkan => -3,
    }
}

impl Device {
    /// The code of this device in the C shims.
    pub fn c_int(&self) -> (c: libc::c_int)
        ensures
            c == device_code(*self) as i32,
    {
        match self {
            Device::Cpu => -1,
            Device::Cuda(device_index) => *device_index as libc::c_int,
            Device::Mps => -2,
            Device::Vulkan => -3,
        }
    }

    /// The device of code `v`; codes below `-3` name no device.
    pub fn from_c_int(v: libc::c_int) -> (d: Device)
        requires
            v >= -3,
        ensures
            device_code(d) == v,
    {
        match v {
            -1 => Device::Cpu,
            -2 => Device::Mps,
            -3 => Device::Vulkan,
            index => Device::Cuda(index as usize),
        }
    }
}

/// Law: decoding the code of a device gives the device back, and no two
/// devices share a code.
pub proof fn lemma_device_code_roundtrip(d: Device, e: Device)
    ensures
        device_code(d) >= -3,
        device_code(d) == device_code(e) ==> d == e,
{
}

} // verus!
