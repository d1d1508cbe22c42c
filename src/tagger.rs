//! Execution devices for the tagging model.

use vstd::prelude::*;

verus! {

/// Hardware that runs the model.
#[derive(Debug, Clone, Copy, PartialEq, Eq, Structural)]
pub enum Device {
    Cpu,
    Cuda(i32),
    TensorRT(i32),
    CoreML,
}

impl Device {
    /// The CPU alone.
    pub fn cpu() -> (r: Vec<Device>)
        ensures
            r@ == seq![Device::Cpu],
    {
        vec![Device::Cpu]
    }

    /// One CUDA device per id, in order.
    pub fn cuda_devices(device_ids: Vec<i32>) -> (r: Vec<Device>)
        ensures
            r@.len() == device_ids@.len(),
            forall|i: int| 0 <= i < r@.len() ==> #[trigger] r@[i] == Device::Cuda(device_ids@[i]),
    {
        let mut r: Vec<Device> = Vec::new();
        let mut i: usize = 0;
        while i < device_ids.len()
            invariant
                i <= device_ids@.len(),
                r@.len() == i,
                forall|k: int| 0 <= k < i ==> #[trigger] r@[k] == Device::Cuda(device_ids@[k]),
            decreases device_ids@.len() - i,
        {
            r.push(Device::Cuda(device_ids[i]));
            i = i + 1;
        }
        r
    }

    /// One TensorRT device per id, in order.
    pub fn tensorrt_devices(device_ids: Vec<i32>) -> (r: Vec<Device>)
        ensures
            r@.len() == device_ids@.len(),
            forall|i: int| 0 <= i < r@.len() ==> #[trigger] r@[i] == Device::TensorRT(device_ids@[i]),
    {
        let mut r: Vec<Device> = Vec::new();
        let mut i: usize = 0;
        while i < device_ids.len()
            invariant
                i <= device_ids@.len(),
                r@.len() == i,
                forall|k: int| 0 <= k < i ==> #[trigger] r@[k] == Device::TensorRT(device_ids@[k]),
            decreases device_ids@.len() - i,
        {
            r.push(Device::TensorRT(device_ids[i]));
            i = i + 1;
        }
        r
    }

    /// CoreML alone.
    pub fn coreml() -> (r: Vec<Device>)
        ensures
            r@ == seq![Device::CoreML],
    {
        vec![Device::CoreML]
    }
}

} // verus!
