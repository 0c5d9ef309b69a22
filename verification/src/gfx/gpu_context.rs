//! Errors of the layer that owns the GPU device and the swap chain.

use vstd::prelude::*;

verus! {

/// What can go wrong while a GPU context is set up or used.
#[derive(Clone, Copy, Debug, PartialEq, Eq, Structural)]
pub enum GpuContextError {
    RequestAdapterError,
    RequestDeviceError,
    SwapChainError,
}

impl GpuContextError {
    /// The text shown for the error.
    pub fn message(&self) -> (text: &'static str)
        ensures
            text@ == match self {
                GpuContextError::RequestAdapterError => "Adapter request failed!"@,
                GpuContextError::RequestDeviceError => "Device request failed!"@,
                GpuContextError::SwapChainError => "Swap chain operation failed!"@,
            },
    {
        match self {
            GpuContextError::RequestAdapterError => "Adapter request failed!",
            GpuContextError::RequestDeviceError => "Device request failed!",
            GpuContextError::SwapChainError => "Swap chain operation failed!",
        }
    }
}

} // verus!
