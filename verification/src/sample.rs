//! The argument and result shapes of the sample method that the demo
//! plugins implement. The object codec that turns them into bytes lives
//! outside the verified core; these are the plain values it encodes.

use vstd::prelude::*;

verus! {

/// Arguments of the sample method.
#[derive(Clone, Debug)]
pub struct ArgsSampleMethod {
    /// The text the method transforms.
    pub arg: String,
}

/// Result of the sample method.
#[derive(Clone, Debug)]
pub struct SampleResult {
    /// The text the method produced.
    pub result: String,
}

} // verus!
