//! Random draws from the operating system's random source.
use vstd::prelude::*;
use rand::RngCore;

verus! {

/// The outcome of one draw of a `u32` from the operating system's random
/// source (`None` when the source failed). Its field is private, so outside
/// this module a `Draw` can only come from `random_u32`.
pub struct Draw {
    value: Option<u32>,
}

impl Draw {
    /// The number drawn, `None` when drawing failed.
    pub closed spec fn value(&self) -> Option<u32> {
        self.value
    }

    /// The number drawn, `None` when drawing failed.
    pub fn number(&self) -> (n: Option<u32>)
        ensures
            n == self.value(),
    {
        self.value
    }
}

/// `RngCore::try_fill_bytes` on `rand::rngs::OsRng` (the operating system's
/// random source, through `getrandom`) for four bytes, read as a
/// little-endian `u32`; `None` when the source reports an error. Nothing is
/// stated of the number: any `u32` may come back, or `None`.
#[verifier::external_body]
pub(crate) fn random_u32() -> Draw {
    let mut bytes = [0u8; 4];
    match rand::rngs::OsRng.try_fill_bytes(&mut bytes) {
        Ok(()) => Draw { value: Some(u32::from_le_bytes(bytes)) },
        Err(_) => Draw { value: None },
    }
}

} // verus!
