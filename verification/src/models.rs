use vstd::prelude::*;

verus! {

/// The resource that the fruit operation returns.
///
/// Both fields are byte strings, exactly as they stood in the response body;
/// the wire form is defined in [`crate::codec`].
#[derive(Clone, Debug, PartialEq, Eq)]
pub struct Fruit {
    pub name: Vec<u8>,
    pub color: Vec<u8>,
}

} // verus!
