use vstd::prelude::*;

use crate::state::{Input, InputRequest};

verus! {

/// The source of concrete decisions, driven by the loop around the engine:
/// asked with the kind of input the engine is ready for, it produces one
/// input of that shape. Collecting choices from human participants — and
/// any blocking that takes — lives entirely behind this trait.
pub trait Frontend {
    /// Produces one concrete input answering the request.
    fn give_input(&mut self, ir: InputRequest) -> Input;
}

} // verus!
