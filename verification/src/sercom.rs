use vstd::prelude::*;

verus! {

/// A SERCOM peripheral instance, known by its number.
pub trait Sercom {
    const NUM: usize;
}

pub struct Sercom0;

impl Sercom for Sercom0 {
    const NUM: usize = 0;
}

pub struct Sercom1;

impl Sercom for Sercom1 {
    const NUM: usize = 1;
}

/// Shares instance number 1 with `Sercom1`, as the board support declares it.
pub struct Sercom2;

impl Sercom for Sercom2 {
    const NUM: usize = 1;
}

} // verus!
