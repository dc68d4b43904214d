//! A competition problem as the client shows it.

use vstd::prelude::*;

verus! {

#[derive(Debug, Default)]
pub struct Problem {
    pub slug: String,
    pub title: String,
    pub icon: String,
    pub difficulty: i32,
    pub points: i32,
    pub instructions: String,
}

} // verus!
