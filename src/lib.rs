use vstd::prelude::*;

pub mod devices;
pub mod executor;
pub mod image;
pub mod machine;
pub mod menu;
pub mod package;
pub mod sdlcore;
pub mod word;

verus! {

} // verus!
