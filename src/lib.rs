//! A frame clock for sprite animations: it maps elapsed time onto a frame of
//! an animation, over the whole frame table or over a named tag played
//! forward, in reverse or back and forth.

pub mod anim;
pub mod info;
pub mod laws;
