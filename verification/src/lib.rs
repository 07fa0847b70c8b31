#![allow(non_snake_case)]
#![allow(non_camel_case_types)]
#![allow(non_upper_case_globals)]
#![allow(unused_variables)]

pub mod coords;
pub mod euclid;
pub mod schedule;
pub mod sdf;
pub mod style;
pub mod tcs;
