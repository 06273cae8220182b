//! FFI exercise library: the logic behind each exercise, with contracts.

pub mod kv;
pub mod text;

pub mod ex01_calling_c;
pub mod ex02_rust_from_c;
pub mod ex04_strings;
pub mod ex05_opaque;
pub mod ex06_arrays;
pub mod ex07_callbacks;
pub mod ex08_memory;
pub mod ex09_errors;
pub mod ex10_maybe_uninit;
pub mod ex13_tagged_unions;
pub mod ex14_panic_safety;
pub mod ex15_miri_ub;
pub mod ex16_pin_drop;
pub mod ex17_wrapping_c;
pub mod ex18_closures;
pub mod ex19_dyn_trait_ffi;
pub mod ex20_global_state;
pub mod ex21_bitflags;
pub mod ex22_lifetimes;
pub mod ex23_transmute;
pub mod ex24_c_handles;
pub mod ex25_cpp_virtual;
pub mod ex26_cpp_exceptions;
pub mod ex27_cpp_stl;
pub mod ex28_zst_ffi;
pub mod ex29_unsafecell;
