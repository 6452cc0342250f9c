//! Checks that the library runs on itself: what they count is here, what
//! they measure is with the program that runs them.

pub mod security_tests;
