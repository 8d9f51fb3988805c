pub mod xorshift32;
