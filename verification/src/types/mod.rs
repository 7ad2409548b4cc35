//! The data the front end produces and the evaluator works on.

pub mod arithmetic;
pub mod boolean;
pub mod equality;
pub mod hashing;
pub mod keyword;
pub mod number;
pub mod object;
pub mod object_laws;
pub mod order;
pub mod order_laws;
pub mod text;
pub mod token;
pub mod value;
