//! Small verified building blocks: integer and text helpers, collection
//! transforms, a few data types with methods and traits, and the decision
//! logic of a number-guessing game.

pub mod collections;
pub mod concepts;
pub mod decimal;
pub mod enums;
pub mod generics;
pub mod guessing;
pub mod lifetimes;
pub mod methods;
pub mod options;
pub mod ownership;
pub mod structs;
pub mod text;
pub mod traits;
