//! What holds of the library as a whole.
pub mod answers;
pub mod granting;
pub mod matching;
pub mod models;
pub mod texts;
