//! What holds of the library as a whole: laws over the inputs and results of its functions,
//! stated apart from the definitions that the functions' contracts use.

pub mod dashboard;
pub mod lists;
pub mod observer;
pub mod orchestrator;
pub mod panel;
pub mod server;
pub mod snapshot;
pub mod store;
pub mod texts;
pub mod threads;
pub mod tokens;
pub mod views;
pub mod words;
