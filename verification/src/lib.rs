pub mod conversation;
pub mod correspondence;
pub mod prompt;
pub mod turn;
pub mod window;
pub mod words;
