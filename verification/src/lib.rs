pub mod chars;
pub mod gjp2;
pub mod user;
