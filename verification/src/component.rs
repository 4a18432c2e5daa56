//! The values that directives are made of.
pub mod account_name;
pub mod account_name_part;
pub mod amount;
pub mod comment;
pub mod commodity;
pub mod date;
pub mod period;
pub mod price;
pub mod quantity;
pub mod status;
pub mod time;
pub mod whitespace;
