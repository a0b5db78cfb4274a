//! Social preview cards as vector markup: text sanitising, greedy line
//! wrapping, the two card layouts, and the request dispatch around them.

pub mod address;
pub mod card;
pub mod decimal;
pub mod dispatch;
pub mod escape;
pub mod strings;
pub mod wrap;
