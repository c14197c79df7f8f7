//! Recipient-granted, moneyless communication capabilities.



pub mod admission;
pub mod book;
pub mod control;
pub mod grant;
pub mod lane;
pub mod legacy;


