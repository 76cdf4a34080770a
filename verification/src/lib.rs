//! Verified core of modit: the rules that decide what a press, a coin or a
//! module means, independent of the radio and of the clock.

pub mod bench;
pub mod button_board;
pub mod coin;
pub mod coin_motor;
pub mod ble_link;
pub mod input;
pub mod keyboard;
pub mod link;
pub mod modules;
pub mod proto;
pub mod runtime;
pub mod scenarios;
pub mod sim;
pub mod table;
pub mod text;
pub mod uuids;
