pub mod gpu;
pub mod switch;
pub mod inhibit;
pub mod power;
pub mod touchpad;
pub mod battery;
pub mod cooling;
pub mod fan;
pub mod temperature;
pub mod display;
