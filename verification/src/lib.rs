//! Verified core of a small ESP32 firmware: Wi-Fi bring-up plans, the
//! credential form served by the set-up access point, HTTP POST requests
//! to ntfy.sh, the over-temperature notifier and the display font table.

pub mod ask_for_wifi;
pub mod http;
pub mod misc;
pub mod monitor;
pub mod nvs;
pub mod wifi;
