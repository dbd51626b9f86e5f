//! Screen control for the Yunzii B75 Pro Max keyboard's TFT panel: the HID
//! report format, the command sequences built from it, and the decisions
//! around an upload, each stated as a contract and proved.

pub mod app;
pub mod cli;
pub mod decode;
pub mod device;
pub mod listing;
pub mod exec;
pub mod plan;
pub mod preview;
pub mod picture;
pub mod protocol;
pub mod term;
pub mod text;
pub mod view;
pub mod worker;
