//! USBTMC protocol engine: the header codec, the reassembly of responses
//! that span several fragments and requests, and the IEEE-488.2 binary block
//! decoder. The engine is a state machine; its caller performs the USB bulk
//! transfers it asks for and reports their outcome back.
pub mod block;
pub mod error;
pub mod header;
pub mod session;

pub use block::get_data_from_raw;
pub use error::UsbtmcErrors;
