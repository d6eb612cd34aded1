//! A distance sensor and a buzzer on serial ports, watched from a web page: the codecs of their
//! lines, the decisions of their streams, and the messages that the page is sent.

pub mod buffer;
pub mod buzzer;
pub mod demo;
pub mod discovery;
pub mod error;
pub mod framing;
pub mod message;
pub mod number;
pub mod sensor;
pub mod stream;
pub mod text;
