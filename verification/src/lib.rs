//! Client-side XMPP building blocks: an element tree, payload codecs for a few
//! extensions, and the SASL authentication exchange, all as pure functions over
//! values so that a transport can be put around them.

pub mod address;
pub mod client;
pub mod data_forms;
pub mod element;
pub mod eme;
pub mod encoding;
pub mod error;
pub mod forwarding;
pub mod framer;
pub mod ibb;
pub mod mam;
pub mod ns;
pub mod number;
pub mod rsm;
pub mod sasl;
pub mod text;
