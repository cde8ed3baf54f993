//! Sans-I/O core of a sensor gateway: the framed serial protocol, the link
//! transaction engine, the node registry and the device-side dispatcher.

pub mod codec;
pub mod comm;
pub mod dispatcher;
pub mod framer;
pub mod id_range;
pub mod inventory;
pub mod link;
pub mod messages;
pub mod node;
pub mod registry;
pub mod stub_meteo;
pub mod text;
