//! Game-server logic of the Pumpkin Minecraft server that can be stated and
//! proved: codec combinators, the Bedrock login packet layout, the giant trunk
//! placement, entity selector checks, world-host flag translation and the End
//! dragon fight state machine.

pub mod either;
pub mod data_result;
pub mod codec;
pub mod map_codec;
pub mod codecs;
pub mod map_codecs;
pub mod login;
pub mod block_pos;
pub mod giant_trunk;
pub mod entity_argument;
pub mod entity;
pub mod dragon_fight;
pub mod world_host;
