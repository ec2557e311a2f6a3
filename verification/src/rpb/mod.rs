//! The wire side of the client: message codes and payload encoding.

pub mod codes;
pub mod riak;
pub mod riak_kv;
pub mod riak_yokozuna;
pub mod utils;
pub mod wire;
