//! The one-byte message code that follows the length in every frame.

use vstd::prelude::*;

verus! {

pub const ERROR_RESP: u8 = 0;

pub const PING_REQ: u8 = 1;

pub const PING_RESP: u8 = 2;

pub const GET_SERVER_INFO_REQ: u8 = 7;

pub const GET_SERVER_INFO_RESP: u8 = 8;

pub const GET_REQ: u8 = 9;

pub const GET_RESP: u8 = 10;

pub const PUT_REQ: u8 = 11;

pub const PUT_RESP: u8 = 12;

pub const DEL_REQ: u8 = 13;

pub const DEL_RESP: u8 = 14;

pub const LIST_BUCKETS_REQ: u8 = 15;

pub const LIST_BUCKETS_RESP: u8 = 16;

pub const LIST_KEYS_REQ: u8 = 17;

pub const LIST_KEYS_RESP: u8 = 18;

pub const GET_BUCKET_REQ: u8 = 19;

pub const GET_BUCKET_RESP: u8 = 20;

pub const SET_BUCKET_REQ: u8 = 21;

pub const SET_BUCKET_RESP: u8 = 22;

pub const RESET_BUCKET_REQ: u8 = 29;

pub const RESET_BUCKET_RESP: u8 = 30;

/// Answered with `GET_BUCKET_RESP`.
pub const GET_BUCKET_TYPE_REQ: u8 = 31;

/// Answered with `SET_BUCKET_RESP`.
pub const SET_BUCKET_TYPE_REQ: u8 = 32;

pub const GET_BUCKET_KEY_PREFLIST_REQ: u8 = 33;

pub const GET_BUCKET_KEY_PREFLIST_RESP: u8 = 34;

pub const YOKOZUNA_INDEX_GET_REQ: u8 = 54;

pub const YOKOZUNA_INDEX_GET_RESP: u8 = 55;

/// Answered with `PUT_RESP`.
pub const YOKOZUNA_INDEX_PUT_REQ: u8 = 56;

/// Answered with `DEL_RESP`.
pub const YOKOZUNA_INDEX_DELETE_REQ: u8 = 57;

pub const YOKOZUNA_SCHEMA_GET_REQ: u8 = 58;

pub const YOKOZUNA_SCHEMA_GET_RESP: u8 = 59;

/// Answered with `PUT_RESP`.
pub const YOKOZUNA_SCHEMA_PUT_REQ: u8 = 60;

} // verus!
