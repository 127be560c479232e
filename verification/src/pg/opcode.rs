//! Operation codes of the generic call.

use vstd::prelude::*;

verus! {

pub const GET_SENDER_KEY_DEVICES: u32 = 30;
pub const SET_SENDER_KEY_STATUS: u32 = 31;
pub const CLEAR_SENDER_KEY_DEVICES: u32 = 32;
pub const CLEAR_ALL_SENDER_KEY_DEVICES: u32 = 33;
pub const DELETE_SENDER_KEY_DEVICE_ROWS: u32 = 34;
pub const GET_LID_MAPPING: u32 = 35;
pub const GET_PN_MAPPING: u32 = 36;
pub const PUT_LID_MAPPING: u32 = 37;
pub const GET_ALL_LID_MAPPINGS: u32 = 38;
pub const SAVE_BASE_KEY: u32 = 39;
pub const HAS_SAME_BASE_KEY: u32 = 40;
pub const DELETE_BASE_KEY: u32 = 41;
pub const UPDATE_DEVICE_LIST: u32 = 42;
pub const GET_DEVICES: u32 = 43;
pub const DELETE_DEVICES: u32 = 44;
pub const GET_GROUP_METADATA: u32 = 45;
pub const PUT_GROUP_METADATA: u32 = 46;
pub const GET_TC_TOKEN: u32 = 47;
pub const PUT_TC_TOKEN: u32 = 48;
pub const DELETE_TC_TOKEN: u32 = 49;
pub const GET_ALL_TC_TOKEN_JIDS: u32 = 50;
pub const DELETE_EXPIRED_TC_TOKENS: u32 = 51;
pub const STORE_SENT_MESSAGE: u32 = 52;
pub const TAKE_SENT_MESSAGE: u32 = 53;
pub const DELETE_EXPIRED_SENT_MESSAGES: u32 = 54;
pub const PUT_MSG_SECRETS: u32 = 60;
pub const GET_MSG_SECRET: u32 = 61;
pub const GET_MSG_SECRET_WITH_TS: u32 = 62;
pub const DELETE_EXPIRED_MSG_SECRETS: u32 = 63;
pub const PUT_MUTATION_MACS: u32 = 24;
pub const GET_MUTATION_MAC: u32 = 25;
pub const DELETE_MUTATION_MACS: u32 = 26;
pub const HAS_SESSION: u32 = 7;
pub const LOAD_ALL_SIGNED_PREKEYS: u32 = 14;

} // verus!
