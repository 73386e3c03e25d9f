use vstd::prelude::*;

verus! {

/// Largest payload that a single physical frame can carry (2^24 - 1 bytes).
pub const MAX_PAYLOAD_LEN: usize = 16777215;

pub const CLIENT_LONG_PASSWORD: u32 = 0x0000_0001;
pub const CLIENT_LONG_FLAG: u32 = 0x0000_0004;
pub const CLIENT_CONNECT_WITH_DB: u32 = 0x0000_0008;
pub const CLIENT_COMPRESS: u32 = 0x0000_0020;
pub const CLIENT_LOCAL_FILES: u32 = 0x0000_0080;
pub const CLIENT_PROTOCOL_41: u32 = 0x0000_0200;
pub const CLIENT_SSL: u32 = 0x0000_0800;
pub const CLIENT_TRANSACTIONS: u32 = 0x0000_2000;
pub const CLIENT_SECURE_CONNECTION: u32 = 0x0000_8000;
pub const CLIENT_MULTI_STATEMENTS: u32 = 0x0001_0000;
pub const CLIENT_MULTI_RESULTS: u32 = 0x0002_0000;
pub const CLIENT_PS_MULTI_RESULTS: u32 = 0x0004_0000;
pub const CLIENT_PLUGIN_AUTH: u32 = 0x0008_0000;
pub const CLIENT_CONNECT_ATTRS: u32 = 0x0010_0000;
pub const CLIENT_SESSION_TRACK: u32 = 0x0080_0000;

pub const SERVER_MORE_RESULTS_EXISTS: u16 = 0x0008;
pub const SERVER_STATUS_NO_BACKSLASH_ESCAPES: u16 = 0x0200;

pub const COM_QUIT: u8 = 0x01;
pub const COM_INIT_DB: u8 = 0x02;
pub const COM_QUERY: u8 = 0x03;
pub const COM_PING: u8 = 0x0e;
pub const COM_STMT_PREPARE: u8 = 0x16;
pub const COM_STMT_EXECUTE: u8 = 0x17;
pub const COM_STMT_SEND_LONG_DATA: u8 = 0x18;
pub const COM_STMT_CLOSE: u8 = 0x19;
pub const COM_RESET_CONNECTION: u8 = 0x1f;

/// Returns true when every bit of `flag` is set in `flags`.
pub fn has_flag(flags: u32, flag: u32) -> (r: bool)
    ensures
        r == (flags & flag == flag),
{
    flags & flag == flag
}

/// Returns true when every bit of `flag` is set in the status word `status`.
pub fn has_status(status: u16, flag: u16) -> (r: bool)
    ensures
        r == (status & flag == flag),
{
    status & flag == flag
}

} // verus!
