//! The library's version.

use vstd::prelude::*;
use vstd::string::StringExecFns;
use crate::decimal::{decimal, push_decimal};

verus! {

pub const VERSION_MAJOR: u32 = 0;

pub const VERSION_MINOR: u32 = 1;

pub const VERSION_PATCH: u32 = 0;

pub const VERSION_CHANNEL: &'static str = "Alpha";

/// The version as text: the three numbers joined by dots, a space, the channel.
pub open spec fn version_text() -> Seq<char> {
    decimal(VERSION_MAJOR as nat) + seq!['.'] + decimal(VERSION_MINOR as nat) + seq!['.']
        + decimal(VERSION_PATCH as nat) + seq![' '] + VERSION_CHANNEL@
}

pub fn get_version() -> (r: String)
    ensures
        r@ == version_text(),
{
    proof {
        reveal_strlit(".");
        reveal_strlit(" ");
    }
    let mut text = String::new();
    push_decimal(&mut text, VERSION_MAJOR as u64);
    text.append(".");
    push_decimal(&mut text, VERSION_MINOR as u64);
    text.append(".");
    push_decimal(&mut text, VERSION_PATCH as u64);
    text.append(" ");
    text.append(VERSION_CHANNEL);
    assert(text@ =~= version_text());
    text
}

} // verus!
