use vstd::prelude::*;

use crate::text::{decimal_u16, parse_u16};

verus! {

/// The port a node listens on when none is given.
pub const DEFAULT_PORT: u16 = 8000;

/// The port a node listens on given its first command-line argument, and
/// whether that argument could not be read as a port (the node then uses
/// the default port).
pub open spec fn port_choice(arg: Option<Seq<char>>) -> (u16, bool) {
    match arg {
        None => (DEFAULT_PORT, false),
        Some(a) => match decimal_u16(a) {
            Some(p) => (p, false),
            None => (DEFAULT_PORT, true),
        },
    }
}

/// The port to listen on given the first command-line argument, if any.
pub fn port_from_argument(arg: Option<String>) -> (r: (u16, bool))
    ensures
        r == port_choice(
            match arg {
                Some(a) => Some(a@),
                None => None,
            },
        ),
{
    match arg {
        None => (DEFAULT_PORT, false),
        Some(a) => match parse_u16(a.as_str()) {
            Some(p) => (p, false),
            None => (DEFAULT_PORT, true),
        },
    }
}

} // verus!
