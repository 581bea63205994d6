//! Settings that come from the environment: where the home is, the listening
//! port, the transport and the number of syncs that may run at once. Each
//! takes the variable's value, if it is set, and applies its default.
use vstd::prelude::*;

use crate::layout::{join_path, path_join};
use crate::text::{copy_str, parse_unsigned, parse_unsigned_exec};

verus! {

/// The home: `GITP2P_HOME` as it is, else `.gitp2p` under `HOME`, else under
/// `USERPROFILE`, else under the current directory.
pub open spec fn default_home_of(
    gitp2p_home: Option<Seq<char>>,
    home: Option<Seq<char>>,
    user_profile: Option<Seq<char>>,
    cwd: Seq<char>,
) -> Seq<char> {
    match gitp2p_home {
        Some(h) => h,
        None => match home {
            Some(h) => path_join(h, ".gitp2p"@),
            None => match user_profile {
                Some(p) => path_join(p, ".gitp2p"@),
                None => path_join(cwd, ".gitp2p"@),
            },
        },
    }
}

pub open spec fn opt_text(o: Option<&str>) -> Option<Seq<char>> {
    match o {
        Some(s) => Some(s@),
        None => None,
    }
}

/// The home of the installation, from the variables `GITP2P_HOME`, `HOME`
/// and `USERPROFILE` and the current directory.
pub fn default_home(gitp2p_home: Option<&str>, home: Option<&str>, user_profile: Option<&str>, cwd: &str) -> (res:
    String)
    ensures
        res@ == default_home_of(opt_text(gitp2p_home), opt_text(home), opt_text(user_profile), cwd@),
{
    match gitp2p_home {
        Some(h) => copy_str(h),
        None => match home {
            Some(h) => join_path(h, ".gitp2p"),
            None => match user_profile {
                Some(p) => join_path(p, ".gitp2p"),
                None => join_path(cwd, ".gitp2p"),
            },
        },
    }
}

/// The port to listen on: `GITP2P_LISTEN_PORT` when it is a port number,
/// else 9134.
pub fn listen_port(value: Option<&str>) -> (res: u16)
    ensures
        res == match value {
            Some(v) => match parse_unsigned(v@, u16::MAX as int) {
                Some(n) => n,
                None => 9134,
            },
            None => 9134,
        },
{
    match value {
        Some(v) => match parse_unsigned_exec(v, 65535) {
            Some(n) => n as u16,
            None => 9134,
        },
        None => 9134,
    }
}

/// The transport: `GITP2P_TRANSPORT`, else `auto`.
pub fn transport_mode(value: Option<&str>) -> (res: String)
    ensures
        res@ == match value {
            Some(v) => v@,
            None => "auto"@,
        },
{
    match value {
        Some(v) => copy_str(v),
        None => copy_str("auto"),
    }
}

/// How many syncs may run at once: `GITP2P_MAX_CONCURRENT_SYNCS` when it is
/// a number, else 2.
pub fn max_concurrent_syncs(value: Option<&str>) -> (res: usize)
    ensures
        res == match value {
            Some(v) => match parse_unsigned(v@, usize::MAX as int) {
                Some(n) => n,
                None => 2,
            },
            None => 2,
        },
{
    match value {
        Some(v) => match parse_unsigned_exec(v, usize::MAX as u64) {
            Some(n) => n as usize,
            None => 2,
        },
        None => 2,
    }
}

/// The host's name: `HOSTNAME`, else `COMPUTERNAME`, else `fallback`.
pub fn hostname(host_name: Option<&str>, computer_name: Option<&str>, fallback: &str) -> (res: String)
    ensures
        res@ == match host_name {
            Some(h) => h@,
            None => match computer_name {
                Some(c) => c@,
                None => fallback@,
            },
        },
{
    match host_name {
        Some(h) => copy_str(h),
        None => match computer_name {
            Some(c) => copy_str(c),
            None => copy_str(fallback),
        },
    }
}

} // verus!
