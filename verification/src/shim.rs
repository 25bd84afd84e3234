//! The syscall shim for peers inside the Shadow simulator: which results of a forwarded
//! call stand, and which are replaced.
//!
//! Every call is forwarded as it was received first. A result is replaced only where
//! the shim is armed and the call failed with the very error that the simulator gives
//! for what it does not implement.

use vstd::prelude::*;

use crate::text::{decimal, decimal_text};

verus! {

/// The platform's numbers for the options, flags and errors the shim knows.
#[derive(Debug, Clone, Copy)]
pub struct Platform {
    pub ipproto_ip: i32,
    pub ip_pktinfo: i32,
    pub ip_mtu_discover: i32,
    pub ip_recvtos: i32,
    pub enoprotoopt: i32,
    pub enosys: i32,
    pub msg_waitforone: i32,
}

// ----- setsockopt ----------------------------------------------------------------------

/// Whether an option only enables optional receive metadata on IPv4 UDP sockets, which
/// the simulator rejects and the transport needs to succeed.
pub open spec fn is_stubbed(p: Platform, level: i32, optname: i32) -> bool {
    level == p.ipproto_ip && (optname == p.ip_pktinfo || optname == p.ip_mtu_discover || optname
        == p.ip_recvtos)
}

/// Whether an option is one the shim answers for.
pub fn stubbed_ip_option(p: &Platform, level: i32, optname: i32) -> (r: bool)
    ensures
        r == is_stubbed(*p, level, optname),
{
    level == p.ipproto_ip && (optname == p.ip_pktinfo || optname == p.ip_mtu_discover || optname
        == p.ip_recvtos)
}

/// What a forwarded `setsockopt` comes to.
#[derive(Debug, Clone, Copy, PartialEq, Eq, Structural)]
pub enum OptionResult {
    /// Its result stands.
    Stands,
    /// It is reported as a success.
    Succeeds,
    /// The environment is not one the shim knows; the peer is aborted.
    Aborts,
}

/// What a forwarded `setsockopt` comes to that returned `ret` with an error number.
pub open spec fn option_result(
    p: Platform,
    armed: bool,
    ret: i32,
    level: i32,
    optname: i32,
    errno: Option<i32>,
) -> OptionResult {
    if ret == 0 || !armed || !is_stubbed(p, level, optname) {
        OptionResult::Stands
    } else if errno == Some(p.enoprotoopt) {
        OptionResult::Succeeds
    } else {
        OptionResult::Aborts
    }
}

/// Judge a forwarded `setsockopt`.
pub fn setsockopt(
    p: &Platform,
    armed: bool,
    ret: i32,
    level: i32,
    optname: i32,
    errno: Option<i32>,
) -> (r: OptionResult)
    ensures
        r == option_result(*p, armed, ret, level, optname, errno),
{
    if ret == 0 || !armed || !stubbed_ip_option(p, level, optname) {
        return OptionResult::Stands;
    }
    match errno {
        Some(code) => if code == p.enoprotoopt {
            OptionResult::Succeeds
        } else {
            OptionResult::Aborts
        },
        None => OptionResult::Aborts,
    }
}

/// The decimal numeral of an integer, with its sign if it is negative.
pub open spec fn signed_decimal(n: int) -> Seq<char> {
    if n < 0 {
        "-"@ + decimal((-n) as nat)
    } else {
        decimal(n as nat)
    }
}

fn signed_text(n: i32) -> (r: String)
    ensures
        r@ == signed_decimal(n as int),
{
    let wide: i64 = n as i64;
    if wide < 0 {
        "-".to_owned().concat(decimal_text((-wide) as u64).as_str())
    } else {
        decimal_text(wide as u64)
    }
}

/// The last words of a peer that is aborted.
pub fn abort_message(fd: i32, level: i32, optname: i32, error: &str) -> (r: String)
    ensures
        r@ == "shadow-syscall-shim: setsockopt(fd="@ + signed_decimal(fd as int) + ", level="@
            + signed_decimal(level as int) + ", opt="@ + signed_decimal(optname as int)
            + ") failed with unexpected error "@ + error@
            + " (expected success on a real kernel or ENOPROTOOPT under Shadow); aborting"@,
{
    "shadow-syscall-shim: setsockopt(fd=".to_owned().concat(signed_text(fd).as_str()).concat(
        ", level=",
    ).concat(signed_text(level).as_str()).concat(", opt=").concat(
        signed_text(optname).as_str(),
    ).concat(") failed with unexpected error ").concat(error).concat(
        " (expected success on a real kernel or ENOPROTOOPT under Shadow); aborting",
    )
}

// ----- recvmmsg ------------------------------------------------------------------------

/// What a forwarded `recvmmsg` comes to.
#[derive(Debug, Clone, Copy, PartialEq, Eq, Structural)]
pub enum BatchResult {
    /// Its result stands.
    Stands,
    /// It is emulated, now and from now on.
    Emulate,
}

/// What an emulated batch needs.
#[derive(Debug, Clone, Copy, PartialEq, Eq, Structural)]
pub enum Emulated {
    /// The arguments allow no message: report an invalid argument.
    Invalid,
    /// Receive one message with these flags.
    ReceiveOne { flags: i32 },
}

/// The shim's memory of `recvmmsg`.
#[derive(Debug)]
pub struct BatchShim {
    enosys_seen: bool,
}

impl BatchShim {
    /// Whether the simulator has been seen not to implement the call.
    pub closed spec fn emulates(self) -> bool {
        self.enosys_seen
    }

    /// A shim that has not yet seen the call refused.
    pub fn new() -> (r: BatchShim)
        ensures
            !r.emulates(),
    {
        BatchShim { enosys_seen: false }
    }

    /// Whether the call is forwarded, rather than emulated at once.
    pub fn forwards(&self) -> (r: bool)
        ensures
            r == !self.emulates(),
    {
        !self.enosys_seen
    }

    /// Judge a forwarded call that returned `ret` with an error number.
    pub fn forwarded(&mut self, p: &Platform, armed: bool, ret: i32, errno: Option<i32>) -> (r:
        BatchResult)
        ensures
            r == if ret < 0 && armed && errno == Some(p.enosys) {
                BatchResult::Emulate
            } else {
                BatchResult::Stands
            },
            final(self).emulates() == (old(self).emulates() || r == BatchResult::Emulate),
    {
        if ret >= 0 || !armed {
            return BatchResult::Stands;
        }
        match errno {
            Some(code) => {
                if code == p.enosys {
                    self.enosys_seen = true;
                    return BatchResult::Emulate;
                }
            },
            None => {},
        }
        BatchResult::Stands
    }

    /// What an emulated batch of at most `vlen` messages needs. A batch of one message
    /// returns after the first by itself, so that flag is dropped.
    pub fn emulate(p: &Platform, has_vector: bool, vlen: u32, flags: i32) -> (r: Emulated)
        ensures
            r == if !has_vector || vlen == 0 {
                Emulated::Invalid
            } else {
                Emulated::ReceiveOne { flags: flags & !p.msg_waitforone }
            },
    {
        if !has_vector || vlen == 0 {
            Emulated::Invalid
        } else {
            Emulated::ReceiveOne { flags: flags & !p.msg_waitforone }
        }
    }

    /// What an emulated batch returns for what its one receive returned: one message of
    /// that length, or the failure.
    pub fn emulated(received: i64) -> (r: (i32, Option<u32>))
        ensures
            received < 0 ==> r == (-1i32, None::<u32>),
            received >= 0 ==> r.0 == 1 && r.1 == Some((received % 0x1_0000_0000) as u32),
    {
        if received < 0 {
            (-1, None)
        } else {
            (1, Some((received % 0x1_0000_0000) as u32))
        }
    }
}

// ----- laws ----------------------------------------------------------------------------

/// An unarmed shim lets every result stand.
pub proof fn unarmed_shim_is_transparent(
    p: Platform,
    ret: i32,
    level: i32,
    optname: i32,
    errno: Option<i32>,
)
    ensures
        option_result(p, false, ret, level, optname, errno) == OptionResult::Stands,
{
}

/// A success always stands, and so does any result for an option that is not one of the
/// shim's, armed or not.
pub proof fn foreign_results_stand(
    p: Platform,
    armed: bool,
    ret: i32,
    level: i32,
    optname: i32,
    errno: Option<i32>,
)
    requires
        ret == 0 || !is_stubbed(p, level, optname),
    ensures
        option_result(p, armed, ret, level, optname, errno) == OptionResult::Stands,
{
}

/// A failure is turned into a success exactly where the shim is armed and one of its three
/// options failed with the simulator's own error; an armed shim aborts on any other error of
/// one of them, and no other result is touched.
pub proof fn option_result_is_exact(
    p: Platform,
    armed: bool,
    ret: i32,
    level: i32,
    optname: i32,
    errno: Option<i32>,
)
    ensures
        ({
            let ours = level == p.ipproto_ip && (optname == p.ip_pktinfo || optname
                == p.ip_mtu_discover || optname == p.ip_recvtos);
            let result = option_result(p, armed, ret, level, optname, errno);
            &&& result is Succeeds <==> armed && ours && ret != 0 && errno == Some(p.enoprotoopt)
            &&& result is Aborts <==> armed && ours && ret != 0 && errno != Some(p.enoprotoopt)
        }),
{
}

/// A number is shown with a sign exactly if it is negative, in front of the numeral of its size.
pub proof fn sign_is_shown_exactly(n: int)
    ensures
        n >= 0 ==> signed_decimal(n) == decimal(n as nat),
        n > 0 ==> signed_decimal(-n) == "-"@ + decimal(n as nat),
{
}

} // verus!
