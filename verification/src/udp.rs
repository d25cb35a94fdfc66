//! How a UDP socket is set up, and where what is sent on it goes.

use vstd::prelude::*;

verus! {

/// How much a proxy may send at once.
pub const PROXY_RECEIVE_BUFFER_BYTES: usize = 65_536;

/// The number of a host.
#[derive(Clone, Copy, Debug)]
pub enum HostAddress {
    V4([u8; 4]),
    V6([u8; 16]),
}

/// A host and a port.
#[derive(Clone, Copy, Debug)]
pub struct SocketAddress {
    pub host: HostAddress,
    pub port: u16,
}

/// Where a message goes.
#[derive(Debug)]
pub enum TargetAddress {
    Ip(SocketAddress),
    Domain(String, u16),
}

/// The numbers that a socket works with.
#[derive(Clone, Copy, Debug, PartialEq, Eq, Structural)]
pub enum AddressFamily {
    V4,
    V6,
}

/// How a socket is set up before it is bound. It never blocks.
#[derive(Clone, Copy, Debug, PartialEq, Eq, Structural)]
pub struct SocketPlan {
    pub family: AddressFamily,
    /// Other sockets may use the same address and port.
    pub reuse: bool,
    /// The size that the receive buffer is to have, if it is to have one.
    pub receive_buffer_bytes: Option<usize>,
    /// The socket also takes what comes for the four-byte address.
    pub accept_v4: bool,
}

/// Stands for any address of the host.
pub open spec fn is_unspecified(host: HostAddress) -> bool {
    match host {
        HostAddress::V4(octets) => forall|i: int| 0 <= i < 4 ==> octets@[i] == 0,
        HostAddress::V6(octets) => forall|i: int| 0 <= i < 16 ==> octets@[i] == 0,
    }
}

/// Whether the long form of an address stands for any address of the host.
fn all_zero(octets: &[u8; 16]) -> (zero: bool)
    ensures
        zero == (forall|i: int| 0 <= i < 16 ==> octets@[i] == 0),
{
    let mut index: usize = 0;
    while index < 16
        invariant
            index <= 16,
            forall|i: int| 0 <= i < index ==> octets@[i] == 0,
        decreases 16 - index,
    {
        if octets[index] != 0 {
            assert(octets@[index as int] != 0);
            return false;
        }
        index += 1;
    }
    true
}

/// How a socket is set up that is to be bound to `addr`. Only a socket that is bound to a fixed port
/// of any address also takes what comes for the four-byte address.
pub open spec fn plan_for(addr: SocketAddress, reuse: bool, buf_size: usize) -> SocketPlan {
    SocketPlan {
        family: match addr.host {
            HostAddress::V4(_) => AddressFamily::V4,
            HostAddress::V6(_) => AddressFamily::V6,
        },
        reuse,
        receive_buffer_bytes: if buf_size > 0 {
            Some(buf_size)
        } else {
            None
        },
        accept_v4: addr.host is V6 && is_unspecified(addr.host) && addr.port > 0,
    }
}

/// How a socket is set up that is to be bound to `addr`.
pub fn socket_plan(addr: SocketAddress, reuse: bool, buf_size: usize) -> (plan: SocketPlan)
    ensures
        plan == plan_for(addr, reuse, buf_size),
{
    let (family, any) = match addr.host {
        HostAddress::V4(_) => (AddressFamily::V4, false),
        HostAddress::V6(octets) => (AddressFamily::V6, all_zero(&octets)),
    };
    SocketPlan {
        family,
        reuse,
        receive_buffer_bytes: if buf_size > 0 {
            Some(buf_size)
        } else {
            None
        },
        accept_v4: any && addr.port > 0,
    }
}

/// White space, as Unicode's property `White_Space` has it.
pub open spec fn is_white_space(c: char) -> bool {
    let code = c as int;
    ||| 0x9 <= code <= 0xd
    ||| code == 0x20
    ||| code == 0x85
    ||| code == 0xa0
    ||| code == 0x1680
    ||| 0x2000 <= code <= 0x200a
    ||| code == 0x2028
    ||| code == 0x2029
    ||| code == 0x202f
    ||| code == 0x205f
    ||| code == 0x3000
}

/// The part of a text from `start` up to `end` is what is left of it without the white space around it.
pub open spec fn is_trimmed_at(text: Seq<char>, start: int, end: int) -> bool {
    &&& 0 <= start <= end <= text.len()
    &&& forall|i: int| 0 <= i < start || end <= i < text.len() ==> is_white_space(#[trigger] text[i])
    &&& start < end ==> !is_white_space(text[start]) && !is_white_space(text[end - 1])
}

/// What is left of a text without the white space around it.
pub open spec fn is_trimmed(text: Seq<char>, trimmed: Seq<char>) -> bool {
    exists|start: int, end: int| #[trigger]
        is_trimmed_at(text, start, end) && trimmed == text.subrange(start, end)
}

/// `str::trim`: the text without the white space around it.
pub assume_specification[ str::trim ](text: &str) -> (trimmed: &str)
    ensures
        is_trimmed(text@, trimmed@),
;

/// Whether a proxy is asked for a password: it is, unless the user name is blank.
pub fn proxy_uses_password(username: &str) -> (uses_password: bool)
    ensures
        uses_password == exists|i: int| 0 <= i < username@.len() && !is_white_space(#[trigger] username@[i]),
{
    let name = username.trim();
    proof {
        let (start, end) = choose|start: int, end: int| #[trigger]
            is_trimmed_at(username@, start, end) && name@ == username@.subrange(start, end);
        if start < end {
            assert(!is_white_space(username@[start]));
        }
    }
    !name.is_empty()
}

/// Where a socket without a proxy sends a message: it knows addresses only, and what goes to a name is
/// dropped.
pub fn direct_destination(target: &TargetAddress) -> (destination: Option<SocketAddress>)
    ensures
        destination == match *target {
            TargetAddress::Ip(addr) => Some(addr),
            TargetAddress::Domain(_, _) => None,
        },
{
    match target {
        TargetAddress::Ip(addr) => Some(*addr),
        TargetAddress::Domain(_, _) => None,
    }
}

/// A socket works with the numbers of the address that it is bound to. It also takes what comes for the four-byte
/// address if and only if all sixteen bytes of its own are zero and its port is fixed. It is shared if that is
/// asked for, and has a buffer of the size that is asked for.
pub proof fn sockets_follow_their_address(addr: SocketAddress, reuse: bool, buf_size: usize)
    ensures
        ({
            let plan = plan_for(addr, reuse, buf_size);
            &&& plan.reuse == reuse
            &&& plan.receive_buffer_bytes == Some(buf_size) <==> buf_size > 0
            &&& plan.receive_buffer_bytes is None <==> buf_size == 0
            &&& match addr.host {
                HostAddress::V4(_) => plan.family is V4 && !plan.accept_v4,
                HostAddress::V6(octets) => plan.family is V6 && (plan.accept_v4 <==> (addr.port != 0 && forall|i: int|
                    0 <= i < 16 ==> octets@[i] == 0)),
            }
        }),
{
}

/// White space is that of Unicode: twenty-five characters, from the tab to the ideographic space.
pub proof fn white_space_is_that_of_unicode(c: char)
    ensures
        is_white_space(c) <==> {
            ||| c == '\t' || c == '\n' || c == '\u{b}' || c == '\u{c}' || c == '\r' || c == ' '
            ||| c == '\u{85}' || c == '\u{a0}' || c == '\u{1680}'
            ||| c == '\u{2000}' || c == '\u{2001}' || c == '\u{2002}' || c == '\u{2003}' || c == '\u{2004}'
            ||| c == '\u{2005}' || c == '\u{2006}' || c == '\u{2007}' || c == '\u{2008}' || c == '\u{2009}'
            ||| c == '\u{200a}' || c == '\u{2028}' || c == '\u{2029}' || c == '\u{202f}' || c == '\u{205f}'
            ||| c == '\u{3000}'
        },
{
}

} // verus!
