//! The vocabulary of SOCKS5: constants, commands, address types and messages.
use vstd::prelude::*;

verus! {

/// Version of socks
pub const SOCKS_VERSION: u8 = 0x05;

/// Version of the username / password sub-negotiation (RFC 1929).
pub const USERPASS_VERSION: u8 = 0x01;

/// Value of a reserved field.
pub const RESERVED: u8 = 0x00;

/// DST.addr variant types
#[derive(Clone, Copy, Debug, PartialEq, Eq, Structural)]
pub enum AddrType {
    /// IP V4 address: X'01'
    V4,
    /// DOMAINNAME: X'03'
    Domain,
    /// IP V6 address: X'04'
    V6,
}

/// The `ATYP` byte of an address type.
pub open spec fn addr_type_byte(t: AddrType) -> u8 {
    match t {
        AddrType::V4 => 0x01,
        AddrType::Domain => 0x03,
        AddrType::V6 => 0x04,
    }
}

/// The address type that `n` stands for, if any.
pub open spec fn addr_type_of(n: int) -> Option<AddrType> {
    if n == 1 {
        Some(AddrType::V4)
    } else if n == 3 {
        Some(AddrType::Domain)
    } else if n == 4 {
        Some(AddrType::V6)
    } else {
        None
    }
}

impl AddrType {
    /// Parse Byte to Command
    pub fn from(n: usize) -> (t: Option<AddrType>)
        ensures
            t == addr_type_of(n as int),
    {
        match n {
            1 => Some(AddrType::V4),
            3 => Some(AddrType::Domain),
            4 => Some(AddrType::V6),
            _ => None,
        }
    }

    /// The byte that stands for this address type on the wire.
    pub fn code(self) -> (byte: u8)
        ensures
            byte == addr_type_byte(self),
    {
        match self {
            AddrType::V4 => 0x01,
            AddrType::Domain => 0x03,
            AddrType::V6 => 0x04,
        }
    }
}

/// SOCK5 CMD Type
#[derive(Clone, Copy, Debug, PartialEq, Eq, Structural)]
pub enum SockCommand {
    Connect,
    Bind,
    UdpAssosiate,
}

/// The `CMD` byte of a command.
pub open spec fn command_byte(command: SockCommand) -> u8 {
    match command {
        SockCommand::Connect => 0x01,
        SockCommand::Bind => 0x02,
        SockCommand::UdpAssosiate => 0x03,
    }
}

/// The command that `n` stands for, if any.
pub open spec fn command_of(n: int) -> Option<SockCommand> {
    if n == 1 {
        Some(SockCommand::Connect)
    } else if n == 2 {
        Some(SockCommand::Bind)
    } else if n == 3 {
        Some(SockCommand::UdpAssosiate)
    } else {
        None
    }
}

impl SockCommand {
    /// Parse Byte to Command
    pub fn from(n: usize) -> (command: Option<SockCommand>)
        ensures
            command == command_of(n as int),
    {
        match n {
            1 => Some(SockCommand::Connect),
            2 => Some(SockCommand::Bind),
            3 => Some(SockCommand::UdpAssosiate),
            _ => None,
        }
    }

    /// The byte that stands for this command on the wire.
    pub fn code(self) -> (byte: u8)
        ensures
            byte == command_byte(self),
    {
        match self {
            SockCommand::Connect => 0x01,
            SockCommand::Bind => 0x02,
            SockCommand::UdpAssosiate => 0x03,
        }
    }
}

/// Client Authentication Methods
#[derive(Clone, Copy, Debug, PartialEq, Eq, Structural)]
pub enum AuthMethods {
    /// No Authentication
    NoAuth,
    /// Authenticate with a username / password
    UserPass,
    /// Cannot authenticate
    NoMethods,
}

/// The `METHOD` byte of an authentication method.
pub open spec fn method_byte(method: AuthMethods) -> u8 {
    match method {
        AuthMethods::NoAuth => 0x00,
        AuthMethods::UserPass => 0x02,
        AuthMethods::NoMethods => 0xFF,
    }
}

impl AuthMethods {
    /// The byte that stands for this method on the wire.
    pub fn code(self) -> (byte: u8)
        ensures
            byte == method_byte(self),
    {
        match self {
            AuthMethods::NoAuth => 0x00,
            AuthMethods::UserPass => 0x02,
            AuthMethods::NoMethods => 0xFF,
        }
    }
}

/// Proxy User Request
#[derive(Clone, Debug, PartialEq, Eq)]
pub struct SOCKSReq {
    pub version: u8,
    pub command: SockCommand,
    pub addr_type: AddrType,
    pub addr: Vec<u8>,
    pub port: u16,
}

/// The mathematical content of a [`SOCKSReq`].
#[verifier::ext_equal]
pub struct RequestView {
    pub version: u8,
    pub command: SockCommand,
    pub addr_type: AddrType,
    pub addr: Seq<u8>,
    pub port: u16,
}

impl View for SOCKSReq {
    type V = RequestView;

    open spec fn view(&self) -> RequestView {
        RequestView {
            version: self.version,
            command: self.command,
            addr_type: self.addr_type,
            addr: self.addr@,
            port: self.port,
        }
    }
}

/// A parsed RFC 1928 S7 UDP request header.
#[derive(Clone, Debug, PartialEq, Eq)]
pub struct UdpRequest<'a> {
    pub frag: u8,
    pub addr_type: AddrType,
    pub addr: &'a [u8],
    pub port: u16,
}

/// The mathematical content of a [`UdpRequest`].
#[verifier::ext_equal]
pub struct UdpRequestView {
    pub frag: u8,
    pub addr_type: AddrType,
    pub addr: Seq<u8>,
    pub port: u16,
}

impl<'a> View for UdpRequest<'a> {
    type V = UdpRequestView;

    open spec fn view(&self) -> UdpRequestView {
        UdpRequestView {
            frag: self.frag,
            addr_type: self.addr_type,
            addr: self.addr@,
            port: self.port,
        }
    }
}

/// A parsed USERPASS sub-negotiation frame.
#[derive(Clone, Debug, PartialEq, Eq)]
pub struct UserPassRequest<'a> {
    pub version: u8,
    pub username: &'a [u8],
    pub password: &'a [u8],
}

/// The mathematical content of a [`UserPassRequest`].
#[verifier::ext_equal]
pub struct UserPassView {
    pub version: u8,
    pub username: Seq<u8>,
    pub password: Seq<u8>,
}

impl<'a> View for UserPassRequest<'a> {
    type V = UserPassView;

    open spec fn view(&self) -> UserPassView {
        UserPassView {
            version: self.version,
            username: self.username@,
            password: self.password@,
        }
    }
}

/// Reading a byte back gives the value that was written, and nothing else is
/// read: address types, commands and their bytes stand for each other.
pub proof fn law_bytes_and_names_agree(n: int, t: AddrType, command: SockCommand)
    ensures
        addr_type_of(addr_type_byte(t) as int) == Some(t),
        command_of(command_byte(command) as int) == Some(command),
        addr_type_of(n) matches Some(found) ==> addr_type_byte(found) == n,
        command_of(n) matches Some(found) ==> command_byte(found) == n,
        addr_type_of(n) is None <==> n != 1 && n != 3 && n != 4,
        command_of(n) is None <==> n != 1 && n != 2 && n != 3,
{
}

} // verus!
