use local_ip_address::Error as LocalIpError;
use mdns_sd::Error as MdnsError;
use vstd::prelude::*;

verus! {

/// The two records that the discovery helper publishes or looks for.
#[derive(Debug, Clone, Copy, PartialEq, Eq, Structural)]
pub enum OSCServiceType {
    OSC,
    Query,
}

/// What an external application may do with an advertised OSC address.
#[derive(Debug, Clone, Copy, PartialEq, Eq, Structural)]
pub enum OSCMethodAccessType {
    /// External applications can only write to this value
    Write,
    /// External applications can only read this value
    Read,
    /// External applications can both read from- and write to this value
    ReadWrite,
}

/// The type of the value held by an advertised OSC address.
#[derive(Debug, Clone, Copy, PartialEq, Eq, Structural)]
pub enum OSCMethodValueType {
    Bool,
    Int,
    Float,
    String,
}

impl OSCMethodValueType {
    /// The OSC type tag of this value type.
    pub open spec fn spec_osc_type(self) -> Seq<char> {
        match self {
            OSCMethodValueType::Bool => seq!['F'],
            OSCMethodValueType::Int => seq!['i'],
            OSCMethodValueType::Float => seq!['f'],
            OSCMethodValueType::String => seq!['s'],
        }
    }

    pub fn osc_type(&self) -> (r: &str)
        ensures
            r@ == self.spec_osc_type(),
    {
        proof {
            reveal_strlit("F");
            reveal_strlit("i");
            reveal_strlit("f");
            reveal_strlit("s");
        }
        match *self {
            OSCMethodValueType::Bool => "F",
            OSCMethodValueType::Int => "i",
            OSCMethodValueType::Float => "f",
            OSCMethodValueType::String => "s",
        }
    }
}

/// One advertised OSC address. The address is the key: at most one method
/// per address is registered at a time.
#[derive(Debug)]
pub struct OSCMethod {
    pub address: String,
    pub ad_type: OSCMethodAccessType,
    /// Only required for "Read" advertisement types.
    pub value_type: Option<OSCMethodValueType>,
    /// Only required for "Read" advertisement types. (Serialized)
    pub value: Option<String>,
    /// Optional human readable description
    pub description: Option<String>,
}

/// The value published for an address: a boolean, the JSON text of a
/// number, or a string.
#[derive(Debug)]
pub enum OSCQueryValue {
    Bool(bool),
    Number(String),
    Text(String),
}

/// One node of the description tree. `contents` maps a path segment to the
/// child node below it; each segment occurs there at most once.
#[derive(Debug)]
pub struct OSCQueryNode {
    pub description: Option<String>,
    pub full_path: String,
    pub access: u8,
    pub contents: Vec<(String, OSCQueryNode)>,
    pub value_type: Option<String>,
    pub value: Option<OSCQueryValue>,
}

/// What the query server tells about the host on a `HOST_INFO` request.
#[derive(Debug)]
pub struct OSCQueryHostInfo {
    pub name: String,
    pub osc_transport: String,
    pub osc_ip: String,
    pub osc_port: u16,
    pub extensions: Vec<(String, bool)>,
}

#[verifier::external_type_specification]
#[verifier::external_body]
pub struct ExIoError(std::io::Error);

#[verifier::external_type_specification]
#[verifier::external_body]
pub struct ExMdnsError(MdnsError);

#[verifier::external_type_specification]
#[verifier::external_body]
pub struct ExLocalIpError(LocalIpError);

/// Failures of the order in which the library is driven, and of starting
/// or stopping its parts.
#[derive(Debug)]
pub enum OSCQueryInitError {
    AlreadyInitialized,
    OSCQueryinitFailed,
    MDNSDaemonInitFailed(MdnsError),
    NotYetInitialized,
    /// The discovery helper executable is not a file at the given path.
    MDNSExecutableNotFound,
    /// The discovery helper could not be (re)started.
    MDNSInitFailed,
    /// The discovery helper could not be stopped: the advertisement may
    /// still be live.
    MDNSStopFailed,
    /// The query server could not be started.
    OSCQueryServiceInitFailed,
}

#[derive(Debug)]
pub enum Error {
    IO(std::io::Error),
    LocalIpUnavailable(LocalIpError),
    InitError(OSCQueryInitError),
    IPV4Unavailable(),
}

} // verus!
