//! The OSCQuery documents: the host description and the tree of nodes that
//! an OSCQuery client reads to learn which OSC addresses the host listens to.
use vstd::prelude::*;
use vstd::string::*;

verus! {

/// The host description that answers a `HOST_INFO` query.
#[derive(Debug, Clone)]
pub struct OSCQHostInfo {
    /// Name under which the host presents itself.
    pub name: Option<String>,
    /// The OSCQuery extensions the host supports, each with whether it is
    /// enabled; no name occurs twice.
    pub extensions: Vec<(String, bool)>,
    /// Address on which the host receives OSC.
    pub osc_ip: Option<String>,
    /// Port on which the host receives OSC.
    pub osc_port: Option<u16>,
    /// Transport protocol of the OSC stream.
    pub osc_transport: String,
}

/// The transport that a host description names when none is given: UDP.
pub fn default_osc_transport() -> (res: String)
    ensures
        res@ == "UDP"@,
{
    "UDP".to_owned()
}

/// The address on which this host receives OSC: the loopback address.
pub fn loopback_ip() -> (res: String)
    ensures
        res@ == "127.0.0.1"@,
{
    "127.0.0.1".to_owned()
}

/// No two extensions share a name.
pub open spec fn extension_names_distinct(extensions: Seq<(String, bool)>) -> bool {
    forall|i: int, j: int|
        0 <= i < j < extensions.len() ==> #[trigger] extensions[i].0@ != #[trigger] extensions[j].0@
}

impl OSCQHostInfo {
    /// Whether this is the default host description with the given name and
    /// OSC port: the `ACCESS` extension enabled and nothing else, OSC on the
    /// loopback address over UDP.
    pub open spec fn is_default_with(&self, name: Option<Seq<char>>, osc_port: Option<u16>) -> bool {
        &&& match (self.name, name) {
            (None, None) => true,
            (Some(n), Some(m)) => n@ == m,
            _ => false,
        }
        &&& self.extensions@.len() == 1
        &&& self.extensions@[0].0@ == "ACCESS"@
        &&& self.extensions@[0].1
        &&& self.osc_ip matches Some(ip) && ip@ == "127.0.0.1"@
        &&& self.osc_port == osc_port
        &&& self.osc_transport@ == "UDP"@
    }

    /// The host description of an application named `app_name` that receives
    /// OSC on `osc_port` of the loopback address.
    pub fn for_application(app_name: String, osc_port: u16) -> (res: Self)
        ensures
            res.is_default_with(Some(app_name@), Some(osc_port)),
            extension_names_distinct(res.extensions@),
            res.extensions@.len() == 1,
            res.extensions@[0].0@ == "ACCESS"@,
            res.extensions@[0].1,
    {
        let mut info = Self::default();
        info.name = Some(app_name);
        info.osc_port = Some(osc_port);
        info
    }
}

impl Default for OSCQHostInfo {
    fn default() -> (res: Self)
        ensures
            res.is_default_with(None, None),
            extension_names_distinct(res.extensions@),
    {
        let mut extensions: Vec<(String, bool)> = Vec::new();
        extensions.push(("ACCESS".to_owned(), true));
        OSCQHostInfo {
            name: None,
            extensions,
            osc_ip: Some(loopback_ip()),
            osc_port: None,
            osc_transport: default_osc_transport(),
        }
    }
}

/// A value that an OSCQuery node reports. A number is held as the bit pattern
/// of its IEEE 754 binary64 encoding.
#[derive(Debug, Clone)]
pub enum OSCValue {
    Number(u64),
    Boolean(bool),
    String(String),
}

/// A node of the OSCQuery address tree.
#[derive(Debug)]
pub struct OSCQNode {
    /// The OSC address of the node, such as `/avatar/parameters`.
    pub full_path: String,
    /// The child nodes, each under the path piece that leads to it.
    pub contents: Vec<(String, OSCQNode)>,
    /// The OSC type tag string of the node's value.
    pub ty: Option<String>,
    /// Access flags: bit 0 readable, bit 1 writable.
    pub access: Option<u32>,
    /// The node's current value.
    pub value: Option<Vec<OSCValue>>,
}

impl OSCQNode {
    /// A node at `full_path` with no children and no type, access or value.
    pub fn with_full_path(full_path: String) -> (res: Self)
        ensures
            res.full_path == full_path,
            res.contents@.len() == 0,
            res.ty is None,
            res.access is None,
            res.value is None,
    {
        OSCQNode { full_path, contents: Vec::new(), ty: None, access: None, value: None }
    }
}

impl Default for OSCQNode {
    /// The root node, at `/`.
    fn default() -> (res: Self)
        ensures
            res.full_path@ == "/"@,
            res.contents@.len() == 0,
            res.ty is None,
            res.access is None,
            res.value is None,
    {
        Self::with_full_path("/".to_owned())
    }
}

/// The names and flags of a list of extensions.
pub open spec fn extension_views(e: Seq<(String, bool)>) -> Seq<(Seq<char>, bool)> {
    e.map_values(|x: (String, bool)| (x.0@, x.1))
}

/// Every default host description, named or not and with any OSC port, has
/// exactly one extension, `ACCESS`, enabled; so any two of them have the same
/// extensions.
pub proof fn default_host_extensions(
    a: OSCQHostInfo,
    b: OSCQHostInfo,
    name_a: Option<Seq<char>>,
    port_a: Option<u16>,
    name_b: Option<Seq<char>>,
    port_b: Option<u16>,
)
    requires
        a.is_default_with(name_a, port_a),
        b.is_default_with(name_b, port_b),
    ensures
        extension_views(a.extensions@) == seq![("ACCESS"@, true)],
        extension_views(a.extensions@) == extension_views(b.extensions@),
{
    assert(extension_views(a.extensions@) =~= seq![("ACCESS"@, true)]);
    assert(extension_views(b.extensions@) =~= seq![("ACCESS"@, true)]);
}

} // verus!
