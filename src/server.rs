use crate::json::{bool_json, extensions_json, host_info_json, host_info_text, node_json, node_to_json, quoted};
use crate::models::{
    Error, OSCMethod, OSCMethodAccessType, OSCQueryHostInfo, OSCQueryInitError, OSCQueryNode,
};
use crate::text::{decimal_text, path_segments};
use crate::tree::{build_root_node, describes, in_tree, lookup, method_segments, resolve};
use vstd::prelude::*;

verus! {

/// The methods `ms` have pairwise different addresses.
pub open spec fn addresses_unique(ms: Seq<OSCMethod>) -> bool {
    forall|i: int, j: int|
        0 <= i < ms.len() && 0 <= j < ms.len() && #[trigger] ms[i].address@ == #[trigger] ms[j].address@
            ==> i == j
}

pub open spec fn has_address(ms: Seq<OSCMethod>, a: Seq<char>) -> bool {
    exists|i: int| 0 <= i < ms.len() && #[trigger] ms[i].address@ == a
}

pub open spec fn address_index(ms: Seq<OSCMethod>, a: Seq<char>) -> int {
    choose|i: int| 0 <= i < ms.len() && #[trigger] ms[i].address@ == a
}

/// `ms` after registering `ad`: it replaces the method of the same
/// address, or comes last.
pub open spec fn upserted(ms: Seq<OSCMethod>, ad: OSCMethod) -> Seq<OSCMethod> {
    if has_address(ms, ad.address@) {
        ms.update(address_index(ms, ad.address@), ad)
    } else {
        ms.push(ad)
    }
}

/// `ms` without the method of address `a`.
pub open spec fn removed(ms: Seq<OSCMethod>, a: Seq<char>) -> Seq<OSCMethod> {
    if has_address(ms, a) {
        ms.remove(address_index(ms, a))
    } else {
        ms
    }
}

/// The state of the query server: whether it runs, what it advertises,
/// the registered methods and the description tree built from them.
pub struct ServerState {
    pub initialized: bool,
    pub service_name: Option<String>,
    pub osc_methods: Vec<OSCMethod>,
    pub root_node: Option<OSCQueryNode>,
    pub osc_port: Option<u16>,
    pub oscquery_port: Option<u16>,
}

/// What the discovery helper is to advertise: the OSC port, the query
/// port and the service name.
pub struct Advertisement {
    pub osc_port: u16,
    pub oscquery_port: u16,
    pub service_name: String,
}

/// The answer to one HTTP request of the query protocol. Every answer
/// carries `Access-Control-Allow-Origin: *`; `json` says whether it also
/// carries `Content-Type: application/json`.
pub struct QueryResponse {
    pub status: u16,
    pub json: bool,
    pub body: String,
}

impl ServerState {
    /// The registered addresses are unique, and the tree, once built,
    /// describes the registered methods.
    pub open spec fn wf(&self) -> bool {
        &&& addresses_unique(self.osc_methods@)
        &&& self.root_node matches Some(r) ==> describes(r, self.osc_methods@)
        &&& self.osc_methods@.len() > 0 ==> self.root_node is Some
    }

    pub open spec fn is_empty(&self) -> bool {
        &&& !self.initialized
        &&& self.service_name is None
        &&& self.osc_methods@.len() == 0
        &&& self.root_node is None
        &&& self.osc_port is None
        &&& self.oscquery_port is None
    }

    pub fn new() -> (r: ServerState)
        ensures
            r.wf(),
            r.is_empty(),
    {
        ServerState {
            initialized: false,
            service_name: None,
            osc_methods: Vec::new(),
            root_node: None,
            osc_port: None,
            oscquery_port: None,
        }
    }

    /// Starts an initialization: records the service name and the OSC
    /// port. Refused, with nothing changed, while already initialized.
    pub fn init(&mut self, service_name: &str, osc_port: u16) -> (r: Result<(), Error>)
        ensures
            old(self).initialized ==> (r matches Err(
                Error::InitError(OSCQueryInitError::AlreadyInitialized),
            )),
            old(self).initialized ==> *final(self) == *old(self),
            !old(self).initialized ==> r is Ok,
            !old(self).initialized ==> *final(self) == (ServerState {
                initialized: true,
                service_name: final(self).service_name,
                osc_port: Some(osc_port),
                ..*old(self)
            }),
            !old(self).initialized ==> final(self).service_name is Some
                && final(self).service_name->0@ == service_name@,
    {
        if self.initialized {
            return Err(Error::InitError(OSCQueryInitError::AlreadyInitialized));
        }
        self.initialized = true;
        self.service_name = Some(String::from_str(service_name));
        self.osc_port = Some(osc_port);
        Ok(())
    }

    /// Ends an initialization whose query server listens on
    /// `oscquery_port`.
    pub fn complete_init(&mut self, oscquery_port: u16)
        ensures
            *final(self) == (ServerState { oscquery_port: Some(oscquery_port), ..*old(self) }),
    {
        self.oscquery_port = Some(oscquery_port);
    }

    /// Gives up an initialization that could not be completed: the server
    /// counts as not initialized again.
    pub fn abort_init(&mut self)
        ensures
            *final(self) == (ServerState { initialized: false, ..*old(self) }),
    {
        self.initialized = false;
    }

    /// Succeeds exactly while initialized.
    pub fn require_initialized(&self) -> (r: Result<(), Error>)
        ensures
            self.initialized <==> r is Ok,
            !self.initialized ==> r matches Err(
                Error::InitError(OSCQueryInitError::NotYetInitialized),
            ),
    {
        if !self.initialized {
            return Err(Error::InitError(OSCQueryInitError::NotYetInitialized));
        }
        Ok(())
    }

    /// Ends the server's state: every field goes back to empty. Refused,
    /// with nothing changed, while not initialized.
    pub fn deinit(&mut self) -> (r: Result<(), Error>)
        requires
            old(self).wf(),
        ensures
            !old(self).initialized ==> (r matches Err(
                Error::InitError(OSCQueryInitError::NotYetInitialized),
            )),
            !old(self).initialized ==> *final(self) == *old(self),
            old(self).initialized ==> r is Ok && final(self).is_empty(),
            final(self).wf(),
    {
        if !self.initialized {
            return Err(Error::InitError(OSCQueryInitError::NotYetInitialized));
        }
        self.osc_port = None;
        self.oscquery_port = None;
        self.service_name = None;
        self.root_node = None;
        self.osc_methods = Vec::new();
        self.initialized = false;
        Ok(())
    }

    /// What is to be advertised: refused while not initialized, and before
    /// both ports and the service name are known.
    pub fn advertise(&self) -> (r: Result<Advertisement, Error>)
        ensures
            !self.initialized ==> r matches Err(
                Error::InitError(OSCQueryInitError::NotYetInitialized),
            ),
            self.initialized && (self.osc_port is None || self.oscquery_port is None
                || self.service_name is None) ==> r matches Err(
                Error::InitError(OSCQueryInitError::OSCQueryinitFailed),
            ),
            r matches Ok(a) ==> self.initialized && self.osc_port == Some(a.osc_port)
                && self.oscquery_port == Some(a.oscquery_port) && self.service_name is Some
                && a.service_name@ == self.service_name->0@,
            self.initialized && self.osc_port is Some && self.oscquery_port is Some
                && self.service_name is Some ==> r is Ok,
    {
        if !self.initialized {
            return Err(Error::InitError(OSCQueryInitError::NotYetInitialized));
        }
        match (self.osc_port, self.oscquery_port, &self.service_name) {
            (Some(osc_port), Some(oscquery_port), Some(name)) => Ok(
                Advertisement { osc_port, oscquery_port, service_name: name.clone() },
            ),
            _ => Err(Error::InitError(OSCQueryInitError::OSCQueryinitFailed)),
        }
    }

    /// Records a new OSC port, then tells what is to be advertised.
    pub fn set_osc_port(&mut self, port: u16) -> (r: Result<Advertisement, Error>)
        ensures
            *final(self) == (ServerState { osc_port: Some(port), ..*old(self) }),
            !old(self).initialized ==> r matches Err(
                Error::InitError(OSCQueryInitError::NotYetInitialized),
            ),
            old(self).initialized && (old(self).oscquery_port is None || old(self).service_name is None)
                ==> r matches Err(Error::InitError(OSCQueryInitError::OSCQueryinitFailed)),
            old(self).initialized && old(self).oscquery_port is Some && old(self).service_name is Some
                ==> r is Ok,
            r matches Ok(a) ==> a.osc_port == port && old(self).oscquery_port == Some(a.oscquery_port)
                && old(self).service_name is Some && old(self).service_name->0@ == a.service_name@,
    {
        self.osc_port = Some(port);
        self.advertise()
    }

    /// Rebuilds the description tree, in full, from the registered methods.
    pub fn update_oscquery_root_node(&mut self)
        requires
            addresses_unique(old(self).osc_methods@),
        ensures
            final(self).wf(),
            final(self).root_node is Some,
            *final(self) == (ServerState { root_node: final(self).root_node, ..*old(self) }),
    {
        self.root_node = Some(build_root_node(&self.osc_methods));
    }

    /// Registers `ad`, replacing the method of the same address, and
    /// rebuilds the tree.
    pub fn add_osc_method(&mut self, ad: OSCMethod)
        requires
            old(self).wf(),
        ensures
            final(self).wf(),
            final(self).osc_methods@ == upserted(old(self).osc_methods@, ad),
            final(self).root_node is Some,
            *final(self) == (ServerState {
                osc_methods: final(self).osc_methods,
                root_node: final(self).root_node,
                ..*old(self)
            }),
    {
        let ghost ms = self.osc_methods@;
        match find_method(&self.osc_methods, &ad.address) {
            Some(i) => {
                proof {
                    lemma_address_index(ms, ad.address@, i as int);
                }
                self.osc_methods.set(i, ad);
                assert forall|a: int, b: int|
                    0 <= a < self.osc_methods@.len() && 0 <= b < self.osc_methods@.len()
                        && #[trigger] self.osc_methods@[a].address@
                        == #[trigger] self.osc_methods@[b].address@ implies a == b by {
                    assert(ms[a].address@ == self.osc_methods@[a].address@);
                    assert(ms[b].address@ == self.osc_methods@[b].address@);
                }
            },
            None => {
                self.osc_methods.push(ad);
                assert forall|a: int, b: int|
                    0 <= a < self.osc_methods@.len() && 0 <= b < self.osc_methods@.len()
                        && #[trigger] self.osc_methods@[a].address@
                        == #[trigger] self.osc_methods@[b].address@ implies a == b by {
                    if a < ms.len() && b < ms.len() {
                        assert(ms[a] == self.osc_methods@[a]);
                        assert(ms[b] == self.osc_methods@[b]);
                    } else if a < ms.len() {
                        assert(ms[a] == self.osc_methods@[a]);
                    } else if b < ms.len() {
                        assert(ms[b] == self.osc_methods@[b]);
                    }
                }
            },
        }
        self.update_oscquery_root_node();
    }

    /// Registers write access to the avatar parameters, `/avatar`.
    pub fn receive_vrchat_avatar_parameters(&mut self)
        requires
            old(self).wf(),
        ensures
            final(self).wf(),
            final(self).root_node is Some,
            exists|ad: OSCMethod|
                {
                    &&& ad.address@ == "/avatar"@
                    &&& ad.ad_type == OSCMethodAccessType::Write
                    &&& ad.value_type is None
                    &&& ad.value is None
                    &&& ad.description is Some
                    &&& ad.description->0@ == "VRChat Avatar Parameters"@
                    &&& final(self).osc_methods@ == upserted(old(self).osc_methods@, ad)
                },
    {
        let ad = OSCMethod {
            description: Some(String::from_str("VRChat Avatar Parameters")),
            address: String::from_str("/avatar"),
            ad_type: OSCMethodAccessType::Write,
            value_type: None,
            value: None,
        };
        self.add_osc_method(ad);
    }

    /// Registers write access to the tracking data, `/tracking/vrsystem`.
    pub fn receive_vrchat_tracking_data(&mut self)
        requires
            old(self).wf(),
        ensures
            final(self).wf(),
            final(self).root_node is Some,
            exists|ad: OSCMethod|
                {
                    &&& ad.address@ == "/tracking/vrsystem"@
                    &&& ad.ad_type == OSCMethodAccessType::Write
                    &&& ad.value_type is None
                    &&& ad.value is None
                    &&& ad.description is Some
                    &&& ad.description->0@ == "VRChat VR Tracking Data"@
                    &&& final(self).osc_methods@ == upserted(old(self).osc_methods@, ad)
                },
    {
        let ad = OSCMethod {
            description: Some(String::from_str("VRChat VR Tracking Data")),
            address: String::from_str("/tracking/vrsystem"),
            ad_type: OSCMethodAccessType::Write,
            value_type: None,
            value: None,
        };
        self.add_osc_method(ad);
    }

    /// Removes the method of address `full_address`; the tree is rebuilt
    /// where one was removed, and nothing changes where none was there.
    pub fn remove_osc_method(&mut self, full_address: String)
        requires
            old(self).wf(),
        ensures
            final(self).wf(),
            final(self).osc_methods@ == removed(old(self).osc_methods@, full_address@),
            !has_address(old(self).osc_methods@, full_address@) ==> *final(self) == *old(self),
            has_address(old(self).osc_methods@, full_address@) ==> final(self).root_node is Some,
            *final(self) == (ServerState {
                osc_methods: final(self).osc_methods,
                root_node: final(self).root_node,
                ..*old(self)
            }),
    {
        let ghost ms = self.osc_methods@;
        match find_method(&self.osc_methods, &full_address) {
            Some(i) => {
                proof {
                    lemma_address_index(ms, full_address@, i as int);
                }
                self.osc_methods.remove(i);
                assert forall|a: int, b: int|
                    0 <= a < self.osc_methods@.len() && 0 <= b < self.osc_methods@.len()
                        && #[trigger] self.osc_methods@[a].address@
                        == #[trigger] self.osc_methods@[b].address@ implies a == b by {
                    let a0 = if a < i {
                        a
                    } else {
                        a + 1
                    };
                    let b0 = if b < i {
                        b
                    } else {
                        b + 1
                    };
                    assert(ms[a0] == self.osc_methods@[a]);
                    assert(ms[b0] == self.osc_methods@[b]);
                }
                self.update_oscquery_root_node();
            },
            None => {},
        }
    }

    /// Sets the serialized value of the method of address `full_address`
    /// and rebuilds the tree; nothing changes where there is no such
    /// method.
    pub fn set_osc_method_value(&mut self, full_address: String, value: Option<String>)
        requires
            old(self).wf(),
        ensures
            final(self).wf(),
            !has_address(old(self).osc_methods@, full_address@) ==> *final(self) == *old(self),
            has_address(old(self).osc_methods@, full_address@) ==> {
                let i = address_index(old(self).osc_methods@, full_address@);
                &&& final(self).osc_methods@ == old(self).osc_methods@.update(
                    i,
                    OSCMethod { value, ..old(self).osc_methods@[i] },
                )
                &&& final(self).root_node is Some
            },
            *final(self) == (ServerState {
                osc_methods: final(self).osc_methods,
                root_node: final(self).root_node,
                ..*old(self)
            }),
    {
        let ghost ms = self.osc_methods@;
        match find_method(&self.osc_methods, &full_address) {
            Some(i) => {
                proof {
                    lemma_address_index(ms, full_address@, i as int);
                }
                self.osc_methods[i].value = value;
                assert(self.osc_methods@ == ms.update(i as int, OSCMethod { value, ..ms[i as int] }));
                assert forall|a: int, b: int|
                    0 <= a < self.osc_methods@.len() && 0 <= b < self.osc_methods@.len()
                        && #[trigger] self.osc_methods@[a].address@
                        == #[trigger] self.osc_methods@[b].address@ implies a == b by {
                    assert(ms[a].address@ == self.osc_methods@[a].address@);
                    assert(ms[b].address@ == self.osc_methods@[b].address@);
                }
                self.update_oscquery_root_node();
            },
            None => {},
        }
    }
}

/// The host information document of a server named `name` whose OSC
/// port is `osc_port`: it speaks UDP on the loopback address and supports
/// the access, value and description extensions.
pub open spec fn host_info_doc(name: Seq<char>, osc_port: u16) -> Seq<char> {
    "{\"NAME\":"@ + quoted(name) + ",\"OSC_TRANSPORT\":"@ + quoted("UDP"@) + ",\"OSC_IP\":"@
        + quoted("127.0.0.1"@) + ",\"OSC_PORT\":"@ + decimal_text(osc_port as nat)
        + ",\"EXTENSIONS\":{"@ + quoted("ACCESS"@) + ":"@ + bool_json(true) + ","@ + quoted(
        "VALUE"@,
    ) + ":"@ + bool_json(true) + ","@ + quoted("DESCRIPTION"@) + ":"@ + bool_json(true) + "}}"@
}

pub open spec fn opt_str_view(q: Option<&str>) -> Option<Seq<char>> {
    match q {
        Some(s) => Some(s@),
        None => None,
    }
}

impl ServerState {
    /// The status of the answer to a request for `path` with the query
    /// string `query`.
    pub open spec fn query_status(&self, path: Seq<char>, query: Option<Seq<char>>) -> u16 {
        match query {
            Some(q) => if q == "HOST_INFO"@ && self.service_name is Some && self.osc_port is Some {
                200
            } else {
                204
            },
            None => if self.found_node(path) is Some {
                200
            } else {
                204
            },
        }
    }

    /// The node that a request for `address` finds, if the tree is built.
    pub open spec fn found_node(&self, address: Seq<char>) -> Option<OSCQueryNode> {
        match self.root_node {
            Some(root) => lookup(root, path_segments(address)),
            None => None,
        }
    }

    /// The JSON of the node at `address`; nothing where the tree is not
    /// built or a segment of `address` has no node.
    pub fn get_json_for_osc_address(&self, address: &str) -> (r: Option<String>)
        requires
            self.wf(),
        ensures
            match self.found_node(address@) {
                Some(n) => r is Some && r->0@ == node_json(n),
                None => r is None,
            },
    {
        match &self.root_node {
            Some(root) => match resolve(root, address) {
                Some(n) => Some(node_to_json(n)),
                None => None,
            },
            None => None,
        }
    }

    /// The host information, once the service name and the OSC port are
    /// known.
    pub fn host_info(&self) -> (r: Option<OSCQueryHostInfo>)
        ensures
            (self.service_name is Some && self.osc_port is Some) <==> r is Some,
            r matches Some(h) ==> host_info_text(h) == host_info_doc(
                self.service_name->0@,
                self.osc_port->0,
            ),
    {
        match (&self.service_name, self.osc_port) {
            (Some(name), Some(osc_port)) => {
                let extensions = vec![
                    (String::from_str("ACCESS"), true),
                    (String::from_str("VALUE"), true),
                    (String::from_str("DESCRIPTION"), true),
                ];
                let h = OSCQueryHostInfo {
                    name: name.clone(),
                    osc_transport: String::from_str("UDP"),
                    osc_ip: String::from_str("127.0.0.1"),
                    osc_port,
                    extensions,
                };
                proof {
                    let es = h.extensions@;
                    let e2 = es.drop_last();
                    let e1 = e2.drop_last();
                    assert(e1.drop_last() == Seq::<(String, bool)>::empty());
                    assert(extensions_json(e1.drop_last()) == Seq::<char>::empty());
                    assert(e1.len() == 1 && e1.last() == es[0]);
                    assert(e2.len() == 2 && e2.last() == es[1]);
                    assert(extensions_json(e1) =~= quoted("ACCESS"@) + ":"@ + bool_json(true));
                    assert(extensions_json(e2) =~= quoted("ACCESS"@) + ":"@ + bool_json(true) + ","@
                        + quoted("VALUE"@) + ":"@ + bool_json(true));
                    assert(extensions_json(es) =~= quoted("ACCESS"@) + ":"@ + bool_json(true) + ","@
                        + quoted("VALUE"@) + ":"@ + bool_json(true) + ","@ + quoted("DESCRIPTION"@)
                        + ":"@ + bool_json(true));
                    assert(host_info_text(h) =~= host_info_doc(name@, osc_port));
                }
                Some(h)
            },
            _ => None,
        }
    }

    /// The JSON of the host information, once it is known.
    pub fn get_host_info_json(&self) -> (r: Option<String>)
        ensures
            (self.service_name is Some && self.osc_port is Some) <==> r is Some,
            r matches Some(t) ==> t@ == host_info_doc(self.service_name->0@, self.osc_port->0),
    {
        match self.host_info() {
            Some(h) => Some(host_info_json(&h)),
            None => None,
        }
    }

    /// Answers a request for `path` with the query string `query`: the
    /// host information for `HOST_INFO`, "Unknown Attribute" with 204 for
    /// any other query, else the node at `path` with 200, or 204 with an
    /// empty body where there is none.
    pub fn handle_oscquery_request(&self, path: &str, query: Option<&str>) -> (r: QueryResponse)
        requires
            self.wf(),
        ensures
            r.status == self.query_status(path@, opt_str_view(query)),
            query is None ==> match self.found_node(path@) {
                Some(n) => r.status == 200 && r.json && r.body@ == node_json(n),
                None => r.status == 204 && !r.json && r.body@.len() == 0,
            },
            query matches Some(q) && q@ == "HOST_INFO"@ ==> if self.service_name is Some
                && self.osc_port is Some {
                r.status == 200 && r.json && r.body@ == host_info_doc(
                    self.service_name->0@,
                    self.osc_port->0,
                )
            } else {
                r.status == 204 && !r.json && r.body@.len() == 0
            },
            query matches Some(q) && q@ != "HOST_INFO"@ ==> r.status == 204 && !r.json && r.body@
                == "Unknown Attribute"@,
    {
        match query {
            Some(q) => {
                let asked = String::from_str(q);
                let host_info_query = String::from_str("HOST_INFO");
                if asked.eq(&host_info_query) {
                    match self.get_host_info_json() {
                        Some(body) => QueryResponse { status: 200, json: true, body },
                        None => QueryResponse { status: 204, json: false, body: String::new() },
                    }
                } else {
                    QueryResponse {
                        status: 204,
                        json: false,
                        body: String::from_str("Unknown Attribute"),
                    }
                }
            },
            None => match self.get_json_for_osc_address(path) {
                Some(body) => QueryResponse { status: 200, json: true, body },
                None => QueryResponse { status: 204, json: false, body: String::new() },
            },
        }
    }
}

/// A request for a prefix of a registered address is answered with 200;
/// one for a path that leaves the tree, with 204.
pub proof fn lemma_query_resolution(s: ServerState, path: Seq<char>)
    requires
        s.wf(),
    ensures
        (exists|i: int|
            0 <= i < s.osc_methods@.len() && path_segments(path).is_prefix_of(
                #[trigger] method_segments(s.osc_methods@[i]),
            )) ==> s.query_status(path, None) == 200,
        !in_tree(s.osc_methods@, path_segments(path)) ==> s.query_status(path, None) == 204,
{
    if exists|i: int|
        0 <= i < s.osc_methods@.len() && path_segments(path).is_prefix_of(
            #[trigger] method_segments(s.osc_methods@[i]),
        ) {
        assert(in_tree(s.osc_methods@, path_segments(path)));
    }
}

proof fn lemma_address_index(ms: Seq<OSCMethod>, a: Seq<char>, i: int)
    requires
        addresses_unique(ms),
        0 <= i < ms.len(),
        ms[i].address@ == a,
    ensures
        has_address(ms, a),
        address_index(ms, a) == i,
{
    assert(has_address(ms, a));
    let j = address_index(ms, a);
    assert(ms[j].address@ == ms[i].address@);
}

/// The index of the method of address `address`, if there is one.
fn find_method(ms: &Vec<OSCMethod>, address: &String) -> (r: Option<usize>)
    ensures
        match r {
            Some(i) => i < ms.len() && ms@[i as int].address@ == address@,
            None => !has_address(ms@, address@),
        },
{
    let mut i: usize = 0;
    while i < ms.len()
        invariant
            i <= ms.len(),
            forall|j: int| 0 <= j < i ==> #[trigger] ms@[j].address@ != address@,
        decreases ms.len() - i,
    {
        if ms[i].address == *address {
            return Some(i);
        }
        i = i + 1;
    }
    None
}

} // verus!
