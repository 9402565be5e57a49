//! The interface that owns a prefix, and the next hop of a prefix in a route table.

use crate::ip_net::{IpAddress, IpNet};
use crate::state::structs::clone_addresses;
use vstd::prelude::*;

verus! {

/// An interface of the operating system: its name, its index and its addresses.
#[derive(Debug, PartialEq, Eq)]
pub struct OsInterface {
    pub name: String,
    pub index: u32,
    pub addr: Vec<IpAddress>,
}

pub struct OsInterfaceView {
    pub name: Seq<char>,
    pub index: u32,
    pub addr: Seq<IpAddress>,
}

impl View for OsInterface {
    type V = OsInterfaceView;

    open spec fn view(&self) -> OsInterfaceView {
        OsInterfaceView { name: self.name@, index: self.index, addr: self.addr@ }
    }
}

impl Clone for OsInterface {
    fn clone(&self) -> (copy: Self)
        ensures
            copy@ == self@,
    {
        OsInterface {
            name: self.name.clone(),
            index: self.index,
            addr: clone_addresses(&self.addr),
        }
    }
}

/// The interfaces of a list, each as plain values.
pub open spec fn os_interface_views(interfaces: Seq<OsInterface>) -> Seq<OsInterfaceView> {
    interfaces.map_values(|i: OsInterface| i@)
}

/// One line of the route table.
#[derive(Debug, Clone, Copy, PartialEq, Eq, Structural)]
pub struct Route {
    pub destination: IpAddress,
    pub prefix: u8,
    pub gateway: Option<IpAddress>,
    pub ifindex: Option<u32>,
}

/// Whether an interface has an address inside `net`.
pub open spec fn owns(interface: OsInterfaceView, net: IpNet) -> bool {
    exists|k: int| 0 <= k < interface.addr.len() && net.spec_contains(#[trigger] interface.addr[k])
}

/// Whether interface `i` is the first of the list that has an address inside `net`.
pub open spec fn is_first_owner(interfaces: Seq<OsInterfaceView>, i: int, net: IpNet) -> bool {
    0 <= i < interfaces.len() && owns(interfaces[i], net) && forall|j: int|
        0 <= j < i ==> !owns(#[trigger] interfaces[j], net)
}

/// Whether some interface has an address inside `net`.
pub open spec fn has_owner(interfaces: Seq<OsInterfaceView>, net: IpNet) -> bool {
    exists|i: int| 0 <= i < interfaces.len() && owns(#[trigger] interfaces[i], net)
}

/// The index in the list of the first interface that has an address inside `net`.
pub open spec fn owner_index(interfaces: Seq<OsInterfaceView>, net: IpNet) -> int {
    choose|i: int| is_first_owner(interfaces, i, net)
}

/// The interface that owns `net`: the first of the list with an address inside it.
pub open spec fn owner(interfaces: Seq<OsInterfaceView>, net: IpNet) -> Option<OsInterfaceView> {
    if has_owner(interfaces, net) {
        Some(interfaces[owner_index(interfaces, net)])
    } else {
        None
    }
}

proof fn lemma_owner_index(interfaces: Seq<OsInterfaceView>, i: int, net: IpNet)
    requires
        is_first_owner(interfaces, i, net),
    ensures
        has_owner(interfaces, net),
        owner_index(interfaces, net) == i,
{
    let k = owner_index(interfaces, net);
    assert(is_first_owner(interfaces, k, net));
    assert(owns(interfaces[i], net));
    assert(owns(interfaces[k], net));
}

fn has_address_in(interface: &OsInterface, net: &IpNet) -> (inside: bool)
    ensures
        inside == owns(interface@, *net),
{
    let mut k: usize = 0;
    while k < interface.addr.len()
        invariant
            k <= interface.addr.len(),
            forall|n: int| 0 <= n < k ==> !net.spec_contains(#[trigger] interface@.addr[n]),
        decreases interface.addr.len() - k,
    {
        if net.contains(&interface.addr[k]) {
            assert(net.spec_contains(interface@.addr[k as int]));
            return true;
        }
        k += 1;
    }
    false
}

fn find_owner(net: &IpNet, interfaces: &Vec<OsInterface>) -> (index: Option<usize>)
    ensures
        match index {
            Some(i) => is_first_owner(os_interface_views(interfaces@), i as int, *net),
            None => !has_owner(os_interface_views(interfaces@), *net),
        },
{
    let ghost list = os_interface_views(interfaces@);
    let mut i: usize = 0;
    while i < interfaces.len()
        invariant
            i <= interfaces.len(),
            list == os_interface_views(interfaces@),
            forall|j: int| 0 <= j < i ==> !owns(#[trigger] list[j], *net),
        decreases interfaces.len() - i,
    {
        assert(list[i as int] == interfaces@[i as int]@);
        if has_address_in(&interfaces[i], net) {
            return Some(i);
        }
        i += 1;
    }
    None
}

/// Finds the interface of the operating system that a prefix belongs to.
pub trait GetInterface {
    /// The interface that owns the prefix: the first of the list that has an
    /// address inside it.
    spec fn spec_interface(&self, interfaces: Seq<OsInterfaceView>) -> Option<OsInterfaceView>;

    fn interface_name(&self, interfaces: &Vec<OsInterface>) -> (name: Option<String>)
        ensures
            match self.spec_interface(os_interface_views(interfaces@)) {
                Some(found) => name matches Some(n) && n@ == found.name,
                None => name is None,
            },
    ;

    fn interface(&self, interfaces: &Vec<OsInterface>) -> (found: Option<OsInterface>)
        ensures
            match self.spec_interface(os_interface_views(interfaces@)) {
                Some(owner) => found matches Some(f) && f@ == owner,
                None => found is None,
            },
    ;
}

impl GetInterface for IpNet {
    open spec fn spec_interface(&self, interfaces: Seq<OsInterfaceView>) -> Option<
        OsInterfaceView,
    > {
        owner(interfaces, *self)
    }

    fn interface_name(&self, interfaces: &Vec<OsInterface>) -> (name: Option<String>) {
        if let Some(interface) = self.interface(interfaces) {
            return Some(interface.name);
        }
        None
    }

    fn interface(&self, interfaces: &Vec<OsInterface>) -> (found: Option<OsInterface>) {
        match find_owner(self, interfaces) {
            Some(i) => {
                proof {
                    lemma_owner_index(os_interface_views(interfaces@), i as int, *self);
                }
                Some(interfaces[i].clone())
            },
            None => None,
        }
    }
}

/// Whether a route leads to `net` itself through a gateway: it has the prefix
/// length of `net`, its destination lies in `net`, and it names a gateway.
pub open spec fn is_specific(route: Route, net: IpNet) -> bool {
    net.spec_prefix_len() == route.prefix && net.spec_contains(route.destination)
        && route.gateway is Some
}

/// Whether a route is a default route of `net` through the interface of index
/// `index`: its prefix length is zero, it leaves through that interface, and
/// its gateway is of the family of `net`.
pub open spec fn is_default_via(route: Route, net: IpNet, index: u32) -> bool {
    route.prefix == 0 && route.ifindex == Some(index) && (route.gateway matches Some(gateway)
        && (gateway is V4 <==> net is V4))
}

pub open spec fn is_first_specific(routes: Seq<Route>, i: int, net: IpNet) -> bool {
    0 <= i < routes.len() && is_specific(routes[i], net) && forall|j: int|
        0 <= j < i ==> !is_specific(#[trigger] routes[j], net)
}

pub open spec fn has_specific(routes: Seq<Route>, net: IpNet) -> bool {
    exists|i: int| 0 <= i < routes.len() && is_specific(#[trigger] routes[i], net)
}

pub open spec fn specific_index(routes: Seq<Route>, net: IpNet) -> int {
    choose|i: int| is_first_specific(routes, i, net)
}

pub open spec fn is_first_default(routes: Seq<Route>, i: int, net: IpNet, index: u32) -> bool {
    0 <= i < routes.len() && is_default_via(routes[i], net, index) && forall|j: int|
        0 <= j < i ==> !is_default_via(#[trigger] routes[j], net, index)
}

pub open spec fn has_default(routes: Seq<Route>, net: IpNet, index: u32) -> bool {
    exists|i: int| 0 <= i < routes.len() && is_default_via(#[trigger] routes[i], net, index)
}

pub open spec fn default_index(routes: Seq<Route>, net: IpNet, index: u32) -> int {
    choose|i: int| is_first_default(routes, i, net, index)
}

/// Whether `net` supplies the default route, and its gateway. The first route
/// to `net` itself that has a gateway decides, and `net` is then no default.
/// Without one, the first default route through the interface that owns `net`,
/// with a gateway of its family, decides, and `net` is the default. Without
/// either there is no gateway.
pub open spec fn spec_next_hop(
    net: IpNet,
    routes: Seq<Route>,
    interfaces: Seq<OsInterfaceView>,
) -> (bool, Option<IpAddress>) {
    if has_specific(routes, net) {
        (false, routes[specific_index(routes, net)].gateway)
    } else {
        match owner(interfaces, net) {
            Some(interface) => if has_default(routes, net, interface.index) {
                (true, routes[default_index(routes, net, interface.index)].gateway)
            } else {
                (false, None)
            },
            None => (false, None),
        }
    }
}

proof fn lemma_specific_index(routes: Seq<Route>, i: int, net: IpNet)
    requires
        is_first_specific(routes, i, net),
    ensures
        has_specific(routes, net),
        specific_index(routes, net) == i,
{
    let k = specific_index(routes, net);
    assert(is_first_specific(routes, k, net));
    assert(is_specific(routes[i], net));
    assert(is_specific(routes[k], net));
}

proof fn lemma_default_index(routes: Seq<Route>, i: int, net: IpNet, index: u32)
    requires
        is_first_default(routes, i, net, index),
    ensures
        has_default(routes, net, index),
        default_index(routes, net, index) == i,
{
    let k = default_index(routes, net, index);
    assert(is_first_default(routes, k, net, index));
    assert(is_default_via(routes[i], net, index));
    assert(is_default_via(routes[k], net, index));
}

/// Resolves the next hop of `net` in a snapshot of the route table.
pub fn next_hop(net: IpNet, routes: &Vec<Route>, interfaces: &Vec<OsInterface>) -> (hop: (
    bool,
    Option<IpAddress>,
))
    ensures
        hop == spec_next_hop(net, routes@, os_interface_views(interfaces@)),
{
    // Find next hop
    let mut i: usize = 0;
    while i < routes.len()
        invariant
            i <= routes.len(),
            forall|j: int| 0 <= j < i ==> !is_specific(#[trigger] routes@[j], net),
        decreases routes.len() - i,
    {
        let route = routes[i];
        if net.prefix_len() == route.prefix && net.contains(&route.destination) {
            if let Some(_) = route.gateway {
                proof {
                    lemma_specific_index(routes@, i as int, net);
                }
                return (false, route.gateway);
            }
        }
        i += 1;
    }
    assert(!has_specific(routes@, net));
    // No next hop, find standard gateway
    match find_owner(&net, interfaces) {
        Some(o) => {
            proof {
                lemma_owner_index(os_interface_views(interfaces@), o as int, net);
                assert(os_interface_views(interfaces@)[o as int] == interfaces@[o as int]@);
            }
            let index = interfaces[o].index;
            let ghost list = os_interface_views(interfaces@);
            let mut k: usize = 0;
            while k < routes.len()
                invariant
                    k <= routes.len(),
                    !has_specific(routes@, net),
                    list == os_interface_views(interfaces@),
                    owner(list, net) matches Some(found) && found.index == index,
                    forall|j: int| 0 <= j < k ==> !is_default_via(#[trigger] routes@[j], net, index),
                decreases routes.len() - k,
            {
                let route = routes[k];
                if route.prefix == 0 && route.ifindex == Some(index) {
                    if let Some(gateway) = route.gateway {
                        let same_family = match (net, gateway) {
                            (IpNet::V4(_), IpAddress::V4(_)) => true,
                            (IpNet::V6(_), IpAddress::V6(_)) => true,
                            _ => false,
                        };
                        if same_family {
                            proof {
                                lemma_default_index(routes@, k as int, net, index);
                            }
                            return (true, route.gateway);
                        }
                    }
                }
                k += 1;
            }
            assert(!has_default(routes@, net, index));
            (false, None)
        },
        None => (false, None),
    }
}

/// Where the route table could not be read and is taken as empty, a prefix
/// has no gateway and is no default.
pub proof fn lemma_no_routes_no_gateway(net: IpNet, interfaces: Seq<OsInterfaceView>)
    ensures
        spec_next_hop(net, Seq::<Route>::empty(), interfaces) == (false, None::<IpAddress>),
{
}

/// A route to the prefix itself decides before any default route: where the
/// table holds one, the prefix is no default, whatever else the table holds.
pub proof fn lemma_specific_route_decides(
    net: IpNet,
    routes: Seq<Route>,
    interfaces: Seq<OsInterfaceView>,
    i: int,
)
    requires
        0 <= i < routes.len(),
        is_specific(routes[i], net),
    ensures
        !spec_next_hop(net, routes, interfaces).0,
        spec_next_hop(net, routes, interfaces).1 is Some,
{
    lemma_first_specific_before(routes, i, net);
    let k = choose|k: int| is_first_specific(routes, k, net);
    lemma_specific_index(routes, k, net);
}

proof fn lemma_first_specific_before(routes: Seq<Route>, i: int, net: IpNet)
    requires
        0 <= i < routes.len(),
        is_specific(routes[i], net),
    ensures
        exists|k: int| is_first_specific(routes, k, net),
    decreases i,
{
    if exists|j: int| 0 <= j < i && is_specific(#[trigger] routes[j], net) {
        let j = choose|j: int| 0 <= j < i && is_specific(#[trigger] routes[j], net);
        lemma_first_specific_before(routes, j, net);
    } else {
        assert(is_first_specific(routes, i, net));
    }
}

} // verus!
