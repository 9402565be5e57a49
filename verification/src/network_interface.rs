//! Keeps the watchlist: networks whose gateway is known.

use crate::ip_net::IpNet;
use crate::network::monitor::IfEvent;
use crate::storage::{
    interface_views, wg_interface_views, Changed, IfDatabase, Interface, InterfaceView,
    WGInterface, WGInterfaceView,
};
use vstd::prelude::*;

verus! {

broadcast use {vstd::seq_lib::group_seq_properties, Seq::lemma_filter_push};

/// Whether the gateway of an interface lies in `net`.
pub open spec fn gateway_in(interface: InterfaceView, net: IpNet) -> bool {
    interface.gateway matches Some(gateway) && net.spec_contains(gateway)
}

/// One entry for each interface whose gateway lies in `net`, in the order of
/// the interfaces.
pub open spec fn new_entries(net: IpNet, interfaces: Seq<InterfaceView>) -> Seq<IfDatabase>
    decreases interfaces.len(),
{
    if interfaces.len() == 0 {
        Seq::empty()
    } else {
        let earlier = new_entries(net, interfaces.drop_last());
        if gateway_in(interfaces.last(), net) {
            earlier.push(IfDatabase { net, gateway: interfaces.last().gateway->0 })
        } else {
            earlier
        }
    }
}

/// The watchlist after `net` came up, and whether it grew.
pub open spec fn spec_if_up(net: IpNet, interfaces: Seq<InterfaceView>, db: Seq<IfDatabase>) -> (
    Seq<IfDatabase>,
    bool,
) {
    (db + new_entries(net, interfaces), new_entries(net, interfaces).len() > 0)
}

/// The entries of the watchlist that are not for `net`.
pub open spec fn other_than(net: IpNet) -> spec_fn(IfDatabase) -> bool {
    |item: IfDatabase| item.net != net
}

/// The watchlist after `net` went down, and whether it shrank.
pub open spec fn spec_if_down(net: IpNet, db: Seq<IfDatabase>) -> (Seq<IfDatabase>, bool) {
    (db.filter(other_than(net)), exists|i: int| 0 <= i < db.len() && (#[trigger] db[i]).net == net)
}

/// The value of a result, changed or not.
pub open spec fn value_of<T>(result: Changed<T>) -> T {
    match result {
        Changed::ValueChanged(v) => v,
        Changed::ValueUnchanged(v) => v,
    }
}

/// A network came up: where the gateway of an interface lies in it, the
/// network joins the watchlist with that gateway.
pub fn if_up(net: IpNet, interfaces: Vec<Interface>, db: &Vec<IfDatabase>) -> (result: Changed<
    Vec<IfDatabase>,
>)
    ensures
        value_of(result)@ == spec_if_up(net, interface_views(interfaces@), db@).0,
        result is ValueChanged <==> spec_if_up(net, interface_views(interfaces@), db@).1,
{
    // get gateway for this interface
    // - if there is none, this is not interesting
    // - if there is one, add this interface to our watchlist
    let mut changed = false;
    let mut result: Vec<IfDatabase> = Vec::new();
    let mut k: usize = 0;
    while k < db.len()
        invariant
            k <= db.len(),
            result@ == db@.take(k as int),
        decreases db.len() - k,
    {
        result.push(db[k]);
        k += 1;
    }
    assert(db@.take(db.len() as int) == db@);
    let ghost list = interface_views(interfaces@);
    let mut i: usize = 0;
    while i < interfaces.len()
        invariant
            i <= interfaces.len(),
            list == interface_views(interfaces@),
            result@ == db@ + new_entries(net, list.take(i as int)),
            changed == (new_entries(net, list.take(i as int)).len() > 0),
        decreases interfaces.len() - i,
    {
        proof {
            assert(list.take(i + 1).drop_last() == list.take(i as int));
            assert(list.take(i + 1).last() == interfaces@[i as int]@);
        }
        if let Some(gateway) = interfaces[i].gateway {
            if net.contains(&gateway) {
                changed = true;
                result.push(IfDatabase { net, gateway });
            }
        }
        i += 1;
    }
    assert(list.take(interfaces.len() as int) == list);
    if changed {
        Changed::ValueChanged(result)
    } else {
        Changed::ValueUnchanged(result)
    }
}

/// A network went down: it leaves the watchlist.
pub fn if_down(net: IpNet, _interfaces: Vec<Interface>, db: &Vec<IfDatabase>) -> (result: Changed<
    Vec<IfDatabase>,
>)
    ensures
        value_of(result)@ == spec_if_down(net, db@).0,
        result is ValueChanged <==> spec_if_down(net, db@).1,
{
    // if the interface is on our watchlist remove it
    let mut changed = false;
    let mut result: Vec<IfDatabase> = Vec::new();
    let mut i: usize = 0;
    while i < db.len()
        invariant
            i <= db.len(),
            result@ == db@.take(i as int).filter(other_than(net)),
            changed == (exists|j: int| 0 <= j < i && (#[trigger] db@[j]).net == net),
        decreases db.len() - i,
    {
        proof {
            assert(db@.take(i + 1) == db@.take(i as int).push(db@[i as int]));
        }
        if db[i].net == net {
            changed = true;
        } else {
            result.push(db[i]);
        }
        i += 1;
    }
    assert(db@.take(db.len() as int) == db@);
    if changed {
        Changed::ValueChanged(result)
    } else {
        Changed::ValueUnchanged(result)
    }
}

/// The watchlist after a report of the interface watcher, and whether the
/// report changed it.
pub open spec fn spec_watch(
    event: IfEvent,
    interfaces: Seq<InterfaceView>,
    db: Seq<IfDatabase>,
) -> (Seq<IfDatabase>, bool) {
    match event {
        IfEvent::Up(net) => spec_if_up(net, interfaces, db),
        IfEvent::Down(net) => spec_if_down(net, db),
    }
}

/// Brings the watchlist up to date with a report of the interface watcher,
/// given the interfaces as they are now. Whoever listens for changes is to
/// be told where the result is `ValueChanged`.
pub fn watch(event: IfEvent, interfaces: Vec<Interface>, db: &Vec<IfDatabase>) -> (result:
    Changed<Vec<IfDatabase>>)
    ensures
        value_of(result)@ == spec_watch(event, interface_views(interfaces@), db@).0,
        result is ValueChanged <==> spec_watch(event, interface_views(interfaces@), db@).1,
{
    match event {
        IfEvent::Up(ip) => if_up(ip, interfaces, db),
        IfEvent::Down(ip) => if_down(ip, interfaces, db),
    }
}

/// A tunnel device as the operating system lists it: its name, and its
/// public key where it has one.
#[derive(Debug, PartialEq, Eq)]
pub struct TunnelDevice {
    pub name: String,
    pub pubkey: Option<String>,
}

pub struct TunnelDeviceView {
    pub name: Seq<char>,
    pub pubkey: Option<Seq<char>>,
}

impl View for TunnelDevice {
    type V = TunnelDeviceView;

    open spec fn view(&self) -> TunnelDeviceView {
        TunnelDeviceView {
            name: self.name@,
            pubkey: match self.pubkey {
                Some(k) => Some(k@),
                None => None,
            },
        }
    }
}

/// The devices of a list, each as plain values.
pub open spec fn device_views(devices: Seq<TunnelDevice>) -> Seq<TunnelDeviceView> {
    devices.map_values(|d: TunnelDevice| d@)
}

/// Whether an interface is the tunnel interface of a device: it has an
/// address, it bears the name of the device, and the device has a public key.
pub open spec fn is_tunnel_of(interface: InterfaceView, device: TunnelDeviceView) -> bool {
    (interface.ipv4.len() != 0 || interface.ipv6.len() != 0) && interface.name == device.name
        && device.pubkey is Some
}

/// The tunnel interfaces of one device, in the order of the interfaces.
pub open spec fn tunnels_of(device: TunnelDeviceView, interfaces: Seq<InterfaceView>) -> Seq<
    WGInterfaceView,
>
    decreases interfaces.len(),
{
    if interfaces.len() == 0 {
        Seq::empty()
    } else {
        let earlier = tunnels_of(device, interfaces.drop_last());
        if is_tunnel_of(interfaces.last(), device) {
            earlier.push(
                WGInterfaceView { interface: interfaces.last(), pubkey: device.pubkey->0 },
            )
        } else {
            earlier
        }
    }
}

/// The tunnel interfaces of all devices: device by device, and within a
/// device in the order of the interfaces.
pub open spec fn tunnels(devices: Seq<TunnelDeviceView>, interfaces: Seq<InterfaceView>) -> Seq<
    WGInterfaceView,
>
    decreases devices.len(),
{
    if devices.len() == 0 {
        Seq::empty()
    } else {
        tunnels(devices.drop_last(), interfaces) + tunnels_of(devices.last(), interfaces)
    }
}

/// Pairs each tunnel device that has a public key with the interfaces of
/// its name that have an address.
pub fn wireguard_interfaces(devices: &Vec<TunnelDevice>, interfaces: &Vec<Interface>) -> (result:
    Vec<WGInterface>)
    ensures
        wg_interface_views(result@) == tunnels(device_views(devices@), interface_views(interfaces@)),
{
    let mut result: Vec<WGInterface> = Vec::new();
    let ghost devs = device_views(devices@);
    let ghost list = interface_views(interfaces@);
    let mut d: usize = 0;
    while d < devices.len()
        invariant
            d <= devices.len(),
            devs == device_views(devices@),
            list == interface_views(interfaces@),
            wg_interface_views(result@) == tunnels(devs.take(d as int), list),
        decreases devices.len() - d,
    {
        let ghost done = wg_interface_views(result@);
        proof {
            assert(devs.take(d + 1).drop_last() == devs.take(d as int));
            assert(devs.take(d + 1).last() == devices@[d as int]@);
        }
        let mut n: usize = 0;
        while n < interfaces.len()
            invariant
                n <= interfaces.len(),
                d < devices.len(),
                list == interface_views(interfaces@),
                wg_interface_views(result@) == done + tunnels_of(
                    devices@[d as int]@,
                    list.take(n as int),
                ),
            decreases interfaces.len() - n,
        {
            let ghost before = result@;
            proof {
                assert(list.take(n + 1).drop_last() == list.take(n as int));
                assert(list.take(n + 1).last() == interfaces@[n as int]@);
            }
            let netif = &interfaces[n];
            if !(netif.ipv4.len() == 0 && netif.ipv6.len() == 0) && netif.name == devices[d].name {
                if let Some(pubkey) = &devices[d].pubkey {
                    result.push(WGInterface { interface: netif.clone(), pubkey: pubkey.clone() });
                    assert(wg_interface_views(result@) =~= wg_interface_views(before).push(
                        WGInterfaceView { interface: interfaces@[n as int]@, pubkey: pubkey@ },
                    ));
                }
            }
            n += 1;
        }
        assert(list.take(interfaces.len() as int) == list);
        d += 1;
    }
    assert(devs.take(devices.len() as int) == devs);
    result
}

} // verus!
