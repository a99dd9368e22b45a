//! Laws of devices and connections.
use std::sync::Arc;

use vstd::prelude::*;

use crate::config::{TapoConnectionInfos, TapoCredentials};
use crate::devices;
use crate::devices::{
    ClientMethod, ClientSlot, ConnectStep, Connecting, Handler, TapoDevice, TapoDeviceInner,
    TapoDeviceType,
};
use crate::discovery::DeviceCache;
use crate::ip::IpAddr;

verus! {

/// A new device has no connection, is to be tried at its configured address and keeps what it was
/// made with.
pub proof fn new_device_is_unconnected<C>(
    conn_infos: TapoConnectionInfos,
    credentials: Arc<TapoCredentials>,
    broadcast: String,
    timeout_secs: u64,
    r: TapoDevice<ClientSlot<C>>,
    infos: &TapoConnectionInfos,
)
    requires
        call_ensures(
            TapoDevice::<ClientSlot<C>>::new,
            (conn_infos, credentials, broadcast, timeout_secs),
            r,
        ),
        call_ensures(TapoDevice::<ClientSlot<C>>::conn_infos, (&r,), infos),
    ensures
        *infos == conn_infos,
        r.conn_infos == conn_infos,
        r.credentials == credentials,
        r.slot.client is None,
        r.slot.current_ip == conn_infos.ip_addr,
        r.discovery_broadcast == broadcast,
        r.discovery_timeout_secs == timeout_secs,
{
}

/// A connection that was established is the open one from then on, at the same address; a failure
/// is handed back and leaves everything as it is.
pub proof fn established_connection_is_kept<C, E>(
    slot: &mut ClientSlot<C>,
    outcome: Result<C, E>,
    r: Result<(), E>,
    open: Option<&C>,
)
    requires
        call_ensures(ClientSlot::<C>::establish::<E>, (slot, outcome), r),
        call_ensures(ClientSlot::<C>::client, (&*final(slot),), open),
    ensures
        final(slot).current_ip == old(slot).current_ip,
        outcome is Ok ==> r is Ok && open is Some && *open->0 == outcome->Ok_0,
        outcome is Err ==> r is Err && r->Err_0 == outcome->Err_0 && *final(slot) == *old(slot),
        open is Some <==> final(slot).client is Some,
{
}

/// An attempt begins at the address in use, and with a sweep only if there is none.
pub proof fn attempt_begins_at_address_in_use<C>(
    conn_infos: &TapoConnectionInfos,
    slot: &ClientSlot<C>,
    r: Connecting,
)
    requires
        call_ensures(Connecting::begin::<C>, (conn_infos, slot), r),
    ensures
        slot.current_ip is Some ==> r.step == ConnectStep::First(slot.current_ip->0),
        slot.current_ip is None ==> r.step == ConnectStep::Rediscover,
        r.initial_ip == slot.current_ip,
        r.last_known == conn_infos.ip_addr,
{
}

/// A device that is reached is connected to, at whichever address.
pub proof fn reached_device_is_connected(attempt: &mut Connecting)
    requires
        call_ensures(Connecting::on_answer, (attempt, true), ()),
        old(attempt).step is First || old(attempt).step is Retry || old(attempt).step is Fallback,
    ensures
        final(attempt).step == ConnectStep::Connected,
{
}

/// A device that is not reached at the address in use is looked for on the LAN; one that is not
/// reached at the address found there is tried at the last-known good one, if that is neither of
/// the two, and the attempt fails otherwise. It also fails when that does not answer.
pub proof fn unreached_device_is_tried_elsewhere(attempt: &mut Connecting)
    requires
        call_ensures(Connecting::on_answer, (attempt, false), ()),
    ensures
        final(attempt).initial_ip == old(attempt).initial_ip,
        final(attempt).last_known == old(attempt).last_known,
        old(attempt).step is First ==> final(attempt).step == ConnectStep::Rediscover,
        old(attempt).step is Retry && old(attempt).last_known is Some && old(attempt).last_known
            != Some(old(attempt).step->Retry_0) && old(attempt).last_known != old(attempt).initial_ip ==> final(attempt).step == ConnectStep::Fallback(old(attempt).last_known->0),
        old(attempt).step is Retry && (old(attempt).last_known is None || old(attempt).last_known
            == Some(old(attempt).step->Retry_0) || old(attempt).last_known == old(attempt).initial_ip) ==> final(attempt).step == ConnectStep::Failed,
        old(attempt).step is Fallback ==> final(attempt).step == ConnectStep::Failed,
{
}

/// An attempt that has ended, or that waits for a sweep, does not change by an answer.
pub proof fn answer_out_of_turn_changes_nothing(attempt: &mut Connecting, reached: bool)
    requires
        call_ensures(Connecting::on_answer, (attempt, reached), ()),
        old(attempt).step is Rediscover || old(attempt).step is Connected || old(attempt).step is Failed,
    ensures
        *final(attempt) == *old(attempt),
{
}

/// After the sweep the device is tried at the address that the cache gives for its name, which
/// becomes the address in use. If the cache gives none, the address in use stays, and the device is
/// tried at the last-known good one unless that was tried first.
pub proof fn sweep_leads_to_address_of_name<C>(
    attempt: &mut Connecting,
    name: &str,
    cache: &DeviceCache,
    slot: &mut ClientSlot<C>,
    found: Option<IpAddr>,
)
    requires
        call_ensures(Connecting::on_sweep::<C>, (attempt, name, cache, slot), ()),
        call_ensures(DeviceCache::address_of, (cache, name), found),
        old(attempt).step is Rediscover,
        old(attempt).initial_ip == old(slot).current_ip,
    ensures
        final(attempt).initial_ip == old(attempt).initial_ip,
        final(attempt).last_known == old(attempt).last_known,
        final(slot).client == old(slot).client,
        found is Some ==> final(attempt).step == ConnectStep::Retry(found->0) && final(slot).current_ip == found,
        found is None ==> final(slot).current_ip == old(slot).current_ip,
        found is None && old(attempt).last_known is Some && old(attempt).last_known != old(attempt).initial_ip ==> final(attempt).step == ConnectStep::Fallback(old(attempt).last_known->0),
        found is None && (old(attempt).last_known is None || old(attempt).last_known == old(attempt).initial_ip) ==> final(attempt).step == ConnectStep::Failed,
{
}

/// A sweep that was not asked for changes nothing.
pub proof fn sweep_out_of_turn_changes_nothing<C>(
    attempt: &mut Connecting,
    name: &str,
    cache: &DeviceCache,
    slot: &mut ClientSlot<C>,
)
    requires
        call_ensures(Connecting::on_sweep::<C>, (attempt, name, cache, slot), ()),
        !(old(attempt).step is Rediscover),
    ensures
        *final(attempt) == *old(attempt),
        *final(slot) == *old(slot),
{
}

/// Kinds have different names, so a name tells the kind.
pub proof fn names_tell_kinds(
    a: &TapoDeviceType,
    b: &TapoDeviceType,
    x: &'static str,
    y: &'static str,
)
    requires
        call_ensures(TapoDeviceType::kind_name, (a,), x),
        call_ensures(TapoDeviceType::kind_name, (b,), y),
    ensures
        x@ == y@ <==> *a == *b,
        3 < x@.len() < 6,
{
    reveal_strlit("L510");
    reveal_strlit("L520");
    reveal_strlit("L530");
    reveal_strlit("L535");
    reveal_strlit("L610");
    reveal_strlit("L630");
    reveal_strlit("L900");
    reveal_strlit("L920");
    reveal_strlit("L930");
    reveal_strlit("P100");
    reveal_strlit("P105");
    reveal_strlit("P110");
    reveal_strlit("P110M");
    reveal_strlit("P115");
    reveal_strlit("P300");
    reveal_strlit("P304");
    reveal_strlit("P304M");
    reveal_strlit("P316");
    if x@ == y@ {
        assert(x@.len() == y@.len());
        assert(x@[0] == y@[0]);
        assert(x@[1] == y@[1]);
        assert(x@[2] == y@[2]);
        assert(x@[3] == y@[3]);
    }
}

/// Every kind but the two with an `M` is opened by a method of its own; these two are opened by the
/// method of the kind without it.
pub proof fn kinds_share_methods_with_their_m(
    a: &TapoDeviceType,
    b: &TapoDeviceType,
    x: ClientMethod,
    y: ClientMethod,
)
    requires
        call_ensures(TapoDeviceType::client_method, (a,), x),
        call_ensures(TapoDeviceType::client_method, (b,), y),
    ensures
        x == y <==> {
            ||| *a == *b
            ||| *a == TapoDeviceType::P110 && *b == TapoDeviceType::P110M
            ||| *a == TapoDeviceType::P110M && *b == TapoDeviceType::P110
            ||| *a == TapoDeviceType::P304 && *b == TapoDeviceType::P304M
            ||| *a == TapoDeviceType::P304M && *b == TapoDeviceType::P304
        },
{
}

/// A connection becomes one to a device of the kind that it was opened for, and only if it is of the
/// sort that devices of this kind have.
pub proof fn connection_is_of_its_kind(
    kind: TapoDeviceType,
    handler: Handler,
    r: Option<TapoDeviceInner>,
    kind_name: &'static str,
    name: &'static str,
)
    requires
        call_ensures(TapoDeviceInner::from_handler, (kind, handler), r),
        call_ensures(TapoDeviceType::kind_name, (&kind,), kind_name),
        r is Some ==> call_ensures(TapoDeviceInner::kind_name, (&r->0,), name),
    ensures
        r is Some ==> name@ == kind_name@,
        r is Some <==> match kind {
            TapoDeviceType::L510 | TapoDeviceType::L520 | TapoDeviceType::L610 => handler is Light,
            TapoDeviceType::L530 | TapoDeviceType::L535 | TapoDeviceType::L630 =>
                handler is ColorLight,
            TapoDeviceType::L900 => handler is RgbLightStrip,
            TapoDeviceType::L920 | TapoDeviceType::L930 => handler is RgbicLightStrip,
            TapoDeviceType::P100 | TapoDeviceType::P105 => handler is Plug,
            TapoDeviceType::P110 | TapoDeviceType::P110M | TapoDeviceType::P115 =>
                handler is PlugEnergyMonitoring,
            TapoDeviceType::P300 => handler is PowerStrip,
            TapoDeviceType::P304 | TapoDeviceType::P304M | TapoDeviceType::P316 =>
                handler is PowerStripEnergyMonitoring,
        },
{
}

/// The connection itself is the one that was opened.
pub proof fn connection_is_the_opened_one(
    kind: TapoDeviceType,
    handler: Handler,
    r: Option<TapoDeviceInner>,
)
    requires
        call_ensures(TapoDeviceInner::from_handler, (kind, handler), r),
        r is Some,
    ensures
        match r->0 {
            TapoDeviceInner::L510(h) => handler == Handler::Light(h) && kind == TapoDeviceType::L510,
            TapoDeviceInner::L520(h) => handler == Handler::Light(h) && kind == TapoDeviceType::L520,
            TapoDeviceInner::L530(h) => handler == Handler::ColorLight(h) && kind
                == TapoDeviceType::L530,
            TapoDeviceInner::L535(h) => handler == Handler::ColorLight(h) && kind
                == TapoDeviceType::L535,
            TapoDeviceInner::L610(h) => handler == Handler::Light(h) && kind == TapoDeviceType::L610,
            TapoDeviceInner::L630(h) => handler == Handler::ColorLight(h) && kind
                == TapoDeviceType::L630,
            TapoDeviceInner::L900(h) => handler == Handler::RgbLightStrip(h) && kind
                == TapoDeviceType::L900,
            TapoDeviceInner::L920(h) => handler == Handler::RgbicLightStrip(h) && kind
                == TapoDeviceType::L920,
            TapoDeviceInner::L930(h) => handler == Handler::RgbicLightStrip(h) && kind
                == TapoDeviceType::L930,
            TapoDeviceInner::P100(h) => handler == Handler::Plug(h) && kind == TapoDeviceType::P100,
            TapoDeviceInner::P105(h) => handler == Handler::Plug(h) && kind == TapoDeviceType::P105,
            TapoDeviceInner::P110(h) => handler == Handler::PlugEnergyMonitoring(h) && kind
                == TapoDeviceType::P110,
            TapoDeviceInner::P110M(h) => handler == Handler::PlugEnergyMonitoring(h) && kind
                == TapoDeviceType::P110M,
            TapoDeviceInner::P115(h) => handler == Handler::PlugEnergyMonitoring(h) && kind
                == TapoDeviceType::P115,
            TapoDeviceInner::P300(h) => handler == Handler::PowerStrip(h) && kind
                == TapoDeviceType::P300,
            TapoDeviceInner::P304(h) => handler == Handler::PowerStripEnergyMonitoring(h) && kind
                == TapoDeviceType::P304,
            TapoDeviceInner::P304M(h) => handler == Handler::PowerStripEnergyMonitoring(h) && kind
                == TapoDeviceType::P304M,
            TapoDeviceInner::P316(h) => handler == Handler::PowerStripEnergyMonitoring(h) && kind
                == TapoDeviceType::P316,
        },
{
}

/// The message for a device that was not reached names its kind, describes it and names it.
pub proof fn unreachable_device_is_named(
    kind: TapoDeviceType,
    description: &str,
    name: &str,
    r: String,
    kind_name: &'static str,
)
    requires
        call_ensures(devices::unreachable_message, (kind, description, name), r),
        call_ensures(TapoDeviceType::kind_name, (&kind,), kind_name),
    ensures
        r@ == "Failed to connect to "@ + kind_name@ + " "@ + description@ + " '"@ + name@
            + "': discovery yielded no entry for '"@ + name@ + "' and no fallback available"@,
{
}

/// The message for a connection that failed names the device, its address and the error.
pub proof fn failed_connection_is_named(
    kind: TapoDeviceType,
    description: &str,
    name: &str,
    address: &str,
    error: &str,
    r: String,
    kind_name: &'static str,
)
    requires
        call_ensures(
            devices::connect_at_message,
            (kind, description, name, address, error),
            r,
        ),
        call_ensures(TapoDeviceType::kind_name, (&kind,), kind_name),
    ensures
        r@ == "Failed to connect to "@ + kind_name@ + " "@ + description@ + " '"@ + name@
            + "' at "@ + address@ + ": "@ + error@,
{
}

/// Guarding a device guards its slot and keeps everything else.
pub proof fn guarded_device_is_the_same<S, G, F: FnOnce(S) -> G>(
    device: TapoDevice<S>,
    guard: F,
    r: TapoDevice<G>,
)
    requires
        call_ensures(TapoDevice::<S>::guarded::<G, F>, (device, guard), r),
    ensures
        call_ensures(guard, (device.slot,), r.slot),
        r.conn_infos == device.conn_infos,
        r.credentials == device.credentials,
        r.discovery_broadcast == device.discovery_broadcast,
        r.discovery_timeout_secs == device.discovery_timeout_secs,
{
}

} // verus!
