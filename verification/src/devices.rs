//! The supported kinds of devices, the connection to a device, and how a connection is
//! established.
use std::sync::Arc;

use vstd::prelude::*;

use crate::config::{TapoConnectionInfos, TapoCredentials};
use crate::discovery;
use crate::discovery::DeviceCache;
use crate::ip::IpAddr;

verus! {

/// A kind of device.
#[derive(Clone, Copy, Debug, PartialEq, Eq, Structural)]
pub enum TapoDeviceType {
    L510,
    L520,
    L530,
    L535,
    L610,
    L630,
    L900,
    L920,
    L930,
    P100,
    P105,
    P110,
    P110M,
    P115,
    P300,
    P304,
    P304M,
    P316,
}

/// `tapo::LightHandler`, carried and never looked into.
#[verifier::external_type_specification]
#[verifier::external_body]
pub struct ExLightHandler(tapo::LightHandler);

/// `tapo::ColorLightHandler`, carried and never looked into.
#[verifier::external_type_specification]
#[verifier::external_body]
pub struct ExColorLightHandler(tapo::ColorLightHandler);

/// `tapo::RgbLightStripHandler`, carried and never looked into.
#[verifier::external_type_specification]
#[verifier::external_body]
pub struct ExRgbLightStripHandler(tapo::RgbLightStripHandler);

/// `tapo::RgbicLightStripHandler`, carried and never looked into.
#[verifier::external_type_specification]
#[verifier::external_body]
pub struct ExRgbicLightStripHandler(tapo::RgbicLightStripHandler);

/// `tapo::PlugHandler`, carried and never looked into.
#[verifier::external_type_specification]
#[verifier::external_body]
pub struct ExPlugHandler(tapo::PlugHandler);

/// `tapo::PlugEnergyMonitoringHandler`, carried and never looked into.
#[verifier::external_type_specification]
#[verifier::external_body]
pub struct ExPlugEnergyMonitoringHandler(tapo::PlugEnergyMonitoringHandler);

/// `tapo::PowerStripHandler`, carried and never looked into.
#[verifier::external_type_specification]
#[verifier::external_body]
pub struct ExPowerStripHandler(tapo::PowerStripHandler);

/// `tapo::PowerStripEnergyMonitoringHandler`, carried and never looked into.
#[verifier::external_type_specification]
#[verifier::external_body]
pub struct ExPowerStripEnergyMonitoringHandler(tapo::PowerStripEnergyMonitoringHandler);

/// A method of the device client that opens a connection.
#[derive(Clone, Copy, Debug, PartialEq, Eq, Structural)]
pub enum ClientMethod {
    L510,
    L520,
    L530,
    L535,
    L610,
    L630,
    L900,
    L920,
    L930,
    P100,
    P105,
    P110,
    P115,
    P300,
    P304,
    P316,
}

/// A kind of connection.
#[derive(Clone, Copy, Debug, PartialEq, Eq, Structural)]
pub enum HandlerKind {
    Light,
    ColorLight,
    RgbLightStrip,
    RgbicLightStrip,
    Plug,
    PlugEnergyMonitoring,
    PowerStrip,
    PowerStripEnergyMonitoring,
}

/// An open connection of some kind.
pub enum Handler {
    Light(tapo::LightHandler),
    ColorLight(tapo::ColorLightHandler),
    RgbLightStrip(tapo::RgbLightStripHandler),
    RgbicLightStrip(tapo::RgbicLightStripHandler),
    Plug(tapo::PlugHandler),
    PlugEnergyMonitoring(tapo::PlugEnergyMonitoringHandler),
    PowerStrip(tapo::PowerStripHandler),
    PowerStripEnergyMonitoring(tapo::PowerStripEnergyMonitoringHandler),
}

/// An open connection to a device of a given kind.
pub enum TapoDeviceInner {
    L510(tapo::LightHandler),
    L520(tapo::LightHandler),
    L530(tapo::ColorLightHandler),
    L535(tapo::ColorLightHandler),
    L610(tapo::LightHandler),
    L630(tapo::ColorLightHandler),
    L900(tapo::RgbLightStripHandler),
    L920(tapo::RgbicLightStripHandler),
    L930(tapo::RgbicLightStripHandler),
    P100(tapo::PlugHandler),
    P105(tapo::PlugHandler),
    P110(tapo::PlugEnergyMonitoringHandler),
    P110M(tapo::PlugEnergyMonitoringHandler),
    P115(tapo::PlugEnergyMonitoringHandler),
    P300(tapo::PowerStripHandler),
    P304(tapo::PowerStripEnergyMonitoringHandler),
    P304M(tapo::PowerStripEnergyMonitoringHandler),
    P316(tapo::PowerStripEnergyMonitoringHandler),
}

impl TapoDeviceType {
    /// The kind's name.
    pub open spec fn name(self) -> Seq<char> {
        match self {
            TapoDeviceType::L510 => "L510"@,
            TapoDeviceType::L520 => "L520"@,
            TapoDeviceType::L530 => "L530"@,
            TapoDeviceType::L535 => "L535"@,
            TapoDeviceType::L610 => "L610"@,
            TapoDeviceType::L630 => "L630"@,
            TapoDeviceType::L900 => "L900"@,
            TapoDeviceType::L920 => "L920"@,
            TapoDeviceType::L930 => "L930"@,
            TapoDeviceType::P100 => "P100"@,
            TapoDeviceType::P105 => "P105"@,
            TapoDeviceType::P110 => "P110"@,
            TapoDeviceType::P110M => "P110M"@,
            TapoDeviceType::P115 => "P115"@,
            TapoDeviceType::P300 => "P300"@,
            TapoDeviceType::P304 => "P304"@,
            TapoDeviceType::P304M => "P304M"@,
            TapoDeviceType::P316 => "P316"@,
        }
    }

    /// The client method for the kind: the one of the same name, but a P110M is opened as a P110
    /// and a P304M as a P304.
    pub open spec fn method(self) -> ClientMethod {
        match self {
            TapoDeviceType::L510 => ClientMethod::L510,
            TapoDeviceType::L520 => ClientMethod::L520,
            TapoDeviceType::L530 => ClientMethod::L530,
            TapoDeviceType::L535 => ClientMethod::L535,
            TapoDeviceType::L610 => ClientMethod::L610,
            TapoDeviceType::L630 => ClientMethod::L630,
            TapoDeviceType::L900 => ClientMethod::L900,
            TapoDeviceType::L920 => ClientMethod::L920,
            TapoDeviceType::L930 => ClientMethod::L930,
            TapoDeviceType::P100 => ClientMethod::P100,
            TapoDeviceType::P105 => ClientMethod::P105,
            TapoDeviceType::P110 => ClientMethod::P110,
            TapoDeviceType::P110M => ClientMethod::P110,
            TapoDeviceType::P115 => ClientMethod::P115,
            TapoDeviceType::P300 => ClientMethod::P300,
            TapoDeviceType::P304 => ClientMethod::P304,
            TapoDeviceType::P304M => ClientMethod::P304,
            TapoDeviceType::P316 => ClientMethod::P316,
        }
    }

    /// The kind of connection that devices of this kind have.
    pub open spec fn connection(self) -> HandlerKind {
        match self {
            TapoDeviceType::L510 => HandlerKind::Light,
            TapoDeviceType::L520 => HandlerKind::Light,
            TapoDeviceType::L530 => HandlerKind::ColorLight,
            TapoDeviceType::L535 => HandlerKind::ColorLight,
            TapoDeviceType::L610 => HandlerKind::Light,
            TapoDeviceType::L630 => HandlerKind::ColorLight,
            TapoDeviceType::L900 => HandlerKind::RgbLightStrip,
            TapoDeviceType::L920 => HandlerKind::RgbicLightStrip,
            TapoDeviceType::L930 => HandlerKind::RgbicLightStrip,
            TapoDeviceType::P100 => HandlerKind::Plug,
            TapoDeviceType::P105 => HandlerKind::Plug,
            TapoDeviceType::P110 => HandlerKind::PlugEnergyMonitoring,
            TapoDeviceType::P110M => HandlerKind::PlugEnergyMonitoring,
            TapoDeviceType::P115 => HandlerKind::PlugEnergyMonitoring,
            TapoDeviceType::P300 => HandlerKind::PowerStrip,
            TapoDeviceType::P304 => HandlerKind::PowerStripEnergyMonitoring,
            TapoDeviceType::P304M => HandlerKind::PowerStripEnergyMonitoring,
            TapoDeviceType::P316 => HandlerKind::PowerStripEnergyMonitoring,
        }
    }

    /// The kind's name.
    pub fn kind_name(&self) -> (r: &'static str)
        ensures
            r@ == self.name(),
    {
        match self {
            TapoDeviceType::L510 => "L510",
            TapoDeviceType::L520 => "L520",
            TapoDeviceType::L530 => "L530",
            TapoDeviceType::L535 => "L535",
            TapoDeviceType::L610 => "L610",
            TapoDeviceType::L630 => "L630",
            TapoDeviceType::L900 => "L900",
            TapoDeviceType::L920 => "L920",
            TapoDeviceType::L930 => "L930",
            TapoDeviceType::P100 => "P100",
            TapoDeviceType::P105 => "P105",
            TapoDeviceType::P110 => "P110",
            TapoDeviceType::P110M => "P110M",
            TapoDeviceType::P115 => "P115",
            TapoDeviceType::P300 => "P300",
            TapoDeviceType::P304 => "P304",
            TapoDeviceType::P304M => "P304M",
            TapoDeviceType::P316 => "P316",
        }
    }

    /// The client method that opens a connection to a device of this kind.
    pub fn client_method(&self) -> (r: ClientMethod)
        ensures
            r == self.method(),
    {
        match self {
            TapoDeviceType::L510 => ClientMethod::L510,
            TapoDeviceType::L520 => ClientMethod::L520,
            TapoDeviceType::L530 => ClientMethod::L530,
            TapoDeviceType::L535 => ClientMethod::L535,
            TapoDeviceType::L610 => ClientMethod::L610,
            TapoDeviceType::L630 => ClientMethod::L630,
            TapoDeviceType::L900 => ClientMethod::L900,
            TapoDeviceType::L920 => ClientMethod::L920,
            TapoDeviceType::L930 => ClientMethod::L930,
            TapoDeviceType::P100 => ClientMethod::P100,
            TapoDeviceType::P105 => ClientMethod::P105,
            TapoDeviceType::P110 => ClientMethod::P110,
            TapoDeviceType::P110M => ClientMethod::P110,
            TapoDeviceType::P115 => ClientMethod::P115,
            TapoDeviceType::P300 => ClientMethod::P300,
            TapoDeviceType::P304 => ClientMethod::P304,
            TapoDeviceType::P304M => ClientMethod::P304,
            TapoDeviceType::P316 => ClientMethod::P316,
        }
    }
}

impl Handler {
    /// The connection's kind.
    pub open spec fn kind(self) -> HandlerKind {
        match self {
            Handler::Light(_) => HandlerKind::Light,
            Handler::ColorLight(_) => HandlerKind::ColorLight,
            Handler::RgbLightStrip(_) => HandlerKind::RgbLightStrip,
            Handler::RgbicLightStrip(_) => HandlerKind::RgbicLightStrip,
            Handler::Plug(_) => HandlerKind::Plug,
            Handler::PlugEnergyMonitoring(_) => HandlerKind::PlugEnergyMonitoring,
            Handler::PowerStrip(_) => HandlerKind::PowerStrip,
            Handler::PowerStripEnergyMonitoring(_) => HandlerKind::PowerStripEnergyMonitoring,
        }
    }
}

impl TapoDeviceInner {
    /// The kind of the device.
    pub open spec fn device_type(self) -> TapoDeviceType {
        match self {
            TapoDeviceInner::L510(_) => TapoDeviceType::L510,
            TapoDeviceInner::L520(_) => TapoDeviceType::L520,
            TapoDeviceInner::L530(_) => TapoDeviceType::L530,
            TapoDeviceInner::L535(_) => TapoDeviceType::L535,
            TapoDeviceInner::L610(_) => TapoDeviceType::L610,
            TapoDeviceInner::L630(_) => TapoDeviceType::L630,
            TapoDeviceInner::L900(_) => TapoDeviceType::L900,
            TapoDeviceInner::L920(_) => TapoDeviceType::L920,
            TapoDeviceInner::L930(_) => TapoDeviceType::L930,
            TapoDeviceInner::P100(_) => TapoDeviceType::P100,
            TapoDeviceInner::P105(_) => TapoDeviceType::P105,
            TapoDeviceInner::P110(_) => TapoDeviceType::P110,
            TapoDeviceInner::P110M(_) => TapoDeviceType::P110M,
            TapoDeviceInner::P115(_) => TapoDeviceType::P115,
            TapoDeviceInner::P300(_) => TapoDeviceType::P300,
            TapoDeviceInner::P304(_) => TapoDeviceType::P304,
            TapoDeviceInner::P304M(_) => TapoDeviceType::P304M,
            TapoDeviceInner::P316(_) => TapoDeviceType::P316,
        }
    }

    /// The connection to the device.
    pub open spec fn handler(self) -> Handler {
        match self {
            TapoDeviceInner::L510(h) => Handler::Light(h),
            TapoDeviceInner::L520(h) => Handler::Light(h),
            TapoDeviceInner::L530(h) => Handler::ColorLight(h),
            TapoDeviceInner::L535(h) => Handler::ColorLight(h),
            TapoDeviceInner::L610(h) => Handler::Light(h),
            TapoDeviceInner::L630(h) => Handler::ColorLight(h),
            TapoDeviceInner::L900(h) => Handler::RgbLightStrip(h),
            TapoDeviceInner::L920(h) => Handler::RgbicLightStrip(h),
            TapoDeviceInner::L930(h) => Handler::RgbicLightStrip(h),
            TapoDeviceInner::P100(h) => Handler::Plug(h),
            TapoDeviceInner::P105(h) => Handler::Plug(h),
            TapoDeviceInner::P110(h) => Handler::PlugEnergyMonitoring(h),
            TapoDeviceInner::P110M(h) => Handler::PlugEnergyMonitoring(h),
            TapoDeviceInner::P115(h) => Handler::PlugEnergyMonitoring(h),
            TapoDeviceInner::P300(h) => Handler::PowerStrip(h),
            TapoDeviceInner::P304(h) => Handler::PowerStripEnergyMonitoring(h),
            TapoDeviceInner::P304M(h) => Handler::PowerStripEnergyMonitoring(h),
            TapoDeviceInner::P316(h) => Handler::PowerStripEnergyMonitoring(h),
        }
    }

    /// The name of the device's kind.
    pub fn kind_name(&self) -> (r: &'static str)
        ensures
            r@ == self.device_type().name(),
    {
        match self {
            TapoDeviceInner::L510(_) => "L510",
            TapoDeviceInner::L520(_) => "L520",
            TapoDeviceInner::L530(_) => "L530",
            TapoDeviceInner::L535(_) => "L535",
            TapoDeviceInner::L610(_) => "L610",
            TapoDeviceInner::L630(_) => "L630",
            TapoDeviceInner::L900(_) => "L900",
            TapoDeviceInner::L920(_) => "L920",
            TapoDeviceInner::L930(_) => "L930",
            TapoDeviceInner::P100(_) => "P100",
            TapoDeviceInner::P105(_) => "P105",
            TapoDeviceInner::P110(_) => "P110",
            TapoDeviceInner::P110M(_) => "P110M",
            TapoDeviceInner::P115(_) => "P115",
            TapoDeviceInner::P300(_) => "P300",
            TapoDeviceInner::P304(_) => "P304",
            TapoDeviceInner::P304M(_) => "P304M",
            TapoDeviceInner::P316(_) => "P316",
        }
    }

    /// The connection as one to a device of the given kind, if devices of that kind have such
    /// connections.
    pub fn from_handler(device_type: TapoDeviceType, handler: Handler) -> (r: Option<Self>)
        ensures
            r is Some <==> handler.kind() == device_type.connection(),
            r is Some ==> r->0.device_type() == device_type && r->0.handler() == handler,
    {
        match (device_type, handler) {
            (TapoDeviceType::L510, Handler::Light(h)) => Some(TapoDeviceInner::L510(h)),
            (TapoDeviceType::L520, Handler::Light(h)) => Some(TapoDeviceInner::L520(h)),
            (TapoDeviceType::L530, Handler::ColorLight(h)) => Some(TapoDeviceInner::L530(h)),
            (TapoDeviceType::L535, Handler::ColorLight(h)) => Some(TapoDeviceInner::L535(h)),
            (TapoDeviceType::L610, Handler::Light(h)) => Some(TapoDeviceInner::L610(h)),
            (TapoDeviceType::L630, Handler::ColorLight(h)) => Some(TapoDeviceInner::L630(h)),
            (TapoDeviceType::L900, Handler::RgbLightStrip(h)) => Some(TapoDeviceInner::L900(h)),
            (TapoDeviceType::L920, Handler::RgbicLightStrip(h)) => Some(TapoDeviceInner::L920(h)),
            (TapoDeviceType::L930, Handler::RgbicLightStrip(h)) => Some(TapoDeviceInner::L930(h)),
            (TapoDeviceType::P100, Handler::Plug(h)) => Some(TapoDeviceInner::P100(h)),
            (TapoDeviceType::P105, Handler::Plug(h)) => Some(TapoDeviceInner::P105(h)),
            (TapoDeviceType::P110, Handler::PlugEnergyMonitoring(h)) => Some(TapoDeviceInner::P110(h)),
            (TapoDeviceType::P110M, Handler::PlugEnergyMonitoring(h)) => Some(TapoDeviceInner::P110M(h)),
            (TapoDeviceType::P115, Handler::PlugEnergyMonitoring(h)) => Some(TapoDeviceInner::P115(h)),
            (TapoDeviceType::P300, Handler::PowerStrip(h)) => Some(TapoDeviceInner::P300(h)),
            (TapoDeviceType::P304, Handler::PowerStripEnergyMonitoring(h)) => Some(TapoDeviceInner::P304(h)),
            (TapoDeviceType::P304M, Handler::PowerStripEnergyMonitoring(h)) => Some(TapoDeviceInner::P304M(h)),
            (TapoDeviceType::P316, Handler::PowerStripEnergyMonitoring(h)) => Some(TapoDeviceInner::P316(h)),
            _ => None,
        }
    }
}

/// The changing part of a device: its connection, if one is open, and the address in use for
/// connection attempts.
#[derive(Debug, PartialEq, Eq)]
pub struct ClientSlot<C> {
    pub client: Option<C>,
    pub current_ip: Option<IpAddr>,
}

/// A device of the configuration. The slot holds its changing part, or whatever guards it.
#[derive(Debug, PartialEq, Eq)]
pub struct TapoDevice<S> {
    /// The device's configuration, with the address known when the device was loaded.
    pub conn_infos: TapoConnectionInfos,
    pub credentials: Arc<TapoCredentials>,
    pub slot: S,
    pub discovery_broadcast: String,
    pub discovery_timeout_secs: u64,
}

impl<C> TapoDevice<ClientSlot<C>> {
    /// A device without a connection, to be tried at its configured address.
    pub fn new(
        conn_infos: TapoConnectionInfos,
        credentials: Arc<TapoCredentials>,
        discovery_broadcast: String,
        discovery_timeout_secs: u64,
    ) -> (r: Self)
        ensures
            r.conn_infos == conn_infos,
            r.credentials == credentials,
            r.slot.client is None,
            r.slot.current_ip == conn_infos.ip_addr,
            r.discovery_broadcast == discovery_broadcast,
            r.discovery_timeout_secs == discovery_timeout_secs,
    {
        let initial_ip = conn_infos.ip_addr;
        TapoDevice {
            conn_infos,
            credentials,
            slot: ClientSlot { client: None, current_ip: initial_ip },
            discovery_broadcast,
            discovery_timeout_secs,
        }
    }
}

impl<S> TapoDevice<S> {
    /// The device's configuration.
    pub fn conn_infos(&self) -> (r: &TapoConnectionInfos)
        ensures
            *r == self.conn_infos,
    {
        &self.conn_infos
    }

    /// The device with its slot put under a guard, such as a lock.
    pub fn guarded<G, F: FnOnce(S) -> G>(self, guard: F) -> (r: TapoDevice<G>)
        requires
            guard.requires((self.slot,)),
        ensures
            guard.ensures((self.slot,), r.slot),
            r.conn_infos == self.conn_infos,
            r.credentials == self.credentials,
            r.discovery_broadcast == self.discovery_broadcast,
            r.discovery_timeout_secs == self.discovery_timeout_secs,
    {
        TapoDevice {
            conn_infos: self.conn_infos,
            credentials: self.credentials,
            slot: guard(self.slot),
            discovery_broadcast: self.discovery_broadcast,
            discovery_timeout_secs: self.discovery_timeout_secs,
        }
    }
}

impl<C> ClientSlot<C> {
    /// The open connection, if there is one.
    pub fn client(&self) -> (r: Option<&C>)
        ensures
            r is Some <==> self.client is Some,
            r is Some ==> *r->0 == self.client->0,
    {
        match &self.client {
            Some(client) => Some(client),
            None => None,
        }
    }

    /// Takes in the outcome of establishing a connection: one that was established is kept for
    /// later calls, and a failure is handed back and changes nothing.
    pub fn establish<E>(&mut self, outcome: Result<C, E>) -> (r: Result<(), E>)
        ensures
            final(self).current_ip == old(self).current_ip,
            match outcome {
                Ok(client) => r == Ok::<(), E>(()) && final(self).client == Some(client),
                Err(e) => r == Err::<(), E>(e) && final(self).client == old(self).client,
            },
    {
        match outcome {
            Ok(client) => {
                self.client = Some(client);
                Ok(())
            },
            Err(e) => Err(e),
        }
    }
}

/// Where establishing a connection stands: what to do next, or how it ended.
#[derive(Clone, Copy, Debug, PartialEq, Eq, Structural)]
pub enum ConnectStep {
    /// Connect at the address in use.
    First(IpAddr),
    /// Sweep the LAN and look the device up in the cache.
    Rediscover,
    /// Connect at the address that the sweep gave.
    Retry(IpAddr),
    /// Connect at the last-known good address.
    Fallback(IpAddr),
    /// A connection is open.
    Connected,
    /// No attempt led to a connection.
    Failed,
}

/// An attempt to establish a connection to a device.
#[derive(Clone, Copy, Debug, PartialEq, Eq, Structural)]
pub struct Connecting {
    /// The last-known good address: the one of the device's configuration.
    pub last_known: Option<IpAddr>,
    /// The address in use when the attempt began.
    pub initial_ip: Option<IpAddr>,
    pub step: ConnectStep,
}

/// The last resort once the sweep and its address led to nothing: the last-known good address, if
/// there is one and it was tried neither first nor after the sweep.
pub open spec fn last_resort(
    last_known: Option<IpAddr>,
    initial: Option<IpAddr>,
    resolved: Option<IpAddr>,
) -> ConnectStep {
    match last_known {
        Some(address) => if initial != Some(address) && resolved != Some(address) {
            ConnectStep::Fallback(address)
        } else {
            ConnectStep::Failed
        },
        None => ConnectStep::Failed,
    }
}

impl ConnectStep {
    /// The address to connect at, if that is what to do next.
    pub open spec fn target(self) -> Option<IpAddr> {
        match self {
            ConnectStep::First(address) => Some(address),
            ConnectStep::Retry(address) => Some(address),
            ConnectStep::Fallback(address) => Some(address),
            _ => None,
        }
    }

    /// How many steps are left at most.
    pub open spec fn remaining(self) -> nat {
        match self {
            ConnectStep::First(_) => 4,
            ConnectStep::Rediscover => 3,
            ConnectStep::Retry(_) => 2,
            ConnectStep::Fallback(_) => 1,
            ConnectStep::Connected => 0,
            ConnectStep::Failed => 0,
        }
    }
}

impl Connecting {
    /// An attempt at its beginning.
    pub open spec fn begun(last_known: Option<IpAddr>, initial: Option<IpAddr>) -> Connecting {
        Connecting {
            last_known,
            initial_ip: initial,
            step: match initial {
                Some(address) => ConnectStep::First(address),
                None => ConnectStep::Rediscover,
            },
        }
    }

    /// The attempt after the device was reached, or was not.
    pub open spec fn answered(self, reached: bool) -> Connecting {
        let step = match self.step {
            ConnectStep::First(_) => if reached {
                ConnectStep::Connected
            } else {
                ConnectStep::Rediscover
            },
            ConnectStep::Retry(address) => if reached {
                ConnectStep::Connected
            } else {
                last_resort(self.last_known, self.initial_ip, Some(address))
            },
            ConnectStep::Fallback(_) => if reached {
                ConnectStep::Connected
            } else {
                ConnectStep::Failed
            },
            other => other,
        };
        Connecting { step, ..self }
    }

    /// The attempt after the sweep, with the address that the cache then gives for the device.
    pub open spec fn rediscovered(self, resolved: Option<IpAddr>) -> Connecting {
        let step = match self.step {
            ConnectStep::Rediscover => match resolved {
                Some(address) => ConnectStep::Retry(address),
                None => last_resort(self.last_known, self.initial_ip, None),
            },
            other => other,
        };
        Connecting { step, ..self }
    }

    /// Begins an attempt: at the address in use, or with a sweep if there is none.
    pub fn begin<C>(conn_infos: &TapoConnectionInfos, slot: &ClientSlot<C>) -> (r: Self)
        ensures
            r == Connecting::begun(conn_infos.ip_addr, slot.current_ip),
    {
        let step = match slot.current_ip {
            Some(address) => ConnectStep::First(address),
            None => ConnectStep::Rediscover,
        };
        Connecting { last_known: conn_infos.ip_addr, initial_ip: slot.current_ip, step }
    }

    fn fall_back(&self, resolved: Option<IpAddr>) -> (r: ConnectStep)
        ensures
            r == last_resort(self.last_known, self.initial_ip, resolved),
    {
        match self.last_known {
            Some(address) => {
                let tried_first: bool = match self.initial_ip {
                    Some(initial) => initial == address,
                    None => false,
                };
                let retried: bool = match resolved {
                    Some(found) => found == address,
                    None => false,
                };
                if tried_first || retried {
                    ConnectStep::Failed
                } else {
                    ConnectStep::Fallback(address)
                }
            },
            None => ConnectStep::Failed,
        }
    }

    /// Takes in the outcome of connecting at the address of the current step.
    pub fn on_answer(&mut self, reached: bool)
        ensures
            *final(self) == old(self).answered(reached),
    {
        match self.step {
            ConnectStep::First(_) => {
                self.step = if reached {
                    ConnectStep::Connected
                } else {
                    ConnectStep::Rediscover
                };
            },
            ConnectStep::Retry(address) => {
                self.step = if reached {
                    ConnectStep::Connected
                } else {
                    self.fall_back(Some(address))
                };
            },
            ConnectStep::Fallback(_) => {
                self.step = if reached {
                    ConnectStep::Connected
                } else {
                    ConnectStep::Failed
                };
            },
            _ => {},
        }
    }

    /// Takes in the cache after the sweep: looks the device up by its name and, where that gives
    /// another address than the one in use, makes it the one in use. Does nothing unless a sweep
    /// was next.
    pub fn on_sweep<C>(&mut self, name: &str, cache: &DeviceCache, slot: &mut ClientSlot<C>)
        ensures
            *final(self) == old(self).rediscovered(
                discovery::known_address(cache.devices@, name@),
            ),
            final(slot).client == old(slot).client,
            final(slot).current_ip == (match discovery::known_address(cache.devices@, name@) {
                Some(address) => if old(self).step == ConnectStep::Rediscover && Some(address)
                    != old(self).initial_ip {
                    Some(address)
                } else {
                    old(slot).current_ip
                },
                None => old(slot).current_ip,
            }),
    {
        match self.step {
            ConnectStep::Rediscover => match cache.address_of(name) {
                Some(address) => {
                    let unchanged: bool = match self.initial_ip {
                        Some(initial) => initial == address,
                        None => false,
                    };
                    if !unchanged {
                        slot.current_ip = Some(address);
                    }
                    self.step = ConnectStep::Retry(address);
                },
                None => {
                    self.step = self.fall_back(None);
                },
            },
            _ => {},
        }
    }
}

/// Every event moves an attempt on: connecting, and sweeping, leave fewer steps than there were,
/// and none are left exactly when the attempt has ended. Connecting leads to a sweep only from the
/// first address.
pub proof fn connecting_moves_on(attempt: Connecting, reached: bool, resolved: Option<IpAddr>)
    ensures
        attempt.step.target() is Some ==> attempt.answered(reached).step.remaining()
            < attempt.step.remaining(),
        attempt.step == ConnectStep::Rediscover ==> attempt.rediscovered(
            resolved,
        ).step.remaining() < attempt.step.remaining(),
        attempt.step.remaining() == 0 <==> (attempt.step == ConnectStep::Connected || attempt.step
            == ConnectStep::Failed),
        attempt.answered(reached).step == ConnectStep::Rediscover ==> attempt.step is First
            || attempt.step == ConnectStep::Rediscover,
{
}

/// The connections to try, in order, for a device last known at `last_known` and in use at
/// `initial` that a sweep finds at `resolved`.
pub open spec fn connections(
    last_known: Option<IpAddr>,
    initial: Option<IpAddr>,
    resolved: Option<IpAddr>,
) -> Seq<ConnectStep> {
    let first = match initial {
        Some(address) => seq![ConnectStep::First(address)],
        None => Seq::<ConnectStep>::empty(),
    };
    let retry = match resolved {
        Some(address) => seq![ConnectStep::Retry(address)],
        None => Seq::<ConnectStep>::empty(),
    };
    let fallback = match last_known {
        Some(address) => if initial != Some(address) && resolved != Some(address) {
            seq![ConnectStep::Fallback(address)]
        } else {
            Seq::<ConnectStep>::empty()
        },
        None => Seq::<ConnectStep>::empty(),
    };
    first + retry + fallback
}

/// The attempt with the sweep made, where that is next.
pub open spec fn settled(attempt: Connecting, resolved: Option<IpAddr>) -> Connecting {
    if attempt.step == ConnectStep::Rediscover {
        attempt.rediscovered(resolved)
    } else {
        attempt
    }
}

/// Where an attempt stands after connections with the given outcomes.
pub open spec fn connecting_run(
    last_known: Option<IpAddr>,
    initial: Option<IpAddr>,
    resolved: Option<IpAddr>,
    outcomes: Seq<bool>,
) -> Connecting
    decreases outcomes.len(),
{
    if outcomes.len() == 0 {
        settled(Connecting::begun(last_known, initial), resolved)
    } else {
        settled(
            connecting_run(last_known, initial, resolved, outcomes.drop_last()).answered(
                outcomes.last(),
            ),
            resolved,
        )
    }
}

/// An attempt tries the address in use, the address that the sweep gives and, if it is neither of
/// them, the last-known good one, in this order; it ends well with the first of them that is
/// reached, and fails only when none is.
pub proof fn connecting_tries_in_order(
    last_known: Option<IpAddr>,
    initial: Option<IpAddr>,
    resolved: Option<IpAddr>,
    outcomes: Seq<bool>,
)
    ensures
        ({
            let tries = connections(last_known, initial, resolved);
            let step = connecting_run(last_known, initial, resolved, outcomes).step;
            if exists|k: int| 0 <= k < tries.len() && k < outcomes.len() && outcomes[k] {
                step == ConnectStep::Connected
            } else if outcomes.len() < tries.len() {
                step == tries[outcomes.len() as int]
            } else {
                step == ConnectStep::Failed
            }
        }),
        connecting_run(last_known, initial, resolved, outcomes).last_known == last_known,
        connecting_run(last_known, initial, resolved, outcomes).initial_ip == initial,
    decreases outcomes.len(),
{
    let tries = connections(last_known, initial, resolved);
    if outcomes.len() > 0 {
        let before = outcomes.drop_last();
        connecting_tries_in_order(last_known, initial, resolved, before);
        assert(forall|k: int| 0 <= k < before.len() ==> before[k] == outcomes[k]);
        if exists|k: int| 0 <= k < tries.len() && k < before.len() && before[k] {
            let k = choose|k: int| 0 <= k < tries.len() && k < before.len() && before[k];
            assert(outcomes[k]);
        } else if outcomes.last() && before.len() < tries.len() {
            assert(outcomes[before.len() as int]);
        }
    }
}

/// The last resort is an address that the attempt has not tried before, and there is none for a
/// device that is in use at its last-known good address.
pub proof fn last_resort_is_untried(
    last_known: Option<IpAddr>,
    initial: Option<IpAddr>,
    resolved: Option<IpAddr>,
)
    ensures
        ({
            let tries = connections(last_known, initial, resolved);
            &&& forall|i: int, j: int|
                0 <= i < j < tries.len() && #[trigger] tries[j] is Fallback ==> (
                #[trigger] tries[i]).target() != tries[j].target()
            &&& last_known == initial ==> forall|j: int|
                0 <= j < tries.len() ==> !(#[trigger] tries[j] is Fallback)
        }),
{
}

/// The message for a device that no attempt reached. `description` describes the kind of device.
pub fn unreachable_message(
    device_type: TapoDeviceType,
    description: &str,
    name: &str,
) -> (r: String)
    ensures
        r@ == "Failed to connect to "@ + device_type.name() + " "@ + description@ + " '"@ + name@
            + "': discovery yielded no entry for '"@ + name@
            + "' and no fallback available"@,
{
    let mut r: String = "Failed to connect to ".to_owned();
    r.append(device_type.kind_name());
    r.append(" ");
    r.append(description);
    r.append(" '");
    r.append(name);
    r.append("': discovery yielded no entry for '");
    r.append(name);
    r.append("' and no fallback available");
    r
}

/// The message for one connection that failed. `description` describes the kind of device.
pub fn connect_at_message(
    device_type: TapoDeviceType,
    description: &str,
    name: &str,
    address: &str,
    error: &str,
) -> (r: String)
    ensures
        r@ == "Failed to connect to "@ + device_type.name() + " "@ + description@ + " '"@ + name@
            + "' at "@ + address@ + ": "@ + error@,
{
    let mut r: String = "Failed to connect to ".to_owned();
    r.append(device_type.kind_name());
    r.append(" ");
    r.append(description);
    r.append(" '");
    r.append(name);
    r.append("' at ");
    r.append(address);
    r.append(": ");
    r.append(error);
    r
}

} // verus!
