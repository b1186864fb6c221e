//! What the sync service starts with: the node id it announces and the
//! address it listens on.
use vstd::prelude::*;
use crate::config::Config;
use crate::ids::{is_uuid_v4_text, new_uuid};
use crate::net::{unspecified_v4, SocketAddress};

verus! {

/// The sync service's starting point.
#[derive(Debug)]
pub struct SyncPlan {
    pub node_id: String,
    pub listen: Option<SocketAddress>,
}

/// The node id is the configured one, else a fresh random one (which is
/// not stored); when sync is enabled the service listens on every interface
/// at the configured port.  `None` when no id is configured and no random
/// one can be had (the operating system's random source failed).
pub fn plan_sync(config: &Config) -> (r: Option<SyncPlan>)
    ensures
        config.sync.node_id is Some ==> r is Some,
        r matches Some(p) ==> plan_fits(config, p),
        r matches Some(p) ==> (config.sync.enabled <==> (p.listen matches Some(a) && a.port
            == config.sync.listen_port)),
{
    let node_id = match &config.sync.node_id {
        Some(id) => id.clone(),
        None => match new_uuid() {
            Some(id) => id,
            None => {
                return None;
            },
        },
    };
    let listen = if config.sync.enabled {
        Some(
            SocketAddress {
                ip: unspecified_v4(),
                port: config.sync.listen_port,
                flowinfo: 0,
                scope_id: 0,
            },
        )
    } else {
        None
    };
    Some(SyncPlan { node_id, listen })
}

/// `p` starts the sync service for `config`: with the configured node id
/// (or a version-4 UUID when none is configured), listening when enabled.
pub open spec fn plan_fits(config: &Config, p: SyncPlan) -> bool {
    &&& match config.sync.node_id {
        Some(id) => p.node_id@ == id@,
        None => is_uuid_v4_text(p.node_id@),
    }
    &&& p.listen == if config.sync.enabled {
        Some(
            SocketAddress {
                ip: crate::net::IpAddress::V4(0u8, 0u8, 0u8, 0u8),
                port: config.sync.listen_port,
                flowinfo: 0,
                scope_id: 0,
            },
        )
    } else {
        None
    }
}

/// When sync is enabled the service listens on 0.0.0.0 at exactly the
/// configured port, whatever port is configured; when it is disabled it
/// does not listen.  The node id is the configured one when there is one.
pub proof fn lemma_plan_listens_on_configured_port(config: &Config, p: SyncPlan)
    requires
        plan_fits(config, p),
    ensures
        config.sync.enabled ==> (p.listen matches Some(a) && a.port == config.sync.listen_port
            && a.ip == crate::net::IpAddress::V4(0u8, 0u8, 0u8, 0u8)),
        !config.sync.enabled ==> p.listen is None,
        config.sync.node_id matches Some(id) ==> p.node_id@ == id@,
{
}

} // verus!
