//! The daemon's configuration: the node's, plus the OpenCL work generator and the RPC
//! switches, with the TOML document that adjusts them.

use vstd::prelude::*;
use crate::node_config::{amounts_valid, merged, NodeConfig, NodeToml};

verus! {

/// Settings of the OpenCL work generator.
#[derive(Clone, Copy, Debug, PartialEq, Eq)]
pub struct OpenclConfig {
    pub platform: u32,
    pub device: u32,
    pub threads: u32,
}

/// The `opencl` TOML section.
#[derive(Clone, Copy, Debug, PartialEq, Eq)]
pub struct OpenclToml {
    pub enable: Option<bool>,
    pub platform: Option<u32>,
    pub device: Option<u32>,
    pub threads: Option<u32>,
}

/// The `rpc` TOML section, for the switches the daemon holds.
#[derive(Clone, Copy, Debug, PartialEq, Eq)]
pub struct NodeRpcToml {
    pub enable: Option<bool>,
    pub enable_sign_hash: Option<bool>,
}

/// The daemon's TOML document.
#[derive(Clone, Debug, PartialEq, Eq)]
pub struct DaemonToml {
    pub node: Option<NodeToml>,
    pub opencl: Option<OpenclToml>,
    pub rpc: Option<NodeRpcToml>,
}

/// The daemon's configuration.
#[derive(Clone, Debug, PartialEq, Eq)]
pub struct DaemonConfig {
    pub node: NodeConfig,
    pub opencl_enable: bool,
    pub opencl: OpenclConfig,
    pub rpc_enable: bool,
    pub rpc_enable_sign_hash: bool,
}

/// The OpenCL settings after the section, value by value.
pub open spec fn opencl_after(c: OpenclConfig, t: OpenclToml) -> OpenclConfig {
    OpenclConfig {
        platform: match t.platform { Some(v) => v, None => c.platform },
        device: match t.device { Some(v) => v, None => c.device },
        threads: match t.threads { Some(v) => v, None => c.threads },
    }
}

/// Every amount in the node section reads as an amount.
pub open spec fn daemon_amounts_valid(t: DaemonToml) -> bool {
    t.node matches Some(n) ==> amounts_valid(n)
}

impl DaemonConfig {
    /// Overrides what the document sets: the node section is merged into the node's
    /// configuration, the `opencl` and `rpc` sections adjust their switches and settings.
    pub fn merge_toml(&mut self, toml: &DaemonToml)
        requires
            daemon_amounts_valid(*toml),
        ensures
            match toml.node {
                Some(n) => merged(old(self).node, n, final(self).node),
                None => final(self).node == old(self).node,
            },
            final(self).opencl_enable == (match toml.opencl {
                Some(o) => match o.enable { Some(v) => v, None => old(self).opencl_enable },
                None => old(self).opencl_enable,
            }),
            final(self).opencl == (match toml.opencl { Some(o) => opencl_after(old(self).opencl, o), None => old(self).opencl }),
            final(self).rpc_enable == (match toml.rpc {
                Some(r) => match r.enable { Some(v) => v, None => old(self).rpc_enable },
                None => old(self).rpc_enable,
            }),
            final(self).rpc_enable_sign_hash == (match toml.rpc {
                Some(r) => match r.enable_sign_hash { Some(v) => v, None => old(self).rpc_enable_sign_hash },
                None => old(self).rpc_enable_sign_hash,
            }),
    {
        if let Some(node_toml) = &toml.node {
            self.node.merge_toml(node_toml);
        }
        if let Some(opencl) = &toml.opencl {
            if let Some(enable) = opencl.enable {
                self.opencl_enable = enable;
            }
            if let Some(platform) = opencl.platform {
                self.opencl.platform = platform;
            }
            if let Some(device) = opencl.device {
                self.opencl.device = device;
            }
            if let Some(threads) = opencl.threads {
                self.opencl.threads = threads;
            }
        }
        if let Some(rpc) = &toml.rpc {
            if let Some(enable) = rpc.enable {
                self.rpc_enable = enable;
            }
            if let Some(sign) = rpc.enable_sign_hash {
                self.rpc_enable_sign_hash = sign;
            }
        }
    }
}

impl DaemonToml {
    /// The document that sets everything it covers to the configuration's values.
    pub fn from_config(config: &DaemonConfig) -> (r: Self)
        ensures
            r.node matches Some(n) && crate::node_config::describes(n, config.node),
            r.opencl == Some(OpenclToml {
                enable: Some(config.opencl_enable),
                platform: Some(config.opencl.platform),
                device: Some(config.opencl.device),
                threads: Some(config.opencl.threads),
            }),
            r.rpc == Some(NodeRpcToml { enable: Some(config.rpc_enable), enable_sign_hash: Some(config.rpc_enable_sign_hash) }),
    {
        DaemonToml {
            node: Some(NodeToml::from_config(&config.node)),
            opencl: Some(OpenclToml {
                enable: Some(config.opencl_enable),
                platform: Some(config.opencl.platform),
                device: Some(config.opencl.device),
                threads: Some(config.opencl.threads),
            }),
            rpc: Some(NodeRpcToml { enable: Some(config.rpc_enable), enable_sign_hash: Some(config.rpc_enable_sign_hash) }),
        }
    }
}

} // verus!
