//! The command line of the `ssh` process that carries a tunnel.

use vstd::prelude::*;
use vstd::string::*;

use crate::config::TunnelConfig;
use crate::text::{decimal, push_decimal};

verus! {

/// The `-L` forward spec: `<ephemeral>:<target_host>:<target_port>`.
pub open spec fn forward_spec(ephemeral_port: u16, c: TunnelConfig) -> Seq<char> {
    decimal(ephemeral_port as nat) + ":"@ + c.target_host@ + ":"@ + decimal(c.target_port as nat)
}

/// The arguments given to `ssh` for `c`, forwarding the local
/// `ephemeral_port`: no remote command, the forward, the connection
/// options, the key when one is set, the SSH port 22, and `user@host`.
pub open spec fn ssh_args(c: TunnelConfig, ephemeral_port: u16) -> Seq<Seq<char>> {
    let base = seq![
        "-N"@,
        "-L"@,
        forward_spec(ephemeral_port, c),
        "-o"@,
        "StrictHostKeyChecking=accept-new"@,
        "-o"@,
        "ExitOnForwardFailure=yes"@,
        "-o"@,
        "ServerAliveInterval=15"@,
        "-o"@,
        "ServerAliveCountMax=3"@,
    ];
    let with_key = if c.ssh_key_path@.len() == 0 {
        base
    } else {
        base + seq!["-i"@, c.ssh_key_path@]
    };
    with_key + seq!["-p"@, "22"@, c.ssh_user@ + "@"@ + c.ssh_host@]
}

/// The texts of a list of strings.
pub open spec fn texts(v: Seq<String>) -> Seq<Seq<char>> {
    v.map_values(|s: String| s@)
}

/// Builds the `ssh` arguments for `config`, forwarding `ephemeral_port`.
pub fn build_ssh_args(config: &TunnelConfig, ephemeral_port: u16) -> (args: Vec<String>)
    ensures
        texts(args@) == ssh_args(*config, ephemeral_port),
{
    let mut forward = String::new();
    push_decimal(&mut forward, ephemeral_port as u64);
    forward.append(":");
    forward.append(config.target_host.as_str());
    forward.append(":");
    push_decimal(&mut forward, config.target_port as u64);
    assert(forward@ =~= forward_spec(ephemeral_port, *config));

    let mut args: Vec<String> = Vec::new();
    args.push(String::from_str("-N"));
    args.push(String::from_str("-L"));
    args.push(forward);
    args.push(String::from_str("-o"));
    args.push(String::from_str("StrictHostKeyChecking=accept-new"));
    args.push(String::from_str("-o"));
    args.push(String::from_str("ExitOnForwardFailure=yes"));
    args.push(String::from_str("-o"));
    args.push(String::from_str("ServerAliveInterval=15"));
    args.push(String::from_str("-o"));
    args.push(String::from_str("ServerAliveCountMax=3"));

    if !config.ssh_key_path.as_str().is_empty() {
        args.push(String::from_str("-i"));
        args.push(config.ssh_key_path.clone());
    }

    args.push(String::from_str("-p"));
    args.push(String::from_str("22"));

    let mut dest = config.ssh_user.clone();
    dest.append("@");
    dest.append(config.ssh_host.as_str());
    args.push(dest);
    assert(texts(args@) =~= ssh_args(*config, ephemeral_port));
    args
}

} // verus!
