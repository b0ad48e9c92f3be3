//! Saved forwards.

use vstd::prelude::*;

use crate::text::{chars_of, concat, decimal, decimal_chars, string_from};

verus! {

/// A saved forward that can be launched in one step.
#[derive(Debug, Clone)]
pub struct Preset {
    pub name: String,
    pub key: Option<String>,
    pub local_port: u16,
    pub remote_host: String,
    pub remote_port: u16,
    pub ssh_host: String,
}

/// The forward spec `local:host:remote`.
pub open spec fn forward_spec(local_port: u16, remote_host: Seq<char>, remote_port: u16) -> Seq<
    char,
> {
    decimal(local_port as nat) + ":"@ + remote_host + ":"@ + decimal(remote_port as nat)
}

/// Builds the forward spec `local:host:remote`.
pub fn make_forward_spec(local_port: u16, remote_host: &str, remote_port: u16) -> (r: String)
    ensures
        r@ == forward_spec(local_port, remote_host@, remote_port),
{
    let colon = chars_of(":");
    let mut out = decimal_chars(local_port as u32);
    out = concat(&out, &colon);
    out = concat(&out, &chars_of(remote_host));
    out = concat(&out, &colon);
    out = concat(&out, &decimal_chars(remote_port as u32));
    string_from(&out)
}

impl Preset {
    /// The forward spec of the preset and the host to forward through.
    pub fn to_spec(&self) -> (r: (String, String))
        ensures
            r.0@ == forward_spec(self.local_port, self.remote_host@, self.remote_port),
            r.1@ == self.ssh_host@,
    {
        (
            make_forward_spec(self.local_port, self.remote_host.as_str(), self.remote_port),
            self.ssh_host.clone(),
        )
    }
}

/// The saved presets.
#[derive(Debug, Clone)]
pub struct Presets {
    pub preset: Vec<Preset>,
}

impl Default for Presets {
    fn default() -> (r: Presets)
        ensures
            r.preset@.len() == 0,
    {
        Presets { preset: Vec::new() }
    }
}

} // verus!
