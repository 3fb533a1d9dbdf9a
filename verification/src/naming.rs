//! The names components register under, from which peers derive each
//! other's addresses: the component's name, the node's pid, maybe the
//! configuration, and the iteration of the experiment.
use vstd::prelude::*;
use crate::text::{chars_of, decimal, push_chars, push_decimal, string_of};

verus! {

/// `name`, the pid, `-` and the iteration.
pub open spec fn alias_spec(name: Seq<char>, pid: u64, iteration_id: u32) -> Seq<char> {
    name + decimal(pid as nat) + seq!['-'] + decimal(iteration_id as nat)
}

/// `name`, the pid, `,`, the configuration, `-` and the iteration.
pub open spec fn config_alias_spec(name: Seq<char>, pid: u64, config_id: u32, iteration_id: u32) -> Seq<char> {
    name + decimal(pid as nat) + seq![','] + decimal(config_id as nat) + seq!['-'] + decimal(
        iteration_id as nat,
    )
}

/// The name a component of node `pid` registers under in an iteration.
pub fn create_alias(name: &str, pid: u64, iteration_id: u32) -> (a: String)
    ensures
        a@ == alias_spec(name@, pid, iteration_id),
{
    let mut out: Vec<char> = Vec::new();
    let n = chars_of(name);
    push_chars(&mut out, n.as_slice());
    push_decimal(&mut out, pid);
    out.push('-');
    push_decimal(&mut out, iteration_id as u64);
    assert(out@ =~= alias_spec(name@, pid, iteration_id));
    string_of(out.as_slice())
}

/// The name a component of node `pid` in configuration `config_id`
/// registers under in an iteration.
pub fn create_config_alias(name: &str, pid: u64, config_id: u32, iteration_id: u32) -> (a: String)
    ensures
        a@ == config_alias_spec(name@, pid, config_id, iteration_id),
{
    let mut out: Vec<char> = Vec::new();
    let n = chars_of(name);
    push_chars(&mut out, n.as_slice());
    push_decimal(&mut out, pid);
    out.push(',');
    push_decimal(&mut out, config_id as u64);
    out.push('-');
    push_decimal(&mut out, iteration_id as u64);
    assert(out@ =~= config_alias_spec(name@, pid, config_id, iteration_id));
    string_of(out.as_slice())
}

} // verus!
