//! Building the focus command and planning one focus operation.
//!
//! A focus request is sent to the server as the UTF-8 text
//! `[con_id=<id>]focus`: a selector scoped to the container's numeric
//! identifier followed by the focus directive.

use vstd::prelude::*;

verus! {

use crate::tree::FocusTarget;
use crate::tree::I3TreeNode;
use crate::tree::find_node_to_focus;
use crate::tree::spec_find_target;

/// The decimal digits of `n`, most significant first, as ASCII bytes.
pub open spec fn spec_decimal_digits(n: nat) -> Seq<u8>
    decreases n,
{
    if n < 10 {
        seq![(0x30 + n) as u8]
    } else {
        spec_decimal_digits(n / 10).push((0x30 + n % 10) as u8)
    }
}

/// The bytes of `"[con_id="`.
pub open spec fn spec_command_prefix() -> Seq<u8> {
    seq![0x5bu8, 0x63u8, 0x6fu8, 0x6eu8, 0x5fu8, 0x69u8, 0x64u8, 0x3du8]
}

/// The bytes of `"]focus"`.
pub open spec fn spec_command_suffix() -> Seq<u8> {
    seq![0x5du8, 0x66u8, 0x6fu8, 0x63u8, 0x75u8, 0x73u8]
}

/// The bytes of the command `[con_id=<id>]focus`.
pub open spec fn spec_focus_command(id: u64) -> Seq<u8> {
    spec_command_prefix() + spec_decimal_digits(id as nat) + spec_command_suffix()
}

/// Renders `n` in decimal, most significant digit first, as ASCII bytes.
pub fn u64_to_decimal(n: u64) -> (r: Vec<u8>)
    ensures
        r@ == spec_decimal_digits(n as nat),
    decreases n,
{
    if n < 10 {
        let mut r: Vec<u8> = Vec::new();
        r.push(0x30u8 + n as u8);
        assert(r@ =~= spec_decimal_digits(n as nat));
        r
    } else {
        let mut r: Vec<u8> = u64_to_decimal(n / 10);
        r.push(0x30u8 + (n % 10) as u8);
        r
    }
}

/// Builds the command payload that asks the server to focus the container
/// with the given identifier.
pub fn focus_command(id: u64) -> (r: Vec<u8>)
    ensures
        r@ == spec_focus_command(id),
{
    let mut r: Vec<u8> = Vec::new();
    r.push(0x5bu8);
    r.push(0x63u8);
    r.push(0x6fu8);
    r.push(0x6eu8);
    r.push(0x5fu8);
    r.push(0x69u8);
    r.push(0x64u8);
    r.push(0x3du8);
    assert(r@ =~= spec_command_prefix());
    let mut digits: Vec<u8> = u64_to_decimal(id);
    r.append(&mut digits);
    r.push(0x5du8);
    r.push(0x66u8);
    r.push(0x6fu8);
    r.push(0x63u8);
    r.push(0x75u8);
    r.push(0x73u8);
    assert(r@ =~= spec_focus_command(id));
    r
}

/// Plans one focus operation over an already fetched tree: the command
/// payload to send to the server, or `None` when nothing in the tree is
/// focused and the operation is a no-op.
pub fn plan_focus(tree: &I3TreeNode, target: &FocusTarget) -> (r: Option<Vec<u8>>)
    ensures
        match spec_find_target(*tree, *target) {
            Some(found) => r matches Some(cmd) && cmd@ == spec_focus_command(found.id),
            None => r is None,
        },
{
    match find_node_to_focus(tree, target) {
        Some(found) => Some(focus_command(found.id)),
        None => None,
    }
}

} // verus!
