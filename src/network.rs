use vstd::prelude::*;

use crate::phase::Phase;
use crate::text::{fields, split_fields, str_eq, Separator};

verus! {

/// Why the default interface of a network namespace could not be found.
#[derive(Clone, Copy, Debug, PartialEq, Eq, Structural)]
pub enum RouteError {
    /// The route query exited with a failure status.
    CommandFailed,
    /// The route query's output names no device after `dev`.
    NotFound,
}

/// The administrative state that a network action gives an interface.
#[derive(Clone, Copy, Debug, PartialEq, Eq, Structural)]
pub enum LinkState {
    Down,
    Up,
}

/// The word after the first `dev` of `words`, if `dev` occurs and is not last.
pub open spec fn device_after_dev(words: Seq<Seq<char>>) -> Option<Seq<char>>
    decreases words.len(),
{
    if words.len() == 0 {
        None
    } else if words[0] == "dev"@ {
        if words.len() > 1 {
            Some(words[1])
        } else {
            None
        }
    } else {
        device_after_dev(words.subrange(1, words.len() as int))
    }
}

/// The default interface named in the output of a default-route query,
/// such as `default via 192.168.90.1 dev eth0`.
pub open spec fn default_interface(route_output: Seq<char>) -> Option<Seq<char>> {
    device_after_dev(fields(route_output, Separator::WhiteSpace))
}

/// The default network interface, from the outcome of a default-route query:
/// whether it succeeded, and what it printed.
pub fn get_default_interface_name(route_succeeded: bool, route_output: &str) -> (r: Result<String, RouteError>)
    ensures
        !route_succeeded ==> r == Err::<String, RouteError>(RouteError::CommandFailed),
        route_succeeded ==> match r {
            Ok(iface) => default_interface(route_output@) == Some(iface@),
            Err(e) => e == RouteError::NotFound && default_interface(route_output@) is None,
        },
{
    if !route_succeeded {
        return Err(RouteError::CommandFailed);
    }
    let words = split_fields(route_output, Separator::WhiteSpace);
    let ghost w = fields(route_output@, Separator::WhiteSpace);
    let mut i: usize = 0;
    assert(w.subrange(0, w.len() as int) == w);
    while i < words.len()
        invariant
            route_succeeded,
            w == fields(route_output@, Separator::WhiteSpace),
            i <= words@.len(),
            crate::text::views(words@) == w,
            device_after_dev(w) == device_after_dev(w.subrange(i as int, w.len() as int)),
        decreases words.len() - i,
    {
        let ghost rest = w.subrange(i as int, w.len() as int);
        assert(rest[0] == words@[i as int]@);
        if str_eq(words[i].as_str(), "dev") {
            if i + 1 < words.len() {
                assert(rest[1] == words@[i + 1]@);
                return Ok(words[i + 1].clone());
            }
            return Err(RouteError::NotFound);
        }
        assert(rest.subrange(1, rest.len() as int) == w.subrange(i + 1, w.len() as int));
        i = i + 1;
    }
    Err(RouteError::NotFound)
}

/// The link state that a phase's network action sets: network-lock takes the
/// interface down, network-unlock brings it up, other phases touch nothing.
pub open spec fn spec_link_state_for(p: Phase) -> Option<LinkState> {
    match p {
        Phase::NetworkLock => Some(LinkState::Down),
        Phase::NetworkUnlock => Some(LinkState::Up),
        _ => None,
    }
}

pub fn link_state_for(p: Phase) -> (r: Option<LinkState>)
    ensures
        r == spec_link_state_for(p),
{
    match p {
        Phase::NetworkLock => Some(LinkState::Down),
        Phase::NetworkUnlock => Some(LinkState::Up),
        _ => None,
    }
}

/// The `ip` arguments that query the IPv4 default route.
pub open spec fn spec_route_query_args() -> Seq<Seq<char>> {
    seq!["-4"@, "route"@, "show"@, "default"@]
}

/// The `ip` arguments that set the link state of `iface`.
pub open spec fn spec_link_set_args(iface: Seq<char>, state: LinkState) -> Seq<Seq<char>> {
    seq!["link"@, "set"@, iface, match state {
        LinkState::Down => "down"@,
        LinkState::Up => "up"@,
    }]
}

pub fn route_query_args() -> (r: Vec<String>)
    ensures
        crate::text::views(r@) == spec_route_query_args(),
{
    let r = vec![String::from_str("-4"), String::from_str("route"), String::from_str("show"), String::from_str("default")];
    assert(crate::text::views(r@) =~= spec_route_query_args());
    r
}

pub fn link_set_args(iface: &str, state: LinkState) -> (r: Vec<String>)
    ensures
        crate::text::views(r@) == spec_link_set_args(iface@, state),
{
    let word = match state {
        LinkState::Down => String::from_str("down"),
        LinkState::Up => String::from_str("up"),
    };
    let r = vec![String::from_str("link"), String::from_str("set"), iface.to_owned(), word];
    assert(crate::text::views(r@) =~= spec_link_set_args(iface@, state));
    r
}

} // verus!
