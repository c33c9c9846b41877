//! What the operations on the host document decide.
//!
//! Reading and changing the live document is the caller's business. The
//! caller hands over what the host answered and carries out what is decided
//! here.

use crate::text::without_char;
use vstd::prelude::*;

verus! {

/// The node type of an element.
pub const ELEMENT_NODE: u16 = 1;

/// A failure reported by the host environment.
#[derive(Clone, Debug, PartialEq, Eq)]
pub struct HostError {
    /// What the host said.
    pub message: String,
}

/// The fragment of the current location without any `#`, from what the host
/// answered when asked for it. There is none on the server, and none when
/// the host refused.
pub fn location_hash(on_server: bool, hash: Result<String, HostError>) -> (fragment: Option<
    String,
>)
    ensures
        on_server || hash is Err ==> fragment is None,
        !on_server && hash is Ok ==> (fragment matches Some(text) && text@ == (hash->Ok_0)@.filter(
            |c: char| c != '#',
        )),
{
    if on_server {
        None
    } else {
        match hash {
            Ok(raw) => Some(without_char(raw.as_str(), '#')),
            Err(_) => None,
        }
    }
}

/// The path of the current location, from what the host answered when asked
/// for it; none when the host refused.
pub fn location_pathname(pathname: Result<String, HostError>) -> (path: Option<String>)
    ensures
        path == match pathname {
            Ok(text) => Some(text),
            Err(_) => None,
        },
{
    match pathname {
        Ok(text) => Some(text),
        Err(_) => None,
    }
}

/// The handle of a repeating timer, as the host numbered it.
#[derive(Copy, Clone, Debug, PartialEq, Eq, Hash)]
pub struct IntervalHandle(i32);

impl IntervalHandle {
    /// The number the host gave the timer.
    pub closed spec fn raw(self) -> i32 {
        self.0
    }

    /// The handle of the timer that the host numbered `raw`.
    pub fn new(raw: i32) -> (handle: Self)
        ensures
            handle.raw() == raw,
    {
        IntervalHandle(raw)
    }

    /// Ends the timer: returns the number under which the host is to clear
    /// it.
    pub fn clear(&self) -> (raw: i32)
        ensures
            raw == self.raw(),
    {
        self.0
    }
}

/// The delay to hand to the host for a timer of `millis` milliseconds, which
/// the host takes as a 32-bit signed number; none when it does not fit.
pub fn timer_delay(millis: u128) -> (delay: Option<i32>)
    ensures
        millis <= i32::MAX ==> delay == Some(millis as i32),
        millis > i32::MAX ==> delay is None,
{
    if millis <= 2147483647 {
        Some(millis as i32)
    } else {
        None
    }
}

/// How a node is to be inserted under a parent.
#[derive(Clone, Copy, Debug, PartialEq, Eq, Structural)]
pub enum Insertion {
    /// The parent is no element: nothing is inserted, the caller warns and
    /// keeps the new node.
    Refused,
    /// The node goes before the existing sibling, under that sibling's
    /// parent.
    BeforeExisting,
    /// The node becomes the last child of the parent.
    Appended,
}

/// Decides how to insert a node under a parent of type `parent_type`, before
/// an existing sibling if there is one.
pub fn insert_before(parent_type: u16, has_existing: bool) -> (insertion: Insertion)
    ensures
        insertion == if parent_type != ELEMENT_NODE {
            Insertion::Refused
        } else if has_existing {
            Insertion::BeforeExisting
        } else {
            Insertion::Appended
        },
{
    if parent_type != ELEMENT_NODE {
        Insertion::Refused
    } else if has_existing {
        Insertion::BeforeExisting
    } else {
        Insertion::Appended
    }
}

/// Whether the target of an event lies within an element that matches a
/// selector, from what the host answered: the event has no target (`None`),
/// or the search from the target failed, or it found an element (`true`) or
/// none.
pub fn event_target_selector(search: Option<Result<bool, HostError>>) -> (within: bool)
    ensures
        within == (search matches Some(Ok(found)) && found),
{
    match search {
        Some(Ok(found)) => found,
        _ => false,
    }
}

/// A node of the host document, as far as walking it needs to know.
#[derive(Debug)]
pub struct DomNode {
    /// The number by which the caller knows the node.
    pub id: u64,
    /// The node type, as the host reports it.
    pub node_type: u16,
    /// The child nodes, in document order.
    pub children: Vec<DomNode>,
}

/// The nodes below `children` that are not elements, in document order.
pub open spec fn leaves_among(children: Seq<DomNode>) -> Seq<u64>
    decreases children, 0nat,
{
    if children.len() == 0 {
        Seq::empty()
    } else {
        leaves_among(children.drop_last()) + leaves_from(children.last())
    }
}

/// The node itself when it is no element, and otherwise the nodes below it
/// that are not elements, in document order.
pub open spec fn leaves_from(node: DomNode) -> Seq<u64>
    decreases node, 1nat,
{
    if node.node_type == ELEMENT_NODE {
        leaves_among(node.children@)
    } else {
        seq![node.id]
    }
}

/// The descendants of `element` that are not elements themselves, in document
/// order: an element child stands for what is below it, any other child for
/// itself.
pub fn descendants(element: &DomNode) -> (nodes: Vec<u64>)
    ensures
        nodes@ == leaves_among(element.children@),
    decreases element,
{
    let mut nodes: Vec<u64> = Vec::new();
    let mut i: usize = 0;
    while i < element.children.len()
        invariant
            i <= element.children.len(),
            nodes@ == leaves_among(element.children@.take(i as int)),
        decreases element.children.len() - i,
    {
        proof {
            let upto = element.children@.take(i as int + 1);
            assert(upto.drop_last() =~= element.children@.take(i as int));
            assert(upto.last() == element.children[i as int]);
        }
        let child = &element.children[i];
        let ghost before = nodes@;
        if child.node_type == ELEMENT_NODE {
            let mut below = descendants(child);
            nodes.append(&mut below);
            assert(nodes@ =~= before + leaves_from(*child));
        } else {
            nodes.push(child.id);
            assert(nodes@ =~= before + leaves_from(*child));
        }
        assert(leaves_among(element.children@.take(i as int + 1)) == before + leaves_from(*child));
        i = i + 1;
    }
    proof {
        assert(element.children@.take(i as int) =~= element.children@);
    }
    nodes
}

} // verus!
