//! Message tags and client filters used when queueing chunks to send and
//! when broadcasting to clients.

use vstd::prelude::*;

verus! {

/// The kind of message a queued chunk send is tagged with.
#[derive(Clone, Copy, PartialEq, Eq, Structural, Debug)]
pub enum MessageType {
    Peer,
    Signal,
    Chunk,
    Load,
    Update,
}

impl MessageType {
    /// The message kind a wire tag routes to, if any: the tags are
    /// assigned in declaration order.
    pub fn from_i32(kind: i32) -> (r: Option<MessageType>)
        ensures
            r == (match kind {
                0 => Some(MessageType::Peer),
                1 => Some(MessageType::Signal),
                2 => Some(MessageType::Chunk),
                3 => Some(MessageType::Load),
                4 => Some(MessageType::Update),
                _ => None::<MessageType>,
            }),
    {
        match kind {
            0 => Some(MessageType::Peer),
            1 => Some(MessageType::Signal),
            2 => Some(MessageType::Chunk),
            3 => Some(MessageType::Load),
            4 => Some(MessageType::Update),
            _ => None,
        }
    }
}

/// Which clients a broadcast reaches: all of them, only the listed ids, or
/// all but the listed ids.
pub enum ClientFilter {
    All,
    Include(Vec<String>),
    Exclude(Vec<String>),
}

impl ClientFilter {
    /// Whether a client id passes this filter.
    pub open spec fn spec_allows(self, id: Seq<char>) -> bool {
        match self {
            ClientFilter::All => true,
            ClientFilter::Include(ids) => exists|i: int|
                0 <= i < ids@.len() && ids@[i]@ == id,
            ClientFilter::Exclude(ids) => !exists|i: int|
                0 <= i < ids@.len() && ids@[i]@ == id,
        }
    }

    /// Decide whether a broadcast under this filter reaches the client
    /// with the given id.
    pub fn allows(&self, id: &String) -> (r: bool)
        ensures
            r == self.spec_allows(id@),
    {
        match self {
            ClientFilter::All => true,
            ClientFilter::Include(ids) => string_list_contains(ids, id),
            ClientFilter::Exclude(ids) => !string_list_contains(ids, id),
        }
    }
}

/// Whether a list of ids holds the given id.
fn string_list_contains(ids: &Vec<String>, id: &String) -> (r: bool)
    ensures
        r == exists|i: int| 0 <= i < ids@.len() && ids@[i]@ == id@,
{
    let mut i: usize = 0;
    while i < ids.len()
        invariant
            i <= ids@.len(),
            forall|j: int| 0 <= j < i ==> ids@[j]@ != id@,
        decreases ids@.len() - i,
    {
        if ids[i].eq(id) {
            assert(ids@[i as int]@ == id@);
            return true;
        }
        i += 1;
    }
    false
}

} // verus!
