//! What a node remembers.
use vstd::prelude::*;
use crate::channel::Channel;
use crate::channel::ChannelView;
use crate::model::views;
use crate::peer::NodeRepr;
use crate::peer::NodeReprView;
use crate::peer::PeerId;

verus! {

/// The state of a node that outlives a single command: who it is, the
/// peers it remembers and the channels it has joined.
#[derive(Debug)]
pub struct Data {
    pub local_peer_id: PeerId,
    pub nodes: Vec<NodeRepr>,
    pub channels: Vec<Channel>,
}

/// A [`Data`] as mathematics.
pub struct DataView {
    pub local_peer_id: Seq<u8>,
    pub nodes: Seq<NodeReprView>,
    pub channels: Seq<ChannelView>,
}

impl View for Data {
    type V = DataView;

    open spec fn view(&self) -> DataView {
        DataView {
            local_peer_id: self.local_peer_id@,
            nodes: views(self.nodes@),
            channels: views(self.channels@),
        }
    }
}

impl Data {
    /// The memory of a node that has met nobody and joined nothing.
    pub fn new(id: PeerId) -> (data: Data)
        ensures
            data@ == (DataView {
                local_peer_id: id@,
                nodes: Seq::empty(),
                channels: Seq::empty(),
            }),
    {
        let data = Data { local_peer_id: id, nodes: Vec::new(), channels: Vec::new() };
        proof {
            assert(views(data.nodes@) =~= Seq::empty());
            assert(views(data.channels@) =~= Seq::empty());
        }
        data
    }
}

} // verus!
