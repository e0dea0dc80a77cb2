//! Message-queue exposer: downward (relay-to-para) queues and inter-para
//! channels. Queues only grow except under explicit consumption by the
//! external message-processing collaborator.

use vstd::prelude::*;

use crate::types::{BlockNumber, HostError, ParaId};

verus! {

/// A queued relay-to-para message, tagged with its enqueue block number.
#[derive(Clone, PartialEq, Eq, Debug)]
pub struct InboundDownwardMessage {
    pub sent_at: BlockNumber,
    pub msg: Vec<u8>,
}

impl View for InboundDownwardMessage {
    type V = (BlockNumber, Seq<u8>);

    open spec fn view(&self) -> (BlockNumber, Seq<u8>) {
        (self.sent_at, self.msg@)
    }
}

/// A queued inter-para message, tagged with its enqueue block number.
#[derive(Clone, PartialEq, Eq, Debug)]
pub struct InboundHrmpMessage {
    pub sent_at: BlockNumber,
    pub data: Vec<u8>,
}

impl View for InboundHrmpMessage {
    type V = (BlockNumber, Seq<u8>);

    open spec fn view(&self) -> (BlockNumber, Seq<u8>) {
        (self.sent_at, self.data@)
    }
}

/// The downward message queue of one para.
#[derive(Clone, PartialEq, Eq, Debug)]
pub struct DownwardQueue {
    pub para_id: ParaId,
    pub messages: Vec<InboundDownwardMessage>,
}

/// One open inter-para channel. An open empty channel is represented as an
/// entry with no messages, distinct from a channel that does not exist.
#[derive(Clone, PartialEq, Eq, Debug)]
pub struct HrmpChannel {
    pub sender: ParaId,
    pub recipient: ParaId,
    pub messages: Vec<InboundHrmpMessage>,
}

/// Whether some queue in `qs` belongs to `p`.
pub open spec fn has_queue(qs: Seq<DownwardQueue>, p: ParaId) -> bool {
    exists|j: int| 0 <= j < qs.len() && qs[j].para_id == p
}

/// The index of `p`'s queue; meaningful under `downward_queues_wf`.
pub open spec fn queue_index(qs: Seq<DownwardQueue>, p: ParaId) -> int {
    choose|j: int| 0 <= j < qs.len() && qs[j].para_id == p
}

/// Each para has at most one downward queue.
pub open spec fn downward_queues_wf(qs: Seq<DownwardQueue>) -> bool {
    forall|i: int, j: int|
        0 <= i < qs.len() && 0 <= j < qs.len() && qs[i].para_id == qs[j].para_id ==> i == j
}

/// Whether a channel from `sender` to `recipient` is open.
pub open spec fn has_channel(cs: Seq<HrmpChannel>, sender: ParaId, recipient: ParaId) -> bool {
    exists|j: int| 0 <= j < cs.len() && cs[j].sender == sender && cs[j].recipient == recipient
}

/// The index of that channel; meaningful under `channels_wf`.
pub open spec fn channel_index(cs: Seq<HrmpChannel>, sender: ParaId, recipient: ParaId) -> int {
    choose|j: int| 0 <= j < cs.len() && cs[j].sender == sender && cs[j].recipient == recipient
}

/// At most one channel per (sender, recipient) pair.
pub open spec fn channels_wf(cs: Seq<HrmpChannel>) -> bool {
    forall|i: int, j: int|
        0 <= i < cs.len() && 0 <= j < cs.len() && cs[i].sender == cs[j].sender && cs[i].recipient
            == cs[j].recipient ==> i == j
}

/// Position of `p`'s queue, if one exists.
pub fn find_queue(queues: &Vec<DownwardQueue>, p: ParaId) -> (r: Option<usize>)
    requires
        downward_queues_wf(queues@),
    ensures
        match r {
            Some(i) => i < queues@.len() && queues@[i as int].para_id == p && i as int
                == queue_index(queues@, p),
            None => !has_queue(queues@, p),
        },
{
    let mut i: usize = 0;
    while i < queues.len()
        invariant
            downward_queues_wf(queues@),
            i <= queues@.len(),
            forall|j: int| 0 <= j < i ==> queues@[j].para_id != p,
        decreases queues@.len() - i,
    {
        if queues[i].para_id == p {
            proof {
                let k = queue_index(queues@, p);
                assert(0 <= k < queues@.len() && queues@[k].para_id == p);
                assert(k == i as int);
            }
            return Some(i);
        }
        i = i + 1;
    }
    None
}

/// Position of the channel from `sender` to `recipient`, if open.
pub fn find_channel(channels: &Vec<HrmpChannel>, sender: ParaId, recipient: ParaId) -> (r: Option<
    usize,
>)
    requires
        channels_wf(channels@),
    ensures
        match r {
            Some(i) => i < channels@.len() && channels@[i as int].sender == sender
                && channels@[i as int].recipient == recipient && i as int == channel_index(
                channels@,
                sender,
                recipient,
            ),
            None => !has_channel(channels@, sender, recipient),
        },
{
    let mut i: usize = 0;
    while i < channels.len()
        invariant
            channels_wf(channels@),
            i <= channels@.len(),
            forall|j: int|
                0 <= j < i ==> !(channels@[j].sender == sender && channels@[j].recipient
                    == recipient),
        decreases channels@.len() - i,
    {
        if channels[i].sender == sender && channels[i].recipient == recipient {
            proof {
                let k = channel_index(channels@, sender, recipient);
                assert(0 <= k < channels@.len() && channels@[k].sender == sender
                    && channels@[k].recipient == recipient);
                assert(k == i as int);
            }
            return Some(i);
        }
        i = i + 1;
    }
    None
}

/// Enqueue one downward message for `recipient`, creating its queue on first
/// use. Every already-pending message stays in place.
pub fn enqueue_downward(
    queues: &mut Vec<DownwardQueue>,
    recipient: ParaId,
    message: InboundDownwardMessage,
)
    requires
        downward_queues_wf(old(queues)@),
    ensures
        downward_queues_wf(final(queues)@),
        has_queue(final(queues)@, recipient),
        has_queue(old(queues)@, recipient) ==> {
            let k = queue_index(old(queues)@, recipient);
            &&& final(queues)@.len() == old(queues)@.len()
            &&& forall|j: int|
                0 <= j < old(queues)@.len() && j != k ==> final(queues)@[j] == old(queues)@[j]
            &&& final(queues)@[k].para_id == recipient
            &&& final(queues)@[k].messages@ == old(queues)@[k].messages@.push(message)
        },
        !has_queue(old(queues)@, recipient) ==> {
            &&& final(queues)@.len() == old(queues)@.len() + 1
            &&& forall|j: int|
                0 <= j < old(queues)@.len() ==> final(queues)@[j] == old(queues)@[j]
            &&& final(queues)@.last().para_id == recipient
            &&& final(queues)@.last().messages@ =~= seq![message]
        },
{
    match find_queue(queues, recipient) {
        Some(i) => {
            let mut q = queues.remove(i);
            q.messages.push(message);
            queues.insert(i, q);
            proof {
                assert(queues@ =~= old(queues)@.update(i as int, queues@[i as int]));
                assert(queues@[i as int].para_id == recipient);
            }
        },
        None => {
            let mut single: Vec<InboundDownwardMessage> = Vec::new();
            single.push(message);
            queues.push(DownwardQueue { para_id: recipient, messages: single });
            proof {
                assert(queues@[queues@.len() - 1].para_id == recipient);
            }
        },
    }
}

/// Drop the first `count` pending downward messages of `recipient`: the
/// explicit-consumption hook of the external message processor. Fails closed
/// when the queue is unknown or shorter than `count`.
pub fn consume_downward(queues: &mut Vec<DownwardQueue>, recipient: ParaId, count: usize) -> (r:
    Result<(), HostError>)
    requires
        downward_queues_wf(old(queues)@),
    ensures
        downward_queues_wf(final(queues)@),
        r is Err ==> *final(queues) == *old(queues) && r == Err::<(), HostError>(
            HostError::NotFound,
        ),
        r is Err <==> !has_queue(old(queues)@, recipient) || count > old(queues)@[queue_index(
            old(queues)@,
            recipient,
        )].messages@.len(),
        r is Ok ==> {
            let k = queue_index(old(queues)@, recipient);
            &&& final(queues)@.len() == old(queues)@.len()
            &&& forall|j: int|
                0 <= j < old(queues)@.len() && j != k ==> final(queues)@[j] == old(queues)@[j]
            &&& final(queues)@[k].para_id == recipient
            &&& final(queues)@[k].messages@ == old(queues)@[k].messages@.skip(count as int)
        },
{
    match find_queue(queues, recipient) {
        Some(i) => {
            if count > queues[i].messages.len() {
                return Err(HostError::NotFound);
            }
            let mut q = queues.remove(i);
            let tail = q.messages.split_off(count);
            queues.insert(i, DownwardQueue { para_id: q.para_id, messages: tail });
            proof {
                assert(queues@ =~= old(queues)@.update(i as int, queues@[i as int]));
            }
            Ok(())
        },
        None => Err(HostError::NotFound),
    }
}

/// Open a channel from `sender` to `recipient` with no pending messages.
/// A no-op when the channel already exists.
pub fn open_channel(channels: &mut Vec<HrmpChannel>, sender: ParaId, recipient: ParaId) -> (added:
    bool)
    requires
        channels_wf(old(channels)@),
    ensures
        channels_wf(final(channels)@),
        has_channel(final(channels)@, sender, recipient),
        !added ==> *final(channels) == *old(channels) && has_channel(
            old(channels)@,
            sender,
            recipient,
        ),
        added ==> {
            &&& !has_channel(old(channels)@, sender, recipient)
            &&& final(channels)@.len() == old(channels)@.len() + 1
            &&& forall|j: int|
                0 <= j < old(channels)@.len() ==> final(channels)@[j] == old(channels)@[j]
            &&& final(channels)@.last().sender == sender
            &&& final(channels)@.last().recipient == recipient
            &&& final(channels)@.last().messages@.len() == 0
        },
{
    match find_channel(channels, sender, recipient) {
        Some(i) => {
            proof {
                assert(channels@[i as int].sender == sender && channels@[i as int].recipient
                    == recipient);
            }
            false
        },
        None => {
            channels.push(HrmpChannel { sender, recipient, messages: Vec::new() });
            proof {
                assert(channels@[channels@.len() - 1].sender == sender && channels@[channels@.len()
                    - 1].recipient == recipient);
            }
            true
        },
    }
}

/// Enqueue one inter-para message on an already-open channel. Fails closed
/// with `NotFound` when no channel from `sender` to `recipient` exists.
pub fn enqueue_hrmp(
    channels: &mut Vec<HrmpChannel>,
    sender: ParaId,
    recipient: ParaId,
    message: InboundHrmpMessage,
) -> (r: Result<(), HostError>)
    requires
        channels_wf(old(channels)@),
    ensures
        channels_wf(final(channels)@),
        r is Err ==> *final(channels) == *old(channels) && r == Err::<(), HostError>(
            HostError::NotFound,
        ),
        r is Err <==> !has_channel(old(channels)@, sender, recipient),
        r is Ok ==> {
            let k = channel_index(old(channels)@, sender, recipient);
            &&& final(channels)@.len() == old(channels)@.len()
            &&& forall|j: int|
                0 <= j < old(channels)@.len() && j != k ==> final(channels)@[j] == old(channels)@[j]
            &&& final(channels)@[k].sender == sender
            &&& final(channels)@[k].recipient == recipient
            &&& final(channels)@[k].messages@ == old(channels)@[k].messages@.push(message)
        },
{
    match find_channel(channels, sender, recipient) {
        Some(i) => {
            let mut c = channels.remove(i);
            c.messages.push(message);
            channels.insert(i, c);
            proof {
                assert(channels@ =~= old(channels)@.update(i as int, channels@[i as int]));
            }
            Ok(())
        },
        None => Err(HostError::NotFound),
    }
}

/// Enqueuing preserves every already-pending message and appends the new one,
/// so absent explicit consumption a queue's total is non-decreasing.
pub proof fn lemma_enqueue_monotone(
    before: Seq<InboundDownwardMessage>,
    after: Seq<InboundDownwardMessage>,
    message: InboundDownwardMessage,
)
    requires
        after == before.push(message),
    ensures
        after.len() == before.len() + 1,
        forall|i: int| 0 <= i < before.len() ==> after[i] == before[i],
{
}

/// The channel counterpart of `lemma_enqueue_monotone`.
pub proof fn lemma_hrmp_enqueue_monotone(
    before: Seq<InboundHrmpMessage>,
    after: Seq<InboundHrmpMessage>,
    message: InboundHrmpMessage,
)
    requires
        after == before.push(message),
    ensures
        after.len() == before.len() + 1,
        forall|i: int| 0 <= i < before.len() ==> after[i] == before[i],
{
}

} // verus!
