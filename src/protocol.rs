//! The leader/follower exchange as two state machines.
//!
//! Each machine takes one event at a time (a received message, or for the
//! leader the authored configuration) and answers with what the node must do
//! next. The caller owns the transport and performs the answers in order.

use crate::message::{Msg, MsgView};
use crate::CeremonyError;
use vstd::prelude::*;

verus! {

/// The ordinal of the leader.
pub const LEADER_ORDINAL: u64 = 0;

/// Something a state machine asks its node to do.
#[derive(Debug, PartialEq, Eq)]
pub enum Outbound {
    /// Send a message to every participant.
    Broadcast(Msg),
    /// Send a message to the participant with this ordinal.
    Unicast(u64, Msg),
    /// Author the ceremony configuration from these follower identities, then
    /// hand its serialized form to [`Leader::config_authored`].
    AuthorConfig(Vec<String>),
    /// Persist this configuration locally, overwriting any earlier one.
    AdoptConfig(String),
}

pub enum OutboundView {
    Broadcast(MsgView),
    Unicast(u64, MsgView),
    AuthorConfig(Seq<Seq<char>>),
    AdoptConfig(Seq<char>),
}

pub open spec fn texts(v: Seq<String>) -> Seq<Seq<char>> {
    v.map_values(|s: String| s@)
}

impl View for Outbound {
    type V = OutboundView;

    open spec fn view(&self) -> OutboundView {
        match self {
            Outbound::Broadcast(m) => OutboundView::Broadcast(m@),
            Outbound::Unicast(to, m) => OutboundView::Unicast(*to, m@),
            Outbound::AuthorConfig(ids) => OutboundView::AuthorConfig(texts(ids@)),
            Outbound::AdoptConfig(c) => OutboundView::AdoptConfig(c@),
        }
    }
}

pub open spec fn outbound_views(v: Seq<Outbound>) -> Seq<OutboundView> {
    v.map_values(|o: Outbound| o@)
}

// ---------------------------------------------------------------- leader

#[derive(Debug, Clone, Copy, PartialEq, Eq, Structural)]
pub enum LeaderStage {
    AwaitingPeers,
    CollectingIdentities,
    Distributing,
    AwaitingAcks,
    Done,
}

/// What the leader reacts to.
pub enum LeaderInput {
    Received(u64, MsgView),
    ConfigAuthored(Seq<char>),
}

pub struct LeaderView {
    pub expected: nat,
    pub peers: nat,
    pub enrs: Seq<Seq<char>>,
    pub acks: nat,
    pub stage: LeaderStage,
}

/// The leader before any message: waiting for `expected` announcements.
pub open spec fn leader_init(expected: nat) -> LeaderView {
    LeaderView { expected, peers: 0, enrs: seq![], acks: 0, stage: LeaderStage::AwaitingPeers }
}

/// The leader's state after one input.
pub open spec fn leader_next(s: LeaderView, i: LeaderInput) -> LeaderView {
    match (s.stage, i) {
        (LeaderStage::AwaitingPeers, LeaderInput::Received(_, MsgView::HereIAm)) => {
            let peers = s.peers + 1;
            if s.peers >= s.expected {
                s
            } else if peers == s.expected {
                LeaderView { peers, stage: LeaderStage::CollectingIdentities, ..s }
            } else {
                LeaderView { peers, ..s }
            }
        },
        (LeaderStage::CollectingIdentities, LeaderInput::Received(_, MsgView::SendEnr(id))) => {
            let enrs = s.enrs.push(id);
            if enrs.len() == s.expected {
                LeaderView { enrs, stage: LeaderStage::Distributing, ..s }
            } else {
                LeaderView { enrs, ..s }
            }
        },
        (LeaderStage::Distributing, LeaderInput::ConfigAuthored(_)) => {
            LeaderView { stage: LeaderStage::AwaitingAcks, ..s }
        },
        (LeaderStage::AwaitingAcks, LeaderInput::Received(_, MsgView::DkgConfigReceived)) => {
            let acks = s.acks + 1;
            if acks == s.expected {
                LeaderView { acks, stage: LeaderStage::Done, ..s }
            } else {
                LeaderView { acks, ..s }
            }
        },
        _ => s,
    }
}

/// What the leader asks for on one input.
pub open spec fn leader_out(s: LeaderView, i: LeaderInput) -> Seq<OutboundView> {
    match (s.stage, i) {
        (LeaderStage::AwaitingPeers, LeaderInput::Received(_, MsgView::HereIAm)) => {
            if s.peers < s.expected && s.peers + 1 == s.expected {
                seq![OutboundView::Broadcast(MsgView::RequestEnr)]
            } else {
                seq![]
            }
        },
        (LeaderStage::CollectingIdentities, LeaderInput::Received(from, MsgView::SendEnr(id))) => {
            let ack = OutboundView::Unicast(from, MsgView::EnrReceived);
            if s.enrs.len() + 1 == s.expected {
                seq![ack, OutboundView::AuthorConfig(s.enrs.push(id))]
            } else {
                seq![ack]
            }
        },
        (LeaderStage::Distributing, LeaderInput::ConfigAuthored(c)) => {
            seq![OutboundView::Broadcast(MsgView::DkgConfigGenerated(c))]
        },
        (LeaderStage::AwaitingAcks, LeaderInput::Received(_, MsgView::DkgConfigReceived)) => {
            if s.acks + 1 == s.expected {
                seq![OutboundView::Broadcast(MsgView::ExchangeEnd)]
            } else {
                seq![]
            }
        },
        _ => seq![],
    }
}

/// The leader's state after a sequence of inputs.
pub open spec fn leader_run(s: LeaderView, inputs: Seq<LeaderInput>) -> LeaderView
    decreases inputs.len(),
{
    if inputs.len() == 0 {
        s
    } else {
        leader_run(leader_next(s, inputs[0]), inputs.drop_first())
    }
}

/// The leader side of the exchange.
pub struct Leader {
    expected: usize,
    peers: usize,
    enrs: Vec<String>,
    acks: usize,
    stage: LeaderStage,
}

impl View for Leader {
    type V = LeaderView;

    closed spec fn view(&self) -> LeaderView {
        LeaderView {
            expected: self.expected as nat,
            peers: self.peers as nat,
            enrs: texts(self.enrs@),
            acks: self.acks as nat,
            stage: self.stage,
        }
    }
}

/// The counters never pass the expected count, and each stage has the counts
/// that led to it.
pub open spec fn leader_wf(s: LeaderView) -> bool {
    &&& s.peers <= s.expected
    &&& s.enrs.len() <= s.expected
    &&& s.acks <= s.expected
    &&& (s.stage == LeaderStage::AwaitingPeers ==> s.enrs.len() == 0 && (s.peers < s.expected
        || s.expected == 0))
    &&& (s.stage == LeaderStage::CollectingIdentities ==> s.enrs.len() < s.expected)
    &&& (s.stage != LeaderStage::AwaitingPeers ==> s.peers == s.expected && s.expected >= 1)
    &&& (s.stage == LeaderStage::Distributing || s.stage == LeaderStage::AwaitingAcks
        || s.stage == LeaderStage::Done ==> s.enrs.len() == s.expected)
    &&& (s.stage != LeaderStage::AwaitingAcks && s.stage != LeaderStage::Done ==> s.acks == 0)
    &&& (s.stage == LeaderStage::AwaitingAcks ==> s.acks < s.expected)
    &&& (s.stage == LeaderStage::Done ==> s.acks == s.expected)
}

impl Leader {
    pub open spec fn wf(&self) -> bool {
        leader_wf(self@)
    }

    /// A leader that waits for `expected_count` followers.
    pub fn new(expected_count: usize) -> (r: Leader)
        ensures
            r.wf(),
            r@ == leader_init(expected_count as nat),
    {
        let r = Leader {
            expected: expected_count,
            peers: 0,
            enrs: Vec::new(),
            acks: 0,
            stage: LeaderStage::AwaitingPeers,
        };
        assert(texts(r.enrs@) =~= seq![]);
        r
    }

    pub fn stage(&self) -> (r: LeaderStage)
        ensures
            r == self@.stage,
    {
        self.stage
    }

    /// Reacts to a message from the participant with ordinal `sender`.
    /// Messages that the current stage does not expect are ignored; a leader
    /// that expects no followers never leaves `AwaitingPeers`.
    pub fn on_message(&mut self, sender: u64, msg: Msg) -> (r: Vec<Outbound>)
        requires
            old(self).wf(),
        ensures
            final(self).wf(),
            final(self)@ == leader_next(old(self)@, LeaderInput::Received(sender, msg@)),
            outbound_views(r@) == leader_out(old(self)@, LeaderInput::Received(sender, msg@)),
    {
        let ghost s = self@;
        let ghost i = LeaderInput::Received(sender, msg@);
        let mut out: Vec<Outbound> = Vec::new();
        match (self.stage, msg) {
            (LeaderStage::AwaitingPeers, Msg::HereIAm) => {
                if self.peers < self.expected {
                    self.peers = self.peers + 1;
                    if self.peers == self.expected {
                        self.stage = LeaderStage::CollectingIdentities;
                        out.push(Outbound::Broadcast(Msg::RequestEnr));
                    }
                }
            },
            (LeaderStage::CollectingIdentities, Msg::SendEnr(id)) => {
                self.enrs.push(id);
                assert(texts(self.enrs@) =~= s.enrs.push(id@));
                out.push(Outbound::Unicast(sender, Msg::EnrReceived));
                if self.enrs.len() == self.expected {
                    self.stage = LeaderStage::Distributing;
                    out.push(Outbound::AuthorConfig(self.enrs.clone()));
                }
            },
            (LeaderStage::AwaitingAcks, Msg::DkgConfigReceived) => {
                self.acks = self.acks + 1;
                if self.acks == self.expected {
                    self.stage = LeaderStage::Done;
                    out.push(Outbound::Broadcast(Msg::ExchangeEnd));
                }
            },
            _ => {},
        }
        assert(outbound_views(out@) =~= leader_out(s, i));
        out
    }

    /// Takes the serialized configuration that was authored on request and
    /// asks for it to be broadcast. Ignored unless the leader is distributing.
    pub fn config_authored(&mut self, config: String) -> (r: Vec<Outbound>)
        requires
            old(self).wf(),
        ensures
            final(self).wf(),
            final(self)@ == leader_next(old(self)@, LeaderInput::ConfigAuthored(config@)),
            outbound_views(r@) == leader_out(old(self)@, LeaderInput::ConfigAuthored(config@)),
    {
        let ghost s = self@;
        let ghost i = LeaderInput::ConfigAuthored(config@);
        let mut out: Vec<Outbound> = Vec::new();
        if self.stage == LeaderStage::Distributing {
            self.stage = LeaderStage::AwaitingAcks;
            out.push(Outbound::Broadcast(Msg::DkgConfigGenerated(config)));
        }
        assert(outbound_views(out@) =~= leader_out(s, i));
        out
    }

    /// The exchange is over once the end has been broadcast.
    pub fn is_done(&self) -> (r: bool)
        ensures
            r == (self@.stage == LeaderStage::Done),
    {
        self.stage == LeaderStage::Done
    }

    /// The identities collected from the followers, in the order received,
    /// once all of them are in; `IncompleteExchange` before that.
    pub fn finish(self) -> (r: Result<Vec<String>, CeremonyError>)
        requires
            self.wf(),
        ensures
            r matches Ok(ids) ==> texts(ids@) == self@.enrs,
            r is Ok <==> self@.enrs.len() == self@.expected,
            r matches Err(e) ==> e == CeremonyError::IncompleteExchange,
    {
        if self.enrs.len() == self.expected {
            Ok(self.enrs)
        } else {
            Err(CeremonyError::IncompleteExchange)
        }
    }
}

// -------------------------------------------------------------- follower

#[derive(Debug, Clone, Copy, PartialEq, Eq, Structural)]
pub enum FollowerStage {
    AnnouncingSelf,
    AwaitingRequest,
    AwaitingConfig,
    AwaitingEnd,
    Done,
}

/// What the follower reacts to.
pub enum FollowerInput {
    Start,
    Received(u64, MsgView),
}

pub struct FollowerView {
    pub position: u64,
    pub enr: Seq<char>,
    pub leader: u64,
    pub replies: nat,
    pub stage: FollowerStage,
}

/// A follower that has not yet announced itself.
pub open spec fn follower_init(position: u64, enr: Seq<char>) -> FollowerView {
    FollowerView { position, enr, leader: LEADER_ORDINAL, replies: 0, stage: FollowerStage::AnnouncingSelf }
}

/// The follower's state after one input.
pub open spec fn follower_next(s: FollowerView, i: FollowerInput) -> FollowerView {
    match (s.stage, i) {
        (FollowerStage::AnnouncingSelf, FollowerInput::Start) => {
            FollowerView { stage: FollowerStage::AwaitingRequest, ..s }
        },
        (FollowerStage::AwaitingRequest, FollowerInput::Received(from, MsgView::RequestEnr)) => {
            FollowerView {
                leader: from,
                replies: s.replies + 1,
                stage: FollowerStage::AwaitingConfig,
                ..s
            }
        },
        (FollowerStage::AwaitingConfig, FollowerInput::Received(_, MsgView::DkgConfigGenerated(_))) => {
            FollowerView { stage: FollowerStage::AwaitingEnd, ..s }
        },
        (_, FollowerInput::Received(_, MsgView::ExchangeEnd)) => {
            if s.stage == FollowerStage::AnnouncingSelf {
                s
            } else {
                FollowerView { stage: FollowerStage::Done, ..s }
            }
        },
        _ => s,
    }
}

/// What the follower asks for on one input.
pub open spec fn follower_out(s: FollowerView, i: FollowerInput) -> Seq<OutboundView> {
    match (s.stage, i) {
        (FollowerStage::AnnouncingSelf, FollowerInput::Start) => {
            seq![OutboundView::Unicast(LEADER_ORDINAL, MsgView::HereIAm)]
        },
        (FollowerStage::AwaitingRequest, FollowerInput::Received(from, MsgView::RequestEnr)) => {
            seq![OutboundView::Unicast(from, MsgView::SendEnr(s.enr))]
        },
        (FollowerStage::AwaitingConfig, FollowerInput::Received(_, MsgView::DkgConfigGenerated(c))) => {
            seq![
                OutboundView::AdoptConfig(c),
                OutboundView::Unicast(s.leader, MsgView::DkgConfigReceived),
            ]
        },
        _ => seq![],
    }
}

/// Whether an answer replies with the node's identity.
pub open spec fn is_identity_reply(o: OutboundView) -> bool {
    o matches OutboundView::Unicast(_, MsgView::SendEnr(_))
}

/// How many identity replies a list of answers holds.
pub open spec fn identity_replies(v: Seq<OutboundView>) -> nat
    decreases v.len(),
{
    if v.len() == 0 {
        0
    } else {
        identity_replies(v.drop_last()) + if is_identity_reply(v.last()) {
            1nat
        } else {
            0nat
        }
    }
}

/// The reply count matches the stage: none before the request, exactly one
/// while the configuration is awaited or adopted, at most one once ended.
pub open spec fn follower_wf(s: FollowerView) -> bool {
    match s.stage {
        FollowerStage::AnnouncingSelf | FollowerStage::AwaitingRequest => s.replies == 0,
        FollowerStage::AwaitingConfig | FollowerStage::AwaitingEnd => s.replies == 1,
        FollowerStage::Done => s.replies <= 1,
    }
}

/// The follower side of the exchange.
pub struct Follower {
    position: u64,
    enr: String,
    leader: u64,
    replies: u64,
    stage: FollowerStage,
}

impl View for Follower {
    type V = FollowerView;

    closed spec fn view(&self) -> FollowerView {
        FollowerView {
            position: self.position,
            enr: self.enr@,
            leader: self.leader,
            replies: self.replies as nat,
            stage: self.stage,
        }
    }
}

impl Follower {
    pub open spec fn wf(&self) -> bool {
        follower_wf(self@)
    }

    /// A follower at ordinal `position` whose identity is `enr`.
    pub fn new(position: u64, enr: String) -> (r: Follower)
        ensures
            r.wf(),
            r@ == follower_init(position, enr@),
    {
        Follower { position, enr, leader: LEADER_ORDINAL, replies: 0, stage: FollowerStage::AnnouncingSelf }
    }

    pub fn stage(&self) -> (r: FollowerStage)
        ensures
            r == self@.stage,
    {
        self.stage
    }

    /// This node's ordinal.
    pub fn position(&self) -> (r: u64)
        ensures
            r == self@.position,
    {
        self.position
    }

    /// The ordinal of the participant that requested this node's identity,
    /// the leader's ordinal before that.
    pub fn leader(&self) -> (r: u64)
        ensures
            r == self@.leader,
    {
        self.leader
    }

    /// Announces the follower to the leader. Does nothing after the first call.
    pub fn start(&mut self) -> (r: Vec<Outbound>)
        requires
            old(self).wf(),
        ensures
            final(self).wf(),
            final(self)@ == follower_next(old(self)@, FollowerInput::Start),
            outbound_views(r@) == follower_out(old(self)@, FollowerInput::Start),
    {
        let ghost s = self@;
        let mut out: Vec<Outbound> = Vec::new();
        if self.stage == FollowerStage::AnnouncingSelf {
            self.stage = FollowerStage::AwaitingRequest;
            out.push(Outbound::Unicast(LEADER_ORDINAL, Msg::HereIAm));
        }
        assert(outbound_views(out@) =~= follower_out(s, FollowerInput::Start));
        out
    }

    /// Reacts to a message from the participant with ordinal `sender`.
    /// `ExchangeEnd` ends the exchange at any stage after `start`; other
    /// messages that the current stage does not expect are ignored.
    pub fn on_message(&mut self, sender: u64, msg: Msg) -> (r: Vec<Outbound>)
        requires
            old(self).wf(),
        ensures
            final(self).wf(),
            final(self)@ == follower_next(old(self)@, FollowerInput::Received(sender, msg@)),
            outbound_views(r@) == follower_out(old(self)@, FollowerInput::Received(sender, msg@)),
    {
        let ghost s = self@;
        let ghost i = FollowerInput::Received(sender, msg@);
        let mut out: Vec<Outbound> = Vec::new();
        match (self.stage, msg) {
            (FollowerStage::AwaitingRequest, Msg::RequestEnr) => {
                self.leader = sender;
                self.replies = self.replies + 1;
                self.stage = FollowerStage::AwaitingConfig;
                out.push(Outbound::Unicast(sender, Msg::SendEnr(self.enr.clone())));
            },
            (FollowerStage::AwaitingConfig, Msg::DkgConfigGenerated(config)) => {
                self.stage = FollowerStage::AwaitingEnd;
                out.push(Outbound::AdoptConfig(config));
                out.push(Outbound::Unicast(self.leader, Msg::DkgConfigReceived));
            },
            (stage, Msg::ExchangeEnd) => {
                if stage != FollowerStage::AnnouncingSelf {
                    self.stage = FollowerStage::Done;
                }
            },
            _ => {},
        }
        assert(outbound_views(out@) =~= follower_out(s, i));
        out
    }

    /// The exchange is over once the leader has ended it.
    pub fn is_done(&self) -> (r: bool)
        ensures
            r == (self@.stage == FollowerStage::Done),
    {
        self.stage == FollowerStage::Done
    }
}

// ------------------------------------------------------------------ laws

/// Whether an answer adopts a configuration.
pub open spec fn is_adoption(o: OutboundView) -> bool {
    o is AdoptConfig
}

/// A follower answers at most one identity request, and it adopts a
/// configuration and moves past `AwaitingConfig` only after exactly one such
/// answer: whatever it receives, the count of identity replies it has sent
/// goes up by what the step sends and never passes one; a step that adopts a
/// configuration, or that ends in `AwaitingEnd`, comes after exactly one.
pub proof fn lemma_follower_replies_once(s: FollowerView, i: FollowerInput)
    requires
        follower_wf(s),
    ensures
        follower_wf(follower_next(s, i)),
        follower_next(s, i).replies == s.replies + identity_replies(follower_out(s, i)),
        follower_next(s, i).replies <= 1,
        follower_next(s, i).stage == FollowerStage::AwaitingEnd ==> follower_next(s, i).replies
            == 1,
        (exists|k: int| 0 <= k < follower_out(s, i).len() && is_adoption(follower_out(s, i)[k]))
            ==> s.replies == 1,
{
    let out = follower_out(s, i);
    assert(identity_replies(seq![]) == 0);
    if out.len() == 1 {
        assert(out.drop_last() =~= seq![]);
    } else if out.len() == 2 {
        let first = seq![out[0]];
        assert(out.drop_last() =~= first);
        assert(first.drop_last() =~= seq![]);
        assert(identity_replies(first) == 0);
    }
}

/// The leader's run over `a` then `b` is its run over `a` continued over `b`.
pub proof fn lemma_leader_run_append(s: LeaderView, a: Seq<LeaderInput>, b: Seq<LeaderInput>)
    ensures
        leader_run(s, a + b) == leader_run(leader_run(s, a), b),
    decreases a.len(),
{
    if a.len() > 0 {
        assert((a + b).drop_first() =~= a.drop_first() + b);
        lemma_leader_run_append(leader_next(s, a[0]), a.drop_first(), b);
    } else {
        assert(a + b =~= b);
    }
}

/// Announcements from each of these senders, in order.
pub open spec fn announcements(senders: Seq<u64>) -> Seq<LeaderInput> {
    Seq::new(senders.len(), |k: int| LeaderInput::Received(senders[k], MsgView::HereIAm))
}

/// Identity replies: the `k`th sender sends the `k`th identity.
pub open spec fn identity_sends(senders: Seq<u64>, ids: Seq<Seq<char>>) -> Seq<LeaderInput> {
    Seq::new(senders.len(), |k: int| LeaderInput::Received(senders[k], MsgView::SendEnr(ids[k])))
}

/// Configuration acknowledgments from each of these senders, in order.
pub open spec fn config_acks(senders: Seq<u64>) -> Seq<LeaderInput> {
    Seq::new(senders.len(), |k: int| LeaderInput::Received(senders[k], MsgView::DkgConfigReceived))
}

/// A whole exchange with well-behaved followers: they announce themselves,
/// each sends its identity when asked, the configuration is authored, and each
/// acknowledges it.
pub open spec fn well_behaved_exchange(
    senders: Seq<u64>,
    ids: Seq<Seq<char>>,
    config: Seq<char>,
) -> Seq<LeaderInput> {
    announcements(senders) + identity_sends(senders, ids) + seq![LeaderInput::ConfigAuthored(config)]
        + config_acks(senders)
}

proof fn lemma_announce_all(s: LeaderView, senders: Seq<u64>)
    requires
        s.stage == LeaderStage::AwaitingPeers,
        senders.len() >= 1,
        s.peers + senders.len() == s.expected,
    ensures
        leader_run(s, announcements(senders)) == (LeaderView {
            peers: s.expected,
            stage: LeaderStage::CollectingIdentities,
            ..s
        }),
    decreases senders.len(),
{
    let a = announcements(senders);
    let t = leader_next(s, a[0]);
    assert(leader_run(s, a) == leader_run(t, a.drop_first()));
    assert(a.drop_first() =~= announcements(senders.drop_first()));
    if senders.len() > 1 {
        lemma_announce_all(t, senders.drop_first());
    } else {
        assert(a.drop_first() =~= seq![]);
        assert(leader_run(t, a.drop_first()) == t);
    }
}

proof fn lemma_collect_all(s: LeaderView, senders: Seq<u64>, ids: Seq<Seq<char>>)
    requires
        s.stage == LeaderStage::CollectingIdentities,
        senders.len() >= 1,
        ids.len() == senders.len(),
        s.enrs.len() + senders.len() == s.expected,
    ensures
        leader_run(s, identity_sends(senders, ids)) == (LeaderView {
            enrs: s.enrs + ids,
            stage: LeaderStage::Distributing,
            ..s
        }),
    decreases senders.len(),
{
    let a = identity_sends(senders, ids);
    let t = leader_next(s, a[0]);
    assert(leader_run(s, a) == leader_run(t, a.drop_first()));
    assert(a.drop_first() =~= identity_sends(senders.drop_first(), ids.drop_first()));
    assert(s.enrs.push(ids[0]) + ids.drop_first() =~= s.enrs + ids);
    if senders.len() > 1 {
        lemma_collect_all(t, senders.drop_first(), ids.drop_first());
    } else {
        assert(a.drop_first() =~= seq![]);
        assert(leader_run(t, a.drop_first()) == t);
        assert(s.enrs.push(ids[0]) =~= s.enrs + ids);
    }
}

proof fn lemma_ack_all(s: LeaderView, senders: Seq<u64>)
    requires
        s.stage == LeaderStage::AwaitingAcks,
        senders.len() >= 1,
        s.acks + senders.len() == s.expected,
    ensures
        leader_run(s, config_acks(senders)) == (LeaderView {
            acks: s.expected,
            stage: LeaderStage::Done,
            ..s
        }),
    decreases senders.len(),
{
    let a = config_acks(senders);
    let t = leader_next(s, a[0]);
    assert(leader_run(s, a) == leader_run(t, a.drop_first()));
    assert(a.drop_first() =~= config_acks(senders.drop_first()));
    if senders.len() > 1 {
        lemma_ack_all(t, senders.drop_first());
    } else {
        assert(a.drop_first() =~= seq![]);
        assert(leader_run(t, a.drop_first()) == t);
    }
}

/// For any number N >= 1 of well-behaved followers, a leader expecting N ends
/// the exchange `Done`, holding exactly their N identities in the order in
/// which they were sent.
pub proof fn lemma_leader_completes(senders: Seq<u64>, ids: Seq<Seq<char>>, config: Seq<char>)
    requires
        senders.len() >= 1,
        ids.len() == senders.len(),
    ensures
        leader_run(leader_init(senders.len()), well_behaved_exchange(senders, ids, config)).stage
            == LeaderStage::Done,
        leader_run(leader_init(senders.len()), well_behaved_exchange(senders, ids, config)).enrs
            == ids,
{
    let n = senders.len();
    let s0 = leader_init(n);
    let a = announcements(senders);
    let b = identity_sends(senders, ids);
    let c = seq![LeaderInput::ConfigAuthored(config)];
    let d = config_acks(senders);
    lemma_leader_run_append(s0, a + b + c, d);
    lemma_leader_run_append(s0, a + b, c);
    lemma_leader_run_append(s0, a, b);
    lemma_announce_all(s0, senders);
    let s1 = leader_run(s0, a);
    lemma_collect_all(s1, senders, ids);
    let s2 = leader_run(s1, b);
    assert(s2.enrs =~= ids);
    assert(c.drop_first() =~= seq![]);
    assert(leader_run(s2, c) == leader_run(leader_next(s2, c[0]), c.drop_first()));
    assert(leader_run(leader_next(s2, c[0]), c.drop_first()) == leader_next(s2, c[0]));
    let s3 = leader_run(s2, c);
    lemma_ack_all(s3, senders);
}

} // verus!
