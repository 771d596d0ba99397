use obol_dvt_blueprint::{Follower, FollowerStage, Leader, LeaderStage, Msg, Outbound};

#[test]
fn leader_and_two_followers_complete_the_exchange() {
    let mut leader = Leader::new(2);
    let mut a = Follower::new(1, "a".to_string());
    let mut b = Follower::new(2, "b".to_string());

    assert_eq!(a.start(), vec![Outbound::Unicast(0, Msg::HereIAm)]);
    assert_eq!(b.start(), vec![Outbound::Unicast(0, Msg::HereIAm)]);

    assert_eq!(leader.on_message(1, Msg::HereIAm), vec![]);
    assert_eq!(leader.on_message(2, Msg::HereIAm), vec![Outbound::Broadcast(Msg::RequestEnr)]);
    assert_eq!(leader.stage(), LeaderStage::CollectingIdentities);

    assert_eq!(a.on_message(0, Msg::RequestEnr), vec![Outbound::Unicast(0, Msg::SendEnr("a".to_string()))]);
    assert_eq!(b.on_message(0, Msg::RequestEnr), vec![Outbound::Unicast(0, Msg::SendEnr("b".to_string()))]);

    assert_eq!(
        leader.on_message(1, Msg::SendEnr("a".to_string())),
        vec![Outbound::Unicast(1, Msg::EnrReceived)]
    );
    assert_eq!(
        leader.on_message(2, Msg::SendEnr("b".to_string())),
        vec![
            Outbound::Unicast(2, Msg::EnrReceived),
            Outbound::AuthorConfig(vec!["a".to_string(), "b".to_string()]),
        ]
    );
    assert_eq!(leader.stage(), LeaderStage::Distributing);

    let config = "leader,a,b".to_string();
    assert_eq!(
        leader.config_authored(config.clone()),
        vec![Outbound::Broadcast(Msg::DkgConfigGenerated(config.clone()))]
    );

    assert_eq!(a.on_message(0, Msg::EnrReceived), vec![]);
    assert_eq!(
        a.on_message(0, Msg::DkgConfigGenerated(config.clone())),
        vec![Outbound::AdoptConfig(config.clone()), Outbound::Unicast(0, Msg::DkgConfigReceived)]
    );
    assert_eq!(
        b.on_message(0, Msg::DkgConfigGenerated(config.clone())),
        vec![Outbound::AdoptConfig(config.clone()), Outbound::Unicast(0, Msg::DkgConfigReceived)]
    );

    assert_eq!(leader.on_message(1, Msg::DkgConfigReceived), vec![]);
    assert_eq!(leader.on_message(2, Msg::DkgConfigReceived), vec![Outbound::Broadcast(Msg::ExchangeEnd)]);
    assert!(leader.is_done());

    assert_eq!(a.on_message(0, Msg::ExchangeEnd), vec![]);
    assert_eq!(b.on_message(0, Msg::ExchangeEnd), vec![]);
    assert!(a.is_done());
    assert!(b.is_done());
    assert_eq!(leader.finish(), Ok(vec!["a".to_string(), "b".to_string()]));
}

#[test]
fn leader_with_one_follower_collects_one_identity() {
    let mut leader = Leader::new(1);
    assert_eq!(leader.on_message(5, Msg::HereIAm), vec![Outbound::Broadcast(Msg::RequestEnr)]);
    let out = leader.on_message(5, Msg::SendEnr("x".to_string()));
    assert_eq!(
        out,
        vec![Outbound::Unicast(5, Msg::EnrReceived), Outbound::AuthorConfig(vec!["x".to_string()])]
    );
    leader.config_authored("cfg".to_string());
    assert_eq!(leader.on_message(5, Msg::DkgConfigReceived), vec![Outbound::Broadcast(Msg::ExchangeEnd)]);
    assert_eq!(leader.finish(), Ok(vec!["x".to_string()]));
}

#[test]
fn leader_ignores_messages_out_of_stage() {
    let mut leader = Leader::new(2);
    assert_eq!(leader.on_message(1, Msg::SendEnr("early".to_string())), vec![]);
    assert_eq!(leader.on_message(1, Msg::DkgConfigReceived), vec![]);
    assert_eq!(leader.config_authored("cfg".to_string()), vec![]);
    assert_eq!(leader.stage(), LeaderStage::AwaitingPeers);
    leader.on_message(1, Msg::HereIAm);
    leader.on_message(2, Msg::HereIAm);
    assert_eq!(leader.on_message(3, Msg::HereIAm), vec![]);
    assert_eq!(leader.stage(), LeaderStage::CollectingIdentities);
}

#[test]
fn leader_closed_early_is_an_incomplete_exchange() {
    let mut leader = Leader::new(2);
    leader.on_message(1, Msg::HereIAm);
    leader.on_message(2, Msg::HereIAm);
    leader.on_message(1, Msg::SendEnr("a".to_string()));
    assert_eq!(leader.finish(), Err(obol_dvt_blueprint::CeremonyError::IncompleteExchange));
}

#[test]
fn leader_expecting_nobody_never_requests() {
    let mut leader = Leader::new(0);
    assert_eq!(leader.on_message(1, Msg::HereIAm), vec![]);
    assert_eq!(leader.stage(), LeaderStage::AwaitingPeers);
}

#[test]
fn follower_replies_to_one_identity_request_only() {
    let mut f = Follower::new(3, "me".to_string());
    assert_eq!(f.on_message(0, Msg::RequestEnr), vec![]);
    f.start();
    assert_eq!(f.start(), vec![]);
    assert_eq!(f.on_message(0, Msg::DkgConfigGenerated("c".to_string())), vec![]);
    assert_eq!(f.on_message(4, Msg::RequestEnr), vec![Outbound::Unicast(4, Msg::SendEnr("me".to_string()))]);
    assert_eq!(f.leader(), 4);
    assert_eq!(f.on_message(0, Msg::RequestEnr), vec![]);
    assert_eq!(f.stage(), FollowerStage::AwaitingConfig);
    assert_eq!(
        f.on_message(0, Msg::DkgConfigGenerated("c".to_string())),
        vec![Outbound::AdoptConfig("c".to_string()), Outbound::Unicast(4, Msg::DkgConfigReceived)]
    );
    assert_eq!(f.stage(), FollowerStage::AwaitingEnd);
    f.on_message(0, Msg::ExchangeEnd);
    assert_eq!(f.stage(), FollowerStage::Done);
}

#[test]
fn leader_with_three_followers_keeps_receipt_order() {
    let mut leader = Leader::new(3);
    for id in [7u64, 8, 9] {
        leader.on_message(id, Msg::HereIAm);
    }
    leader.on_message(9, Msg::SendEnr("c".to_string()));
    leader.on_message(7, Msg::SendEnr("a".to_string()));
    let out = leader.on_message(8, Msg::SendEnr("b".to_string()));
    assert_eq!(out[1], Outbound::AuthorConfig(vec!["c".to_string(), "a".to_string(), "b".to_string()]));
    let f = Follower::new(9, "c".to_string());
    assert_eq!(f.position(), 9);
    assert_eq!(f.stage(), FollowerStage::AnnouncingSelf);
}

#[test]
fn follower_ends_on_exchange_end_at_any_stage_after_start() {
    let mut early = Follower::new(1, "me".to_string());
    assert_eq!(early.on_message(0, Msg::ExchangeEnd), vec![]);
    assert_eq!(early.stage(), FollowerStage::AnnouncingSelf);
    early.start();
    assert_eq!(early.on_message(0, Msg::ExchangeEnd), vec![]);
    assert!(early.is_done());

    let mut waiting = Follower::new(2, "me".to_string());
    waiting.start();
    waiting.on_message(0, Msg::RequestEnr);
    assert_eq!(waiting.on_message(0, Msg::ExchangeEnd), vec![]);
    assert!(waiting.is_done());
    assert_eq!(waiting.on_message(0, Msg::RequestEnr), vec![]);
}
