use obol_dvt_blueprint::{
    create_enr, default_data_dir, wait_step, Artifact, CeremonyError, Container, DkgConfig,
    Operator, PeerEvent, PeerQuorum, Report, Stage, Task, WaitStep,
};

fn strings(v: &[&str]) -> Vec<String> {
    v.iter().map(|s| s.to_string()).collect()
}

fn launched(t: Task) -> Container {
    match t {
        Task::Launch(c) => c,
        other => panic!("expected a launch, got {:?}", other),
    }
}

fn config() -> DkgConfig {
    DkgConfig {
        name: "Example".to_string(),
        validator_count: 12,
        enrs: strings(&["enr:-a", "enr:-b"]),
        fee_recipient_address: "0x00".to_string(),
        withdrawal_address: "0xff".to_string(),
    }
}

#[test]
fn identity_without_matching_line_fails_after_removal() {
    let mut r = create_enr("/data");
    assert_eq!(r.task(), Task::CheckArtifact(Artifact::IdentityKey));
    let c = launched(r.step(Report::Exists(false)));
    assert_eq!(c.command(), Some(&strings(&["create", "enr"])));
    assert_eq!(c.bind_mounts(), Some(&strings(&["/data:/opt/charon"])));
    assert_eq!(c.image(), "obolnetwork/charon:v1.1.1");
    assert_eq!(r.step(Report::Launched), Task::StreamOutput);
    assert_eq!(r.step(Report::Output(b"no identity here\n".to_vec())), Task::StreamOutput);
    assert_eq!(r.step(Report::Output(b"nor here\nen".to_vec())), Task::StreamOutput);
    assert_eq!(r.step(Report::Output(b"d of output".to_vec())), Task::StreamOutput);
    assert_eq!(r.step(Report::OutputEnded), Task::AwaitExit);
    assert_eq!(r.step(Report::Exited(true)), Task::Remove);
    assert_eq!(r.step(Report::Removed), Task::Abort(CeremonyError::IdentityGenerationFailed));
    assert_eq!(r.stage(), Stage::Finished);
}

#[test]
fn identity_found_is_written_then_run_removed() {
    let mut r = create_enr("/data");
    r.step(Report::Exists(false));
    r.step(Report::Launched);
    assert_eq!(r.step(Report::Output(b"key created\nenr:-x".to_vec())), Task::StreamOutput);
    assert_eq!(r.step(Report::Output(b"yz\n".to_vec())), Task::AwaitExit);
    assert_eq!(
        r.step(Report::Exited(true)),
        Task::WriteArtifact(Artifact::IdentityPublic, "enr:-xyz".to_string())
    );
    assert_eq!(r.step(Report::Written), Task::Remove);
    assert_eq!(r.step(Report::Removed), Task::Complete("enr:-xyz".to_string()));
}

#[test]
fn stored_identity_is_read_without_a_run() {
    let mut r = create_enr("/data");
    assert_eq!(r.step(Report::Exists(true)), Task::ReadArtifact(Artifact::IdentityPublic));
    assert_eq!(r.step(Report::Read("enr:-old".to_string())), Task::Complete("enr:-old".to_string()));
}

#[test]
fn ceremony_with_lock_present_runs_nothing() {
    let op = Operator::new("/data".to_string(), "enr:-me".to_string());
    let mut r = op.start_dkg_ceremony();
    assert_eq!(r.task(), Task::CheckArtifact(Artifact::CeremonyLock));
    assert_eq!(r.step(Report::Exists(true)), Task::Complete(String::new()));
    assert_eq!(r.step(Report::Launched), Task::Complete(String::new()));
    assert!(r.is_finished());
}

#[test]
fn ceremony_without_lock_after_run_fails() {
    let op = Operator::new("/data".to_string(), "enr:-me".to_string());
    let mut r = op.start_dkg_ceremony();
    let c = launched(r.step(Report::Exists(false)));
    assert_eq!(c.command(), Some(&strings(&["dkg", "--publish"])));
    assert_eq!(r.step(Report::Launched), Task::AwaitExit);
    assert_eq!(r.step(Report::Exited(true)), Task::Remove);
    assert_eq!(r.step(Report::Removed), Task::CheckArtifact(Artifact::CeremonyLock));
    assert_eq!(r.step(Report::Exists(false)), Task::Abort(CeremonyError::CeremonyFailed));
}

#[test]
fn ceremony_run_succeeds_when_lock_appears() {
    let op = Operator::new("/data".to_string(), "enr:-me".to_string());
    let mut r = op.start_dkg_ceremony();
    r.step(Report::Exists(false));
    r.step(Report::Launched);
    r.step(Report::Exited(true));
    r.step(Report::Removed);
    assert_eq!(r.step(Report::Exists(true)), Task::Complete(String::new()));
}

#[test]
fn authoring_twice_with_stored_config_returns_same_bytes() {
    let op = Operator::new("/data".to_string(), "enr:-me".to_string());
    let mut results = Vec::new();
    for _ in 0..2 {
        let mut r = op.create_dkg_config(&config());
        assert_eq!(r.task(), Task::CheckArtifact(Artifact::ConfigDefinition));
        assert_eq!(r.step(Report::Exists(true)), Task::ReadArtifact(Artifact::ConfigDefinition));
        results.push(r.step(Report::Read("{\"x\":1}".to_string())));
    }
    assert_eq!(results[0], Task::Complete("{\"x\":1}".to_string()));
    assert_eq!(results[0], results[1]);
}

#[test]
fn authoring_command_lists_own_identity_first() {
    let op = Operator::new("/srv/node".to_string(), "enr:-me".to_string());
    let mut r = op.create_dkg_config(&config());
    let c = launched(r.step(Report::Exists(false)));
    assert_eq!(
        c.command(),
        Some(&strings(&[
            "create",
            "dkg",
            "--name",
            "Example",
            "--num-validators",
            "12",
            "--fee-recipient-addresses",
            "0x00",
            "--withdrawal-addresses",
            "0xff",
            "--operator-enrs",
            "enr:-me,enr:-a,enr:-b",
        ]))
    );
    assert_eq!(c.bind_mounts(), Some(&strings(&["/srv/node:/opt/charon"])));
    r.step(Report::Launched);
    r.step(Report::Exited(true));
    assert_eq!(r.step(Report::Removed), Task::CheckArtifact(Artifact::ConfigDefinition));
    assert_eq!(r.step(Report::Exists(true)), Task::ReadArtifact(Artifact::ConfigDefinition));
    assert_eq!(r.step(Report::Read("cfg".to_string())), Task::Complete("cfg".to_string()));
}

#[test]
fn authoring_failed_exit_is_config_authoring_failed() {
    let op = Operator::new("/data".to_string(), "enr:-me".to_string());
    let mut r = op.create_dkg_config(&config());
    r.step(Report::Exists(false));
    r.step(Report::Launched);
    assert_eq!(r.step(Report::Exited(false)), Task::Remove);
    assert_eq!(r.step(Report::Removed), Task::Abort(CeremonyError::ConfigAuthoringFailed));
}

#[test]
fn io_failure_removes_live_run_first() {
    let op = Operator::new("/data".to_string(), "enr:-me".to_string());
    let mut r = op.start_dkg_ceremony();
    r.step(Report::Exists(false));
    r.step(Report::Launched);
    assert_eq!(r.step(Report::IoFailed), Task::Remove);
    assert_eq!(r.step(Report::Removed), Task::Abort(CeremonyError::ProcessIOFailed));
}

#[test]
fn io_failure_without_run_aborts_at_once() {
    let mut r = create_enr("/data");
    assert_eq!(r.step(Report::IoFailed), Task::Abort(CeremonyError::ProcessIOFailed));
}

#[test]
fn failed_removal_aborts() {
    let mut r = create_enr("/data");
    r.step(Report::Exists(false));
    r.step(Report::Launched);
    r.step(Report::OutputEnded);
    r.step(Report::Exited(true));
    assert_eq!(r.step(Report::IoFailed), Task::Abort(CeremonyError::ProcessIOFailed));
}

#[test]
fn operator_tasks_for_stored_config() {
    let op = Operator::new("/data".to_string(), "enr:-me".to_string());
    assert_eq!(op.enr(), "enr:-me");
    assert_eq!(op.data_dir(), "/data");
    assert_eq!(op.fetch_dkg_config(), Task::ReadArtifact(Artifact::ConfigDefinition));
    assert_eq!(
        op.copy_in_dkg_config("c".to_string()),
        Task::WriteArtifact(Artifact::ConfigDefinition, "c".to_string())
    );
}

#[test]
fn artifact_paths() {
    assert_eq!(Artifact::IdentityKey.relative_path(), ".charon/charon-enr-private-key");
    assert_eq!(Artifact::IdentityPublic.relative_path(), "enr.pub");
    assert_eq!(Artifact::ConfigDefinition.relative_path(), ".charon/cluster-definition.json");
    assert_eq!(Artifact::CeremonyLock.relative_path(), ".charon/cluster-lock.json");
}

#[test]
fn container_builder_and_id() {
    let mut c = Container::new("img".to_string());
    assert_eq!(c.id(), None);
    c.env(strings(&["A=1"]));
    c.cmd(strings(&["run"]));
    c.binds(strings(&["/a:/b"]));
    c.set_id("abc".to_string());
    assert_eq!(c.id(), Some(&"abc".to_string()));
    assert_eq!(c.env_vars(), Some(&strings(&["A=1"])));
    let copy = c.clone();
    assert_eq!(copy, c);
    assert_eq!(c.take_id(), Some("abc".to_string()));
    assert_eq!(c.id(), None);
}

#[test]
fn wait_steps() {
    assert_eq!(wait_step(0, None), WaitStep::Exited);
    assert_eq!(wait_step(0, Some("x".to_string())), WaitStep::Exited);
    assert_eq!(wait_step(1, Some("boom".to_string())), WaitStep::Failed(Some("boom".to_string())));
    assert_eq!(wait_step(137, None), WaitStep::Failed(None));
}

#[test]
fn identity_on_standard_error_is_found() {
    let mut r = create_enr("/data");
    r.step(Report::Exists(false));
    r.step(Report::Launched);
    assert_eq!(r.step(Report::Output(b"enr:-err\n".to_vec())), Task::AwaitExit);
    r.step(Report::Exited(true));
    assert_eq!(r.step(Report::Written), Task::Remove);
    assert_eq!(r.step(Report::Removed), Task::Complete("enr:-err".to_string()));
}

#[test]
fn identity_run_that_fails_is_removed() {
    let mut r = create_enr("/data");
    r.step(Report::Exists(false));
    r.step(Report::Launched);
    r.step(Report::Output(b"enr:-x\n".to_vec()));
    assert_eq!(r.step(Report::Exited(false)), Task::Remove);
    assert_eq!(r.step(Report::Removed), Task::Abort(CeremonyError::IdentityGenerationFailed));
}

#[test]
fn config_for_identities_fixed_fields() {
    let c = DkgConfig::for_identities(strings(&["a"]));
    assert_eq!(c.name, "Example");
    assert_eq!(c.validator_count, 1);
    assert_eq!(c.enrs, strings(&["a"]));
    assert_eq!(c.fee_recipient_address, "0x0000000000000000000000000000000000000000");
    assert_eq!(c.withdrawal_address, "0xfB6916095ca1df60bB79Ce92cE3Ea74c37c5d359");
}

#[test]
fn peer_quorum_counts_connections() {
    let mut q = PeerQuorum::new(2);
    assert!(!q.is_reached());
    assert_eq!(q.on_event(PeerEvent::Closed), Ok(false));
    assert_eq!(q.on_event(PeerEvent::Connected), Ok(false));
    assert_eq!(q.on_event(PeerEvent::Closed), Ok(false));
    assert_eq!(q.on_event(PeerEvent::Connected), Ok(false));
    assert_eq!(q.on_event(PeerEvent::Connected), Ok(true));
    assert_eq!(q.on_event(PeerEvent::Closed), Ok(true));
    assert!(q.is_reached());
    assert_eq!(q.on_event(PeerEvent::Failed), Ok(true));
    let mut r = PeerQuorum::new(1);
    assert_eq!(r.on_event(PeerEvent::Failed), Err(CeremonyError::PeerDiscoveryFailed));
    assert!(PeerQuorum::new(0).is_reached());
}

#[test]
fn default_data_dir_appends_data() {
    assert_eq!(default_data_dir("/home/op/blueprint"), "/home/op/blueprint/data");
}

fn validators_arg(count: u32) -> String {
    let op = Operator::new("/d".to_string(), "e".to_string());
    let config = DkgConfig::new("n".to_string(), count, vec![], "f".to_string(), "w".to_string());
    let mut r = op.create_dkg_config(&config);
    let c = launched(r.step(Report::Exists(false)));
    c.command().unwrap()[5].clone()
}

#[test]
fn validator_count_is_written_in_decimal() {
    assert_eq!(validators_arg(0), "0");
    assert_eq!(validators_arg(10), "10");
    assert_eq!(validators_arg(907), "907");
    assert_eq!(validators_arg(u32::MAX), "4294967295");
}

#[test]
fn config_new_keeps_parameters() {
    let c = DkgConfig::new("N".to_string(), 4, strings(&["x"]), "0x1".to_string(), "0x2".to_string());
    assert_eq!(c.name, "N");
    assert_eq!(c.validator_count, 4);
    assert_eq!(c.enrs, strings(&["x"]));
    assert_eq!(c.fee_recipient_address, "0x1");
    assert_eq!(c.withdrawal_address, "0x2");
}
