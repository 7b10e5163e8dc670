use subchunker::coordinator::{
    after_reconciliation, install_fabric_server, install_with_runtimes, message_for, next_stage, notice_text,
    server_jar_url, InstallationJob, InstallerMsg, Notice, Provisioned, Stage, StageEvent, Task,
    RUNTIME_DONE, SERVER_DONE,
};
use subchunker::console::COMPLETE;
use subchunker::plugins::{compute_gaps, PluginGap};

fn job() -> InstallationJob {
    InstallationJob {
        server_version: "1.21.4".to_string(),
        loader_version: "0.16.9".to_string(),
        runtime: "Azul".to_string(),
        memory_gb: 4,
        optional_toggles: vec![true; 8],
    }
}

#[test]
fn satisfied_job_goes_straight_to_the_benchmark() {
    let plan = install_fabric_server(Provisioned { server: true, runtime: true, license: true });
    assert_eq!(
        plan,
        vec![
            Task::Progress(SERVER_DONE),
            Task::Progress(RUNTIME_DONE),
            Task::Progress(COMPLETE),
            Task::Status(Stage::InstallingPlugins),
        ]
    );
    assert!(!plan.iter().any(|t| matches!(t, Task::DownloadServer | Task::InstallRuntime(_) | Task::WarmLaunch)));
    let required = vec!["Chunky".to_string()];
    let optional = vec!["Lithium".to_string()];
    let installed = vec!["chunky".to_string(), "lithium".to_string()];
    let gaps = compute_gaps(&optional, &vec![true], &required, &installed);
    let mut stage = Stage::Idle;
    let mut seen = vec![];
    for e in [StageEvent::RunRequested, StageEvent::ProvisioningDone, StageEvent::GapsChecked(gaps.len())] {
        stage = next_stage(stage, e).unwrap();
        seen.push(stage);
    }
    assert_eq!(seen, vec![Stage::Installing, Stage::InstallingPlugins, Stage::Running]);
    assert_eq!(after_reconciliation(&gaps), Stage::Running);
}

#[test]
fn fresh_install_does_every_step() {
    let plan = install_fabric_server(Provisioned { server: false, runtime: false, license: false });
    assert_eq!(
        plan,
        vec![
            Task::Notify(Notice::InstallingServer),
            Task::DownloadServer,
            Task::Progress(25_000),
            Task::Notify(Notice::InstallingRuntime),
            Task::InstallRuntime(0),
            Task::Progress(65_000),
            Task::Notify(Notice::InstallingLibraries),
            Task::WarmLaunch,
            Task::AcceptLicense,
            Task::Progress(100_000),
            Task::Status(Stage::InstallingPlugins),
        ]
    );
}

#[test]
fn only_missing_runtime_is_installed() {
    let plan = install_fabric_server(Provisioned { server: true, runtime: false, license: true });
    assert_eq!(
        plan,
        vec![
            Task::Progress(25_000),
            Task::Notify(Notice::InstallingRuntime),
            Task::InstallRuntime(0),
            Task::Progress(65_000),
            Task::Progress(100_000),
            Task::Status(Stage::InstallingPlugins),
        ]
    );
}

#[test]
fn stages_only_move_forward() {
    assert_eq!(next_stage(Stage::Idle, StageEvent::RunRequested), Some(Stage::Installing));
    assert_eq!(next_stage(Stage::Installing, StageEvent::ProvisioningDone), Some(Stage::InstallingPlugins));
    assert_eq!(next_stage(Stage::InstallingPlugins, StageEvent::GapsChecked(2)), Some(Stage::InstallingPlugins));
    assert_eq!(next_stage(Stage::InstallingPlugins, StageEvent::GapsChecked(0)), Some(Stage::Running));
    assert_eq!(next_stage(Stage::Running, StageEvent::BenchmarkComplete), Some(Stage::Finished));
    assert_eq!(next_stage(Stage::Installing, StageEvent::BenchmarkComplete), None);
    assert_eq!(next_stage(Stage::Finished, StageEvent::RunRequested), None);
    assert_eq!(next_stage(Stage::Running, StageEvent::RunRequested), None);
}

#[test]
fn gaps_keep_plugin_installation_going() {
    let gaps = vec![PluginGap { index: 8, name: "Chunky".to_string(), optional: false }];
    assert_eq!(after_reconciliation(&gaps), Stage::InstallingPlugins);
}

#[test]
fn messages_for_reports() {
    let j = job();
    assert_eq!(message_for(Task::Progress(25_000), &j), Some(InstallerMsg::Progress(25_000)));
    assert_eq!(message_for(Task::Status(Stage::InstallingPlugins), &j), Some(InstallerMsg::Status(Stage::InstallingPlugins)));
    assert_eq!(
        message_for(Task::Notify(Notice::InstallingServer), &j),
        Some(InstallerMsg::InstallingMsg("Installing Minecraft 1.21.4".to_string()))
    );
    assert_eq!(message_for(Task::DownloadServer, &j), None);
    assert_eq!(message_for(Task::AcceptLicense, &j), None);
    assert_eq!(notice_text(Notice::InstallingRuntime, &j), "Installing Azul JVM");
    assert_eq!(notice_text(Notice::InstallingLibraries, &j), "Installing Minecraft Libraries");
}

#[test]
fn server_artifact_address() {
    assert_eq!(
        server_jar_url("1.21.4", "0.16.9"),
        "https://meta.fabricmc.net/v2/versions/loader/1.21.4/0.16.9/1.1.0/server/jar"
    );
}

#[test]
fn runtimes_split_the_progress_band_evenly() {
    let plan = install_with_runtimes(true, &vec![false, true, false, true], true);
    assert_eq!(
        plan,
        vec![
            Task::Progress(25_000),
            Task::Notify(Notice::InstallingRuntime),
            Task::InstallRuntime(0),
            Task::Progress(35_000),
            Task::Progress(45_000),
            Task::Notify(Notice::InstallingRuntime),
            Task::InstallRuntime(2),
            Task::Progress(55_000),
            Task::Progress(65_000),
            Task::Progress(100_000),
            Task::Status(Stage::InstallingPlugins),
        ]
    );
    let three = install_with_runtimes(true, &vec![true, true, true], true);
    assert_eq!(
        three,
        vec![
            Task::Progress(25_000),
            Task::Progress(38_333),
            Task::Progress(51_666),
            Task::Progress(65_000),
            Task::Progress(100_000),
            Task::Status(Stage::InstallingPlugins),
        ]
    );
    let none = install_with_runtimes(true, &vec![], true);
    assert_eq!(
        none,
        vec![
            Task::Progress(25_000),
            Task::Progress(65_000),
            Task::Progress(100_000),
            Task::Status(Stage::InstallingPlugins),
        ]
    );
}
