use fleet_exec::address::AddressError;
use fleet_exec::install::{
    install_on_machine, transfer_destination, transfer_shell, Dependency, InstallAction,
    LocalTools,
};
use fleet_exec::orchestrate::{plan_run, ConfigError, RunConfig, RunPlan};

const URL: &str = "https://example.com/deploy/setup.sh";

fn config(all: bool, address: Option<&str>, url: &str) -> RunConfig {
    RunConfig { all, address: address.map(|a| a.to_string()), script_url: url.to_string() }
}

#[test]
fn explicit_address_plans_one_target() {
    match plan_run(&config(false, Some("10.0.0.5:2222"), URL)) {
        Ok(RunPlan::Single(t)) => {
            assert_eq!(t.host, "10.0.0.5");
            assert_eq!(t.port, 2222);
        }
        _ => panic!("expected one target"),
    }
}

#[test]
fn explicit_address_wins_over_all() {
    assert!(matches!(
        plan_run(&config(true, Some("10.0.0.5:2222"), URL)),
        Ok(RunPlan::Single(_))
    ));
}

#[test]
fn malformed_address_is_a_configuration_error() {
    assert!(matches!(
        plan_run(&config(false, Some("badinput"), URL)),
        Err(ConfigError::InvalidAddress(AddressError::MissingColon))
    ));
    assert!(matches!(
        plan_run(&config(true, Some("host:abc"), URL)),
        Err(ConfigError::InvalidAddress(AddressError::InvalidPort))
    ));
}

#[test]
fn all_plans_the_inventory() {
    assert!(matches!(plan_run(&config(true, None, URL)), Ok(RunPlan::Inventory)));
}

#[test]
fn no_flag_is_a_usage_error() {
    assert!(matches!(plan_run(&config(false, None, URL)), Err(ConfigError::NoTarget)));
}

#[test]
fn script_url_without_file_name_is_refused_first() {
    assert!(matches!(
        plan_run(&config(true, Some("badinput"), "https://example.com/")),
        Err(ConfigError::InvalidScriptUrl)
    ));
}

fn kinds(plan: &[InstallAction]) -> Vec<String> {
    plan.iter()
        .map(|a| match a {
            InstallAction::Install(d) => format!("{:?}", d),
            InstallAction::Transfer { ip, port } => format!("{}|{}", ip, port),
        })
        .collect()
}

#[test]
fn fresh_machine_installs_everything_then_transfers() {
    let tools = LocalTools { client_installed: false, git_installed: false, rsync_installed: false };
    let plan = install_on_machine("10.0.0.5:2222", tools);
    assert_eq!(kinds(&plan), vec!["Client", "Git", "Rsync", "10.0.0.5|2222"]);
}

#[test]
fn prepared_machine_only_transfers() {
    let tools = LocalTools { client_installed: true, git_installed: true, rsync_installed: true };
    let plan = install_on_machine("h:22", tools);
    assert_eq!(kinds(&plan), vec!["h|22"]);
}

#[test]
fn address_without_colon_skips_the_transfer() {
    let tools = LocalTools { client_installed: true, git_installed: false, rsync_installed: true };
    let plan = install_on_machine("nocolon", tools);
    assert_eq!(plan.len(), 1);
    assert!(matches!(plan[0], InstallAction::Install(Dependency::Git)));
}

#[test]
fn transfer_arguments() {
    assert_eq!(transfer_shell("2222"), "ssh -p 2222");
    assert_eq!(transfer_destination("10.0.0.5"), "root@10.0.0.5:/usr/local/bin");
}
