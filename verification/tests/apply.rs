use adapter_config::apply::{
    apply_action, apply_adapter_ipv4_config, apply_advance, apply_begin, due_stage, ApplyAction,
    ApplyState,
};
use adapter_config::config::{ApplyStage, ConfigError, Ipv4Config};
use adapter_config::gateway::GatewayResult;

fn config(adapter: &str, ip: &str, mask: &str, gateway: &str, dns1: &str, dns2: &str) -> Ipv4Config {
    Ipv4Config {
        adapter: adapter.to_string(),
        ip: ip.to_string(),
        mask: mask.to_string(),
        gateway: gateway.to_string(),
        dns1: dns1.to_string(),
        dns2: dns2.to_string(),
    }
}

fn desired() -> Ipv4Config {
    config("Eth0", "10.0.0.5", "255.255.255.0", "", "8.8.8.8", "8.8.4.4")
}

fn ok() -> GatewayResult {
    GatewayResult::Exited { success: true, stdout: b"Ok.\r\n".to_vec(), stderr: Vec::new() }
}

fn failed(stderr: &str) -> GatewayResult {
    GatewayResult::Exited { success: false, stdout: Vec::new(), stderr: stderr.as_bytes().to_vec() }
}

const SET_ADDRESS: &str = "$OutputEncoding = [System.Text.Encoding]::UTF8; [Console]::OutputEncoding = [System.Text.Encoding]::UTF8; netsh interface ip set address name='Eth0' static 10.0.0.5 255.255.255.0";
const SET_DNS1: &str = "$OutputEncoding = [System.Text.Encoding]::UTF8; [Console]::OutputEncoding = [System.Text.Encoding]::UTF8; netsh interface ip set dns name='Eth0' static 8.8.8.8";
const ADD_DNS2: &str = "$OutputEncoding = [System.Text.Encoding]::UTF8; [Console]::OutputEncoding = [System.Text.Encoding]::UTF8; netsh interface ip add dns name='Eth0' 8.8.4.4 index=2";

#[test]
fn three_commands_in_order_then_success() {
    let report = apply_adapter_ipv4_config(&desired(), &vec![ok(), ok(), ok()]);
    assert_eq!(report.commands, vec![SET_ADDRESS, SET_DNS1, ADD_DNS2]);
    assert_eq!(report.state, ApplyState::SecondaryDnsSet);
    assert_eq!(apply_action(&desired(), &report.state), ApplyAction::Succeed);
}

#[test]
fn commands_are_issued_one_after_the_other() {
    let cfg = desired();
    let report = apply_adapter_ipv4_config(&cfg, &vec![]);
    assert_eq!(report.commands, vec![SET_ADDRESS]);
    assert_eq!(report.state, ApplyState::Validating);
    let report = apply_adapter_ipv4_config(&cfg, &vec![ok()]);
    assert_eq!(report.commands, vec![SET_ADDRESS, SET_DNS1]);
    assert_eq!(report.state, ApplyState::AddressSet);
    let report = apply_adapter_ipv4_config(&cfg, &vec![ok(), ok()]);
    assert_eq!(report.commands, vec![SET_ADDRESS, SET_DNS1, ADD_DNS2]);
    assert_eq!(report.state, ApplyState::PrimaryDnsSet);
    assert_eq!(apply_action(&cfg, &report.state), ApplyAction::Run(ADD_DNS2.to_string()));
}

#[test]
fn steps_lead_through_the_states() {
    let cfg = desired();
    let mut state = ApplyState::Validating;
    assert_eq!(due_stage(&cfg, &state), Some(ApplyStage::Address));
    assert_eq!(apply_action(&cfg, &state), ApplyAction::Run(SET_ADDRESS.to_string()));
    state = apply_advance(&cfg, state, &ok());
    assert_eq!(state, ApplyState::AddressSet);
    assert_eq!(due_stage(&cfg, &state), Some(ApplyStage::PrimaryDns));
    assert_eq!(apply_action(&cfg, &state), ApplyAction::Run(SET_DNS1.to_string()));
    state = apply_advance(&cfg, state, &ok());
    assert_eq!(state, ApplyState::PrimaryDnsSet);
    assert_eq!(due_stage(&cfg, &state), Some(ApplyStage::SecondaryDns));
    assert_eq!(apply_action(&cfg, &state), ApplyAction::Run(ADD_DNS2.to_string()));
    state = apply_advance(&cfg, state, &ok());
    assert_eq!(state, ApplyState::SecondaryDnsSet);
    assert_eq!(due_stage(&cfg, &state), None);
    assert_eq!(apply_action(&cfg, &state), ApplyAction::Succeed);
    state = apply_advance(&cfg, state, &failed("late"));
    assert_eq!(state, ApplyState::SecondaryDnsSet);
}

#[test]
fn failure_of_primary_dns_stops_before_secondary_dns() {
    let cfg = desired();
    let report = apply_adapter_ipv4_config(&cfg, &vec![ok(), failed("The parameter is incorrect.")]);
    let error = ConfigError::ApplyStepFailure {
        step: ApplyStage::PrimaryDns,
        detail: "The parameter is incorrect.".to_string(),
        command: SET_DNS1.to_string(),
    };
    assert_eq!(report.commands, vec![SET_ADDRESS, SET_DNS1]);
    assert_eq!(report.state, ApplyState::Failed(error.clone()));
    assert_eq!(apply_action(&cfg, &report.state), ApplyAction::Fail(error.clone()));
    let report = apply_adapter_ipv4_config(
        &cfg,
        &vec![ok(), failed("The parameter is incorrect."), ok(), ok()],
    );
    assert_eq!(report.commands, vec![SET_ADDRESS, SET_DNS1]);
    assert_eq!(report.state, ApplyState::Failed(error));
}

#[test]
fn failure_of_the_address_command_is_reported_with_output_and_command() {
    let report = apply_adapter_ipv4_config(&desired(), &vec![failed("Element not found.\r\n"), ok()]);
    assert_eq!(report.commands, vec![SET_ADDRESS]);
    assert_eq!(
        report.state,
        ApplyState::Failed(ConfigError::ApplyStepFailure {
            step: ApplyStage::Address,
            detail: "Element not found.\r\n".to_string(),
            command: SET_ADDRESS.to_string(),
        })
    );
}

#[test]
fn failure_of_secondary_dns_names_its_own_step() {
    let report = apply_adapter_ipv4_config(&desired(), &vec![ok(), ok(), failed("no")]);
    assert_eq!(report.commands, vec![SET_ADDRESS, SET_DNS1, ADD_DNS2]);
    assert_eq!(
        report.state,
        ApplyState::Failed(ConfigError::ApplyStepFailure {
            step: ApplyStage::SecondaryDns,
            detail: "no".to_string(),
            command: ADD_DNS2.to_string(),
        })
    );
}

#[test]
fn error_output_of_a_step_is_read_with_replacement_characters() {
    let answer = GatewayResult::Exited { success: false, stdout: Vec::new(), stderr: vec![0xb2, b'!'] };
    let state = apply_advance(&desired(), ApplyState::Validating, &answer);
    assert_eq!(
        state,
        ApplyState::Failed(ConfigError::ApplyStepFailure {
            step: ApplyStage::Address,
            detail: "\u{fffd}!".to_string(),
            command: SET_ADDRESS.to_string(),
        })
    );
}

#[test]
fn command_that_cannot_start_ends_the_sequence() {
    let cannot = GatewayResult::LaunchFailed("No such file or directory".to_string());
    let error = ConfigError::GatewayLaunchFailure("No such file or directory".to_string());
    let report = apply_adapter_ipv4_config(&desired(), &vec![cannot.clone()]);
    assert_eq!(report.commands, vec![SET_ADDRESS]);
    assert_eq!(report.state, ApplyState::Failed(error.clone()));
    let report = apply_adapter_ipv4_config(&desired(), &vec![ok(), cannot, ok()]);
    assert_eq!(report.commands, vec![SET_ADDRESS, SET_DNS1]);
    assert_eq!(report.state, ApplyState::Failed(error));
}

#[test]
fn gateway_is_added_to_the_address_command_when_given() {
    let cfg = config("Eth0", "10.0.0.5", "255.255.255.0", "10.0.0.1", "", "");
    let report = apply_adapter_ipv4_config(&cfg, &vec![ok()]);
    assert_eq!(
        report.commands,
        vec!["$OutputEncoding = [System.Text.Encoding]::UTF8; [Console]::OutputEncoding = [System.Text.Encoding]::UTF8; netsh interface ip set address name='Eth0' static 10.0.0.5 255.255.255.0 10.0.0.1"]
    );
    assert_eq!(report.state, ApplyState::AddressSet);
    assert_eq!(apply_action(&cfg, &report.state), ApplyAction::Succeed);
}

#[test]
fn without_primary_dns_no_dns_command_is_issued() {
    let cfg = config("Eth0", "10.0.0.5", "255.255.255.0", "", "", "8.8.4.4");
    let report = apply_adapter_ipv4_config(&cfg, &vec![ok(), ok(), ok()]);
    assert_eq!(report.commands, vec![SET_ADDRESS]);
    assert_eq!(report.state, ApplyState::AddressSet);
    assert_eq!(apply_action(&cfg, &report.state), ApplyAction::Succeed);
    assert_eq!(due_stage(&cfg, &ApplyState::PrimaryDnsSet), None);
}

#[test]
fn without_secondary_dns_the_sequence_ends_after_primary_dns() {
    let cfg = config("Eth0", "10.0.0.5", "255.255.255.0", "", "8.8.8.8", "");
    let report = apply_adapter_ipv4_config(&cfg, &vec![ok(), ok()]);
    assert_eq!(report.commands, vec![SET_ADDRESS, SET_DNS1]);
    assert_eq!(report.state, ApplyState::PrimaryDnsSet);
    assert_eq!(apply_action(&cfg, &report.state), ApplyAction::Succeed);
}

#[test]
fn invalid_configuration_issues_no_command() {
    let cases = [
        (config("", "10.0.0.5", "255.255.255.0", "", "", ""), ConfigError::MissingAdapter),
        (config("Eth0", "", "255.255.255.0", "", "", ""), ConfigError::InvalidAddress),
        (config("Eth0", "10.0.0.5", "255.255.0", "", "", ""), ConfigError::InvalidMask),
        (config("Eth0", "10.0.0.5", "255.255.255.0", "x", "", ""), ConfigError::InvalidGateway),
        (config("Eth0", "10.0.0.5", "255.255.255.0", "", "8.8.8.", ""), ConfigError::InvalidDns1),
        (
            config("Eth0", "10.0.0.5", "255.255.255.0", "", "8.8.8.8", "1.1.1.1 & calc"),
            ConfigError::InvalidDns2,
        ),
    ];
    for (cfg, error) in cases {
        let none: Vec<String> = Vec::new();
        let report = apply_adapter_ipv4_config(&cfg, &vec![]);
        assert_eq!(report.commands, none);
        assert_eq!(apply_action(&cfg, &report.state), ApplyAction::Fail(error.clone()));
        let report = apply_adapter_ipv4_config(&cfg, &vec![ok(), ok(), ok()]);
        assert_eq!(report.commands, none);
        assert_eq!(report.state, ApplyState::Failed(error.clone()));
        for state in [
            ApplyState::Validating,
            ApplyState::AddressSet,
            ApplyState::PrimaryDnsSet,
            ApplyState::SecondaryDnsSet,
        ] {
            assert_eq!(apply_action(&cfg, &state), ApplyAction::Fail(error.clone()));
        }
    }
}

#[test]
fn sequence_begins_with_validation() {
    assert_eq!(apply_begin(&desired()), ApplyState::Validating);
    assert_eq!(
        apply_begin(&config("", "10.0.0.5", "255.255.255.0", "", "", "")),
        ApplyState::Failed(ConfigError::MissingAdapter)
    );
    assert_eq!(
        apply_begin(&config("Eth0", "10.0.0.5", "255.255.255.0", "", "x", "")),
        ApplyState::Failed(ConfigError::InvalidDns1)
    );
}

#[test]
fn invalid_configuration_has_failed_before_any_answer() {
    let cfg = config("Eth0", "10.0.0.5", "", "", "", "");
    let report = apply_adapter_ipv4_config(&cfg, &vec![]);
    assert!(report.commands.is_empty());
    assert_eq!(report.state, ApplyState::Failed(ConfigError::InvalidMask));
}

#[test]
fn failure_is_final() {
    let cfg = desired();
    let error = ConfigError::GatewayLaunchFailure("x".to_string());
    let state = ApplyState::Failed(error.clone());
    assert_eq!(due_stage(&cfg, &state), None);
    assert_eq!(apply_action(&cfg, &state), ApplyAction::Fail(error.clone()));
    assert_eq!(apply_advance(&cfg, state.clone(), &ok()), state);
    assert_eq!(apply_advance(&cfg, state.clone(), &failed("y")), state);
}

#[test]
fn adapter_name_is_quoted_in_every_command() {
    let cfg = config("LAN' ; calc ; '", "10.0.0.5", "255.255.255.0", "", "8.8.8.8", "8.8.4.4");
    let report = apply_adapter_ipv4_config(&cfg, &vec![ok(), ok(), ok()]);
    assert_eq!(
        report.commands,
        vec![
            "$OutputEncoding = [System.Text.Encoding]::UTF8; [Console]::OutputEncoding = [System.Text.Encoding]::UTF8; netsh interface ip set address name='LAN'' ; calc ; ''' static 10.0.0.5 255.255.255.0",
            "$OutputEncoding = [System.Text.Encoding]::UTF8; [Console]::OutputEncoding = [System.Text.Encoding]::UTF8; netsh interface ip set dns name='LAN'' ; calc ; ''' static 8.8.8.8",
            "$OutputEncoding = [System.Text.Encoding]::UTF8; [Console]::OutputEncoding = [System.Text.Encoding]::UTF8; netsh interface ip add dns name='LAN'' ; calc ; ''' 8.8.4.4 index=2",
        ]
    );
}
