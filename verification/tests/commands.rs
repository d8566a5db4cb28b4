use adapter_config::apply::{apply_action, ApplyAction, ApplyState};
use adapter_config::commands::{
    address_query_command, dns_query_command, gateway_query_command, is_quote_char,
    list_adapters_command, quote_literal, LIST_ADAPTERS, UTF8_OUTPUT,
};
use adapter_config::config::Ipv4Config;

fn desired(adapter: &str, gateway: &str) -> Ipv4Config {
    Ipv4Config {
        adapter: adapter.to_string(),
        ip: "10.0.0.5".to_string(),
        mask: "255.255.255.0".to_string(),
        gateway: gateway.to_string(),
        dns1: "8.8.8.8".to_string(),
        dns2: "8.8.4.4".to_string(),
    }
}

/// What is due in `state`, without the part that sets the encoding.
fn command_in(cfg: &Ipv4Config, state: ApplyState) -> String {
    match apply_action(cfg, &state) {
        ApplyAction::Run(command) => body(&command),
        other => panic!("no command is due: {:?}", other),
    }
}

/// `command` without the part that sets the encoding, with which it must
/// begin.
fn body(command: &str) -> String {
    match command.strip_prefix(UTF8_OUTPUT) {
        Some(rest) => rest.to_string(),
        None => panic!("the encoding is not set: {:?}", command),
    }
}

fn set_address_command(cfg: &Ipv4Config) -> String {
    command_in(cfg, ApplyState::Validating)
}

fn set_primary_dns_command(cfg: &Ipv4Config) -> String {
    command_in(cfg, ApplyState::AddressSet)
}

fn add_secondary_dns_command(cfg: &Ipv4Config) -> String {
    command_in(cfg, ApplyState::PrimaryDnsSet)
}

/// Reads a literal as the command interpreter does, the opening quote being
/// at the start of `text`; gives what was read and what follows.
fn read_back(text: &str) -> Option<(String, String)> {
    let chars: Vec<char> = text.chars().collect();
    if chars.is_empty() || !is_quote_char(chars[0]) {
        return None;
    }
    let mut body = String::new();
    let mut i = 1;
    while i < chars.len() {
        if is_quote_char(chars[i]) {
            if i + 1 < chars.len() && is_quote_char(chars[i + 1]) {
                body.push(chars[i + 1]);
                i += 2;
            } else {
                return Some((body, chars[i + 1..].iter().collect()));
            }
        } else {
            body.push(chars[i]);
            i += 1;
        }
    }
    None
}

#[test]
fn plain_name_is_put_between_apostrophes() {
    assert_eq!(quote_literal("Eth0"), "'Eth0'");
    assert_eq!(quote_literal("Ethernet 2"), "'Ethernet 2'");
    assert_eq!(quote_literal(""), "''");
}

#[test]
fn quotes_inside_a_name_are_doubled() {
    assert_eq!(quote_literal("it's"), "'it''s'");
    assert_eq!(quote_literal("'"), "''''");
    assert_eq!(quote_literal("a\u{2018}b\u{2019}c"), "'a\u{2018}\u{2018}b\u{2019}\u{2019}c'");
    assert_eq!(quote_literal("\u{201a}\u{201b}"), "'\u{201a}\u{201a}\u{201b}\u{201b}'");
}

#[test]
fn other_special_characters_stay_as_they_are() {
    assert_eq!(quote_literal("a\"b"), "'a\"b'");
    assert_eq!(quote_literal("$(calc) `x` ; | & \u{201c}"), "'$(calc) `x` ; | & \u{201c}'");
}

#[test]
fn quote_characters_are_the_five_single_quotes() {
    let mut quotes = Vec::new();
    for code in 0..=0x10ffffu32 {
        if let Some(c) = char::from_u32(code) {
            if is_quote_char(c) {
                quotes.push(c);
            }
        }
    }
    assert_eq!(quotes, vec!['\'', '\u{2018}', '\u{2019}', '\u{201a}', '\u{201b}']);
}

#[test]
fn quoted_name_reads_back_as_the_name() {
    for name in [
        "",
        "Eth0",
        "it's",
        "'",
        "''",
        "'; Remove-Item x; '",
        "a' + 'b",
        "\u{2019}; calc; \u{2018}",
        "tab\there",
        "line\nbreak",
        "以太网 2",
        "x'\u{2019}'y",
    ] {
        let command = format!("{} -Rest", quote_literal(name));
        assert_eq!(read_back(&command), Some((name.to_string(), " -Rest".to_string())), "{:?}", name);
    }
}

#[test]
fn listing_command_asks_for_name_status_and_description() {
    assert_eq!(body(&list_adapters_command()), LIST_ADAPTERS);
    assert_eq!(
        list_adapters_command(),
        "$OutputEncoding = [System.Text.Encoding]::UTF8; [Console]::OutputEncoding = [System.Text.Encoding]::UTF8; Get-NetAdapter | Select-Object @{Name='Name';Expression={$_.Name}}, @{Name='Status';Expression={$_.Status}}, @{Name='DisplayName';Expression={$_.InterfaceDescription}} | ConvertTo-Json -Compress"
    );
}

#[test]
fn query_commands_name_the_adapter_as_a_literal() {
    assert_eq!(
        body(&address_query_command("Eth0")),
        "Get-NetIPAddress -InterfaceAlias 'Eth0' -AddressFamily IPv4 | Select-Object IPAddress, PrefixLength | ConvertTo-Json -Compress"
    );
    assert_eq!(
        body(&gateway_query_command("Eth0")),
        "Get-NetRoute -InterfaceAlias 'Eth0' -DestinationPrefix '0.0.0.0/0' | Select-Object -ExpandProperty NextHop"
    );
    assert_eq!(
        body(&dns_query_command("Eth0")),
        "Get-DnsClientServerAddress -InterfaceAlias 'Eth0' -AddressFamily IPv4 | Select-Object -ExpandProperty ServerAddresses"
    );
}

#[test]
fn query_commands_escape_the_adapter() {
    assert_eq!(
        body(&address_query_command("a'; calc; '")),
        "Get-NetIPAddress -InterfaceAlias 'a''; calc; ''' -AddressFamily IPv4 | Select-Object IPAddress, PrefixLength | ConvertTo-Json -Compress"
    );
    assert_eq!(
        body(&gateway_query_command("Wi-Fi's")),
        "Get-NetRoute -InterfaceAlias 'Wi-Fi''s' -DestinationPrefix '0.0.0.0/0' | Select-Object -ExpandProperty NextHop"
    );
    assert_eq!(
        body(&dns_query_command("\u{2019}")),
        "Get-DnsClientServerAddress -InterfaceAlias '\u{2019}\u{2019}' -AddressFamily IPv4 | Select-Object -ExpandProperty ServerAddresses"
    );
}

#[test]
fn every_command_sets_the_encoding_first() {
    assert_eq!(
        UTF8_OUTPUT,
        "$OutputEncoding = [System.Text.Encoding]::UTF8; [Console]::OutputEncoding = [System.Text.Encoding]::UTF8; "
    );
    assert_eq!(
        address_query_command("Eth0"),
        "$OutputEncoding = [System.Text.Encoding]::UTF8; [Console]::OutputEncoding = [System.Text.Encoding]::UTF8; Get-NetIPAddress -InterfaceAlias 'Eth0' -AddressFamily IPv4 | Select-Object IPAddress, PrefixLength | ConvertTo-Json -Compress"
    );
    assert_eq!(
        apply_action(&desired("Eth0", ""), &ApplyState::Validating),
        ApplyAction::Run(
            "$OutputEncoding = [System.Text.Encoding]::UTF8; [Console]::OutputEncoding = [System.Text.Encoding]::UTF8; netsh interface ip set address name='Eth0' static 10.0.0.5 255.255.255.0"
                .to_string()
        )
    );
    for command in [
        list_adapters_command(),
        address_query_command("a"),
        gateway_query_command("a"),
        dns_query_command("a"),
    ] {
        assert!(command.starts_with(UTF8_OUTPUT));
        assert!(!body(&command).contains("OutputEncoding"));
    }
}

#[test]
fn address_command_without_gateway() {
    assert_eq!(
        set_address_command(&desired("Eth0", "")),
        "netsh interface ip set address name='Eth0' static 10.0.0.5 255.255.255.0"
    );
}

#[test]
fn address_command_with_gateway() {
    assert_eq!(
        set_address_command(&desired("Eth0", "10.0.0.1")),
        "netsh interface ip set address name='Eth0' static 10.0.0.5 255.255.255.0 10.0.0.1"
    );
}

#[test]
fn dns_commands() {
    assert_eq!(
        set_primary_dns_command(&desired("Eth0", "")),
        "netsh interface ip set dns name='Eth0' static 8.8.8.8"
    );
    assert_eq!(
        add_secondary_dns_command(&desired("Eth0", "")),
        "netsh interface ip add dns name='Eth0' 8.8.4.4 index=2"
    );
}

#[test]
fn apply_commands_escape_the_adapter() {
    assert_eq!(
        set_address_command(&desired("my 'LAN'", "")),
        "netsh interface ip set address name='my ''LAN''' static 10.0.0.5 255.255.255.0"
    );
    assert_eq!(
        set_primary_dns_command(&desired("\" & calc & \"", "")),
        "netsh interface ip set dns name='\" & calc & \"' static 8.8.8.8"
    );
    assert_eq!(
        add_secondary_dns_command(&desired("x'y", "")),
        "netsh interface ip add dns name='x''y' 8.8.4.4 index=2"
    );
}
