//! The text of the commands that query and change an adapter's settings,
//! each exactly as it is to be handed to the command interpreter. Every
//! command begins by setting the interpreter's encoding to UTF-8, and an
//! adapter's name reaches a command only as a quoted literal.

use crate::config::{Ipv4Config, Ipv4ConfigView};
use crate::text::chars_of;
use crate::validate::is_valid_config;
use vstd::prelude::*;

verus! {

/// A character that opens or closes a literal in the command interpreter:
/// the apostrophe and the four typographic single quotation marks.
pub open spec fn is_quote(c: char) -> bool {
    c == '\'' || c == '\u{2018}' || c == '\u{2019}' || c == '\u{201a}' || c == '\u{201b}'
}

/// `s` with every quote written twice.
pub open spec fn escape_quotes(s: Seq<char>) -> Seq<char>
    decreases s.len(),
{
    if s.len() == 0 {
        Seq::<char>::empty()
    } else if is_quote(s.last()) {
        escape_quotes(s.drop_last()).push(s.last()).push(s.last())
    } else {
        escape_quotes(s.drop_last()).push(s.last())
    }
}

/// `s` as one literal of the command interpreter: between apostrophes,
/// with every quote inside written twice.
pub open spec fn quoted(s: Seq<char>) -> Seq<char> {
    seq!['\''] + escape_quotes(s) + seq!['\'']
}

/// What every command begins with: it makes the command interpreter read
/// and write UTF-8, whatever the code page of the system is.
pub const UTF8_OUTPUT: &'static str =
    "$OutputEncoding = [System.Text.Encoding]::UTF8; [Console]::OutputEncoding = [System.Text.Encoding]::UTF8; ";

/// The query that lists the adapters with name, status and description.
pub const LIST_ADAPTERS: &'static str =
    "Get-NetAdapter | Select-Object @{Name='Name';Expression={$_.Name}}, @{Name='Status';Expression={$_.Status}}, @{Name='DisplayName';Expression={$_.InterfaceDescription}} | ConvertTo-Json -Compress";

/// The command that lists the adapters.
pub open spec fn list_adapters_text() -> Seq<char> {
    UTF8_OUTPUT@ + LIST_ADAPTERS@
}

/// The command that asks for an adapter's IPv4 address and prefix length.
pub open spec fn address_query_text(adapter: Seq<char>) -> Seq<char> {
    UTF8_OUTPUT@ + "Get-NetIPAddress -InterfaceAlias "@ + quoted(adapter)
        + " -AddressFamily IPv4 | Select-Object IPAddress, PrefixLength | ConvertTo-Json -Compress"@
}

/// The command that asks for the next hop of an adapter's default route.
pub open spec fn gateway_query_text(adapter: Seq<char>) -> Seq<char> {
    UTF8_OUTPUT@ + "Get-NetRoute -InterfaceAlias "@ + quoted(adapter)
        + " -DestinationPrefix '0.0.0.0/0' | Select-Object -ExpandProperty NextHop"@
}

/// The command that asks for an adapter's DNS servers.
pub open spec fn dns_query_text(adapter: Seq<char>) -> Seq<char> {
    UTF8_OUTPUT@ + "Get-DnsClientServerAddress -InterfaceAlias "@ + quoted(adapter)
        + " -AddressFamily IPv4 | Select-Object -ExpandProperty ServerAddresses"@
}

/// The command that sets address and mask, and the gateway where one is
/// given.
pub open spec fn set_address_text(cfg: Ipv4ConfigView) -> Seq<char> {
    let base = UTF8_OUTPUT@ + "netsh interface ip set address name="@ + quoted(cfg.adapter)
        + " static "@ + cfg.ip + " "@ + cfg.mask;
    if cfg.gateway.len() == 0 {
        base
    } else {
        base + " "@ + cfg.gateway
    }
}

/// The command that sets the primary DNS server.
pub open spec fn set_primary_dns_text(cfg: Ipv4ConfigView) -> Seq<char> {
    UTF8_OUTPUT@ + "netsh interface ip set dns name="@ + quoted(cfg.adapter) + " static "@
        + cfg.dns1
}

/// The command that adds the secondary DNS server at index 2.
pub open spec fn add_secondary_dns_text(cfg: Ipv4ConfigView) -> Seq<char> {
    UTF8_OUTPUT@ + "netsh interface ip add dns name="@ + quoted(cfg.adapter) + " "@ + cfg.dns2
        + " index=2"@
}

/// Tells whether `c` opens or closes a literal in the command interpreter.
pub fn is_quote_char(c: char) -> (r: bool)
    ensures
        r == is_quote(c),
{
    c == '\'' || c == '\u{2018}' || c == '\u{2019}' || c == '\u{201a}' || c == '\u{201b}'
}

/// Writes `s` as one literal of the command interpreter.
pub fn quote_literal(s: &str) -> (r: String)
    ensures
        r@ == quoted(s@),
{
    let chars = chars_of(s);
    let mut r = String::new();
    r.push('\'');
    let mut i: usize = 0;
    while i < chars.len()
        invariant
            i <= chars.len(),
            chars@ == s@,
            r@ == seq!['\''] + escape_quotes(s@.take(i as int)),
        decreases chars.len() - i,
    {
        let c = chars[i];
        proof {
            assert(s@.take(i + 1).drop_last() == s@.take(i as int));
        }
        if is_quote_char(c) {
            r.push(c);
        }
        r.push(c);
        i += 1;
    }
    proof {
        assert(s@.take(chars.len() as int) == s@);
    }
    r.push('\'');
    r
}

/// The command that lists the adapters.
pub fn list_adapters_command() -> (r: String)
    ensures
        r@ == list_adapters_text(),
{
    let mut r = String::from_str(UTF8_OUTPUT);
    r.append(LIST_ADAPTERS);
    r
}

/// The command that asks for the IPv4 address and prefix length of
/// `adapter`.
pub fn address_query_command(adapter: &str) -> (r: String)
    ensures
        r@ == address_query_text(adapter@),
{
    let mut r = String::from_str(UTF8_OUTPUT);
    r.append("Get-NetIPAddress -InterfaceAlias ");
    r.append(quote_literal(adapter).as_str());
    r.append(
        " -AddressFamily IPv4 | Select-Object IPAddress, PrefixLength | ConvertTo-Json -Compress",
    );
    r
}

/// The command that asks for the next hop of the default route of
/// `adapter`.
pub fn gateway_query_command(adapter: &str) -> (r: String)
    ensures
        r@ == gateway_query_text(adapter@),
{
    let mut r = String::from_str(UTF8_OUTPUT);
    r.append("Get-NetRoute -InterfaceAlias ");
    r.append(quote_literal(adapter).as_str());
    r.append(" -DestinationPrefix '0.0.0.0/0' | Select-Object -ExpandProperty NextHop");
    r
}

/// The command that asks for the DNS servers of `adapter`.
pub fn dns_query_command(adapter: &str) -> (r: String)
    ensures
        r@ == dns_query_text(adapter@),
{
    let mut r = String::from_str(UTF8_OUTPUT);
    r.append("Get-DnsClientServerAddress -InterfaceAlias ");
    r.append(quote_literal(adapter).as_str());
    r.append(" -AddressFamily IPv4 | Select-Object -ExpandProperty ServerAddresses");
    r
}

/// The command that sets address and mask of `cfg.adapter`, with the
/// gateway after them where `cfg.gateway` is not empty. The fields enter
/// the command as they stand, so the configuration must have passed
/// validation.
pub(crate) fn set_address_command(cfg: &Ipv4Config) -> (r: String)
    requires
        is_valid_config(cfg@),
    ensures
        r@ == set_address_text(cfg@),
{
    let mut r = String::from_str(UTF8_OUTPUT);
    r.append("netsh interface ip set address name=");
    r.append(quote_literal(cfg.adapter.as_str()).as_str());
    r.append(" static ");
    r.append(cfg.ip.as_str());
    r.append(" ");
    r.append(cfg.mask.as_str());
    if !cfg.gateway.as_str().is_empty() {
        r.append(" ");
        r.append(cfg.gateway.as_str());
    }
    r
}

/// The command that makes `cfg.dns1` the primary DNS server of
/// `cfg.adapter`, for a valid configuration that names one.
pub(crate) fn set_primary_dns_command(cfg: &Ipv4Config) -> (r: String)
    requires
        is_valid_config(cfg@),
        cfg.dns1@.len() > 0,
    ensures
        r@ == set_primary_dns_text(cfg@),
{
    let mut r = String::from_str(UTF8_OUTPUT);
    r.append("netsh interface ip set dns name=");
    r.append(quote_literal(cfg.adapter.as_str()).as_str());
    r.append(" static ");
    r.append(cfg.dns1.as_str());
    r
}

/// The command that adds `cfg.dns2` as the second DNS server of
/// `cfg.adapter`, for a valid configuration that names two.
pub(crate) fn add_secondary_dns_command(cfg: &Ipv4Config) -> (r: String)
    requires
        is_valid_config(cfg@),
        cfg.dns1@.len() > 0,
        cfg.dns2@.len() > 0,
    ensures
        r@ == add_secondary_dns_text(cfg@),
{
    let mut r = String::from_str(UTF8_OUTPUT);
    r.append("netsh interface ip add dns name=");
    r.append(quote_literal(cfg.adapter.as_str()).as_str());
    r.append(" ");
    r.append(cfg.dns2.as_str());
    r.append(" index=2");
    r
}

/// What the command interpreter reads of a literal once its opening quote
/// is behind it: the characters up to the first quote that no second quote
/// follows, where two quotes in a row stand for the second of them; and
/// how many characters that takes, the closing quote included. `None`
/// where the literal is never closed.
pub open spec fn read_literal(t: Seq<char>) -> Option<(Seq<char>, nat)>
    decreases t.len(),
{
    if t.len() == 0 {
        None
    } else if !is_quote(t[0]) {
        match read_literal(t.skip(1)) {
            Some(found) => Some((seq![t[0]] + found.0, found.1 + 1)),
            None => None,
        }
    } else if t.len() >= 2 && is_quote(t[1]) {
        match read_literal(t.skip(2)) {
            Some(found) => Some((seq![t[1]] + found.0, found.1 + 2)),
            None => None,
        }
    } else {
        Some((Seq::<char>::empty(), 1))
    }
}

/// Escaping a text goes character by character.
pub proof fn lemma_escape_concat(a: Seq<char>, b: Seq<char>)
    ensures
        escape_quotes(a + b) == escape_quotes(a) + escape_quotes(b),
    decreases b.len(),
{
    if b.len() == 0 {
        assert(a + b == a);
    } else {
        lemma_escape_concat(a, b.drop_last());
        assert((a + b).drop_last() == a + b.drop_last());
    }
}

/// The command interpreter reads a quoted text back as the text itself,
/// whatever the text holds, and the literal ends at its closing quote:
/// nothing of the text is taken for a part of the command.
pub proof fn lemma_quoted_reads_back(s: Seq<char>, rest: Seq<char>)
    requires
        rest.len() == 0 || !is_quote(rest[0]),
    ensures
        read_literal(escape_quotes(s) + seq!['\''] + rest) == Some(
            (s, (escape_quotes(s).len() + 1) as nat),
        ),
    decreases s.len(),
{
    let t = escape_quotes(s) + seq!['\''] + rest;
    if s.len() == 0 {
        assert(is_quote(t[0]));
        if t.len() >= 2 {
            assert(t[1] == rest[0]);
        }
    } else {
        let c = s[0];
        let tail = s.skip(1);
        assert(seq![c] + tail == s);
        lemma_escape_concat(seq![c], tail);
        assert(seq![c].drop_last() == Seq::<char>::empty());
        assert(escape_quotes(seq![c]) == if is_quote(c) {
            seq![c, c]
        } else {
            seq![c]
        }) by {
            reveal_with_fuel(escape_quotes, 2);
        }
        lemma_quoted_reads_back(tail, rest);
        let inner = escape_quotes(tail) + seq!['\''] + rest;
        if is_quote(c) {
            assert(t.skip(2) == inner);
            assert(t[0] == c && t[1] == c);
        } else {
            assert(t.skip(1) == inner);
            assert(t[0] == c);
        }
    }
}

} // verus!
