//! Reading an adapter's configuration: three queries, of which the first
//! must succeed and the other two add what they can. The caller runs the
//! queries; this module decides which query comes next and what an answer
//! means.

use crate::commands::{
    address_query_command, address_query_text, dns_query_command, dns_query_text,
    gateway_query_command, gateway_query_text,
};
use crate::config::{ConfigError, ConfigErrorView, Ipv4Config, Ipv4ConfigView};
use crate::gateway::{answer_views, decode_lossy, utf8_lossy, GatewayResult, GatewayResultView};
use crate::output::{decode_address, decoded_address, listing_values, listing_values_of};
use crate::subnet::{
    is_dotted_quad, lemma_mask_is_dotted_quad, mask_text, prefix_to_subnet_mask, MAX_PREFIX_LENGTH,
};
use crate::text::texts;
use vstd::prelude::*;

verus! {

/// How far the reading has come.
#[derive(Debug, Clone, PartialEq, Eq)]
pub enum ReadState {
    /// An adapter is named, and nothing is known of it yet.
    Start,
    /// Address and mask are known.
    AddressKnown { ip: String, mask: String },
    /// The gateway is known as well; it is empty where the adapter has
    /// none or the query for it failed.
    GatewayKnown { ip: String, mask: String, gateway: String },
    /// Everything is known.
    Complete(Ipv4Config),
    /// The reading has ended with an error.
    Failed(ConfigError),
}

/// The view of a [`ReadState`].
pub enum ReadStateView {
    Start,
    AddressKnown { ip: Seq<char>, mask: Seq<char> },
    GatewayKnown { ip: Seq<char>, mask: Seq<char>, gateway: Seq<char> },
    Complete(Ipv4ConfigView),
    Failed(ConfigErrorView),
}

impl View for ReadState {
    type V = ReadStateView;

    open spec fn view(&self) -> ReadStateView {
        match self {
            ReadState::Start => ReadStateView::Start,
            ReadState::AddressKnown { ip, mask } => ReadStateView::AddressKnown {
                ip: ip@,
                mask: mask@,
            },
            ReadState::GatewayKnown { ip, mask, gateway } => ReadStateView::GatewayKnown {
                ip: ip@,
                mask: mask@,
                gateway: gateway@,
            },
            ReadState::Complete(cfg) => ReadStateView::Complete(cfg@),
            ReadState::Failed(e) => ReadStateView::Failed(e@),
        }
    }
}

/// What the caller has to do next.
#[derive(Debug, Clone, PartialEq, Eq)]
pub enum ReadAction {
    /// Run this query and hand its answer to [`read_advance`].
    Run(String),
    /// Return this configuration.
    Return(Ipv4Config),
    /// Report this error.
    Fail(ConfigError),
}

/// The view of a [`ReadAction`].
pub enum ReadActionView {
    Run(Seq<char>),
    Return(Ipv4ConfigView),
    Fail(ConfigErrorView),
}

impl View for ReadAction {
    type V = ReadActionView;

    open spec fn view(&self) -> ReadActionView {
        match self {
            ReadAction::Run(command) => ReadActionView::Run(command@),
            ReadAction::Return(cfg) => ReadActionView::Return(cfg@),
            ReadAction::Fail(e) => ReadActionView::Fail(e@),
        }
    }
}

/// The queries that were issued for an adapter and the state that the
/// answers led to.
#[derive(Debug, Clone, PartialEq, Eq)]
pub struct ReadReport {
    /// The queries in the order in which they were issued. The last one is
    /// still waiting for its answer where `state` is not final.
    pub commands: Vec<String>,
    /// The state after the last answer.
    pub state: ReadState,
}

/// What is to be done in `state`. What has ended is reported. Without an
/// adapter's name no query is run. Otherwise the query for what is not yet
/// known is run: address and mask first, then the gateway, then the DNS
/// servers.
pub open spec fn read_action_of(adapter: Seq<char>, state: ReadStateView) -> ReadActionView {
    match state {
        ReadStateView::Failed(e) => ReadActionView::Fail(e),
        ReadStateView::Complete(cfg) => ReadActionView::Return(cfg),
        _ => if adapter.len() == 0 {
            ReadActionView::Fail(ConfigErrorView::MissingAdapter)
        } else {
            match state {
                ReadStateView::Start => ReadActionView::Run(address_query_text(adapter)),
                ReadStateView::AddressKnown { .. } => ReadActionView::Run(
                    gateway_query_text(adapter),
                ),
                _ => ReadActionView::Run(dns_query_text(adapter)),
            }
        },
    }
}

/// The values of the line-oriented listing that `answer` holds; none
/// where the query could not be started or reported failure.
pub open spec fn answer_values_of(answer: GatewayResultView) -> Seq<Seq<char>> {
    match answer {
        GatewayResultView::Exited { success: true, stdout, stderr } => listing_values_of(
            utf8_lossy(stdout),
        ),
        _ => Seq::<Seq<char>>::empty(),
    }
}

/// Value `k` of `values`, or the empty text where there is no such value.
pub open spec fn value_at(values: Seq<Seq<char>>, k: int) -> Seq<char> {
    if 0 <= k < values.len() {
        values[k]
    } else {
        Seq::<char>::empty()
    }
}

/// Value `k` of the listing that `answer` holds, or the empty text.
pub open spec fn answer_value(answer: GatewayResultView, k: int) -> Seq<char> {
    value_at(answer_values_of(answer), k)
}

/// The state that a decoded address listing leads to: its address and
/// the mask of its prefix length. A listing that did not decode is
/// reported as the text that it is, and a prefix length above 32 as the
/// number that it is.
pub open spec fn address_state_of(
    found: Option<(Seq<char>, u64)>,
    text: Seq<char>,
) -> ReadStateView {
    match found {
        None => ReadStateView::Failed(ConfigErrorView::UnparseableOutput(text)),
        Some(found) => if found.1 > MAX_PREFIX_LENGTH {
            ReadStateView::Failed(ConfigErrorView::InvalidPrefixLength(found.1))
        } else {
            ReadStateView::AddressKnown { ip: found.0, mask: mask_text(found.1 as nat) }
        },
    }
}

/// The state after the answer to the address query. The query must have
/// run and succeeded, its output must hold an address and a prefix length,
/// and the prefix length must have a mask.
pub open spec fn answer_address_of(answer: GatewayResultView) -> ReadStateView {
    match answer {
        GatewayResultView::LaunchFailed(message) => ReadStateView::Failed(
            ConfigErrorView::GatewayLaunchFailure(message),
        ),
        GatewayResultView::Exited { success, stdout, stderr } => if !success {
            ReadStateView::Failed(ConfigErrorView::GatewayNonZeroExit(utf8_lossy(stderr)))
        } else {
            address_state_of(decoded_address(utf8_lossy(stdout)), utf8_lossy(stdout))
        },
    }
}

/// The state after the answer to the query that was run in `state`. Only
/// the address query can fail; the gateway is the first value of its
/// listing, the DNS servers are the first two values of theirs, and each
/// is empty where its query gave no such value. In a state in which no
/// query is run the answer changes nothing.
pub open spec fn read_advance_of(
    adapter: Seq<char>,
    state: ReadStateView,
    answer: GatewayResultView,
) -> ReadStateView {
    match read_action_of(adapter, state) {
        ReadActionView::Fail(e) => ReadStateView::Failed(e),
        ReadActionView::Return(_) => state,
        ReadActionView::Run(_) => match state {
            ReadStateView::Start => answer_address_of(answer),
            ReadStateView::AddressKnown { ip, mask } => ReadStateView::GatewayKnown {
                ip,
                mask,
                gateway: answer_value(answer, 0),
            },
            ReadStateView::GatewayKnown { ip, mask, gateway } => ReadStateView::Complete(
                Ipv4ConfigView {
                    adapter,
                    ip,
                    mask,
                    gateway,
                    dns1: answer_value(answer, 0),
                    dns2: answer_value(answer, 1),
                },
            ),
            _ => state,
        },
    }
}

/// The state in which the reading begins: without an adapter's name it
/// has failed before anything is run.
pub open spec fn read_begin_of(adapter: Seq<char>) -> ReadStateView {
    if adapter.len() == 0 {
        ReadStateView::Failed(ConfigErrorView::MissingAdapter)
    } else {
        ReadStateView::Start
    }
}

/// The state after the answers `answers`, given in the order of the
/// queries, starting from the state in which the reading begins.
pub open spec fn read_state_after(
    adapter: Seq<char>,
    answers: Seq<GatewayResultView>,
) -> ReadStateView
    decreases answers.len(),
{
    if answers.len() == 0 {
        read_begin_of(adapter)
    } else {
        read_advance_of(adapter, read_state_after(adapter, answers.drop_last()), answers.last())
    }
}

/// The queries issued up to the moment when the answers `answers` have
/// come in: one for each state passed in which a query is run.
pub open spec fn read_commands_issued(
    adapter: Seq<char>,
    answers: Seq<GatewayResultView>,
) -> Seq<Seq<char>>
    decreases answers.len(),
{
    let earlier = if answers.len() == 0 {
        Seq::<Seq<char>>::empty()
    } else {
        read_commands_issued(adapter, answers.drop_last())
    };
    match read_action_of(adapter, read_state_after(adapter, answers)) {
        ReadActionView::Run(command) => earlier.push(command),
        _ => earlier,
    }
}

/// The values of the line-oriented listing that `answer` holds.
pub fn values_of_answer(answer: &GatewayResult) -> (values: Vec<String>)
    ensures
        texts(values@) == answer_values_of(answer@),
{
    match answer {
        GatewayResult::Exited { success, stdout, stderr } => {
            if *success {
                let text = decode_lossy(stdout);
                listing_values(text.as_str())
            } else {
                Vec::new()
            }
        },
        GatewayResult::LaunchFailed(_) => Vec::new(),
    }
}

/// Value `k` of `values`, or the empty text where there is no such value.
pub fn value_or_empty(values: &Vec<String>, k: usize) -> (r: String)
    ensures
        r@ == value_at(texts(values@), k as int),
{
    if k < values.len() {
        assert(texts(values@)[k as int] == values@[k as int]@);
        values[k].clone()
    } else {
        String::new()
    }
}

/// The state that a decoded address listing leads to; `text` is the
/// listing as it was read.
pub fn address_state(found: Option<(String, u64)>, text: String) -> (next: ReadState)
    ensures
        next@ == address_state_of(
            match found {
                Some(found) => Some((found.0@, found.1)),
                None => None,
            },
            text@,
        ),
{
    match found {
        None => ReadState::Failed(ConfigError::UnparseableOutput(text)),
        Some(found) => {
            let (ip, prefix) = found;
            if prefix > 32u64 {
                return ReadState::Failed(ConfigError::InvalidPrefixLength(prefix));
            }
            match prefix_to_subnet_mask(prefix as u8) {
                Some(mask) => ReadState::AddressKnown { ip, mask },
                None => ReadState::Failed(ConfigError::InvalidPrefixLength(prefix)),
            }
        },
    }
}

/// Takes the answer to the address query.
pub fn answer_address(answer: &GatewayResult) -> (next: ReadState)
    ensures
        next@ == answer_address_of(answer@),
{
    match answer {
        GatewayResult::LaunchFailed(message) => ReadState::Failed(
            ConfigError::GatewayLaunchFailure(message.clone()),
        ),
        GatewayResult::Exited { success, stdout, stderr } => {
            if !*success {
                return ReadState::Failed(ConfigError::GatewayNonZeroExit(decode_lossy(stderr)));
            }
            let text = decode_lossy(stdout);
            let found = decode_address(text.as_str());
            address_state(found, text)
        },
    }
}

/// Gives the state in which the reading of `adapter` begins.
pub fn read_begin(adapter: &str) -> (state: ReadState)
    ensures
        state@ == read_begin_of(adapter@),
{
    if adapter.is_empty() {
        ReadState::Failed(ConfigError::MissingAdapter)
    } else {
        ReadState::Start
    }
}

/// Says what is to be done in `state`: run a query, return the
/// configuration, or report an error.
pub fn read_action(adapter: &str, state: &ReadState) -> (action: ReadAction)
    ensures
        action@ == read_action_of(adapter@, state@),
{
    match state {
        ReadState::Failed(e) => ReadAction::Fail(e.duplicate()),
        ReadState::Complete(cfg) => ReadAction::Return(cfg.duplicate()),
        ReadState::Start => if adapter.is_empty() {
            ReadAction::Fail(ConfigError::MissingAdapter)
        } else {
            ReadAction::Run(address_query_command(adapter))
        },
        ReadState::AddressKnown { .. } => if adapter.is_empty() {
            ReadAction::Fail(ConfigError::MissingAdapter)
        } else {
            ReadAction::Run(gateway_query_command(adapter))
        },
        ReadState::GatewayKnown { .. } => if adapter.is_empty() {
            ReadAction::Fail(ConfigError::MissingAdapter)
        } else {
            ReadAction::Run(dns_query_command(adapter))
        },
    }
}

/// Takes the answer to the query that was run in `state` and gives the
/// state that follows.
pub fn read_advance(adapter: &str, state: ReadState, answer: &GatewayResult) -> (next: ReadState)
    ensures
        next@ == read_advance_of(adapter@, state@, answer@),
{
    if adapter.is_empty() {
        return match state {
            ReadState::Failed(e) => ReadState::Failed(e),
            ReadState::Complete(cfg) => ReadState::Complete(cfg),
            _ => ReadState::Failed(ConfigError::MissingAdapter),
        };
    }
    match state {
        ReadState::Start => answer_address(answer),
        ReadState::AddressKnown { ip, mask } => {
            let values = values_of_answer(answer);
            ReadState::GatewayKnown { ip, mask, gateway: value_or_empty(&values, 0) }
        },
        ReadState::GatewayKnown { ip, mask, gateway } => {
            let values = values_of_answer(answer);
            ReadState::Complete(
                Ipv4Config {
                    adapter: String::from_str(adapter),
                    ip,
                    mask,
                    gateway,
                    dns1: value_or_empty(&values, 0),
                    dns2: value_or_empty(&values, 1),
                },
            )
        },
        ReadState::Complete(cfg) => ReadState::Complete(cfg),
        ReadState::Failed(e) => ReadState::Failed(e),
    }
}

/// Reads the configuration of `adapter_name` against the answers
/// `answers`, which are taken in the order of the queries: the first
/// answers the first query, and so on. Reports the queries issued and the
/// state reached. Answers that are left when the reading has ended are not
/// looked at. Without an adapter's name the reading has failed at once: no
/// query is issued, whatever answers are offered.
pub fn get_current_config(adapter_name: String, answers: &Vec<GatewayResult>) -> (report:
    ReadReport)
    ensures
        texts(report.commands@) == read_commands_issued(adapter_name@, answer_views(answers@)),
        report.state@ == read_state_after(adapter_name@, answer_views(answers@)),
        adapter_name@.len() == 0 ==> report.state@ == ReadStateView::Failed(
            ConfigErrorView::MissingAdapter,
        ) && report.commands@.len() == 0,
{
    let adapter: &str = adapter_name.as_str();
    let mut commands: Vec<String> = Vec::new();
    let mut state = read_begin(adapter);
    if let ReadAction::Run(command) = read_action(adapter, &state) {
        commands.push(command);
        assert(texts(commands@) == Seq::<Seq<char>>::empty().push(command@));
    }
    proof {
        assert(answer_views(answers@).take(0).len() == 0);
    }
    let mut i: usize = 0;
    while i < answers.len()
        invariant
            i <= answers.len(),
            adapter@ == adapter_name@,
            state@ == read_state_after(adapter@, answer_views(answers@).take(i as int)),
            texts(commands@) == read_commands_issued(
                adapter@,
                answer_views(answers@).take(i as int),
            ),
        decreases answers.len() - i,
    {
        proof {
            let all = answer_views(answers@);
            assert(all.take(i + 1).drop_last() == all.take(i as int));
            assert(all.take(i + 1).last() == answers@[i as int]@);
        }
        state = read_advance(adapter, state, &answers[i]);
        let ghost before = texts(commands@);
        if let ReadAction::Run(command) = read_action(adapter, &state) {
            commands.push(command);
            assert(texts(commands@) == before.push(command@));
        }
        i += 1;
    }
    proof {
        let all = answer_views(answers@);
        assert(all.take(answers.len() as int) == all);
        if adapter@.len() == 0 {
            lemma_read_needs_adapter(adapter@, all);
            assert(texts(commands@).len() == 0);
        }
    }
    ReadReport { commands, state }
}

/// `answer` holds no value: the query could not be started, reported
/// failure, or listed nothing.
pub open spec fn gives_no_value(answer: GatewayResultView) -> bool {
    answer_values_of(answer).len() == 0
}

/// A reading succeeds as soon as address and mask are known: whatever the
/// queries for the gateway and for the DNS servers come back with, the
/// configuration is returned, with the values that they gave.
pub proof fn lemma_read_completes_once_address_is_known(
    adapter: Seq<char>,
    first: GatewayResultView,
    second: GatewayResultView,
    third: GatewayResultView,
)
    requires
        adapter.len() > 0,
        answer_address_of(first) is AddressKnown,
    ensures
        read_state_after(adapter, seq![first, second, third]) == ReadStateView::Complete(
            Ipv4ConfigView {
                adapter,
                ip: answer_address_of(first)->AddressKnown_ip,
                mask: answer_address_of(first)->AddressKnown_mask,
                gateway: answer_value(second, 0),
                dns1: answer_value(third, 0),
                dns2: answer_value(third, 1),
            },
        ),
        read_commands_issued(adapter, seq![first, second, third]) == seq![
            address_query_text(adapter),
            gateway_query_text(adapter),
            dns_query_text(adapter),
        ],
{
    let a3 = seq![first, second, third];
    let a2 = seq![first, second];
    let a1 = seq![first];
    let a0 = Seq::<GatewayResultView>::empty();
    assert(a3.drop_last() == a2);
    assert(a2.drop_last() == a1);
    assert(a1.drop_last() == a0);
    assert(read_state_after(adapter, a0) == ReadStateView::Start);
    assert(read_state_after(adapter, a1) == answer_address_of(first));
    assert(read_state_after(adapter, a2) is GatewayKnown);
    assert(read_state_after(adapter, a3) is Complete);
    assert(read_commands_issued(adapter, a0) == seq![address_query_text(adapter)]);
    assert(read_commands_issued(adapter, a1) == seq![
        address_query_text(adapter),
        gateway_query_text(adapter),
    ]);
    assert(read_commands_issued(adapter, a2) == seq![
        address_query_text(adapter),
        gateway_query_text(adapter),
        dns_query_text(adapter),
    ]);
}

/// An adapter with address and mask but without a gateway and without DNS
/// servers reads as a configuration whose gateway and DNS servers are
/// empty, not as an error.
pub proof fn lemma_absent_settings_read_empty(
    adapter: Seq<char>,
    first: GatewayResultView,
    second: GatewayResultView,
    third: GatewayResultView,
)
    requires
        adapter.len() > 0,
        answer_address_of(first) is AddressKnown,
        gives_no_value(second),
        gives_no_value(third),
    ensures
        read_state_after(adapter, seq![first, second, third]) == ReadStateView::Complete(
            Ipv4ConfigView {
                adapter,
                ip: answer_address_of(first)->AddressKnown_ip,
                mask: answer_address_of(first)->AddressKnown_mask,
                gateway: Seq::<char>::empty(),
                dns1: Seq::<char>::empty(),
                dns2: Seq::<char>::empty(),
            },
        ),
{
    lemma_read_completes_once_address_is_known(adapter, first, second, third);
}

/// Without an adapter's name the reading has failed from the beginning:
/// whatever answers are offered, the state is the failure for the missing
/// name, no query is issued, and the missing name is what is reported.
pub proof fn lemma_read_needs_adapter(adapter: Seq<char>, answers: Seq<GatewayResultView>)
    requires
        adapter.len() == 0,
    ensures
        read_state_after(adapter, answers) == ReadStateView::Failed(
            ConfigErrorView::MissingAdapter,
        ),
        read_commands_issued(adapter, answers).len() == 0,
        read_action_of(adapter, read_state_after(adapter, answers)) == ReadActionView::Fail(
            ConfigErrorView::MissingAdapter,
        ),
    decreases answers.len(),
{
    if answers.len() > 0 {
        lemma_read_needs_adapter(adapter, answers.drop_last());
    }
}

/// A failure of the address query ends the reading: no further query is
/// issued, whatever answers follow.
pub proof fn lemma_address_failure_ends_reading(adapter: Seq<char>, answers: Seq<GatewayResultView>)
    requires
        adapter.len() > 0,
        answers.len() >= 1,
        answer_address_of(answers[0]) is Failed,
    ensures
        read_state_after(adapter, answers) == answer_address_of(answers[0]),
        read_commands_issued(adapter, answers) == seq![address_query_text(adapter)],
    decreases answers.len(),
{
    if answers.len() == 1 {
        let a0 = answers.drop_last();
        assert(read_state_after(adapter, a0) == ReadStateView::Start);
        assert(read_commands_issued(adapter, a0) == seq![address_query_text(adapter)]);
    } else {
        let earlier = answers.drop_last();
        assert(earlier[0] == answers[0]);
        lemma_address_failure_ends_reading(adapter, earlier);
    }
}

/// The mask of a configuration that was read is a dotted quad.
pub proof fn lemma_read_mask_is_dotted_quad(found: Option<(Seq<char>, u64)>, text: Seq<char>)
    requires
        address_state_of(found, text) is AddressKnown,
    ensures
        is_dotted_quad(address_state_of(found, text)->AddressKnown_mask),
{
    let (_, prefix) = found->0;
    lemma_mask_is_dotted_quad(prefix as nat);
}

} // verus!
