//! Applying a configuration: a sequence of up to three commands, each run
//! only after the one before it succeeded. The caller runs the commands;
//! this module decides which command comes next and what an answer means.
//! Nothing is undone when a later command fails.

use crate::commands::{
    add_secondary_dns_command, add_secondary_dns_text, quoted, set_address_command,
    set_address_text, set_primary_dns_command, set_primary_dns_text, UTF8_OUTPUT,
};
use crate::config::{ApplyStage, ConfigError, ConfigErrorView, Ipv4Config, Ipv4ConfigView};
use crate::gateway::{answer_views, decode_lossy, utf8_lossy, GatewayResult, GatewayResultView};
use crate::text::texts;
use crate::validate::{is_valid_config, validate_config, validation_failure};
use vstd::prelude::*;

verus! {

/// How far the sequence has come.
#[derive(Debug, Clone, PartialEq, Eq)]
pub enum ApplyState {
    /// The configuration has passed validation, and nothing has been
    /// changed yet.
    Validating,
    /// Address, mask and gateway are set.
    AddressSet,
    /// The primary DNS server is set as well.
    PrimaryDnsSet,
    /// The secondary DNS server is set as well.
    SecondaryDnsSet,
    /// The sequence has ended with an error. What was set before stays
    /// set.
    Failed(ConfigError),
}

/// The view of an [`ApplyState`].
pub enum ApplyStateView {
    Validating,
    AddressSet,
    PrimaryDnsSet,
    SecondaryDnsSet,
    Failed(ConfigErrorView),
}

impl View for ApplyState {
    type V = ApplyStateView;

    open spec fn view(&self) -> ApplyStateView {
        match self {
            ApplyState::Validating => ApplyStateView::Validating,
            ApplyState::AddressSet => ApplyStateView::AddressSet,
            ApplyState::PrimaryDnsSet => ApplyStateView::PrimaryDnsSet,
            ApplyState::SecondaryDnsSet => ApplyStateView::SecondaryDnsSet,
            ApplyState::Failed(e) => ApplyStateView::Failed(e@),
        }
    }
}

/// What the caller has to do next.
#[derive(Debug, Clone, PartialEq, Eq)]
pub enum ApplyAction {
    /// Run this command and hand its answer to [`apply_advance`].
    Run(String),
    /// Report success: the configuration is applied.
    Succeed,
    /// Report this error.
    Fail(ConfigError),
}

/// The view of an [`ApplyAction`].
pub enum ApplyActionView {
    Run(Seq<char>),
    Succeed,
    Fail(ConfigErrorView),
}

impl View for ApplyAction {
    type V = ApplyActionView;

    open spec fn view(&self) -> ApplyActionView {
        match self {
            ApplyAction::Run(command) => ApplyActionView::Run(command@),
            ApplyAction::Succeed => ApplyActionView::Succeed,
            ApplyAction::Fail(e) => ApplyActionView::Fail(e@),
        }
    }
}

/// The commands that were issued for a configuration and the state that
/// the answers led to.
#[derive(Debug, Clone, PartialEq, Eq)]
pub struct ApplyReport {
    /// The commands in the order in which they were issued. The last one
    /// is still waiting for its answer where `state` is not final.
    pub commands: Vec<String>,
    /// The state after the last answer.
    pub state: ApplyState,
}

/// The step that is due in `state`, if any: the address first, then the
/// primary DNS server where one is given, then the secondary DNS server
/// where one is given. A secondary server is never set without a primary
/// one.
pub open spec fn due_stage_of(cfg: Ipv4ConfigView, state: ApplyStateView) -> Option<ApplyStage> {
    match state {
        ApplyStateView::Validating => Some(ApplyStage::Address),
        ApplyStateView::AddressSet => if cfg.dns1.len() > 0 {
            Some(ApplyStage::PrimaryDns)
        } else {
            None
        },
        ApplyStateView::PrimaryDnsSet => if cfg.dns1.len() > 0 && cfg.dns2.len() > 0 {
            Some(ApplyStage::SecondaryDns)
        } else {
            None
        },
        ApplyStateView::SecondaryDnsSet => None,
        ApplyStateView::Failed(_) => None,
    }
}

/// The command of a step.
pub open spec fn stage_command_text(cfg: Ipv4ConfigView, stage: ApplyStage) -> Seq<char> {
    match stage {
        ApplyStage::Address => set_address_text(cfg),
        ApplyStage::PrimaryDns => set_primary_dns_text(cfg),
        ApplyStage::SecondaryDns => add_secondary_dns_text(cfg),
    }
}

/// The state that a step leads to when its command succeeds.
pub open spec fn state_after_stage(stage: ApplyStage) -> ApplyStateView {
    match stage {
        ApplyStage::Address => ApplyStateView::AddressSet,
        ApplyStage::PrimaryDns => ApplyStateView::PrimaryDnsSet,
        ApplyStage::SecondaryDns => ApplyStateView::SecondaryDnsSet,
    }
}

/// What is to be done in `state`. A failure is reported, and so is a
/// configuration that does not pass validation: no command is ever built
/// from one. Otherwise the command of the step that is due is run, and
/// where no step is due the sequence has succeeded.
pub open spec fn apply_action_of(cfg: Ipv4ConfigView, state: ApplyStateView) -> ApplyActionView {
    match state {
        ApplyStateView::Failed(e) => ApplyActionView::Fail(e),
        _ => match validation_failure(cfg) {
            Some(e) => ApplyActionView::Fail(e),
            None => match due_stage_of(cfg, state) {
                Some(stage) => ApplyActionView::Run(stage_command_text(cfg, stage)),
                None => ApplyActionView::Succeed,
            },
        },
    }
}

/// The state after the answer to the command that was run in `state`. A
/// command that succeeded leads to the next state. One that could not be
/// started, or that reported failure, ends the sequence; the error of the
/// latter names the step, the command's error output and the command. In a
/// state in which no command is run the answer changes nothing.
pub open spec fn apply_advance_of(
    cfg: Ipv4ConfigView,
    state: ApplyStateView,
    answer: GatewayResultView,
) -> ApplyStateView {
    match apply_action_of(cfg, state) {
        ApplyActionView::Fail(e) => ApplyStateView::Failed(e),
        ApplyActionView::Succeed => state,
        ApplyActionView::Run(command) => match answer {
            GatewayResultView::LaunchFailed(message) => ApplyStateView::Failed(
                ConfigErrorView::GatewayLaunchFailure(message),
            ),
            GatewayResultView::Exited { success, stdout, stderr } => if success {
                state_after_stage(due_stage_of(cfg, state)->0)
            } else {
                ApplyStateView::Failed(
                    ConfigErrorView::ApplyStepFailure {
                        step: due_stage_of(cfg, state)->0,
                        detail: utf8_lossy(stderr),
                        command,
                    },
                )
            },
        },
    }
}

/// The state in which the sequence begins: a configuration that does not
/// pass validation has failed before anything is run, with the rule that
/// it breaks.
pub open spec fn apply_begin_of(cfg: Ipv4ConfigView) -> ApplyStateView {
    match validation_failure(cfg) {
        Some(e) => ApplyStateView::Failed(e),
        None => ApplyStateView::Validating,
    }
}

/// The state after the answers `answers`, given in the order of the
/// commands, starting from the state in which the sequence begins.
pub open spec fn apply_state_after(
    cfg: Ipv4ConfigView,
    answers: Seq<GatewayResultView>,
) -> ApplyStateView
    decreases answers.len(),
{
    if answers.len() == 0 {
        apply_begin_of(cfg)
    } else {
        apply_advance_of(cfg, apply_state_after(cfg, answers.drop_last()), answers.last())
    }
}

/// The commands issued up to the moment when the answers `answers` have
/// come in: one for each state passed in which a command is run.
pub open spec fn apply_commands_issued(
    cfg: Ipv4ConfigView,
    answers: Seq<GatewayResultView>,
) -> Seq<Seq<char>>
    decreases answers.len(),
{
    let earlier = if answers.len() == 0 {
        Seq::<Seq<char>>::empty()
    } else {
        apply_commands_issued(cfg, answers.drop_last())
    };
    match apply_action_of(cfg, apply_state_after(cfg, answers)) {
        ApplyActionView::Run(command) => earlier.push(command),
        _ => earlier,
    }
}

/// Validates `cfg` and gives the state in which the sequence begins.
pub fn apply_begin(cfg: &Ipv4Config) -> (state: ApplyState)
    ensures
        state@ == apply_begin_of(cfg@),
{
    match validate_config(cfg) {
        Ok(()) => ApplyState::Validating,
        Err(e) => ApplyState::Failed(e),
    }
}

/// The step that is due in `state`, if any.
pub fn due_stage(cfg: &Ipv4Config, state: &ApplyState) -> (r: Option<ApplyStage>)
    ensures
        r == due_stage_of(cfg@, state@),
{
    match state {
        ApplyState::Validating => Some(ApplyStage::Address),
        ApplyState::AddressSet => if !cfg.dns1.as_str().is_empty() {
            Some(ApplyStage::PrimaryDns)
        } else {
            None
        },
        ApplyState::PrimaryDnsSet => if !cfg.dns1.as_str().is_empty()
            && !cfg.dns2.as_str().is_empty() {
            Some(ApplyStage::SecondaryDns)
        } else {
            None
        },
        ApplyState::SecondaryDnsSet => None,
        ApplyState::Failed(_) => None,
    }
}

/// Says what is to be done in `state`: run a command, report success, or
/// report an error. The configuration is validated before any command is
/// built from it.
pub fn apply_action(cfg: &Ipv4Config, state: &ApplyState) -> (action: ApplyAction)
    ensures
        action@ == apply_action_of(cfg@, state@),
{
    if let ApplyState::Failed(e) = state {
        return ApplyAction::Fail(e.duplicate());
    }
    if let Err(e) = validate_config(cfg) {
        return ApplyAction::Fail(e);
    }
    match due_stage(cfg, state) {
        Some(ApplyStage::Address) => ApplyAction::Run(set_address_command(cfg)),
        Some(ApplyStage::PrimaryDns) => ApplyAction::Run(set_primary_dns_command(cfg)),
        Some(ApplyStage::SecondaryDns) => ApplyAction::Run(add_secondary_dns_command(cfg)),
        None => ApplyAction::Succeed,
    }
}

/// Takes the answer to the command that was run in `state` and gives the
/// state that follows.
pub fn apply_advance(cfg: &Ipv4Config, state: ApplyState, answer: &GatewayResult) -> (next:
    ApplyState)
    ensures
        next@ == apply_advance_of(cfg@, state@, answer@),
{
    match apply_action(cfg, &state) {
        ApplyAction::Fail(e) => ApplyState::Failed(e),
        ApplyAction::Succeed => state,
        ApplyAction::Run(command) => match answer {
            GatewayResult::LaunchFailed(message) => ApplyState::Failed(
                ConfigError::GatewayLaunchFailure(message.clone()),
            ),
            GatewayResult::Exited { success, stdout, stderr } => {
                match due_stage(cfg, &state) {
                    Some(stage) => if *success {
                        match stage {
                            ApplyStage::Address => ApplyState::AddressSet,
                            ApplyStage::PrimaryDns => ApplyState::PrimaryDnsSet,
                            ApplyStage::SecondaryDns => ApplyState::SecondaryDnsSet,
                        }
                    } else {
                        ApplyState::Failed(
                            ConfigError::ApplyStepFailure {
                                step: stage,
                                detail: decode_lossy(stderr),
                                command,
                            },
                        )
                    },
                    None => state,
                }
            },
        },
    }
}

/// Applies `cfg` against the answers `answers`, which are taken in the
/// order of the commands: the first answers the first command, and so on.
/// Reports the commands issued and the state reached. Answers that are
/// left when the sequence has ended are not looked at. A configuration
/// that does not pass validation has failed at once: no command is issued
/// for it, whatever answers are offered.
pub fn apply_adapter_ipv4_config(cfg: &Ipv4Config, answers: &Vec<GatewayResult>) -> (report:
    ApplyReport)
    ensures
        texts(report.commands@) == apply_commands_issued(cfg@, answer_views(answers@)),
        report.state@ == apply_state_after(cfg@, answer_views(answers@)),
        validation_failure(cfg@) matches Some(e) ==> report.state@ == ApplyStateView::Failed(e)
            && report.commands@.len() == 0,
{
    let mut commands: Vec<String> = Vec::new();
    let mut state = apply_begin(cfg);
    if let ApplyAction::Run(command) = apply_action(cfg, &state) {
        commands.push(command);
        assert(texts(commands@) == Seq::<Seq<char>>::empty().push(command@));
    }
    proof {
        assert(answer_views(answers@).take(0).len() == 0);
    }
    let mut i: usize = 0;
    while i < answers.len()
        invariant
            i <= answers.len(),
            state@ == apply_state_after(cfg@, answer_views(answers@).take(i as int)),
            texts(commands@) == apply_commands_issued(cfg@, answer_views(answers@).take(i as int)),
        decreases answers.len() - i,
    {
        proof {
            let all = answer_views(answers@);
            assert(all.take(i + 1).drop_last() == all.take(i as int));
            assert(all.take(i + 1).last() == answers@[i as int]@);
        }
        state = apply_advance(cfg, state, &answers[i]);
        let ghost before = texts(commands@);
        if let ApplyAction::Run(command) = apply_action(cfg, &state) {
            commands.push(command);
            assert(texts(commands@) == before.push(command@));
        }
        i += 1;
    }
    proof {
        let all = answer_views(answers@);
        assert(all.take(answers.len() as int) == all);
        if !is_valid_config(cfg@) {
            lemma_invalid_configuration_runs_nothing(cfg@, all);
            assert(texts(commands@).len() == 0);
        }
    }
    ApplyReport { commands, state }
}

/// `answer` tells of a command that ran and reported success.
pub open spec fn is_success(answer: GatewayResultView) -> bool {
    answer matches GatewayResultView::Exited { success, .. } && success
}

/// One answer moves the sequence by at most one step, and only a command
/// that succeeded moves it forward: the next state is the state itself, a
/// failure, or the state that follows it in the order address, primary
/// DNS, secondary DNS. No step is skipped.
pub proof fn lemma_apply_step(cfg: Ipv4ConfigView, state: ApplyStateView, answer: GatewayResultView)
    ensures
        ({
            let next = apply_advance_of(cfg, state, answer);
            ||| next == state
            ||| next is Failed
            ||| is_success(answer) && is_valid_config(cfg) && state is Validating
                && next is AddressSet
            ||| is_success(answer) && is_valid_config(cfg) && state is AddressSet
                && next is PrimaryDnsSet && cfg.dns1.len() > 0
            ||| is_success(answer) && is_valid_config(cfg) && state is PrimaryDnsSet
                && next is SecondaryDnsSet && cfg.dns2.len() > 0
        }),
{
}

/// A sequence that has ended stays as it is: after a failure every answer
/// leaves the failure in place, and for a valid configuration nothing
/// follows the last step.
pub proof fn lemma_apply_end_is_final(
    cfg: Ipv4ConfigView,
    state: ApplyStateView,
    answer: GatewayResultView,
)
    ensures
        state is Failed ==> apply_advance_of(cfg, state, answer) == state,
        is_valid_config(cfg) && state is SecondaryDnsSet ==> apply_advance_of(cfg, state, answer)
            == state,
        apply_action_of(cfg, state) is Succeed ==> apply_advance_of(cfg, state, answer) == state,
{
}

/// A configuration that does not pass validation has failed from the
/// beginning: whatever answers are offered, the state is the failure with
/// the rule that it breaks, no command is issued, and that error is what
/// is reported.
pub proof fn lemma_invalid_configuration_runs_nothing(
    cfg: Ipv4ConfigView,
    answers: Seq<GatewayResultView>,
)
    requires
        !is_valid_config(cfg),
    ensures
        apply_state_after(cfg, answers) == ApplyStateView::Failed(validation_failure(cfg)->0),
        apply_commands_issued(cfg, answers).len() == 0,
        apply_action_of(cfg, apply_state_after(cfg, answers)) == ApplyActionView::Fail(
            validation_failure(cfg)->0,
        ),
    decreases answers.len(),
{
    if answers.len() > 0 {
        lemma_invalid_configuration_runs_nothing(cfg, answers.drop_last());
    }
}

/// Every command that is issued comes from a configuration that passed
/// validation.
pub proof fn lemma_commands_need_validation(cfg: Ipv4ConfigView, answers: Seq<GatewayResultView>)
    requires
        apply_commands_issued(cfg, answers).len() > 0,
    ensures
        is_valid_config(cfg),
{
    if !is_valid_config(cfg) {
        lemma_invalid_configuration_runs_nothing(cfg, answers);
    }
}

/// Where all commands succeed, a configuration with both DNS servers and
/// without a gateway has three commands issued, in this order: the address
/// command without a gateway, the primary DNS command, the secondary DNS
/// command. The sequence then stands at its end and reports success.
pub proof fn lemma_all_steps_succeed(
    cfg: Ipv4ConfigView,
    first: GatewayResultView,
    second: GatewayResultView,
    third: GatewayResultView,
)
    requires
        is_valid_config(cfg),
        cfg.dns1.len() > 0,
        cfg.dns2.len() > 0,
        is_success(first),
        is_success(second),
        is_success(third),
    ensures
        apply_state_after(cfg, seq![first, second, third]) == ApplyStateView::SecondaryDnsSet,
        apply_action_of(cfg, ApplyStateView::SecondaryDnsSet) == ApplyActionView::Succeed,
        apply_commands_issued(cfg, seq![first, second, third]) == seq![
            set_address_text(cfg),
            set_primary_dns_text(cfg),
            add_secondary_dns_text(cfg),
        ],
        cfg.gateway.len() == 0 ==> set_address_text(cfg) == UTF8_OUTPUT@
            + "netsh interface ip set address name="@ + quoted(cfg.adapter) + " static "@ + cfg.ip
            + " "@ + cfg.mask,
{
    let a3 = seq![first, second, third];
    let a2 = seq![first, second];
    let a1 = seq![first];
    let a0 = Seq::<GatewayResultView>::empty();
    assert(a3.drop_last() == a2);
    assert(a2.drop_last() == a1);
    assert(a1.drop_last() == a0);
    assert(apply_state_after(cfg, a0) == ApplyStateView::Validating);
    assert(apply_state_after(cfg, a1) == ApplyStateView::AddressSet);
    assert(apply_state_after(cfg, a2) == ApplyStateView::PrimaryDnsSet);
    assert(apply_state_after(cfg, a3) == ApplyStateView::SecondaryDnsSet);
    assert(apply_commands_issued(cfg, a0) == seq![set_address_text(cfg)]);
    assert(apply_commands_issued(cfg, a1) == seq![
        set_address_text(cfg),
        set_primary_dns_text(cfg),
    ]);
    assert(apply_commands_issued(cfg, a2) == seq![
        set_address_text(cfg),
        set_primary_dns_text(cfg),
        add_secondary_dns_text(cfg),
    ]);
}

/// Where the primary DNS command reports failure after the address
/// command succeeded, the sequence ends with the failure of that step, and
/// the secondary DNS command is never issued, whatever answers follow. The
/// address stays set.
pub proof fn lemma_primary_dns_failure_ends_sequence(
    cfg: Ipv4ConfigView,
    answers: Seq<GatewayResultView>,
)
    requires
        is_valid_config(cfg),
        cfg.dns1.len() > 0,
        answers.len() >= 2,
        is_success(answers[0]),
        answers[1] matches GatewayResultView::Exited { success, .. } && !success,
    ensures
        apply_state_after(cfg, answers) == ApplyStateView::Failed(
            ConfigErrorView::ApplyStepFailure {
                step: ApplyStage::PrimaryDns,
                detail: utf8_lossy(answers[1]->stderr),
                command: set_primary_dns_text(cfg),
            },
        ),
        apply_commands_issued(cfg, answers) == seq![
            set_address_text(cfg),
            set_primary_dns_text(cfg),
        ],
    decreases answers.len(),
{
    if answers.len() == 2 {
        let a1 = answers.drop_last();
        let a0 = a1.drop_last();
        assert(a1.last() == answers[0]);
        assert(apply_state_after(cfg, a0) == ApplyStateView::Validating);
        assert(apply_state_after(cfg, a1) == ApplyStateView::AddressSet);
        assert(apply_commands_issued(cfg, a0) == seq![set_address_text(cfg)]);
        assert(apply_commands_issued(cfg, a1) == seq![
            set_address_text(cfg),
            set_primary_dns_text(cfg),
        ]);
    } else {
        let earlier = answers.drop_last();
        assert(earlier[0] == answers[0]);
        assert(earlier[1] == answers[1]);
        lemma_primary_dns_failure_ends_sequence(cfg, earlier);
    }
}

/// A configuration with both DNS servers reaches each state only through
/// the commands before it, each of which succeeded: the address is set
/// after exactly one answer, the primary DNS server after exactly two, and
/// the end is reached only where the first three answers told of success.
pub proof fn lemma_success_needs_every_step(cfg: Ipv4ConfigView, answers: Seq<GatewayResultView>)
    requires
        is_valid_config(cfg),
        cfg.dns1.len() > 0,
        cfg.dns2.len() > 0,
    ensures
        apply_state_after(cfg, answers) is Validating ==> answers.len() == 0,
        apply_state_after(cfg, answers) is AddressSet ==> answers.len() == 1 && is_success(
            answers[0],
        ),
        apply_state_after(cfg, answers) is PrimaryDnsSet ==> answers.len() == 2 && is_success(
            answers[0],
        ) && is_success(answers[1]),
        apply_state_after(cfg, answers) is SecondaryDnsSet ==> answers.len() >= 3 && is_success(
            answers[0],
        ) && is_success(answers[1]) && is_success(answers[2]),
    decreases answers.len(),
{
    if answers.len() > 0 {
        let earlier = answers.drop_last();
        lemma_success_needs_every_step(cfg, earlier);
        lemma_apply_step(cfg, apply_state_after(cfg, earlier), answers.last());
        assert(forall|k: int| 0 <= k < earlier.len() ==> earlier[k] == answers[k]);
    }
}

} // verus!
