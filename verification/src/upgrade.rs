//! Upgrading a payload, one step at a time, to the latest version.
//!
//! The steps come from the [`VersionSet`]'s own code; the reader checks each
//! one against the set's contract before following it.

use crate::errors::{ContractViolation, ConversionFailed};
use crate::versioned::{Step, VersionSet, is_member, latest_version, strictly_ascending, well_formed};
use vstd::prelude::*;

verus! {

/// What a step returned, as the upgrade loop judges it.
#[derive(Clone, Copy, Debug, PartialEq, Eq, Structural)]
pub enum StepKind {
    /// `Next`, with the version of the value returned.
    Next { to: u32 },
    /// `Done`.
    Done,
    /// `Failed`, with the version named.
    Failed { to: u32 },
}

/// What the upgrade loop does after a step.
#[derive(Clone, Copy, Debug, PartialEq, Eq, Structural)]
pub enum Decision {
    /// Go on from version `to`.
    Continue { to: u32 },
    /// The latest version is reached.
    Finish,
    /// Conversion from `from` to `to` failed.
    Fail { from: u32, to: u32 },
    /// The step broke the version set's contract.
    Violation(ContractViolation),
}

/// Whether a value that `parse` returned when asked for `asked` breaks the
/// contract: its version must be in the set, and not older than asked.
pub open spec fn parsed_violation(versions: Seq<u32>, asked: u32, returned: u32) -> Option<
    ContractViolation,
> {
    if !versions.contains(returned) {
        Some(ContractViolation::ParsedNonMember { asked, returned })
    } else if returned < asked {
        Some(ContractViolation::ParsedOlder { asked, returned })
    } else {
        None
    }
}

/// What the upgrade loop does after a step from version `from` returned
/// `step`.
pub open spec fn decide(versions: Seq<u32>, from: u32, step: StepKind) -> Decision {
    let latest = versions.last();
    if from == latest {
        match step {
            StepKind::Done => Decision::Finish,
            StepKind::Next { to } => Decision::Violation(
                ContractViolation::NextFromLatest { from, to },
            ),
            StepKind::Failed { to } => Decision::Violation(
                ContractViolation::FailedFromLatest { from, to },
            ),
        }
    } else {
        match step {
            StepKind::Done => Decision::Violation(
                ContractViolation::DoneBeforeLatest { from, latest },
            ),
            StepKind::Next { to } => if !versions.contains(to) {
                Decision::Violation(ContractViolation::StepToNonMember { from, to, failed: false })
            } else if to <= from {
                Decision::Violation(ContractViolation::StepNotNewer { from, to, failed: false })
            } else {
                Decision::Continue { to }
            },
            StepKind::Failed { to } => if !versions.contains(to) {
                Decision::Violation(ContractViolation::StepToNonMember { from, to, failed: true })
            } else if to <= from {
                Decision::Violation(ContractViolation::StepNotNewer { from, to, failed: true })
            } else {
                Decision::Fail { from, to }
            },
        }
    }
}

/// Checks the version of a value that `parse` returned when asked for
/// `asked`.
pub fn check_parsed(versions: &[u32], asked: u32, returned: u32) -> (r: Option<ContractViolation>)
    requires
        strictly_ascending(versions@),
    ensures
        r == parsed_violation(versions@, asked, returned),
{
    if !is_member(versions, returned) {
        Some(ContractViolation::ParsedNonMember { asked, returned })
    } else if returned < asked {
        Some(ContractViolation::ParsedOlder { asked, returned })
    } else {
        None
    }
}

/// Decides what the upgrade loop does after a step from version `from`
/// returned `step`.
pub fn decide_step(versions: &[u32], from: u32, step: StepKind) -> (r: Decision)
    requires
        well_formed(versions@),
    ensures
        r == decide(versions@, from, step),
{
    let latest = latest_version(versions);
    if from == latest {
        match step {
            StepKind::Done => Decision::Finish,
            StepKind::Next { to } => Decision::Violation(
                ContractViolation::NextFromLatest { from, to },
            ),
            StepKind::Failed { to } => Decision::Violation(
                ContractViolation::FailedFromLatest { from, to },
            ),
        }
    } else {
        match step {
            StepKind::Done => Decision::Violation(
                ContractViolation::DoneBeforeLatest { from, latest },
            ),
            StepKind::Next { to } => if !is_member(versions, to) {
                Decision::Violation(ContractViolation::StepToNonMember { from, to, failed: false })
            } else if to <= from {
                Decision::Violation(ContractViolation::StepNotNewer { from, to, failed: false })
            } else {
                Decision::Continue { to }
            },
            StepKind::Failed { to } => if !is_member(versions, to) {
                Decision::Violation(ContractViolation::StepToNonMember { from, to, failed: true })
            } else if to <= from {
                Decision::Violation(ContractViolation::StepNotNewer { from, to, failed: true })
            } else {
                Decision::Fail { from, to }
            },
        }
    }
}

/// Every version of a well-formed list is at most its latest.
pub proof fn lemma_member_at_most_latest(versions: Seq<u32>, v: u32)
    requires
        well_formed(versions),
        versions.contains(v),
    ensures
        v <= versions.last(),
{
    let i = choose|i: int| 0 <= i < versions.len() && versions[i] == v;
    if i < versions.len() - 1 {
        assert(versions[i] < versions[versions.len() - 1]);
    }
}

/// How an upgrade ends, as the version set's own steps decide it.
pub enum Outcome<L> {
    /// The latest version was reached, with this value.
    Latest(L),
    /// The step from version `from` failed, naming version `to`, with the
    /// error's message.
    Failed { from: u32, to: u32, source: Seq<char> },
    /// The version set broke its contract.
    Violation(ContractViolation),
}

/// How the upgrade loop ends when it steps from `value`: each step is judged
/// by [`decide`]; `Next` goes on from the value it returns, `Done` ends with
/// its value, and `Failed` ends with the failure. (A step that [`decide`]
/// lets go on names a newer version of the set, so the guard below always
/// holds for a well-formed set.)
pub open spec fn upgrade_chain<S: VersionSet>(value: S, cx: S::Context) -> Outcome<S::Latest>
    decreases S::VERSIONS@.last() - value.spec_version(),
{
    let versions = S::VERSIONS@;
    let from = value.spec_version();
    match value.spec_step(cx) {
        Step::Done(done) => match decide(versions, from, StepKind::Done) {
            Decision::Violation(v) => Outcome::Violation(v),
            _ => Outcome::Latest(done),
        },
        Step::Next(next) => {
            let to = next.spec_version();
            match decide(versions, from, StepKind::Next { to }) {
                Decision::Violation(v) => Outcome::Violation(v),
                _ => if from < to <= versions.last() {
                    upgrade_chain(next, cx)
                } else {
                    Outcome::Violation(ContractViolation::StepNotNewer { from, to, failed: false })
                },
            }
        },
        Step::Failed { to, source } => match decide(versions, from, StepKind::Failed { to }) {
            Decision::Violation(v) => Outcome::Violation(v),
            _ => Outcome::Failed { from, to, source: source@ },
        },
    }
}

/// How upgrading a value that `parse` returned when asked for version `asked`
/// ends: its version is checked first, then the steps are followed.
pub open spec fn upgrade_spec<S: VersionSet>(value: S, asked: u32, cx: S::Context) -> Outcome<
    S::Latest,
> {
    match parsed_violation(S::VERSIONS@, asked, value.spec_version()) {
        Some(v) => Outcome::Violation(v),
        None => upgrade_chain(value, cx),
    }
}

/// The version set keeps its contract while a value that `parse` returned
/// when asked for version `asked` is upgraded: the value's version, and every
/// step taken, are as the set's contract requires.
pub open spec fn keeps_contract_from<S: VersionSet>(value: S, asked: u32, cx: S::Context) -> bool {
    !(upgrade_spec(value, asked, cx) is Violation)
}

/// The version set keeps its contract, in the context `cx`, for every value
/// its parser returns at one of its versions.
pub open spec fn keeps_contract<S: VersionSet>(cx: S::Context) -> bool {
    forall|version: u32, json: Seq<u8>|
        S::VERSIONS@.contains(version) && (#[trigger] S::spec_parse(version, json)) is Ok
            ==> keeps_contract_from(S::spec_parse(version, json)->Ok_0, version, cx)
}

/// The result of [`upgrade`] that the outcome `o` stands for.
pub open spec fn upgrade_result<L>(o: Outcome<L>, r: Result<L, UpgradeError>) -> bool {
    match o {
        Outcome::Latest(l) => r matches Ok(v) && v == l,
        Outcome::Failed { from, to, source } => r matches Err(UpgradeError::Conversion(c)) && c.spec_from()
            == from && c.spec_to() == to && c.spec_source() == source,
        Outcome::Violation(v) => r matches Err(UpgradeError::Contract(w)) && w == v,
    }
}

/// The upgrade loop's judgement of a step, over a well-formed list: from the
/// latest version only `Done` is right, and it finishes; from any other
/// version `Done` is wrong, while `Next` and `Failed` are right exactly when
/// they name a member of the list newer than the version stepped from (any
/// newer member, skipping versions or not). `Next` then goes on from the
/// version it names, and `Failed` fails between the two versions. Every
/// step that is not right is a violation.
pub proof fn law_decide(versions: Seq<u32>, from: u32, to: u32)
    requires
        well_formed(versions),
    ensures
        from == versions.last() ==> decide(versions, from, StepKind::Done) == Decision::Finish,
        from != versions.last() ==> decide(versions, from, StepKind::Done) is Violation,
        decide(versions, from, StepKind::Next { to }) == (Decision::Continue { to }) <==> (from
            != versions.last() && versions.contains(to) && from < to),
        !(decide(versions, from, StepKind::Next { to }) == (Decision::Continue { to })) ==> decide(
            versions,
            from,
            StepKind::Next { to },
        ) is Violation,
        decide(versions, from, StepKind::Failed { to }) == (Decision::Fail { from, to }) <==> (from
            != versions.last() && versions.contains(to) && from < to),
        !(decide(versions, from, StepKind::Failed { to }) == (Decision::Fail { from, to })) ==> decide(
            versions,
            from,
            StepKind::Failed { to },
        ) is Violation,
{
}

/// A parsed value keeps the contract exactly when its version is a member of
/// the list no older than the version asked for.
pub proof fn law_parsed_violation(versions: Seq<u32>, asked: u32, returned: u32)
    ensures
        parsed_violation(versions, asked, returned) is None <==> (versions.contains(returned)
            && asked <= returned),
{
}

/// The steps of `S` keep the contract from every member version, in the
/// context `cx`: from the latest version a step is `Done`; from any other,
/// it is `Next` or `Failed` naming a newer member.
pub open spec fn steps_keep_contract<S: VersionSet>(cx: S::Context) -> bool {
    forall|x: S|
        S::VERSIONS@.contains(#[trigger] x.spec_version()) ==> match x.spec_step(cx) {
            Step::Done(_) => x.spec_version() == S::VERSIONS@.last(),
            Step::Next(n) => S::VERSIONS@.contains(n.spec_version()) && x.spec_version()
                < n.spec_version(),
            Step::Failed { to, .. } => S::VERSIONS@.contains(to) && x.spec_version() < to,
        }
}

/// A set whose every step keeps the contract keeps it through any upgrade:
/// from a value of a member version no older than asked, the upgrade
/// reaches the latest version or stops at a failed step, and never breaks
/// the contract.
pub proof fn law_steps_keep_contract<S: VersionSet>(value: S, asked: u32, cx: S::Context)
    requires
        well_formed(S::VERSIONS@),
        steps_keep_contract::<S>(cx),
        S::VERSIONS@.contains(value.spec_version()),
        asked <= value.spec_version(),
    ensures
        keeps_contract_from(value, asked, cx),
        upgrade_spec(value, asked, cx) is Latest || upgrade_spec(value, asked, cx) is Failed,
{
    lemma_chain_keeps_contract(value, cx);
}

/// The induction behind [`law_steps_keep_contract`].
proof fn lemma_chain_keeps_contract<S: VersionSet>(value: S, cx: S::Context)
    requires
        well_formed(S::VERSIONS@),
        steps_keep_contract::<S>(cx),
        S::VERSIONS@.contains(value.spec_version()),
    ensures
        upgrade_chain(value, cx) is Latest || upgrade_chain(value, cx) is Failed,
    decreases S::VERSIONS@.last() - value.spec_version(),
{
    let versions = S::VERSIONS@;
    let from = value.spec_version();
    lemma_member_at_most_latest(versions, from);
    match value.spec_step(cx) {
        Step::Done(_) => {},
        Step::Next(next) => {
            let to = next.spec_version();
            lemma_member_at_most_latest(versions, to);
            lemma_chain_keeps_contract(next, cx);
        },
        Step::Failed { to, .. } => {},
    }
}

/// Why an upgrade stopped short of the latest version.
#[derive(Debug)]
pub enum UpgradeError {
    /// A step failed.
    Conversion(ConversionFailed),
    /// The version set broke its contract.
    Contract(ContractViolation),
}

/// Upgrades a value that `parse` returned for version `asked` to the latest
/// version, step by step.
///
/// The set must keep its contract ([`keeps_contract_from`]). Each step is
/// still checked at run time, and a step that breaks the contract is
/// reported as [`UpgradeError::Contract`]: a set implemented outside verified
/// code can break it, and its caller then decides what to do.
pub fn upgrade<S: VersionSet>(value: S, asked: u32, cx: &S::Context) -> (r: Result<
    S::Latest,
    UpgradeError,
>)
    requires
        well_formed(S::VERSIONS@),
        keeps_contract_from(value, asked, *cx),
    ensures
        r matches Err(UpgradeError::Conversion(c)) ==> {
            &&& S::VERSIONS@.contains(c.spec_from())
            &&& S::VERSIONS@.contains(c.spec_to())
            &&& asked <= c.spec_from() < c.spec_to()
        },
        upgrade_result(upgrade_spec(value, asked, *cx), r),
{
    let versions = S::VERSIONS;
    let returned = value.version();
    if let Some(violation) = check_parsed(versions, asked, returned) {
        return Err(UpgradeError::Contract(violation));
    }
    let latest = latest_version(versions);
    let ghost outcome = upgrade_spec(value, asked, *cx);
    let mut from = returned;
    let mut current = value;
    proof {
        lemma_member_at_most_latest(versions@, from);
    }
    loop
        invariant
            versions@ == S::VERSIONS@,
            from == current.spec_version(),
            outcome == upgrade_chain(current, *cx),
            outcome == upgrade_spec(value, asked, *cx),
            well_formed(versions@),
            latest == versions@.last(),
            versions@.contains(from),
            asked <= from <= latest,
        decreases latest - from,
    {
        let ghost value_before = current;
        let step = current.step(cx);
        proof {
            assert(step == value_before.spec_step(*cx));
            assert(outcome == upgrade_chain(value_before, *cx));
        }
        match step {
            Step::Done(done) => {
                match decide_step(versions, from, StepKind::Done) {
                    Decision::Finish => {
                        return Ok(done);
                    },
                    Decision::Violation(violation) => {
                        return Err(UpgradeError::Contract(violation));
                    },
                    _ => {
                        proof {
                            assert(false);
                        }
                        return Err(UpgradeError::Contract(
                            ContractViolation::DoneBeforeLatest { from, latest },
                        ));
                    },
                }
            },
            Step::Next(next) => {
                let to = next.version();
                match decide_step(versions, from, StepKind::Next { to }) {
                    Decision::Continue { to } => {
                        proof {
                            lemma_member_at_most_latest(versions@, to);
                            assert(upgrade_chain(value_before, *cx) == upgrade_chain(next, *cx));
                        }
                        current = next;
                        from = to;
                    },
                    Decision::Violation(violation) => {
                        return Err(UpgradeError::Contract(violation));
                    },
                    _ => {
                        proof {
                            assert(false);
                        }
                        return Err(UpgradeError::Contract(
                            ContractViolation::NextFromLatest { from, to },
                        ));
                    },
                }
            },
            Step::Failed { to, source } => {
                match decide_step(versions, from, StepKind::Failed { to }) {
                    Decision::Fail { from, to } => {
                        return Err(UpgradeError::Conversion(ConversionFailed::new(from, to, source)));
                    },
                    Decision::Violation(violation) => {
                        return Err(UpgradeError::Contract(violation));
                    },
                    _ => {
                        proof {
                            assert(false);
                        }
                        return Err(UpgradeError::Contract(
                            ContractViolation::FailedFromLatest { from, to },
                        ));
                    },
                }
            },
        }
    }
}

} // verus!
