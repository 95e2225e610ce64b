//! Closing a position early, as a protocol: sell (in live trading), record
//! the exit in the ledger, store the figures anew, forget the position.
//!
//! Only a failed sale leaves the position in place. Once the position is
//! sold, or on paper, nothing keeps it from being forgotten: a ledger or a
//! figure that cannot be written is passed over.

use crate::clock::{date_of, date_prefix, Clock};
use crate::engine::{CycleAction, CycleError, CycleEvent, CycleOutcome};
use crate::ledger::{
    exited_content, is_corrupt, needs_backup, parse_ledger, parse_ledger_content,
    record_early_exit,
};
use crate::position_manager::PositionManager;
use crate::stats::{compute, stats_of, tally};
use crate::types::{Config, ExitEvent, ExitReason, LedgerRowView};
use vstd::prelude::*;

verus! {

/// What the exit waits for.
#[derive(Debug, Clone, Copy, PartialEq, Eq, Structural)]
pub enum ExitPhase {
    /// The exchange's answer to the sell order.
    AwaitSold,
    /// The ledger text, to record the exit in it.
    AwaitLedger,
    /// The ledger being stored with the exit recorded.
    AwaitStored,
    /// The ledger text, for the figures.
    AwaitStatsLedger,
    /// The backup copy, the ledger text being damaged.
    AwaitStatsBackup,
    /// The figures being stored.
    AwaitStatsStored,
    /// Nothing: the exit is over.
    Done,
}

/// The state of an exit between two steps.
#[derive(Debug, Clone)]
pub struct ExitFlow {
    pub phase: ExitPhase,
    pub ticker: String,
    /// The record of the exit, where there is a position to close.
    pub event: Option<ExitEvent>,
    /// Whether the ledger holds the exit.
    pub recorded: bool,
}

/// Whether the position is sold (or on paper) and the exit not yet over.
pub open spec fn is_sold(phase: ExitPhase) -> bool {
    phase != ExitPhase::AwaitSold && phase != ExitPhase::Done
}

/// The exit is over with `outcome`.
pub open spec fn exit_ends(
    old: ExitFlow,
    new: ExitFlow,
    action: CycleAction,
    outcome: CycleOutcome,
) -> bool {
    new == (ExitFlow { phase: ExitPhase::Done, ..old }) && action == (CycleAction::Finish {
        outcome,
    })
}

/// The exit goes on to `phase` with `action`.
pub open spec fn exit_goes(
    old: ExitFlow,
    new: ExitFlow,
    action: CycleAction,
    phase: ExitPhase,
    next: CycleAction,
) -> bool {
    new == (ExitFlow { phase, ..old }) && action == next
}

/// The figures of `rows` are stored.
pub open spec fn stores_stats(
    old: ExitFlow,
    rows: Seq<LedgerRowView>,
    now: Clock,
    new: ExitFlow,
    action: CycleAction,
) -> bool {
    &&& new == (ExitFlow { phase: ExitPhase::AwaitStatsStored, ..old })
    &&& action == (CycleAction::StoreStats { stats: stats_of(tally(rows, date_of(now.text@))) })
}

/// What a step of an exit does.
pub open spec fn exit_transition(
    old: ExitFlow,
    event: CycleEvent,
    now: Clock,
    new: ExitFlow,
    action: CycleAction,
) -> bool {
    match (old.phase, event) {
        (ExitPhase::Done, _) => exit_ends(
            old,
            new,
            action,
            CycleOutcome::Aborted { error: CycleError::Unexpected },
        ),
        (ExitPhase::AwaitSold, CycleEvent::Placed { result }) => exit_goes(
            old,
            new,
            action,
            ExitPhase::AwaitLedger,
            CycleAction::LoadLedger,
        ),
        (ExitPhase::AwaitSold, CycleEvent::ExchangeFailed) => exit_ends(
            old,
            new,
            action,
            CycleOutcome::Aborted { error: CycleError::Exchange },
        ),
        (ExitPhase::AwaitSold, _) => exit_ends(
            old,
            new,
            action,
            CycleOutcome::Aborted { error: CycleError::Unexpected },
        ),
        (ExitPhase::AwaitLedger, CycleEvent::Ledger { text }) => match old.event {
            Some(exit) => match exited_content(text@, exit@) {
                Some(content) => {
                    &&& new == (ExitFlow { phase: ExitPhase::AwaitStored, ..old })
                    &&& action matches CycleAction::StoreLedger { content: stored }
                    &&& stored@ == content
                },
                None => exit_goes(
                    old,
                    new,
                    action,
                    ExitPhase::AwaitStatsLedger,
                    CycleAction::LoadLedger,
                ),
            },
            None => exit_goes(
                old,
                new,
                action,
                ExitPhase::AwaitStatsLedger,
                CycleAction::LoadLedger,
            ),
        },
        (ExitPhase::AwaitLedger, CycleEvent::StorageFailed) => exit_goes(
            old,
            new,
            action,
            ExitPhase::AwaitStatsLedger,
            CycleAction::LoadLedger,
        ),
        (ExitPhase::AwaitStored, CycleEvent::Stored) => {
            &&& new == (ExitFlow { phase: ExitPhase::AwaitStatsLedger, recorded: true, ..old })
            &&& action == CycleAction::LoadLedger
        },
        (ExitPhase::AwaitStored, CycleEvent::StorageFailed) => exit_goes(
            old,
            new,
            action,
            ExitPhase::AwaitStatsLedger,
            CycleAction::LoadLedger,
        ),
        (ExitPhase::AwaitStatsLedger, CycleEvent::Ledger { text }) => if is_corrupt(text@) {
            exit_goes(old, new, action, ExitPhase::AwaitStatsBackup, CycleAction::LoadBackup)
        } else {
            stores_stats(old, parse_ledger(text@), now, new, action)
        },
        (ExitPhase::AwaitStatsBackup, CycleEvent::Backup { text }) => stores_stats(
            old,
            parse_ledger(text@),
            now,
            new,
            action,
        ),
        (ExitPhase::AwaitStatsLedger, CycleEvent::StorageFailed)
        | (ExitPhase::AwaitStatsBackup, CycleEvent::StorageFailed)
        | (ExitPhase::AwaitStatsStored, CycleEvent::StorageFailed)
        | (ExitPhase::AwaitStatsStored, CycleEvent::Stored) => exit_ends(
            old,
            new,
            action,
            CycleOutcome::Exited { recorded: old.recorded },
        ),
        _ => exit_ends(old, new, action, CycleOutcome::Aborted { error: CycleError::Unexpected }),
    }
}

/// What an exit begins with: nothing where the ticker has no position or
/// no order book with depth on the position's side (or the total is out of
/// range); else the sale in live trading, the ledger on paper.
pub open spec fn exit_beginning(
    positions: crate::position_manager::PositionManagerView,
    ticker: Seq<char>,
    reason: ExitReason,
    paper: bool,
    new: ExitFlow,
    action: CycleAction,
) -> bool {
    &&& new.ticker@ == ticker
    &&& !new.recorded
    &&& match (positions.exit_event(ticker, reason), positions.exit_order(ticker)) {
        (Some(exit), Some(order)) => {
            &&& new.event matches Some(e)
            &&& e@ == exit
            &&& if paper {
                new.phase == ExitPhase::AwaitLedger && action == CycleAction::LoadLedger
            } else {
                &&& new.phase == ExitPhase::AwaitSold
                &&& action matches CycleAction::SellOrder { order: o }
                &&& o@ == order
            }
        },
        _ => {
            &&& new.phase == ExitPhase::Done
            &&& new.event is None
            &&& action == (CycleAction::Finish { outcome: CycleOutcome::NothingToExit })
        },
    }
}

fn exit_end(flow: ExitFlow, outcome: CycleOutcome) -> (r: (ExitFlow, CycleAction))
    ensures
        exit_ends(flow, r.0, r.1, outcome),
{
    let mut next = flow;
    next.phase = ExitPhase::Done;
    (next, CycleAction::Finish { outcome })
}

fn exit_go(flow: ExitFlow, phase: ExitPhase, action: CycleAction) -> (r: (ExitFlow, CycleAction))
    ensures
        exit_goes(flow, r.0, r.1, phase, action),
{
    let mut next = flow;
    next.phase = phase;
    (next, action)
}

fn store_stats(flow: ExitFlow, text: &str, now: &Clock) -> (r: (ExitFlow, CycleAction))
    ensures
        stores_stats(flow, parse_ledger(text@), *now, r.0, r.1),
{
    let rows = parse_ledger_content(text);
    let today = date_prefix(now.text.as_str());
    let stats = compute(&rows, today.as_str());
    let mut next = flow;
    next.phase = ExitPhase::AwaitStatsStored;
    (next, CycleAction::StoreStats { stats })
}

/// Begins the early exit of the position of `ticker`. Without a position
/// or an order book to price it with there is nothing to do. In live
/// trading the position is sold first; on paper the exit is recorded at
/// once.
pub fn execute_exit(
    positions: &PositionManager,
    ticker: &str,
    reason: ExitReason,
    config: &Config,
) -> (r: (ExitFlow, CycleAction))
    ensures
        exit_beginning(positions@, ticker@, reason, config.paper_trade, r.0, r.1),
{
    let event = positions.build_exit_event(ticker, reason);
    let order = positions.build_exit_order(ticker);
    match (event, order) {
        (Some(event), Some(order)) => {
            let flow = ExitFlow {
                phase: if config.paper_trade {
                    ExitPhase::AwaitLedger
                } else {
                    ExitPhase::AwaitSold
                },
                ticker: ticker.to_owned(),
                event: Some(event),
                recorded: false,
            };
            if config.paper_trade {
                (flow, CycleAction::LoadLedger)
            } else {
                (flow, CycleAction::SellOrder { order })
            }
        },
        _ => {
            let flow = ExitFlow {
                phase: ExitPhase::Done,
                ticker: ticker.to_owned(),
                event: None,
                recorded: false,
            };
            (flow, CycleAction::Finish { outcome: CycleOutcome::NothingToExit })
        },
    }
}

impl ExitFlow {
    /// Takes the outcome of the last action and names the next one. When
    /// the exit ends after the position was sold, the position and its
    /// order book are forgotten; else the positions stay as they are.
    pub fn step(self, event: CycleEvent, now: &Clock, positions: &mut PositionManager) -> (r: (
        ExitFlow,
        CycleAction,
    ))
        ensures
            exit_transition(self, event, *now, r.0, r.1),
            final(positions)@ == if is_sold(self.phase) && r.0.phase == ExitPhase::Done {
                old(positions)@.cleared(self.ticker@)
            } else {
                old(positions)@
            },
    {
        let sold = match self.phase {
            ExitPhase::AwaitSold => false,
            ExitPhase::Done => false,
            _ => true,
        };
        let r = self.decide(event, now);
        if sold && r.0.phase == ExitPhase::Done {
            positions.clear_position(r.0.ticker.as_str());
        }
        r
    }

    fn decide(self, event: CycleEvent, now: &Clock) -> (r: (ExitFlow, CycleAction))
        ensures
            exit_transition(self, event, *now, r.0, r.1),
            r.0.ticker == self.ticker,
    {
        let mut next = self;
        match (next.phase, event) {
            (ExitPhase::Done, _) => exit_end(
                next,
                CycleOutcome::Aborted { error: CycleError::Unexpected },
            ),
            (ExitPhase::AwaitSold, CycleEvent::Placed { result }) => exit_go(
                next,
                ExitPhase::AwaitLedger,
                CycleAction::LoadLedger,
            ),
            (ExitPhase::AwaitSold, CycleEvent::ExchangeFailed) => exit_end(
                next,
                CycleOutcome::Aborted { error: CycleError::Exchange },
            ),
            (ExitPhase::AwaitSold, _) => exit_end(
                next,
                CycleOutcome::Aborted { error: CycleError::Unexpected },
            ),
            (ExitPhase::AwaitLedger, CycleEvent::Ledger { text }) => {
                let content = match &next.event {
                    Some(exit) => match record_early_exit(text.as_str(), exit) {
                        Ok(content) => Some(content),
                        Err(_) => None,
                    },
                    None => None,
                };
                match content {
                    Some(content) => {
                        next.phase = ExitPhase::AwaitStored;
                        (next, CycleAction::StoreLedger { content })
                    },
                    None => exit_go(next, ExitPhase::AwaitStatsLedger, CycleAction::LoadLedger),
                }
            },
            (ExitPhase::AwaitLedger, CycleEvent::StorageFailed) => exit_go(
                next,
                ExitPhase::AwaitStatsLedger,
                CycleAction::LoadLedger,
            ),
            (ExitPhase::AwaitStored, CycleEvent::Stored) => {
                next.recorded = true;
                next.phase = ExitPhase::AwaitStatsLedger;
                (next, CycleAction::LoadLedger)
            },
            (ExitPhase::AwaitStored, CycleEvent::StorageFailed) => exit_go(
                next,
                ExitPhase::AwaitStatsLedger,
                CycleAction::LoadLedger,
            ),
            (ExitPhase::AwaitStatsLedger, CycleEvent::Ledger { text }) => {
                if needs_backup(text.as_str()) {
                    exit_go(next, ExitPhase::AwaitStatsBackup, CycleAction::LoadBackup)
                } else {
                    store_stats(next, text.as_str(), now)
                }
            },
            (ExitPhase::AwaitStatsBackup, CycleEvent::Backup { text }) => store_stats(
                next,
                text.as_str(),
                now,
            ),
            (ExitPhase::AwaitStatsLedger, CycleEvent::StorageFailed)
            | (ExitPhase::AwaitStatsBackup, CycleEvent::StorageFailed)
            | (ExitPhase::AwaitStatsStored, CycleEvent::StorageFailed)
            | (ExitPhase::AwaitStatsStored, CycleEvent::Stored) => {
                let recorded = next.recorded;
                exit_end(next, CycleOutcome::Exited { recorded })
            },
            _ => exit_end(next, CycleOutcome::Aborted { error: CycleError::Unexpected }),
        }
    }
}

/// An upper bound on the steps that an exit has left.
pub open spec fn exit_steps_left(phase: ExitPhase) -> int {
    match phase {
        ExitPhase::Done => 0,
        ExitPhase::AwaitStatsStored => 1,
        ExitPhase::AwaitStatsBackup => 2,
        ExitPhase::AwaitStatsLedger => 3,
        ExitPhase::AwaitStored => 4,
        ExitPhase::AwaitLedger => 5,
        ExitPhase::AwaitSold => 6,
    }
}

/// An exit comes to its end, and it is over exactly when a step says so.
/// After the sale no failure of the ledger or of the figures makes it end as
/// aborted. No step orders a sale: that is done once, at the beginning.
pub proof fn lemma_exit_ends(
    old: ExitFlow,
    event: CycleEvent,
    now: Clock,
    new: ExitFlow,
    action: CycleAction,
)
    requires
        exit_transition(old, event, now, new, action),
    ensures
        old.phase != ExitPhase::Done ==> exit_steps_left(new.phase) < exit_steps_left(old.phase),
        action is Finish <==> new.phase == ExitPhase::Done,
        new.ticker == old.ticker,
        is_sold(old.phase) && event is StorageFailed ==> !(action is Finish
            && action->outcome is Aborted),
        !(action is SellOrder),
{
}

} // verus!
