//! Choosing a strategy for a backup request and letting one backup run at a
//! time.

use vstd::prelude::*;
use crate::error::BackupError;

verus! {

broadcast use vstd::string::to_string_from_display_ensures_for_str;

/// Which strategy the caller asked for.
#[derive(PartialEq, Eq, Structural, Clone, Copy, Debug)]
pub enum StrategyHint {
    /// The external tool where it is installed, else the built-in generator.
    Auto,
    ExternalTool,
    BuiltIn,
}

/// The strategy a backup runs with.
#[derive(PartialEq, Eq, Structural, Clone, Copy, Debug)]
pub enum Strategy {
    ExternalTool,
    BuiltIn,
}

/// A backup request: where the database is, how to log in, and where the
/// archive goes.
pub struct BackupRequest {
    pub host: String,
    pub port: u16,
    pub username: String,
    pub password: String,
    pub database: String,
    pub output_path: String,
    pub strategy: StrategyHint,
}

/// The hint that an engine name stands for: `mysqldump` asks for the
/// external tool, `builtin` for the built-in generator, anything else (or
/// nothing) leaves the choice open.
pub open spec fn hint_for(engine: Option<Seq<char>>) -> StrategyHint {
    match engine {
        Some(e) => if e == "mysqldump"@ {
            StrategyHint::ExternalTool
        } else if e == "builtin"@ {
            StrategyHint::BuiltIn
        } else {
            StrategyHint::Auto
        },
        None => StrategyHint::Auto,
    }
}

impl StrategyHint {
    /// The hint for an engine name.
    pub fn from_engine(engine: Option<&str>) -> (h: StrategyHint)
        ensures
            h == hint_for(
                match engine {
                    Some(e) => Some(e@),
                    None => None,
                },
            ),
    {
        match engine {
            Some(e) => {
                let name = e.to_string();
                if name == "mysqldump".to_string() {
                    StrategyHint::ExternalTool
                } else if name == "builtin".to_string() {
                    StrategyHint::BuiltIn
                } else {
                    StrategyHint::Auto
                }
            },
            None => StrategyHint::Auto,
        }
    }
}

/// The strategy a hint resolves to, given whether the external tool is
/// installed; `None` where the tool was asked for and is missing.
pub open spec fn resolve(hint: StrategyHint, tool_available: bool) -> Option<Strategy> {
    match hint {
        StrategyHint::ExternalTool => if tool_available {
            Some(Strategy::ExternalTool)
        } else {
            None
        },
        StrategyHint::BuiltIn => Some(Strategy::BuiltIn),
        StrategyHint::Auto => if tool_available {
            Some(Strategy::ExternalTool)
        } else {
            Some(Strategy::BuiltIn)
        },
    }
}

/// Resolves a hint once, at request time: an explicit choice is kept (and
/// fails where it is the tool and the tool is missing, with no fallback);
/// `Auto` takes the tool where it is installed, else the built-in generator.
pub fn select_strategy(hint: StrategyHint, tool_available: bool) -> (r: Result<Strategy, BackupError>)
    ensures
        r matches Ok(s) ==> resolve(hint, tool_available) == Some(s),
        r matches Err(e) ==> resolve(hint, tool_available) is None && e is ToolUnavailable,
        r is Ok <==> resolve(hint, tool_available) is Some,
{
    match hint {
        StrategyHint::ExternalTool => if tool_available {
            Ok(Strategy::ExternalTool)
        } else {
            Err(BackupError::ToolUnavailable)
        },
        StrategyHint::BuiltIn => Ok(Strategy::BuiltIn),
        StrategyHint::Auto => if tool_available {
            Ok(Strategy::ExternalTool)
        } else {
            Ok(Strategy::BuiltIn)
        },
    }
}

/// The single-flight guard: at most one backup runs at a time.
pub struct BackupGuard {
    running: bool,
}

impl BackupGuard {
    /// Whether a backup holds the guard.
    pub closed spec fn held(&self) -> bool {
        self.running
    }

    /// A guard that no backup holds.
    pub fn new() -> (g: BackupGuard)
        ensures
            !g.held(),
    {
        BackupGuard { running: false }
    }

    /// Whether a backup holds the guard.
    pub fn is_running(&self) -> (r: bool)
        ensures
            r == self.held(),
    {
        self.running
    }

    /// Takes the guard for a new backup. Where a backup already holds it, the
    /// request is turned away as busy and nothing changes.
    pub fn try_acquire(&mut self) -> (r: Result<(), BackupError>)
        ensures
            (final(self).held(), r is Ok) == acquire_outcome(old(self).held()),
            r matches Err(e) ==> e is Busy,
    {
        if self.running {
            Err(BackupError::Busy)
        } else {
            self.running = true;
            Ok(())
        }
    }

    /// Gives the guard back when a backup ends, whatever its outcome.
    pub fn release(&mut self)
        ensures
            !final(self).held(),
    {
        self.running = false;
    }
}

/// What taking the guard does to whether it is held, and whether it
/// succeeds.
pub open spec fn acquire_outcome(held: bool) -> (bool, bool) {
    (true, !held)
}

/// While one backup holds the guard, a second request is turned away: of two
/// successive acquisitions with no release between them, the second fails,
/// whatever the guard's state before the first.
pub proof fn lemma_second_request_busy(held: bool)
    ensures
        !acquire_outcome(acquire_outcome(held).0).1,
        acquire_outcome(acquire_outcome(held).0).0,
{
}

} // verus!
