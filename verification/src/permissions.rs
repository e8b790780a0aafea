//! Permission policy: which tool calls run automatically, which need
//! approval, and which are refused.

use vstd::prelude::*;
use crate::config::SandboxLevel;
use crate::text::{chars_eq, chars_of};

verus! {

#[derive(Debug, Clone, Copy, PartialEq, Eq, Structural)]
pub enum Decision {
    /// Run without asking.
    Allow,
    /// Ask the user (with a preview).
    Ask,
    /// Refuse (a mutating tool under read-only).
    Deny,
}

/// The decision for a tool, given the level, the auto-approve flag, whether
/// the tool mutates state and whether the user approved it for the session.
pub open spec fn decision(level: SandboxLevel, yolo: bool, mutating: bool, approved: bool) -> Decision {
    if yolo {
        Decision::Allow
    } else {
        match level {
            SandboxLevel::ReadOnly => if mutating {
                Decision::Deny
            } else {
                Decision::Allow
            },
            SandboxLevel::WorkspaceWrite => if !mutating || approved {
                Decision::Allow
            } else {
                Decision::Ask
            },
            SandboxLevel::Full => Decision::Allow,
        }
    }
}

pub struct Policy {
    pub level: SandboxLevel,
    /// Tool names the user approved "always" for this session.
    pub allow: Vec<String>,
    /// Auto-approve everything (non-interactive `--yes`).
    pub yolo: bool,
}

impl Policy {
    /// The tool names approved for the session.
    pub open spec fn approved(&self) -> Seq<Seq<char>> {
        self.allow@.map_values(|s: String| s@)
    }

    pub open spec fn is_approved(&self, name: Seq<char>) -> bool {
        self.approved().contains(name)
    }

    /// A policy at `level` with nothing approved and auto-approve off.
    pub fn new(level: SandboxLevel) -> (r: Policy)
        ensures
            r.level == level,
            !r.yolo,
            r.approved() == Seq::<Seq<char>>::empty(),
            r.approved().no_duplicates(),
    {
        let p = Policy { level, allow: Vec::new(), yolo: false };
        assert(p.approved() =~= Seq::<Seq<char>>::empty());
        p
    }

    fn approved_exec(&self, name: &str) -> (r: bool)
        ensures
            r == self.is_approved(name@),
    {
        let n = chars_of(name);
        let mut i: usize = 0;
        while i < self.allow.len()
            invariant
                i <= self.allow.len(),
                n@ == name@,
                forall|j: int| 0 <= j < i ==> self.approved()[j] != name@,
            decreases self.allow.len() - i,
        {
            let a = chars_of(self.allow[i].as_str());
            if chars_eq(&a, &n) {
                assert(self.approved()[i as int] == name@);
                return true;
            }
            i += 1;
        }
        false
    }

    /// Decide whether the tool `name` (mutating or not) may run.
    pub fn decide(&self, name: &str, mutating: bool) -> (r: Decision)
        ensures
            r == decision(self.level, self.yolo, mutating, self.is_approved(name@)),
    {
        if self.yolo {
            return Decision::Allow;
        }
        match self.level {
            SandboxLevel::ReadOnly => {
                if mutating {
                    Decision::Deny
                } else {
                    Decision::Allow
                }
            },
            SandboxLevel::WorkspaceWrite => {
                if !mutating || self.approved_exec(name) {
                    Decision::Allow
                } else {
                    Decision::Ask
                }
            },
            SandboxLevel::Full => Decision::Allow,
        }
    }

    /// Approve a tool for the rest of the session (a set: approving a tool
    /// twice keeps one entry).
    pub fn allow_for_session(&mut self, tool_name: &str)
        ensures
            final(self).level == old(self).level,
            final(self).yolo == old(self).yolo,
            final(self).approved() == with_approval(old(self).approved(), tool_name@),
            old(self).approved().no_duplicates() ==> final(self).approved().no_duplicates(),
    {
        if self.approved_exec(tool_name) {
            return;
        }
        let ghost before = self.approved();
        self.allow.push(String::from_str(tool_name));
        assert(self.approved() =~= before.push(tool_name@));
    }
}

/// The approved tools after approving `name`: unchanged when it already is
/// approved, else with `name` added at the end.
pub open spec fn with_approval(approved: Seq<Seq<char>>, name: Seq<char>) -> Seq<Seq<char>> {
    if approved.contains(name) {
        approved
    } else {
        approved.push(name)
    }
}

/// Law: under read-only without auto-approve a mutating tool is never
/// allowed, whatever was approved.
pub proof fn law_read_only_never_mutates(mutating: bool, approved: bool)
    ensures
        mutating ==> decision(SandboxLevel::ReadOnly, false, mutating, approved) == Decision::Deny,
        !mutating ==> decision(SandboxLevel::ReadOnly, false, mutating, approved) == Decision::Allow,
{
}

/// Law: a non-mutating tool is always allowed.
pub proof fn law_reads_always_allowed(level: SandboxLevel, yolo: bool, approved: bool)
    ensures
        decision(level, yolo, false, approved) == Decision::Allow,
{
}

/// Law: a tool approved for the session is allowed from then on at every
/// level except read-only (where a mutating tool stays denied).
pub proof fn law_session_approval_sticks(p: Policy, name: Seq<char>, mutating: bool)
    requires
        p.is_approved(name),
        p.level != SandboxLevel::ReadOnly || !mutating || p.yolo,
    ensures
        decision(p.level, p.yolo, mutating, p.is_approved(name)) == Decision::Allow,
{
}

/// Law: approving more never turns an allowed tool into one that is asked
/// about or denied.
pub proof fn law_approval_is_monotone(level: SandboxLevel, yolo: bool, mutating: bool)
    ensures
        decision(level, yolo, mutating, false) == Decision::Allow ==> decision(
            level,
            yolo,
            mutating,
            true,
        ) == Decision::Allow,
{
}

/// Law: auto-approve (`--yes`) allows every call: whatever the level, the
/// tool and what was approved.
pub proof fn law_auto_approve_allows_everything(level: SandboxLevel, mutating: bool, approved: bool)
    ensures
        decision(level, true, mutating, approved) == Decision::Allow,
{
}

} // verus!
