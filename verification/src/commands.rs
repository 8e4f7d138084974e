//! User-defined commands: a trigger phrase mapped to an action, looked up
//! by exact match on the lowercased request first and by containment
//! second.  Persistence of the command set is the caller's concern; the
//! manager holds and queries it.

use crate::text::{bytes_eq, contains_sub, lower_bytes, spec_contains, spec_lower};
use vstd::prelude::*;
use vstd::string::StringSliceAdditionalSpecFns;
use vstd::utf8::encode_utf8;

verus! {

/// Custom command definition.
#[derive(Debug, Clone)]
pub struct CustomCommand {
    pub trigger: String,
    pub action: CommandAction,
    pub description: String,
}

/// Command action types.
#[derive(Debug, Clone)]
pub enum CommandAction {
    ExecuteShell(String),
    RunMacro(String),
    SendText(String),
    Custom(String),
}

/// Position of the first command whose trigger equals `key` exactly.
pub open spec fn spec_first_exact(cmds: Seq<CustomCommand>, key: Seq<u8>, i: int) -> Option<int>
    recommends
        0 <= i,
    decreases cmds.len() - i + 1,
{
    if i < 0 || i >= cmds.len() {
        None
    } else if encode_utf8(cmds[i].trigger@) == key {
        Some(i)
    } else {
        spec_first_exact(cmds, key, i + 1)
    }
}

/// Position of the first command whose trigger is contained in `text`.
pub open spec fn spec_first_partial(cmds: Seq<CustomCommand>, text: Seq<u8>, i: int) -> Option<
    int,
>
    recommends
        0 <= i,
    decreases cmds.len() - i + 1,
{
    if i < 0 || i >= cmds.len() {
        None
    } else if spec_contains(text, encode_utf8(cmds[i].trigger@)) {
        Some(i)
    } else {
        spec_first_partial(cmds, text, i + 1)
    }
}

/// Position of the command a request finds: an exact trigger match on the
/// lowercased request wins, a contained trigger comes second.
pub open spec fn spec_find_command(cmds: Seq<CustomCommand>, lowered: Seq<u8>) -> Option<int> {
    match spec_first_exact(cmds, lowered, 0) {
        Some(i) => Some(i),
        None => spec_first_partial(cmds, lowered, 0),
    }
}

/// Custom command manager.
pub struct CustomCommandManager {
    commands: Vec<CustomCommand>,
}

impl CustomCommandManager {
    /// The held commands, in insertion order.
    pub closed spec fn cmds(self) -> Seq<CustomCommand> {
        self.commands@
    }

    /// Create an empty custom command manager.
    pub fn new() -> (r: CustomCommandManager)
        ensures
            r.cmds() =~= Seq::<CustomCommand>::empty(),
    {
        CustomCommandManager { commands: Vec::new() }
    }

    /// Add a custom command: a command with the same trigger is replaced,
    /// any other trigger is appended.
    pub fn add_command(&mut self, cmd: CustomCommand)
        ensures
            match spec_first_exact(old(self).cmds(), encode_utf8(cmd.trigger@), 0) {
                Some(i) => final(self).cmds() == old(self).cmds().update(i, cmd),
                None => final(self).cmds() == old(self).cmds().push(cmd),
            },
    {
        let mut i: usize = 0;
        while i < self.commands.len()
            invariant
                i <= self.commands@.len(),
                *self == *old(self),
                spec_first_exact(self.commands@, encode_utf8(cmd.trigger@), 0)
                    == spec_first_exact(self.commands@, encode_utf8(cmd.trigger@), i as int),
            decreases self.commands@.len() - i,
        {
            if bytes_eq(self.commands[i].trigger.as_str().as_bytes(), cmd.trigger.as_str().as_bytes()) {
                let ghost old_cmds = self.commands@;
                self.commands[i] = cmd;
                proof {
                    assert(self.commands@ =~= old_cmds.update(i as int, cmd));
                }
                return ;
            }
            i = i + 1;
        }
        self.commands.push(cmd);
    }

    /// Remove the custom command with this exact trigger, if one is held.
    pub fn remove_command(&mut self, trigger: &str)
        ensures
            match spec_first_exact(old(self).cmds(), trigger.spec_bytes(), 0) {
                Some(i) => final(self).cmds() == old(self).cmds().remove(i),
                None => *final(self) == *old(self),
            },
    {
        let mut i: usize = 0;
        while i < self.commands.len()
            invariant
                i <= self.commands@.len(),
                *self == *old(self),
                spec_first_exact(self.commands@, trigger.spec_bytes(), 0) == spec_first_exact(
                    self.commands@,
                    trigger.spec_bytes(),
                    i as int,
                ),
            decreases self.commands@.len() - i,
        {
            if bytes_eq(self.commands[i].trigger.as_str().as_bytes(), trigger.as_bytes()) {
                self.commands.remove(i);
                return ;
            }
            i = i + 1;
        }
    }

    /// Find the command a request triggers: the request is lowercased, an
    /// exact trigger match wins, a trigger contained in the request comes
    /// second, earlier commands before later ones.
    pub fn find_command(&self, text: &str) -> (r: Option<&CustomCommand>)
        ensures
            match r {
                Some(c) => spec_find_command(self.cmds(), spec_lower(text.spec_bytes()))
                    matches Some(i) && *c == self.cmds()[i],
                None => spec_find_command(self.cmds(), spec_lower(text.spec_bytes())) is None,
            },
    {
        let lowered = lower_bytes(text.as_bytes());
        let lt = lowered.as_slice();
        let mut i: usize = 0;
        while i < self.commands.len()
            invariant
                i <= self.commands@.len(),
                lt@ == spec_lower(text.spec_bytes()),
                spec_first_exact(self.commands@, lt@, 0) == spec_first_exact(
                    self.commands@,
                    lt@,
                    i as int,
                ),
            decreases self.commands@.len() - i,
        {
            if bytes_eq(self.commands[i].trigger.as_str().as_bytes(), lt) {
                return Some(&self.commands[i]);
            }
            i = i + 1;
        }
        let mut j: usize = 0;
        while j < self.commands.len()
            invariant
                j <= self.commands@.len(),
                lt@ == spec_lower(text.spec_bytes()),
                spec_first_exact(self.commands@, lt@, 0) is None,
                spec_first_partial(self.commands@, lt@, 0) == spec_first_partial(
                    self.commands@,
                    lt@,
                    j as int,
                ),
            decreases self.commands@.len() - j,
        {
            if contains_sub(lt, self.commands[j].trigger.as_str().as_bytes()) {
                return Some(&self.commands[j]);
            }
            j = j + 1;
        }
        None
    }

    /// Number of held commands.
    pub fn count(&self) -> (r: usize)
        ensures
            r == self.cmds().len(),
    {
        self.commands.len()
    }

    /// All held commands, in insertion order.
    pub fn list_commands(&self) -> (r: Vec<&CustomCommand>)
        ensures
            r@.len() == self.cmds().len(),
            forall|i: int| 0 <= i < r@.len() ==> *(#[trigger] r@[i]) == self.cmds()[i],
    {
        let mut r: Vec<&CustomCommand> = Vec::new();
        let mut i: usize = 0;
        while i < self.commands.len()
            invariant
                i <= self.commands@.len(),
                r@.len() == i as int,
                forall|t: int| 0 <= t < i ==> *(#[trigger] r@[t]) == self.commands@[t],
            decreases self.commands@.len() - i,
        {
            r.push(&self.commands[i]);
            i = i + 1;
        }
        r
    }
}

impl Default for CustomCommandManager {
    fn default() -> (r: CustomCommandManager)
        ensures
            r.cmds().len() == 0,
    {
        CustomCommandManager::new()
    }
}

} // verus!
