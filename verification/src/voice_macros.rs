//! Voice macros: named sequences of delayed command steps, recorded step
//! by step and played back as the list of their commands.  Persistence of
//! the macro set is the caller's concern; the manager holds and queries
//! it.

use crate::text::bytes_eq;
use vstd::prelude::*;
use vstd::string::StringSliceAdditionalSpecFns;
use vstd::utf8::encode_utf8;

verus! {

/// Voice macro definition.
#[derive(Debug, Clone)]
pub struct VoiceMacro {
    pub name: String,
    pub steps: Vec<MacroStep>,
    pub created_at_ms: u64,
}

/// One step of a macro: a command, played after its delay.
#[derive(Debug, Clone)]
pub struct MacroStep {
    pub command: String,
    pub delay_ms: u64,
}

/// Errors of the macro manager.
#[derive(Debug, PartialEq, Eq, Clone, Copy)]
pub enum MacroError {
    /// No recording is in progress.
    NoRecording,
    /// No macro of that name is held.
    NotFound,
}

/// Position of the first macro with this exact name.
pub open spec fn spec_macro_at(ms: Seq<VoiceMacro>, name: Seq<u8>, i: int) -> Option<int>
    recommends
        0 <= i,
    decreases ms.len() - i + 1,
{
    if i < 0 || i >= ms.len() {
        None
    } else if encode_utf8(ms[i].name@) == name {
        Some(i)
    } else {
        spec_macro_at(ms, name, i + 1)
    }
}

/// Relies on std::time::SystemTime::now for the wall-clock time; nothing
/// is assumed of the value it reports.
#[verifier::external_body]
fn now_millis() -> u64 {
    match std::time::SystemTime::now().duration_since(std::time::UNIX_EPOCH) {
        Ok(d) => d.as_millis() as u64,
        Err(_) => 0,
    }
}

/// Macro manager: the held macros and the recording in progress, if any.
pub struct MacroManager {
    macros: Vec<VoiceMacro>,
    recording: Option<VoiceMacro>,
}

impl MacroManager {
    /// The held macros, in insertion order.
    pub closed spec fn held(self) -> Seq<VoiceMacro> {
        self.macros@
    }

    /// The recording in progress.
    pub closed spec fn rec(self) -> Option<VoiceMacro> {
        self.recording
    }

    /// Create an empty macro manager.
    pub fn new() -> (r: MacroManager)
        ensures
            r.held() =~= Seq::<VoiceMacro>::empty(),
            r.rec() is None,
    {
        MacroManager { macros: Vec::new(), recording: None }
    }

    /// Start recording a macro under this name, with no steps yet; a
    /// recording already in progress is discarded.
    pub fn start_recording(&mut self, name: String)
        ensures
            final(self).held() == old(self).held(),
            final(self).rec() matches Some(m) && m.name == name && m.steps@.len() == 0,
    {
        self.recording = Some(
            VoiceMacro { name, steps: Vec::new(), created_at_ms: now_millis() },
        );
    }

    /// Add a step to the recording in progress; without one, nothing
    /// happens.
    pub fn add_step(&mut self, command: String, delay_ms: u64)
        ensures
            final(self).held() == old(self).held(),
            match old(self).rec() {
                Some(m) => final(self).rec() matches Some(m2) && m2.name == m.name
                    && m2.created_at_ms == m.created_at_ms && m2.steps@.len() == m.steps@.len() + 1
                    && m2.steps@.drop_last() == m.steps@ && m2.steps@.last().command == command
                    && m2.steps@.last().delay_ms == delay_ms,
                None => final(self).rec() is None,
            },
    {
        match self.recording.take() {
            Some(mut macro_rec) => {
                macro_rec.steps.push(MacroStep { command, delay_ms });
                self.recording = Some(macro_rec);
                proof {
                    assert(final(self).rec()->0.steps@.drop_last() =~= old(
                        self,
                    ).rec()->0.steps@);
                }
            },
            None => {},
        }
    }

    /// Stop recording and hand the recorded macro back; without a
    /// recording in progress, report that.
    pub fn stop_recording(&mut self) -> (r: Result<VoiceMacro, MacroError>)
        ensures
            final(self).held() == old(self).held(),
            final(self).rec() is None,
            match old(self).rec() {
                Some(m) => r matches Ok(m2) && m2 == m,
                None => r matches Err(e) && e == MacroError::NoRecording,
            },
    {
        match self.recording.take() {
            Some(m) => Ok(m),
            None => Err(MacroError::NoRecording),
        }
    }

    /// Save a macro: one held under the same name is replaced, any other
    /// name is appended.
    pub fn save_macro(&mut self, macro_rec: VoiceMacro)
        ensures
            final(self).rec() == old(self).rec(),
            match spec_macro_at(old(self).held(), encode_utf8(macro_rec.name@), 0) {
                Some(i) => final(self).held() == old(self).held().update(i, macro_rec),
                None => final(self).held() == old(self).held().push(macro_rec),
            },
    {
        let mut i: usize = 0;
        while i < self.macros.len()
            invariant
                i <= self.macros@.len(),
                *self == *old(self),
                spec_macro_at(self.macros@, encode_utf8(macro_rec.name@), 0) == spec_macro_at(
                    self.macros@,
                    encode_utf8(macro_rec.name@),
                    i as int,
                ),
            decreases self.macros@.len() - i,
        {
            if bytes_eq(
                self.macros[i].name.as_str().as_bytes(),
                macro_rec.name.as_str().as_bytes(),
            ) {
                let ghost old_held = self.macros@;
                self.macros[i] = macro_rec;
                proof {
                    assert(self.macros@ =~= old_held.update(i as int, macro_rec));
                }
                return ;
            }
            i = i + 1;
        }
        self.macros.push(macro_rec);
    }

    /// Delete the macro held under this name, if one is held.
    pub fn delete_macro(&mut self, name: &str)
        ensures
            final(self).rec() == old(self).rec(),
            match spec_macro_at(old(self).held(), name.spec_bytes(), 0) {
                Some(i) => final(self).held() == old(self).held().remove(i),
                None => *final(self) == *old(self),
            },
    {
        let mut i: usize = 0;
        while i < self.macros.len()
            invariant
                i <= self.macros@.len(),
                *self == *old(self),
                spec_macro_at(self.macros@, name.spec_bytes(), 0) == spec_macro_at(
                    self.macros@,
                    name.spec_bytes(),
                    i as int,
                ),
            decreases self.macros@.len() - i,
        {
            if bytes_eq(self.macros[i].name.as_str().as_bytes(), name.as_bytes()) {
                self.macros.remove(i);
                return ;
            }
            i = i + 1;
        }
    }

    /// The macro held under this name, if any.
    pub fn get_macro(&self, name: &str) -> (r: Option<&VoiceMacro>)
        ensures
            match r {
                Some(m) => spec_macro_at(self.held(), name.spec_bytes(), 0) matches Some(i) && *m
                    == self.held()[i],
                None => spec_macro_at(self.held(), name.spec_bytes(), 0) is None,
            },
    {
        let mut i: usize = 0;
        while i < self.macros.len()
            invariant
                i <= self.macros@.len(),
                spec_macro_at(self.macros@, name.spec_bytes(), 0) == spec_macro_at(
                    self.macros@,
                    name.spec_bytes(),
                    i as int,
                ),
            decreases self.macros@.len() - i,
        {
            if bytes_eq(self.macros[i].name.as_str().as_bytes(), name.as_bytes()) {
                return Some(&self.macros[i]);
            }
            i = i + 1;
        }
        None
    }

    /// The commands of the macro held under this name, in step order; the
    /// caller owes each step its delay before issuing the command.
    pub fn play_macro(&self, name: &str) -> (r: Result<Vec<String>, MacroError>)
        ensures
            match spec_macro_at(self.held(), name.spec_bytes(), 0) {
                Some(i) => r matches Ok(cmds) && cmds@.len() == self.held()[i].steps@.len()
                    && forall|t: int|
                    0 <= t < cmds@.len() ==> (#[trigger] cmds@[t])@ == self.held()[i].steps@[t]
                        .command@,
                None => r matches Err(e) && e == MacroError::NotFound,
            },
    {
        let m = match self.get_macro(name) {
            Some(m) => m,
            None => {
                return Err(MacroError::NotFound);
            },
        };
        let mut results: Vec<String> = Vec::new();
        let mut i: usize = 0;
        while i < m.steps.len()
            invariant
                i <= m.steps@.len(),
                results@.len() == i as int,
                forall|t: int|
                    0 <= t < i ==> (#[trigger] results@[t])@ == m.steps@[t].command@,
            decreases m.steps@.len() - i,
        {
            results.push(m.steps[i].command.clone());
            i = i + 1;
        }
        Ok(results)
    }

    /// Number of held macros.
    pub fn count(&self) -> (r: usize)
        ensures
            r == self.held().len(),
    {
        self.macros.len()
    }

    /// All held macros, in insertion order.
    pub fn list_macros(&self) -> (r: Vec<&VoiceMacro>)
        ensures
            r@.len() == self.held().len(),
            forall|i: int| 0 <= i < r@.len() ==> *(#[trigger] r@[i]) == self.held()[i],
    {
        let mut r: Vec<&VoiceMacro> = Vec::new();
        let mut i: usize = 0;
        while i < self.macros.len()
            invariant
                i <= self.macros@.len(),
                r@.len() == i as int,
                forall|t: int| 0 <= t < i ==> *(#[trigger] r@[t]) == self.macros@[t],
            decreases self.macros@.len() - i,
        {
            r.push(&self.macros[i]);
            i = i + 1;
        }
        r
    }

    /// Whether a recording is in progress.
    pub fn is_recording(&self) -> (r: bool)
        ensures
            r == (self.rec() is Some),
    {
        self.recording.is_some()
    }
}

impl Default for MacroManager {
    fn default() -> (r: MacroManager)
        ensures
            r.held().len() == 0,
            r.rec() is None,
    {
        MacroManager::new()
    }
}

} // verus!
