//! User profile: preferences and voice settings.  Fractional settings are
//! held in thousandths, so a voice speed of one is stored as 1000.
//! Persistence of the profile is the caller's concern.

use crate::text::bytes_eq;
use vstd::prelude::*;
use vstd::string::{StringExecFns, StringSliceAdditionalSpecFns};
use vstd::utf8::encode_utf8;

verus! {

/// Lowest accepted wake-word sensitivity, in thousandths.
pub const SENSITIVITY_MIN_MILLI: i32 = 0;

/// Highest accepted wake-word sensitivity, in thousandths.
pub const SENSITIVITY_MAX_MILLI: i32 = 1000;

/// Lowest accepted voice speed, in thousandths.
pub const SPEED_MIN_MILLI: i32 = 500;

/// Highest accepted voice speed, in thousandths.
pub const SPEED_MAX_MILLI: i32 = 2000;

/// A value clamped into an inclusive range.
pub open spec fn spec_clamp(v: int, lo: int, hi: int) -> int {
    if v < lo {
        lo
    } else if v > hi {
        hi
    } else {
        v
    }
}

/// Position of the first preference with this exact key.
pub open spec fn spec_pref_at(prefs: Seq<(String, String)>, key: Seq<u8>, i: int) -> Option<int>
    recommends
        0 <= i,
    decreases prefs.len() - i + 1,
{
    if i < 0 || i >= prefs.len() {
        None
    } else if encode_utf8(prefs[i].0@) == key {
        Some(i)
    } else {
        spec_pref_at(prefs, key, i + 1)
    }
}

/// User profile with preferences and settings.
#[derive(Debug, Clone)]
pub struct UserProfile {
    pub name: String,
    pub language: String,
    pub voice_speed_milli: u32,
    pub wake_word_sensitivity_milli: u32,
    pub custom_wake_word: Option<String>,
    pub preferences: Vec<(String, String)>,
}

impl UserProfile {
    /// The held preferences, in insertion order.
    pub open spec fn prefs(self) -> Seq<(String, String)> {
        self.preferences@
    }

    /// Create the default user profile.
    pub fn default() -> (r: UserProfile)
        ensures
            r.name@ == ("User")@,
            r.language@ == ("en-US")@,
            r.voice_speed_milli == 1000,
            r.wake_word_sensitivity_milli == 600,
            r.custom_wake_word is None,
            r.prefs() =~= Seq::<(String, String)>::empty(),
    {
        UserProfile {
            name: String::from_str("User"),
            language: String::from_str("en-US"),
            voice_speed_milli: 1000,
            wake_word_sensitivity_milli: 600,
            custom_wake_word: None,
            preferences: Vec::new(),
        }
    }

    /// Create a profile from loaded parts, preferences given as key-value
    /// pairs in order.
    pub fn from_parts(
        name: String,
        language: String,
        voice_speed_milli: u32,
        wake_word_sensitivity_milli: u32,
        custom_wake_word: Option<String>,
        preferences: Vec<(String, String)>,
    ) -> (r: UserProfile)
        ensures
            r.name == name,
            r.language == language,
            r.voice_speed_milli == voice_speed_milli,
            r.wake_word_sensitivity_milli == wake_word_sensitivity_milli,
            r.custom_wake_word == custom_wake_word,
            r.prefs() == preferences@,
    {
        UserProfile {
            name,
            language,
            voice_speed_milli,
            wake_word_sensitivity_milli,
            custom_wake_word,
            preferences,
        }
    }

    /// All held preferences, in insertion order.
    pub fn preference_pairs(&self) -> (r: Vec<&(String, String)>)
        ensures
            r@.len() == self.prefs().len(),
            forall|i: int| 0 <= i < r@.len() ==> *(#[trigger] r@[i]) == self.prefs()[i],
    {
        let mut r: Vec<&(String, String)> = Vec::new();
        let mut i: usize = 0;
        while i < self.preferences.len()
            invariant
                i <= self.preferences@.len(),
                r@.len() == i as int,
                forall|t: int| 0 <= t < i ==> *(#[trigger] r@[t]) == self.preferences@[t],
            decreases self.preferences@.len() - i,
        {
            r.push(&self.preferences[i]);
            i = i + 1;
        }
        r
    }

    /// Set a preference: an existing key is overwritten, a new one is
    /// appended.
    pub fn set_preference(&mut self, key: &str, value: &str)
        ensures
            final(self).name == old(self).name,
            final(self).language == old(self).language,
            final(self).voice_speed_milli == old(self).voice_speed_milli,
            final(self).wake_word_sensitivity_milli == old(self).wake_word_sensitivity_milli,
            final(self).custom_wake_word == old(self).custom_wake_word,
            match spec_pref_at(old(self).prefs(), key.spec_bytes(), 0) {
                Some(i) => {
                    &&& final(self).prefs().len() == old(self).prefs().len()
                    &&& final(self).prefs()[i].0@ == key@
                    &&& final(self).prefs()[i].1@ == value@
                    &&& forall|t: int|
                        0 <= t < old(self).prefs().len() && t != i
                            ==> #[trigger] final(self).prefs()[t] == old(self).prefs()[t]
                },
                None => {
                    &&& final(self).prefs().len() == old(self).prefs().len() + 1
                    &&& final(self).prefs().last().0@ == key@
                    &&& final(self).prefs().last().1@ == value@
                    &&& forall|t: int|
                        0 <= t < old(self).prefs().len() ==> #[trigger] final(self).prefs()[t]
                            == old(self).prefs()[t]
                },
            },
    {
        let mut i: usize = 0;
        while i < self.preferences.len()
            invariant
                i <= self.preferences@.len(),
                *self == *old(self),
                spec_pref_at(self.preferences@, key.spec_bytes(), 0) == spec_pref_at(
                    self.preferences@,
                    key.spec_bytes(),
                    i as int,
                ),
            decreases self.preferences@.len() - i,
        {
            if bytes_eq(self.preferences[i].0.as_str().as_bytes(), key.as_bytes()) {
                self.preferences[i] = (String::from_str(key), String::from_str(value));
                return ;
            }
            i = i + 1;
        }
        self.preferences.push((String::from_str(key), String::from_str(value)));
    }

    /// Get a preference by its exact key.
    pub fn get_preference(&self, key: &str) -> (r: Option<&String>)
        ensures
            match r {
                Some(v) => spec_pref_at(self.prefs(), key.spec_bytes(), 0) matches Some(i) && *v
                    == self.prefs()[i].1,
                None => spec_pref_at(self.prefs(), key.spec_bytes(), 0) is None,
            },
    {
        let mut i: usize = 0;
        while i < self.preferences.len()
            invariant
                i <= self.preferences@.len(),
                spec_pref_at(self.preferences@, key.spec_bytes(), 0) == spec_pref_at(
                    self.preferences@,
                    key.spec_bytes(),
                    i as int,
                ),
            decreases self.preferences@.len() - i,
        {
            if bytes_eq(self.preferences[i].0.as_str().as_bytes(), key.as_bytes()) {
                return Some(&self.preferences[i].1);
            }
            i = i + 1;
        }
        None
    }

    /// Update the language.
    pub fn set_language(&mut self, language: &str)
        ensures
            final(self).language@ == language@,
            final(self).name == old(self).name,
            final(self).voice_speed_milli == old(self).voice_speed_milli,
            final(self).wake_word_sensitivity_milli == old(self).wake_word_sensitivity_milli,
            final(self).custom_wake_word == old(self).custom_wake_word,
            final(self).prefs() == old(self).prefs(),
    {
        self.language = String::from_str(language);
    }

    /// Update the wake-word sensitivity, clamped into its accepted range.
    pub fn set_wake_word_sensitivity(&mut self, sensitivity_milli: i32)
        ensures
            final(self).wake_word_sensitivity_milli == spec_clamp(
                sensitivity_milli as int,
                SENSITIVITY_MIN_MILLI as int,
                SENSITIVITY_MAX_MILLI as int,
            ),
            final(self).name == old(self).name,
            final(self).language == old(self).language,
            final(self).voice_speed_milli == old(self).voice_speed_milli,
            final(self).custom_wake_word == old(self).custom_wake_word,
            final(self).prefs() == old(self).prefs(),
    {
        let clamped = if sensitivity_milli < SENSITIVITY_MIN_MILLI {
            SENSITIVITY_MIN_MILLI
        } else if sensitivity_milli > SENSITIVITY_MAX_MILLI {
            SENSITIVITY_MAX_MILLI
        } else {
            sensitivity_milli
        };
        self.wake_word_sensitivity_milli = clamped as u32;
    }

    /// Update the voice speed, clamped into its accepted range.
    pub fn set_voice_speed(&mut self, speed_milli: i32)
        ensures
            final(self).voice_speed_milli == spec_clamp(
                speed_milli as int,
                SPEED_MIN_MILLI as int,
                SPEED_MAX_MILLI as int,
            ),
            final(self).name == old(self).name,
            final(self).language == old(self).language,
            final(self).wake_word_sensitivity_milli == old(self).wake_word_sensitivity_milli,
            final(self).custom_wake_word == old(self).custom_wake_word,
            final(self).prefs() == old(self).prefs(),
    {
        let clamped = if speed_milli < SPEED_MIN_MILLI {
            SPEED_MIN_MILLI
        } else if speed_milli > SPEED_MAX_MILLI {
            SPEED_MAX_MILLI
        } else {
            speed_milli
        };
        self.voice_speed_milli = clamped as u32;
    }

    /// Set or clear the custom wake word.
    pub fn set_custom_wake_word(&mut self, wake_word: Option<String>)
        ensures
            final(self).custom_wake_word == wake_word,
            final(self).name == old(self).name,
            final(self).language == old(self).language,
            final(self).voice_speed_milli == old(self).voice_speed_milli,
            final(self).wake_word_sensitivity_milli == old(self).wake_word_sensitivity_milli,
            final(self).prefs() == old(self).prefs(),
    {
        self.custom_wake_word = wake_word;
    }
}

impl Default for UserProfile {
    fn default() -> (r: UserProfile)
        ensures
            r.name@ == ("User")@,
            r.language@ == ("en-US")@,
            r.voice_speed_milli == 1000,
            r.wake_word_sensitivity_milli == 600,
            r.custom_wake_word is None,
            r.prefs().len() == 0,
    {
        UserProfile::default()
    }
}

} // verus!
