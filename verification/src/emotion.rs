//! Keyword-driven emotion detection: a request is scored against a fixed
//! table of emotion keywords and classified as the first emotion of the
//! table that reaches the highest score, or as neutral when nothing
//! matches.  Matching is ASCII case-insensitive.

use crate::text::{contains_sub, lower_bytes, spec_contains, spec_lower};
use vstd::prelude::*;
use vstd::slice::slice_to_vec;
use vstd::string::StringSliceAdditionalSpecFns;

verus! {

/// Emotion types.
#[derive(Debug, Clone, Copy, PartialEq, Eq, Hash, Structural)]
pub enum Emotion {
    Happy,
    Sad,
    Angry,
    Neutral,
    Excited,
    Confused,
    Grateful,
    Frustrated,
}

impl Emotion {
    /// The emotion's display name.
    pub fn name(&self) -> (r: &'static str)
        ensures
            r@ == match self {
                Emotion::Happy => ("Happy")@,
                Emotion::Sad => ("Sad")@,
                Emotion::Angry => ("Angry")@,
                Emotion::Neutral => ("Neutral")@,
                Emotion::Excited => ("Excited")@,
                Emotion::Confused => ("Confused")@,
                Emotion::Grateful => ("Grateful")@,
                Emotion::Frustrated => ("Frustrated")@,
            },
    {
        match self {
            Emotion::Happy => "Happy",
            Emotion::Sad => "Sad",
            Emotion::Angry => "Angry",
            Emotion::Neutral => "Neutral",
            Emotion::Excited => "Excited",
            Emotion::Confused => "Confused",
            Emotion::Grateful => "Grateful",
            Emotion::Frustrated => "Frustrated",
        }
    }
}

/// How many of the keywords occur in the lowercased request.
pub open spec fn spec_score(l: Seq<u8>, kws: Seq<Seq<u8>>) -> int
    decreases kws.len(),
{
    if kws.len() == 0 {
        0
    } else {
        (if spec_contains(l, kws.last()) {
            1int
        } else {
            0int
        }) + spec_score(l, kws.drop_last())
    }
}

/// Best emotion among the first `i` table rows: the first row with the
/// strictly highest score so far, starting from neutral at score zero.
pub open spec fn spec_best(
    table: Seq<(Emotion, Seq<Seq<u8>>)>,
    l: Seq<u8>,
    i: int,
) -> (Emotion, int)
    decreases i,
{
    if i <= 0 {
        (Emotion::Neutral, 0)
    } else {
        let prev = spec_best(table, l, i - 1);
        let s = spec_score(l, table[i - 1].1);
        if s > prev.1 {
            (table[i - 1].0, s)
        } else {
            prev
        }
    }
}

/// The detected emotion of a request: the first emotion of the table whose
/// keyword score is strictly highest, or neutral when no keyword matches.
pub open spec fn spec_detect(table: Seq<(Emotion, Seq<Seq<u8>>)>, t: Seq<u8>) -> Emotion {
    spec_best(table, spec_lower(t), table.len() as int).0
}

/// Keyword-driven emotion detector.
pub struct EmotionDetector {
    keywords: Vec<(Emotion, Vec<Vec<u8>>)>,
}

impl EmotionDetector {
    /// The keyword table: emotions with their keywords, in scan order.
    pub closed spec fn table(self) -> Seq<(Emotion, Seq<Seq<u8>>)> {
        Seq::new(
            self.keywords@.len(),
            |i: int|
                (
                    self.keywords@[i].0,
                    Seq::new(
                        self.keywords@[i].1@.len(),
                        |j: int| self.keywords@[i].1@[j]@,
                    ),
                ),
        )
    }

    /// Create a new emotion detector with its fixed keyword table.
    pub fn new() -> (r: EmotionDetector)
        ensures
            r.table() =~~= seq![
                (
                    Emotion::Happy,
                    seq![
                        ("happy").spec_bytes(),
                        ("great").spec_bytes(),
                        ("awesome").spec_bytes(),
                        ("excellent").spec_bytes(),
                        ("wonderful").spec_bytes(),
                        ("good").spec_bytes(),
                        ("nice").spec_bytes(),
                        ("love").spec_bytes(),
                        ("perfect").spec_bytes(),
                    ],
                ),
                (
                    Emotion::Sad,
                    seq![
                        ("sad").spec_bytes(),
                        ("unhappy").spec_bytes(),
                        ("disappointed").spec_bytes(),
                        ("bad").spec_bytes(),
                        ("terrible").spec_bytes(),
                        ("awful").spec_bytes(),
                        ("depressed").spec_bytes(),
                    ],
                ),
                (
                    Emotion::Angry,
                    seq![
                        ("angry").spec_bytes(),
                        ("frustrated").spec_bytes(),
                        ("frustrating").spec_bytes(),
                        ("annoyed").spec_bytes(),
                        ("mad").spec_bytes(),
                        ("furious").spec_bytes(),
                    ],
                ),
                (
                    Emotion::Excited,
                    seq![
                        ("excited").spec_bytes(),
                        ("amazing").spec_bytes(),
                        ("wow").spec_bytes(),
                        ("incredible").spec_bytes(),
                        ("fantastic").spec_bytes(),
                    ],
                ),
                (
                    Emotion::Confused,
                    seq![
                        ("confused").spec_bytes(),
                        ("don't understand").spec_bytes(),
                        ("what").spec_bytes(),
                        ("unclear").spec_bytes(),
                        ("puzzled").spec_bytes(),
                    ],
                ),
                (
                    Emotion::Grateful,
                    seq![
                        ("thank").spec_bytes(),
                        ("thanks").spec_bytes(),
                        ("grateful").spec_bytes(),
                        ("appreciate").spec_bytes(),
                    ],
                ),
                (
                    Emotion::Frustrated,
                    seq![
                        ("frustrated").spec_bytes(),
                        ("stuck").spec_bytes(),
                        ("can't").spec_bytes(),
                        ("won't work").spec_bytes(),
                    ],
                ),
            ],
    {
        let mut keywords: Vec<(Emotion, Vec<Vec<u8>>)> = Vec::new();

        let mut happy: Vec<Vec<u8>> = Vec::new();
        happy.push(slice_to_vec("happy".as_bytes()));
        happy.push(slice_to_vec("great".as_bytes()));
        happy.push(slice_to_vec("awesome".as_bytes()));
        happy.push(slice_to_vec("excellent".as_bytes()));
        happy.push(slice_to_vec("wonderful".as_bytes()));
        happy.push(slice_to_vec("good".as_bytes()));
        happy.push(slice_to_vec("nice".as_bytes()));
        happy.push(slice_to_vec("love".as_bytes()));
        happy.push(slice_to_vec("perfect".as_bytes()));
        keywords.push((Emotion::Happy, happy));

        let mut sad: Vec<Vec<u8>> = Vec::new();
        sad.push(slice_to_vec("sad".as_bytes()));
        sad.push(slice_to_vec("unhappy".as_bytes()));
        sad.push(slice_to_vec("disappointed".as_bytes()));
        sad.push(slice_to_vec("bad".as_bytes()));
        sad.push(slice_to_vec("terrible".as_bytes()));
        sad.push(slice_to_vec("awful".as_bytes()));
        sad.push(slice_to_vec("depressed".as_bytes()));
        keywords.push((Emotion::Sad, sad));

        let mut angry: Vec<Vec<u8>> = Vec::new();
        angry.push(slice_to_vec("angry".as_bytes()));
        angry.push(slice_to_vec("frustrated".as_bytes()));
        angry.push(slice_to_vec("frustrating".as_bytes()));
        angry.push(slice_to_vec("annoyed".as_bytes()));
        angry.push(slice_to_vec("mad".as_bytes()));
        angry.push(slice_to_vec("furious".as_bytes()));
        keywords.push((Emotion::Angry, angry));

        let mut excited: Vec<Vec<u8>> = Vec::new();
        excited.push(slice_to_vec("excited".as_bytes()));
        excited.push(slice_to_vec("amazing".as_bytes()));
        excited.push(slice_to_vec("wow".as_bytes()));
        excited.push(slice_to_vec("incredible".as_bytes()));
        excited.push(slice_to_vec("fantastic".as_bytes()));
        keywords.push((Emotion::Excited, excited));

        let mut confused: Vec<Vec<u8>> = Vec::new();
        confused.push(slice_to_vec("confused".as_bytes()));
        confused.push(slice_to_vec("don't understand".as_bytes()));
        confused.push(slice_to_vec("what".as_bytes()));
        confused.push(slice_to_vec("unclear".as_bytes()));
        confused.push(slice_to_vec("puzzled".as_bytes()));
        keywords.push((Emotion::Confused, confused));

        let mut grateful: Vec<Vec<u8>> = Vec::new();
        grateful.push(slice_to_vec("thank".as_bytes()));
        grateful.push(slice_to_vec("thanks".as_bytes()));
        grateful.push(slice_to_vec("grateful".as_bytes()));
        grateful.push(slice_to_vec("appreciate".as_bytes()));
        keywords.push((Emotion::Grateful, grateful));

        let mut frustrated: Vec<Vec<u8>> = Vec::new();
        frustrated.push(slice_to_vec("frustrated".as_bytes()));
        frustrated.push(slice_to_vec("stuck".as_bytes()));
        frustrated.push(slice_to_vec("can't".as_bytes()));
        frustrated.push(slice_to_vec("won't work".as_bytes()));
        keywords.push((Emotion::Frustrated, frustrated));

        EmotionDetector { keywords }
    }

    /// Detect the emotion of a request together with its keyword score:
    /// the first emotion of the table with the strictly highest number of
    /// matching keywords, neutral at score zero when nothing matches.
    pub fn detect_scored(&self, text: &str) -> (r: (Emotion, usize))
        ensures
            (r.0, r.1 as int) == spec_best(
                self.table(),
                spec_lower(text.spec_bytes()),
                self.table().len() as int,
            ),
    {
        let lower = lower_bytes(text.as_bytes());
        let l = lower.as_slice();
        let mut best_e = Emotion::Neutral;
        let mut best_s: usize = 0;
        let mut i: usize = 0;
        while i < self.keywords.len()
            invariant
                i <= self.keywords@.len(),
                l@ == spec_lower(text.spec_bytes()),
                (best_e, best_s as int) == spec_best(self.table(), l@, i as int),
            decreases self.keywords@.len() - i,
        {
            let row = &self.keywords[i].1;
            let mut s: usize = 0;
            let mut j: usize = 0;
            proof {
                assert(self.table()[i as int].1 =~= Seq::new(
                    self.keywords@[i as int].1@.len(),
                    |j: int| self.keywords@[i as int].1@[j]@,
                ));
            }
            while j < row.len()
                invariant
                    j <= row@.len(),
                    row@ == self.keywords@[i as int].1@,
                    i < self.keywords@.len(),
                    s <= j,
                    s as int == spec_score(
                        l@,
                        Seq::new(row@.len(), |t: int| row@[t]@).subrange(0, j as int),
                    ),
                decreases row@.len() - j,
            {
                let ghost rowv = Seq::new(row@.len(), |t: int| row@[t]@);
                if contains_sub(l, row[j].as_slice()) {
                    s = s + 1;
                }
                proof {
                    assert(rowv.subrange(0, j + 1).drop_last() =~= rowv.subrange(0, j as int));
                    assert(rowv.subrange(0, j + 1).last() == rowv[j as int]);
                    assert(rowv[j as int] == row@[j as int]@);
                }
                j = j + 1;
            }
            proof {
                let rowv = Seq::new(row@.len(), |t: int| row@[t]@);
                assert(rowv.subrange(0, rowv.len() as int) =~= rowv);
                assert(self.table()[i as int].1 =~= rowv);
                assert(spec_score(l@, self.table()[i as int].1) == s as int);
                assert(self.table()[i as int].0 == self.keywords@[i as int].0);
            }
            if s > best_s {
                best_e = self.keywords[i].0;
                best_s = s;
            }
            proof {
                assert((best_e, best_s as int) == spec_best(self.table(), l@, i + 1));
            }
            i = i + 1;
        }
        proof {
            assert(self.table().len() == self.keywords@.len());
        }
        (best_e, best_s)
    }

    /// Detect the emotion of a request.
    pub fn detect(&self, text: &str) -> (r: Emotion)
        ensures
            r == spec_detect(self.table(), text.spec_bytes()),
    {
        let (e, _) = self.detect_scored(text);
        e
    }
}

impl Default for EmotionDetector {
    fn default() -> (r: EmotionDetector)
        ensures
            r.table().len() == 7,
    {
        EmotionDetector::new()
    }
}

} // verus!
