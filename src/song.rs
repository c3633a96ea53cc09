//! Song data: notes and hazards in fixed-point beats, checked when a song is loaded.
use vstd::prelude::*;
use crate::lane::{Lane, lane_of_code};

verus! {

/// A note: its beat (microbeats), its lane, and how long it must be held (microbeats; 0 for a tap).
#[derive(Clone, Copy, Debug, PartialEq, Eq, Structural)]
pub struct Note {
    pub beat: i64,
    pub lane: Lane,
    pub hold: i64,
}

/// A hazard: its first beat, how many microbeats it lasts, and the lane it covers.
#[derive(Clone, Copy, Debug, PartialEq, Eq, Structural)]
pub struct Hazard {
    pub beat: i64,
    pub duration: i64,
    pub lane: Lane,
}

/// Every note has a hold length of at least zero.
pub open spec fn notes_wf(notes: Seq<Note>) -> bool {
    forall|i: int| 0 <= i < notes.len() ==> #[trigger] notes[i].hold >= 0
}

/// The notes are in beat order.
pub open spec fn by_beat(notes: Seq<Note>) -> bool {
    forall|j: int, k: int| 0 <= j < k < notes.len() ==> #[trigger] notes[j].beat <= #[trigger] notes[k].beat
}

/// The same notes, put in beat order.
pub fn sort_by_beat(notes: &Vec<Note>) -> (r: Vec<Note>)
    ensures
        by_beat(r@),
        r@.to_multiset() == notes@.to_multiset(),
        notes_wf(notes@) ==> notes_wf(r@),
{
    broadcast use vstd::seq_lib::group_to_multiset_ensures;
    let mut out: Vec<Note> = Vec::new();
    let mut i: usize = 0;
    while i < notes.len()
        invariant
            i <= notes@.len(),
            by_beat(out@),
            out@.to_multiset() == notes@.take(i as int).to_multiset(),
            notes_wf(notes@) ==> notes_wf(out@),
        decreases notes@.len() - i,
    {
        let n = notes[i];
        let mut p: usize = 0;
        while p < out.len() && out[p].beat <= n.beat
            invariant
                p <= out@.len(),
                forall|j: int| 0 <= j < p ==> #[trigger] out@[j].beat <= n.beat,
            decreases out@.len() - p,
        {
            p = p + 1;
        }
        let ghost before = out@;
        out.insert(p, n);
        proof {
            vstd::seq_lib::to_multiset_insert(before, p as int, n);
            vstd::seq_lib::to_multiset_build(notes@.take(i as int), n);
            assert(out@ == before.insert(p as int, n));
            assert(notes@.take(i + 1) =~= notes@.take(i as int).push(n));
            assert forall|j: int, k: int| 0 <= j < k < out@.len() implies #[trigger] out@[j].beat
                <= #[trigger] out@[k].beat by {
                if k < p {
                } else if k == p {
                    assert(out@[j] == before[j]);
                } else if j < p {
                    assert(out@[j] == before[j]);
                    assert(out@[k] == before[k - 1]);
                    if p < before.len() {
                        assert(before[p as int].beat > n.beat);
                    }
                } else if j == p {
                    assert(out@[k] == before[k - 1]);
                    assert(before[p as int].beat > n.beat);
                    assert(before[p as int].beat <= before[k - 1].beat);
                } else {
                    assert(out@[j] == before[j - 1]);
                    assert(out@[k] == before[k - 1]);
                }
            }
            if notes_wf(notes@) {
                assert forall|j: int| 0 <= j < out@.len() implies #[trigger] out@[j].hold >= 0 by {
                    if j < p {
                        assert(out@[j] == before[j]);
                    } else if j > p {
                        assert(out@[j] == before[j - 1]);
                    }
                }
            }
        }
        i = i + 1;
    }
    assert(notes@.take(i as int) =~= notes@);
    out
}

/// Why a song's data was refused; `index` is the position of the offending entry.
#[derive(Clone, Copy, Debug, PartialEq, Eq, Structural)]
pub enum SongError {
    UnknownLane { index: usize, code: i64 },
    NegativeLength { index: usize },
}

/// The note that a raw entry `(beat, lane code, hold length)` stands for, if it is valid.
pub open spec fn note_of(raw: (i64, i64, i64)) -> Option<Note> {
    match lane_of_code(raw.1 as int) {
        Some(lane) => if raw.2 >= 0 {
            Some(Note { beat: raw.0, lane, hold: raw.2 })
        } else {
            None
        },
        None => None,
    }
}

/// The hazard that a raw entry `(beat, duration, lane code)` stands for, if it is valid.
pub open spec fn hazard_of(raw: (i64, i64, i64)) -> Option<Hazard> {
    match lane_of_code(raw.2 as int) {
        Some(lane) => if raw.1 >= 0 {
            Some(Hazard { beat: raw.0, duration: raw.1, lane })
        } else {
            None
        },
        None => None,
    }
}

/// The error for an invalid note entry at `index`.
pub open spec fn note_error(raw: (i64, i64, i64), index: int) -> SongError {
    if lane_of_code(raw.1 as int).is_none() {
        SongError::UnknownLane { index: index as usize, code: raw.1 }
    } else {
        SongError::NegativeLength { index: index as usize }
    }
}

/// The error for an invalid hazard entry at `index`.
pub open spec fn hazard_error(raw: (i64, i64, i64), index: int) -> SongError {
    if lane_of_code(raw.2 as int).is_none() {
        SongError::UnknownLane { index: index as usize, code: raw.2 }
    } else {
        SongError::NegativeLength { index: index as usize }
    }
}

/// Reads note entries `(beat, lane code, hold length)`. Succeeds exactly when every entry
/// is valid, keeping their order; otherwise names the first invalid entry.
pub fn read_notes(raw: &Vec<(i64, i64, i64)>) -> (r: Result<Vec<Note>, SongError>)
    ensures
        r.is_ok() <==> forall|i: int| 0 <= i < raw@.len() ==> #[trigger] note_of(raw@[i]).is_some(),
        r matches Ok(v) ==> v@.len() == raw@.len() && notes_wf(v@) && forall|i: int|
            0 <= i < raw@.len() ==> Some(v@[i]) == #[trigger] note_of(raw@[i]),
        r matches Err(e) ==> exists|i: int|
            0 <= i < raw@.len() && #[trigger] note_of(raw@[i]).is_none() && e == note_error(raw@[i], i)
                && forall|j: int| 0 <= j < i ==> #[trigger] note_of(raw@[j]).is_some(),
{
    let mut out: Vec<Note> = Vec::new();
    let mut i: usize = 0;
    while i < raw.len()
        invariant
            i <= raw@.len(),
            out@.len() == i,
            forall|j: int| 0 <= j < i ==> Some(out@[j]) == #[trigger] note_of(raw@[j]),
            notes_wf(out@),
        decreases raw@.len() - i,
    {
        let (beat, code, hold) = raw[i];
        match Lane::from_code(code) {
            Some(lane) => {
                if hold < 0 {
                    assert(note_of(raw@[i as int]).is_none());
                    assert(note_error(raw@[i as int], i as int) == SongError::NegativeLength { index: i });
                    return Err(SongError::NegativeLength { index: i });
                }
                out.push(Note { beat, lane, hold });
            },
            None => {
                assert(note_of(raw@[i as int]).is_none());
                assert(note_error(raw@[i as int], i as int) == SongError::UnknownLane { index: i, code });
                return Err(SongError::UnknownLane { index: i, code });
            },
        }
        i = i + 1;
    }
    Ok(out)
}

/// Reads hazard entries `(beat, duration, lane code)`. Succeeds exactly when every entry
/// is valid, keeping their order; otherwise names the first invalid entry.
pub fn read_hazards(raw: &Vec<(i64, i64, i64)>) -> (r: Result<Vec<Hazard>, SongError>)
    ensures
        r.is_ok() <==> forall|i: int| 0 <= i < raw@.len() ==> #[trigger] hazard_of(raw@[i]).is_some(),
        r matches Ok(v) ==> v@.len() == raw@.len() && forall|i: int|
            0 <= i < raw@.len() ==> Some(v@[i]) == #[trigger] hazard_of(raw@[i]),
        r matches Err(e) ==> exists|i: int|
            0 <= i < raw@.len() && #[trigger] hazard_of(raw@[i]).is_none() && e == hazard_error(raw@[i], i)
                && forall|j: int| 0 <= j < i ==> #[trigger] hazard_of(raw@[j]).is_some(),
{
    let mut out: Vec<Hazard> = Vec::new();
    let mut i: usize = 0;
    while i < raw.len()
        invariant
            i <= raw@.len(),
            out@.len() == i,
            forall|j: int| 0 <= j < i ==> Some(out@[j]) == #[trigger] hazard_of(raw@[j]),
        decreases raw@.len() - i,
    {
        let (beat, duration, code) = raw[i];
        match Lane::from_code(code) {
            Some(lane) => {
                if duration < 0 {
                    assert(hazard_of(raw@[i as int]).is_none());
                    assert(hazard_error(raw@[i as int], i as int) == SongError::NegativeLength { index: i });
                    return Err(SongError::NegativeLength { index: i });
                }
                out.push(Hazard { beat, duration, lane });
            },
            None => {
                assert(hazard_of(raw@[i as int]).is_none());
                assert(hazard_error(raw@[i as int], i as int) == SongError::UnknownLane { index: i, code });
                return Err(SongError::UnknownLane { index: i, code });
            },
        }
        i = i + 1;
    }
    Ok(out)
}

/// A playable song: its audio file, length (microseconds), tempo (thousandths of a beat per
/// minute), credits, best score so far, notes in beat order, and hazards.
pub struct Song {
    pub song_filepath: String,
    pub song_length: u64,
    pub bpm: u64,
    pub credits: String,
    pub high_score: i128,
    pub notes: Vec<Note>,
    pub attacks: Vec<Hazard>,
}

impl Song {
    /// Builds a song from raw note and hazard entries, refusing it as `read_notes` and
    /// `read_hazards` do, notes first.
    pub fn load(
        song_filepath: String,
        song_length: u64,
        bpm: u64,
        credits: String,
        high_score: i128,
        raw_notes: &Vec<(i64, i64, i64)>,
        raw_attacks: &Vec<(i64, i64, i64)>,
    ) -> (r: Result<Song, SongError>)
        ensures
            r.is_ok() <==> (forall|i: int| 0 <= i < raw_notes@.len() ==> #[trigger] note_of(raw_notes@[i]).is_some())
                && (forall|i: int| 0 <= i < raw_attacks@.len() ==> #[trigger] hazard_of(raw_attacks@[i]).is_some()),
            r matches Ok(song) ==> {
                &&& song.song_filepath == song_filepath
                &&& song.song_length == song_length
                &&& song.bpm == bpm
                &&& song.credits == credits
                &&& song.high_score == high_score
                &&& notes_wf(song.notes@)
                &&& song.notes@.len() == raw_notes@.len()
                &&& song.attacks@.len() == raw_attacks@.len()
                &&& forall|i: int| 0 <= i < raw_notes@.len() ==> Some(song.notes@[i]) == #[trigger] note_of(raw_notes@[i])
                &&& forall|i: int| 0 <= i < raw_attacks@.len() ==> Some(song.attacks@[i]) == #[trigger] hazard_of(raw_attacks@[i])
            },
            r matches Err(e) ==> (exists|i: int|
                0 <= i < raw_notes@.len() && #[trigger] note_of(raw_notes@[i]).is_none() && e == note_error(raw_notes@[i], i)
                    && forall|j: int| 0 <= j < i ==> #[trigger] note_of(raw_notes@[j]).is_some()) || ((forall|i: int|
                0 <= i < raw_notes@.len() ==> #[trigger] note_of(raw_notes@[i]).is_some()) && exists|i: int|
                0 <= i < raw_attacks@.len() && #[trigger] hazard_of(raw_attacks@[i]).is_none() && e == hazard_error(raw_attacks@[i], i)
                    && forall|j: int| 0 <= j < i ==> #[trigger] hazard_of(raw_attacks@[j]).is_some()),
    {
        let notes = match read_notes(raw_notes) {
            Ok(v) => v,
            Err(e) => return Err(e),
        };
        let attacks = match read_hazards(raw_attacks) {
            Ok(v) => v,
            Err(e) => return Err(e),
        };
        Ok(Song { song_filepath, song_length, bpm, credits, high_score, notes, attacks })
    }

    /// Keeps `score` as the best score if it beats the one recorded.
    pub fn record_score(&mut self, score: i128)
        ensures
            final(self).high_score == if score > old(self).high_score { score } else { old(self).high_score },
            final(self).notes == old(self).notes,
            final(self).attacks == old(self).attacks,
            final(self).bpm == old(self).bpm,
            final(self).song_length == old(self).song_length,
    {
        if self.high_score < score {
            self.high_score = score;
        }
    }
}

} // verus!
