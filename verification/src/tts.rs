//! Speech synthesis bookkeeping: which voice speaks for whom, and how a phoneme
//! string becomes the id sequence a Piper voice model reads.

use vstd::prelude::*;
use std::collections::HashMap;
use std::collections::VecDeque;
use crate::text::chars_vec;

verus! {

broadcast use vstd::std_specs::hash::group_hash_axioms;

/// The ids a voice's phoneme table gives for the one-character key `c` (none when absent).
/// The table is keyed by the code point of each one-character phoneme.
pub open spec fn entry(m: Map<u32, Vec<i64>>, c: char) -> Seq<i64> {
    if m.contains_key(c as u32) {
        m[c as u32]@
    } else {
        Seq::empty()
    }
}

/// Ids of the phonemes of `s` that the table knows, each followed by the pad token.
pub open spec fn body_ids(m: Map<u32, Vec<i64>>, s: Seq<char>) -> Seq<i64>
    decreases s.len(),
{
    if s.len() == 0 {
        Seq::empty()
    } else if m.contains_key(s.last() as u32) {
        body_ids(m, s.drop_last()) + entry(m, s.last()) + entry(m, '_')
    } else {
        body_ids(m, s.drop_last())
    }
}

/// The Piper input for a phoneme string: BOS ('^'), pad ('_'), the known phonemes
/// each followed by pad, and EOS ('$'); unknown characters are skipped.
pub open spec fn phoneme_ids(m: Map<u32, Vec<i64>>, s: Seq<char>) -> Seq<i64> {
    entry(m, '^') + entry(m, '_') + body_ids(m, s) + entry(m, '$')
}

fn push_all(ids: &mut Vec<i64>, more: &Vec<i64>)
    ensures
        final(ids)@ == old(ids)@ + more@,
{
    let mut i: usize = 0;
    while i < more.len()
        invariant
            i <= more.len(),
            ids@ == old(ids)@ + more@.take(i as int),
        decreases more.len() - i,
    {
        ids.push(more[i]);
        i = i + 1;
        proof {
            assert(more@.take(i as int) =~= more@.take(i - 1).push(more@[i - 1]));
        }
    }
    proof {
        assert(more@.take(more.len() as int) =~= more@);
    }
}

fn push_entry(ids: &mut Vec<i64>, map: &HashMap<u32, Vec<i64>>, c: char) -> (found: bool)
    ensures
        final(ids)@ == old(ids)@ + entry(map@, c),
        found == map@.contains_key(c as u32),
{
    let key = c as u32;
    match map.get(&key) {
        Some(v) => {
            push_all(ids, v);
            true
        },
        None => false,
    }
}

/// Convert an IPA phoneme string to a Piper phoneme id sequence, given the voice's
/// table keyed by the code point of each one-character phoneme. Inserts pad tokens
/// between phonemes and wraps with BOS/EOS.
pub fn phonemes_to_ids(phonemes: &str, map: &HashMap<u32, Vec<i64>>) -> (r: Vec<i64>)
    ensures
        r@ == phoneme_ids(map@, phonemes@),
{
    let mut ids: Vec<i64> = Vec::new();
    push_entry(&mut ids, map, '^');
    push_entry(&mut ids, map, '_');
    let ghost head = ids@;
    let chars = chars_vec(phonemes);
    let mut i: usize = 0;
    while i < chars.len()
        invariant
            chars@ == phonemes@,
            i <= chars.len(),
            head == entry(map@, '^') + entry(map@, '_'),
            ids@ == head + body_ids(map@, phonemes@.take(i as int)),
        decreases chars.len() - i,
    {
        let ch = chars[i];
        proof {
            assert(phonemes@.take(i + 1).drop_last() =~= phonemes@.take(i as int));
            assert(phonemes@.take(i + 1).last() == ch);
        }
        if push_entry(&mut ids, map, ch) {
            push_entry(&mut ids, map, '_');
        }
        i = i + 1;
    }
    proof {
        assert(phonemes@.take(chars.len() as int) =~= phonemes@);
    }
    push_entry(&mut ids, map, '$');
    ids
}


/// Voice assignment for a speaker: which voice, and how fast it speaks
/// (speed factor in thousandths).
#[derive(Clone, Copy, Debug, PartialEq, Eq, Structural)]
pub struct VoiceAssignment {
    pub voice_index: usize,
    pub speed_milli: u32,
}

/// Whether a voice id has a voice: pilots 0-6, controllers 100-106, ambient 200-201.
pub open spec fn is_assigned(id: u8) -> bool {
    id <= 6 || (100 <= id && id <= 106) || id == 200 || id == 201
}

/// The voice of an assigned id, given `n` loaded voices: pilots take voice
/// `id % n` at 1.290 + 0.028 per pilot; NorCal (100) voice 0 at 1.290; SFO Tower (101)
/// voice 1 at 1.230; other controllers voice `(id - 100) % n` at 1.230 + 0.022 per
/// step from 102; ambient 200 voice 0 and ambient 201 voice 2 (or the last), both 1.340.
pub open spec fn assignment(id: u8, n: usize) -> VoiceAssignment {
    if id <= 6 {
        VoiceAssignment { voice_index: (id as int % n as int) as usize, speed_milli: (1290 + 28 * id) as u32 }
    } else if id == 100 {
        VoiceAssignment { voice_index: (0int % n as int) as usize, speed_milli: 1290 }
    } else if id == 101 {
        VoiceAssignment { voice_index: (1int % n as int) as usize, speed_milli: 1230 }
    } else if 102 <= id && id <= 106 {
        VoiceAssignment {
            voice_index: ((id - 100) % n as int) as usize,
            speed_milli: (1230 + 22 * (id - 102)) as u32,
        }
    } else if id == 200 {
        VoiceAssignment { voice_index: (0int % n as int) as usize, speed_milli: 1340 }
    } else {
        VoiceAssignment {
            voice_index: if 2 <= n - 1 { 2 } else { (n - 1) as usize },
            speed_milli: 1340,
        }
    }
}

/// Voice assignments for every speaker id, given the number of loaded voices.
pub fn build_assignments(num_voices: usize) -> (m: HashMap<u8, VoiceAssignment>)
    requires
        num_voices > 0,
    ensures
        forall|id: u8| #[trigger] m@.contains_key(id) <==> is_assigned(id),
        forall|id: u8| is_assigned(id) ==> #[trigger] m@[id] == assignment(id, num_voices),
{
    let mut m: HashMap<u8, VoiceAssignment> = HashMap::new();
    let mut i: u8 = 0;
    while i < 7
        invariant
            num_voices > 0,
            i <= 7,
            forall|id: u8| #[trigger] m@.contains_key(id) <==> id < i,
            forall|id: u8| id < i ==> #[trigger] m@[id] == assignment(id, num_voices),
        decreases 7 - i,
    {
        m.insert(
            i,
            VoiceAssignment { voice_index: (i as usize) % num_voices, speed_milli: 1290 + 28 * i as u32 },
        );
        i = i + 1;
    }
    m.insert(100, VoiceAssignment { voice_index: 0 % num_voices, speed_milli: 1290 });
    m.insert(101, VoiceAssignment { voice_index: 1 % num_voices, speed_milli: 1230 });
    let mut j: u8 = 102;
    while j <= 106
        invariant
            num_voices > 0,
            102 <= j <= 107,
            forall|id: u8| #[trigger] m@.contains_key(id) <==> (id <= 6 || (100 <= id && id < j)),
            forall|id: u8|
                (id <= 6 || (100 <= id && id < j)) ==> #[trigger] m@[id] == assignment(id, num_voices),
        decreases 107 - j,
    {
        m.insert(
            j,
            VoiceAssignment {
                voice_index: ((j - 100) as usize) % num_voices,
                speed_milli: 1230 + 22 * (j - 102) as u32,
            },
        );
        j = j + 1;
    }
    m.insert(200, VoiceAssignment { voice_index: 0 % num_voices, speed_milli: 1340 });
    let last = if 2 <= num_voices - 1 { 2 } else { num_voices - 1 };
    m.insert(201, VoiceAssignment { voice_index: last, speed_milli: 1340 });
    m
}

/// The voice and speed that messages with voice id `voice_id` are spoken with; None
/// for an id without a voice, whose messages are not spoken.
pub fn assignment_for(assignments: &HashMap<u8, VoiceAssignment>, voice_id: u8) -> (r: Option<
    VoiceAssignment,
>)
    ensures
        r.is_some() == assignments@.contains_key(voice_id),
        r.is_some() ==> r.unwrap() == assignments@[voice_id],
{
    match assignments.get(&voice_id) {
        Some(a) => Some(*a),
        None => None,
    }
}

/// The voice a synthesis request is spoken with: the one asked for, or the last loaded
/// voice when it asks for one past the end.
pub fn clamp_voice(voice_index: usize, num_voices: usize) -> (r: usize)
    requires
        num_voices > 0,
    ensures
        r == (if voice_index < num_voices { voice_index } else { (num_voices - 1) as usize }),
{
    let last = num_voices - 1;
    if voice_index < last {
        voice_index
    } else {
        last
    }
}

/// Clips waiting for playback beyond which the oldest are dropped.
pub const MAX_PENDING_CLIPS: usize = 5;

/// The last `m` elements of `s` (all of `s` when it is shorter).
pub open spec fn newest<T>(s: Seq<T>, m: nat) -> Seq<T> {
    if s.len() <= m {
        s
    } else {
        s.skip(s.len() - m)
    }
}

/// Queue a synthesized clip for playback: when the queue is backed up, the oldest
/// clips are dropped until `MAX_PENDING_CLIPS` remain, then the clip goes last.
pub fn queue_clip<T>(queue: &mut VecDeque<T>, clip: T)
    ensures
        final(queue)@ == newest(old(queue)@, MAX_PENDING_CLIPS as nat).push(clip),
        final(queue)@.len() <= MAX_PENDING_CLIPS + 1,
{
    while queue.len() > MAX_PENDING_CLIPS
        invariant
            newest(queue@, MAX_PENDING_CLIPS as nat) == newest(old(queue)@, MAX_PENDING_CLIPS as nat),
        decreases queue@.len(),
    {
        let ghost before = queue@;
        queue.pop_front();
        proof {
            assert(before.drop_first().skip(before.len() - 1 - MAX_PENDING_CLIPS) =~= before.skip(
                before.len() - MAX_PENDING_CLIPS,
            ));
        }
    }
    queue.push_back(clip);
}

} // verus!
