//! Reading a test program's verdict from what it printed over the serial port.

use vstd::prelude::*;

use crate::emulator::EmuState;

verus! {

/// What a test program reported.
#[derive(Clone, Copy, PartialEq, Eq, Structural, Debug)]
pub enum Verdict {
    Passed,
    Failed,
}

/// Whether `word` occurs in `text` starting at `i`.
pub open spec fn occurs_at(text: Seq<u8>, word: Seq<u8>, i: int) -> bool {
    &&& 0 <= i
    &&& i + word.len() <= text.len()
    &&& text.subrange(i, i + word.len()) == word
}

/// Whether `word` occurs somewhere in `text`.
pub open spec fn contains(text: Seq<u8>, word: Seq<u8>) -> bool {
    exists|i: int| occurs_at(text, word, i)
}

/// The bytes of "Passed".
pub open spec fn passed_word() -> Seq<u8> {
    seq![80u8, 97, 115, 115, 101, 100]
}

/// The bytes of "Failed".
pub open spec fn failed_word() -> Seq<u8> {
    seq![70u8, 97, 105, 108, 101, 100]
}

/// The verdict in a serial output: "Passed" anywhere wins, then "Failed".
pub open spec fn verdict_of(out: Seq<u8>) -> Option<Verdict> {
    if contains(out, passed_word()) {
        Some(Verdict::Passed)
    } else if contains(out, failed_word()) {
        Some(Verdict::Failed)
    } else {
        None
    }
}

/// Whether `word` occurs in `text` at `i`.
fn matches_at(text: &[u8], word: &[u8], i: usize) -> (r: bool)
    requires
        i + word@.len() <= text@.len(),
    ensures
        r == occurs_at(text@, word@, i as int),
{
    let mut j: usize = 0;
    while j < word.len()
        invariant
            i + word.len() <= text.len(),
            j <= word.len(),
            forall|k: int| 0 <= k < j ==> text@[i + k] == word@[k],
        decreases word@.len() - j,
    {
        if text[i + j] != word[j] {
            assert(text@.subrange(i as int, i + word@.len())[j as int] != word@[j as int]);
            return false;
        }
        j = j + 1;
    }
    assert(text@.subrange(i as int, i + word@.len()) =~= word@);
    true
}

/// Whether `word` occurs in `text`.
fn contains_word(text: &[u8], word: &[u8]) -> (r: bool)
    ensures
        r == contains(text@, word@),
{
    if word.len() > text.len() {
        return false;
    }
    let last = text.len() - word.len();
    let mut i: usize = 0;
    loop
        invariant_except_break
            i <= last,
            forall|k: int| 0 <= k < i ==> !occurs_at(text@, word@, k),
        invariant
            last + word@.len() == text@.len(),
        ensures
            forall|k: int| 0 <= k <= last ==> !occurs_at(text@, word@, k),
        decreases last - i,
    {
        if matches_at(text, word, i) {
            return true;
        }
        if i == last {
            break;
        }
        i = i + 1;
    }
    false
}

/// The verdict in a serial output.
pub fn verdict(out: &[u8]) -> (v: Option<Verdict>)
    ensures
        v == verdict_of(out@),
{
    let passed: [u8; 6] = [80, 97, 115, 115, 101, 100];
    let failed: [u8; 6] = [70, 97, 105, 108, 101, 100];
    assert(passed@ =~= passed_word());
    assert(failed@ =~= failed_word());
    if contains_word(out, &passed) {
        Some(Verdict::Passed)
    } else if contains_word(out, &failed) {
        Some(Verdict::Failed)
    } else {
        None
    }
}

/// Runs up to `limit` frames from `s` and stops early once the serial port has
/// received "Passed" or "Failed": the machine at that point, with the verdict found.
pub open spec fn run_frames(s: EmuState, limit: nat) -> (EmuState, Option<Verdict>)
    decreases limit,
{
    if limit == 0 {
        (s, None)
    } else {
        let s1 = s.run_frame_spec();
        match verdict_of(s1.bus.serial) {
            Some(v) => (s1, Some(v)),
            None => run_frames(s1, (limit - 1) as nat),
        }
    }
}

/// Whether every frame that `run_frames(s, limit)` runs completes.
pub open spec fn frames_complete(s: EmuState, limit: nat) -> bool
    decreases limit,
{
    limit == 0 || (s.completes_frame() && (verdict_of(s.run_frame_spec().bus.serial) is Some
        || frames_complete(s.run_frame_spec(), (limit - 1) as nat)))
}

} // verus!
