//! A whole speak request as one mathematical object, and what holds of it.
//!
//! [`run`] is the request carried out against a synthesizer whose answers
//! are fixed in advance, one per segment. The turns of the speech manager
//! compute it step by step; the lemmas below state what it guarantees.

use vstd::prelude::*;
use crate::message_system::{derive_key, CacheKeyView, MessagePartView, PersonalitySettingsView};
use crate::text::is_blank;
use crate::tts::{
    begin, current_key, failed, gathered, lemma_cache_after_store, scan, settle, skipped,
    SessionView, SynthesisErrorView, TTSManagerView,
};

verus! {

/// What the synthesizer would answer for each segment of a message, by the
/// segment's place.
pub type Answers = Seq<Result<Seq<u8>, SynthesisErrorView>>;

/// The request carried through from the session's current segment to the
/// end: blank segments are skipped, cached ones are gathered from the cache,
/// and every other one is synthesized, with the answer that `answers` holds
/// for its place.
pub open spec fn run(m: TTSManagerView, s: SessionView, answers: Answers) -> (
    TTSManagerView,
    SessionView,
)
    decreases s.parts.len() - s.position,
{
    if s.position >= s.parts.len() {
        (m, SessionView { awaiting: false, ..s })
    } else if is_blank(s.parts[s.position as int].text()) {
        run(m, skipped(s), answers)
    } else if m.cache().contains_key(current_key(s)) {
        run(m, gathered(s, m.cache()[current_key(s)]), answers)
    } else {
        let (m1, s1) = settle(m, s, answers[s.position as int]);
        run(m1, s1, answers)
    }
}

/// The key of the segment at place `i` of a session's message.
pub open spec fn key_at(s: SessionView, i: int) -> CacheKeyView {
    derive_key(s.parts[i], s.settings)
}

/// Whether the segment at place `i` needs no synthesis under the cache of
/// `m`: it is blank or its key is cached.
pub open spec fn served(m: TTSManagerView, s: SessionView, i: int) -> bool {
    is_blank(s.parts[i].text()) || m.cache().contains_key(key_at(s, i))
}

/// The turns of the manager compute [`run`]: where scanning ends in a
/// request for synthesis, settling the answer for that segment and running
/// on gives the same as running from the start; where it ends otherwise,
/// the request is complete and the cache untouched.
pub proof fn lemma_turns_compute_run(m: TTSManagerView, s: SessionView, answers: Answers)
    ensures
        ({
            let (waiting, action) = scan(m, s);
            if action is Synthesize {
                run(m, s, answers) == run(
                    settle(m, waiting, answers[waiting.position as int]).0,
                    settle(m, waiting, answers[waiting.position as int]).1,
                    answers,
                )
            } else {
                run(m, s, answers) == (m, waiting)
            }
        }),
    decreases s.parts.len() - s.position,
{
    if s.position >= s.parts.len() {
    } else if is_blank(s.parts[s.position as int].text()) {
        lemma_turns_compute_run(m, skipped(s), answers);
    } else if m.cache().contains_key(current_key(s)) {
        lemma_turns_compute_run(m, gathered(s, m.cache()[current_key(s)]), answers);
    } else {
        let waiting = SessionView { awaiting: true, ..s };
        assert(settle(m, waiting, answers[s.position as int]) == settle(
            m,
            s,
            answers[s.position as int],
        ));
    }
}

/// A request only ever adds: the message and the settings stay, the playback
/// settings stay, clips and failures gathered before stay in place, and every
/// cached key keeps its clip.
pub proof fn lemma_run_only_adds(m: TTSManagerView, s: SessionView, answers: Answers)
    ensures
        ({
            let (m2, s2) = run(m, s, answers);
            &&& s2.parts == s.parts
            &&& s2.settings == s.settings
            &&& !s2.awaiting
            &&& s2.position >= s.position
            &&& m2.voice_type == m.voice_type
            &&& m2.volume == m.volume
            &&& m2.speech_rate == m.speech_rate
            &&& m2.audio_enabled == m.audio_enabled
            &&& m2.available == m.available
            &&& s2.clips.len() >= s.clips.len()
            &&& s2.failures.len() >= s.failures.len()
            &&& forall|j: int| 0 <= j < s.clips.len() ==> s2.clips[j] == s.clips[j]
            &&& forall|j: int| 0 <= j < s.failures.len() ==> s2.failures[j] == s.failures[j]
            &&& forall|k: CacheKeyView| #[trigger]
                m.cache().contains_key(k) ==> m2.cache().contains_key(k) && m2.cache()[k]
                    == m.cache()[k]
        }),
    decreases s.parts.len() - s.position,
{
    if s.position >= s.parts.len() {
    } else if is_blank(s.parts[s.position as int].text()) {
        assert(run(m, s, answers) == run(m, skipped(s), answers));
        lemma_run_only_adds(m, skipped(s), answers);
    } else if m.cache().contains_key(current_key(s)) {
        let s1 = gathered(s, m.cache()[current_key(s)]);
        assert(run(m, s, answers) == run(m, s1, answers));
        lemma_run_only_adds(m, s1, answers);
        let s2 = run(m, s, answers).1;
        assert forall|j: int| 0 <= j < s.clips.len() implies s2.clips[j] == s.clips[j] by {
            assert(s1.clips[j] == s.clips[j]);
        }
    } else {
        let (m1, s1) = settle(m, s, answers[s.position as int]);
        assert(run(m, s, answers) == run(m1, s1, answers));
        lemma_run_only_adds(m1, s1, answers);
        let (m2, s2) = run(m, s, answers);
        match answers[s.position as int] {
            Ok(bytes) => {
                lemma_cache_after_store(m.log, current_key(s), bytes);
                assert forall|j: int| 0 <= j < s.clips.len() implies s2.clips[j] == s.clips[j] by {
                    assert(s1.clips[j] == s.clips[j]);
                }
                assert forall|k: CacheKeyView| #[trigger]
                    m.cache().contains_key(k) implies m2.cache().contains_key(k) && m2.cache()[k]
                    == m.cache()[k] by {
                    assert(k != current_key(s));
                    assert(m1.cache().contains_key(k));
                }
            },
            Err(e) => {
                assert forall|j: int| 0 <= j < s.failures.len() implies s2.failures[j]
                    == s.failures[j] by {
                    assert(s1.failures[j] == s.failures[j]);
                }
            },
        }
    }
}

/// Where a request records no new failure, every segment from the current
/// one on is served by the cache it leaves behind.
pub proof fn lemma_run_without_failure_serves_all(
    m: TTSManagerView,
    s: SessionView,
    answers: Answers,
)
    requires
        run(m, s, answers).1.failures.len() == s.failures.len(),
    ensures
        forall|i: int|
            s.position <= i < s.parts.len() ==> #[trigger] served(run(m, s, answers).0, s, i),
    decreases s.parts.len() - s.position,
{
    let (m2, s2) = run(m, s, answers);
    if s.position >= s.parts.len() {
    } else {
        let p = s.position as int;
        if is_blank(s.parts[p].text()) {
            assert(run(m, s, answers) == run(m, skipped(s), answers));
            lemma_run_without_failure_serves_all(m, skipped(s), answers);
            assert forall|i: int| s.position <= i < s.parts.len() implies #[trigger] served(
                m2,
                s,
                i,
            ) by {
                if i > p {
                    assert(served(m2, skipped(s), i));
                }
            }
        } else if m.cache().contains_key(current_key(s)) {
            let s1 = gathered(s, m.cache()[current_key(s)]);
            assert(run(m, s, answers) == run(m, s1, answers));
            lemma_run_without_failure_serves_all(m, s1, answers);
            lemma_run_only_adds(m, s1, answers);
            assert forall|i: int| s.position <= i < s.parts.len() implies #[trigger] served(
                m2,
                s,
                i,
            ) by {
                if i > p {
                    assert(served(m2, s1, i));
                } else {
                    assert(m2.cache().contains_key(key_at(s, p)));
                }
            }
        } else {
            let (m1, s1) = settle(m, s, answers[p]);
            assert(run(m, s, answers) == run(m1, s1, answers));
            lemma_run_only_adds(m1, s1, answers);
            match answers[p] {
                Ok(bytes) => {
                    lemma_cache_after_store(m.log, current_key(s), bytes);
                    lemma_run_without_failure_serves_all(m1, s1, answers);
                    assert(m1.cache().contains_key(current_key(s)));
                    assert(m2.cache().contains_key(key_at(s, p)));
                    assert forall|i: int|
                        s.position <= i < s.parts.len() implies #[trigger] served(m2, s, i) by {
                        if i > p {
                            assert(served(m2, s1, i));
                        }
                    }
                },
                Err(e) => {
                    assert(s1.failures.len() == s.failures.len() + 1);
                },
            }
        }
    }
}

/// Where every segment from the current one on is served by the cache,
/// scanning asks for no synthesis.
pub proof fn lemma_served_needs_no_synthesis(m: TTSManagerView, s: SessionView)
    requires
        forall|i: int| s.position <= i < s.parts.len() ==> #[trigger] served(m, s, i),
    ensures
        !(scan(m, s).1 is Synthesize),
    decreases s.parts.len() - s.position,
{
    if s.position < s.parts.len() {
        let p = s.position as int;
        assert(served(m, s, p));
        let next = if is_blank(s.parts[p].text()) {
            skipped(s)
        } else {
            gathered(s, m.cache()[current_key(s)])
        };
        assert forall|i: int| next.position <= i < next.parts.len() implies #[trigger] served(
            m,
            next,
            i,
        ) by {
            assert(served(m, s, i));
        }
        lemma_served_needs_no_synthesis(m, next);
    }
}

/// Where a request records no new failure, scanning the same segments
/// again under the cache it leaves behind gathers the same clips.
pub proof fn lemma_replay_gathers_the_same(
    m: TTSManagerView,
    s: SessionView,
    answers: Answers,
    replay: SessionView,
)
    requires
        run(m, s, answers).1.failures.len() == s.failures.len(),
        replay.parts == s.parts,
        replay.settings == s.settings,
        replay.position == s.position,
        replay.clips == s.clips,
    ensures
        scan(run(m, s, answers).0, replay).0.clips == run(m, s, answers).1.clips,
    decreases s.parts.len() - s.position,
{
    let (m2, s2) = run(m, s, answers);
    if s.position >= s.parts.len() {
    } else {
        let p = s.position as int;
        assert(current_key(replay) == current_key(s));
        if is_blank(s.parts[p].text()) {
            assert(run(m, s, answers) == run(m, skipped(s), answers));
            lemma_replay_gathers_the_same(m, skipped(s), answers, skipped(replay));
        } else if m.cache().contains_key(current_key(s)) {
            let clip = m.cache()[current_key(s)];
            let s1 = gathered(s, clip);
            assert(run(m, s, answers) == run(m, s1, answers));
            lemma_run_only_adds(m, s1, answers);
            assert(m2.cache().contains_key(current_key(s)));
            lemma_replay_gathers_the_same(m, s1, answers, gathered(replay, clip));
        } else {
            let (m1, s1) = settle(m, s, answers[p]);
            assert(run(m, s, answers) == run(m1, s1, answers));
            lemma_run_only_adds(m1, s1, answers);
            match answers[p] {
                Ok(bytes) => {
                    lemma_cache_after_store(m.log, current_key(s), bytes);
                    assert(m1.cache().contains_key(current_key(s)));
                    assert(m2.cache().contains_key(current_key(s)));
                    lemma_replay_gathers_the_same(m1, s1, answers, gathered(replay, bytes));
                },
                Err(e) => {
                    assert(s1.failures.len() == s.failures.len() + 1);
                },
            }
        }
    }
}

/// Cache correctness. After a speak request in which no synthesis failed, a
/// second request with the same message and the same settings asks for no
/// synthesis at all: its very first turn is to play (or, with audio off, to
/// finish), and the clips it has gathered are those of the first request.
pub proof fn lemma_repeat_needs_no_synthesis(
    m: TTSManagerView,
    parts: Seq<MessagePartView>,
    settings: PersonalitySettingsView,
    answers: Answers,
)
    requires
        run(m, begin(parts, settings), answers).1.failures.len() == 0,
    ensures
        !(scan(run(m, begin(parts, settings), answers).0, begin(parts, settings)).1 is Synthesize),
        scan(run(m, begin(parts, settings), answers).0, begin(parts, settings)).0.clips == run(
            m,
            begin(parts, settings),
            answers,
        ).1.clips,
{
    let s = begin(parts, settings);
    let m2 = run(m, s, answers).0;
    lemma_run_without_failure_serves_all(m, s, answers);
    lemma_served_needs_no_synthesis(m2, s);
    lemma_replay_gathers_the_same(m, s, answers, s);
}

/// Partial-failure isolation. A segment that is not blank, and that is
/// cached beforehand or whose synthesis would succeed, ends up cached and
/// among the clips to play, whatever becomes of the other segments.
pub proof fn lemma_failure_is_isolated(
    m: TTSManagerView,
    s: SessionView,
    answers: Answers,
    i: int,
)
    requires
        s.position <= i < s.parts.len(),
        !is_blank(s.parts[i].text()),
        m.cache().contains_key(key_at(s, i)) || answers[i] is Ok,
    ensures
        ({
            let (m2, s2) = run(m, s, answers);
            &&& m2.cache().contains_key(key_at(s, i))
            &&& exists|j: int|
                s.clips.len() <= j < s2.clips.len() && s2.clips[j] == m2.cache()[key_at(s, i)]
        }),
    decreases s.parts.len() - s.position,
{
    let (m2, s2) = run(m, s, answers);
    let p = s.position as int;
    if is_blank(s.parts[p].text()) {
        assert(run(m, s, answers) == run(m, skipped(s), answers));
        lemma_failure_is_isolated(m, skipped(s), answers, i);
        let j = choose|j: int|
            s.clips.len() <= j < s2.clips.len() && s2.clips[j] == m2.cache()[key_at(skipped(s), i)];
        assert(s.clips.len() <= j < s2.clips.len() && s2.clips[j] == m2.cache()[key_at(s, i)]);
    } else if m.cache().contains_key(current_key(s)) {
        let clip = m.cache()[current_key(s)];
        let s1 = gathered(s, clip);
        assert(run(m, s, answers) == run(m, s1, answers));
        lemma_run_only_adds(m, s1, answers);
        if i == p {
            assert(s1.clips[s.clips.len() as int] == clip);
            assert(s2.clips[s.clips.len() as int] == s1.clips[s.clips.len() as int]);
            assert(m2.cache()[key_at(s, i)] == clip);
        } else {
            lemma_failure_is_isolated(m, s1, answers, i);
            let j = choose|j: int|
                s1.clips.len() <= j < s2.clips.len() && s2.clips[j] == m2.cache()[key_at(s1, i)];
            assert(s.clips.len() <= j < s2.clips.len() && s2.clips[j] == m2.cache()[key_at(s, i)]);
        }
    } else {
        let (m1, s1) = settle(m, s, answers[p]);
        assert(run(m, s, answers) == run(m1, s1, answers));
        lemma_run_only_adds(m1, s1, answers);
        match answers[p] {
            Ok(bytes) => {
                lemma_cache_after_store(m.log, current_key(s), bytes);
                assert(m1.cache().contains_key(current_key(s)));
                if i == p {
                    assert(s1.clips[s.clips.len() as int] == bytes);
                    assert(s2.clips[s.clips.len() as int] == s1.clips[s.clips.len() as int]);
                    assert(m1.cache()[current_key(s)] == bytes);
                    assert(m2.cache()[key_at(s, i)] == bytes);
                } else {
                    assert(m1.cache().contains_key(key_at(s, i)) || answers[i] is Ok);
                    lemma_failure_is_isolated(m1, s1, answers, i);
                    let j = choose|j: int|
                        s1.clips.len() <= j < s2.clips.len() && s2.clips[j] == m2.cache()[key_at(
                            s1,
                            i,
                        )];
                    assert(s.clips.len() <= j < s2.clips.len() && s2.clips[j]
                        == m2.cache()[key_at(s, i)]);
                }
            },
            Err(e) => {
                lemma_failure_is_isolated(m1, s1, answers, i);
                let j = choose|j: int|
                    s1.clips.len() <= j < s2.clips.len() && s2.clips[j] == m2.cache()[key_at(
                        s1,
                        i,
                    )];
                assert(s.clips.len() <= j < s2.clips.len() && s2.clips[j] == m2.cache()[key_at(
                    s,
                    i,
                )]);
            },
        }
    }
}

/// A request caches nothing but what was synthesized with success: a key
/// that is not cached beforehand, and for which every segment that has it
/// fails, is not cached afterwards.
pub proof fn lemma_failed_key_stays_uncached(
    m: TTSManagerView,
    s: SessionView,
    answers: Answers,
    key: CacheKeyView,
)
    requires
        !m.cache().contains_key(key),
        forall|i: int|
            s.position <= i < s.parts.len() && !is_blank(s.parts[i].text()) && #[trigger] key_at(
                s,
                i,
            ) == key ==> answers[i] is Err,
    ensures
        !run(m, s, answers).0.cache().contains_key(key),
    decreases s.parts.len() - s.position,
{
    if s.position < s.parts.len() {
        let p = s.position as int;
        if is_blank(s.parts[p].text()) {
            let s1 = skipped(s);
            assert(run(m, s, answers) == run(m, s1, answers));
            assert forall|i: int|
                s1.position <= i < s1.parts.len() && !is_blank(s1.parts[i].text())
                    && #[trigger] key_at(s1, i) == key implies answers[i] is Err by {
                assert(key_at(s, i) == key);
            }
            lemma_failed_key_stays_uncached(m, s1, answers, key);
        } else if m.cache().contains_key(current_key(s)) {
            let s1 = gathered(s, m.cache()[current_key(s)]);
            assert(run(m, s, answers) == run(m, s1, answers));
            assert forall|i: int|
                s1.position <= i < s1.parts.len() && !is_blank(s1.parts[i].text())
                    && #[trigger] key_at(s1, i) == key implies answers[i] is Err by {
                assert(key_at(s, i) == key);
            }
            lemma_failed_key_stays_uncached(m, s1, answers, key);
        } else {
            let (m1, s1) = settle(m, s, answers[p]);
            assert(run(m, s, answers) == run(m1, s1, answers));
            assert forall|i: int|
                s1.position <= i < s1.parts.len() && !is_blank(s1.parts[i].text())
                    && #[trigger] key_at(s1, i) == key implies answers[i] is Err by {
                assert(key_at(s, i) == key);
            }
            match answers[p] {
                Ok(bytes) => {
                    lemma_cache_after_store(m.log, current_key(s), bytes);
                    if current_key(s) == key {
                        assert(key_at(s, p) == key);
                    }
                },
                Err(e) => {},
            }
            lemma_failed_key_stays_uncached(m1, s1, answers, key);
        }
    }
}

} // verus!
