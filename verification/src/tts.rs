//! The speech manager: the in-memory clip cache, the playback settings and
//! the decisions of one speak request.
//!
//! The manager never performs synthesis or playback itself. A speak request
//! is a conversation: the manager names the next thing to do, the caller
//! does it and reports back.

use vstd::prelude::*;
use crate::ai_personality::{
    clamp_int, clamp_level, composed, draw, AIPersonality, Draws, FULL_SCALE, MAX_SPEECH_RATE,
    MIN_SPEECH_RATE,
};
use crate::encoding::{key_name, name_of_key};
use crate::message_system::{
    derive_key, parts_view, CacheKey, CacheKeyView, MessagePart, MessagePartView,
    PersonalitySettings, PersonalitySettingsView,
};
use crate::text::{
    append_str,
    copy_bytes,
    from_chars,
    is_blank,
    is_blank_text,
    to_chars,
};

verus! {

// ---------------------------------------------------------------------
// Errors
// ---------------------------------------------------------------------

/// Why a synthesis call produced no audio.
#[derive(Debug, Clone)]
pub enum SynthesisError {
    /// No provider credential is configured; no request was sent.
    MissingCredential,
    /// The connection failed or timed out.
    TransportFailure,
    /// The provider answered with a failure; its diagnostic text is kept.
    ProviderRejected(String),
    /// The received bytes are not audio.
    DecodeFailure,
}

/// Mathematical model of a [`SynthesisError`].
pub enum SynthesisErrorView {
    MissingCredential,
    TransportFailure,
    ProviderRejected(Seq<char>),
    DecodeFailure,
}

impl View for SynthesisError {
    type V = SynthesisErrorView;

    open spec fn view(&self) -> SynthesisErrorView {
        match *self {
            SynthesisError::MissingCredential => SynthesisErrorView::MissingCredential,
            SynthesisError::TransportFailure => SynthesisErrorView::TransportFailure,
            SynthesisError::ProviderRejected(t) => SynthesisErrorView::ProviderRejected(t@),
            SynthesisError::DecodeFailure => SynthesisErrorView::DecodeFailure,
        }
    }
}

impl SynthesisError {
    /// A short description of the failure.
    pub fn to_string(&self) -> (r: String)
        ensures
            r@ == (match self@ {
                SynthesisErrorView::MissingCredential => "no provider credential configured"@,
                SynthesisErrorView::TransportFailure => "transport failure"@,
                SynthesisErrorView::ProviderRejected(t) => "provider rejected the request: "@ + t,
                SynthesisErrorView::DecodeFailure => "response is not audio"@,
            }),
    {
        match self {
            SynthesisError::MissingCredential => String::from_str(
                "no provider credential configured",
            ),
            SynthesisError::TransportFailure => String::from_str("transport failure"),
            SynthesisError::ProviderRejected(t) => {
                let mut out = to_chars("provider rejected the request: ");
                append_str(&mut out, t.as_str());
                from_chars(&out)
            },
            SynthesisError::DecodeFailure => String::from_str("response is not audio"),
        }
    }
}

/// Why the pipeline as a whole cannot speak.
#[derive(Debug, Clone, Copy, PartialEq, Eq, Structural)]
pub enum PipelineError {
    /// No provider credential is configured.
    Configuration,
    /// The audio output device could not be opened.
    PlaybackDevice,
}

/// What came of one attempt to reach the provider.
#[derive(Debug, Clone)]
pub enum ProviderReply {
    /// No credential is configured, so no request was sent.
    NotAttempted,
    /// The request was sent and no answer came back.
    Unreachable,
    /// The provider answered: its status code, the bytes of the body, and
    /// the body read as diagnostic text.
    Answer { status: u16, body: Vec<u8>, diagnostic: String },
}

/// Whether a status code reports success: 200 to 299.
pub open spec fn is_success(status: u16) -> bool {
    200 <= status <= 299
}

/// What an attempt amounts to. Without a credential the credential is
/// missing; without an answer the transport failed; an answer that is not a
/// success is a rejection carrying the diagnostic; a successful answer whose
/// body the local decoder does not take for audio is a decode failure; any
/// other successful answer is its body.
pub open spec fn outcome_of(reply: ProviderReply, is_audio: bool) -> Result<Vec<u8>, SynthesisError> {
    match reply {
        ProviderReply::NotAttempted => Err(SynthesisError::MissingCredential),
        ProviderReply::Unreachable => Err(SynthesisError::TransportFailure),
        ProviderReply::Answer { status, body, diagnostic } => if !is_success(status) {
            Err(SynthesisError::ProviderRejected(diagnostic))
        } else if !is_audio {
            Err(SynthesisError::DecodeFailure)
        } else {
            Ok(body)
        },
    }
}

/// What a provider's answer amounts to by its status alone: the body where
/// the status is a success, else a rejection carrying the diagnostic.
pub fn interpret_response(status: u16, body: Vec<u8>, diagnostic: String) -> (r: Result<
    Vec<u8>,
    SynthesisError,
>)
    ensures
        is_success(status) ==> r == Ok::<Vec<u8>, SynthesisError>(body),
        !is_success(status) ==> r == Err::<Vec<u8>, SynthesisError>(
            SynthesisError::ProviderRejected(diagnostic),
        ),
{
    if 200 <= status && status <= 299 {
        Ok(body)
    } else {
        Err(SynthesisError::ProviderRejected(diagnostic))
    }
}

/// What an attempt amounts to; see [`outcome_of`]. `is_audio` says whether
/// the local decoder takes the body of the answer for audio.
pub fn synthesis_outcome(reply: ProviderReply, is_audio: bool) -> (r: Result<Vec<u8>, SynthesisError>)
    ensures
        r == outcome_of(reply, is_audio),
{
    match reply {
        ProviderReply::NotAttempted => Err(SynthesisError::MissingCredential),
        ProviderReply::Unreachable => Err(SynthesisError::TransportFailure),
        ProviderReply::Answer { status, body, diagnostic } => {
            match interpret_response(status, body, diagnostic) {
                Ok(audio) => {
                    if is_audio {
                        Ok(audio)
                    } else {
                        Err(SynthesisError::DecodeFailure)
                    }
                },
                Err(e) => Err(e),
            }
        },
    }
}

// ---------------------------------------------------------------------
// The clip cache
// ---------------------------------------------------------------------

/// A cached clip: the key it was stored under and its audio bytes.
#[derive(Debug, Clone)]
pub struct CachedClip {
    pub key: CacheKey,
    pub audio: Vec<u8>,
}

/// The model of a clip log: its entries as pairs of key and bytes, in their
/// order.
pub open spec fn log_view(log: Seq<CachedClip>) -> Seq<(CacheKeyView, Seq<u8>)> {
    Seq::new(log.len(), |i: int| (log[i].key@, log[i].audio@))
}

/// The cache that a log amounts to: each key maps to the clip of its entry
/// (of its last entry, should a key have more than one).
pub open spec fn cache_of(log: Seq<(CacheKeyView, Seq<u8>)>) -> Map<CacheKeyView, Seq<u8>>
    decreases log.len(),
{
    if log.len() == 0 {
        Map::<CacheKeyView, Seq<u8>>::empty()
    } else {
        cache_of(log.drop_last()).insert(log.last().0, log.last().1)
    }
}

/// The models of a sequence of clips, in order.
pub open spec fn clips_view(clips: Seq<Vec<u8>>) -> Seq<Seq<u8>> {
    Seq::new(clips.len(), |i: int| clips[i]@)
}

/// A clip written out by archiving: the file it goes to and its bytes.
#[derive(Debug, Clone)]
pub struct ArchivedClip {
    pub file_name: String,
    pub audio: Vec<u8>,
}

/// What archiving hands to the caller: one clip to write for every cached
/// key, in the order in which the keys were first stored, and the manifest of
/// archived key names in the same order.
#[derive(Debug, Clone)]
pub struct ArchiveBatch {
    pub clips: Vec<ArchivedClip>,
    pub manifest: Vec<String>,
}

/// The file that archiving writes for a key: its name with the extension
/// `.mp3`.
pub open spec fn archive_file_name(key: CacheKeyView) -> Seq<char> {
    key_name(key) + ".mp3"@
}

/// The speech manager.
pub struct TTSManager {
    log: Vec<CachedClip>,
    voice_type: String,
    volume: i32,
    speech_rate: i32,
    audio_enabled: bool,
    available: bool,
}

/// Mathematical model of a [`TTSManager`].
pub struct TTSManagerView {
    /// The cached clips, each with its key, in the order in which the keys
    /// were first stored.
    pub log: Seq<(CacheKeyView, Seq<u8>)>,
    pub voice_type: Seq<char>,
    pub volume: int,
    pub speech_rate: int,
    pub audio_enabled: bool,
    /// Whether the audio device is still believed to work.
    pub available: bool,
}

impl TTSManagerView {
    /// A manager at the start of a session: an empty cache, the voice
    /// `alloy`, full volume, normal speed, audio on, the device believed to
    /// work.
    pub open spec fn fresh() -> TTSManagerView {
        TTSManagerView {
            log: Seq::<(CacheKeyView, Seq<u8>)>::empty(),
            voice_type: "alloy"@,
            volume: 10_000,
            speech_rate: 10_000,
            audio_enabled: true,
            available: true,
        }
    }

    /// The cache: each key with the bytes stored under it last.
    pub open spec fn cache(self) -> Map<CacheKeyView, Seq<u8>> {
        cache_of(self.log)
    }

    /// The manager after storing `audio` under `key`; see [`log_with`].
    pub open spec fn stored(self, key: CacheKeyView, audio: Seq<u8>) -> TTSManagerView {
        TTSManagerView { log: log_with(self.log, key, audio), ..self }
    }
}

/// The place of the last entry under `key`, or `-1` where there is none.
pub open spec fn last_index_of(log: Seq<(CacheKeyView, Seq<u8>)>, key: CacheKeyView) -> int
    decreases log.len(),
{
    if log.len() == 0 {
        -1
    } else if log.last().0 == key {
        log.len() - 1
    } else {
        last_index_of(log.drop_last(), key)
    }
}

/// The log after a store: the clip under `key` is replaced where the key has
/// an entry, and a new entry is added at the end where it has none. Every
/// other entry keeps its place.
pub open spec fn log_with(
    log: Seq<(CacheKeyView, Seq<u8>)>,
    key: CacheKeyView,
    audio: Seq<u8>,
) -> Seq<(CacheKeyView, Seq<u8>)> {
    let at = last_index_of(log, key);
    if at >= 0 {
        log.update(at, (key, audio))
    } else {
        log.push((key, audio))
    }
}

/// Whether no key has two entries in the log.
pub open spec fn no_key_twice(log: Seq<(CacheKeyView, Seq<u8>)>) -> bool {
    forall|i: int, j: int| 0 <= i < j < log.len() ==> log[i].0 != log[j].0
}

/// [`last_index_of`] finds the last entry under the key, and finds one
/// exactly where the cache holds the key.
pub proof fn lemma_last_index_of(log: Seq<(CacheKeyView, Seq<u8>)>, key: CacheKeyView)
    ensures
        -1 <= last_index_of(log, key) < log.len(),
        last_index_of(log, key) >= 0 ==> log[last_index_of(log, key)].0 == key,
        forall|j: int| last_index_of(log, key) < j < log.len() ==> (#[trigger] log[j]).0 != key,
        (last_index_of(log, key) >= 0) == cache_of(log).contains_key(key),
    decreases log.len(),
{
    if log.len() > 0 {
        lemma_last_index_of(log.drop_last(), key);
        let at = last_index_of(log, key);
        assert forall|j: int| at < j < log.len() implies (#[trigger] log[j]).0 != key by {
            if j < log.len() - 1 {
                assert(log[j] == log.drop_last()[j]);
            }
        }
    }
}

/// Pushing onto a log inserts into its cache.
pub proof fn lemma_cache_of_push(log: Seq<(CacheKeyView, Seq<u8>)>, key: CacheKeyView, audio: Seq<u8>)
    ensures
        cache_of(log.push((key, audio))) == cache_of(log).insert(key, audio),
{
    assert(log.push((key, audio)).drop_last() =~= log);
}

/// A store inserts into the cache: afterwards the key maps to the stored
/// clip and every other key to what it mapped to before.
pub proof fn lemma_cache_after_store(
    log: Seq<(CacheKeyView, Seq<u8>)>,
    key: CacheKeyView,
    audio: Seq<u8>,
)
    ensures
        cache_of(log_with(log, key, audio)) == cache_of(log).insert(key, audio),
    decreases log.len(),
{
    lemma_last_index_of(log, key);
    let at = last_index_of(log, key);
    if at < 0 {
        lemma_cache_of_push(log, key, audio);
    } else {
        let init = log.drop_last();
        let new = log.update(at, (key, audio));
        if log.last().0 == key {
            assert(new.drop_last() =~= init);
            assert(cache_of(new) =~= cache_of(log).insert(key, audio));
        } else {
            lemma_cache_after_store(init, key, audio);
            assert(new.drop_last() =~= init.update(at, (key, audio)));
            assert(new.last() == log.last());
            assert(log_with(init, key, audio) == init.update(at, (key, audio)));
            assert(cache_of(new) =~= cache_of(log).insert(key, audio));
        }
    }
}

/// A store keeps a log free of keys with two entries.
pub proof fn lemma_store_keeps_keys_single(
    log: Seq<(CacheKeyView, Seq<u8>)>,
    key: CacheKeyView,
    audio: Seq<u8>,
)
    requires
        no_key_twice(log),
    ensures
        no_key_twice(log_with(log, key, audio)),
        log_with(log, key, audio).len() == log.len() + (if cache_of(log).contains_key(key) {
            0int
        } else {
            1int
        }),
{
    lemma_last_index_of(log, key);
    let at = last_index_of(log, key);
    let new = log_with(log, key, audio);
    assert forall|i: int, j: int| 0 <= i < j < new.len() implies new[i].0 != new[j].0 by {
        if at >= 0 {
            assert(new[i].0 == log[i].0 && new[j].0 == log[j].0);
        } else if j == log.len() {
            assert(new[i] == log[i]);
        }
    }
}

/// In a log where no key has two entries, the entries are the cache: every
/// entry's key is cached with that entry's clip, and every cached key has an
/// entry.
pub proof fn lemma_single_keys_are_the_cache(log: Seq<(CacheKeyView, Seq<u8>)>)
    requires
        no_key_twice(log),
    ensures
        forall|i: int|
            0 <= i < log.len() ==> cache_of(log).contains_key((#[trigger] log[i]).0) && cache_of(
                log,
            )[log[i].0] == log[i].1,
        forall|k: CacheKeyView| #[trigger]
            cache_of(log).contains_key(k) ==> exists|i: int| 0 <= i < log.len() && log[i].0 == k,
    decreases log.len(),
{
    if log.len() > 0 {
        let init = log.drop_last();
        assert forall|i: int, j: int| 0 <= i < j < init.len() implies init[i].0 != init[j].0 by {
            assert(init[i] == log[i] && init[j] == log[j]);
        }
        lemma_single_keys_are_the_cache(init);
        assert forall|i: int| 0 <= i < log.len() implies cache_of(log).contains_key(
            (#[trigger] log[i]).0,
        ) && cache_of(log)[log[i].0] == log[i].1 by {
            if i < log.len() - 1 {
                assert(log[i] == init[i]);
                assert(log[i].0 != log[log.len() - 1].0);
            }
        }
        assert forall|k: CacheKeyView| #[trigger] cache_of(log).contains_key(k) implies exists|
            i: int,
        | 0 <= i < log.len() && log[i].0 == k by {
            if k == log.last().0 {
                assert(log[log.len() - 1].0 == k);
            } else {
                assert(cache_of(init).contains_key(k));
                let i = choose|i: int| 0 <= i < init.len() && init[i].0 == k;
                assert(log[i] == init[i]);
            }
        }
    }
}

impl View for TTSManager {
    type V = TTSManagerView;

    closed spec fn view(&self) -> TTSManagerView {
        TTSManagerView {
            log: log_view(self.log@),
            voice_type: self.voice_type@,
            volume: self.volume as int,
            speech_rate: self.speech_rate as int,
            audio_enabled: self.audio_enabled,
            available: self.available,
        }
    }
}

impl TTSManager {
    #[verifier::type_invariant]
    spec fn keys_are_single(self) -> bool {
        no_key_twice(log_view(self.log@))
    }

    /// A manager with an empty cache, the voice `alloy`, full volume, normal
    /// speed and audio on; `None` where no provider credential is
    /// available.
    pub fn new(credential_available: bool) -> (r: Option<Self>)
        ensures
            r.is_some() == credential_available,
            r.is_some() ==> r.unwrap()@ == TTSManagerView::fresh(),
    {
        if !credential_available {
            return None;
        }
        let tts = TTSManager {
            log: Vec::new(),
            voice_type: String::from_str("alloy"),
            volume: FULL_SCALE,
            speech_rate: FULL_SCALE,
            audio_enabled: true,
            available: true,
        };
        assert(tts@.log =~= Seq::<(CacheKeyView, Seq<u8>)>::empty());
        Some(tts)
    }

    /// As [`TTSManager::new`], with the reason where there is no manager: a
    /// configuration error.
    pub fn try_new(credential_available: bool) -> (r: Result<Self, PipelineError>)
        ensures
            r.is_ok() == credential_available,
            r.is_ok() ==> r.unwrap()@ == TTSManagerView::fresh(),
            r.is_err() ==> r == Err::<Self, PipelineError>(PipelineError::Configuration),
    {
        match Self::new(credential_available) {
            Some(tts) => Ok(tts),
            None => Err(PipelineError::Configuration),
        }
    }

    /// The voice used for synthesis.
    pub fn voice_type(&self) -> (r: &str)
        ensures
            r@ == self@.voice_type,
    {
        self.voice_type.as_str()
    }

    /// The playback volume, in ten-thousandths.
    pub fn volume(&self) -> (r: i32)
        ensures
            r as int == self@.volume,
    {
        self.volume
    }

    /// The speech rate, in ten-thousandths of normal speed.
    pub fn speech_rate(&self) -> (r: i32)
        ensures
            r as int == self@.speech_rate,
    {
        self.speech_rate
    }

    /// Whether clips are played.
    pub fn audio_enabled(&self) -> (r: bool)
        ensures
            r == self@.audio_enabled,
    {
        self.audio_enabled
    }

    /// Whether the audio device is still believed to work.
    pub fn is_available(&self) -> (r: bool)
        ensures
            r == self@.available,
    {
        self.available
    }

    /// Sets the voice used for synthesis.
    pub fn set_voice_type(&mut self, voice_type: String)
        ensures
            final(self)@ == (TTSManagerView { voice_type: voice_type@, ..old(self)@ }),
    {
        proof {
            use_type_invariant(&*self);
        }
        self.voice_type = voice_type;
    }

    /// Sets the playback volume, limited to `0..=10_000`.
    pub fn set_volume(&mut self, volume: i32)
        ensures
            final(self)@ == (TTSManagerView {
                volume: clamp_int(volume as int, 0, 10_000),
                ..old(self)@
            }),
    {
        proof {
            use_type_invariant(&*self);
        }
        self.volume = clamp_level(volume, 0, FULL_SCALE);
    }

    /// Sets the speech rate, limited to `5_000..=20_000`.
    pub fn set_speech_rate(&mut self, rate: i32)
        ensures
            final(self)@ == (TTSManagerView {
                speech_rate: clamp_int(rate as int, 5_000, 20_000),
                ..old(self)@
            }),
    {
        proof {
            use_type_invariant(&*self);
        }
        self.speech_rate = clamp_level(rate, MIN_SPEECH_RATE, MAX_SPEECH_RATE);
    }

    /// Switches playback on or off.
    pub fn set_audio_enabled(&mut self, enabled: bool)
        ensures
            final(self)@ == (TTSManagerView { audio_enabled: enabled, ..old(self)@ }),
    {
        proof {
            use_type_invariant(&*self);
        }
        self.audio_enabled = enabled;
    }

    /// Records whether the audio device could be opened. Once it could not,
    /// the manager stays unavailable.
    pub fn report_device(&mut self, opened: bool) -> (r: Result<(), PipelineError>)
        ensures
            final(self)@ == (TTSManagerView {
                available: old(self)@.available && opened,
                ..old(self)@
            }),
            r.is_ok() == final(self)@.available,
            r.is_err() ==> r == Err::<(), PipelineError>(PipelineError::PlaybackDevice),
    {
        proof {
            use_type_invariant(&*self);
        }
        if !opened {
            self.available = false;
        }
        if self.available {
            Ok(())
        } else {
            Err(PipelineError::PlaybackDevice)
        }
    }

    /// The key of `message` under `personality`; see [`derive_key`].
    pub fn get_cache_key(&self, message: &MessagePart, personality: &PersonalitySettings) -> (key:
        CacheKey)
        ensures
            key@ == derive_key(message@, personality@),
    {
        CacheKey::derive(message, personality)
    }

    /// The bytes cached under `key`, if any.
    pub fn lookup(&self, key: &CacheKey) -> (r: Option<Vec<u8>>)
        ensures
            r.is_some() == self@.cache().contains_key(key@),
            r.is_some() ==> r.unwrap()@ == self@.cache()[key@],
    {
        let mut i: usize = self.log.len();
        let ghost all = log_view(self.log@);
        assert(all.take(i as int) =~= all);
        while i > 0
            invariant
                i <= self.log.len(),
                all == log_view(self.log@),
                cache_of(all).contains_key(key@) == cache_of(all.take(i as int)).contains_key(
                    key@,
                ),
                cache_of(all).contains_key(key@) ==> cache_of(all)[key@] == cache_of(
                    all.take(i as int),
                )[key@],
            decreases i,
        {
            proof {
                let t = all.take(i as int);
                assert(t.drop_last() =~= all.take(i - 1));
                assert(t.last() == (self.log@[i - 1].key@, self.log@[i - 1].audio@));
            }
            if self.log[i - 1].key.same_key(key) {
                return Some(copy_bytes(&self.log[i - 1].audio));
            }
            i -= 1;
        }
        assert(all.take(0) =~= Seq::<(CacheKeyView, Seq<u8>)>::empty());
        None
    }

    /// Stores `audio` under `key`. A clip cached under the same key is
    /// replaced, so that a key never has two clips; see [`log_with`].
    pub fn store(&mut self, key: CacheKey, audio: Vec<u8>)
        ensures
            final(self)@ == old(self)@.stored(key@, audio@),
            final(self)@.cache() == old(self)@.cache().insert(key@, audio@),
    {
        let ghost before = self@.log;
        proof {
            use_type_invariant(&*self);
            lemma_cache_after_store(before, key@, audio@);
            lemma_store_keeps_keys_single(before, key@, audio@);
            lemma_last_index_of(before, key@);
        }
        let mut log: Vec<CachedClip> = Vec::new();
        core::mem::swap(&mut self.log, &mut log);
        assert(log_view(log@) == before);
        let mut i: usize = log.len();
        let mut found: Option<usize> = None;
        assert(before.take(i as int) =~= before);
        while i > 0 && found.is_none()
            invariant
                i <= log.len(),
                log_view(log@) == before,
                found.is_none() ==> last_index_of(before, key@) == last_index_of(
                    before.take(i as int),
                    key@,
                ),
                found.is_some() ==> found.unwrap() < log.len() && last_index_of(before, key@)
                    == found.unwrap(),
            decreases i + (if found.is_none() { 1int } else { 0int }),
        {
            proof {
                let t = before.take(i as int);
                assert(t.drop_last() =~= before.take(i - 1));
                assert(t.last() == (log@[i - 1].key@, log@[i - 1].audio@));
            }
            if log[i - 1].key.same_key(&key) {
                found = Some(i - 1);
            } else {
                i -= 1;
            }
        }
        assert(before.take(0) =~= Seq::<(CacheKeyView, Seq<u8>)>::empty());
        match found {
            Some(at) => {
                log.set(at, CachedClip { key, audio });
                assert(log_view(log@) =~= before.update(at as int, (key@, audio@)));
            },
            None => {
                log.push(CachedClip { key, audio });
                assert(log_view(log@) =~= before.push((key@, audio@)));
            },
        }
        assert(log_view(log@) == log_with(before, key@, audio@));
        core::mem::swap(&mut self.log, &mut log);
    }

    /// Empties the cache.
    pub fn clear_cache(&mut self)
        ensures
            final(self)@ == (TTSManagerView {
                log: Seq::<(CacheKeyView, Seq<u8>)>::empty(),
                ..old(self)@
            }),
            final(self)@.cache() == Map::<CacheKeyView, Seq<u8>>::empty(),
    {
        self.log = Vec::new();
        assert(self@.log =~= Seq::<(CacheKeyView, Seq<u8>)>::empty());
    }

    /// Empties the cache and hands out what was in it for archiving: for
    /// every cached key, in the order in which the keys were first stored,
    /// the file to write and the clip cached under the key, and the manifest
    /// of the archived key names in the same order. No key comes twice.
    pub fn archive_and_clear_cache(&mut self) -> (batch: ArchiveBatch)
        ensures
            final(self)@ == (TTSManagerView {
                log: Seq::<(CacheKeyView, Seq<u8>)>::empty(),
                ..old(self)@
            }),
            batch.clips@.len() == old(self)@.log.len(),
            batch.manifest@.len() == old(self)@.log.len(),
            forall|i: int|
                0 <= i < old(self)@.log.len() ==> {
                    &&& (#[trigger] batch.clips@[i]).file_name@ == archive_file_name(
                        old(self)@.log[i].0,
                    )
                    &&& batch.clips@[i].audio@ == old(self)@.log[i].1
                },
            forall|i: int|
                0 <= i < old(self)@.log.len() ==> (#[trigger] batch.manifest@[i])@ == key_name(
                    old(self)@.log[i].0,
                ),
            no_key_twice(old(self)@.log),
            forall|i: int|
                0 <= i < old(self)@.log.len() ==> old(self)@.cache().contains_key(
                    (#[trigger] old(self)@.log[i]).0,
                ) && old(self)@.cache()[old(self)@.log[i].0] == old(self)@.log[i].1,
            forall|k: CacheKeyView| #[trigger]
                old(self)@.cache().contains_key(k) ==> exists|i: int|
                    0 <= i < old(self)@.log.len() && old(self)@.log[i].0 == k,
    {
        proof {
            use_type_invariant(&*self);
            lemma_single_keys_are_the_cache(self@.log);
        }
        let mut clips: Vec<ArchivedClip> = Vec::new();
        let mut manifest: Vec<String> = Vec::new();
        let mut i: usize = 0;
        while i < self.log.len()
            invariant
                i <= self.log.len(),
                *self == *old(self),
                clips.len() == i,
                manifest.len() == i,
                forall|j: int|
                    0 <= j < i ==> {
                        &&& (#[trigger] clips@[j]).file_name@ == archive_file_name(
                            self@.log[j].0,
                        )
                        &&& clips@[j].audio@ == self@.log[j].1
                    },
                forall|j: int| 0 <= j < i ==> (#[trigger] manifest@[j])@ == key_name(self@.log[j].0),
            decreases self.log.len() - i,
        {
            let name = name_of_key(&self.log[i].key);
            let mut file = to_chars(name.as_str());
            append_str(&mut file, ".mp3");
            clips.push(
                ArchivedClip {
                    file_name: from_chars(&file),
                    audio: copy_bytes(&self.log[i].audio),
                },
            );
            manifest.push(name);
            i += 1;
        }
        self.log = Vec::new();
        assert(self@.log =~= Seq::<(CacheKeyView, Seq<u8>)>::empty());
        ArchiveBatch { clips, manifest }
    }
}

// ---------------------------------------------------------------------
// One speak request
// ---------------------------------------------------------------------

/// A segment whose synthesis failed, by its place in the message.
#[derive(Debug, Clone)]
pub struct SpeakFailure {
    pub index: usize,
    pub error: SynthesisError,
}

/// The models of a sequence of failures, in order.
pub open spec fn failures_view(failures: Seq<SpeakFailure>) -> Seq<(nat, SynthesisErrorView)> {
    Seq::new(failures.len(), |i: int| (failures[i].index as nat, failures[i].error@))
}

/// What the caller is to do next for a speak request.
#[derive(Debug, Clone)]
pub enum SpeakAction {
    /// Synthesize `text` with this voice and rate (ten-thousandths of normal
    /// speed), then resume the request with the outcome.
    Synthesize { text: String, voice: String, rate: i32 },
    /// Play these clips in order, one at a time. The request is complete.
    Play { clips: Vec<Vec<u8>> },
    /// Audio is off: play nothing. The request is complete.
    Finished,
    /// The audio device is gone: nothing was done.
    Unavailable,
}

/// Mathematical model of a [`SpeakAction`].
pub enum SpeakActionView {
    Synthesize { text: Seq<char>, voice: Seq<char>, rate: int },
    Play { clips: Seq<Seq<u8>> },
    Finished,
    Unavailable,
}

impl View for SpeakAction {
    type V = SpeakActionView;

    open spec fn view(&self) -> SpeakActionView {
        match *self {
            SpeakAction::Synthesize { text, voice, rate } => SpeakActionView::Synthesize {
                text: text@,
                voice: voice@,
                rate: rate as int,
            },
            SpeakAction::Play { clips } => SpeakActionView::Play { clips: clips_view(clips@) },
            SpeakAction::Finished => SpeakActionView::Finished,
            SpeakAction::Unavailable => SpeakActionView::Unavailable,
        }
    }
}

/// The state of one speak request between two actions.
pub struct SpeakSession {
    parts: Vec<MessagePart>,
    settings: PersonalitySettings,
    position: usize,
    awaiting: bool,
    clips: Vec<Vec<u8>>,
    failures: Vec<SpeakFailure>,
}

/// Mathematical model of a [`SpeakSession`].
pub struct SessionView {
    /// The segments of the message, in order.
    pub parts: Seq<MessagePartView>,
    /// The settings under which keys are derived.
    pub settings: PersonalitySettingsView,
    /// How many segments are done with.
    pub position: nat,
    /// Whether the synthesis of the segment at `position` is outstanding.
    pub awaiting: bool,
    /// The clips gathered so far, in segment order.
    pub clips: Seq<Seq<u8>>,
    /// The segments whose synthesis failed, in segment order.
    pub failures: Seq<(nat, SynthesisErrorView)>,
}

impl View for SpeakSession {
    type V = SessionView;

    closed spec fn view(&self) -> SessionView {
        SessionView {
            parts: parts_view(self.parts@),
            settings: self.settings@,
            position: self.position as nat,
            awaiting: self.awaiting,
            clips: clips_view(self.clips@),
            failures: failures_view(self.failures@),
        }
    }
}

/// The outcome of a synthesis call, as a model.
pub open spec fn outcome_view(outcome: Result<Vec<u8>, SynthesisError>) -> Result<
    Seq<u8>,
    SynthesisErrorView,
> {
    match outcome {
        Ok(bytes) => Ok(bytes@),
        Err(e) => Err(e@),
    }
}

/// A request that has not looked at any segment yet.
pub open spec fn begin(parts: Seq<MessagePartView>, settings: PersonalitySettingsView) -> SessionView {
    SessionView {
        parts,
        settings,
        position: 0,
        awaiting: false,
        clips: Seq::<Seq<u8>>::empty(),
        failures: Seq::<(nat, SynthesisErrorView)>::empty(),
    }
}

/// The session after its current segment was skipped.
pub open spec fn skipped(s: SessionView) -> SessionView {
    SessionView { position: s.position + 1, awaiting: false, ..s }
}

/// The session after `clip` was gathered for its current segment.
pub open spec fn gathered(s: SessionView, clip: Seq<u8>) -> SessionView {
    SessionView { position: s.position + 1, awaiting: false, clips: s.clips.push(clip), ..s }
}

/// The session after the synthesis of its current segment failed.
pub open spec fn failed(s: SessionView, error: SynthesisErrorView) -> SessionView {
    SessionView {
        position: s.position + 1,
        awaiting: false,
        failures: s.failures.push((s.position, error)),
        ..s
    }
}

/// The key of the session's current segment.
pub open spec fn current_key(s: SessionView) -> CacheKeyView {
    derive_key(s.parts[s.position as int], s.settings)
}

/// The effect of a synthesis outcome on the current segment. Success stores
/// the clip under the segment's key and gathers it; failure records the
/// segment as failed and changes nothing else. Either way the request moves
/// on to the next segment.
pub open spec fn settle(
    m: TTSManagerView,
    s: SessionView,
    outcome: Result<Seq<u8>, SynthesisErrorView>,
) -> (TTSManagerView, SessionView) {
    if s.position >= s.parts.len() {
        (m, SessionView { awaiting: false, ..s })
    } else {
        match outcome {
            Ok(bytes) => (m.stored(current_key(s), bytes), gathered(s, bytes)),
            Err(e) => (m, failed(s, e)),
        }
    }
}

/// Everything that can be decided without synthesis, from the current
/// segment on: blank segments are skipped, cached ones gathered from the
/// cache. At the first segment that is neither, the action is to synthesize
/// it; after the last segment, the action is to play the gathered clips, or
/// just to finish where audio is off.
pub open spec fn scan(m: TTSManagerView, s: SessionView) -> (SessionView, SpeakActionView)
    decreases s.parts.len() - s.position,
{
    if s.position >= s.parts.len() {
        (
            SessionView { awaiting: false, ..s },
            if m.audio_enabled {
                SpeakActionView::Play { clips: s.clips }
            } else {
                SpeakActionView::Finished
            },
        )
    } else {
        let part = s.parts[s.position as int];
        if is_blank(part.text()) {
            scan(m, skipped(s))
        } else if m.cache().contains_key(current_key(s)) {
            scan(m, gathered(s, m.cache()[current_key(s)]))
        } else {
            (
                SessionView { awaiting: true, ..s },
                SpeakActionView::Synthesize {
                    text: part.text(),
                    voice: m.voice_type,
                    rate: m.speech_rate,
                },
            )
        }
    }
}

/// The first turn of a request.
pub open spec fn started(
    m: TTSManagerView,
    parts: Seq<MessagePartView>,
    settings: PersonalitySettingsView,
) -> (SessionView, SpeakActionView) {
    if m.available {
        scan(m, begin(parts, settings))
    } else {
        (begin(parts, settings), SpeakActionView::Unavailable)
    }
}

/// A later turn of a request: an awaited outcome is settled first; one that
/// was not awaited is ignored.
pub open spec fn resumed(
    m: TTSManagerView,
    s: SessionView,
    outcome: Result<Seq<u8>, SynthesisErrorView>,
) -> (TTSManagerView, SessionView, SpeakActionView) {
    if s.awaiting {
        let (m1, s1) = settle(m, s, outcome);
        let (s2, action) = scan(m1, s1);
        (m1, s2, action)
    } else {
        let (s2, action) = scan(m, s);
        (m, s2, action)
    }
}

/// A session together with what to do next.
pub struct SpeakTurn {
    pub session: SpeakSession,
    pub action: SpeakAction,
}

/// A copy of a sequence of clips.
pub fn copy_clips(clips: &Vec<Vec<u8>>) -> (r: Vec<Vec<u8>>)
    ensures
        clips_view(r@) == clips_view(clips@),
{
    let mut r: Vec<Vec<u8>> = Vec::new();
    let mut i: usize = 0;
    while i < clips.len()
        invariant
            i <= clips.len(),
            r.len() == i,
            forall|j: int| 0 <= j < i ==> r@[j]@ == clips@[j]@,
        decreases clips.len() - i,
    {
        r.push(copy_bytes(&clips[i]));
        i += 1;
    }
    assert(clips_view(r@) =~= clips_view(clips@));
    r
}

impl SpeakSession {
    #[verifier::type_invariant]
    spec fn well_formed(self) -> bool {
        self.position <= self.parts.len() && (self.awaiting ==> self.position < self.parts.len())
    }

    /// How many segments are done with.
    pub fn position(&self) -> (r: usize)
        ensures
            r as nat == self@.position,
    {
        self.position
    }

    /// Whether a synthesis outcome is awaited.
    pub fn is_awaiting(&self) -> (r: bool)
        ensures
            r == self@.awaiting,
    {
        self.awaiting
    }

    /// The key under which the awaited clip will be cached; `None` where no
    /// synthesis outcome is awaited.
    pub fn awaited_key(&self) -> (r: Option<CacheKey>)
        ensures
            r.is_some() == self@.awaiting,
            r.is_some() ==> r.unwrap()@ == current_key(self@),
    {
        proof {
            use_type_invariant(self);
        }
        if self.awaiting {
            assert(self@.parts[self@.position as int] == self.parts@[self.position as int]@);
            Some(CacheKey::derive(&self.parts[self.position], &self.settings))
        } else {
            None
        }
    }

    /// The clips gathered so far, in segment order.
    pub fn clips(&self) -> (r: &Vec<Vec<u8>>)
        ensures
            clips_view(r@) == self@.clips,
    {
        &self.clips
    }

    /// The segments whose synthesis failed, in segment order.
    pub fn failures(&self) -> (r: &Vec<SpeakFailure>)
        ensures
            failures_view(r@) == self@.failures,
    {
        &self.failures
    }
}

impl TTSManager {
    fn scan_session(&self, initial: SpeakSession) -> (turn: SpeakTurn)
        ensures
            (turn.session@, turn.action@) == scan(self@, initial@),
    {
        let mut session = initial;
        loop
            invariant
                scan(self@, session@) == scan(self@, initial@),
            decreases session.parts.len() - session.position,
        {
            proof {
                use_type_invariant(&session);
            }
            let ghost before = session@;
            if session.position >= session.parts.len() {
                session.awaiting = false;
                let action = if self.audio_enabled {
                    SpeakAction::Play { clips: copy_clips(&session.clips) }
                } else {
                    SpeakAction::Finished
                };
                return SpeakTurn { session, action };
            }
            assert(before.parts[before.position as int] == session.parts@[session.position as int]@);
            let text = session.parts[session.position].text();
            if is_blank_text(text) {
                session.awaiting = false;
                session.position = session.position + 1;
                assert(session@ == skipped(before));
            } else {
                let key = CacheKey::derive(&session.parts[session.position], &session.settings);
                match self.lookup(&key) {
                    Some(bytes) => {
                        let SpeakSession { parts, settings, position, awaiting: _, mut clips, failures } =
                            session;
                        clips.push(bytes);
                        session =
                        SpeakSession {
                            parts,
                            settings,
                            position: position + 1,
                            awaiting: false,
                            clips,
                            failures,
                        };
                        assert(session@.clips =~= before.clips.push(self@.cache()[key@]));
                        assert(session@ == gathered(before, self@.cache()[key@]));
                    },
                    None => {
                        let action = SpeakAction::Synthesize {
                            text: text.to_owned(),
                            voice: self.voice_type.clone(),
                            rate: self.speech_rate,
                        };
                        session.awaiting = true;
                        return SpeakTurn { session, action };
                    },
                }
            }
        }
    }

    /// Begins a speak request for `message_parts` under `personality` and
    /// takes it to its first action; see [`started`]. Segments are handled
    /// in order. The cache is only read.
    pub fn speak(&self, message_parts: Vec<MessagePart>, personality: &PersonalitySettings) -> (turn:
        SpeakTurn)
        ensures
            (turn.session@, turn.action@) == started(
                self@,
                parts_view(message_parts@),
                personality@,
            ),
    {
        let session = SpeakSession {
            parts: message_parts,
            settings: personality.duplicate(),
            position: 0,
            awaiting: false,
            clips: Vec::new(),
            failures: Vec::new(),
        };
        assert(session@.clips =~= Seq::<Seq<u8>>::empty());
        assert(session@.failures =~= Seq::<(nat, SynthesisErrorView)>::empty());
        assert(session@ == begin(parts_view(message_parts@), personality@));
        if !self.available {
            return SpeakTurn { session, action: SpeakAction::Unavailable };
        }
        self.scan_session(session)
    }

    /// Begins a speak request for a raw text as `personality` says it, for
    /// given outcomes of chance: the text is composed into segments, and the
    /// request for them under the personality's quantized settings is taken
    /// to its first action. A blank text gives a request with nothing to
    /// play.
    pub fn speak_text_with(&self, text: &str, personality: &AIPersonality, draws: &Draws) -> (turn:
        SpeakTurn)
        ensures
            (turn.session@, turn.action@) == started(
                self@,
                composed(personality@, text@, *draws),
                personality@.settings(),
            ),
    {
        let parts = personality.compose_with(text, draws);
        let settings = personality.to_settings();
        self.speak(parts, &settings)
    }

    /// Begins a speak request for a raw text as `personality` says it, with
    /// fresh outcomes of chance.
    pub fn speak_text(&self, text: &str, personality: &AIPersonality) -> (turn: SpeakTurn)
        ensures
            exists|d: Draws|
                d.in_range() && (turn.session@, turn.action@) == started(
                    self@,
                    composed(personality@, text@, d),
                    personality@.settings(),
                ),
    {
        let draws = draw(personality.catchphrases.len());
        self.speak_text_with(text, personality, &draws)
    }

    /// Takes a request to its next action, given the outcome of the
    /// synthesis it asked for; see [`resumed`]. A successful clip is cached
    /// under its segment's key and gathered; a failed segment is left out
    /// and the segments after it are handled as if nothing had happened.
    pub fn resume(&mut self, session: SpeakSession, outcome: Result<Vec<u8>, SynthesisError>) -> (turn:
        SpeakTurn)
        ensures
            (final(self)@, turn.session@, turn.action@) == resumed(
                old(self)@,
                session@,
                outcome_view(outcome),
            ),
    {
        let mut session = session;
        let ghost before = session@;
        proof {
            use_type_invariant(&session);
        }
        if session.awaiting {
            assert(before.parts[before.position as int] == session.parts@[session.position as int]@);
            match outcome {
                Ok(bytes) => {
                    let key = CacheKey::derive(&session.parts[session.position], &session.settings);
                    self.store(key, copy_bytes(&bytes));
                    let SpeakSession { parts, settings, position, awaiting: _, mut clips, failures } =
                        session;
                    clips.push(bytes);
                    session =
                    SpeakSession {
                        parts,
                        settings,
                        position: position + 1,
                        awaiting: false,
                        clips,
                        failures,
                    };
                    assert(session@.clips =~= before.clips.push(bytes@));
                    assert(session@ == gathered(before, bytes@));
                },
                Err(error) => {
                    let SpeakSession { parts, settings, position, awaiting: _, clips, mut failures } =
                        session;
                    failures.push(SpeakFailure { index: position, error });
                    session =
                    SpeakSession {
                        parts,
                        settings,
                        position: position + 1,
                        awaiting: false,
                        clips,
                        failures,
                    };
                    assert(session@.failures =~= before.failures.push((before.position, error@)));
                    assert(session@ == failed(before, error@));
                },
            }
        }
        self.scan_session(session)
    }
}

// ---------------------------------------------------------------------
// Playing the clips
// ---------------------------------------------------------------------

/// The pause after each clip, in milliseconds.
pub const PAUSE_BETWEEN_CLIPS_MS: u64 = 100;

/// What came of playing one clip.
#[derive(Debug, Clone, Copy, PartialEq, Eq, Structural)]
pub enum ClipOutcome {
    /// The clip was played to its end.
    Played,
    /// The clip is not audio; nothing was played.
    Undecodable,
    /// The device took no further clip.
    SinkFailed,
}

/// What the player is to do next.
#[derive(Debug, Clone, Copy, PartialEq, Eq, Structural)]
pub enum PlaybackStep {
    /// Play the clip at this place, to its end.
    Play(usize),
    /// Every clip had its turn.
    Finished,
    /// The device is gone: the clips that are left are not played.
    DeviceLost,
}

/// The first step for `total` clips: the first clip, or nothing at all
/// where there is none, in which case the device is not even opened.
pub open spec fn first_step(total: nat) -> PlaybackStep {
    if total == 0 {
        PlaybackStep::Finished
    } else {
        PlaybackStep::Play(0)
    }
}

/// The step after the clip at place `index` of `total`: a clip that was
/// played or that is not audio is followed by the next clip, the last one by
/// the end; a device that failed ends the queue at once. Clips are never
/// played side by side and never out of order.
pub open spec fn step_after(index: nat, total: nat, outcome: ClipOutcome) -> PlaybackStep {
    if outcome == ClipOutcome::SinkFailed {
        PlaybackStep::DeviceLost
    } else if index + 1 < total {
        PlaybackStep::Play((index + 1) as usize)
    } else {
        PlaybackStep::Finished
    }
}

/// Computes [`first_step`].
pub fn first_clip(total: usize) -> (step: PlaybackStep)
    ensures
        step == first_step(total as nat),
{
    if total == 0 {
        PlaybackStep::Finished
    } else {
        PlaybackStep::Play(0)
    }
}

/// Computes [`step_after`].
pub fn after_clip(index: usize, total: usize, outcome: ClipOutcome) -> (step: PlaybackStep)
    ensures
        step == step_after(index as nat, total as nat, outcome),
{
    match outcome {
        ClipOutcome::SinkFailed => PlaybackStep::DeviceLost,
        _ => {
            if index < total && index + 1 < total {
                PlaybackStep::Play(index + 1)
            } else {
                PlaybackStep::Finished
            }
        },
    }
}

} // verus!
