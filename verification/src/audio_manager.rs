//! Bookkeeping of the on-disk clip cache: where a clip is filed, which
//! metadata record belongs to it, what archiving moves, and which files an
//! age limit evicts. Reading and writing the files is the caller's part.

use vstd::prelude::*;
use crate::encoding::{
    encode_phrase, hex, hex_lower, name_of_key, phrase_bytes, sha256, sha256_digest,
};
use crate::message_system::{
    CacheKey,
    PersonalitySettings,
    PersonalitySettingsView,
    strings_view,
};
use crate::text::{append_str, from_chars, same_text, to_chars};
use crate::tts::archive_file_name;

verus! {

/// The record kept beside a cached clip.
#[derive(Debug, Clone)]
pub struct AudioMetadata {
    /// The text that was spoken.
    pub text: String,
    /// What caused the message.
    pub trigger_type: String,
    /// The quantized personality the clip was made with.
    pub personality_state: PersonalitySettings,
    /// When the clip was made, in seconds since the Unix epoch.
    pub timestamp: i64,
}

/// Mathematical model of [`AudioMetadata`].
pub struct AudioMetadataView {
    pub text: Seq<char>,
    pub trigger_type: Seq<char>,
    pub personality_state: PersonalitySettingsView,
    pub timestamp: int,
}

impl View for AudioMetadata {
    type V = AudioMetadataView;

    open spec fn view(&self) -> AudioMetadataView {
        AudioMetadataView {
            text: self.text@,
            trigger_type: self.trigger_type@,
            personality_state: self.personality_state@,
            timestamp: self.timestamp as int,
        }
    }
}

impl AudioMetadata {
    /// A copy of the record.
    pub fn duplicate(&self) -> (r: AudioMetadata)
        ensures
            r@ == self@,
    {
        AudioMetadata {
            text: self.text.clone(),
            trigger_type: self.trigger_type.clone(),
            personality_state: self.personality_state.duplicate(),
            timestamp: self.timestamp,
        }
    }
}

/// A file of the live cache as a directory scan reports it.
#[derive(Debug, Clone)]
pub struct CacheFile {
    /// The file's path.
    pub path: String,
    /// When the file was last modified, in microseconds since the Unix
    /// epoch.
    pub modified: u64,
}

/// A clip to be moved out of the live cache.
#[derive(Debug, Clone)]
pub struct ArchiveMove {
    /// Where the clip is now.
    pub source: String,
    /// Where it goes.
    pub destination: String,
}

/// The directories of the clip cache.
#[derive(Debug, Clone)]
pub struct AudioManager {
    pub cache_dir: String,
    pub archive_dir: String,
    pub metadata_file: String,
}

/// The file name of the clip for a text, a trigger kind and settings: the
/// hexadecimal SHA-256 digest of their byte form, with the extension `.mp3`.
pub open spec fn clip_name(
    text: Seq<char>,
    trigger: Seq<char>,
    p: PersonalitySettingsView,
) -> Seq<char> {
    hex(sha256_digest(phrase_bytes(text, trigger, p))) + ".mp3"@
}

/// The path of `name` inside `dir`.
pub open spec fn path_in(dir: Seq<char>, name: Seq<char>) -> Seq<char> {
    dir + "/"@ + name
}

/// The age limit of `hours` hours, in microseconds.
pub open spec fn age_limit(hours: int) -> int {
    hours * 3_600_000_000
}

/// Whether a file last modified at `modified` is older than `limit` at the
/// time `now`, all in microseconds. A file exactly as old as the limit is
/// not; a file modified after `now` is not.
pub open spec fn older_than(modified: nat, now: nat, limit: int) -> bool {
    now >= modified && now - modified > limit
}

/// Whether an age limit of `hours` hours evicts a file. A negative limit
/// evicts nothing.
pub open spec fn is_expired(modified: nat, now: nat, hours: int) -> bool {
    hours >= 0 && older_than(modified, now, age_limit(hours))
}

/// The paths of the files that are older than `limit` microseconds at the
/// time `now`, in the order of the scan.
pub open spec fn paths_older_than(files: Seq<CacheFile>, now: nat, limit: int) -> Seq<Seq<char>>
    decreases files.len(),
{
    if files.len() == 0 {
        Seq::<Seq<char>>::empty()
    } else if older_than(files.last().modified as nat, now, limit) {
        paths_older_than(files.drop_last(), now, limit).push(files.last().path@)
    } else {
        paths_older_than(files.drop_last(), now, limit)
    }
}

/// The paths of the files that an age limit of `hours` hours evicts, in the
/// order of the scan: none for a negative limit.
pub open spec fn expired_paths(files: Seq<CacheFile>, now: nat, hours: int) -> Seq<Seq<char>> {
    if hours < 0 {
        Seq::<Seq<char>>::empty()
    } else {
        paths_older_than(files, now, age_limit(hours))
    }
}

/// The eviction boundary is exclusive: a file whose age equals the limit
/// stays, and a file one microsecond older goes.
pub proof fn lemma_eviction_boundary(modified: nat, limit: nat, hours: int)
    requires
        hours >= 0,
    ensures
        !older_than(modified, modified + limit, limit as int),
        older_than(modified, modified + limit + 1, limit as int),
        !is_expired(modified, (modified + age_limit(hours)) as nat, hours),
        is_expired(modified, (modified + age_limit(hours) + 1) as nat, hours),
{
    assert(age_limit(hours) >= 0) by (nonlinear_arith)
        requires
            hours >= 0,
            age_limit(hours) == hours * 3_600_000_000,
    ;
}

/// Every evicted path belongs to a scanned file that is older than the
/// limit, and every scanned file older than the limit is evicted.
pub proof fn lemma_paths_older_than(files: Seq<CacheFile>, now: nat, limit: int)
    ensures
        forall|i: int|
            0 <= i < files.len() && older_than(files[i].modified as nat, now, limit)
                ==> paths_older_than(files, now, limit).contains(#[trigger] files[i].path@),
        forall|p: Seq<char>| #[trigger]
            paths_older_than(files, now, limit).contains(p) ==> exists|i: int|
                0 <= i < files.len() && older_than(files[i].modified as nat, now, limit)
                    && files[i].path@ == p,
        paths_older_than(files, now, limit).len() <= files.len(),
    decreases files.len(),
{
    if files.len() > 0 {
        let init = files.drop_last();
        let last = files.last();
        lemma_paths_older_than(init, now, limit);
        let all = paths_older_than(files, now, limit);
        let rest = paths_older_than(init, now, limit);
        assert forall|i: int|
            0 <= i < files.len() && older_than(files[i].modified as nat, now, limit) implies all.contains(
            #[trigger] files[i].path@,
        ) by {
            if i < files.len() - 1 {
                assert(files[i] == init[i]);
                assert(rest.contains(init[i].path@));
                let k = choose|k: int| 0 <= k < rest.len() && rest[k] == init[i].path@;
                assert(all[k] == files[i].path@);
            } else {
                assert(all[all.len() - 1] == last.path@);
            }
        }
        assert forall|p: Seq<char>| #[trigger] all.contains(p) implies exists|i: int|
            0 <= i < files.len() && older_than(files[i].modified as nat, now, limit)
                && files[i].path@ == p by {
            let k = choose|k: int| 0 <= k < all.len() && all[k] == p;
            if k < rest.len() {
                assert(rest[k] == p);
                assert(rest.contains(p));
                let i = choose|i: int|
                    0 <= i < init.len() && older_than(init[i].modified as nat, now, limit)
                        && init[i].path@ == p;
                assert(files[i] == init[i]);
            } else {
                assert(files[files.len() - 1].path@ == p);
            }
        }
    }
}

/// No file is older than a limit that is beyond every age a clock can
/// measure.
pub proof fn lemma_nothing_older_than_forever(files: Seq<CacheFile>, now: u64, limit: int)
    requires
        limit >= u64::MAX,
    ensures
        paths_older_than(files, now as nat, limit) == Seq::<Seq<char>>::empty(),
    decreases files.len(),
{
    if files.len() > 0 {
        lemma_nothing_older_than_forever(files.drop_last(), now, limit);
    }
}

impl AudioManager {
    /// A manager over the directories `audio_cache` and `audio_archive`,
    /// with the metadata record at `audio_cache/metadata.json`.
    pub fn new() -> (r: Self)
        ensures
            r.cache_dir@ == "audio_cache"@,
            r.archive_dir@ == "audio_archive"@,
            r.metadata_file@ == path_in("audio_cache"@, "metadata.json"@),
    {
        let mut meta = to_chars("audio_cache");
        append_str(&mut meta, "/");
        append_str(&mut meta, "metadata.json");
        AudioManager {
            cache_dir: String::from_str("audio_cache"),
            archive_dir: String::from_str("audio_archive"),
            metadata_file: from_chars(&meta),
        }
    }

    /// The file name of the clip for these inputs; see [`clip_name`].
    pub fn audio_file_name(text: &str, trigger_type: &str, personality_state: &PersonalitySettings) -> (r:
        String)
        ensures
            r@ == clip_name(text@, trigger_type@, personality_state@),
    {
        let bytes = encode_phrase(text, trigger_type, personality_state);
        let digest = sha256(&bytes);
        let stem = hex_lower(&digest);
        let mut out = to_chars(stem.as_str());
        append_str(&mut out, ".mp3");
        from_chars(&out)
    }

    /// The path in `dir` of the file called `name`.
    pub fn join(dir: &str, name: &str) -> (r: String)
        ensures
            r@ == path_in(dir@, name@),
    {
        let mut out = to_chars(dir);
        append_str(&mut out, "/");
        append_str(&mut out, name);
        from_chars(&out)
    }

    /// Where the clip for these inputs lives in the live cache.
    pub fn get_audio_path(
        &self,
        text: &str,
        trigger_type: &str,
        personality_state: &PersonalitySettings,
    ) -> (r: String)
        ensures
            r@ == path_in(self.cache_dir@, clip_name(text@, trigger_type@, personality_state@)),
    {
        let name = Self::audio_file_name(text, trigger_type, personality_state);
        Self::join(self.cache_dir.as_str(), name.as_str())
    }

    /// Where the clip cached under `key` lives in the live cache: the file
    /// named by the key's digest, so that every key has one file.
    pub fn key_path(&self, key: &CacheKey) -> (r: String)
        ensures
            r@ == path_in(self.cache_dir@, archive_file_name(key@)),
    {
        let name = name_of_key(key);
        let mut file = to_chars(name.as_str());
        append_str(&mut file, ".mp3");
        let file_name = from_chars(&file);
        Self::join(self.cache_dir.as_str(), file_name.as_str())
    }

    /// What archiving the clip under `key` moves: from its place in the live
    /// cache to the file of the same name in the archive. Where the live
    /// cache holds no such file there is nothing to move.
    pub fn archive_clip(&self, key: &CacheKey) -> (r: ArchiveMove)
        ensures
            r.source@ == path_in(self.cache_dir@, archive_file_name(key@)),
            r.destination@ == path_in(self.archive_dir@, archive_file_name(key@)),
    {
        let name = name_of_key(key);
        let mut file = to_chars(name.as_str());
        append_str(&mut file, ".mp3");
        let file_name = from_chars(&file);
        ArchiveMove {
            source: Self::join(self.cache_dir.as_str(), file_name.as_str()),
            destination: Self::join(self.archive_dir.as_str(), file_name.as_str()),
        }
    }

    /// The metadata record written beside a clip.
    pub fn describe_audio(
        text: &str,
        trigger_type: &str,
        personality_state: &PersonalitySettings,
        timestamp: i64,
    ) -> (r: AudioMetadata)
        ensures
            r@ == (AudioMetadataView {
                text: text@,
                trigger_type: trigger_type@,
                personality_state: personality_state@,
                timestamp: timestamp as int,
            }),
    {
        AudioMetadata {
            text: text.to_owned(),
            trigger_type: trigger_type.to_owned(),
            personality_state: personality_state.duplicate(),
            timestamp,
        }
    }

    /// The stored record, where there is one and it is about `text`.
    pub fn get_metadata(&self, stored: &Option<AudioMetadata>, text: &str) -> (r: Option<
        AudioMetadata,
    >)
        ensures
            r.is_some() == (stored.is_some() && stored.unwrap()@.text == text@),
            r.is_some() ==> r.unwrap()@ == stored.unwrap()@,
    {
        match stored {
            Some(metadata) => {
                if same_text(metadata.text.as_str(), text) {
                    Some(metadata.duplicate())
                } else {
                    None
                }
            },
            None => None,
        }
    }

    /// What archiving the clip for `text` moves: from its place in the live
    /// cache to the file of the same name in the archive. Nothing where no
    /// stored record is about `text`.
    pub fn archive_audio(&self, stored: &Option<AudioMetadata>, text: &str) -> (r: Option<
        ArchiveMove,
    >)
        ensures
            r.is_some() == (stored.is_some() && stored.unwrap()@.text == text@),
            r.is_some() ==> r.unwrap().source@ == path_in(
                self.cache_dir@,
                clip_name(
                    text@,
                    stored.unwrap()@.trigger_type,
                    stored.unwrap()@.personality_state,
                ),
            ),
            r.is_some() ==> r.unwrap().destination@ == path_in(
                self.archive_dir@,
                clip_name(
                    text@,
                    stored.unwrap()@.trigger_type,
                    stored.unwrap()@.personality_state,
                ),
            ),
    {
        match self.get_metadata(stored, text) {
            Some(metadata) => {
                let name = Self::audio_file_name(
                    metadata.text.as_str(),
                    metadata.trigger_type.as_str(),
                    &metadata.personality_state,
                );
                Some(
                    ArchiveMove {
                        source: Self::join(self.cache_dir.as_str(), name.as_str()),
                        destination: Self::join(self.archive_dir.as_str(), name.as_str()),
                    },
                )
            },
            None => None,
        }
    }

    /// Whether an age limit of `max_age_hours` hours evicts a file last
    /// modified at `modified`, at the time `now`; see [`is_expired`].
    pub fn is_stale(modified: u64, now: u64, max_age_hours: i64) -> (r: bool)
        ensures
            r == is_expired(modified as nat, now as nat, max_age_hours as int),
    {
        if max_age_hours < 0 || now < modified {
            return false;
        }
        let age: u128 = (now - modified) as u128;
        let limit: u128 = (max_age_hours as u128) * 3_600_000_000u128;
        age > limit
    }

    /// The paths of the scanned files that are older than `max_age`
    /// microseconds at the time `now`, in the order of the scan; see
    /// [`paths_older_than`]. These are the files to delete.
    pub fn evict_older_than(&self, files: &Vec<CacheFile>, now: u64, max_age: u64) -> (r: Vec<
        String,
    >)
        ensures
            strings_view(r@) == paths_older_than(
                files@,
                now as nat,
                max_age as int,
            ),
    {
        let mut r: Vec<String> = Vec::new();
        let mut i: usize = 0;
        assert(files@.take(0) =~= Seq::<CacheFile>::empty());
        assert(strings_view(r@) =~= paths_older_than(
            files@.take(0),
            now as nat,
            max_age as int,
        ));
        while i < files.len()
            invariant
                i <= files.len(),
                strings_view(r@) == paths_older_than(
                    files@.take(i as int),
                    now as nat,
                    max_age as int,
                ),
            decreases files.len() - i,
        {
            proof {
                let t = files@.take(i + 1);
                assert(t.drop_last() =~= files@.take(i as int));
                assert(t.last() == files@[i as int]);
            }
            let ghost before = strings_view(r@);
            if now >= files[i].modified && now - files[i].modified > max_age {
                r.push(files[i].path.clone());
                assert(strings_view(r@) =~= before.push(
                    files@[i as int].path@,
                ));
            }
            i += 1;
        }
        assert(files@.take(files.len() as int) == files@);
        r
    }

    /// The paths of the scanned files that an age limit of `max_age_hours`
    /// hours evicts, in the order of the scan; see [`expired_paths`].
    pub fn cleanup_old_cache(&self, files: &Vec<CacheFile>, now: u64, max_age_hours: i64) -> (r:
        Vec<String>)
        ensures
            strings_view(r@) == expired_paths(
                files@,
                now as nat,
                max_age_hours as int,
            ),
    {
        if max_age_hours < 0 {
            let r: Vec<String> = Vec::new();
            assert(strings_view(r@) =~= Seq::<Seq<char>>::empty());
            return r;
        }
        let limit: u128 = (max_age_hours as u128) * 3_600_000_000u128;
        if limit > u64::MAX as u128 {
            let r: Vec<String> = Vec::new();
            proof {
                lemma_nothing_older_than_forever(files@, now, limit as int);
                assert(strings_view(r@) =~= Seq::<Seq<char>>::empty());
            }
            return r;
        }
        self.evict_older_than(files, now, limit as u64)
    }
}

} // verus!
