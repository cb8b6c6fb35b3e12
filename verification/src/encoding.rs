//! The byte form of cache identities, their SHA-256 digest and its
//! hexadecimal rendering.
//!
//! The byte form is explicit and versioned, so that the name under which a
//! clip is stored never depends on how a formatting routine prints a value.

use sha2::{Digest, Sha256};
use vstd::prelude::*;
use crate::message_system::{
    strings_view, CacheKey, CacheKeyView, PersonalitySettings, PersonalitySettingsView,
};
use crate::text::{from_chars, to_chars};

verus! {

/// The SHA-256 digest of a byte string, as `sha2` computes it.
pub uninterp spec fn sha256_digest(data: Seq<u8>) -> Seq<u8>;

/// The SHA-256 digest of `data` (`sha2::Sha256::digest`): the result is the
/// digest of exactly these bytes, and it is 32 bytes long, the output size
/// of `Sha256`.
#[verifier::external_body]
pub(crate) fn sha256(data: &Vec<u8>) -> (out: Vec<u8>)
    ensures
        out@ == sha256_digest(data@),
        out@.len() == 32,
{
    Sha256::digest(data.as_slice()).to_vec()
}

// ---------------------------------------------------------------------
// Hexadecimal
// ---------------------------------------------------------------------

/// The lower-case hexadecimal digit for `d`, where `d` is below sixteen.
pub open spec fn hex_digit(d: u8) -> char {
    if d < 10 {
        (48u8 + d) as char
    } else {
        (87u8 + d) as char
    }
}

/// Executable form of [`hex_digit`].
pub fn hex_digit_char(d: u8) -> (c: char)
    requires
        d < 16,
    ensures
        c == hex_digit(d),
{
    if d < 10 {
        (48u8 + d) as char
    } else {
        (87u8 + d) as char
    }
}

/// The lower-case hexadecimal rendering of a byte string, two digits per
/// byte, high digit first.
pub open spec fn hex(bytes: Seq<u8>) -> Seq<char>
    decreases bytes.len(),
{
    if bytes.len() == 0 {
        Seq::<char>::empty()
    } else {
        hex(bytes.drop_last()).push(hex_digit(bytes.last() / 16)).push(
            hex_digit(bytes.last() % 16),
        )
    }
}

/// A hexadecimal rendering is twice as long as the bytes it renders.
pub proof fn lemma_hex_len(bytes: Seq<u8>)
    ensures
        hex(bytes).len() == 2 * bytes.len(),
    decreases bytes.len(),
{
    if bytes.len() > 0 {
        lemma_hex_len(bytes.drop_last());
    }
}

/// Appends the hexadecimal rendering of `bytes` to `dst`; see [`hex`].
pub fn append_hex(dst: &mut Vec<char>, bytes: &Vec<u8>)
    ensures
        final(dst)@ == old(dst)@ + hex(bytes@),
{
    let mut i: usize = 0;
    assert(bytes@.take(0) =~= Seq::<u8>::empty());
    assert(dst@ =~= old(dst)@ + hex(bytes@.take(0)));
    while i < bytes.len()
        invariant
            i <= bytes.len(),
            dst@ == old(dst)@ + hex(bytes@.take(i as int)),
        decreases bytes.len() - i,
    {
        let b = bytes[i];
        proof {
            let t = bytes@.take(i + 1);
            assert(t.drop_last() =~= bytes@.take(i as int));
            assert(t.last() == b);
        }
        dst.push(hex_digit_char(b / 16));
        dst.push(hex_digit_char(b % 16));
        assert(dst@ =~= old(dst)@ + hex(bytes@.take(i + 1)));
        i += 1;
    }
    assert(bytes@.take(bytes.len() as int) == bytes@);
}

/// The lower-case hexadecimal rendering of `bytes`; see [`hex`].
pub fn hex_lower(bytes: &Vec<u8>) -> (r: String)
    ensures
        r@ == hex(bytes@),
        r@.len() == 2 * bytes@.len(),
{
    let mut out: Vec<char> = Vec::new();
    append_hex(&mut out, bytes);
    proof {
        lemma_hex_len(bytes@);
        assert(out@ =~= hex(bytes@));
    }
    from_chars(&out)
}

// ---------------------------------------------------------------------
// Byte form
// ---------------------------------------------------------------------

/// The version of the byte form; it is the first byte of every encoding.
pub const ENCODING_VERSION: u8 = 1;

/// A number below 2^64 as eight bytes, most significant first.
pub open spec fn u64_bytes(n: nat) -> Seq<u8> {
    seq![
        ((n / 0x100_0000_0000_0000) % 256) as u8,
        ((n / 0x1_0000_0000_0000) % 256) as u8,
        ((n / 0x100_0000_0000) % 256) as u8,
        ((n / 0x1_0000_0000) % 256) as u8,
        ((n / 0x100_0000) % 256) as u8,
        ((n / 0x1_0000) % 256) as u8,
        ((n / 0x100) % 256) as u8,
        (n % 256) as u8,
    ]
}

/// A number below 2^32 as four bytes, most significant first.
pub open spec fn u32_bytes(n: nat) -> Seq<u8> {
    seq![
        ((n / 0x100_0000) % 256) as u8,
        ((n / 0x1_0000) % 256) as u8,
        ((n / 0x100) % 256) as u8,
        (n % 256) as u8,
    ]
}

/// A signed 32-bit number as four bytes: its offset from the least such
/// number, most significant byte first.
pub open spec fn i32_bytes(x: int) -> Seq<u8> {
    u32_bytes((x + 0x8000_0000) as nat)
}

/// A truth value as one byte, `1` or `0`.
pub open spec fn bool_bytes(b: bool) -> Seq<u8> {
    seq![if b { 1u8 } else { 0u8 }]
}

/// The characters of a text, each as the four bytes of its code point.
pub open spec fn chars_bytes(text: Seq<char>) -> Seq<u8>
    decreases text.len(),
{
    if text.len() == 0 {
        Seq::<u8>::empty()
    } else {
        chars_bytes(text.drop_last()) + u32_bytes(text.last() as u32 as nat)
    }
}

/// A text as a field: its length in characters, then its characters.
pub open spec fn text_bytes(text: Seq<char>) -> Seq<u8> {
    u64_bytes(text.len()) + chars_bytes(text)
}

/// A list of texts, each as a field, one after the other.
pub open spec fn texts_bytes(texts: Seq<Seq<char>>) -> Seq<u8>
    decreases texts.len(),
{
    if texts.len() == 0 {
        Seq::<u8>::empty()
    } else {
        texts_bytes(texts.drop_last()) + text_bytes(texts.last())
    }
}

/// The byte form of the scalar settings: the voice, then the eight levels in
/// declaration order.
pub open spec fn levels_bytes(p: PersonalitySettingsView) -> Seq<u8> {
    text_bytes(p.voice_type) + i32_bytes(p.volume) + i32_bytes(p.speech_rate) + i32_bytes(
        p.drunk_level,
    ) + i32_bytes(p.sass_level) + i32_bytes(p.tech_expertise) + i32_bytes(p.grand_pappi_refs)
        + i32_bytes(p.enthusiasm) + i32_bytes(p.anxiety_level)
}

/// The byte form of the catchphrases: their count, then each as a field.
pub open spec fn phrases_bytes(phrases: Seq<Seq<char>>) -> Seq<u8> {
    u64_bytes(phrases.len()) + texts_bytes(phrases)
}

/// The byte form of quantized settings: the scalars, the catchphrases, then
/// the two flags.
pub open spec fn settings_bytes(p: PersonalitySettingsView) -> Seq<u8> {
    levels_bytes(p) + phrases_bytes(p.catchphrases) + bool_bytes(p.audio_enabled) + bool_bytes(
        p.is_1337_mode,
    )
}

/// The byte form of a cache key: the version, a tag for the variant (`0`
/// static, `1` dynamic, `2` full), then the variant's fields.
pub open spec fn key_bytes(key: CacheKeyView) -> Seq<u8> {
    match key {
        CacheKeyView::Static(t, p) => seq![ENCODING_VERSION, 0u8] + text_bytes(t) + settings_bytes(
            p,
        ),
        CacheKeyView::Dynamic(t) => seq![ENCODING_VERSION, 1u8] + text_bytes(t),
        CacheKeyView::Full(e, t) => seq![ENCODING_VERSION, 2u8] + text_bytes(e) + text_bytes(t),
    }
}

/// The byte form of what names a stored clip: the version, the tag `3`, the
/// text, the trigger kind and the settings.
pub open spec fn phrase_bytes(
    text: Seq<char>,
    trigger: Seq<char>,
    p: PersonalitySettingsView,
) -> Seq<u8> {
    seq![ENCODING_VERSION, 3u8] + text_bytes(text) + text_bytes(trigger) + settings_bytes(p)
}

/// Whether a text is short enough for its length to be written in eight
/// bytes, as every text held in memory is.
pub open spec fn text_fits(t: Seq<char>) -> bool {
    t.len() <= u64::MAX
}

/// Whether every text of a list fits, and the list's length too.
pub open spec fn texts_fit(texts: Seq<Seq<char>>) -> bool {
    texts.len() <= u64::MAX && forall|i: int| 0 <= i < texts.len() ==> text_fits(#[trigger] texts[i])
}

/// Whether a level is a signed 32-bit number.
pub open spec fn level_fits(x: int) -> bool {
    i32::MIN <= x <= i32::MAX
}

/// Whether settings are the model of settings held in memory: texts that
/// fit and levels that are signed 32-bit numbers.
pub open spec fn settings_fit(p: PersonalitySettingsView) -> bool {
    &&& text_fits(p.voice_type)
    &&& texts_fit(p.catchphrases)
    &&& level_fits(p.volume)
    &&& level_fits(p.speech_rate)
    &&& level_fits(p.drunk_level)
    &&& level_fits(p.sass_level)
    &&& level_fits(p.tech_expertise)
    &&& level_fits(p.grand_pappi_refs)
    &&& level_fits(p.enthusiasm)
    &&& level_fits(p.anxiety_level)
}

/// Whether a key is the model of a key held in memory.
pub open spec fn key_fits(key: CacheKeyView) -> bool {
    match key {
        CacheKeyView::Static(t, p) => text_fits(t) && settings_fit(p),
        CacheKeyView::Dynamic(t) => text_fits(t),
        CacheKeyView::Full(e, t) => text_fits(e) && text_fits(t),
    }
}

/// Appends [`u64_bytes`] of `n` to `dst`.
pub fn append_u64(dst: &mut Vec<u8>, n: u64)
    ensures
        final(dst)@ == old(dst)@ + u64_bytes(n as nat),
{
    dst.push(((n / 0x100_0000_0000_0000) % 256) as u8);
    dst.push(((n / 0x1_0000_0000_0000) % 256) as u8);
    dst.push(((n / 0x100_0000_0000) % 256) as u8);
    dst.push(((n / 0x1_0000_0000) % 256) as u8);
    dst.push(((n / 0x100_0000) % 256) as u8);
    dst.push(((n / 0x1_0000) % 256) as u8);
    dst.push(((n / 0x100) % 256) as u8);
    dst.push((n % 256) as u8);
    assert(dst@ =~= old(dst)@ + u64_bytes(n as nat));
}

/// Appends [`u32_bytes`] of `n` to `dst`.
pub fn append_u32(dst: &mut Vec<u8>, n: u32)
    ensures
        final(dst)@ == old(dst)@ + u32_bytes(n as nat),
{
    dst.push(((n / 0x100_0000) % 256) as u8);
    dst.push(((n / 0x1_0000) % 256) as u8);
    dst.push(((n / 0x100) % 256) as u8);
    dst.push((n % 256) as u8);
    assert(dst@ =~= old(dst)@ + u32_bytes(n as nat));
}

/// Appends [`i32_bytes`] of `x` to `dst`.
pub fn append_i32(dst: &mut Vec<u8>, x: i32)
    ensures
        final(dst)@ == old(dst)@ + i32_bytes(x as int),
{
    let shifted: u32 = (x as i64 + 0x8000_0000) as u32;
    append_u32(dst, shifted);
}

/// Appends [`bool_bytes`] of `b` to `dst`.
pub fn append_bool(dst: &mut Vec<u8>, b: bool)
    ensures
        final(dst)@ == old(dst)@ + bool_bytes(b),
{
    dst.push(if b { 1u8 } else { 0u8 });
    assert(dst@ =~= old(dst)@ + bool_bytes(b));
}

/// Appends [`text_bytes`] of `text` to `dst`.
pub fn append_text(dst: &mut Vec<u8>, text: &str)
    ensures
        final(dst)@ == old(dst)@ + text_bytes(text@),
        text_fits(text@),
{
    let chars = to_chars(text);
    append_u64(dst, chars.len() as u64);
    let ghost start = dst@;
    let mut i: usize = 0;
    assert(chars@.take(0) =~= Seq::<char>::empty());
    assert(dst@ =~= start + chars_bytes(chars@.take(0)));
    while i < chars.len()
        invariant
            i <= chars.len(),
            dst@ == start + chars_bytes(chars@.take(i as int)),
        decreases chars.len() - i,
    {
        let c = chars[i];
        proof {
            let t = chars@.take(i + 1);
            assert(t.drop_last() =~= chars@.take(i as int));
            assert(t.last() == c);
        }
        append_u32(dst, c as u32);
        assert(dst@ =~= start + chars_bytes(chars@.take(i + 1)));
        i += 1;
    }
    assert(chars@.take(chars.len() as int) == chars@);
    assert(dst@ =~= old(dst)@ + text_bytes(text@));
}

fn append_levels(dst: &mut Vec<u8>, p: &PersonalitySettings)
    ensures
        final(dst)@ == old(dst)@ + levels_bytes(p@),
        text_fits(p@.voice_type),
{
    append_text(dst, p.voice_type.as_str());
    append_i32(dst, p.volume);
    append_i32(dst, p.speech_rate);
    append_i32(dst, p.drunk_level);
    append_i32(dst, p.sass_level);
    let ghost half = dst@;
    assert(half =~= old(dst)@ + (text_bytes(p@.voice_type) + i32_bytes(p@.volume) + i32_bytes(
        p@.speech_rate,
    ) + i32_bytes(p@.drunk_level) + i32_bytes(p@.sass_level)));
    append_i32(dst, p.tech_expertise);
    append_i32(dst, p.grand_pappi_refs);
    append_i32(dst, p.enthusiasm);
    append_i32(dst, p.anxiety_level);
    assert(dst@ =~= old(dst)@ + levels_bytes(p@));
}

fn append_phrases(dst: &mut Vec<u8>, phrases: &Vec<String>)
    ensures
        final(dst)@ == old(dst)@ + phrases_bytes(strings_view(phrases@)),
        texts_fit(strings_view(phrases@)),
{
    append_u64(dst, phrases.len() as u64);
    let ghost start = dst@;
    let ghost texts = strings_view(phrases@);
    let mut i: usize = 0;
    assert(texts.take(0) =~= Seq::<Seq<char>>::empty());
    assert(dst@ =~= start + texts_bytes(texts.take(0)));
    while i < phrases.len()
        invariant
            i <= phrases.len(),
            texts == strings_view(phrases@),
            dst@ == start + texts_bytes(texts.take(i as int)),
            forall|j: int| 0 <= j < i ==> text_fits(#[trigger] texts[j]),
        decreases phrases.len() - i,
    {
        proof {
            let t = texts.take(i + 1);
            assert(t.drop_last() =~= texts.take(i as int));
            assert(t.last() == phrases@[i as int]@);
        }
        append_text(dst, phrases[i].as_str());
        assert(dst@ =~= start + texts_bytes(texts.take(i + 1)));
        i += 1;
    }
    assert(texts.take(texts.len() as int) == texts);
    assert(dst@ =~= old(dst)@ + phrases_bytes(texts));
}

/// Appends [`settings_bytes`] of `p` to `dst`.
pub fn append_settings(dst: &mut Vec<u8>, p: &PersonalitySettings)
    ensures
        final(dst)@ == old(dst)@ + settings_bytes(p@),
        settings_fit(p@),
{
    append_levels(dst, p);
    append_phrases(dst, &p.catchphrases);
    append_bool(dst, p.audio_enabled);
    append_bool(dst, p.is_1337_mode);
    assert(dst@ =~= old(dst)@ + settings_bytes(p@));
}

/// The byte form of `key`; see [`key_bytes`].
pub fn encode_key(key: &CacheKey) -> (out: Vec<u8>)
    ensures
        out@ == key_bytes(key@),
        key_fits(key@),
{
    let mut out: Vec<u8> = Vec::new();
    out.push(ENCODING_VERSION);
    match key {
        CacheKey::Static(t, p) => {
            out.push(0u8);
            append_text(&mut out, t.as_str());
            append_settings(&mut out, p);
        },
        CacheKey::Dynamic(t) => {
            out.push(1u8);
            append_text(&mut out, t.as_str());
        },
        CacheKey::Full(e, t) => {
            out.push(2u8);
            append_text(&mut out, e.as_str());
            append_text(&mut out, t.as_str());
        },
    }
    assert(out@ =~= key_bytes(key@));
    out
}

/// The byte form of what names a stored clip; see [`phrase_bytes`].
pub fn encode_phrase(text: &str, trigger: &str, p: &PersonalitySettings) -> (out: Vec<u8>)
    ensures
        out@ == phrase_bytes(text@, trigger@, p@),
        text_fits(text@),
        text_fits(trigger@),
        settings_fit(p@),
{
    let mut out: Vec<u8> = Vec::new();
    out.push(ENCODING_VERSION);
    out.push(3u8);
    append_text(&mut out, text);
    append_text(&mut out, trigger);
    append_settings(&mut out, p);
    assert(out@ =~= phrase_bytes(text@, trigger@, p@));
    out
}

/// The name under which the clip for `key` is filed: the hexadecimal
/// SHA-256 digest of the key's byte form.
pub open spec fn key_name(key: CacheKeyView) -> Seq<char> {
    hex(sha256_digest(key_bytes(key)))
}

/// Computes [`key_name`]: 64 hexadecimal digits.
pub fn name_of_key(key: &CacheKey) -> (r: String)
    ensures
        r@ == key_name(key@),
        r@.len() == 64,
{
    let bytes = encode_key(key);
    let digest = sha256(&bytes);
    hex_lower(&digest)
}

} // verus!
