//! The byte form of a cache identity determines the identity: different
//! keys never share an encoding, so a clash of file names can only come from
//! the digest.

use vstd::prelude::*;
use crate::encoding::{
    bool_bytes,
    chars_bytes,
    ENCODING_VERSION,
    i32_bytes,
    key_bytes,
    key_fits,
    level_fits,
    levels_bytes,
    phrase_bytes,
    phrases_bytes,
    settings_bytes,
    settings_fit,
    text_bytes,
    text_fits,
    texts_bytes,
    texts_fit,
    u32_bytes,
    u64_bytes,
};
use crate::message_system::{CacheKeyView, PersonalitySettingsView};

verus! {

/// Two concatenations that agree, and whose first parts are equally long,
/// agree part by part.
pub proof fn lemma_split(u: Seq<u8>, x: Seq<u8>, v: Seq<u8>, y: Seq<u8>)
    requires
        u + x == v + y,
        u.len() == v.len(),
    ensures
        u == v,
        x == y,
{
    assert(u =~= (u + x).subrange(0, u.len() as int));
    assert(v =~= (v + y).subrange(0, v.len() as int));
    assert(x =~= (u + x).subrange(u.len() as int, (u + x).len() as int));
    assert(y =~= (v + y).subrange(v.len() as int, (v + y).len() as int));
}

/// Concatenation may be regrouped.
pub proof fn lemma_regroup(a: Seq<u8>, b: Seq<u8>, c: Seq<u8>)
    ensures
        (a + b) + c == a + (b + c),
{
    assert((a + b) + c =~= a + (b + c));
}

/// Nothing appended changes nothing.
pub proof fn lemma_append_nothing(a: Seq<u8>)
    ensures
        a + Seq::<u8>::empty() == a,
{
    assert(a + Seq::<u8>::empty() =~= a);
}

/// Four bytes determine the number below 2^32 that they encode.
pub proof fn lemma_u32_bytes_unique(a: nat, b: nat)
    requires
        a <= u32::MAX,
        b <= u32::MAX,
        u32_bytes(a) == u32_bytes(b),
    ensures
        a == b,
{
    let x = u32_bytes(a);
    let y = u32_bytes(b);
    assert(x[0] == y[0] && x[1] == y[1] && x[2] == y[2] && x[3] == y[3]);
    let m = a as u32;
    let n = b as u32;
    assert(m == n) by (bit_vector)
        requires
            (m / 0x100_0000u32) % 256u32 == (n / 0x100_0000u32) % 256u32,
            (m / 0x1_0000u32) % 256u32 == (n / 0x1_0000u32) % 256u32,
            (m / 0x100u32) % 256u32 == (n / 0x100u32) % 256u32,
            m % 256u32 == n % 256u32,
    ;
}

/// Eight bytes determine the number below 2^64 that they encode.
pub proof fn lemma_u64_bytes_unique(a: nat, b: nat)
    requires
        a <= u64::MAX,
        b <= u64::MAX,
        u64_bytes(a) == u64_bytes(b),
    ensures
        a == b,
{
    let x = u64_bytes(a);
    let y = u64_bytes(b);
    assert(x[0] == y[0] && x[1] == y[1] && x[2] == y[2] && x[3] == y[3]);
    assert(x[4] == y[4] && x[5] == y[5] && x[6] == y[6] && x[7] == y[7]);
    let m = a as u64;
    let n = b as u64;
    assert(m == n) by (bit_vector)
        requires
            (m / 0x100_0000_0000_0000u64) % 256u64 == (n / 0x100_0000_0000_0000u64) % 256u64,
            (m / 0x1_0000_0000_0000u64) % 256u64 == (n / 0x1_0000_0000_0000u64) % 256u64,
            (m / 0x100_0000_0000u64) % 256u64 == (n / 0x100_0000_0000u64) % 256u64,
            (m / 0x1_0000_0000u64) % 256u64 == (n / 0x1_0000_0000u64) % 256u64,
            (m / 0x100_0000u64) % 256u64 == (n / 0x100_0000u64) % 256u64,
            (m / 0x1_0000u64) % 256u64 == (n / 0x1_0000u64) % 256u64,
            (m / 0x100u64) % 256u64 == (n / 0x100u64) % 256u64,
            m % 256u64 == n % 256u64,
    ;
}

/// Four bytes determine the signed 32-bit number that they encode.
pub proof fn lemma_i32_bytes_unique(a: int, b: int)
    requires
        level_fits(a),
        level_fits(b),
        i32_bytes(a) == i32_bytes(b),
    ensures
        a == b,
{
    lemma_u32_bytes_unique((a + 0x8000_0000) as nat, (b + 0x8000_0000) as nat);
}

/// A character is determined by its code point.
pub proof fn lemma_code_point_unique(c: char, d: char)
    requires
        c as u32 == d as u32,
    ensures
        c == d,
{
}

/// The characters of a text take four bytes each.
pub proof fn lemma_chars_bytes_len(t: Seq<char>)
    ensures
        chars_bytes(t).len() == 4 * t.len(),
    decreases t.len(),
{
    if t.len() > 0 {
        lemma_chars_bytes_len(t.drop_last());
    }
}

/// The bytes of the characters determine the text.
pub proof fn lemma_chars_bytes_unique(a: Seq<char>, b: Seq<char>)
    requires
        chars_bytes(a) == chars_bytes(b),
    ensures
        a == b,
    decreases a.len(),
{
    lemma_chars_bytes_len(a);
    lemma_chars_bytes_len(b);
    assert(a.len() == b.len());
    if a.len() > 0 {
        lemma_chars_bytes_len(a.drop_last());
        lemma_chars_bytes_len(b.drop_last());
        assert(chars_bytes(a) == chars_bytes(a.drop_last()) + u32_bytes(a.last() as u32 as nat));
        assert(chars_bytes(b) == chars_bytes(b.drop_last()) + u32_bytes(b.last() as u32 as nat));
        lemma_split(
            chars_bytes(a.drop_last()),
            u32_bytes(a.last() as u32 as nat),
            chars_bytes(b.drop_last()),
            u32_bytes(b.last() as u32 as nat),
        );
        lemma_chars_bytes_unique(a.drop_last(), b.drop_last());
        lemma_u32_bytes_unique(a.last() as u32 as nat, b.last() as u32 as nat);
        lemma_code_point_unique(a.last(), b.last());
        assert(a =~= a.drop_last().push(a.last()));
        assert(b =~= b.drop_last().push(b.last()));
    } else {
        assert(a =~= b);
    }
}

/// A text field can be read off the front of a byte string in one way
/// only.
pub proof fn lemma_text_bytes_unique(a: Seq<char>, x: Seq<u8>, b: Seq<char>, y: Seq<u8>)
    requires
        text_fits(a),
        text_fits(b),
        text_bytes(a) + x == text_bytes(b) + y,
    ensures
        a == b,
        x == y,
{
    assert(text_bytes(a) + x =~= u64_bytes(a.len()) + (chars_bytes(a) + x));
    assert(text_bytes(b) + y =~= u64_bytes(b.len()) + (chars_bytes(b) + y));
    lemma_split(u64_bytes(a.len()), chars_bytes(a) + x, u64_bytes(b.len()), chars_bytes(b) + y);
    lemma_u64_bytes_unique(a.len(), b.len());
    lemma_chars_bytes_len(a);
    lemma_chars_bytes_len(b);
    lemma_split(chars_bytes(a), x, chars_bytes(b), y);
    lemma_chars_bytes_unique(a, b);
}

/// The fields of a list of texts, read from the front: the first text's
/// field, then the fields of the rest.
pub proof fn lemma_texts_bytes_front(texts: Seq<Seq<char>>)
    requires
        texts.len() > 0,
    ensures
        texts_bytes(texts) == text_bytes(texts.first()) + texts_bytes(texts.drop_first()),
    decreases texts.len(),
{
    if texts.len() == 1 {
        assert(texts.drop_last() =~= Seq::<Seq<char>>::empty());
        assert(texts.drop_first() =~= Seq::<Seq<char>>::empty());
        assert(texts_bytes(texts) =~= text_bytes(texts.first()) + texts_bytes(texts.drop_first()));
    } else {
        let init = texts.drop_last();
        lemma_texts_bytes_front(init);
        assert(init.first() == texts.first());
        assert(init.drop_first() =~= texts.drop_first().drop_last());
        assert(texts.drop_first().last() == texts.last());
        assert(texts_bytes(texts) =~= text_bytes(texts.first()) + texts_bytes(texts.drop_first()));
    }
}

/// Equally many text fields can be read off the front of a byte string in
/// one way only.
pub proof fn lemma_texts_bytes_unique(a: Seq<Seq<char>>, x: Seq<u8>, b: Seq<Seq<char>>, y: Seq<u8>)
    requires
        texts_fit(a),
        texts_fit(b),
        a.len() == b.len(),
        texts_bytes(a) + x == texts_bytes(b) + y,
    ensures
        a == b,
        x == y,
    decreases a.len(),
{
    if a.len() == 0 {
        assert(a =~= b);
        assert(texts_bytes(a) + x =~= x);
        assert(texts_bytes(b) + y =~= y);
    } else {
        lemma_texts_bytes_front(a);
        lemma_texts_bytes_front(b);
        let ra = a.drop_first();
        let rb = b.drop_first();
        assert(texts_bytes(a) + x =~= text_bytes(a.first()) + (texts_bytes(ra) + x));
        assert(texts_bytes(b) + y =~= text_bytes(b.first()) + (texts_bytes(rb) + y));
        assert(text_fits(a[0]) && text_fits(b[0]));
        lemma_text_bytes_unique(a.first(), texts_bytes(ra) + x, b.first(), texts_bytes(rb) + y);
        assert forall|i: int| 0 <= i < ra.len() implies text_fits(#[trigger] ra[i]) by {
            assert(ra[i] == a[i + 1]);
        }
        assert forall|i: int| 0 <= i < rb.len() implies text_fits(#[trigger] rb[i]) by {
            assert(rb[i] == b[i + 1]);
        }
        lemma_texts_bytes_unique(ra, x, rb, y);
        assert(a =~= seq![a.first()] + ra);
        assert(b =~= seq![b.first()] + rb);
    }
}

/// A list of catchphrases can be read off the front of a byte string in one
/// way only.
pub proof fn lemma_phrases_bytes_unique(a: Seq<Seq<char>>, x: Seq<u8>, b: Seq<Seq<char>>, y: Seq<u8>)
    requires
        texts_fit(a),
        texts_fit(b),
        phrases_bytes(a) + x == phrases_bytes(b) + y,
    ensures
        a == b,
        x == y,
{
    assert(phrases_bytes(a) + x =~= u64_bytes(a.len()) + (texts_bytes(a) + x));
    assert(phrases_bytes(b) + y =~= u64_bytes(b.len()) + (texts_bytes(b) + y));
    lemma_split(u64_bytes(a.len()), texts_bytes(a) + x, u64_bytes(b.len()), texts_bytes(b) + y);
    lemma_u64_bytes_unique(a.len(), b.len());
    lemma_texts_bytes_unique(a, x, b, y);
}

/// A level can be read off the front of a byte string in one way only.
pub proof fn lemma_level_bytes_unique(a: int, x: Seq<u8>, b: int, y: Seq<u8>)
    requires
        level_fits(a),
        level_fits(b),
        i32_bytes(a) + x == i32_bytes(b) + y,
    ensures
        a == b,
        x == y,
{
    lemma_split(i32_bytes(a), x, i32_bytes(b), y);
    lemma_i32_bytes_unique(a, b);
}

/// A flag can be read off the front of a byte string in one way only.
pub proof fn lemma_flag_bytes_unique(a: bool, x: Seq<u8>, b: bool, y: Seq<u8>)
    requires
        bool_bytes(a) + x == bool_bytes(b) + y,
    ensures
        a == b,
        x == y,
{
    lemma_split(bool_bytes(a), x, bool_bytes(b), y);
    assert(bool_bytes(a)[0] == bool_bytes(b)[0]);
}

/// The last four levels of settings, followed by `x`.
spec fn late_levels(p: PersonalitySettingsView, x: Seq<u8>) -> Seq<u8> {
    i32_bytes(p.tech_expertise) + (i32_bytes(p.grand_pappi_refs) + (i32_bytes(p.enthusiasm) + (
    i32_bytes(p.anxiety_level) + x)))
}

/// The first four levels of settings, followed by `x`.
spec fn early_levels(p: PersonalitySettingsView, x: Seq<u8>) -> Seq<u8> {
    i32_bytes(p.volume) + (i32_bytes(p.speech_rate) + (i32_bytes(p.drunk_level) + (i32_bytes(
        p.sass_level,
    ) + x)))
}

proof fn lemma_late_levels_unique(
    p: PersonalitySettingsView,
    x: Seq<u8>,
    q: PersonalitySettingsView,
    y: Seq<u8>,
)
    requires
        settings_fit(p),
        settings_fit(q),
        late_levels(p, x) == late_levels(q, y),
    ensures
        p.tech_expertise == q.tech_expertise,
        p.grand_pappi_refs == q.grand_pappi_refs,
        p.enthusiasm == q.enthusiasm,
        p.anxiety_level == q.anxiety_level,
        x == y,
{
    let p3 = i32_bytes(p.anxiety_level) + x;
    let q3 = i32_bytes(q.anxiety_level) + y;
    let p2 = i32_bytes(p.enthusiasm) + p3;
    let q2 = i32_bytes(q.enthusiasm) + q3;
    let p1 = i32_bytes(p.grand_pappi_refs) + p2;
    let q1 = i32_bytes(q.grand_pappi_refs) + q2;
    lemma_level_bytes_unique(p.tech_expertise, p1, q.tech_expertise, q1);
    lemma_level_bytes_unique(p.grand_pappi_refs, p2, q.grand_pappi_refs, q2);
    lemma_level_bytes_unique(p.enthusiasm, p3, q.enthusiasm, q3);
    lemma_level_bytes_unique(p.anxiety_level, x, q.anxiety_level, y);
}

proof fn lemma_early_levels_unique(
    p: PersonalitySettingsView,
    x: Seq<u8>,
    q: PersonalitySettingsView,
    y: Seq<u8>,
)
    requires
        settings_fit(p),
        settings_fit(q),
        early_levels(p, x) == early_levels(q, y),
    ensures
        p.volume == q.volume,
        p.speech_rate == q.speech_rate,
        p.drunk_level == q.drunk_level,
        p.sass_level == q.sass_level,
        x == y,
{
    let p3 = i32_bytes(p.sass_level) + x;
    let q3 = i32_bytes(q.sass_level) + y;
    let p2 = i32_bytes(p.drunk_level) + p3;
    let q2 = i32_bytes(q.drunk_level) + q3;
    let p1 = i32_bytes(p.speech_rate) + p2;
    let q1 = i32_bytes(q.speech_rate) + q2;
    lemma_level_bytes_unique(p.volume, p1, q.volume, q1);
    lemma_level_bytes_unique(p.speech_rate, p2, q.speech_rate, q2);
    lemma_level_bytes_unique(p.drunk_level, p3, q.drunk_level, q3);
    lemma_level_bytes_unique(p.sass_level, x, q.sass_level, y);
}

proof fn lemma_levels_regrouped(p: PersonalitySettingsView, x: Seq<u8>)
    ensures
        levels_bytes(p) + x == text_bytes(p.voice_type) + early_levels(p, late_levels(p, x)),
{
    let t = text_bytes(p.voice_type);
    let v1 = i32_bytes(p.volume);
    let v2 = i32_bytes(p.speech_rate);
    let v3 = i32_bytes(p.drunk_level);
    let v4 = i32_bytes(p.sass_level);
    let v5 = i32_bytes(p.tech_expertise);
    let v6 = i32_bytes(p.grand_pappi_refs);
    let v7 = i32_bytes(p.enthusiasm);
    let v8 = i32_bytes(p.anxiety_level);
    let a1 = t + v1;
    let a2 = a1 + v2;
    let a3 = a2 + v3;
    let a4 = a3 + v4;
    let a5 = a4 + v5;
    let a6 = a5 + v6;
    let a7 = a6 + v7;
    let r8 = v8 + x;
    let r7 = v7 + r8;
    let r6 = v6 + r7;
    let r5 = v5 + r6;
    let r4 = v4 + r5;
    let r3 = v3 + r4;
    let r2 = v2 + r3;
    lemma_regroup(a7, v8, x);
    lemma_regroup(a6, v7, r8);
    lemma_regroup(a5, v6, r7);
    lemma_regroup(a4, v5, r6);
    lemma_regroup(a3, v4, r5);
    lemma_regroup(a2, v3, r4);
    lemma_regroup(a1, v2, r3);
    lemma_regroup(t, v1, r2);
}

/// The scalar settings can be read off the front of a byte string in one
/// way only.
pub proof fn lemma_levels_bytes_unique(
    p: PersonalitySettingsView,
    x: Seq<u8>,
    q: PersonalitySettingsView,
    y: Seq<u8>,
)
    requires
        settings_fit(p),
        settings_fit(q),
        levels_bytes(p) + x == levels_bytes(q) + y,
    ensures
        p.voice_type == q.voice_type,
        p.volume == q.volume,
        p.speech_rate == q.speech_rate,
        p.drunk_level == q.drunk_level,
        p.sass_level == q.sass_level,
        p.tech_expertise == q.tech_expertise,
        p.grand_pappi_refs == q.grand_pappi_refs,
        p.enthusiasm == q.enthusiasm,
        p.anxiety_level == q.anxiety_level,
        x == y,
{
    let pl = late_levels(p, x);
    let ql = late_levels(q, y);
    let pe = early_levels(p, pl);
    let qe = early_levels(q, ql);
    lemma_levels_regrouped(p, x);
    lemma_levels_regrouped(q, y);
    lemma_text_bytes_unique(p.voice_type, pe, q.voice_type, qe);
    lemma_early_levels_unique(p, pl, q, ql);
    lemma_late_levels_unique(p, x, q, y);
}

proof fn lemma_settings_regrouped(p: PersonalitySettingsView, x: Seq<u8>)
    ensures
        settings_bytes(p) + x == levels_bytes(p) + (phrases_bytes(p.catchphrases) + (bool_bytes(
            p.audio_enabled,
        ) + (bool_bytes(p.is_1337_mode) + x))),
{
    let l = levels_bytes(p);
    let c = phrases_bytes(p.catchphrases);
    let f = bool_bytes(p.audio_enabled);
    let g = bool_bytes(p.is_1337_mode);
    lemma_regroup((l + c) + f, g, x);
    lemma_regroup(l + c, f, g + x);
    lemma_regroup(l, c, f + (g + x));
}

/// Settings can be read off the front of a byte string in one way only.
pub proof fn lemma_settings_bytes_unique(
    p: PersonalitySettingsView,
    x: Seq<u8>,
    q: PersonalitySettingsView,
    y: Seq<u8>,
)
    requires
        settings_fit(p),
        settings_fit(q),
        settings_bytes(p) + x == settings_bytes(q) + y,
    ensures
        p == q,
        x == y,
{
    let p3 = bool_bytes(p.is_1337_mode) + x;
    let q3 = bool_bytes(q.is_1337_mode) + y;
    let p2 = bool_bytes(p.audio_enabled) + p3;
    let q2 = bool_bytes(q.audio_enabled) + q3;
    let p1 = phrases_bytes(p.catchphrases) + p2;
    let q1 = phrases_bytes(q.catchphrases) + q2;
    lemma_settings_regrouped(p, x);
    lemma_settings_regrouped(q, y);
    lemma_levels_bytes_unique(p, p1, q, q1);
    lemma_phrases_bytes_unique(p.catchphrases, p2, q.catchphrases, q2);
    lemma_flag_bytes_unique(p.audio_enabled, p3, q.audio_enabled, q3);
    lemma_flag_bytes_unique(p.is_1337_mode, x, q.is_1337_mode, y);
}

/// The byte form of a key determines the key: two keys with the same byte
/// form are the same key.
pub proof fn lemma_key_bytes_unique(a: CacheKeyView, b: CacheKeyView)
    requires
        key_fits(a),
        key_fits(b),
        key_bytes(a) == key_bytes(b),
    ensures
        a == b,
{
    let version = ENCODING_VERSION;
    let (ha, ta) = match a {
        CacheKeyView::Static(t, p) => (seq![version, 0u8], text_bytes(t) + settings_bytes(p)),
        CacheKeyView::Dynamic(t) => (seq![version, 1u8], text_bytes(t)),
        CacheKeyView::Full(e, t) => (seq![version, 2u8], text_bytes(e) + text_bytes(t)),
    };
    let (hb, tb) = match b {
        CacheKeyView::Static(t, p) => (seq![version, 0u8], text_bytes(t) + settings_bytes(p)),
        CacheKeyView::Dynamic(t) => (seq![version, 1u8], text_bytes(t)),
        CacheKeyView::Full(e, t) => (seq![version, 2u8], text_bytes(e) + text_bytes(t)),
    };
    match a {
        CacheKeyView::Static(t, p) => lemma_regroup(ha, text_bytes(t), settings_bytes(p)),
        CacheKeyView::Dynamic(t) => {},
        CacheKeyView::Full(e, t) => lemma_regroup(ha, text_bytes(e), text_bytes(t)),
    }
    match b {
        CacheKeyView::Static(t, p) => lemma_regroup(hb, text_bytes(t), settings_bytes(p)),
        CacheKeyView::Dynamic(t) => {},
        CacheKeyView::Full(e, t) => lemma_regroup(hb, text_bytes(e), text_bytes(t)),
    }
    assert(key_bytes(a) == ha + ta);
    assert(key_bytes(b) == hb + tb);
    lemma_split(ha, ta, hb, tb);
    assert(ha[1] == hb[1]);
    let none = Seq::<u8>::empty();
    match (a, b) {
        (CacheKeyView::Static(t, p), CacheKeyView::Static(u, q)) => {
            lemma_text_bytes_unique(t, settings_bytes(p), u, settings_bytes(q));
            lemma_append_nothing(settings_bytes(p));
            lemma_append_nothing(settings_bytes(q));
            lemma_settings_bytes_unique(p, none, q, none);
        },
        (CacheKeyView::Dynamic(t), CacheKeyView::Dynamic(u)) => {
            lemma_append_nothing(text_bytes(t));
            lemma_append_nothing(text_bytes(u));
            lemma_text_bytes_unique(t, none, u, none);
        },
        (CacheKeyView::Full(e, t), CacheKeyView::Full(f, u)) => {
            lemma_text_bytes_unique(e, text_bytes(t), f, text_bytes(u));
            lemma_append_nothing(text_bytes(t));
            lemma_append_nothing(text_bytes(u));
            lemma_text_bytes_unique(t, none, u, none);
        },
        _ => {},
    }
}

/// The byte form of what names a stored clip determines the text, the
/// trigger kind and the settings.
pub proof fn lemma_phrase_bytes_unique(
    text: Seq<char>,
    trigger: Seq<char>,
    p: PersonalitySettingsView,
    other_text: Seq<char>,
    other_trigger: Seq<char>,
    q: PersonalitySettingsView,
)
    requires
        text_fits(text),
        text_fits(trigger),
        settings_fit(p),
        text_fits(other_text),
        text_fits(other_trigger),
        settings_fit(q),
        phrase_bytes(text, trigger, p) == phrase_bytes(other_text, other_trigger, q),
    ensures
        text == other_text,
        trigger == other_trigger,
        p == q,
{
    let none = Seq::<u8>::empty();
    let head = seq![ENCODING_VERSION, 3u8];
    let sa = settings_bytes(p);
    let sb = settings_bytes(q);
    let ta = text_bytes(text) + (text_bytes(trigger) + sa);
    let tb = text_bytes(other_text) + (text_bytes(other_trigger) + sb);
    lemma_regroup(head + text_bytes(text), text_bytes(trigger), sa);
    lemma_regroup(head, text_bytes(text), text_bytes(trigger) + sa);
    lemma_regroup(head + text_bytes(other_text), text_bytes(other_trigger), sb);
    lemma_regroup(head, text_bytes(other_text), text_bytes(other_trigger) + sb);
    assert(phrase_bytes(text, trigger, p) == head + ta);
    assert(phrase_bytes(other_text, other_trigger, q) == head + tb);
    lemma_split(head, ta, head, tb);
    lemma_text_bytes_unique(text, text_bytes(trigger) + sa, other_text, text_bytes(other_trigger) + sb);
    lemma_text_bytes_unique(trigger, sa, other_trigger, sb);
    lemma_append_nothing(sa);
    lemma_append_nothing(sb);
    lemma_settings_bytes_unique(p, none, q, none);
}

} // verus!
