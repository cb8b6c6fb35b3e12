//! The personality that flavours spoken messages.
//!
//! Every intensity is a fixed-point number in ten-thousandths: `10_000` is
//! full intensity, `7_000` is 0.7. The speech rate uses the same unit, so
//! `10_000` is normal speed.

use vstd::prelude::*;
use crate::message_system::{
    copy_strings,
    derive_key,
    MessagePart,
    MessagePartView,
    parts_view,
    PersonalitySettings,
    PersonalitySettingsView,
    strings_view,
};
use crate::random::random_below;
use crate::text::{
    append_repeated,
    append_str,
    from_chars,
    has_digit,
    is_blank,
    lemma_normalize_empty_iff_blank,
    lemma_repeat_of_one_char,
    lemma_replace_leaves_none,
    normalize,
    normalize_chars,
    read_first_number,
    repeat,
    replace_char,
    replace_in_chars,
    same_text,
    to_chars,
};

verus! {

/// Full intensity, and normal speech rate, in ten-thousandths.
pub const FULL_SCALE: i32 = 10_000;

/// Lowest speech rate that clamping allows (half speed).
pub const MIN_SPEECH_RATE: i32 = 5_000;

/// Highest speech rate that clamping allows (double speed).
pub const MAX_SPEECH_RATE: i32 = 20_000;

/// The slurring step applies above this drunk level.
pub const DRUNK_THRESHOLD: i32 = 7_000;

/// The catchphrase step may apply above this sass level.
pub const SASS_THRESHOLD: i32 = 5_000;

/// The technical suffix is added above this expertise level.
pub const TECH_THRESHOLD: i32 = 8_000;

/// The quotation step may apply above this reference level.
pub const GRAND_PAPPI_THRESHOLD: i32 = 3_000;

/// The stutter step applies above this anxiety level.
pub const ANXIETY_THRESHOLD: i32 = 7_000;

/// The exclamation step applies above this enthusiasm level.
pub const ENTHUSIASM_THRESHOLD: i32 = 8_000;

/// `x` limited to the closed range from `lo` to `hi`.
pub open spec fn clamp_int(x: int, lo: int, hi: int) -> int {
    if x < lo {
        lo
    } else if x > hi {
        hi
    } else {
        x
    }
}

/// Computes [`clamp_int`] on machine integers.
pub fn clamp_level(x: i32, lo: i32, hi: i32) -> (r: i32)
    requires
        lo <= hi,
    ensures
        r as int == clamp_int(x as int, lo as int, hi as int),
        lo <= r <= hi,
{
    if x < lo {
        lo
    } else if x > hi {
        hi
    } else {
        x
    }
}

/// A level in ten-thousandths reduced to whole percentage points, rounding
/// toward zero.
pub open spec fn quantize(level: int) -> int {
    if level >= 0 {
        level / 100
    } else {
        -((-level) / 100)
    }
}

/// Computes [`quantize`].
pub fn quantize_level(level: i32) -> (r: i32)
    ensures
        r as int == quantize(level as int),
{
    let wide: i64 = level as i64;
    if wide >= 0 {
        (wide / 100) as i32
    } else {
        (-((-wide) / 100)) as i32
    }
}

/// The mutable personality of the monitor's voice.
#[derive(Debug, Clone)]
pub struct AIPersonality {
    /// The voice used for synthesis.
    pub voice_type: String,
    /// Playback volume, `0` muted to `10_000` loudest.
    pub volume: i32,
    /// Speech rate, `10_000` being normal speed.
    pub speech_rate: i32,
    /// How slurred the speech is.
    pub drunk_level: i32,
    /// How likely a catchphrase is.
    pub sass_level: i32,
    /// How technical the wording is.
    pub tech_expertise: i32,
    /// How likely a quotation is.
    pub grand_pappi_references: i32,
    /// How excited the wording is.
    pub enthusiasm: i32,
    /// How nervous the wording is.
    pub anxiety_level: i32,
    /// The catchphrases to draw from.
    pub catchphrases: Vec<String>,
    /// Whether clips are played at all.
    pub audio_enabled: bool,
    /// Whether the warp mode is on.
    pub is_1337_mode: bool,
}

/// Mathematical model of an [`AIPersonality`].
pub struct AIPersonalityView {
    pub voice_type: Seq<char>,
    pub volume: int,
    pub speech_rate: int,
    pub drunk_level: int,
    pub sass_level: int,
    pub tech_expertise: int,
    pub grand_pappi_references: int,
    pub enthusiasm: int,
    pub anxiety_level: int,
    pub catchphrases: Seq<Seq<char>>,
    pub audio_enabled: bool,
    pub is_1337_mode: bool,
}

impl View for AIPersonality {
    type V = AIPersonalityView;

    open spec fn view(&self) -> AIPersonalityView {
        AIPersonalityView {
            voice_type: self.voice_type@,
            volume: self.volume as int,
            speech_rate: self.speech_rate as int,
            drunk_level: self.drunk_level as int,
            sass_level: self.sass_level as int,
            tech_expertise: self.tech_expertise as int,
            grand_pappi_references: self.grand_pappi_references as int,
            enthusiasm: self.enthusiasm as int,
            anxiety_level: self.anxiety_level as int,
            catchphrases: strings_view(self.catchphrases@),
            audio_enabled: self.audio_enabled,
            is_1337_mode: self.is_1337_mode,
        }
    }
}

impl AIPersonalityView {
    /// Every intensity and the volume lie between `0` and `10_000`, and the
    /// speech rate between `5_000` and `20_000`.
    pub open spec fn is_clamped(self) -> bool {
        &&& 0 <= self.volume <= 10_000
        &&& 5_000 <= self.speech_rate <= 20_000
        &&& 0 <= self.drunk_level <= 10_000
        &&& 0 <= self.sass_level <= 10_000
        &&& 0 <= self.tech_expertise <= 10_000
        &&& 0 <= self.grand_pappi_references <= 10_000
        &&& 0 <= self.enthusiasm <= 10_000
        &&& 0 <= self.anxiety_level <= 10_000
    }

    /// The snapshot with every scalar brought into its range, each on its
    /// own; nothing else changes.
    pub open spec fn clamped(self) -> AIPersonalityView {
        AIPersonalityView {
            volume: clamp_int(self.volume, 0, 10_000),
            speech_rate: clamp_int(self.speech_rate, 5_000, 20_000),
            drunk_level: clamp_int(self.drunk_level, 0, 10_000),
            sass_level: clamp_int(self.sass_level, 0, 10_000),
            tech_expertise: clamp_int(self.tech_expertise, 0, 10_000),
            grand_pappi_references: clamp_int(self.grand_pappi_references, 0, 10_000),
            enthusiasm: clamp_int(self.enthusiasm, 0, 10_000),
            anxiety_level: clamp_int(self.anxiety_level, 0, 10_000),
            ..self
        }
    }

    /// The snapshot quantized to whole percentage points, as it enters a
    /// cache key.
    pub open spec fn settings(self) -> PersonalitySettingsView {
        PersonalitySettingsView {
            voice_type: self.voice_type,
            volume: quantize(self.volume),
            speech_rate: quantize(self.speech_rate),
            drunk_level: quantize(self.drunk_level),
            sass_level: quantize(self.sass_level),
            tech_expertise: quantize(self.tech_expertise),
            grand_pappi_refs: quantize(self.grand_pappi_references),
            enthusiasm: quantize(self.enthusiasm),
            anxiety_level: quantize(self.anxiety_level),
            catchphrases: self.catchphrases,
            audio_enabled: self.audio_enabled,
            is_1337_mode: self.is_1337_mode,
        }
    }

    /// The personality a new session starts with.
    pub open spec fn initial() -> AIPersonalityView {
        AIPersonalityView {
            voice_type: "alloy"@,
            volume: 8_000,
            speech_rate: 10_000,
            drunk_level: 0,
            sass_level: 5_000,
            tech_expertise: 7_000,
            grand_pappi_references: 3_000,
            enthusiasm: 6_000,
            anxiety_level: 2_000,
            catchphrases: seq![
                "Beep boop!"@,
                "Now we're cooking with quantum fuel!"@,
                "Holy processors, Batman!"@,
            ],
            audio_enabled: true,
            is_1337_mode: false,
        }
    }
}

/// A level in ten-thousandths reduced to thousandths, rounding toward zero:
/// the level without its fourth decimal place.
pub open spec fn thousandths(level: int) -> int {
    if level >= 0 {
        level / 10
    } else {
        -((-level) / 10)
    }
}

/// Whether two snapshots differ at most in the fourth decimal place of their
/// scalars: every scalar agrees to three decimal places, and everything else
/// is equal.
pub open spec fn same_to_three_places(a: AIPersonalityView, b: AIPersonalityView) -> bool {
    &&& a.voice_type == b.voice_type
    &&& a.catchphrases == b.catchphrases
    &&& a.audio_enabled == b.audio_enabled
    &&& a.is_1337_mode == b.is_1337_mode
    &&& thousandths(a.volume) == thousandths(b.volume)
    &&& thousandths(a.speech_rate) == thousandths(b.speech_rate)
    &&& thousandths(a.drunk_level) == thousandths(b.drunk_level)
    &&& thousandths(a.sass_level) == thousandths(b.sass_level)
    &&& thousandths(a.tech_expertise) == thousandths(b.tech_expertise)
    &&& thousandths(a.grand_pappi_references) == thousandths(b.grand_pappi_references)
    &&& thousandths(a.enthusiasm) == thousandths(b.enthusiasm)
    &&& thousandths(a.anxiety_level) == thousandths(b.anxiety_level)
}

/// Quantizing looks at no more than the first two decimal places.
pub proof fn lemma_quantize_ignores_fourth_place(x: int, y: int)
    requires
        thousandths(x) == thousandths(y),
    ensures
        quantize(x) == quantize(y),
{
    let ax = if x >= 0 { x } else { -x };
    let ay = if y >= 0 { y } else { -y };
    assert(ax / 100 == (ax / 10) / 10);
    assert(ay / 100 == (ay / 10) / 10);
}

/// Quantization tolerance. Snapshots that differ at most in the fourth
/// decimal place of their scalars quantize to the same settings, and so give
/// every segment the same cache key.
pub proof fn lemma_quantization_tolerance(
    a: AIPersonalityView,
    b: AIPersonalityView,
    part: MessagePartView,
)
    requires
        same_to_three_places(a, b),
    ensures
        a.settings() == b.settings(),
        derive_key(part, a.settings()) == derive_key(
            part,
            b.settings(),
        ),
{
    lemma_quantize_ignores_fourth_place(a.volume, b.volume);
    lemma_quantize_ignores_fourth_place(a.speech_rate, b.speech_rate);
    lemma_quantize_ignores_fourth_place(a.drunk_level, b.drunk_level);
    lemma_quantize_ignores_fourth_place(a.sass_level, b.sass_level);
    lemma_quantize_ignores_fourth_place(a.tech_expertise, b.tech_expertise);
    lemma_quantize_ignores_fourth_place(a.grand_pappi_references, b.grand_pappi_references);
    lemma_quantize_ignores_fourth_place(a.enthusiasm, b.enthusiasm);
    lemma_quantize_ignores_fourth_place(a.anxiety_level, b.anxiety_level);
}

/// Clamping. Whatever the scalars were, a clamped snapshot has every
/// intensity and the volume within `0..=10_000` and the speech rate within
/// `5_000..=20_000`; a snapshot already within range is left as it is, so
/// clamping twice is clamping once.
pub proof fn lemma_clamped_is_clamped(p: AIPersonalityView)
    ensures
        p.clamped().is_clamped(),
        p.is_clamped() ==> p.clamped() == p,
        p.clamped().clamped() == p.clamped(),
{
}

/// Whether `voice` is one of the voices the provider offers: `alloy`,
/// `echo`, `fable`, `nova`, `onyx` or `shimmer`.
pub open spec fn is_voice(voice: Seq<char>) -> bool {
    voice == "alloy"@ || voice == "echo"@ || voice == "fable"@ || voice == "nova"@ || voice
        == "onyx"@ || voice == "shimmer"@
}

/// Executable form of [`is_voice`].
pub fn is_known_voice(voice: &str) -> (r: bool)
    ensures
        r == is_voice(voice@),
{
    same_text(voice, "alloy") || same_text(voice, "echo")
        || same_text(voice, "fable") || same_text(voice, "nova")
        || same_text(voice, "onyx") || same_text(voice, "shimmer")
}

/// The sentence that tries out the voice of `p`.
pub open spec fn audio_test_text(p: AIPersonalityView) -> Seq<char> {
    if p.drunk_level > 5_000 {
        "Hey there, let's test these awesome settings!"@
    } else if p.sass_level > 5_000 {
        "Oh great, another test? Fine, let's do this."@
    } else if p.anxiety_level > 5_000 {
        "Um... testing the voice settings... if that's okay?"@
    } else if p.enthusiasm > 5_000 {
        "WOW! Time to test these AMAZING voice settings!"@
    } else {
        "Testing personality and voice settings."@
    }
}

impl Default for AIPersonality {
    fn default() -> (r: Self)
        ensures
            r@ == AIPersonalityView::initial(),
            r@.is_clamped(),
    {
        let mut catchphrases: Vec<String> = Vec::new();
        catchphrases.push(String::from_str("Beep boop!"));
        catchphrases.push(String::from_str("Now we're cooking with quantum fuel!"));
        catchphrases.push(String::from_str("Holy processors, Batman!"));
        let r = AIPersonality {
            voice_type: String::from_str("alloy"),
            volume: 8_000,
            speech_rate: 10_000,
            drunk_level: 0,
            sass_level: 5_000,
            tech_expertise: 7_000,
            grand_pappi_references: 3_000,
            enthusiasm: 6_000,
            anxiety_level: 2_000,
            catchphrases,
            audio_enabled: true,
            is_1337_mode: false,
        };
        assert(r@.catchphrases =~= AIPersonalityView::initial().catchphrases);
        r
    }
}

impl AIPersonality {
    /// Brings every scalar into its range: intensities and volume into
    /// `0..=10_000`, the speech rate into `5_000..=20_000`. Values already in
    /// range, and every other field, stay as they are.
    pub fn clamp_values(&mut self)
        ensures
            final(self)@ == old(self)@.clamped(),
            final(self)@.is_clamped(),
    {
        self.drunk_level = clamp_level(self.drunk_level, 0, FULL_SCALE);
        self.sass_level = clamp_level(self.sass_level, 0, FULL_SCALE);
        self.tech_expertise = clamp_level(self.tech_expertise, 0, FULL_SCALE);
        self.grand_pappi_references = clamp_level(self.grand_pappi_references, 0, FULL_SCALE);
        self.enthusiasm = clamp_level(self.enthusiasm, 0, FULL_SCALE);
        self.anxiety_level = clamp_level(self.anxiety_level, 0, FULL_SCALE);
        self.volume = clamp_level(self.volume, 0, FULL_SCALE);
        self.speech_rate = clamp_level(self.speech_rate, MIN_SPEECH_RATE, MAX_SPEECH_RATE);
    }

    /// Switches audio on or off and returns the announcement of the new
    /// state.
    pub fn toggle_audio(&mut self) -> (message: String)
        ensures
            final(self)@ == (AIPersonalityView {
                audio_enabled: !old(self)@.audio_enabled,
                ..old(self)@
            }),
            message@ == (if final(self)@.audio_enabled {
                "Audio systems back online! Ready to rock and roll!"@
            } else {
                "Going silent mode. Just like Grand Pappi during his meditation sessions."@
            }),
    {
        self.audio_enabled = !self.audio_enabled;
        if self.audio_enabled {
            String::from_str("Audio systems back online! Ready to rock and roll!")
        } else {
            String::from_str(
                "Going silent mode. Just like Grand Pappi during his meditation sessions.",
            )
        }
    }

    /// Puts volume and speech rate back to their initial values and returns
    /// the announcement.
    pub fn reset_audio(&mut self) -> (message: String)
        ensures
            final(self)@ == (AIPersonalityView {
                volume: 8_000,
                speech_rate: 10_000,
                ..old(self)@
            }),
            message@
                == "Audio settings reset to factory defaults. Just like Grand Pappi taught me!"@,
    {
        self.volume = 8_000;
        self.speech_rate = FULL_SCALE;
        String::from_str(
            "Audio settings reset to factory defaults. Just like Grand Pappi taught me!",
        )
    }

    /// The farewell spoken on shutdown.
    pub fn get_exit_message(&self) -> (message: String)
        ensures
            message@
                == "Shutting down systems. Grand Pappi always said to leave things better than we found them. Stay awesome, Captain!"@,
    {
        String::from_str(
            "Shutting down systems. Grand Pappi always said to leave things better than we found them. Stay awesome, Captain!",
        )
    }

    /// Switches the warp mode on or off and returns the announcement of the
    /// new state.
    pub fn toggle_1337_mode(&mut self) -> (message: String)
        ensures
            final(self)@ == (AIPersonalityView {
                is_1337_mode: !old(self)@.is_1337_mode,
                ..old(self)@
            }),
            message@ == (if final(self)@.is_1337_mode {
                "WARP DRIVE ENGAGED! Time to show these bits who's boss!"@
            } else {
                "Returning to normal space-time. That was quite a ride!"@
            }),
    {
        self.is_1337_mode = !self.is_1337_mode;
        if self.is_1337_mode {
            String::from_str("WARP DRIVE ENGAGED! Time to show these bits who's boss!")
        } else {
            String::from_str("Returning to normal space-time. That was quite a ride!")
        }
    }

    /// The snapshot quantized to whole percentage points.
    pub fn to_settings(&self) -> (r: PersonalitySettings)
        ensures
            r@ == self@.settings(),
    {
        PersonalitySettings {
            voice_type: self.voice_type.clone(),
            volume: quantize_level(self.volume),
            speech_rate: quantize_level(self.speech_rate),
            drunk_level: quantize_level(self.drunk_level),
            sass_level: quantize_level(self.sass_level),
            tech_expertise: quantize_level(self.tech_expertise),
            grand_pappi_refs: quantize_level(self.grand_pappi_references),
            enthusiasm: quantize_level(self.enthusiasm),
            anxiety_level: quantize_level(self.anxiety_level),
            catchphrases: copy_strings(&self.catchphrases),
            audio_enabled: self.audio_enabled,
            is_1337_mode: self.is_1337_mode,
        }
    }

    /// The sentence spoken to try out the voice: it shows off the first
    /// trait, in the order drunk, sassy, anxious, enthusiastic, whose level
    /// is above one half.
    pub fn audio_test_message(&self) -> (message: String)
        ensures
            message@ == audio_test_text(self@),
    {
        if self.drunk_level > 5_000 {
            String::from_str("Hey there, let's test these awesome settings!")
        } else if self.sass_level > 5_000 {
            String::from_str("Oh great, another test? Fine, let's do this.")
        } else if self.anxiety_level > 5_000 {
            String::from_str("Um... testing the voice settings... if that's okay?")
        } else if self.enthusiasm > 5_000 {
            String::from_str("WOW! Time to test these AMAZING voice settings!")
        } else {
            String::from_str("Testing personality and voice settings.")
        }
    }

    /// A personality exists fully formed: always `true`.
    pub fn is_initialized(&self) -> (r: bool)
        ensures
            r,
    {
        true
    }
}

// ---------------------------------------------------------------------
// The composer's steps
// ---------------------------------------------------------------------

/// The outcomes of chance that one composition consumes.
///
/// A draw is compared against an intensity in ten-thousandths: the step
/// applies when the draw is below the level, so a uniform draw from
/// `0..10_000` applies it with probability equal to the intensity. A pick
/// selects from a list by its remainder modulo the list's length.
#[derive(Debug, Clone, Copy)]
pub struct Draws {
    pub sass_draw: i32,
    pub catchphrase_pick: usize,
    pub quote_draw: i32,
    pub quote_pick: usize,
}

impl Draws {
    /// Whether both draws lie in `0..10_000`, as uniform draws do.
    pub open spec fn in_range(self) -> bool {
        0 <= self.sass_draw < 10_000 && 0 <= self.quote_draw < 10_000
    }

    /// Whether both picks point into their lists as they are: the
    /// catchphrase pick into a list of `phrases` catchphrases (zero where the
    /// list is empty), the quotation pick into the quotations.
    pub open spec fn picks_within(self, phrases: nat) -> bool {
        &&& phrases > 0 ==> self.catchphrase_pick < phrases
        &&& phrases == 0 ==> self.catchphrase_pick == 0
        &&& self.quote_pick < grand_pappi_quotes().len()
    }
}

/// The quotations that the quotation step draws from.
pub open spec fn grand_pappi_quotes() -> Seq<Seq<char>> {
    seq![
        "Grand Pappi would be proud!"@,
        "Just like Grand Pappi's old quantum bike..."@,
        "Grand Pappi always said this was the way."@,
        "Reminds me of Grand Pappi's workshop..."@,
    ]
}

/// Slurring: above the threshold every `s` becomes `sh`, every `r` becomes
/// `rr`, and an ellipsis is appended.
pub open spec fn drunk_text(text: Seq<char>, level: int) -> Seq<char> {
    if level > DRUNK_THRESHOLD {
        replace_char(replace_char(text, 's', "sh"@), 'r', "rr"@) + "..."@
    } else {
        text
    }
}

/// Catchphrase: above the threshold, with a draw below the level and a
/// non-empty list, a space and the picked phrase are appended.
pub open spec fn sass_text(
    text: Seq<char>,
    level: int,
    phrases: Seq<Seq<char>>,
    draw: int,
    pick: int,
) -> Seq<char> {
    if level > SASS_THRESHOLD && phrases.len() > 0 && draw < level {
        text + " "@ + phrases[pick % (phrases.len() as int)]
    } else {
        text
    }
}

/// Technical flavour: above the threshold a fixed suffix is appended.
pub open spec fn tech_text(text: Seq<char>, level: int) -> Seq<char> {
    if level > TECH_THRESHOLD {
        text + " [Technical analysis: quantum fluctuations nominal]"@
    } else {
        text
    }
}

/// Quotation: above the threshold, with a draw below the level and a
/// non-empty list, the picked quotation and a space are put in front.
pub open spec fn grand_pappi_text(
    text: Seq<char>,
    level: int,
    quotes: Seq<Seq<char>>,
    draw: int,
    pick: int,
) -> Seq<char> {
    if level > GRAND_PAPPI_THRESHOLD && quotes.len() > 0 && draw < level {
        quotes[pick % (quotes.len() as int)] + " "@ + text
    } else {
        text
    }
}

/// Stutter: above the threshold the markers `... um... er... ` are appended,
/// then one ellipsis for each whole unit of intensity.
pub open spec fn anxiety_text(text: Seq<char>, level: int) -> Seq<char> {
    if level > ANXIETY_THRESHOLD {
        text + "... um... er... "@ + repeat("..."@, (level / 10_000) as nat)
    } else {
        text
    }
}

/// Exclamation: above the threshold every full stop becomes an exclamation
/// mark, two more are appended, then three for each whole unit of
/// intensity.
pub open spec fn enthusiasm_text(text: Seq<char>, level: int) -> Seq<char> {
    if level > ENTHUSIASM_THRESHOLD {
        replace_char(text, '.', "!"@) + "!!"@ + repeat("!"@, (level / 10_000 * 3) as nat)
    } else {
        text
    }
}

/// The six steps in their fixed order: slurring, catchphrase, technical
/// flavour, quotation, stutter, exclamation. Each step reads the text that
/// the one before it produced.
pub open spec fn composed_text(p: AIPersonalityView, text: Seq<char>, d: Draws) -> Seq<char> {
    let t1 = drunk_text(text, p.drunk_level);
    let t2 = sass_text(t1, p.sass_level, p.catchphrases, d.sass_draw as int, d.catchphrase_pick as int);
    let t3 = tech_text(t2, p.tech_expertise);
    let t4 = grand_pappi_text(
        t3,
        p.grand_pappi_references,
        grand_pappi_quotes(),
        d.quote_draw as int,
        d.quote_pick as int,
    );
    let t5 = anxiety_text(t4, p.anxiety_level);
    enthusiasm_text(t5, p.enthusiasm)
}

/// What the composer makes of a segment: `Static` text goes through the six
/// steps; `Dynamic` and `Full` segments pass unchanged.
pub open spec fn personalized(p: AIPersonalityView, part: MessagePartView, d: Draws) -> MessagePartView {
    match part {
        MessagePartView::Static(t) => MessagePartView::Static(composed_text(p, t, d)),
        MessagePartView::Dynamic(t) => MessagePartView::Dynamic(t),
        MessagePartView::Full(t) => MessagePartView::Full(t),
    }
}

/// The utterance for a raw text: nothing for a blank text; otherwise one
/// segment holding the whitespace-normal text, tagged `Dynamic` where it
/// embeds a number and `Static` where it does not, and passed through
/// [`personalized`].
pub open spec fn composed(p: AIPersonalityView, text: Seq<char>, d: Draws) -> Seq<MessagePartView> {
    if is_blank(text) {
        Seq::<MessagePartView>::empty()
    } else if has_digit(normalize(text)) {
        seq![personalized(p, MessagePartView::Dynamic(normalize(text)), d)]
    } else {
        seq![personalized(p, MessagePartView::Static(normalize(text)), d)]
    }
}

/// Whether chance plays no part in composing under `p`: neither the
/// catchphrase step nor the quotation step can apply.
pub open spec fn is_deterministic(p: AIPersonalityView) -> bool {
    (p.sass_level <= SASS_THRESHOLD || p.catchphrases.len() == 0) && p.grand_pappi_references
        <= GRAND_PAPPI_THRESHOLD
}

/// Where chance plays no part, the composed text is the same for all draws.
pub proof fn lemma_composed_text_ignores_draws(
    p: AIPersonalityView,
    text: Seq<char>,
    d1: Draws,
    d2: Draws,
)
    requires
        is_deterministic(p),
    ensures
        composed_text(p, text, d1) == composed_text(p, text, d2),
        personalized(p, MessagePartView::Static(text), d1) == personalized(
            p,
            MessagePartView::Static(text),
            d2,
        ),
{
}

/// A personality with no level above its threshold leaves every text as it
/// is.
pub proof fn lemma_calm_personality_keeps_text(p: AIPersonalityView, text: Seq<char>, d: Draws)
    requires
        p.drunk_level <= DRUNK_THRESHOLD,
        p.sass_level <= SASS_THRESHOLD,
        p.tech_expertise <= TECH_THRESHOLD,
        p.grand_pappi_references <= GRAND_PAPPI_THRESHOLD,
        p.anxiety_level <= ANXIETY_THRESHOLD,
        p.enthusiasm <= ENTHUSIASM_THRESHOLD,
    ensures
        composed_text(p, text, d) == text,
        forall|part: MessagePartView| #[trigger] personalized(p, part, d) == part,
{
    assert forall|part: MessagePartView| #[trigger] personalized(p, part, d) == part by {
        match part {
            MessagePartView::Static(t) => {},
            _ => {},
        }
    }
}

/// Above the threshold, the exclamation step leaves no full stop in the
/// text and ends it with at least two exclamation marks.
pub proof fn lemma_enthusiasm_ends_in_exclamation(text: Seq<char>, level: int)
    requires
        level > ENTHUSIASM_THRESHOLD,
    ensures
        !enthusiasm_text(text, level).contains('.'),
        enthusiasm_text(text, level).len() >= 2,
        enthusiasm_text(text, level).last() == '!',
        enthusiasm_text(text, level)[enthusiasm_text(text, level).len() - 2] == '!',
{
    reveal_strlit("!");
    reveal_strlit("!!");
    let bang = "!"@;
    let body = replace_char(text, '.', bang);
    let run = repeat(bang, (level / 10_000 * 3) as nat);
    let out = enthusiasm_text(text, level);
    assert(bang.len() == 1 && bang[0] == '!');
    assert("!!"@.len() == 2 && "!!"@[0] == '!' && "!!"@[1] == '!');
    if bang.contains('.') {
        let i = choose|i: int| 0 <= i < bang.len() && bang[i] == '.';
        assert(false);
    }
    lemma_replace_leaves_none(text, '.', bang);
    lemma_repeat_of_one_char(bang, (level / 10_000 * 3) as nat, '!');
    assert(out == body + "!!"@ + run);
    assert forall|i: int| body.len() <= i < out.len() implies out[i] == '!' by {
        if i < body.len() + 2 {
            assert(out[i] == "!!"@[i - body.len()]);
        } else {
            assert(out[i] == run[i - body.len() - 2]);
        }
    }
    if out.contains('.') {
        let i = choose|i: int| 0 <= i < out.len() && out[i] == '.';
        if i < body.len() {
            assert(body[i] == '.');
            assert(body.contains('.'));
        }
    }
}

/// The slurring step; see [`drunk_text`].
pub fn apply_drunk_effect(text: &str, level: i32) -> (r: String)
    ensures
        r@ == drunk_text(text@, level as int),
{
    if level > DRUNK_THRESHOLD {
        let chars = to_chars(text);
        let sh = to_chars("sh");
        let rr = to_chars("rr");
        let slurred = replace_in_chars(&chars, 's', &sh);
        let mut rolled = replace_in_chars(&slurred, 'r', &rr);
        append_str(&mut rolled, "...");
        from_chars(&rolled)
    } else {
        text.to_owned()
    }
}

/// The catchphrase step; see [`sass_text`].
pub fn apply_sass(text: &str, level: i32, phrases: &Vec<String>, draw: i32, pick: usize) -> (r:
    String)
    ensures
        r@ == sass_text(text@, level as int, strings_view(phrases@), draw as int, pick as int),
{
    if level > SASS_THRESHOLD && phrases.len() > 0 && draw < level {
        let mut out = to_chars(text);
        append_str(&mut out, " ");
        let idx = pick % phrases.len();
        append_str(&mut out, phrases[idx].as_str());
        from_chars(&out)
    } else {
        text.to_owned()
    }
}

/// The technical-flavour step; see [`tech_text`].
pub fn apply_tech_expertise(text: &str, level: i32) -> (r: String)
    ensures
        r@ == tech_text(text@, level as int),
{
    if level > TECH_THRESHOLD {
        let mut out = to_chars(text);
        append_str(&mut out, " [Technical analysis: quantum fluctuations nominal]");
        from_chars(&out)
    } else {
        text.to_owned()
    }
}

/// The quotation step over a given list; see [`grand_pappi_text`].
pub fn apply_grand_pappi(text: &str, level: i32, quotes: &Vec<String>, draw: i32, pick: usize) -> (r:
    String)
    ensures
        r@ == grand_pappi_text(
            text@,
            level as int,
            strings_view(quotes@),
            draw as int,
            pick as int,
        ),
{
    if level > GRAND_PAPPI_THRESHOLD && quotes.len() > 0 && draw < level {
        let idx = pick % quotes.len();
        let mut out = to_chars(quotes[idx].as_str());
        append_str(&mut out, " ");
        append_str(&mut out, text);
        from_chars(&out)
    } else {
        text.to_owned()
    }
}

/// The stutter step; see [`anxiety_text`].
pub fn apply_anxiety(text: &str, level: i32) -> (r: String)
    ensures
        r@ == anxiety_text(text@, level as int),
{
    if level > ANXIETY_THRESHOLD {
        let mut out = to_chars(text);
        append_str(&mut out, "... um... er... ");
        let dots = to_chars("...");
        let times: usize = (level / 10_000) as usize;
        append_repeated(&mut out, &dots, times);
        from_chars(&out)
    } else {
        text.to_owned()
    }
}

/// The exclamation step; see [`enthusiasm_text`].
pub fn apply_enthusiasm(text: &str, level: i32) -> (r: String)
    ensures
        r@ == enthusiasm_text(text@, level as int),
{
    if level > ENTHUSIASM_THRESHOLD {
        let chars = to_chars(text);
        let bang = to_chars("!");
        let mut out = replace_in_chars(&chars, '.', &bang);
        append_str(&mut out, "!!");
        let times: usize = (level / 10_000 * 3) as usize;
        append_repeated(&mut out, &bang, times);
        from_chars(&out)
    } else {
        text.to_owned()
    }
}

/// The quotations that the quotation step draws from, as strings.
pub fn quotes() -> (r: Vec<String>)
    ensures
        strings_view(r@) == grand_pappi_quotes(),
{
    let mut r: Vec<String> = Vec::new();
    r.push(String::from_str("Grand Pappi would be proud!"));
    r.push(String::from_str("Just like Grand Pappi's old quantum bike..."));
    r.push(String::from_str("Grand Pappi always said this was the way."));
    r.push(String::from_str("Reminds me of Grand Pappi's workshop..."));
    assert(strings_view(r@) =~= grand_pappi_quotes());
    r
}

/// Draws the outcomes of chance for one composition with `phrases`
/// catchphrases to choose from: two draws from `0..10_000`, a pick below
/// `phrases` (zero where there is no catchphrase) and a pick below the number
/// of quotations. Which values come out is a matter of chance; every outcome
/// lies within these bounds.
pub fn draw(phrases: usize) -> (d: Draws)
    ensures
        d.in_range(),
        d.picks_within(phrases as nat),
{
    assert(grand_pappi_quotes().len() == 4);
    let sass_draw = random_below(10_000) as i32;
    let catchphrase_pick = if phrases > 0 {
        random_below(phrases)
    } else {
        0
    };
    let quote_draw = random_below(10_000) as i32;
    let quote_pick = random_below(4);
    Draws { sass_draw, catchphrase_pick, quote_draw, quote_pick }
}

impl AIPersonality {
    /// The text after the six composer steps, for given outcomes of chance;
    /// see [`composed_text`].
    pub fn generate_message_with(&self, base_message: &str, draws: &Draws) -> (r: String)
        ensures
            r@ == composed_text(self@, base_message@, *draws),
    {
        let t1 = apply_drunk_effect(base_message, self.drunk_level);
        let t2 = apply_sass(
            t1.as_str(),
            self.sass_level,
            &self.catchphrases,
            draws.sass_draw,
            draws.catchphrase_pick,
        );
        let t3 = apply_tech_expertise(t2.as_str(), self.tech_expertise);
        let list = quotes();
        let t4 = apply_grand_pappi(
            t3.as_str(),
            self.grand_pappi_references,
            &list,
            draws.quote_draw,
            draws.quote_pick,
        );
        let t5 = apply_anxiety(t4.as_str(), self.anxiety_level);
        apply_enthusiasm(t5.as_str(), self.enthusiasm)
    }

    /// The text after the six composer steps, with fresh outcomes of chance.
    /// Whatever they are, the result is [`composed_text`] for some draws in
    /// range; where chance plays no part it is the same for every call.
    pub fn generate_message(&self, base_message: &str) -> (r: String)
        ensures
            exists|d: Draws| d.in_range() && r@ == composed_text(self@, base_message@, d),
            is_deterministic(self@) ==> forall|d: Draws|
                r@ == #[trigger] composed_text(self@, base_message@, d),
    {
        let draws = draw(self.catchphrases.len());
        let r = self.generate_message_with(base_message, &draws);
        proof {
            if is_deterministic(self@) {
                assert forall|d: Draws| r@ == #[trigger] composed_text(
                    self@,
                    base_message@,
                    d,
                ) by {
                    lemma_composed_text_ignores_draws(self@, base_message@, draws, d);
                }
            }
        }
        r
    }

    /// What the composer makes of a segment for given outcomes of chance;
    /// see [`personalized`].
    pub fn apply_personality_with(&self, message: &MessagePart, draws: &Draws) -> (r: MessagePart)
        ensures
            r@ == personalized(self@, message@, *draws),
    {
        match message {
            MessagePart::Static(text) => MessagePart::Static(
                self.generate_message_with(text.as_str(), draws),
            ),
            MessagePart::Dynamic(text) => MessagePart::Dynamic(text.clone()),
            MessagePart::Full(text) => MessagePart::Full(text.clone()),
        }
    }

    /// What the composer makes of a segment, with fresh outcomes of chance.
    /// `Dynamic` and `Full` segments always pass unchanged.
    pub fn apply_personality(&self, message: &MessagePart) -> (r: MessagePart)
        ensures
            exists|d: Draws| d.in_range() && r@ == personalized(self@, message@, d),
            is_deterministic(self@) ==> forall|d: Draws|
                r@ == #[trigger] personalized(self@, message@, d),
            !(message@ is Static) ==> r@ == message@,
    {
        let draws = draw(self.catchphrases.len());
        let r = self.apply_personality_with(message, &draws);
        proof {
            if is_deterministic(self@) {
                assert forall|d: Draws| r@ == #[trigger] personalized(self@, message@, d) by {
                    lemma_composed_text_ignores_draws(self@, message@.text(), draws, d);
                }
            }
        }
        r
    }

    /// The utterance for a raw text and given outcomes of chance; see
    /// [`composed`]. A blank text yields no segment.
    pub fn compose_with(&self, text: &str, draws: &Draws) -> (parts: Vec<MessagePart>)
        ensures
            parts_view(parts@) == composed(self@, text@, *draws),
    {
        let chars = to_chars(text);
        let normal = normalize_chars(&chars);
        let mut parts: Vec<MessagePart> = Vec::new();
        proof {
            lemma_normalize_empty_iff_blank(text@);
        }
        if normal.len() == 0 {
            assert(parts_view(parts@) =~= composed(self@, text@, *draws));
            return parts;
        }
        let tagged = if read_first_number(&normal).is_some() {
            MessagePart::Dynamic(from_chars(&normal))
        } else {
            MessagePart::Static(from_chars(&normal))
        };
        parts.push(self.apply_personality_with(&tagged, draws));
        assert(parts_view(parts@) =~= composed(self@, text@, *draws));
        parts
    }

    /// The utterance for a raw text, with fresh outcomes of chance.
    pub fn compose(&self, text: &str) -> (parts: Vec<MessagePart>)
        ensures
            exists|d: Draws|
                d.in_range() && parts_view(parts@) == composed(
                    self@,
                    text@,
                    d,
                ),
    {
        let draws = draw(self.catchphrases.len());
        self.compose_with(text, &draws)
    }
}

} // verus!
