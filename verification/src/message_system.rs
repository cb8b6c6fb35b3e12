//! Message segments, the message queue, quantized personality settings and
//! the cache keys derived from them, plus the status-message templates.

use vstd::prelude::*;
use crate::text::{
    append_decimal,
    append_one_decimal,
    append_str,
    decimal,
    first_number_tenths,
    from_chars,
    lemma_normalize_idempotent,
    normalize,
    normalize_chars,
    one_decimal,
    read_first_number,
    same_text,
    to_chars,
};

verus! {

// ---------------------------------------------------------------------
// Message segments
// ---------------------------------------------------------------------

/// One unit of text to be spoken, tagged by how it may be cached.
///
/// `Static` text is stable and cached together with the personality that
/// shaped it; `Dynamic` text changes from call to call and is cached by a
/// coarse description only; `Full` text is composed upstream and bypasses the
/// personality transforms.
#[derive(Debug, Clone)]
pub enum MessagePart {
    Static(String),
    Dynamic(String),
    Full(String),
}

/// Mathematical model of a [`MessagePart`].
pub enum MessagePartView {
    Static(Seq<char>),
    Dynamic(Seq<char>),
    Full(Seq<char>),
}

impl MessagePartView {
    /// The text carried by the segment, whatever its tag.
    pub open spec fn text(self) -> Seq<char> {
        match self {
            MessagePartView::Static(t) => t,
            MessagePartView::Dynamic(t) => t,
            MessagePartView::Full(t) => t,
        }
    }
}

impl View for MessagePart {
    type V = MessagePartView;

    open spec fn view(&self) -> MessagePartView {
        match *self {
            MessagePart::Static(t) => MessagePartView::Static(t@),
            MessagePart::Dynamic(t) => MessagePartView::Dynamic(t@),
            MessagePart::Full(t) => MessagePartView::Full(t@),
        }
    }
}

impl MessagePart {
    /// The text carried by the segment, whatever its tag.
    pub fn text(&self) -> (r: &str)
        ensures
            r@ == self@.text(),
    {
        match self {
            MessagePart::Static(text) => text.as_str(),
            MessagePart::Dynamic(text) => text.as_str(),
            MessagePart::Full(text) => text.as_str(),
        }
    }

    /// A `Static` segment holding `text`.
    pub fn static_text(text: String) -> (r: Self)
        ensures
            r@ == MessagePartView::Static(text@),
    {
        MessagePart::Static(text)
    }

    /// The segment's text as an owned string.
    pub fn to_string(&self) -> (r: String)
        ensures
            r@ == self@.text(),
    {
        self.text().to_owned()
    }

    /// A copy of the segment: same tag, same text.
    pub fn duplicate(&self) -> (r: Self)
        ensures
            r@ == self@,
    {
        match self {
            MessagePart::Static(text) => MessagePart::Static(text.clone()),
            MessagePart::Dynamic(text) => MessagePart::Dynamic(text.clone()),
            MessagePart::Full(text) => MessagePart::Full(text.clone()),
        }
    }
}

/// The models of a sequence of segments, in order.
pub open spec fn parts_view(parts: Seq<MessagePart>) -> Seq<MessagePartView> {
    Seq::new(parts.len(), |i: int| parts[i]@)
}

/// An ordered queue of message segments.
pub struct MessageSystem {
    messages: Vec<MessagePart>,
}

impl View for MessageSystem {
    type V = Seq<MessagePartView>;

    closed spec fn view(&self) -> Seq<MessagePartView> {
        parts_view(self.messages@)
    }
}

impl MessageSystem {
    /// An empty queue.
    pub fn new() -> (r: Self)
        ensures
            r@ == Seq::<MessagePartView>::empty(),
    {
        let r = MessageSystem { messages: Vec::new() };
        assert(r@ =~= Seq::<MessagePartView>::empty());
        r
    }

    /// Adds `part` at the end of the queue.
    pub fn add_message(&mut self, part: MessagePart)
        ensures
            final(self)@ == old(self)@.push(part@),
    {
        self.messages.push(part);
        assert(self@ =~= old(self)@.push(part@));
    }

    /// The queued segments, oldest first.
    pub fn get_messages(&self) -> (r: &[MessagePart])
        ensures
            parts_view(r@) == self@,
    {
        self.messages.as_slice()
    }
}

// ---------------------------------------------------------------------
// Quantized personality settings
// ---------------------------------------------------------------------

/// The models of a sequence of strings, in order.
pub open spec fn strings_view(v: Seq<String>) -> Seq<Seq<char>> {
    Seq::new(v.len(), |i: int| v[i]@)
}

/// Whether two string vectors hold the same texts in the same order.
pub fn same_strings(a: &Vec<String>, b: &Vec<String>) -> (r: bool)
    ensures
        r == (strings_view(a@) == strings_view(b@)),
{
    if a.len() != b.len() {
        assert(strings_view(a@).len() != strings_view(b@).len());
        return false;
    }
    let mut i: usize = 0;
    while i < a.len()
        invariant
            i <= a.len(),
            a.len() == b.len(),
            forall|j: int| 0 <= j < i ==> a@[j]@ == b@[j]@,
        decreases a.len() - i,
    {
        if a[i] != b[i] {
            assert(strings_view(a@)[i as int] != strings_view(b@)[i as int]);
            return false;
        }
        i += 1;
    }
    assert(strings_view(a@) =~= strings_view(b@));
    true
}

/// A copy of a string vector.
pub fn copy_strings(v: &Vec<String>) -> (r: Vec<String>)
    ensures
        strings_view(r@) == strings_view(v@),
{
    let mut r: Vec<String> = Vec::new();
    let mut i: usize = 0;
    while i < v.len()
        invariant
            i <= v.len(),
            r.len() == i,
            forall|j: int| 0 <= j < i ==> r@[j]@ == v@[j]@,
        decreases v.len() - i,
    {
        r.push(v[i].clone());
        i += 1;
    }
    assert(strings_view(r@) =~= strings_view(v@));
    r
}

/// A personality snapshot quantized to whole percentage points, as it enters
/// a cache key. Levels are percent of full intensity; `speech_rate` is percent
/// of normal speed.
#[derive(Debug, Clone, Eq, Hash)]
pub struct PersonalitySettings {
    pub voice_type: String,
    pub volume: i32,
    pub speech_rate: i32,
    pub drunk_level: i32,
    pub sass_level: i32,
    pub tech_expertise: i32,
    pub grand_pappi_refs: i32,
    pub enthusiasm: i32,
    pub anxiety_level: i32,
    pub catchphrases: Vec<String>,
    pub audio_enabled: bool,
    pub is_1337_mode: bool,
}

/// Mathematical model of [`PersonalitySettings`].
pub struct PersonalitySettingsView {
    pub voice_type: Seq<char>,
    pub volume: int,
    pub speech_rate: int,
    pub drunk_level: int,
    pub sass_level: int,
    pub tech_expertise: int,
    pub grand_pappi_refs: int,
    pub enthusiasm: int,
    pub anxiety_level: int,
    pub catchphrases: Seq<Seq<char>>,
    pub audio_enabled: bool,
    pub is_1337_mode: bool,
}

impl View for PersonalitySettings {
    type V = PersonalitySettingsView;

    open spec fn view(&self) -> PersonalitySettingsView {
        PersonalitySettingsView {
            voice_type: self.voice_type@,
            volume: self.volume as int,
            speech_rate: self.speech_rate as int,
            drunk_level: self.drunk_level as int,
            sass_level: self.sass_level as int,
            tech_expertise: self.tech_expertise as int,
            grand_pappi_refs: self.grand_pappi_refs as int,
            enthusiasm: self.enthusiasm as int,
            anxiety_level: self.anxiety_level as int,
            catchphrases: strings_view(self.catchphrases@),
            audio_enabled: self.audio_enabled,
            is_1337_mode: self.is_1337_mode,
        }
    }
}

impl PersonalitySettingsView {
    /// The settings of a neutral personality: voice `alloy`, full volume,
    /// normal speed, every level at zero, no catchphrases, audio on.
    pub open spec fn neutral() -> PersonalitySettingsView {
        PersonalitySettingsView {
            voice_type: "alloy"@,
            volume: 100,
            speech_rate: 100,
            drunk_level: 0,
            sass_level: 0,
            tech_expertise: 0,
            grand_pappi_refs: 0,
            enthusiasm: 0,
            anxiety_level: 0,
            catchphrases: Seq::<Seq<char>>::empty(),
            audio_enabled: true,
            is_1337_mode: false,
        }
    }
}

impl Default for PersonalitySettings {
    fn default() -> (r: Self)
        ensures
            r@ == PersonalitySettingsView::neutral(),
    {
        let r = PersonalitySettings {
            voice_type: String::from_str("alloy"),
            volume: 100,
            speech_rate: 100,
            drunk_level: 0,
            sass_level: 0,
            tech_expertise: 0,
            grand_pappi_refs: 0,
            enthusiasm: 0,
            anxiety_level: 0,
            catchphrases: Vec::new(),
            audio_enabled: true,
            is_1337_mode: false,
        };
        assert(r@.catchphrases =~= Seq::<Seq<char>>::empty());
        r
    }
}

impl PersonalitySettings {
    /// Whether two settings agree in every field.
    pub fn same_settings(&self, other: &PersonalitySettings) -> (r: bool)
        ensures
            r == (self@ == other@),
    {
        self.voice_type == other.voice_type && self.volume == other.volume && self.speech_rate
            == other.speech_rate && self.drunk_level == other.drunk_level && self.sass_level
            == other.sass_level && self.tech_expertise == other.tech_expertise
            && self.grand_pappi_refs == other.grand_pappi_refs && self.enthusiasm
            == other.enthusiasm && self.anxiety_level == other.anxiety_level && same_strings(
            &self.catchphrases,
            &other.catchphrases,
        ) && self.audio_enabled == other.audio_enabled && self.is_1337_mode == other.is_1337_mode
    }

    /// A copy of the settings, equal in every field.
    pub fn duplicate(&self) -> (r: PersonalitySettings)
        ensures
            r@ == self@,
    {
        PersonalitySettings {
            voice_type: self.voice_type.clone(),
            volume: self.volume,
            speech_rate: self.speech_rate,
            drunk_level: self.drunk_level,
            sass_level: self.sass_level,
            tech_expertise: self.tech_expertise,
            grand_pappi_refs: self.grand_pappi_refs,
            enthusiasm: self.enthusiasm,
            anxiety_level: self.anxiety_level,
            catchphrases: copy_strings(&self.catchphrases),
            audio_enabled: self.audio_enabled,
            is_1337_mode: self.is_1337_mode,
        }
    }
}

// ---------------------------------------------------------------------
// Bucketed descriptions of live values
// ---------------------------------------------------------------------

/// The multiple of five nearest to a value given in tenths, halves rounding
/// up: `923` (92.3) gives `90`, `938` (93.8) gives `95`.
pub open spec fn bucket(tenths: nat) -> nat {
    (tenths + 25) / 50 * 5
}

/// The numeral of the multiple of five nearest to `value`, which is given in
/// tenths of a unit.
pub fn discretize(value: u32) -> (r: String)
    ensures
        r@ == decimal(bucket(value as nat)),
{
    let rounded: u64 = (value as u64 + 25) / 50 * 5;
    let mut out: Vec<char> = Vec::new();
    append_decimal(&mut out, rounded);
    assert(out@ =~= decimal(bucket(value as nat)));
    from_chars(&out)
}

/// The qualitative band of a metric reading. `value` is a percentage in
/// tenths of a point; each band includes its upper bound. A metric other than
/// `cpu`, `memory` or `disk` reads `unknown`.
pub open spec fn qualitative_description(metric: Seq<char>, value: nat) -> Seq<char> {
    if metric == "cpu"@ {
        if value <= 200 {
            "running cool"@
        } else if value <= 500 {
            "running steady"@
        } else if value <= 800 {
            "working hard"@
        } else {
            "running hot"@
        }
    } else if metric == "memory"@ {
        if value <= 300 {
            "plenty of space"@
        } else if value <= 600 {
            "comfortable"@
        } else if value <= 800 {
            "getting tight"@
        } else {
            "very tight"@
        }
    } else if metric == "disk"@ {
        if value <= 500 {
            "lots of room"@
        } else if value <= 750 {
            "decent space"@
        } else if value <= 900 {
            "filling up"@
        } else {
            "nearly full"@
        }
    } else {
        "unknown"@
    }
}

/// The qualitative band of a metric reading; see
/// [`qualitative_description`].
pub fn get_qualitative_description(metric: &str, value: u32) -> (r: String)
    ensures
        r@ == qualitative_description(metric@, value as nat),
{
    let band: &str = if same_text(metric, "cpu") {
        if value <= 200 {
            "running cool"
        } else if value <= 500 {
            "running steady"
        } else if value <= 800 {
            "working hard"
        } else {
            "running hot"
        }
    } else if same_text(metric, "memory") {
        if value <= 300 {
            "plenty of space"
        } else if value <= 600 {
            "comfortable"
        } else if value <= 800 {
            "getting tight"
        } else {
            "very tight"
        }
    } else if same_text(metric, "disk") {
        if value <= 500 {
            "lots of room"
        } else if value <= 750 {
            "decent space"
        } else if value <= 900 {
            "filling up"
        } else {
            "nearly full"
        }
    } else {
        "unknown"
    };
    band.to_owned()
}

/// What stands for a `Dynamic` text in its cache key: the bucket of the
/// first number written in it, or, where it holds no number, its
/// whitespace-normal form.
pub open spec fn description(text: Seq<char>) -> Seq<char> {
    match first_number_tenths(text) {
        Some(tenths) => decimal(bucket(tenths)),
        None => normalize(text),
    }
}

/// Computes [`description`] of `text`.
pub fn describe(text: &str) -> (r: String)
    ensures
        r@ == description(text@),
{
    let chars = to_chars(text);
    match read_first_number(&chars) {
        Some(tenths) => {
            let rounded: u64 = (tenths + 25) / 50 * 5;
            let mut out: Vec<char> = Vec::new();
            append_decimal(&mut out, rounded);
            assert(out@ =~= decimal(bucket(tenths as nat)));
            from_chars(&out)
        },
        None => {
            let out = normalize_chars(&chars);
            from_chars(&out)
        },
    }
}

// ---------------------------------------------------------------------
// Cache keys
// ---------------------------------------------------------------------

/// Identifies a synthesized clip.
///
/// `Static` holds the whitespace-normal text and the quantized personality;
/// `Dynamic` holds the bucketed description of a live text; `Full` holds the
/// event class and the literal text.
#[derive(Debug, Clone, Eq, Hash)]
pub enum CacheKey {
    Static(String, PersonalitySettings),
    Dynamic(String),
    Full(String, String),
}

/// Mathematical model of a [`CacheKey`].
pub enum CacheKeyView {
    Static(Seq<char>, PersonalitySettingsView),
    Dynamic(Seq<char>),
    Full(Seq<char>, Seq<char>),
}

impl View for CacheKey {
    type V = CacheKeyView;

    open spec fn view(&self) -> CacheKeyView {
        match *self {
            CacheKey::Static(t, p) => CacheKeyView::Static(t@, p@),
            CacheKey::Dynamic(t) => CacheKeyView::Dynamic(t@),
            CacheKey::Full(e, t) => CacheKeyView::Full(e@, t@),
        }
    }
}

/// The key of a segment under given settings.
///
/// A `Static` segment is keyed by its whitespace-normal text together with
/// the settings; a `Dynamic` one by its [`description`] alone; a `Full` one by
/// its literal text alone, under the event class `full`.
pub open spec fn derive_key(part: MessagePartView, settings: PersonalitySettingsView) -> CacheKeyView {
    match part {
        MessagePartView::Static(t) => CacheKeyView::Static(normalize(t), settings),
        MessagePartView::Dynamic(t) => CacheKeyView::Dynamic(description(t)),
        MessagePartView::Full(t) => CacheKeyView::Full("full"@, t),
    }
}

/// A segment with what its key ignores taken away: a `Static` text in
/// whitespace-normal form; `Dynamic` and `Full` segments as they are.
pub open spec fn normalized_part(part: MessagePartView) -> MessagePartView {
    match part {
        MessagePartView::Static(t) => MessagePartView::Static(normalize(t)),
        MessagePartView::Dynamic(t) => MessagePartView::Dynamic(t),
        MessagePartView::Full(t) => MessagePartView::Full(t),
    }
}

/// Whether two segments are the same once normalized: the same variant, and
/// the same normal text (`Static`), the same description (`Dynamic`) or the
/// same literal text (`Full`).
pub open spec fn same_normalized(a: MessagePartView, b: MessagePartView) -> bool {
    match (a, b) {
        (MessagePartView::Static(t), MessagePartView::Static(u)) => normalize(t) == normalize(u),
        (MessagePartView::Dynamic(t), MessagePartView::Dynamic(u)) => description(t)
            == description(u),
        (MessagePartView::Full(t), MessagePartView::Full(u)) => t == u,
        _ => false,
    }
}

/// Key derivation is idempotent in its segment. Segments that are the same
/// once normalized have the same key under the same settings, in all three
/// variants; in particular a segment and its normalized form have the same
/// key, so deriving again from an already normalized segment changes
/// nothing.
pub proof fn lemma_derive_is_stable(
    a: MessagePartView,
    b: MessagePartView,
    settings: PersonalitySettingsView,
)
    ensures
        same_normalized(a, b) ==> derive_key(a, settings) == derive_key(b, settings),
        same_normalized(a, normalized_part(a)),
        derive_key(normalized_part(a), settings) == derive_key(a, settings),
        normalized_part(normalized_part(a)) == normalized_part(a),
{
    match a {
        MessagePartView::Static(t) => {
            lemma_normalize_idempotent(t);
        },
        _ => {},
    }
}

/// The settings enter only `Static` keys: the keys of `Dynamic` and `Full`
/// segments are the same under all settings.
pub proof fn lemma_settings_only_in_static_keys(
    part: MessagePartView,
    p: PersonalitySettingsView,
    q: PersonalitySettingsView,
)
    requires
        !(part is Static),
    ensures
        derive_key(part, p) == derive_key(part, q),
{
}

impl CacheKey {
    /// The key of `part` under `settings`; see [`derive_key`]. Total and
    /// free of side effects.
    pub fn derive(part: &MessagePart, settings: &PersonalitySettings) -> (key: CacheKey)
        ensures
            key@ == derive_key(part@, settings@),
    {
        match part {
            MessagePart::Static(text) => {
                let chars = to_chars(text.as_str());
                let normal = normalize_chars(&chars);
                CacheKey::Static(from_chars(&normal), settings.duplicate())
            },
            MessagePart::Dynamic(text) => CacheKey::Dynamic(describe(text.as_str())),
            MessagePart::Full(text) => CacheKey::Full(String::from_str("full"), text.clone()),
        }
    }

    /// Whether two keys are the same key.
    pub fn same_key(&self, other: &CacheKey) -> (r: bool)
        ensures
            r == (self@ == other@),
    {
        match self {
            CacheKey::Static(t, p) => match other {
                CacheKey::Static(u, q) => *t == *u && p.same_settings(q),
                _ => false,
            },
            CacheKey::Dynamic(t) => match other {
                CacheKey::Dynamic(u) => *t == *u,
                _ => false,
            },
            CacheKey::Full(e, t) => match other {
                CacheKey::Full(f, u) => *e == *f && *t == *u,
                _ => false,
            },
        }
    }

    /// A copy of the key.
    pub fn duplicate(&self) -> (r: CacheKey)
        ensures
            r@ == self@,
    {
        match self {
            CacheKey::Static(t, p) => CacheKey::Static(t.clone(), p.duplicate()),
            CacheKey::Dynamic(t) => CacheKey::Dynamic(t.clone()),
            CacheKey::Full(e, t) => CacheKey::Full(e.clone(), t.clone()),
        }
    }
}

impl PartialEq for PersonalitySettings {
    fn eq(&self, other: &Self) -> (r: bool) {
        self.same_settings(other)
    }
}

impl vstd::std_specs::cmp::PartialEqSpecImpl for PersonalitySettings {
    open spec fn obeys_eq_spec() -> bool {
        true
    }

    open spec fn eq_spec(&self, other: &Self) -> bool {
        self@ == other@
    }
}

impl PartialEq for CacheKey {
    fn eq(&self, other: &Self) -> (r: bool) {
        self.same_key(other)
    }
}

impl vstd::std_specs::cmp::PartialEqSpecImpl for CacheKey {
    open spec fn obeys_eq_spec() -> bool {
        true
    }

    open spec fn eq_spec(&self, other: &Self) -> bool {
        self@ == other@
    }
}

// ---------------------------------------------------------------------
// Status messages
// ---------------------------------------------------------------------

/// One sample of the machine's load.
///
/// Usages are percentages in tenths of a point (`455` is 45.5 %); sizes and
/// transfer counts are bytes.
pub struct SystemData {
    pub cpu_usage: Vec<(String, u32)>,
    pub memory_total: u64,
    pub memory_used: u64,
    pub memory_usage: u32,
    pub disk_total: u64,
    pub disk_available: u64,
    pub disk_usage: u32,
    pub network_rx: u64,
    pub network_tx: u64,
}

/// A byte count in tenths of a gigabyte (10^9 bytes), rounded to the nearest
/// tenth, halves up.
pub open spec fn gigabyte_tenths(bytes: nat) -> nat {
    (bytes + 50_000_000) / 100_000_000
}

/// A byte count in tenths of a megabyte (10^6 bytes), rounded to the nearest
/// tenth, halves up.
pub open spec fn megabyte_tenths(bytes: nat) -> nat {
    (bytes + 50_000) / 100_000
}

/// Computes [`gigabyte_tenths`].
pub fn to_gigabyte_tenths(bytes: u64) -> (r: u64)
    ensures
        r as nat == gigabyte_tenths(bytes as nat),
{
    let whole: u64 = bytes / 100_000_000;
    if bytes % 100_000_000 >= 50_000_000 {
        whole + 1
    } else {
        whole
    }
}

/// Computes [`megabyte_tenths`].
pub fn to_megabyte_tenths(bytes: u64) -> (r: u64)
    ensures
        r as nat == megabyte_tenths(bytes as nat),
{
    let whole: u64 = bytes / 100_000;
    if bytes % 100_000 >= 50_000 {
        whole + 1
    } else {
        whole
    }
}

/// The text `<label><usage>%`, with the usage to one decimal place.
pub open spec fn usage_line(label: Seq<char>, usage: nat) -> Seq<char> {
    label + one_decimal(usage) + "%"@
}

/// The processor line of a status message.
pub open spec fn cpu_line(usage: nat) -> Seq<char> {
    usage_line("CPU Usage: "@, usage)
}

/// The memory line of a status message: usage, then used and total size.
pub open spec fn memory_line(usage: nat, used: nat, total: nat) -> Seq<char> {
    "Memory: "@ + one_decimal(usage) + "% ("@ + one_decimal(gigabyte_tenths(used)) + " GB / "@
        + one_decimal(gigabyte_tenths(total)) + " GB)"@
}

/// The disk line of a status message: usage, then free and total size.
pub open spec fn disk_line(usage: nat, available: nat, total: nat) -> Seq<char> {
    "Disk: "@ + one_decimal(usage) + "% ("@ + one_decimal(gigabyte_tenths(available))
        + " GB free of "@ + one_decimal(gigabyte_tenths(total)) + " GB)"@
}

/// The network line of a status message: received, then sent.
pub open spec fn network_line(rx: nat, tx: nat) -> Seq<char> {
    "Network: \u{2193}"@ + one_decimal(megabyte_tenths(rx)) + " MB/s \u{2191}"@ + one_decimal(
        megabyte_tenths(tx),
    ) + " MB/s"@
}

/// The status message for a sample: one processor line per core, in order,
/// then the memory, disk and network lines; every line a `Static` segment.
pub open spec fn status_lines(data: &SystemData) -> Seq<MessagePartView> {
    Seq::new(
        data.cpu_usage.len() as nat,
        |i: int| MessagePartView::Static(cpu_line(data.cpu_usage@[i].1 as nat)),
    ) + seq![
        MessagePartView::Static(
            memory_line(
                data.memory_usage as nat,
                data.memory_used as nat,
                data.memory_total as nat,
            ),
        ),
        MessagePartView::Static(
            disk_line(data.disk_usage as nat, data.disk_available as nat, data.disk_total as nat),
        ),
        MessagePartView::Static(network_line(data.network_rx as nat, data.network_tx as nat)),
    ]
}

fn make_usage_line(label: &str, usage: u32) -> (r: String)
    ensures
        r@ == usage_line(label@, usage as nat),
{
    let mut out: Vec<char> = Vec::new();
    append_str(&mut out, label);
    append_one_decimal(&mut out, usage as u64);
    append_str(&mut out, "%");
    assert(out@ =~= usage_line(label@, usage as nat));
    from_chars(&out)
}

/// The status message for `data`; see [`status_lines`].
pub fn generate_message(data: &SystemData) -> (parts: Vec<MessagePart>)
    ensures
        parts_view(parts@) == status_lines(data),
{
    let mut parts: Vec<MessagePart> = Vec::new();
    let mut i: usize = 0;
    while i < data.cpu_usage.len()
        invariant
            i <= data.cpu_usage.len(),
            parts.len() == i,
            forall|j: int|
                0 <= j < i ==> parts@[j]@ == MessagePartView::Static(
                    cpu_line(data.cpu_usage@[j].1 as nat),
                ),
        decreases data.cpu_usage.len() - i,
    {
        let line = make_usage_line("CPU Usage: ", data.cpu_usage[i].1);
        parts.push(MessagePart::Static(line));
        i += 1;
    }

    let mut memory: Vec<char> = Vec::new();
    append_str(&mut memory, "Memory: ");
    append_one_decimal(&mut memory, data.memory_usage as u64);
    append_str(&mut memory, "% (");
    append_one_decimal(&mut memory, to_gigabyte_tenths(data.memory_used));
    append_str(&mut memory, " GB / ");
    append_one_decimal(&mut memory, to_gigabyte_tenths(data.memory_total));
    append_str(&mut memory, " GB)");
    assert(memory@ =~= memory_line(
        data.memory_usage as nat,
        data.memory_used as nat,
        data.memory_total as nat,
    ));
    parts.push(MessagePart::Static(from_chars(&memory)));

    let mut disk: Vec<char> = Vec::new();
    append_str(&mut disk, "Disk: ");
    append_one_decimal(&mut disk, data.disk_usage as u64);
    append_str(&mut disk, "% (");
    append_one_decimal(&mut disk, to_gigabyte_tenths(data.disk_available));
    append_str(&mut disk, " GB free of ");
    append_one_decimal(&mut disk, to_gigabyte_tenths(data.disk_total));
    append_str(&mut disk, " GB)");
    assert(disk@ =~= disk_line(
        data.disk_usage as nat,
        data.disk_available as nat,
        data.disk_total as nat,
    ));
    parts.push(MessagePart::Static(from_chars(&disk)));

    let mut network: Vec<char> = Vec::new();
    append_str(&mut network, "Network: \u{2193}");
    append_one_decimal(&mut network, to_megabyte_tenths(data.network_rx));
    append_str(&mut network, " MB/s \u{2191}");
    append_one_decimal(&mut network, to_megabyte_tenths(data.network_tx));
    append_str(&mut network, " MB/s");
    assert(network@ =~= network_line(data.network_rx as nat, data.network_tx as nat));
    parts.push(MessagePart::Static(from_chars(&network)));

    assert(parts_view(parts@) =~= status_lines(data));
    parts
}

/// A four-line status message from bare usages (percentages in tenths of a
/// point): processor, memory, disk and network, each a `Static` segment.
pub fn generate_status_message(cpu: u32, memory: u32, disk: u32, network: u32) -> (parts: Vec<
    MessagePart,
>)
    ensures
        parts_view(parts@) == seq![
            MessagePartView::Static(usage_line("CPU Usage: "@, cpu as nat)),
            MessagePartView::Static(usage_line("Memory Usage: "@, memory as nat)),
            MessagePartView::Static(usage_line("Disk Usage: "@, disk as nat)),
            MessagePartView::Static(usage_line("Network Usage: "@, network as nat)),
        ],
{
    let mut parts: Vec<MessagePart> = Vec::new();
    parts.push(MessagePart::Static(make_usage_line("CPU Usage: ", cpu)));
    parts.push(MessagePart::Static(make_usage_line("Memory Usage: ", memory)));
    parts.push(MessagePart::Static(make_usage_line("Disk Usage: ", disk)));
    parts.push(MessagePart::Static(make_usage_line("Network Usage: ", network)));
    assert(parts_view(parts@) =~= seq![
        MessagePartView::Static(usage_line("CPU Usage: "@, cpu as nat)),
        MessagePartView::Static(usage_line("Memory Usage: "@, memory as nat)),
        MessagePartView::Static(usage_line("Disk Usage: "@, disk as nat)),
        MessagePartView::Static(usage_line("Network Usage: "@, network as nat)),
    ]);
    parts
}

} // verus!
