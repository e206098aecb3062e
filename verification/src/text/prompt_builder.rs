//! TTS prompts that keep the director notes apart from the transcript, in three
//! layouts, and the conversion of SSML markup into notes and plain text.
use vstd::prelude::*;
use crate::textseq::{
    chars_to_string, contains_chars, contains_seq, dec, push_all, push_dec_usize, push_str,
    str_to_chars, trim, trim_chars,
};
use crate::text::pattern::{opt_view, opt_views, regex_group_matches, regex_groups, rewrite_all, rewrite_or_keep};

verus! {

/// Voice profile, performance style and reading instructions.
#[derive(Debug)]
pub struct DirectorNotes {
    pub voice_name: Option<String>,
    pub tone: Option<String>,
    pub speed: Option<String>,
    pub emotion: Option<String>,
    pub accent: Option<String>,
    pub custom_instructions: Option<String>,
}

/// The characters of each note.
pub struct NotesSpec {
    pub voice_name: Option<Seq<char>>,
    pub tone: Option<Seq<char>>,
    pub speed: Option<Seq<char>>,
    pub emotion: Option<Seq<char>>,
    pub accent: Option<Seq<char>>,
    pub custom_instructions: Option<Seq<char>>,
}

impl View for DirectorNotes {
    type V = NotesSpec;

    open spec fn view(&self) -> NotesSpec {
        NotesSpec {
            voice_name: opt_view(self.voice_name),
            tone: opt_view(self.tone),
            speed: opt_view(self.speed),
            emotion: opt_view(self.emotion),
            accent: opt_view(self.accent),
            custom_instructions: opt_view(self.custom_instructions),
        }
    }
}

/// No note is set.
pub open spec fn no_notes() -> NotesSpec {
    NotesSpec {
        voice_name: None,
        tone: None,
        speed: None,
        emotion: None,
        accent: None,
        custom_instructions: None,
    }
}

pub open spec fn notes_empty(n: NotesSpec) -> bool {
    n == no_notes()
}

fn clone_opt(o: &Option<String>) -> (r: Option<String>)
    ensures
        opt_view(r) == opt_view(*o),
{
    match o {
        Some(s) => Some(s.clone()),
        None => None,
    }
}

impl DirectorNotes {
    /// Notes with nothing set.
    pub fn new() -> (r: Self)
        ensures
            r@ == no_notes(),
    {
        DirectorNotes {
            voice_name: None,
            tone: None,
            speed: None,
            emotion: None,
            accent: None,
            custom_instructions: None,
        }
    }

    /// No note is set.
    pub fn is_empty(&self) -> (r: bool)
        ensures
            r == notes_empty(self@),
    {
        self.voice_name.is_none() && self.tone.is_none() && self.speed.is_none()
            && self.emotion.is_none() && self.accent.is_none()
            && self.custom_instructions.is_none()
    }

    /// A copy of the notes.
    pub fn duplicate(&self) -> (r: Self)
        ensures
            r@ == self@,
    {
        DirectorNotes {
            voice_name: clone_opt(&self.voice_name),
            tone: clone_opt(&self.tone),
            speed: clone_opt(&self.speed),
            emotion: clone_opt(&self.emotion),
            accent: clone_opt(&self.accent),
            custom_instructions: clone_opt(&self.custom_instructions),
        }
    }
}

impl Default for DirectorNotes {
    fn default() -> (r: Self)
        ensures
            r@ == no_notes(),
    {
        DirectorNotes::new()
    }
}

/// Style options as the application passes them.
#[derive(Debug)]
pub struct PromptStyleOptions {
    pub style_preset: String,
    pub pacing: String,
    pub pronunciation_notes: Option<String>,
}

/// Layout that separates the director notes from the transcript.
#[derive(Debug, Clone, Copy, PartialEq, Eq, Structural)]
pub enum PromptStyle {
    /// `[DIRECTOR NOTES]` ... `[TRANSCRIPT]`
    Tagged,
    /// `<director_notes>` ... `</director_notes>` `<transcript>` ... `</transcript>`
    Xml,
    /// `# Director Notes` ... `# Transcript`
    Markdown,
}

impl Default for PromptStyle {
    fn default() -> (r: Self)
        ensures
            r == PromptStyle::Tagged,
    {
        PromptStyle::Tagged
    }
}

/// One note line: `Label: value` (Markdown: `- **Label**: value`).
pub open spec fn note_line(style: PromptStyle, label: Seq<char>, value: Seq<char>) -> Seq<char> {
    match style {
        PromptStyle::Markdown => "- **"@ + label + "**: "@ + value + "\n"@,
        _ => label + ": "@ + value + "\n"@,
    }
}

pub open spec fn opt_line(style: PromptStyle, label: Seq<char>, value: Option<Seq<char>>) -> Seq<
    char,
> {
    match value {
        Some(v) => note_line(style, label, v),
        None => Seq::empty(),
    }
}

/// `Chunk: i+1/total` for a chunk of a longer text.
pub open spec fn chunk_line(style: PromptStyle, chunk: Option<(usize, usize)>) -> Seq<char> {
    match chunk {
        Some((i, total)) => note_line(
            style,
            "Chunk"@,
            dec((i + 1) as nat) + "/"@ + dec(total as nat),
        ),
        None => Seq::empty(),
    }
}

/// The line written when there is neither a note nor chunk information.
pub open spec fn fallback_line(style: PromptStyle) -> Seq<char> {
    match style {
        PromptStyle::Tagged => "Standard VietTTS reading mode. Preserve all punctuation and pauses.\n"@,
        PromptStyle::Xml => "Standard VietTTS reading mode.\n"@,
        PromptStyle::Markdown => "- Standard VietTTS reading mode.\n"@,
    }
}

/// The body of the notes section: chunk line, the notes in a fixed order, and the
/// fallback line.
pub open spec fn notes_block(style: PromptStyle, n: NotesSpec, chunk: Option<(usize, usize)>) -> Seq<
    char,
> {
    chunk_line(style, chunk) + opt_line(style, "Voice"@, n.voice_name) + opt_line(
        style,
        "Tone"@,
        n.tone,
    ) + opt_line(style, "Speed"@, n.speed) + opt_line(style, "Accent"@, n.accent) + opt_line(
        style,
        "Emotion"@,
        n.emotion,
    ) + opt_line(style, "Instructions"@, n.custom_instructions) + (if notes_empty(n)
        && chunk is None {
        fallback_line(style)
    } else {
        Seq::empty()
    })
}

/// The whole prompt for a transcript that is already trimmed.
pub open spec fn prompt_text(
    n: NotesSpec,
    style: PromptStyle,
    transcript: Seq<char>,
    chunk: Option<(usize, usize)>,
) -> Seq<char> {
    match style {
        PromptStyle::Tagged => "[DIRECTOR NOTES]\n"@ + notes_block(style, n, chunk)
            + "\n[TRANSCRIPT]\n"@ + transcript,
        PromptStyle::Xml => "<director_notes>\n"@ + notes_block(style, n, chunk)
            + "</director_notes>\n\n<transcript>\n"@ + transcript + "\n</transcript>"@,
        PromptStyle::Markdown => "# Director Notes\n"@ + notes_block(style, n, chunk)
            + "\n# Transcript\n"@ + transcript,
    }
}

fn push_note_line(out: &mut Vec<char>, style: PromptStyle, label: &str, value: &[char])
    ensures
        final(out)@ == old(out)@ + note_line(style, label@, value@),
{
    match style {
        PromptStyle::Markdown => {
            push_str(out, "- **");
            push_str(out, label);
            push_str(out, "**: ");
            push_all(out, value);
            push_str(out, "\n");
        },
        _ => {
            push_str(out, label);
            push_str(out, ": ");
            push_all(out, value);
            push_str(out, "\n");
        },
    }
    assert(out@ =~= old(out)@ + note_line(style, label@, value@));
}

fn push_opt_line(out: &mut Vec<char>, style: PromptStyle, label: &str, value: &Option<String>)
    ensures
        final(out)@ == old(out)@ + opt_line(style, label@, opt_view(*value)),
{
    match value {
        Some(v) => {
            let cs = str_to_chars(v.as_str());
            push_note_line(out, style, label, cs.as_slice());
        },
        None => {
            assert(out@ =~= old(out)@ + Seq::<char>::empty());
        },
    }
}

/// A prompt builder: director notes and a layout.
#[derive(Debug)]
pub struct PromptBuilder {
    notes: DirectorNotes,
    style: PromptStyle,
}

impl PromptBuilder {
    pub closed spec fn notes_spec(&self) -> NotesSpec {
        self.notes@
    }

    pub closed spec fn style_spec(&self) -> PromptStyle {
        self.style
    }

    /// No notes, tagged layout.
    pub fn new() -> (r: Self)
        ensures
            r.notes_spec() == no_notes(),
            r.style_spec() == PromptStyle::Tagged,
    {
        PromptBuilder { notes: DirectorNotes::new(), style: PromptStyle::Tagged }
    }

    /// Replaces all notes.
    pub fn with_notes(self, notes: DirectorNotes) -> (r: Self)
        ensures
            r.notes_spec() == notes@,
            r.style_spec() == self.style_spec(),
    {
        PromptBuilder { notes, style: self.style }
    }

    pub fn with_voice_name(self, voice: &str) -> (r: Self)
        ensures
            r.notes_spec() == (NotesSpec { voice_name: Some(voice@), ..self.notes_spec() }),
            r.style_spec() == self.style_spec(),
    {
        let mut b = self;
        b.notes.voice_name = Some(voice.to_owned());
        b
    }

    pub fn with_tone(self, tone: &str) -> (r: Self)
        ensures
            r.notes_spec() == (NotesSpec { tone: Some(tone@), ..self.notes_spec() }),
            r.style_spec() == self.style_spec(),
    {
        let mut b = self;
        b.notes.tone = Some(tone.to_owned());
        b
    }

    pub fn with_speed(self, speed: &str) -> (r: Self)
        ensures
            r.notes_spec() == (NotesSpec { speed: Some(speed@), ..self.notes_spec() }),
            r.style_spec() == self.style_spec(),
    {
        let mut b = self;
        b.notes.speed = Some(speed.to_owned());
        b
    }

    pub fn with_emotion(self, emotion: &str) -> (r: Self)
        ensures
            r.notes_spec() == (NotesSpec { emotion: Some(emotion@), ..self.notes_spec() }),
            r.style_spec() == self.style_spec(),
    {
        let mut b = self;
        b.notes.emotion = Some(emotion.to_owned());
        b
    }

    pub fn with_accent(self, accent: &str) -> (r: Self)
        ensures
            r.notes_spec() == (NotesSpec { accent: Some(accent@), ..self.notes_spec() }),
            r.style_spec() == self.style_spec(),
    {
        let mut b = self;
        b.notes.accent = Some(accent.to_owned());
        b
    }

    pub fn with_custom_instructions(self, instructions: &str) -> (r: Self)
        ensures
            r.notes_spec() == (NotesSpec {
                custom_instructions: Some(instructions@),
                ..self.notes_spec()
            }),
            r.style_spec() == self.style_spec(),
    {
        let mut b = self;
        b.notes.custom_instructions = Some(instructions.to_owned());
        b
    }

    pub fn with_style(self, style: PromptStyle) -> (r: Self)
        ensures
            r.notes_spec() == self.notes_spec(),
            r.style_spec() == style,
    {
        let mut b = self;
        b.style = style;
        b
    }

    pub fn director_notes(&self) -> (r: &DirectorNotes)
        ensures
            r@ == self.notes_spec(),
    {
        &self.notes
    }

    pub fn style(&self) -> (r: PromptStyle)
        ensures
            r == self.style_spec(),
    {
        self.style
    }

    /// The prompt for a whole transcript (trimmed).
    pub fn build_prompt(&self, transcript: &str) -> (r: String)
        ensures
            r@ == prompt_text(self.notes_spec(), self.style_spec(), trim(transcript@), None),
    {
        self.build_chunk_prompt(transcript, None)
    }

    /// The prompt for a transcript (trimmed), with the chunk's position among
    /// `total` chunks where given.
    pub fn build_chunk_prompt(&self, transcript: &str, chunk_info: Option<(usize, usize)>) -> (r:
        String)
        requires
            chunk_info matches Some((i, _)) ==> i < usize::MAX,
        ensures
            r@ == prompt_text(self.notes_spec(), self.style_spec(), trim(transcript@), chunk_info),
    {
        let chars = str_to_chars(transcript);
        let clean = trim_chars(chars.as_slice());
        let style = self.style;
        let mut out: Vec<char> = Vec::new();
        match style {
            PromptStyle::Tagged => push_str(&mut out, "[DIRECTOR NOTES]\n"),
            PromptStyle::Xml => push_str(&mut out, "<director_notes>\n"),
            PromptStyle::Markdown => push_str(&mut out, "# Director Notes\n"),
        }
        push_notes_block(&mut out, style, &self.notes, chunk_info);
        let ghost mid = out@;
        match style {
            PromptStyle::Tagged => {
                push_str(&mut out, "\n[TRANSCRIPT]\n");
                push_all(&mut out, clean.as_slice());
            },
            PromptStyle::Xml => {
                push_str(&mut out, "</director_notes>\n\n<transcript>\n");
                push_all(&mut out, clean.as_slice());
                push_str(&mut out, "\n</transcript>");
            },
            PromptStyle::Markdown => {
                push_str(&mut out, "\n# Transcript\n");
                push_all(&mut out, clean.as_slice());
            },
        }
        assert(out@ =~= prompt_text(self.notes@, style, trim(transcript@), chunk_info));
        chars_to_string(out.as_slice())
    }
}

fn push_notes_block(
    out: &mut Vec<char>,
    style: PromptStyle,
    notes: &DirectorNotes,
    chunk_info: Option<(usize, usize)>,
)
    requires
        chunk_info matches Some((i, _)) ==> i < usize::MAX,
    ensures
        final(out)@ == old(out)@ + notes_block(style, notes@, chunk_info),
{
    match chunk_info {
        Some((idx, total)) => {
            let mut v: Vec<char> = Vec::new();
            push_dec_usize(&mut v, idx + 1);
            push_str(&mut v, "/");
            push_dec_usize(&mut v, total);
            assert(v@ =~= dec((idx + 1) as nat) + "/"@ + dec(total as nat));
            push_note_line(out, style, "Chunk", v.as_slice());
        },
        None => {
            assert(out@ =~= old(out)@ + Seq::<char>::empty());
        },
    }
    let ghost a = out@;
    push_opt_line(out, style, "Voice", &notes.voice_name);
    push_opt_line(out, style, "Tone", &notes.tone);
    push_opt_line(out, style, "Speed", &notes.speed);
    push_opt_line(out, style, "Accent", &notes.accent);
    push_opt_line(out, style, "Emotion", &notes.emotion);
    push_opt_line(out, style, "Instructions", &notes.custom_instructions);
    let ghost b = out@;
    if notes.is_empty() && chunk_info.is_none() {
        match style {
            PromptStyle::Tagged => push_str(
                out,
                "Standard VietTTS reading mode. Preserve all punctuation and pauses.\n",
            ),
            PromptStyle::Xml => push_str(out, "Standard VietTTS reading mode.\n"),
            PromptStyle::Markdown => push_str(out, "- Standard VietTTS reading mode.\n"),
        }
    } else {
        assert(out@ =~= b + Seq::<char>::empty());
    }
    assert(out@ =~= old(out)@ + notes_block(style, notes@, chunk_info));
}

impl Default for PromptBuilder {
    fn default() -> (r: Self)
        ensures
            r.notes_spec() == no_notes(),
            r.style_spec() == PromptStyle::Tagged,
    {
        PromptBuilder::new()
    }
}

/// The notes that `build_tts_prompt` derives from the style options.
pub open spec fn options_notes(opts: PromptStyleOptions) -> NotesSpec {
    NotesSpec {
        tone: Some(opts.style_preset@),
        speed: Some(opts.pacing@),
        custom_instructions: opt_view(opts.pronunciation_notes),
        ..no_notes()
    }
}

/// The tagged prompt for `text` with the preset as tone, the pacing as speed and
/// the pronunciation notes as instructions.
pub fn build_tts_prompt(text: &str, opts: &PromptStyleOptions) -> (r: String)
    ensures
        r@ == prompt_text(options_notes(*opts), PromptStyle::Tagged, trim(text@), None),
{
    let mut builder = PromptBuilder::new().with_tone(opts.style_preset.as_str()).with_speed(
        opts.pacing.as_str(),
    );
    match &opts.pronunciation_notes {
        Some(notes) => {
            builder = builder.with_custom_instructions(notes.as_str());
        },
        None => {},
    }
    builder.build_prompt(text)
}

/// The speed that a run of `<prosody>` attribute texts asks for: the last one that
/// mentions "slow" or "fast" decides ("slow" first).
pub open spec fn prosody_speed(attrs: Seq<Option<Seq<char>>>) -> Option<Seq<char>>
    decreases attrs.len(),
{
    if attrs.len() == 0 {
        None
    } else {
        match attrs.last() {
            Some(a) => if contains_seq(a, "slow"@) {
                Some("slow"@)
            } else if contains_seq(a, "fast"@) {
                Some("fast"@)
            } else {
                prosody_speed(attrs.drop_last())
            },
            None => prosody_speed(attrs.drop_last()),
        }
    }
}

/// Director notes from the attribute texts of the `<prosody>` elements, in order.
pub fn notes_from_prosody(attrs: &Vec<Option<String>>) -> (r: DirectorNotes)
    ensures
        r@ == (NotesSpec { speed: prosody_speed(opt_views(attrs@)), ..no_notes() }),
{
    let mut notes = DirectorNotes::new();
    let slow = str_to_chars("slow");
    let fast = str_to_chars("fast");
    let ghost views = opt_views(attrs@);
    let mut i: usize = 0;
    while i < attrs.len()
        invariant
            0 <= i <= attrs@.len(),
            views == opt_views(attrs@),
            slow@ == "slow"@,
            fast@ == "fast"@,
            notes@ == (NotesSpec { speed: prosody_speed(views.take(i as int)), ..no_notes() }),
        decreases attrs@.len() - i,
    {
        proof {
            assert(views.take(i + 1).drop_last() =~= views.take(i as int));
            assert(views.take(i + 1).last() == opt_view(attrs@[i as int]));
        }
        match &attrs[i] {
            Some(a) => {
                let cs = str_to_chars(a.as_str());
                if contains_chars(cs.as_slice(), slow.as_slice()) {
                    notes.speed = Some("slow".to_owned());
                } else if contains_chars(cs.as_slice(), fast.as_slice()) {
                    notes.speed = Some("fast".to_owned());
                }
            },
            None => {},
        }
        i = i + 1;
    }
    proof {
        assert(views.take(attrs@.len() as int) =~= views);
    }
    notes
}

/// The text steps of the SSML conversion: `<speak>` wrappers dropped, breaks as
/// `[Pause t]`, emphasis as `[Emphasize: text]`, prosody elements unwrapped, and the
/// result trimmed.
pub open spec fn ssml_transcript(ssml: Seq<char>) -> Seq<char> {
    let t1 = rewrite_or_keep("(?i)</?speak>"@, ssml, ""@);
    let t2 = rewrite_or_keep("(?i)<break\\s+time=[\"']([^\"']+)[\"']\\s*/?>"@, t1, " [Pause $1] "@);
    let t3 = rewrite_or_keep("(?i)<emphasis[^>]*>(.*?)</emphasis>"@, t2, " [Emphasize: $1] "@);
    let t4 = rewrite_or_keep("(?i)<prosody\\s+([^>]+)>(.*?)</prosody>"@, t3, "$2"@);
    trim(t4)
}

/// The notes of the SSML conversion: the speed asked for by the prosody attributes.
pub open spec fn ssml_notes(ssml: Seq<char>) -> NotesSpec {
    match regex_group_matches("(?i)<prosody\\s+([^>]+)>(.*?)</prosody>"@, ssml, 1) {
        Some(attrs) => NotesSpec { speed: prosody_speed(attrs), ..no_notes() },
        None => no_notes(),
    }
}

/// Splits SSML markup into director notes and the transcript to read. A pattern
/// that does not compile leaves its step out.
pub fn parse_ssml_to_prompt(ssml_text: &str) -> (r: (DirectorNotes, String))
    ensures
        r.0@ == ssml_notes(ssml_text@),
        r.1@ == ssml_transcript(ssml_text@),
{
    let t1 = rewrite_all("(?i)</?speak>", ssml_text, "");
    let t2 = rewrite_all(
        "(?i)<break\\s+time=[\"']([^\"']+)[\"']\\s*/?>",
        t1.as_str(),
        " [Pause $1] ",
    );
    let t3 = rewrite_all("(?i)<emphasis[^>]*>(.*?)</emphasis>", t2.as_str(), " [Emphasize: $1] ");
    let notes = match regex_groups("(?i)<prosody\\s+([^>]+)>(.*?)</prosody>", ssml_text, 1) {
        Some(attrs) => notes_from_prosody(&attrs),
        None => DirectorNotes::new(),
    };
    let t4 = rewrite_all("(?i)<prosody\\s+([^>]+)>(.*?)</prosody>", t3.as_str(), "$2");
    let cs = str_to_chars(t4.as_str());
    let clean = trim_chars(cs.as_slice());
    (notes, chars_to_string(clean.as_slice()))
}

} // verus!
