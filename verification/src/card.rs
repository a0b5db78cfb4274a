//! The two card layouts: a baby-name card and a word-of-the-day card, each a
//! fixed frame of 1200 by 630 units around escaped and wrapped text.

use vstd::prelude::*;
use vstd::string::StringExecFns;
use crate::decimal::decimal;
use crate::decimal::push_decimal;
use crate::escape::escape_xml;
use crate::escape::escaped;
use crate::wrap::joined;
use crate::wrap::wrap_text;
use crate::wrap::wrapped;

verus! {

/// Characters to a line of the meaning on a baby-name card.
pub const NAME_MEANING_WIDTH: usize = 60;

/// Vertical offset of the first line of the meaning on a baby-name card.
pub const NAME_MEANING_START: u128 = 360;

/// Advance from one line of the meaning to the next on a baby-name card.
pub const NAME_MEANING_STEP: u128 = 35;

/// Characters to a line of the story.
pub const STORY_WIDTH: usize = 80;

/// Space between the meaning and the story.
pub const STORY_GAP: u128 = 30;

/// Advance from one line of the story to the next.
pub const STORY_STEP: u128 = 28;

/// Characters to a line of the meaning on a word card.
pub const WORD_MEANING_WIDTH: usize = 70;

/// Vertical offset of the first line of the meaning on a word card.
pub const WORD_MEANING_START: u128 = 420;

/// Advance from one line of the meaning to the next on a word card.
pub const WORD_MEANING_STEP: u128 = 32;

/// How a text row opens, up to its vertical offset.
pub const ROW_OPEN: &'static str = r##"  <text x="600" y=""##;

/// How a row of a meaning goes on behind its vertical offset.
pub const MEANING_STYLE: &'static str = r##"" font-family="system-ui, -apple-system, sans-serif" font-size="28" fill="#000000" text-anchor="middle">"##;

/// How a row of the story goes on behind its vertical offset.
pub const STORY_STYLE: &'static str = r##"" font-family="system-ui, -apple-system, sans-serif" font-size="22" fill="#333333" text-anchor="middle">"##;

/// How a text row closes.
pub const ROW_CLOSE: &'static str = r##"</text>"##;

/// What separates two rows.
pub const ROW_BREAK: &'static str = "\n";

/// The baby-name card up to the name.
pub const NAME_HEAD: &'static str = r##"<svg width="1200" height="630" viewBox="0 0 1200 630" xmlns="http://www.w3.org/2000/svg">
  <!-- Background with 4px border -->
  <rect width="1200" height="630" fill="#FFFFFF" rx="4"/>
  <rect x="4" y="4" width="1192" height="622" fill="#FFFFFF" stroke="#000000" stroke-width="4" rx="4"/>

  <!-- Rounded rect box for name -->
  <rect x="100" y="140" width="1000" height="140" rx="20" fill="#FFFFFF" stroke="#000000" stroke-width="2"/>

  <!-- Name (centered in box) -->
  <text x="600" y="230" font-family="system-ui, -apple-system, sans-serif" font-size="72" font-weight="bold" fill="#000000" text-anchor="middle">"##;

/// The baby-name card between the name and the pronunciation.
pub const NAME_TO_PRONUNCIATION: &'static str = r##"</text>

  <!-- Pronunciation -->
  <text x="600" y="310" font-family="system-ui, -apple-system, sans-serif" font-size="24" fill="#666666" text-anchor="middle" font-style="italic">"##;

/// The baby-name card between the pronunciation and the meaning.
pub const NAME_TO_MEANING: &'static str = r##"</text>

  <!-- Meaning -->
"##;

/// The baby-name card between the meaning and the story.
pub const NAME_TO_STORY: &'static str = r##"

  <!-- Story -->
"##;

/// The word card up to the word.
pub const WORD_HEAD: &'static str = r##"<svg width="1200" height="630" viewBox="0 0 1200 630" xmlns="http://www.w3.org/2000/svg">
  <!-- Background with 4px border -->
  <rect width="1200" height="630" fill="#FFFFFF" rx="4"/>
  <rect x="4" y="4" width="1192" height="622" fill="#FFFFFF" stroke="#000000" stroke-width="4" rx="4"/>

  <!-- Title -->
  <text x="600" y="80" font-family="system-ui, -apple-system, sans-serif" font-size="24" fill="#666666" text-anchor="middle">Sanskrit Word of the Day</text>

  <!-- Rounded rect box for word -->
  <rect x="150" y="150" width="900" height="180" rx="20" fill="#FFFFFF" stroke="#000000" stroke-width="2"/>

  <!-- Sanskrit word (centered in box) -->
  <text x="600" y="270" font-family="system-ui, -apple-system, sans-serif" font-size="90" font-weight="bold" fill="#000000" text-anchor="middle">"##;

/// The word card between the word and the transliteration.
pub const WORD_TO_TRANSLITERATION: &'static str = r##"</text>

  <!-- Transliteration -->
  <text x="600" y="370" font-family="system-ui, -apple-system, sans-serif" font-size="32" fill="#666666" text-anchor="middle" font-style="italic">"##;

/// The word card between the transliteration and the meaning.
pub const WORD_TO_MEANING: &'static str = r##"</text>

  <!-- Meaning -->
"##;

/// How both cards end: the branding line and the closing tag.
pub const CARD_TAIL: &'static str = r##"

  <!-- Branding -->
  <text x="60" y="590" font-family="system-ui, -apple-system, sans-serif" font-size="20" fill="#666666">sanskrit.roj.app</text>
</svg>"##;

/// Vertical offset of line `i` of a block that starts at `start` and advances
/// by `step`.
pub open spec fn line_offset(start: nat, step: nat, i: nat) -> nat {
    start + i * step
}

/// One row of text: `line`, escaped, at the vertical offset `y`.
pub open spec fn row(y: nat, style: Seq<char>, line: Seq<char>) -> Seq<char> {
    ROW_OPEN@ + decimal(y) + style + escaped(line) + ROW_CLOSE@
}

/// The rows of `lines`: the first at `start`, each further one `step` below
/// the one before.
pub open spec fn rows(lines: Seq<Seq<char>>, start: nat, step: nat, style: Seq<char>) -> Seq<
    Seq<char>,
> {
    Seq::new(lines.len(), |i: int| row(line_offset(start, step, i as nat), style, lines[i]))
}

/// The rows of `lines`, one to a line of markup; nothing at all for no lines.
pub open spec fn block(lines: Seq<Seq<char>>, start: nat, step: nat, style: Seq<char>) -> Seq<
    char,
> {
    joined(rows(lines, start, step, style), ROW_BREAK@)
}

/// Vertical offset of the first line of the story below a meaning of
/// `meaning_lines` lines.
pub open spec fn story_start(meaning_lines: nat) -> nat {
    line_offset(NAME_MEANING_START as nat, NAME_MEANING_STEP as nat, meaning_lines)
        + STORY_GAP as nat
}

/// The markup of a baby-name card.
pub open spec fn baby_name_markup(
    name: Seq<char>,
    pronunciation: Seq<char>,
    meaning: Seq<char>,
    story: Seq<char>,
) -> Seq<char> {
    let meaning_lines = wrapped(meaning, NAME_MEANING_WIDTH as nat);
    let story_lines = wrapped(story, STORY_WIDTH as nat);
    NAME_HEAD@ + escaped(name) + NAME_TO_PRONUNCIATION@ + escaped(pronunciation)
        + NAME_TO_MEANING@ + block(
        meaning_lines,
        NAME_MEANING_START as nat,
        NAME_MEANING_STEP as nat,
        MEANING_STYLE@,
    ) + NAME_TO_STORY@ + block(
        story_lines,
        story_start(meaning_lines.len()),
        STORY_STEP as nat,
        STORY_STYLE@,
    ) + CARD_TAIL@
}

/// The markup of a word card.
pub open spec fn word_markup(
    sanskrit: Seq<char>,
    transliteration: Seq<char>,
    meaning: Seq<char>,
) -> Seq<char> {
    WORD_HEAD@ + escaped(sanskrit) + WORD_TO_TRANSLITERATION@ + escaped(transliteration)
        + WORD_TO_MEANING@ + block(
        wrapped(meaning, WORD_MEANING_WIDTH as nat),
        WORD_MEANING_START as nat,
        WORD_MEANING_STEP as nat,
        MEANING_STYLE@,
    ) + CARD_TAIL@
}

/// The story starts below every line of the meaning: strictly below the
/// offset that one more line of the meaning would have had.
pub proof fn lemma_story_below_meaning(meaning_lines: nat)
    ensures
        story_start(meaning_lines) > 360 + meaning_lines * 35,
        forall|i: nat|
            i < meaning_lines ==> story_start(meaning_lines) > #[trigger] line_offset(
                NAME_MEANING_START as nat,
                NAME_MEANING_STEP as nat,
                i,
            ),
{
}

/// Vertical offset of the first line of the story below a meaning of
/// `meaning_lines` lines.
pub fn story_offset(meaning_lines: usize) -> (y: u128)
    ensures
        y == story_start(meaning_lines as nat),
        y == 360 + meaning_lines * 35 + 30,
        y > 360 + meaning_lines * 35,
{
    NAME_MEANING_START + (meaning_lines as u128) * NAME_MEANING_STEP + STORY_GAP
}

/// Appends the rows of `lines` to `out`.
fn push_block(out: &mut String, lines: &Vec<String>, start: u128, step: u128, style: &str)
    requires
        start + lines.len() * step <= u128::MAX,
    ensures
        final(out)@ == old(out)@ + block(
            lines.deep_view(),
            start as nat,
            step as nat,
            style@,
        ),
{
    let ghost all = rows(lines.deep_view(), start as nat, step as nat, style@);
    let mut y: u128 = start;
    for i in 0..lines.len()
        invariant
            all == rows(lines.deep_view(), start as nat, step as nat, style@),
            start + lines.len() * step <= u128::MAX,
            y == start + i * step,
            out@ == old(out)@ + joined(all.take(i as int), ROW_BREAK@),
    {
        if i > 0 {
            out.append(ROW_BREAK);
        }
        out.append(ROW_OPEN);
        push_decimal(out, y);
        out.append(style);
        let line = escape_xml(lines[i].as_str());
        out.append(line.as_str());
        out.append(ROW_CLOSE);
        proof {
            assert(all.take(i + 1).drop_last() =~= all.take(i as int));
            assert((i + 1) * step == i * step + step) by (nonlinear_arith);
            assert((i + 1) * step <= lines.len() * step) by (nonlinear_arith)
                requires
                    i + 1 <= lines.len(),
                    step >= 0,
            ;
        }
        y = y + step;
    }
    proof {
        assert(all.take(lines.len() as int) =~= all);
    }
}

/// Renders a baby-name card. `gender` is taken and not shown.
pub fn generate_baby_name_svg(
    name: &str,
    pronunciation: &str,
    meaning: &str,
    story: &str,
    gender: &str,
) -> (markup: String)
    ensures
        markup@ == baby_name_markup(name@, pronunciation@, meaning@, story@),
{
    let name_safe = escape_xml(name);
    let pronunciation_safe = escape_xml(pronunciation);
    let meaning_lines = wrap_text(meaning, NAME_MEANING_WIDTH);
    let story_lines = wrap_text(story, STORY_WIDTH);
    let mut out = String::new();
    out.append(NAME_HEAD);
    out.append(name_safe.as_str());
    out.append(NAME_TO_PRONUNCIATION);
    out.append(pronunciation_safe.as_str());
    out.append(NAME_TO_MEANING);
    push_block(&mut out, &meaning_lines, NAME_MEANING_START, NAME_MEANING_STEP, MEANING_STYLE);
    out.append(NAME_TO_STORY);
    let below = story_offset(meaning_lines.len());
    push_block(&mut out, &story_lines, below, STORY_STEP, STORY_STYLE);
    out.append(CARD_TAIL);
    out
}

/// Renders a word card.
pub fn generate_word_svg(sanskrit: &str, transliteration: &str, meaning: &str) -> (markup: String)
    ensures
        markup@ == word_markup(sanskrit@, transliteration@, meaning@),
{
    let sanskrit_safe = escape_xml(sanskrit);
    let transliteration_safe = escape_xml(transliteration);
    let meaning_lines = wrap_text(meaning, WORD_MEANING_WIDTH);
    let mut out = String::new();
    out.append(WORD_HEAD);
    out.append(sanskrit_safe.as_str());
    out.append(WORD_TO_TRANSLITERATION);
    out.append(transliteration_safe.as_str());
    out.append(WORD_TO_MEANING);
    push_block(&mut out, &meaning_lines, WORD_MEANING_START, WORD_MEANING_STEP, MEANING_STYLE);
    out.append(CARD_TAIL);
    out
}

/// The content type of every card.
pub const CONTENT_TYPE: &'static str = "image/svg+xml";

/// How long a baby-name card may be kept: a year, and it never changes.
pub const NAME_CACHE_CONTROL: &'static str = "public, max-age=31536000, immutable";

/// How long a word card may be kept: an hour.
pub const WORD_CACHE_CONTROL: &'static str = "public, max-age=3600";

/// What a card is made from. A field that was not given is the empty text.
#[derive(Clone, Debug, PartialEq, Eq)]
pub enum CardTemplate {
    BabyName {
        name: String,
        pronunciation: String,
        meaning: String,
        story: String,
        gender: String,
    },
    WordOfDay { sanskrit: String, transliteration: String, meaning: String },
}

/// The texts of a `CardTemplate`.
pub enum CardValues {
    BabyName {
        name: Seq<char>,
        pronunciation: Seq<char>,
        meaning: Seq<char>,
        story: Seq<char>,
        gender: Seq<char>,
    },
    WordOfDay { sanskrit: Seq<char>, transliteration: Seq<char>, meaning: Seq<char> },
}

impl View for CardTemplate {
    type V = CardValues;

    open spec fn view(&self) -> CardValues {
        match self {
            CardTemplate::BabyName { name, pronunciation, meaning, story, gender } => {
                CardValues::BabyName {
                    name: name@,
                    pronunciation: pronunciation@,
                    meaning: meaning@,
                    story: story@,
                    gender: gender@,
                }
            },
            CardTemplate::WordOfDay { sanskrit, transliteration, meaning } => {
                CardValues::WordOfDay {
                    sanskrit: sanskrit@,
                    transliteration: transliteration@,
                    meaning: meaning@,
                }
            },
        }
    }
}

/// The texts of a `RenderedDocument`.
pub struct DocumentValues {
    pub markup: Seq<char>,
    pub content_type: Seq<char>,
    pub cache_control: Seq<char>,
}

/// A rendered card: its markup, its content type and how long it may be
/// kept. Only `CardTemplate::render` makes one, and nothing changes it.
#[derive(Clone, Debug, PartialEq, Eq)]
pub struct RenderedDocument {
    markup: String,
    content_type: String,
    cache_control: String,
}

impl View for RenderedDocument {
    type V = DocumentValues;

    closed spec fn view(&self) -> DocumentValues {
        DocumentValues {
            markup: self.markup@,
            content_type: self.content_type@,
            cache_control: self.cache_control@,
        }
    }
}

/// The document that a card renders to. The gender of a baby-name card has
/// no part in it.
pub open spec fn rendering(card: CardValues) -> DocumentValues {
    match card {
        CardValues::BabyName { name, pronunciation, meaning, story, gender } => DocumentValues {
            markup: baby_name_markup(name, pronunciation, meaning, story),
            content_type: CONTENT_TYPE@,
            cache_control: NAME_CACHE_CONTROL@,
        },
        CardValues::WordOfDay { sanskrit, transliteration, meaning } => DocumentValues {
            markup: word_markup(sanskrit, transliteration, meaning),
            content_type: CONTENT_TYPE@,
            cache_control: WORD_CACHE_CONTROL@,
        },
    }
}

impl CardTemplate {
    /// Renders the card.
    pub fn render(&self) -> (doc: RenderedDocument)
        ensures
            doc@ == rendering(self@),
    {
        match self {
            CardTemplate::BabyName { name, pronunciation, meaning, story, gender } => {
                RenderedDocument {
                    markup: generate_baby_name_svg(
                        name.as_str(),
                        pronunciation.as_str(),
                        meaning.as_str(),
                        story.as_str(),
                        gender.as_str(),
                    ),
                    content_type: String::from_str(CONTENT_TYPE),
                    cache_control: String::from_str(NAME_CACHE_CONTROL),
                }
            },
            CardTemplate::WordOfDay { sanskrit, transliteration, meaning } => RenderedDocument {
                markup: generate_word_svg(
                    sanskrit.as_str(),
                    transliteration.as_str(),
                    meaning.as_str(),
                ),
                content_type: String::from_str(CONTENT_TYPE),
                cache_control: String::from_str(WORD_CACHE_CONTROL),
            },
        }
    }
}

impl RenderedDocument {
    /// The markup.
    pub fn markup(&self) -> (text: &str)
        ensures
            text@ == self@.markup,
    {
        self.markup.as_str()
    }

    /// The content type.
    pub fn content_type(&self) -> (text: &str)
        ensures
            text@ == self@.content_type,
    {
        self.content_type.as_str()
    }

    /// How long the document may be kept.
    pub fn cache_control(&self) -> (text: &str)
        ensures
            text@ == self@.cache_control,
    {
        self.cache_control.as_str()
    }
}

/// A card renders to one document only: two renderings of cards with the
/// same texts are the same, character by character.
pub proof fn lemma_rendering_is_determined(
    a: CardTemplate,
    b: CardTemplate,
    first: RenderedDocument,
    second: RenderedDocument,
)
    requires
        a@ == b@,
        first@ == rendering(a@),
        second@ == rendering(b@),
    ensures
        first@ == second@,
        first@.markup == second@.markup,
{
}

/// A card without words to its story has no rows between the story's heading
/// and the branding.
pub proof fn lemma_no_story(
    name: Seq<char>,
    pronunciation: Seq<char>,
    meaning: Seq<char>,
    story: Seq<char>,
)
    requires
        crate::wrap::words(story).len() == 0,
    ensures
        baby_name_markup(name, pronunciation, meaning, story) == NAME_HEAD@ + escaped(name)
            + NAME_TO_PRONUNCIATION@ + escaped(pronunciation) + NAME_TO_MEANING@ + block(
            wrapped(meaning, NAME_MEANING_WIDTH as nat),
            NAME_MEANING_START as nat,
            NAME_MEANING_STEP as nat,
            MEANING_STYLE@,
        ) + NAME_TO_STORY@ + CARD_TAIL@,
{
    let start = story_start(wrapped(meaning, NAME_MEANING_WIDTH as nat).len());
    assert(block(wrapped(story, STORY_WIDTH as nat), start, STORY_STEP as nat, STORY_STYLE@)
        =~= Seq::<char>::empty());
}

} // verus!
