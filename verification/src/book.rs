//! The document model: a book of chapters, each an ordered list of
//! dictionary characters, each with its usage examples; and the two
//! derived shapes, the quiz card and the glyph inventory.

use crate::furi::FuriCharView;
use crate::furi::FuriString;
use vstd::prelude::*;

verus! {

/// Model of one usage example.
pub struct UsageView {
    pub furigana: Seq<FuriCharView>,
    pub meaning: Seq<char>,
}

/// One concrete example of a character's use: the word as a furigana
/// string, and its free-text meaning.
#[derive(Clone, Debug, PartialEq, Eq)]
pub struct Usage {
    pub furigana: FuriString,
    pub meaning: String,
}

impl View for Usage {
    type V = UsageView;

    open spec fn view(&self) -> UsageView {
        UsageView { furigana: self.furigana@, meaning: self.meaning@ }
    }
}

/// Model of one dictionary entry.
pub struct CharacterView {
    pub number: int,
    pub character: Seq<char>,
    pub meaning: Seq<char>,
    pub usages: Seq<UsageView>,
}

/// One dictionary entry: its ordinal number within the chapter, the
/// character's own glyph, its meaning, and its usage examples in
/// order.
#[derive(Clone, Debug, PartialEq, Eq)]
pub struct Character {
    pub number: usize,
    pub character: String,
    pub meaning: String,
    pub usages: Vec<Usage>,
}

impl View for Character {
    type V = CharacterView;

    open spec fn view(&self) -> CharacterView {
        CharacterView {
            number: self.number as int,
            character: self.character@,
            meaning: self.meaning@,
            usages: self.usages@.map_values(|u: Usage| u@),
        }
    }
}

/// Model of one chapter.
pub struct ChapterView {
    pub chapter: int,
    pub characters: Seq<CharacterView>,
}

/// One chapter: its ordinal number and its characters in order.
#[derive(Clone, Debug, PartialEq, Eq)]
pub struct Chapter {
    pub chapter: usize,
    pub characters: Vec<Character>,
}

impl View for Chapter {
    type V = ChapterView;

    open spec fn view(&self) -> ChapterView {
        ChapterView {
            chapter: self.chapter as int,
            characters: self.characters@.map_values(|c: Character| c@),
        }
    }
}

/// Model of the whole book.
pub struct BookView {
    pub chapters: Seq<ChapterView>,
}

/// The root of the document: the chapters in order. Loaded once by the
/// surrounding service and read-only afterwards.
#[derive(Clone, Debug, PartialEq, Eq)]
pub struct Book {
    pub chapters: Vec<Chapter>,
}

impl View for Book {
    type V = BookView;

    open spec fn view(&self) -> BookView {
        BookView { chapters: self.chapters@.map_values(|c: Chapter| c@) }
    }
}

/// Model of one quiz card.
pub struct CardView {
    pub prompt: Seq<char>,
    pub answer: Seq<char>,
    pub meaning: Seq<char>,
    pub chapter_num: int,
    pub character_num: int,
    pub character_meaning: Seq<char>,
    pub character: Seq<char>,
}

/// One quiz card, derived from one usage: the surface form to prompt
/// with, the full reading as the answer, and the identifying fields of
/// the usage's character and chapter.
#[derive(Clone, Debug, PartialEq, Eq)]
pub struct Card {
    pub prompt: String,
    pub answer: String,
    pub meaning: String,
    pub chapter_num: usize,
    pub character_num: usize,
    pub character_meaning: String,
    pub character: String,
}

impl View for Card {
    type V = CardView;

    open spec fn view(&self) -> CardView {
        CardView {
            prompt: self.prompt@,
            answer: self.answer@,
            meaning: self.meaning@,
            chapter_num: self.chapter_num as int,
            character_num: self.character_num as int,
            character_meaning: self.character_meaning@,
            character: self.character@,
        }
    }
}

/// The glyph inventory: every distinct character appearing in any
/// card's prompt or answer, each exactly once, in no particular order.
#[derive(Clone, Debug, PartialEq, Eq)]
pub struct Font {
    pub glyphs: String,
}

impl View for Font {
    type V = Seq<char>;

    open spec fn view(&self) -> Seq<char> {
        self.glyphs@
    }
}

} // verus!
