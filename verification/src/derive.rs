//! The two derivations over a loaded book: the flat card list and the
//! glyph inventory.

use crate::book::Book;
use crate::book::BookView;
use crate::book::Card;
use crate::book::CardView;
use crate::book::Chapter;
use crate::book::ChapterView;
use crate::book::Character;
use crate::book::CharacterView;
use crate::book::Font;
use crate::book::UsageView;
use crate::furi::spec_kana;
use crate::furi::spec_kanji_or_kana;
use vstd::prelude::*;

verus! {

/// The card derived from one usage of one character in one chapter:
/// the usage's surface form and reading, its meaning, and the
/// enclosing character's and chapter's identifying fields.
pub open spec fn spec_card(chapter_num: int, character: CharacterView, usage: UsageView) -> CardView {
    CardView {
        prompt: spec_kanji_or_kana(usage.furigana),
        answer: spec_kana(usage.furigana),
        meaning: usage.meaning,
        chapter_num: chapter_num,
        character_num: character.number,
        character_meaning: character.meaning,
        character: character.character,
    }
}

/// The cards of one character: one per usage, in usage order.
pub open spec fn spec_character_cards(chapter_num: int, character: CharacterView) -> Seq<CardView> {
    character.usages.map_values(|u: UsageView| spec_card(chapter_num, character, u))
}

/// The cards of one chapter: its characters' cards, in character
/// order.
pub open spec fn spec_chapter_cards(chapter: ChapterView) -> Seq<CardView> {
    chapter.characters.map_values(
        |c: CharacterView| spec_character_cards(chapter.chapter, c),
    ).flatten()
}

/// The cards of the whole book: chapter-major, then character, then
/// usage, matching document order.
pub open spec fn spec_cards(book: BookView) -> Seq<CardView> {
    book.chapters.map_values(|ch: ChapterView| spec_chapter_cards(ch)).flatten()
}

/// The cards of one character, one per usage.
fn character_cards(chapter_num: usize, character: &Character) -> (r: Vec<Card>)
    ensures
        r@.map_values(|c: Card| c@) == spec_character_cards(chapter_num as int, character@),
{
    let mut r: Vec<Card> = Vec::new();
    let mut i: usize = 0;
    let ghost target = spec_character_cards(chapter_num as int, character@);
    proof {
        assert(r@.map_values(|c: Card| c@) =~= target.take(0));
    }
    while i < character.usages.len()
        invariant
            i <= character.usages.len(),
            target == spec_character_cards(chapter_num as int, character@),
            target.len() == character.usages.len(),
            r@.map_values(|c: Card| c@) == target.take(i as int),
        decreases character.usages.len() - i,
    {
        let usage = &character.usages[i];
        let card = Card {
            prompt: usage.furigana.kanji_or_kana(),
            answer: usage.furigana.kana(),
            meaning: usage.meaning.clone(),
            chapter_num: chapter_num,
            character_num: character.number,
            character_meaning: character.meaning.clone(),
            character: character.character.clone(),
        };
        proof {
            r@.lemma_push_map_commute(|c: Card| c@, card);
            target.lemma_take_succ_push(i as int);
            assert(target[i as int] == spec_card(
                chapter_num as int,
                character@,
                character@.usages[i as int],
            ));
            assert(card@ == target[i as int]);
        }
        r.push(card);
        i = i + 1;
    }
    proof {
        assert(target.take(target.len() as int) =~= target);
    }
    r
}

/// The cards of one chapter, character by character.
fn chapter_cards(chapter: &Chapter) -> (r: Vec<Card>)
    ensures
        r@.map_values(|c: Card| c@) == spec_chapter_cards(chapter@),
{
    let mut r: Vec<Card> = Vec::new();
    let mut i: usize = 0;
    let ghost blocks = chapter@.characters.map_values(
        |c: CharacterView| spec_character_cards(chapter@.chapter, c),
    );
    proof {
        assert(r@.map_values(|c: Card| c@) =~= blocks.take(0).flatten());
    }
    while i < chapter.characters.len()
        invariant
            i <= chapter.characters.len(),
            blocks == chapter@.characters.map_values(
                |c: CharacterView| spec_character_cards(chapter@.chapter, c),
            ),
            blocks.len() == chapter.characters.len(),
            r@.map_values(|c: Card| c@) == blocks.take(i as int).flatten(),
        decreases chapter.characters.len() - i,
    {
        let mut block = character_cards(chapter.chapter, &chapter.characters[i]);
        proof {
            assert(chapter@.characters[i as int] == chapter.characters[i as int]@);
            assert(block@.map_values(|c: Card| c@) == blocks[i as int]);
            blocks.lemma_take_succ_push(i as int);
            blocks.take(i as int).lemma_flatten_push(blocks[i as int]);
            assert((r@ + block@).map_values(|c: Card| c@) =~= r@.map_values(|c: Card| c@)
                + block@.map_values(|c: Card| c@));
        }
        r.append(&mut block);
        i = i + 1;
    }
    proof {
        assert(blocks.take(blocks.len() as int) =~= blocks);
    }
    r
}

/// The full flattened card list of a loaded book: for every chapter in
/// order, for every character in order, for every usage in order, one
/// card. A pure function of the book.
pub fn cards(book: &Book) -> (r: Vec<Card>)
    ensures
        r@.map_values(|c: Card| c@) == spec_cards(book@),
{
    let mut r: Vec<Card> = Vec::new();
    let mut i: usize = 0;
    let ghost blocks = book@.chapters.map_values(|ch: ChapterView| spec_chapter_cards(ch));
    proof {
        assert(r@.map_values(|c: Card| c@) =~= blocks.take(0).flatten());
    }
    while i < book.chapters.len()
        invariant
            i <= book.chapters.len(),
            blocks == book@.chapters.map_values(|ch: ChapterView| spec_chapter_cards(ch)),
            blocks.len() == book.chapters.len(),
            r@.map_values(|c: Card| c@) == blocks.take(i as int).flatten(),
        decreases book.chapters.len() - i,
    {
        let mut block = chapter_cards(&book.chapters[i]);
        proof {
            assert(book@.chapters[i as int] == book.chapters[i as int]@);
            assert(block@.map_values(|c: Card| c@) == blocks[i as int]);
            blocks.lemma_take_succ_push(i as int);
            blocks.take(i as int).lemma_flatten_push(blocks[i as int]);
            assert((r@ + block@).map_values(|c: Card| c@) =~= r@.map_values(|c: Card| c@)
                + block@.map_values(|c: Card| c@));
        }
        r.append(&mut block);
        i = i + 1;
    }
    proof {
        assert(blocks.take(blocks.len() as int) =~= blocks);
    }
    r
}

/// The prompt and answer text of one card.
pub open spec fn spec_card_text(c: CardView) -> Seq<char> {
    c.prompt + c.answer
}

/// Every card's prompt and answer text, concatenated in card order.
pub open spec fn spec_all_text(cards: Seq<CardView>) -> Seq<char> {
    cards.map_values(|c: CardView| spec_card_text(c)).flatten()
}

/// Whether a vector of characters holds a given character.
fn contains_char(v: &Vec<char>, c: char) -> (b: bool)
    ensures
        b == v@.contains(c),
{
    let mut i: usize = 0;
    while i < v.len()
        invariant
            i <= v.len(),
            forall|j: int| 0 <= j < i ==> v@[j] != c,
        decreases v.len() - i,
    {
        if v[i] == c {
            return true;
        }
        i = i + 1;
    }
    false
}

/// Adds to `seen` every character of `text` not already there, keeping
/// `seen` free of duplicates.
fn add_glyphs(seen: &mut Vec<char>, text: &str)
    requires
        old(seen)@.no_duplicates(),
    ensures
        final(seen)@.no_duplicates(),
        final(seen)@.to_set() == old(seen)@.to_set() + text@.to_set(),
{
    let tv = crate::furi::chars_of(text);
    let mut j: usize = 0;
    proof {
        assert(text@.take(0) =~= Seq::<char>::empty());
        assert(seen@.to_set() =~= old(seen)@.to_set() + text@.take(0).to_set());
    }
    while j < tv.len()
        invariant
            tv@ == text@,
            j <= tv.len(),
            seen@.no_duplicates(),
            seen@.to_set() == old(seen)@.to_set() + text@.take(j as int).to_set(),
        decreases tv.len() - j,
    {
        let c = tv[j];
        proof {
            assert(text@.take(j + 1) =~= text@.take(j as int).push(c));
            text@.take(j as int).lemma_push_to_set_commute(c);
        }
        if !contains_char(seen, c) {
            proof {
                seen@.lemma_push_to_set_commute(c);
                assert(seen@.push(c).no_duplicates()) by {
                    let s = seen@.push(c);
                    assert forall|x: int, y: int|
                        0 <= x < s.len() && 0 <= y < s.len() && x != y implies s[x] != s[y] by {
                        if x < s.len() - 1 && y < s.len() - 1 {
                            assert(seen@[x] != seen@[y]);
                        }
                    }
                }
            }
            seen.push(c);
        }
        proof {
            assert(seen@.to_set() =~= old(seen)@.to_set() + text@.take(j + 1).to_set());
        }
        j = j + 1;
    }
    proof {
        assert(text@.take(tv.len() as int) =~= text@);
    }
}

/// The glyph inventory of a loaded book: every character that appears
/// in any derived card's prompt or answer, each exactly once. The
/// order of the glyphs carries no meaning.
pub fn font(book: &Book) -> (r: Font)
    ensures
        r@.no_duplicates(),
        r@.to_set() == spec_all_text(spec_cards(book@)).to_set(),
        r@.len() == spec_all_text(spec_cards(book@)).to_set().len(),
{
    let cs = cards(book);
    let ghost cviews = spec_cards(book@);
    let mut seen: Vec<char> = Vec::new();
    let mut i: usize = 0;
    proof {
        assert(cviews.take(0).map_values(|c: CardView| spec_card_text(c)) =~= Seq::<
            Seq<char>,
        >::empty());
        assert(seen@.to_set() =~= spec_all_text(cviews.take(0)).to_set());
    }
    while i < cs.len()
        invariant
            cviews == spec_cards(book@),
            cs@.map_values(|c: Card| c@) == cviews,
            cs@.len() == cviews.len(),
            i <= cs.len(),
            seen@.no_duplicates(),
            seen@.to_set() == spec_all_text(cviews.take(i as int)).to_set(),
        decreases cs.len() - i,
    {
        let card = &cs[i];
        proof {
            assert(cviews[i as int] == card@);
        }
        add_glyphs(&mut seen, card.prompt.as_str());
        add_glyphs(&mut seen, card.answer.as_str());
        proof {
            let t = cviews.take(i as int);
            let ct = spec_card_text(cviews[i as int]);
            cviews.lemma_take_succ_push(i as int);
            t.lemma_push_map_commute(|c: CardView| spec_card_text(c), cviews[i as int]);
            t.map_values(|c: CardView| spec_card_text(c)).lemma_flatten_push(ct);
            assert(spec_all_text(cviews.take(i + 1)) =~= spec_all_text(t) + ct);
            vstd::seq_lib::seq_to_set_distributes_over_add(spec_all_text(t), ct);
            vstd::seq_lib::seq_to_set_distributes_over_add(
                cviews[i as int].prompt,
                cviews[i as int].answer,
            );
            assert(seen@.to_set() =~= spec_all_text(cviews.take(i + 1)).to_set());
        }
        i = i + 1;
    }
    proof {
        assert(cviews.take(cs@.len() as int) =~= cviews);
        seen@.unique_seq_to_set();
    }
    let glyphs = crate::furi::string_of(&seen);
    Font { glyphs }
}

/// The total number of usages in a run of characters.
pub open spec fn spec_characters_usage_count(cs: Seq<CharacterView>) -> int
    decreases cs.len(),
{
    if cs.len() == 0 {
        0
    } else {
        cs.first().usages.len() + spec_characters_usage_count(cs.drop_first())
    }
}

/// The total number of usages in a run of chapters.
pub open spec fn spec_usage_count(chs: Seq<ChapterView>) -> int
    decreases chs.len(),
{
    if chs.len() == 0 {
        0
    } else {
        spec_characters_usage_count(chs.first().characters) + spec_usage_count(chs.drop_first())
    }
}

/// One chapter contributes one card per usage of each of its
/// characters.
proof fn lemma_chapter_card_count(chapter_num: int, cs: Seq<CharacterView>)
    ensures
        cs.map_values(|c: CharacterView| spec_character_cards(chapter_num, c)).flatten().len()
            == spec_characters_usage_count(cs),
    decreases cs.len(),
{
    let f = |c: CharacterView| spec_character_cards(chapter_num, c);
    if cs.len() == 0 {
        assert(cs.map_values(f) =~= Seq::<Seq<CardView>>::empty());
    } else {
        lemma_chapter_card_count(chapter_num, cs.drop_first());
        assert(cs.map_values(f).drop_first() =~= cs.drop_first().map_values(f));
        assert(cs.map_values(f).first() == f(cs.first()));
    }
}

/// Card count: the derived card list holds exactly one card per usage,
/// over all chapters and characters of the book.
pub proof fn lemma_card_count(book: BookView)
    ensures
        spec_cards(book).len() == spec_usage_count(book.chapters),
    decreases book.chapters.len(),
{
    let g = |ch: ChapterView| spec_chapter_cards(ch);
    let chs = book.chapters;
    if chs.len() == 0 {
        assert(chs.map_values(g) =~= Seq::<Seq<CardView>>::empty());
    } else {
        let rest = BookView { chapters: chs.drop_first() };
        lemma_card_count(rest);
        lemma_chapter_card_count(chs.first().chapter, chs.first().characters);
        assert(chs.map_values(g).drop_first() =~= chs.drop_first().map_values(g));
        assert(chs.map_values(g).first() == g(chs.first()));
    }
}

/// A character occurs in the concatenation of two runs exactly when it
/// occurs in one of them.
proof fn lemma_contains_concat(a: Seq<char>, b: Seq<char>, g: char)
    ensures
        (a + b).contains(g) <==> a.contains(g) || b.contains(g),
{
    if (a + b).contains(g) {
        let i = choose|i: int| 0 <= i < (a + b).len() && (a + b)[i] == g;
        if i < a.len() {
            assert(a[i] == g);
        } else {
            assert(b[i - a.len()] == g);
        }
    }
    if a.contains(g) {
        let i = choose|i: int| 0 <= i < a.len() && a[i] == g;
        assert((a + b)[i] == g);
    }
    if b.contains(g) {
        let i = choose|i: int| 0 <= i < b.len() && b[i] == g;
        assert((a + b)[a.len() + i] == g);
    }
}

/// Font completeness: a character is among a card list's glyph text
/// exactly when it appears in some card's prompt or answer.
pub proof fn lemma_glyph_membership(cards: Seq<CardView>, g: char)
    ensures
        spec_all_text(cards).to_set().contains(g) <==> exists|i: int|
            0 <= i < cards.len() && (cards[i].prompt.contains(g) || cards[i].answer.contains(g)),
    decreases cards.len(),
{
    let f = |c: CardView| spec_card_text(c);
    if cards.len() == 0 {
        assert(cards.map_values(f) =~= Seq::<Seq<char>>::empty());
        assert(!spec_all_text(cards).contains(g));
    } else {
        let first = cards.first();
        let rest = cards.drop_first();
        lemma_glyph_membership(rest, g);
        assert(cards.map_values(f).drop_first() =~= rest.map_values(f));
        assert(cards.map_values(f).first() == f(first));
        assert(spec_all_text(cards) == spec_card_text(first) + spec_all_text(rest));
        lemma_contains_concat(spec_card_text(first), spec_all_text(rest), g);
        lemma_contains_concat(first.prompt, first.answer, g);
        if exists|i: int| 0 <= i < rest.len() && (rest[i].prompt.contains(g)
            || rest[i].answer.contains(g)) {
            let i = choose|i: int|
                0 <= i < rest.len() && (rest[i].prompt.contains(g) || rest[i].answer.contains(g));
            assert(cards[i + 1] == rest[i]);
        }
        if first.prompt.contains(g) || first.answer.contains(g) {
            assert(cards[0] == first);
        }
        if exists|i: int| 0 <= i < cards.len() && (cards[i].prompt.contains(g)
            || cards[i].answer.contains(g)) {
            let i = choose|i: int|
                0 <= i < cards.len() && (cards[i].prompt.contains(g) || cards[i].answer.contains(
                    g,
                ));
            if i > 0 {
                assert(rest[i - 1] == cards[i]);
            }
        }
    }
}

/// Determinism: the card list is a function of the book alone, so two
/// derivations from the same book agree in order and content.
pub proof fn lemma_cards_deterministic(book: BookView, first: Seq<CardView>, second: Seq<CardView>)
    requires
        first == spec_cards(book),
        second == spec_cards(book),
    ensures
        first == second,
{
}

} // verus!
