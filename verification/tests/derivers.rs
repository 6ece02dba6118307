use furigana_cards::{cards, font, Book, Chapter, Character, FuriString, Usage};

fn usage(furigana: &str, meaning: &str) -> Usage {
    Usage { furigana: FuriString::decode(furigana), meaning: meaning.to_string() }
}

fn sample_book() -> Book {
    Book {
        chapters: vec![
            Chapter {
                chapter: 1,
                characters: vec![
                    Character {
                        number: 1,
                        character: "猫".to_string(),
                        meaning: "cat".to_string(),
                        usages: vec![
                            usage("猫｜ねこ", "cat"),
                            usage("子｜こ　猫｜ねこ", "kitten"),
                        ],
                    },
                    Character {
                        number: 2,
                        character: "食".to_string(),
                        meaning: "eat".to_string(),
                        usages: vec![usage("食｜た　べる", "to eat")],
                    },
                ],
            },
            Chapter {
                chapter: 2,
                characters: vec![Character {
                    number: 1,
                    character: "水".to_string(),
                    meaning: "water".to_string(),
                    usages: vec![usage("水｜みず", "water")],
                }],
            },
        ],
    }
}

#[test]
fn cards_one_per_usage_in_document_order() {
    let book = sample_book();
    let cs = cards(&book);
    let usage_total: usize = book
        .chapters
        .iter()
        .map(|ch| ch.characters.iter().map(|c| c.usages.len()).sum::<usize>())
        .sum();
    assert_eq!(cs.len(), usage_total);
    assert_eq!(cs.len(), 4);

    assert_eq!(cs[0].prompt, "猫");
    assert_eq!(cs[0].answer, "ねこ");
    assert_eq!(cs[0].meaning, "cat");
    assert_eq!(cs[0].chapter_num, 1);
    assert_eq!(cs[0].character_num, 1);
    assert_eq!(cs[0].character_meaning, "cat");
    assert_eq!(cs[0].character, "猫");

    assert_eq!(cs[1].prompt, "子猫");
    assert_eq!(cs[1].answer, "こねこ");
    assert_eq!(cs[1].meaning, "kitten");

    assert_eq!(cs[2].prompt, "食べる");
    assert_eq!(cs[2].answer, "たべる");
    assert_eq!(cs[2].chapter_num, 1);
    assert_eq!(cs[2].character_num, 2);
    assert_eq!(cs[2].character_meaning, "eat");

    assert_eq!(cs[3].prompt, "水");
    assert_eq!(cs[3].answer, "みず");
    assert_eq!(cs[3].chapter_num, 2);
    assert_eq!(cs[3].character_num, 1);
}

#[test]
fn cards_are_deterministic() {
    let book = sample_book();
    assert_eq!(cards(&book), cards(&book));
}

#[test]
fn empty_book_yields_no_cards() {
    let book = Book { chapters: vec![] };
    assert_eq!(cards(&book).len(), 0);
    assert_eq!(font(&book).glyphs, "");
}

#[test]
fn font_covers_every_prompt_and_answer_character_once() {
    let book = sample_book();
    let cs = cards(&book);
    let glyphs: Vec<char> = font(&book).glyphs.chars().collect();

    for card in &cs {
        for c in card.prompt.chars().chain(card.answer.chars()) {
            assert!(glyphs.contains(&c), "missing glyph {c}");
        }
    }

    let mut distinct: Vec<char> = Vec::new();
    for card in &cs {
        for c in card.prompt.chars().chain(card.answer.chars()) {
            if !distinct.contains(&c) {
                distinct.push(c);
            }
        }
    }
    assert_eq!(glyphs.len(), distinct.len());

    for (i, a) in glyphs.iter().enumerate() {
        for (j, b) in glyphs.iter().enumerate() {
            if i != j {
                assert_ne!(a, b, "duplicate glyph {a}");
            }
        }
    }

    for g in &glyphs {
        assert!(distinct.contains(g), "stray glyph {g}");
    }
}
