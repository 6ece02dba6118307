use furigana_cards::{FuriChar, FuriString};

#[test]
fn kana_only_string() {
    let f = FuriString::decode("あ　り　が　と　う");
    assert_eq!(f.chars.len(), 5);
    assert_eq!(f.kana(), "ありがとう");
    assert_eq!(f.kanji_or_kana(), "ありがとう");
}

#[test]
fn single_kanji_unit() {
    let f = FuriString::decode("猫｜ねこ");
    assert_eq!(f.chars.len(), 1);
    assert_eq!(f.kana(), "ねこ");
    assert_eq!(f.kanji_or_kana(), "猫");
}

#[test]
fn mixed_units() {
    let f = FuriString::decode("食｜た　べる");
    assert_eq!(f.chars.len(), 2);
    assert_eq!(f.kana(), "たべる");
    assert_eq!(f.kanji_or_kana(), "食べる");
}

#[test]
fn decoded_structure() {
    let f = FuriString::decode("食｜た　べる");
    assert_eq!(
        f.chars[0],
        FuriChar::Kanji { kanji: "食".to_string(), kana: "た".to_string() }
    );
    assert_eq!(f.chars[1], FuriChar::Kana { kana: "べる".to_string() });
}

#[test]
fn encode_after_decode_is_identity() {
    for s in ["あ　り　が　と　う", "猫｜ねこ", "食｜た　べる", "一｜いち　二｜に　さん"] {
        let f = FuriString::decode(s);
        assert_eq!(f.encode(), s);
    }
}

#[test]
fn decode_after_encode_is_identity() {
    let f = FuriString {
        chars: vec![
            FuriChar::Kanji { kanji: "猫".to_string(), kana: "ねこ".to_string() },
            FuriChar::Kana { kana: "が".to_string() },
            FuriChar::Kanji { kanji: "好".to_string(), kana: "す".to_string() },
            FuriChar::Kana { kana: "き".to_string() },
        ],
    };
    let text = f.encode();
    assert_eq!(text, "猫｜ねこ　が　好｜す　き");
    assert_eq!(FuriString::decode(&text), f);
}

#[test]
fn empty_text_is_one_empty_kana_unit() {
    let f = FuriString::decode("");
    assert_eq!(f.chars.len(), 1);
    assert_eq!(f.chars[0], FuriChar::Kana { kana: String::new() });
    assert_eq!(f.kana(), "");
    assert_eq!(f.kanji_or_kana(), "");
}

#[test]
fn extra_variant_pieces_are_discarded() {
    let f = FuriString::decode("犬｜いぬ｜わん");
    assert_eq!(f.chars.len(), 1);
    assert_eq!(
        f.chars[0],
        FuriChar::Kanji { kanji: "犬".to_string(), kana: "いぬ".to_string() }
    );
    assert_eq!(f.encode(), "犬｜いぬ");
}

#[test]
fn unit_accessors() {
    let kanji = FuriChar::Kanji { kanji: "水".to_string(), kana: "みず".to_string() };
    assert_eq!(kanji.kana(), "みず");
    assert_eq!(kanji.kanji_or_kana(), "水");
    let kana = FuriChar::Kana { kana: "です".to_string() };
    assert_eq!(kana.kana(), "です");
    assert_eq!(kana.kanji_or_kana(), "です");
}
