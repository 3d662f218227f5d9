use monokakido::to_katakana;

#[test]
fn test_to_katakana() {
    assert_eq!(to_katakana(""), "");
    assert_eq!(to_katakana("あ"), "ア");
    assert_eq!(to_katakana("ぁ"), "ァ");
    assert_eq!(to_katakana("ん"), "ン");
    assert_eq!(to_katakana("っ"), "ッ");
    assert_eq!(to_katakana("ア"), "ア");
    assert_eq!(to_katakana("ァ"), "ァ");
    assert_eq!(to_katakana("ン"), "ン");
    assert_eq!(to_katakana("ッ"), "ッ");
    assert_eq!(to_katakana("aアa"), "aアa");
    assert_eq!(to_katakana("aァa"), "aァa");
    assert_eq!(to_katakana("aンa"), "aンa");
    assert_eq!(to_katakana("aッa"), "aッa");
}

#[test]
fn katakana_is_idempotent_on_examples() {
    for s in ["", "あいう", "アイウ", "mixed あア text", "ぁゔん", "漢字かな"] {
        let once = to_katakana(s);
        assert_eq!(to_katakana(&once), once);
    }
}

#[test]
fn katakana_leaves_text_without_hiragana() {
    assert_eq!(to_katakana("アア"), "アア");
    assert_eq!(to_katakana("hello, 漢字"), "hello, 漢字");
}

#[test]
fn katakana_maps_mixed_text() {
    assert_eq!(to_katakana("aあbんc"), "aアbンc");
    assert_eq!(to_katakana("ひらがな"), "ヒラガナ");
    // just outside the hiragana block on either side
    assert_eq!(to_katakana("\u{3040}\u{3094}"), "\u{3040}\u{3094}");
}
