use convco::wrap::{new, word_wrap, word_wrap_acc, WordWrapBlock};

#[test]
fn test_word_wrap_block() {
    let block = WordWrapBlock {
        max: 8,
        disabled: false,
    };
    let result = block.call("The quick brown fox jumps over the lazy dog");
    assert_eq!(
        result,
        "The\nquick\nbrown\nfox\njumps\nover\nthe\nlazy\ndog"
    )
}

#[test]
fn test_word_wrap() {
    let s = "The quick brown fox jumps over the lazy dog";
    assert_eq!(word_wrap(s, 80), s);
    assert_eq!(
        word_wrap(s, 8),
        "The\nquick\nbrown\nfox\njumps\nover\nthe\nlazy\ndog"
    );
}

#[test]
fn word_wrap_counts_bytes_and_keeps_empty_words() {
    assert_eq!(word_wrap("", 10), "");
    assert_eq!(word_wrap("a  b", 10), "a  b");
    assert_eq!(word_wrap("ab cd ef", 6), "ab\ncd\nef");
    assert_eq!(word_wrap("ab cd ef", 7), "ab cd\nef");
    assert_eq!(word_wrap("\u{e9}\u{e9} cd", 8), "\u{e9}\u{e9}\ncd");
    assert_eq!(
        word_wrap_acc(vec!["ab".to_string()], "cd", 5),
        vec!["ab cd".to_string()]
    );
    assert_eq!(
        word_wrap_acc(vec!["ab".to_string()], "cd", 4),
        vec!["ab".to_string(), "cd".to_string()]
    );
}

#[test]
fn disabled_block_leaves_the_text() {
    let block = new(8, true);
    assert_eq!(block.call("The quick brown fox"), "The quick brown fox");
}
