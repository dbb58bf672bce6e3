use ralph::text::truncate;

#[test]
fn test_truncate_helper() {
    assert_eq!(truncate("short", 10), "short");
    assert_eq!(truncate("this is a long string", 10), "this is a ...");
}

#[test]
fn test_truncate_utf8_boundaries() {
    let with_arrows = "→→→→→→→→→→";
    assert_eq!(truncate(with_arrows, 5), "→→→→→...");

    let mixed = "a→b→c→d→e";
    assert_eq!(truncate(mixed, 5), "a→b→c...");

    let emoji = "🎉🎊🎁🎈🎄";
    assert_eq!(truncate(emoji, 3), "🎉🎊🎁...");
}

#[test]
fn test_truncate_at_exact_length() {
    assert_eq!(truncate("tenchars!!", 10), "tenchars!!");
    assert_eq!(truncate("", 0), "");
    assert_eq!(truncate("x", 0), "...");
}
