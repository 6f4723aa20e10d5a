use tbx::essential::StringEssential;

#[test]
fn essential_test_substring() {
    assert_eq!("HelloWorld", "HelloWorld".substring(0, 10).unwrap());
    assert_eq!("World", "HelloWorld".substring(5, 10).unwrap());
    assert_eq!("世界", "こんにちは世界".substring(5, 7).unwrap());
    assert_eq!("🍣", "今日は🍣と🍶".substring(3, 4).unwrap());
    assert_eq!(None, "HelloWorld".substring(10, 5));
    assert_eq!(None, "HelloWorld".substring(10, 10));
    assert_eq!(None, "HelloWorld".substring(11, 15));
    assert_eq!(None, "HelloWorld".substring(0, 0));
}

#[test]
fn essential_test_substring_to_end() {
    assert_eq!("HelloWorld", "HelloWorld".substring_to_end(0).unwrap());
    assert_eq!("World", "HelloWorld".substring_to_end(5).unwrap());
    assert_eq!("世界", "こんにちは世界".substring_to_end(5).unwrap());
    assert_eq!("🍣と🍶", "今日は🍣と🍶".substring_to_end(3).unwrap());
    assert_eq!(None, "HelloWorld".substring_to_end(10));
    assert_eq!(None, "HelloWorld".substring_to_end(11));
}

#[test]
fn test_count_char() {
    assert_eq!("Hello World".count_char('o'), 2);
    assert_eq!("Hello World".count_char('O'), 0);
    assert_eq!("Hello World".count_char('H'), 1);
}

#[test]
fn string_test_substring() {
    assert_eq!("HelloWorld", "HelloWorld".substring(0, 10).unwrap());
    assert_eq!("World", "HelloWorld".substring(5, 10).unwrap());
    assert_eq!("世界", "こんにちは世界".substring(5, 7).unwrap());
    assert_eq!("🍣", "今日は🍣と🍜".substring(3, 4).unwrap());
    assert_eq!(None, "HelloWorld".substring(10, 5));
    assert_eq!(None, "HelloWorld".substring(10, 10));
    assert_eq!(None, "HelloWorld".substring(11, 15));
    assert_eq!(None, "HelloWorld".substring(0, 0));
}

#[test]
fn string_test_substring_to_end() {
    assert_eq!("HelloWorld", "HelloWorld".substring_to_end(0).unwrap());
    assert_eq!("World", "HelloWorld".substring_to_end(5).unwrap());
    assert_eq!("世界", "こんにちは世界".substring_to_end(5).unwrap());
    assert_eq!("🍣と🍜", "今日は🍣と🍜".substring_to_end(3).unwrap());
    assert_eq!(None, "HelloWorld".substring_to_end(10));
    assert_eq!(None, "HelloWorld".substring_to_end(11));
}
