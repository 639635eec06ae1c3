use fmty::{
    concat_tuple, render_to_string, to_uppercase, truncate_chars, BoundedSink, Render, WriteError,
};

#[test]
fn chars() {
    let expected = &"abc";

    for len in 0..=expected.len() {
        let expected = &expected[..len];
        let mut value = truncate_chars(concat_tuple(('a', 'b', 'c')), len);

        assert_eq!(
            render_to_string(&mut value),
            expected,
            "incorrect result for length {len}",
        )
    }
}

#[test]
fn two_parts() {
    let expected = &"abc123";

    for len in 0..=expected.len() {
        let expected = &expected[..len];
        let mut value = truncate_chars(concat_tuple(("abc", 123i32)), len);

        assert_eq!(
            render_to_string(&mut value),
            expected,
            "incorrect result for length {len}",
        );
    }
}

#[test]
fn three_parts() {
    let expected = &"abc123xyz";

    for len in 0..=expected.len() {
        let expected = &expected[..len];
        let mut value = truncate_chars(concat_tuple(("abc", 123i32, "xyz")), len);

        assert_eq!(
            render_to_string(&mut value),
            expected,
            "incorrect result for length {len}",
        );
    }
}

#[test]
fn truncate_counts_characters_not_bytes() {
    let mut value = truncate_chars("héllo", 2);
    assert_eq!(render_to_string(&mut value), "hé");
}

#[test]
fn truncate_multibyte_every_length() {
    let text = "añ€😀b";
    let chars: Vec<char> = text.chars().collect();
    for len in 0..=chars.len() + 2 {
        let expected: String = chars.iter().take(len).collect();
        let mut value = truncate_chars(text, len);
        assert_eq!(render_to_string(&mut value), expected);
    }
}

#[test]
fn truncate_across_parts() {
    let mut value = truncate_chars(concat_tuple(("abc", "123")), 4);
    assert_eq!(render_to_string(&mut value), "abc1");
}

#[test]
fn truncate_zero_writes_nothing() {
    let mut value = truncate_chars("hola", 0);
    assert_eq!(render_to_string(&mut value), "");
}

#[test]
fn truncate_longer_than_text_keeps_everything() {
    let mut value = truncate_chars("hola", 100);
    assert_eq!(render_to_string(&mut value), "hola");
    let mut value = truncate_chars("hola", usize::MAX);
    assert_eq!(render_to_string(&mut value), "hola");
}

#[test]
fn truncate_empty_value() {
    let mut value = truncate_chars("", 3);
    assert_eq!(render_to_string(&mut value), "");
}

#[test]
fn truncate_renders_twice_the_same() {
    let mut value = truncate_chars(concat_tuple(("abc", 123i32)), 4);
    assert_eq!(render_to_string(&mut value), "abc1");
    assert_eq!(render_to_string(&mut value), "abc1");
}

#[test]
fn truncate_does_not_stop_later_parts() {
    let mut value = concat_tuple((truncate_chars("abcdef", 2), "XY"));
    assert_eq!(render_to_string(&mut value), "abXY");
}

#[test]
fn truncate_nested() {
    let mut value = truncate_chars(concat_tuple((truncate_chars("abcdef", 4), "xyz")), 6);
    assert_eq!(render_to_string(&mut value), "abcdxy");
}

#[test]
fn truncate_before_and_after_uppercase() {
    let mut cut_then_upper = to_uppercase(truncate_chars("ßa", 1));
    assert_eq!(render_to_string(&mut cut_then_upper), "SS");
    let mut upper_then_cut = truncate_chars(to_uppercase("ßa"), 1);
    assert_eq!(render_to_string(&mut upper_then_cut), "S");
}

#[test]
fn truncate_passes_sink_failure_on() {
    let mut value = truncate_chars(concat_tuple(("abc", "def")), 5);
    let (sink, r) = value.render(BoundedSink::new(4));
    assert_eq!(r, Err(WriteError));
    assert_eq!(sink.as_str(), "abc");
}

#[test]
fn truncate_within_capacity_succeeds() {
    let mut value = truncate_chars("abcdef", 4);
    let (sink, r) = value.render(BoundedSink::new(4));
    assert_eq!(r, Ok(()));
    assert_eq!(sink.as_str(), "abcd");
}
