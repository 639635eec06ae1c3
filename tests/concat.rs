use fmty::{concat_once, render_to_string, BoundedSink, Render, WriteError};

#[test]
fn concat_concat3_size() {
    let value = fmty::concat_tuple(('"', "hi", '"'));

    assert_eq!(
        std::mem::size_of_val(&value),
        std::mem::size_of::<(char, &str, char)>()
    );
}

#[test]
fn macro_concat3_size() {
    let value = fmty::concat_tuple(('"', "hi", '"'));

    assert_eq!(
        std::mem::size_of_val(&value),
        std::mem::size_of::<(char, &str, char)>()
    );
}

#[test]
fn concat_tuple() {
    {
        let mut value = fmty::concat_tuple(("B11",));
        assert_eq!(render_to_string(&mut value), "B11");
    }
    {
        let mut value = fmty::concat_tuple(("B10", "B11"));
        assert_eq!(render_to_string(&mut value), "B10B11");
    }
    {
        let mut value = fmty::concat_tuple(("B9", "B10", "B11"));
        assert_eq!(render_to_string(&mut value), "B9B10B11");
    }
    {
        let mut value = fmty::concat_tuple(("B8", "B9", "B10", "B11"));
        assert_eq!(render_to_string(&mut value), "B8B9B10B11");
    }
    {
        let mut value = fmty::concat_tuple(("B7", "B8", "B9", "B10", "B11"));
        assert_eq!(render_to_string(&mut value), "B7B8B9B10B11");
    }
    {
        let mut value = fmty::concat_tuple(("B6", "B7", "B8", "B9", "B10", "B11"));
        assert_eq!(render_to_string(&mut value), "B6B7B8B9B10B11");
    }
    {
        let mut value = fmty::concat_tuple(("B5", "B6", "B7", "B8", "B9", "B10", "B11"));
        assert_eq!(render_to_string(&mut value), "B5B6B7B8B9B10B11");
    }
    {
        let mut value = fmty::concat_tuple(("B4", "B5", "B6", "B7", "B8", "B9", "B10", "B11"));
        assert_eq!(render_to_string(&mut value), "B4B5B6B7B8B9B10B11");
    }
    {
        let mut value = fmty::concat_tuple(("B3", "B4", "B5", "B6", "B7", "B8", "B9", "B10", "B11"));
        assert_eq!(render_to_string(&mut value), "B3B4B5B6B7B8B9B10B11");
    }
    {
        let mut value = fmty::concat_tuple(("B2", "B3", "B4", "B5", "B6", "B7", "B8", "B9", "B10", "B11"));
        assert_eq!(render_to_string(&mut value), "B2B3B4B5B6B7B8B9B10B11");
    }
    {
        let mut value = fmty::concat_tuple(("B1", "B2", "B3", "B4", "B5", "B6", "B7", "B8", "B9", "B10", "B11"));
        assert_eq!(render_to_string(&mut value), "B1B2B3B4B5B6B7B8B9B10B11");
    }
    {
        let mut value = fmty::concat_tuple(("B0", "B1", "B2", "B3", "B4", "B5", "B6", "B7", "B8", "B9", "B10", "B11"));
        assert_eq!(render_to_string(&mut value), "B0B1B2B3B4B5B6B7B8B9B10B11");
    }
    {
        let mut value = fmty::concat_tuple(("A11", "B0", "B1", "B2", "B3", "B4", "B5", "B6", "B7", "B8", "B9", fmty::concat_tuple(("B10", "B11"))));
        assert_eq!(render_to_string(&mut value), "A11B0B1B2B3B4B5B6B7B8B9B10B11");
    }
    {
        let mut value = fmty::concat_tuple(("A10", "A11", "B0", "B1", "B2", "B3", "B4", "B5", "B6", "B7", "B8", fmty::concat_tuple(("B9", "B10", "B11"))));
        assert_eq!(render_to_string(&mut value), "A10A11B0B1B2B3B4B5B6B7B8B9B10B11");
    }
    {
        let mut value = fmty::concat_tuple(("A9", "A10", "A11", "B0", "B1", "B2", "B3", "B4", "B5", "B6", "B7", fmty::concat_tuple(("B8", "B9", "B10", "B11"))));
        assert_eq!(render_to_string(&mut value), "A9A10A11B0B1B2B3B4B5B6B7B8B9B10B11");
    }
    {
        let mut value = fmty::concat_tuple(("A8", "A9", "A10", "A11", "B0", "B1", "B2", "B3", "B4", "B5", "B6", fmty::concat_tuple(("B7", "B8", "B9", "B10", "B11"))));
        assert_eq!(render_to_string(&mut value), "A8A9A10A11B0B1B2B3B4B5B6B7B8B9B10B11");
    }
    {
        let mut value = fmty::concat_tuple(("A7", "A8", "A9", "A10", "A11", "B0", "B1", "B2", "B3", "B4", "B5", fmty::concat_tuple(("B6", "B7", "B8", "B9", "B10", "B11"))));
        assert_eq!(render_to_string(&mut value), "A7A8A9A10A11B0B1B2B3B4B5B6B7B8B9B10B11");
    }
    {
        let mut value = fmty::concat_tuple(("A6", "A7", "A8", "A9", "A10", "A11", "B0", "B1", "B2", "B3", "B4", fmty::concat_tuple(("B5", "B6", "B7", "B8", "B9", "B10", "B11"))));
        assert_eq!(render_to_string(&mut value), "A6A7A8A9A10A11B0B1B2B3B4B5B6B7B8B9B10B11");
    }
    {
        let mut value = fmty::concat_tuple(("A5", "A6", "A7", "A8", "A9", "A10", "A11", "B0", "B1", "B2", "B3", fmty::concat_tuple(("B4", "B5", "B6", "B7", "B8", "B9", "B10", "B11"))));
        assert_eq!(render_to_string(&mut value), "A5A6A7A8A9A10A11B0B1B2B3B4B5B6B7B8B9B10B11");
    }
    {
        let mut value = fmty::concat_tuple(("A4", "A5", "A6", "A7", "A8", "A9", "A10", "A11", "B0", "B1", "B2", fmty::concat_tuple(("B3", "B4", "B5", "B6", "B7", "B8", "B9", "B10", "B11"))));
        assert_eq!(render_to_string(&mut value), "A4A5A6A7A8A9A10A11B0B1B2B3B4B5B6B7B8B9B10B11");
    }
    {
        let mut value = fmty::concat_tuple(("A3", "A4", "A5", "A6", "A7", "A8", "A9", "A10", "A11", "B0", "B1", fmty::concat_tuple(("B2", "B3", "B4", "B5", "B6", "B7", "B8", "B9", "B10", "B11"))));
        assert_eq!(render_to_string(&mut value), "A3A4A5A6A7A8A9A10A11B0B1B2B3B4B5B6B7B8B9B10B11");
    }
    {
        let mut value = fmty::concat_tuple(("A2", "A3", "A4", "A5", "A6", "A7", "A8", "A9", "A10", "A11", "B0", fmty::concat_tuple(("B1", "B2", "B3", "B4", "B5", "B6", "B7", "B8", "B9", "B10", "B11"))));
        assert_eq!(render_to_string(&mut value), "A2A3A4A5A6A7A8A9A10A11B0B1B2B3B4B5B6B7B8B9B10B11");
    }
    {
        let mut value = fmty::concat_tuple(("A1", "A2", "A3", "A4", "A5", "A6", "A7", "A8", "A9", "A10", "A11", fmty::concat_tuple(("B0", "B1", "B2", "B3", "B4", "B5", "B6", "B7", "B8", "B9", "B10", "B11"))));
        assert_eq!(render_to_string(&mut value), "A1A2A3A4A5A6A7A8A9A10A11B0B1B2B3B4B5B6B7B8B9B10B11");
    }
    {
        let mut value = fmty::concat_tuple(("A0", "A1", "A2", "A3", "A4", "A5", "A6", "A7", "A8", "A9", "A10", fmty::concat_tuple(("A11", "B0", "B1", "B2", "B3", "B4", "B5", "B6", "B7", "B8", "B9", fmty::concat_tuple(("B10", "B11"))))));
        assert_eq!(render_to_string(&mut value), "A0A1A2A3A4A5A6A7A8A9A10A11B0B1B2B3B4B5B6B7B8B9B10B11");
    }
}

#[test]
fn concat_items() {
    let mut value = fmty::concat(vec!["hola", "mundo"]);
    assert_eq!(render_to_string(&mut value), "holamundo");
}

#[test]
fn concat_empty_renders_nothing() {
    let mut value = fmty::concat(Vec::<&str>::new());
    assert_eq!(render_to_string(&mut value), "");
}

#[test]
fn concat_one_item_renders_that_item() {
    let mut alone = "hola";
    let mut value = fmty::concat(vec!["hola"]);
    assert_eq!(render_to_string(&mut value), render_to_string(&mut alone));
}

#[test]
fn concat_mixed_values() {
    let mut value = fmty::concat_tuple(("x", 'y', -42i64, 7u64, 0usize, -1i32, 15u32, String::from("z")));
    assert_eq!(render_to_string(&mut value), "xy-4270-115z");
}

#[test]
fn concat_extreme_integers() {
    let mut value = fmty::concat_tuple((i64::MIN, ' ', u64::MAX));
    assert_eq!(
        render_to_string(&mut value),
        "-9223372036854775808 18446744073709551615"
    );
}

#[test]
fn concat_renders_twice_the_same() {
    let mut value = fmty::concat(vec!["ab", "cd"]);
    assert_eq!(render_to_string(&mut value), "abcd");
    assert_eq!(render_to_string(&mut value), "abcd");
}

#[test]
fn concat_once_renders_once() {
    let mut value = concat_once(vec!["hola", "mundo"]);
    assert_eq!(render_to_string(&mut value), "holamundo");
    assert_eq!(render_to_string(&mut value), "");
    assert_eq!(render_to_string(&mut value), "");
}

#[test]
fn concat_stops_at_sink_failure() {
    let mut value = fmty::concat(vec!["ab", "cd", "ef"]);
    let (sink, r) = value.render(BoundedSink::new(3));
    assert_eq!(r, Err(WriteError));
    assert_eq!(sink.as_str(), "ab");
}
