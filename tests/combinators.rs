use std::cell::RefCell;
use std::rc::Rc;

use fmty::{
    concat_once, cond, cond_option, cond_option_or, cond_or, cond_result, csv, csv_once,
    csv_tuple, infix, join, join_once, join_tuple, no_op, noop, quote_backtick, quote_cjk,
    quote_cjk_vert, quote_cjk_white, quote_cjk_white_vert, quote_curly_double, quote_curly_single,
    quote_de_double, quote_de_single, quote_double, quote_guillemet_double,
    quote_guillemet_single, quote_single, render_to_string, repeat, to_ascii_lowercase,
    to_ascii_uppercase, to_lowercase, to_uppercase, truncate_chars, BoundedSink, Call, Once, Render,
    WriteError,
};

#[test]
fn join_with_space() {
    let mut value = join(vec!["hola", "mundo"], " ");
    assert_eq!(render_to_string(&mut value), "hola mundo");
}

#[test]
fn join_three_items() {
    let mut value = join(vec!["a", "b", "c"], "--");
    assert_eq!(render_to_string(&mut value), "a--b--c");
}

#[test]
fn join_zero_or_one_item_has_no_separator() {
    let mut none = join(Vec::<&str>::new(), ", ");
    assert_eq!(render_to_string(&mut none), "");
    let mut one = join(vec!["a"], ", ");
    assert_eq!(render_to_string(&mut one), "a");
}

#[test]
fn join_once_renders_once() {
    let mut value = join_once(vec!["hola", "mundo"], " ");
    assert_eq!(render_to_string(&mut value), "hola mundo");
    assert_eq!(render_to_string(&mut value), "");
}

#[test]
fn join_tuple_values() {
    let mut value = join_tuple(("hola", "mundo"), " ");
    assert_eq!(render_to_string(&mut value), "hola mundo");
    let mut value = join_tuple(("a", 1u32, 'c'), "/");
    assert_eq!(render_to_string(&mut value), "a/1/c");
    let mut value = join_tuple(("a",), "/");
    assert_eq!(render_to_string(&mut value), "a");
}

#[test]
fn join_renders_twice_the_same() {
    let mut value = join(vec![1u32, 2, 3], ", ");
    assert_eq!(render_to_string(&mut value), "1, 2, 3");
    assert_eq!(render_to_string(&mut value), "1, 2, 3");
}

#[test]
fn join_stops_at_sink_failure() {
    let mut value = join(vec!["ab", "cd"], ", ");
    let (sink, r) = value.render(BoundedSink::new(3));
    assert_eq!(r, Err(WriteError));
    assert_eq!(sink.as_str(), "ab");
}

#[test]
fn csv_forms() {
    let mut value = csv(vec!["hola", "mundo"]);
    assert_eq!(render_to_string(&mut value), "hola, mundo");
    let mut value = csv_once(vec!["hola", "mundo"]);
    assert_eq!(render_to_string(&mut value), "hola, mundo");
    assert_eq!(render_to_string(&mut value), "");
    let mut value = csv_tuple(("hola", "mundo"));
    assert_eq!(render_to_string(&mut value), "hola, mundo");
}

#[test]
fn once_wrapper_law() {
    let mut direct = fmty::concat(vec!["hola", "mundo"]);
    let mut value = Once::new(fmty::concat(vec!["hola", "mundo"]));
    assert!(!value.is_spent());
    assert_eq!(render_to_string(&mut value), render_to_string(&mut direct));
    assert!(value.is_spent());
    for _ in 0..5 {
        assert_eq!(render_to_string(&mut value), "");
    }
}

#[test]
fn once_spent_after_failure() {
    let mut value = concat_once(vec!["abc", "def"]);
    let (_, r) = value.render(BoundedSink::new(2));
    assert_eq!(r, Err(WriteError));
    assert_eq!(render_to_string(&mut value), "");
}

#[test]
fn once_take_empties_the_slot() {
    let mut value = Once::new("x");
    assert_eq!(value.take(), Some("x"));
    assert_eq!(value.take(), None);
    assert_eq!(render_to_string(&mut value), "");
}

#[test]
fn cond_forms() {
    assert_eq!(render_to_string(&mut cond(true, "hola")), "hola");
    assert_eq!(render_to_string(&mut cond(false, "hola")), "");
    assert_eq!(render_to_string(&mut cond_or(true, "hola", "mundo")), "hola");
    assert_eq!(render_to_string(&mut cond_or(false, "hola", "mundo")), "mundo");
    assert_eq!(render_to_string(&mut cond_option(Some("hola"))), "hola");
    assert_eq!(render_to_string(&mut cond_option(None::<&str>)), "");
    assert_eq!(render_to_string(&mut cond_option_or(None::<&str>, 'x')), "x");
    assert_eq!(render_to_string(&mut cond_result::<_, &str>(Ok("hola"))), "hola");
    assert_eq!(render_to_string(&mut cond_result::<&str, _>(Err("mundo"))), "mundo");
}

#[test]
fn no_op_writes_nothing() {
    assert_eq!(render_to_string(&mut no_op()), "");
    assert_eq!(render_to_string(&mut noop()), "");
}

#[test]
fn repeat_value() {
    assert_eq!(render_to_string(&mut repeat("123", 3)), "123123123");
    assert_eq!(render_to_string(&mut repeat("123", 0)), "");
    assert_eq!(render_to_string(&mut repeat(join(vec!["a", "b"], "-"), 2)), "a-ba-b");
}

#[test]
fn quotes() {
    assert_eq!(render_to_string(&mut quote_single(123u32)), "'123'");
    assert_eq!(render_to_string(&mut quote_double(123u32)), "\"123\"");
    assert_eq!(render_to_string(&mut quote_backtick("code")), "`code`");
    assert_eq!(render_to_string(&mut quote_curly_single("supposedly")), "‘supposedly’");
    assert_eq!(render_to_string(&mut quote_curly_double("x")), "“x”");
    assert_eq!(render_to_string(&mut quote_de_single("x")), "‚x‘");
    assert_eq!(render_to_string(&mut quote_de_double("x")), "„x“");
    assert_eq!(render_to_string(&mut quote_guillemet_single("x")), "‹x›");
    assert_eq!(render_to_string(&mut quote_guillemet_double("x")), "«x»");
    assert_eq!(render_to_string(&mut quote_cjk("x")), "「x」");
    assert_eq!(render_to_string(&mut quote_cjk_vert("x")), "﹁x﹂");
    assert_eq!(render_to_string(&mut quote_cjk_white("x")), "『x』");
    assert_eq!(render_to_string(&mut quote_cjk_white_vert("x")), "﹃x﹄");
    assert_eq!(render_to_string(&mut infix("<", "x", ">")), "<x>");
}

#[test]
fn ascii_case() {
    let mut value = to_ascii_uppercase("Grüße, Jürgen ❤");
    assert_eq!(render_to_string(&mut value), "GRüßE, JüRGEN ❤");
    let mut value = to_ascii_lowercase("Grüße, Jürgen ❤");
    assert_eq!(render_to_string(&mut value), "grüße, jürgen ❤");
}

#[test]
fn unicode_case() {
    let mut value = to_uppercase("hola ß");
    assert_eq!(render_to_string(&mut value), "HOLA SS");
    let mut value = to_lowercase("HOLA Ä");
    assert_eq!(render_to_string(&mut value), "hola ä");
    let mut value = fmty::concat(vec![to_uppercase("hola"), to_uppercase("mundo")]);
    assert_eq!(render_to_string(&mut value), "HOLAMUNDO");
}

#[test]
fn unicode_case_matches_std() {
    for s in ["Grüße, Jürgen ❤", "İstanbul", "ǅemal", "ﬃ", ""] {
        let expected: String = s.chars().flat_map(char::to_uppercase).collect();
        assert_eq!(render_to_string(&mut to_uppercase(s)), expected);
        let expected: String = s.chars().flat_map(char::to_lowercase).collect();
        assert_eq!(render_to_string(&mut to_lowercase(s)), expected);
    }
}

#[test]
fn case_passes_sink_failure_on() {
    let mut value = to_uppercase("ßß");
    let (sink, r) = value.render(BoundedSink::new(3));
    assert_eq!(r, Err(WriteError));
    assert_eq!(sink.as_str(), "SS");
}

#[test]
fn nesting_combinators() {
    let mut value = join(
        vec![truncate_chars(to_uppercase("hola"), 2), truncate_chars(to_uppercase("mundo"), 3)],
        quote_single(' '),
    );
    assert_eq!(render_to_string(&mut value), "HO' 'MUN");
}

#[test]
fn bounded_sink_accepts_within_capacity() {
    let mut sink = BoundedSink::new(2);
    assert_eq!(fmty::Sink::write_str(&mut sink, "ab"), Ok(()));
    assert_eq!(fmty::Sink::write_char(&mut sink, 'c'), Err(WriteError));
    assert_eq!(sink.as_str(), "ab");
}

#[test]
fn string_sink_collects() {
    let mut value = concat_once(vec!["a", "b"]);
    let (out, r) = value.render(String::from(">"));
    assert_eq!(r, Ok(()));
    assert_eq!(out, ">ab");
}

/// A wrapper whose payload renders the very container that holds the wrapper:
/// the inner attempt finds the wrapper busy and renders nothing.
#[test]
fn concat_once_cycle() {
    type Producer = Box<dyn Fn() -> String>;
    let rc = Rc::new_cyclic(|weak: &std::rc::Weak<RefCell<Once<Call<String, Producer>>>>| {
        let weak = weak.clone();
        let produce: Producer = Box::new(move || {
            let rc = weak.upgrade().expect("`Rc` should be initialized");
            let inner = match rc.try_borrow_mut() {
                Ok(mut again) => render_to_string(&mut *again),
                Err(_) => String::new(),
            };
            format!("X{inner}")
        });
        RefCell::new(Once::new(Call::new(produce)))
    });

    assert_eq!(render_to_string(&mut *rc.borrow_mut()), "X");
    assert_eq!(render_to_string(&mut *rc.borrow_mut()), "");
}
