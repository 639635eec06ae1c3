use fmty::{
    concat_map, concat_map_once, cond_with, cond_with_option, csv_map, csv_map_once, join_map,
    join_map_once, render_to_string, repeat_with, to_uppercase, FmtIterator,
};

#[test]
fn concat_map_applies_on_render() {
    let mut value = concat_map(vec!["hola", "mundo"], |s: &&str| to_uppercase(*s));
    assert_eq!(render_to_string(&mut value), "HOLAMUNDO");
    assert_eq!(render_to_string(&mut value), "HOLAMUNDO");
}

#[test]
fn concat_map_once_renders_once() {
    let mut value = concat_map_once(vec!["hola", "mundo"], |s: &&str| to_uppercase(*s));
    assert_eq!(render_to_string(&mut value), "HOLAMUNDO");
    assert_eq!(render_to_string(&mut value), "");
}

#[test]
fn join_map_forms() {
    let mut value = join_map(vec!["hola", "mundo"], " ", |s: &&str| to_uppercase(*s));
    assert_eq!(render_to_string(&mut value), "HOLA MUNDO");
    let mut value = join_map_once(vec!["hola", "mundo"], " ", |s: &&str| to_uppercase(*s));
    assert_eq!(render_to_string(&mut value), "HOLA MUNDO");
    assert_eq!(render_to_string(&mut value), "");
    let mut value = csv_map(vec!["hola", "mundo"], |s: &&str| to_uppercase(*s));
    assert_eq!(render_to_string(&mut value), "HOLA, MUNDO");
    let mut value = csv_map_once(vec!["hola", "mundo"], |s: &&str| to_uppercase(*s));
    assert_eq!(render_to_string(&mut value), "HOLA, MUNDO");
    assert_eq!(render_to_string(&mut value), "");
}

#[test]
fn join_map_of_numbers() {
    let mut value = join_map(vec![1u32, 2, 3], "+", |n: &u32| *n * 10);
    assert_eq!(render_to_string(&mut value), "10+20+30");
    let mut empty = join_map(Vec::<u32>::new(), "+", |n: &u32| *n * 10);
    assert_eq!(render_to_string(&mut empty), "");
}

#[test]
fn cond_with_forms() {
    assert_eq!(render_to_string(&mut cond_with(true, || "hola")), "hola");
    assert_eq!(render_to_string(&mut cond_with(false, || "hola")), "");
    assert_eq!(render_to_string(&mut cond_with_option(|| Some("hola"))), "hola");
    assert_eq!(render_to_string(&mut cond_with_option(|| None::<&str>)), "");
}

#[test]
fn repeat_with_calls_each_time() {
    let mut value = repeat_with(3, || 'x');
    assert_eq!(render_to_string(&mut value), "xxx");
    let mut value = repeat_with(0, || 'x');
    assert_eq!(render_to_string(&mut value), "");
}

#[test]
fn fmt_iterator_methods() {
    assert_eq!(render_to_string(&mut vec!["hola", "mundo"].fmt_concat()), "holamundo");
    let mut once = vec!["hola", "mundo"].fmt_concat_once();
    assert_eq!(render_to_string(&mut once), "holamundo");
    assert_eq!(render_to_string(&mut once), "");
    assert_eq!(render_to_string(&mut vec!["hola", "mundo"].fmt_join(" ")), "hola mundo");
    assert_eq!(render_to_string(&mut vec!["hola", "mundo"].fmt_join_once(" ")), "hola mundo");
    assert_eq!(render_to_string(&mut vec!["hola", "mundo"].fmt_csv()), "hola, mundo");
    assert_eq!(render_to_string(&mut vec!["hola", "mundo"].fmt_csv_once()), "hola, mundo");
    let up = |s: &&'static str| to_uppercase(*s);
    assert_eq!(render_to_string(&mut vec!["hola", "mundo"].fmt_concat_map(up)), "HOLAMUNDO");
    assert_eq!(render_to_string(&mut vec!["hola", "mundo"].fmt_concat_map_once(up)), "HOLAMUNDO");
    assert_eq!(render_to_string(&mut vec!["hola", "mundo"].fmt_join_map(" ", up)), "HOLA MUNDO");
    assert_eq!(
        render_to_string(&mut vec!["hola", "mundo"].fmt_join_map_once(" ", up)),
        "HOLA MUNDO"
    );
    assert_eq!(render_to_string(&mut vec!["hola", "mundo"].fmt_csv_map(up)), "HOLA, MUNDO");
    assert_eq!(render_to_string(&mut vec!["hola", "mundo"].fmt_csv_map_once(up)), "HOLA, MUNDO");
}
