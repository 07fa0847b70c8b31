use maplibre::sdf::key_order::{insert_text, names_less, text_less};

fn s(t: &str) -> String {
    t.to_string()
}

#[test]
fn texts_compare_by_code_point_with_a_prefix_first() {
    assert!(text_less(&s("Open Sans"), &s("Other")));
    assert!(!text_less(&s("Other"), &s("Open Sans")));
    assert!(text_less(&s("ab"), &s("abc")));
    assert!(!text_less(&s("abc"), &s("ab")));
    assert!(!text_less(&s("same"), &s("same")));
    assert!(text_less(&s(""), &s("a")));
    assert!(text_less(&s("Z"), &s("a")));
    assert!(text_less(&s("z"), &s("\u{4E2D}")));
    assert_eq!(text_less(&s("b"), &s("ab")), s("b") < s("ab"));
}

#[test]
fn font_stacks_compare_name_by_name_with_a_prefix_first() {
    let a = vec![s("Open Sans Regular"), s("Arial")];
    let b = vec![s("Other")];
    assert!(names_less(&a, &b));
    assert!(!names_less(&b, &a));
    assert!(names_less(&vec![s("A")], &vec![s("A"), s("B")]));
    assert!(!names_less(&a, &a));
    assert!(names_less(&vec![], &vec![s("")]));
    assert_eq!(names_less(&a, &b), a < b);
}

#[test]
fn inserted_texts_keep_their_order_and_occur_once() {
    let mut set: Vec<String> = Vec::new();
    for t in ["m", "c", "x", "c", "a", "m"] {
        insert_text(&mut set, &s(t));
    }
    assert_eq!(set, vec![s("a"), s("c"), s("m"), s("x")]);
}
