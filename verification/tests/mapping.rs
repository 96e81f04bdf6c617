use slate::mapping::{Entry, Mapping};

fn text(s: &str) -> String {
    s.to_string()
}

#[test]
fn a_new_mapping_holds_nothing() {
    let m = Mapping::new();

    assert_eq!(None, m.get("a"));
    assert_eq!(Vec::<String>::new(), m.keys());
    assert!(m.entries().is_empty());
}

#[test]
fn insert_holds_the_value() {
    let mut m = Mapping::new();
    m.insert(text("a"), text("1"));

    assert_eq!(Some(&text("1")), m.get("a"));
    assert_eq!(None, m.get("b"));
    assert_eq!(None, m.get(""));
}

#[test]
fn insert_overwrites() {
    let mut m = Mapping::new();
    m.insert(text("a"), text("1"));
    m.insert(text("b"), text("2"));
    m.insert(text("a"), text("3"));

    assert_eq!(Some(&text("3")), m.get("a"));
    assert_eq!(Some(&text("2")), m.get("b"));
    assert_eq!(vec!["a", "b"], m.keys());
}

#[test]
fn entries_stand_in_byte_order() {
    let mut m = Mapping::new();
    for key in ["b", "a", "ab", "", "B", "\u{e9}", "z", "aa", "\u{1f600}", "\u{ffff}"] {
        m.insert(text(key), key.to_uppercase());
    }
    let mut expected = vec!["b", "a", "ab", "", "B", "\u{e9}", "z", "aa", "\u{1f600}", "\u{ffff}"];
    expected.sort();

    assert_eq!(expected, m.keys());
    assert_eq!(vec!["", "B", "a", "aa", "ab", "b", "z", "\u{e9}", "\u{ffff}", "\u{1f600}"], m.keys());
    assert_eq!(
        &Entry { key: text("B"), value: text("B") },
        &m.entries()[1]
    );
    for key in expected {
        assert_eq!(Some(&key.to_uppercase()), m.get(key));
    }
}

#[test]
fn many_keys_are_all_found() {
    let mut m = Mapping::new();
    let mut order: Vec<u32> = (0..200).collect();
    // A fixed shuffle: multiplication by a unit modulo the length.
    for n in order.iter_mut() {
        *n = (*n * 73 + 11) % 200;
    }
    for n in &order {
        m.insert(format!("key{:03}", n), format!("value{}", n));
    }
    assert_eq!(200, m.keys().len());
    for n in 0..200 {
        assert_eq!(Some(&format!("value{}", n)), m.get(&format!("key{:03}", n)));
        assert_eq!(format!("key{:03}", n), m.keys()[n]);
    }
    for n in (0..200).step_by(2) {
        m.remove(&format!("key{:03}", n));
    }
    assert_eq!(100, m.keys().len());
    for n in 0..200 {
        let found = m.get(&format!("key{:03}", n));
        if n % 2 == 0 {
            assert_eq!(None, found);
        } else {
            assert_eq!(Some(&format!("value{}", n)), found);
        }
    }
}

#[test]
fn remove_takes_the_key_out() {
    let mut m = Mapping::new();
    m.insert(text("a"), text("1"));
    m.insert(text("b"), text("2"));
    m.insert(text("c"), text("3"));
    m.remove("b");

    assert_eq!(None, m.get("b"));
    assert_eq!(vec!["a", "c"], m.keys());
    assert_eq!(Some(&text("1")), m.get("a"));
    assert_eq!(Some(&text("3")), m.get("c"));
}

#[test]
fn removing_an_absent_key_changes_nothing() {
    let mut m = Mapping::new();
    m.insert(text("a"), text("1"));
    let before = m.clone();
    m.remove("b");
    m.remove("");
    m.remove("aa");

    assert_eq!(before, m);
}

#[test]
fn clear_takes_everything_out() {
    let mut m = Mapping::new();
    m.insert(text("a"), text("1"));
    m.insert(text("b"), text("2"));
    m.clear();

    assert_eq!(Mapping::new(), m);
    assert_eq!(None, m.get("a"));
}
