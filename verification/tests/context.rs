use draft_claw::context::Context;
use draft_claw::text_map::TextMap;

#[test]
fn test_read_write_data() {
    let mut runtime_data = Context::load_data("runtime_data.json", &Vec::new());

    assert_eq!(runtime_data.read_data("key"), None);

    runtime_data.write_data("key", "value");
    assert_eq!(runtime_data.read_data("key"), Some("value".to_string()));
}

#[test]
fn test_persistence() {
    let kept: Vec<(String, String)>;

    {
        let mut runtime_data = Context::load_data("runtime_data.json", &Vec::new());
        runtime_data.write_data("key", "value");
        kept = runtime_data.data.entries.clone();
    }

    {
        let runtime_data = Context::load_data("runtime_data.json", &kept);
        assert_eq!(runtime_data.read_data("key"), Some("value".to_string()));
        assert_eq!(runtime_data.config_file_path, "runtime_data.json");
    }
}

#[test]
fn a_later_write_replaces_an_earlier_one() {
    let mut context = Context::load_data("path", &Vec::new());
    context.write_data("a", "1");
    context.write_data("b", "2");
    context.write_data("a", "3");
    assert_eq!(context.read_data("a"), Some("3".to_string()));
    assert_eq!(context.read_data("b"), Some("2".to_string()));
    assert_eq!(context.read_data("c"), None);
    assert_eq!(context.data.len(), 2);
    assert_eq!(context.data.entries[0], ("a".to_string(), "3".to_string()));
}

#[test]
fn of_two_loaded_entries_with_one_key_the_later_counts() {
    let entries = vec![
        ("a".to_string(), "1".to_string()),
        ("a".to_string(), "2".to_string()),
    ];
    let context = Context::load_data("path", &entries);
    assert_eq!(context.read_data("a"), Some("2".to_string()));
}

#[test]
fn text_map_keeps_first_come_order() {
    let mut map = TextMap::new();
    assert_eq!(map.len(), 0);
    map.insert("x", "1");
    map.insert("y", "2");
    map.insert("x", "3");
    assert_eq!(map.get("x"), Some("3".to_string()));
    assert_eq!(map.get("z"), None);
    let copy = map.clone();
    assert_eq!(copy.entries, map.entries);
    assert_eq!(copy.entries[1], ("y".to_string(), "2".to_string()));
}
