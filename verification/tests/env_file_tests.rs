use leaf::env_file::env_assignments;

fn pairs(text: &str) -> Vec<(String, String)> {
    env_assignments(text)
}

#[test]
fn env_file_assignments() {
    let text = "# settings\nLEAF_CLIENTID = abc.apps \n\n  KEY=a=b\r\nNOEQUALS\n   # indented comment\nEMPTY=\n";
    assert_eq!(
        pairs(text),
        vec![
            ("LEAF_CLIENTID".to_string(), "abc.apps".to_string()),
            ("KEY".to_string(), "a=b".to_string()),
            ("EMPTY".to_string(), String::new()),
        ]
    );
}

#[test]
fn env_file_edges() {
    assert!(pairs("").is_empty());
    assert!(pairs("\n\n").is_empty());
    assert_eq!(pairs("A=1"), vec![("A".to_string(), "1".to_string())]);
    assert_eq!(pairs("=x"), vec![(String::new(), "x".to_string())]);
}
