use firenvim::install::{
    escape_backslashes, join_path, manifest_content, manifest_path_linux, manifest_path_macos,
    manifest_path_windows,
};

#[test]
fn manifest_substitutes_the_executable_path() {
    let content = manifest_content("/home/someone/.local/share/firenvim/firenvim");
    let expected = "{\n  \"name\": \"firenvim\",\n  \"description\": \"Turn Firefox into a Neovim client.\",\n  \"path\": \"/home/someone/.local/share/firenvim/firenvim\",\n  \"type\": \"stdio\",\n  \"allowed_extensions\": [ \"firenvim@lacamb.re\" ]\n}\n";
    assert_eq!(content, expected);
}

#[test]
fn manifest_is_valid_json_with_the_path_inside() {
    let content = manifest_content("/usr/local/bin/firenvim");
    let value: serde_json::Value = serde_json::from_str(&content).unwrap();
    assert_eq!(value.get("name").unwrap().as_str().unwrap(), "firenvim");
    assert_eq!(value.get("path").unwrap().as_str().unwrap(), "/usr/local/bin/firenvim");
    assert_eq!(value.get("type").unwrap().as_str().unwrap(), "stdio");
}

#[test]
fn join_path_puts_one_separator_between() {
    assert_eq!(join_path("/home/someone/data", "/", "firenvim"), "/home/someone/data/firenvim");
    assert_eq!(join_path("C:\\data", "\\", "firenvim.exe"), "C:\\data\\firenvim.exe");
}

#[test]
fn manifest_paths_per_platform() {
    assert_eq!(
        manifest_path_linux("/home/someone"),
        "/home/someone/.mozilla/native-messaging-hosts/firenvim.json"
    );
    assert_eq!(
        manifest_path_macos("/Users/someone"),
        "/Users/someone/Library/Application Support/Mozilla/NativeMessagingHosts/firenvim.json"
    );
    assert_eq!(manifest_path_windows("C:\\Users\\someone\\AppData"), "C:\\Users\\someone\\AppData\\firenvim.json");
}

#[test]
fn escaping_doubles_every_backslash() {
    let escaped = escape_backslashes(&b"C:\\Users\\someone\\firenvim.exe".to_vec());
    assert_eq!(escaped, b"C:\\\\Users\\\\someone\\\\firenvim.exe".to_vec());
}

#[test]
fn escaping_leaves_other_bytes_alone() {
    let escaped = escape_backslashes(&b"/home/someone/firenvim".to_vec());
    assert_eq!(escaped, b"/home/someone/firenvim".to_vec());
    assert_eq!(escape_backslashes(&vec![]), Vec::<u8>::new());
}
