//! The poll-based icon-fetch protocol.

use rofi_plugin_abi::icon_fetcher::file_is_image;
use rofi_plugin_abi::icon_fetcher::IconFetcher;

fn chars(s: &str) -> Vec<char> {
    s.chars().collect()
}

#[test]
fn query_returns_identifier_and_polls_not_ready() {
    let mut fetcher = IconFetcher::init();
    let id = fetcher.query(String::from("foo"), 32);
    assert_eq!(id, 1);
    // polled before the backing fetch completes: not ready, never stale
    assert_eq!(fetcher.get(id), None);
    let (completed, surface) = fetcher.get_ex(id);
    assert!(!completed);
    assert_eq!(surface, None);
}

#[test]
fn identifiers_are_fresh_per_request() {
    let mut fetcher = IconFetcher::init();
    let a = fetcher.query(String::from("foo"), 32);
    let b = fetcher.query_advanced(String::from("bar"), 48, 24);
    assert_ne!(a, b);
    assert_eq!(fetcher.requests.len(), 2);
    assert_eq!(fetcher.requests[1].wsize, 48);
    assert_eq!(fetcher.requests[1].hsize, 24);
}

#[test]
fn completed_requests_answer_polls() {
    let mut fetcher = IconFetcher::init();
    let found = fetcher.query(String::from("foo"), 32);
    let missing = fetcher.query(String::from("bar"), 32);
    fetcher.complete(found, Some(7));
    fetcher.complete(missing, None);
    assert_eq!(fetcher.get(found), Some(7));
    assert_eq!(fetcher.get_ex(found), (true, Some(7)));
    // completed but without an icon: success flag without a surface
    assert_eq!(fetcher.get(missing), None);
    assert_eq!(fetcher.get_ex(missing), (true, None));
}

#[test]
fn unknown_identifiers_and_double_completion() {
    let mut fetcher = IconFetcher::init();
    let id = fetcher.query(String::from("foo"), 32);
    assert_eq!(fetcher.get_ex(99), (false, None));
    fetcher.complete(99, Some(3));
    assert_eq!(fetcher.get(id), None);
    fetcher.complete(id, Some(4));
    // a second completion does not overwrite the recorded outcome
    fetcher.complete(id, Some(5));
    assert_eq!(fetcher.get(id), Some(4));
}

#[test]
fn destroy_resets_the_fetcher() {
    let mut fetcher = IconFetcher::init();
    let id = fetcher.query(String::from("foo"), 32);
    fetcher.complete(id, Some(7));
    fetcher.destroy();
    assert_eq!(fetcher.requests.len(), 0);
    assert_eq!(fetcher.get(id), None);
}

#[test]
fn image_paths_by_extension() {
    assert!(file_is_image(&chars("icon.png")));
    assert!(file_is_image(&chars("ICON.PNG")));
    assert!(file_is_image(&chars("photo.jpeg")));
    assert!(file_is_image(&chars("anim.gif")));
    assert!(file_is_image(&chars("vector.svg")));
    assert!(!file_is_image(&chars("notes.txt")));
    assert!(!file_is_image(&chars("png")));
    assert!(!file_is_image(&chars("")));
}
