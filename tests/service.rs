use pastebin::{
    derive_key, Highlighter, OutputMode, PasteError, PasteService, RecordStore, Rendered, Secret,
    DAY_SECS, ID_LEN, MAX_PASTE_BYTES,
};
use std::collections::HashSet;

fn service(secret: &str) -> PasteService {
    PasteService::new(Secret::from_text(secret).unwrap())
}

const NOW: u64 = 1_700_000_000;

#[test]
fn submit_then_retrieve_round_trips() {
    let mut s = service("round trip");
    for content in ["x", "hello world", "line one\nline two\r\n", "ünïcødé ✓"] {
        let new = s.submit(content.to_string(), NOW).unwrap();
        assert_eq!(s.retrieve(&new.id), Ok(content.to_string()));
    }
    assert_eq!(s.len(), 4);
}

#[test]
fn oversized_submission_creates_nothing() {
    let mut s = service("size");
    let over = "a".repeat(MAX_PASTE_BYTES + 1);
    assert_eq!(s.submit(over, NOW).err(), Some(PasteError::SizeExceeded));
    assert_eq!(s.len(), 0);
    let at_limit = "a".repeat(MAX_PASTE_BYTES);
    assert!(s.submit(at_limit, NOW).is_ok());
    assert_eq!(s.len(), 1);
}

#[test]
fn empty_submission_is_refused() {
    let mut s = service("empty");
    assert_eq!(s.submit(String::new(), NOW).err(), Some(PasteError::EmptyBody));
    assert_eq!(s.len(), 0);
}

#[test]
fn replace_with_wrong_key_changes_nothing() {
    let mut s = service("replace");
    let new = s.submit("first version".to_string(), NOW).unwrap();
    let wrong = if new.key == "0000000000000000" { "1111111111111111" } else { "0000000000000000" };
    assert_eq!(
        s.replace(&new.id, wrong, "changed".to_string(), NOW + 5),
        Err(PasteError::Unauthorized)
    );
    assert_eq!(s.retrieve(&new.id), Ok("first version".to_string()));
}

#[test]
fn replace_with_key_overwrites() {
    let mut s = service("replace ok");
    let new = s.submit("first version".to_string(), NOW).unwrap();
    assert_eq!(s.replace(&new.id, &new.key, "changed".to_string(), NOW + 5), Ok(()));
    assert_eq!(s.retrieve(&new.id), Ok("changed".to_string()));
    let over = "a".repeat(MAX_PASTE_BYTES + 1);
    assert_eq!(s.replace(&new.id, &new.key, over, NOW + 6), Err(PasteError::SizeExceeded));
    assert_eq!(s.retrieve(&new.id), Ok("changed".to_string()));
    assert_eq!(
        s.replace("nope0", &new.key, "x".to_string(), NOW),
        Err(PasteError::NotFound)
    );
}

#[test]
fn remove_then_retrieve_is_not_found() {
    let mut s = service("remove");
    let new = s.submit("bye".to_string(), NOW).unwrap();
    assert_eq!(s.remove(&new.id, "not the key"), Err(PasteError::Unauthorized));
    assert!(s.contains(&new.id));
    assert_eq!(s.remove(&new.id, &new.key), Ok(()));
    assert_eq!(s.retrieve(&new.id), Err(PasteError::NotFound));
    assert_eq!(s.remove(&new.id, &new.key), Err(PasteError::NotFound));
}

#[test]
fn sweep_removes_only_pastes_past_retention() {
    let mut s = service("sweep");
    let now = NOW;
    let stale = s.submit("stale".to_string(), now - 31 * DAY_SECS).unwrap();
    let fresh = s.submit("fresh".to_string(), now - DAY_SECS).unwrap();
    let removed = s.sweep(now);
    assert_eq!(removed, vec![stale.id.clone()]);
    assert_eq!(s.retrieve(&stale.id), Err(PasteError::NotFound));
    assert_eq!(s.retrieve(&fresh.id), Ok("fresh".to_string()));
    assert!(s.sweep(now).is_empty());
}

#[test]
fn replace_renews_retention() {
    let mut s = service("renew");
    let new = s.submit("old".to_string(), NOW - 40 * DAY_SECS).unwrap();
    assert_eq!(s.replace(&new.id, &new.key, "new".to_string(), NOW - DAY_SECS), Ok(()));
    assert!(s.sweep(NOW).is_empty());
    assert_eq!(s.retrieve(&new.id), Ok("new".to_string()));
}

#[test]
fn hello_world_scenario() {
    let mut s = service("scenario secret");
    let new = s.submit("hello world".to_string(), NOW).unwrap();
    assert_eq!(new.id.len(), ID_LEN);
    assert!(new.id.chars().all(|c| c.is_ascii_alphanumeric()));
    assert_eq!(new.key.len(), 16);
    assert!(new.key.chars().all(|c| c.is_ascii_digit() || ('a'..='f').contains(&c)));
    let secret = Secret::from_text("scenario secret").unwrap();
    assert_eq!(new.key, derive_key(&secret, &new.id));
    assert_eq!(s.retrieve(&new.id), Ok("hello world".to_string()));
    let hl = Highlighter::new();
    assert_eq!(
        s.retrieve_rendered(&new.id, "doesnotexist", OutputMode::Terminal, &hl),
        Err(PasteError::HighlightUnavailable)
    );
    assert_eq!(
        s.retrieve_rendered(&new.id, "doesnotexist", OutputMode::Html, &hl),
        Err(PasteError::HighlightUnavailable)
    );
    assert_eq!(
        s.retrieve_rendered("zzzzz", "rs", OutputMode::Terminal, &hl),
        Err(PasteError::NotFound)
    );
    assert_eq!(
        s.retrieve_rendered(&new.id, "rs", OutputMode::Html, &hl),
        hl.highlight("hello world", "rs", OutputMode::Html)
    );
    match s.retrieve_rendered(&new.id, "rs", OutputMode::Terminal, &hl) {
        Ok(Rendered::Terminal(t)) => assert!(t.contains("hello") && t.ends_with('\n')),
        other => panic!("unexpected {:?}", other),
    }
}

#[test]
fn many_submissions_get_distinct_ids() {
    let mut s = service("many");
    let mut seen = HashSet::new();
    for i in 0..3000u64 {
        let new = s.submit(format!("paste number {}", i), NOW + i).unwrap();
        assert!(new.id.len() >= ID_LEN);
        assert!(seen.insert(new.id));
    }
    assert_eq!(s.len(), 3000);
}

#[test]
fn allocated_id_is_free() {
    let mut s = service("alloc");
    for i in 0..50u64 {
        let id = s.allocate_id().unwrap();
        assert!(!s.contains(&id));
        assert_eq!(id.len(), ID_LEN);
        s.submit(format!("{}", i), NOW).unwrap();
    }
}

#[test]
fn record_store_keeps_creation_time() {
    let mut store = RecordStore::new();
    store.write("abcde", "one".to_string(), 10);
    store.write("fghij", "two".to_string(), 20);
    store.write("abcde", "three".to_string(), 30);
    assert_eq!(store.len(), 2);
    assert!(store.contains("abcde"));
    assert_eq!(store.read("abcde"), Some("three".to_string()));
    let mut listing = store.list_all();
    listing.sort();
    assert_eq!(listing, vec![("abcde".to_string(), 30), ("fghij".to_string(), 20)]);
    assert!(store.remove("abcde"));
    assert!(!store.remove("abcde"));
    assert_eq!(store.read("abcde"), None);
    assert_eq!(store.len(), 1);
}
