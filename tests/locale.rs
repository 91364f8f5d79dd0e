use relaybot::locale::{fill, Catalog};

fn entries(pairs: &[(&str, &str)]) -> Vec<(String, String)> {
    pairs.iter().map(|(k, v)| (k.to_string(), v.to_string())).collect()
}

#[test]
fn lookup_with_fallback_and_missing_key() {
    let mut c = Catalog::with("pt".to_string());
    assert_eq!(c.translate_from_locale("hi", "pt"), None);
    c.insert("pt".to_string(), entries(&[("hi", "ola")]));
    c.insert("en".to_string(), entries(&[("hi", "hello")]));
    assert_eq!(c.translate_from_locale("hi", "en"), Some("hello".to_string()));
    assert_eq!(c.translate_from_locale("hi", "fr"), Some("ola".to_string()));
    assert_eq!(c.translate_from_locale("bye", "en"), Some("KEY_NOT_FOUND".to_string()));
    assert_eq!(c.locales(), vec!["pt".to_string(), "en".to_string()]);
}

#[test]
fn reloading_a_locale_replaces_it() {
    let mut c = Catalog::with("pt".to_string());
    c.insert("pt".to_string(), entries(&[("hi", "ola")]));
    c.insert("pt".to_string(), entries(&[("hi", "oi")]));
    assert_eq!(c.translate_from_locale("hi", "pt"), Some("oi".to_string()));
    assert_eq!(c.locales().len(), 1);
    c.clear();
    assert!(c.locales().is_empty());
    assert_eq!(c.translate_from_locale("hi", "pt"), None);
}

#[test]
fn placeholders_are_filled() {
    let text = "Purged ${count} of ${count} (${who})".to_string();
    let args = entries(&[("count", "3"), ("who", "me")]);
    assert_eq!(fill(text, &args), "Purged 3 of 3 (me)");
    assert_eq!(fill("no args".to_string(), &Vec::new()), "no args");
}
