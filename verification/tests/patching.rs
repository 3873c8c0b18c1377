use wikibase_rest_api::aliases::Aliases;
use wikibase_rest_api::aliases_patch::AliasesPatch;
use wikibase_rest_api::apply::apply_patch_value;
use wikibase_rest_api::json::{json_eq, JsonValue};
use wikibase_rest_api::labels::Labels;
use wikibase_rest_api::labels_patch::LabelsPatch;
use wikibase_rest_api::language_string::LanguageString;
use wikibase_rest_api::language_strings_patch::LanguageStringsPatch;
use wikibase_rest_api::patch_entry::{PatchEntry, PatchOp, PathToken};
use wikibase_rest_api::sitelink::Sitelink;
use wikibase_rest_api::sitelinks::Sitelinks;

fn aliases_of(pairs: &[(&str, &[&str])]) -> Aliases {
    let mut a = Aliases::default();
    for (lang, values) in pairs {
        for v in *values {
            a.insert(LanguageString::new(lang, v));
        }
    }
    a
}

#[test]
fn test_patch_entry() {
    let pe = PatchEntry::new(
        PatchOp::Replace,
        vec![
            PathToken::Key("enwiki".to_string()),
            PathToken::Key("title".to_string()),
        ],
        Some(JsonValue::Str("Foo Bar".to_string())),
    );
    assert_eq!(pe.op_str(), "replace");
    assert_eq!(pe.path(), "/enwiki/title");
    match pe.value() {
        Some(JsonValue::Str(s)) => assert_eq!(s, "Foo Bar"),
        other => panic!("unexpected value: {other:?}"),
    }
}

#[test]
fn test_patch_entry_methods() {
    let pe = PatchEntry::new(
        PatchOp::Replace,
        vec![
            PathToken::Key("enwiki".to_string()),
            PathToken::Key("title".to_string()),
        ],
        Some(JsonValue::Str("Foo Bar".to_string())),
    );
    assert_eq!(pe.op(), PatchOp::Replace);
    assert_eq!(pe.path(), "/enwiki/title");
}

#[test]
fn path_escaping() {
    let pe = PatchEntry::new(
        PatchOp::Remove,
        vec![PathToken::Key("a/b~c".to_string()), PathToken::Idx(10)],
        None,
    );
    assert_eq!(pe.path(), "/a~1b~0c/10");
}

#[test]
fn test_remove() {
    let mut patch = LanguageStringsPatch::labels();
    patch.remove("en");
    assert_eq!(patch.patch().len(), 1);
    assert_eq!(patch.patch()[0].op_str(), "remove");
    assert_eq!(patch.patch()[0].path(), "/en");
}

#[test]
fn test_patch_fn() {
    let mut patch = LanguageStringsPatch::labels();
    patch.replace("en", "Foo Bar");
    assert_eq!(patch.patch().len(), 1);
    assert_eq!(patch.patch()[0].op_str(), "replace");
    assert_eq!(patch.patch()[0].path(), "/en");
}

#[test]
fn labels_patch_test_remove() {
    let mut patch = LabelsPatch::default();
    patch.remove("en");
    assert_eq!(patch.patch()[0].op_str(), "remove");
    assert_eq!(patch.patch()[0].path(), "/en");
}

#[test]
fn labels_patch_test_patch() {
    let mut patch = LabelsPatch::default();
    patch.replace("en", "Foo Bar");
    assert_eq!(patch.patch()[0].op_str(), "replace");
    assert_eq!(patch.patch()[0].path(), "/en");
}

#[test]
fn test_replace() {
    let mut p = AliasesPatch::default();
    p.replace("en", 0, "foo");
    assert_eq!(p.patch()[0].op_str(), "replace");
    assert_eq!(p.patch()[0].path(), "/en/0");
}

#[test]
fn patch_test_remove() {
    let mut p = AliasesPatch::default();
    p.remove("en", 1);
    assert_eq!(p.patch()[0].op_str(), "remove");
    assert_eq!(p.patch()[0].path(), "/en/1");
}

#[test]
fn test_is_empty() {
    let p = AliasesPatch::default();
    assert!(p.is_empty());
}

#[test]
fn labels_empty_diff() {
    // the same label map diffs to an empty patch
    let mut a = Labels::default();
    a.insert(LanguageString::new("en", "Hello"));
    a.insert(LanguageString::new("de", "Hallo"));
    let p = a.patch(&a).unwrap();
    assert!(p.is_empty());
}

#[test]
fn labels_insert_overwrites() {
    let mut a = Labels::default();
    a.insert(LanguageString::new("en", "Hello"));
    a.insert(LanguageString::new("en", "Goodbye"));
    assert_eq!(a.get_lang("en").unwrap(), "Goodbye");
    assert_eq!(a.len(), 1);
}

#[test]
fn labels_diff_and_apply() {
    // applying the patch of two label maps to the old one yields the new
    let mut a = Labels::default();
    a.insert(LanguageString::new("en", "Hello"));
    a.insert(LanguageString::new("fr", "Bonjour"));
    let mut b = Labels::default();
    b.insert(LanguageString::new("en", "Hi"));
    b.insert(LanguageString::new("de", "Hallo"));
    let p = a.patch(&b).unwrap();
    let patched = apply_patch_value(&b.to_json(), p.patch()).unwrap();
    assert!(json_eq(&patched, &a.to_json()));
    assert!(!p.is_empty());
}

#[test]
fn aliases_scenario_diff() {
    // the canonical alias scenario: one replace, one tail removal, one
    // tail addition, and nothing else
    let a = aliases_of(&[("en", &["Foo", "Bar", "Baz"]), ("de", &["Foobar"])]);
    let b = aliases_of(&[("en", &["Foo", "Boo"]), ("de", &["Foobar", "Foobaz"])]);
    let p = b.patch(&a).unwrap();
    let rendered: Vec<(String, String)> = p
        .patch()
        .iter()
        .map(|e| (e.op_str().to_string(), e.path()))
        .collect();
    assert_eq!(rendered.len(), 3);
    // keys are walked in sorted order: the "de" addition first, then the
    // "en" replacement and the "en" tail removal
    assert_eq!(rendered[0], ("add".to_string(), "/de/1".to_string()));
    assert_eq!(rendered[1], ("replace".to_string(), "/en/1".to_string()));
    assert_eq!(rendered[2], ("remove".to_string(), "/en/2".to_string()));
    let entries = p.patch();
    assert!(json_eq(
        entries[0].value().as_ref().unwrap(),
        &JsonValue::Str("Foobaz".to_string())
    ));
    assert!(json_eq(
        entries[1].value().as_ref().unwrap(),
        &JsonValue::Str("Boo".to_string())
    ));
    assert!(entries[2].value().is_none());
    // and applying it to the old state yields the new one
    let patched = apply_patch_value(&a.to_json(), p.patch()).unwrap();
    assert!(json_eq(&patched, &b.to_json()));
}

#[test]
fn aliases_empty_diff() {
    let a = aliases_of(&[("en", &["Foo", "Bar"])]);
    let p = a.patch(&a).unwrap();
    assert!(p.is_empty());
}

#[test]
fn aliases_insert_dedups() {
    let mut a = Aliases::default();
    a.insert(LanguageString::new("en", "Foo"));
    a.insert(LanguageString::new("en", "Bar"));
    a.insert(LanguageString::new("en", "Foo"));
    assert_eq!(a.get_lang("en").unwrap().len(), 2);
}

#[test]
fn sitelinks_empty_diff() {
    let mut a = Sitelinks::default();
    a.set_wiki(Sitelink::new("enwiki", "Douglas Adams"));
    let p = a.patch(&a).unwrap();
    assert!(p.is_empty());
}

#[test]
fn sitelinks_diff_and_apply() {
    let mut a = Sitelinks::default();
    a.set_wiki(Sitelink::new("enwiki", "Douglas Adams"));
    a.set_wiki(Sitelink::new("dewiki", "Douglas Adams"));
    let mut b = Sitelinks::default();
    b.set_wiki(Sitelink::new("enwiki", "Someone Else"));
    let p = a.patch(&b).unwrap();
    assert!(!p.is_empty());
    let patched = apply_patch_value(&b.to_json(), p.patch()).unwrap();
    assert!(json_eq(&patched, &a.to_json()));
}

#[test]
fn test_sitelinks_set_wiki() {
    let mut s = Sitelinks::default();
    s.set_wiki(Sitelink::new("enwiki", "Foo"));
    s.set_wiki(Sitelink::new("enwiki", "Bar"));
    assert_eq!(s.len(), 1);
    assert_eq!(s.get_wiki("enwiki").unwrap().title(), "Bar");
}

#[test]
fn test_remove_wiki() {
    let mut s = Sitelinks::default();
    s.set_wiki(Sitelink::new("enwiki", "Foo"));
    s.set_wiki(Sitelink::new("dewiki", "Bar"));
    s.remove_wiki("enwiki");
    assert!(s.get_wiki("enwiki").is_none());
    assert_eq!(s.get_wiki("dewiki").unwrap().title(), "Bar");
}

#[test]
fn test_sitelink() {
    let s = Sitelink::new("enwiki", "Douglas Adams");
    assert_eq!(s.wiki(), "enwiki");
    assert_eq!(s.title(), "Douglas Adams");
    assert!(s.badges().is_empty());
    assert!(s.url().is_none());
}

#[test]
fn set_wiki_replaces_only_its_own_wiki() {
    let mut a = Sitelinks::default();
    a.set_wiki(Sitelink::new("enwiki", "One"));
    a.set_wiki(Sitelink::new("dewiki", "Eins"));
    a.set_wiki(Sitelink::new("enwiki", "Two"));
    // one entry per wiki: the replaced enwiki entry moved to the end
    assert_eq!(a.len(), 2);
    assert_eq!(a.get_wiki("enwiki").unwrap().title, "Two");
    assert_eq!(a.get_wiki("dewiki").unwrap().title, "Eins");
    a.remove_wiki("dewiki");
    assert_eq!(a.len(), 1);
    assert!(a.get_wiki("dewiki").is_none());
    assert_eq!(a.get_wiki("enwiki").unwrap().title, "Two");
}
