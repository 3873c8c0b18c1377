use wikibase_rest_api::bearer_token::BearerToken;
use wikibase_rest_api::language_string::Language;
use wikibase_rest_api::search::{Search, SearchLimit};

#[test]
fn test_has_access_token() {
    let mut token = BearerToken::default();
    assert!(!token.has_access_token());
    token.set_access_token("test");
    assert!(token.has_access_token());
}

#[test]
fn test_can_update_access_token() {
    let mut token = BearerToken::default();
    assert!(!token.can_update_access_token());
    token.set_oauth2_info("client_id", "client_secret");
    assert!(token.can_update_access_token());
}

#[test]
fn test_does_access_token_need_updating() {
    let mut token = BearerToken::default();
    assert!(token.does_access_token_need_updating());
    token.touch_access_token();
    assert!(token.does_access_token_need_updating());
    token.set_renewal_interval(0);
    assert!(!token.does_access_token_need_updating());
}

#[test]
fn test_get() {
    let mut token = BearerToken::default();
    assert_eq!(token.get(), &None);
    token.set_access_token("test");
    assert_eq!(token.get(), &Some("test".to_string()));
}

#[test]
fn test_array2hashmap() {
    let array = vec![
        ("a".to_string(), "1".to_string()),
        ("b".to_string(), "2".to_string()),
    ];
    let hashmap = BearerToken::array2hashmap(&array);
    assert_eq!(hashmap.get("a"), Some(&"1".to_string()));
    assert_eq!(hashmap.get("b"), Some(&"2".to_string()));
}

#[test]
fn bearer_token_parameters() {
    let mut token = BearerToken::default();
    assert!(token.generate_get_access_token_parameters("code").is_err());
    token.set_oauth2_info("id", "secret");
    let params = token.generate_get_access_token_parameters("code").unwrap();
    assert_eq!(params.get("grant_type"), Some(&"authorization_code".to_string()));
    assert_eq!(params.get("client_id"), Some(&"id".to_string()));
    assert_eq!(params.get("client_secret"), Some(&"secret".to_string()));
    assert_eq!(params.get("code"), Some(&"code".to_string()));
    assert!(token.get_renew_access_token_parameters().is_err());
    token.set_tokens(None, Some("refresh".to_string()));
    let params = token.get_renew_access_token_parameters().unwrap();
    assert_eq!(params.get("grant_type"), Some(&"refresh_token".to_string()));
    assert_eq!(params.get("refresh_token"), Some(&"refresh".to_string()));
}

#[test]
fn test_get_my_rest_api_path() {
    assert_eq!(
        Search::items("foo", Language::try_new("en").unwrap()).get_my_rest_api_path(),
        "/search/items"
    );
    assert_eq!(
        Search::properties("foo", Language::try_new("en").unwrap()).get_my_rest_api_path(),
        "/search/properties"
    );
}

#[test]
fn language_sanitizes_and_validates() {
    let l = Language::try_new(" EN ").unwrap();
    assert_eq!(l.as_str(), "en");
    assert!(Language::try_new("e").is_err());
    assert!(Language::try_new("Q9!").is_err());
    let l = Language::try_new("de-ch").unwrap();
    assert_eq!(l.as_str(), "de-ch");
}

#[test]
fn search_limit_bounds() {
    assert!(SearchLimit::try_new(0).is_err());
    assert_eq!(SearchLimit::try_new(1).unwrap().get(), 1);
    assert_eq!(SearchLimit::try_new(500).unwrap().get(), 500);
    assert!(SearchLimit::try_new(501).is_err());
}
