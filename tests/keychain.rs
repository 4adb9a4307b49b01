use clip_flow::error::AppError;
use clip_flow::keychain::{ApiKeyType, KeychainService};

#[test]
fn accounts_and_providers() {
    assert_eq!(ApiKeyType::OpenAI.as_str(), "openai_api_key");
    assert_eq!(ApiKeyType::Anthropic.as_str(), "anthropic_api_key");
    assert_eq!(ApiKeyType::from_provider("OpenAI"), Some(ApiKeyType::OpenAI));
    assert_eq!(ApiKeyType::from_provider("anthropic"), Some(ApiKeyType::Anthropic));
    assert_eq!(ApiKeyType::from_provider("gemini"), None);
}

#[test]
fn security_arguments() {
    assert_eq!(
        KeychainService::store_openai_key("sk-1"),
        vec!["add-generic-password", "-s", "clip-flow", "-a", "openai_api_key", "-w", "sk-1", "-U"]
    );
    assert_eq!(
        KeychainService::get_anthropic_key(),
        vec!["find-generic-password", "-s", "clip-flow", "-a", "anthropic_api_key", "-w"]
    );
    assert_eq!(KeychainService::store_anthropic_key("k")[4], "anthropic_api_key");
    assert_eq!(KeychainService::get_openai_key()[4], "openai_api_key");
    assert_eq!(KeychainService::delete_args(ApiKeyType::OpenAI).len(), 5);
}

#[test]
fn lookup_output() {
    assert_eq!(KeychainService::read_lookup(true, "sk-abc\n", "").unwrap().as_deref(), Some("sk-abc"));
    assert_eq!(KeychainService::read_lookup(true, "  \n", "").unwrap(), None);
    assert_eq!(
        KeychainService::read_lookup(false, "", "security: SecKeychainSearchCopyNext: The specified item could not be found in the keychain.").unwrap(),
        None
    );
    assert!(matches!(KeychainService::read_lookup(false, "", "denied"), Err(AppError::ProcessFailed(_))));
    assert_eq!(KeychainService::has_api_key(Ok(Some("k".to_string()))).unwrap(), true);
    assert_eq!(KeychainService::has_api_key(Ok(None)).unwrap(), false);
    assert!(KeychainService::has_api_key(Err(AppError::ProcessFailed("x".to_string()))).is_err());
}

#[test]
fn store_and_delete_output() {
    assert!(KeychainService::read_store(true, "").is_ok());
    assert!(KeychainService::read_store(false, "boom").is_err());
    assert!(KeychainService::read_delete(false, "The specified item could not be found").is_ok());
    assert!(KeychainService::read_delete(false, "boom").is_err());
}

#[test]
fn masked_keys() {
    assert_eq!(KeychainService::mask_api_key("sk-1234567890"), "sk-1...7890");
    assert_eq!(KeychainService::mask_api_key("abcd"), "****");
}
