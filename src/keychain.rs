//! Secure storage of cloud API keys through the system keychain's `security`
//! tool: the arguments it is run with and what its output means. The caller
//! runs the tool.
use vstd::prelude::*;
use vstd::string::*;
use crate::error::{prefixed, AppError};
use crate::progress::{contains_text, find_text};
use crate::text::{lower_of, same_text, texts, to_lower, trim_text, trimmed};

verus! {

/// Which provider's key.
#[derive(Debug, Clone, Copy, PartialEq, Eq, Structural)]
pub enum ApiKeyType {
    OpenAI,
    Anthropic,
}

/// Which keys are stored.
#[derive(Debug, Clone, Copy)]
pub struct ApiKeyStatus {
    pub openai: bool,
    pub anthropic: bool,
}

/// Keychain operations under the application's service name.
pub struct KeychainService;

pub open spec fn account_of(k: ApiKeyType) -> Seq<char> {
    match k {
        ApiKeyType::OpenAI => "openai_api_key"@,
        ApiKeyType::Anthropic => "anthropic_api_key"@,
    }
}

pub open spec fn store_args_of(k: ApiKeyType, key: Seq<char>) -> Seq<Seq<char>> {
    seq![
        "add-generic-password"@,
        "-s"@,
        "clip-flow"@,
        "-a"@,
        account_of(k),
        "-w"@,
        key,
        "-U"@,
    ]
}

pub open spec fn lookup_args_of(k: ApiKeyType) -> Seq<Seq<char>> {
    seq!["find-generic-password"@, "-s"@, "clip-flow"@, "-a"@, account_of(k), "-w"@]
}

pub open spec fn delete_args_of(k: ApiKeyType) -> Seq<Seq<char>> {
    seq!["delete-generic-password"@, "-s"@, "clip-flow"@, "-a"@, account_of(k)]
}

/// The tool's error output says there is no such entry.
pub open spec fn is_not_found(stderr: Seq<char>) -> bool {
    contains_text(stderr, "could not be found"@) || contains_text(
        stderr,
        "SecKeychainSearchCopyNext"@,
    )
}

/// The key shown in the interface: its first and last four characters, or
/// `****` for a key of four characters or fewer.
pub open spec fn masked_of(k: Seq<char>) -> Seq<char> {
    if k.len() > 4 {
        k.subrange(0, 4) + "..."@ + k.subrange(k.len() - 4, k.len() as int)
    } else {
        "****"@
    }
}

/// The provider a name stands for, in any case.
pub open spec fn provider_of(lowered: Seq<char>) -> Option<ApiKeyType> {
    if lowered == "openai"@ {
        Some(ApiKeyType::OpenAI)
    } else if lowered == "anthropic"@ {
        Some(ApiKeyType::Anthropic)
    } else {
        None
    }
}

impl ApiKeyType {
    /// The keychain account the key is stored under.
    pub fn as_str(&self) -> (r: &'static str)
        ensures
            r@ == account_of(*self),
    {
        match self {
            ApiKeyType::OpenAI => "openai_api_key",
            ApiKeyType::Anthropic => "anthropic_api_key",
        }
    }

    /// The provider named `provider`, compared in lower case.
    pub fn from_provider(provider: &str) -> (r: Option<ApiKeyType>)
        ensures
            r == provider_of(lower_of(provider@)),
    {
        let lowered = to_lower(provider);
        if same_text(lowered.as_str(), "openai") {
            Some(ApiKeyType::OpenAI)
        } else if same_text(lowered.as_str(), "anthropic") {
            Some(ApiKeyType::Anthropic)
        } else {
            None
        }
    }
}

fn strings(parts: &[&str]) -> (r: Vec<String>)
    ensures
        r@.len() == parts@.len(),
        forall|i: int| 0 <= i < parts@.len() ==> (#[trigger] r@[i])@ == parts@[i]@,
{
    let mut r: Vec<String> = Vec::new();
    let mut i: usize = 0;
    while i < parts.len()
        invariant
            i <= parts@.len(),
            r@.len() == i,
            forall|j: int| 0 <= j < i ==> (#[trigger] r@[j])@ == parts@[j]@,
        decreases parts@.len() - i,
    {
        r.push(String::from_str(parts[i]));
        i = i + 1;
    }
    r
}

impl KeychainService {
    /// Arguments that store `api_key`, replacing any earlier entry.
    pub fn store_args(key_type: ApiKeyType, api_key: &str) -> (r: Vec<String>)
        ensures
            texts(r@) == store_args_of(key_type, api_key@),
    {
        let r = strings(
            &["add-generic-password", "-s", "clip-flow", "-a", key_type.as_str(), "-w", api_key, "-U"],
        );
        assert(texts(r@) =~= store_args_of(key_type, api_key@));
        r
    }

    /// Arguments that print the stored key.
    pub fn lookup_args(key_type: ApiKeyType) -> (r: Vec<String>)
        ensures
            texts(r@) == lookup_args_of(key_type),
    {
        let r = strings(&["find-generic-password", "-s", "clip-flow", "-a", key_type.as_str(), "-w"]);
        assert(texts(r@) =~= lookup_args_of(key_type));
        r
    }

    /// Arguments that delete the stored key.
    pub fn delete_args(key_type: ApiKeyType) -> (r: Vec<String>)
        ensures
            texts(r@) == delete_args_of(key_type),
    {
        let r = strings(&["delete-generic-password", "-s", "clip-flow", "-a", key_type.as_str()]);
        assert(texts(r@) =~= delete_args_of(key_type));
        r
    }

    /// Whether the tool's error output says there is no such entry.
    pub fn is_not_found_message(stderr: &str) -> (r: bool)
        ensures
            r == is_not_found(stderr@),
    {
        find_text(stderr, "could not be found") || find_text(stderr, "SecKeychainSearchCopyNext")
    }

    /// The key a lookup printed: the trimmed output, none when it is empty or
    /// the entry does not exist; another failure is an error.
    pub fn read_lookup(success: bool, stdout: &str, stderr: &str) -> (r: Result<
        Option<String>,
        AppError,
    >)
        ensures
            success && trimmed(stdout@).len() > 0 ==> (r matches Ok(Some(k)) && k@ == trimmed(
                stdout@,
            )),
            success && trimmed(stdout@).len() == 0 ==> r matches Ok(None),
            !success && is_not_found(stderr@) ==> r matches Ok(None),
            !success && !is_not_found(stderr@) ==> (r matches Err(e) && e is ProcessFailed),
    {
        if !success {
            if Self::is_not_found_message(stderr) {
                return Ok(None);
            }
            return Err(AppError::ProcessFailed(prefixed("Failed to get API key: ", stderr)));
        }
        let key = trim_text(stdout);
        if key.unicode_len() == 0 {
            Ok(None)
        } else {
            Ok(Some(key))
        }
    }

    /// The outcome of storing a key.
    pub fn read_store(success: bool, stderr: &str) -> (r: Result<(), AppError>)
        ensures
            success <==> r is Ok,
            r matches Err(e) ==> e is ProcessFailed,
    {
        if success {
            Ok(())
        } else {
            Err(AppError::ProcessFailed(prefixed("Failed to store API key: ", stderr)))
        }
    }

    /// The outcome of deleting a key: deleting an absent key is not an error.
    pub fn read_delete(success: bool, stderr: &str) -> (r: Result<(), AppError>)
        ensures
            (success || is_not_found(stderr@)) <==> r is Ok,
            r matches Err(e) ==> e is ProcessFailed,
    {
        if success || Self::is_not_found_message(stderr) {
            Ok(())
        } else {
            Err(AppError::ProcessFailed(prefixed("Failed to delete API key: ", stderr)))
        }
    }

    /// Whether a lookup found a key.
    pub fn has_api_key(lookup: Result<Option<String>, AppError>) -> (r: Result<bool, AppError>)
        ensures
            match lookup {
                Ok(k) => r == Ok::<bool, AppError>(k is Some),
                Err(e) => r == Err::<bool, AppError>(e),
            },
    {
        match lookup {
            Ok(k) => Ok(k.is_some()),
            Err(e) => Err(e),
        }
    }

    /// Arguments that store the OpenAI key.
    pub fn store_openai_key(api_key: &str) -> (r: Vec<String>)
        ensures
            texts(r@) == store_args_of(ApiKeyType::OpenAI, api_key@),
    {
        Self::store_args(ApiKeyType::OpenAI, api_key)
    }

    /// Arguments that print the OpenAI key; read the output with [`Self::read_lookup`].
    pub fn get_openai_key() -> (r: Vec<String>)
        ensures
            texts(r@) == lookup_args_of(ApiKeyType::OpenAI),
    {
        Self::lookup_args(ApiKeyType::OpenAI)
    }

    /// Arguments that store the Anthropic key.
    pub fn store_anthropic_key(api_key: &str) -> (r: Vec<String>)
        ensures
            texts(r@) == store_args_of(ApiKeyType::Anthropic, api_key@),
    {
        Self::store_args(ApiKeyType::Anthropic, api_key)
    }

    /// Arguments that print the Anthropic key; read the output with [`Self::read_lookup`].
    pub fn get_anthropic_key() -> (r: Vec<String>)
        ensures
            texts(r@) == lookup_args_of(ApiKeyType::Anthropic),
    {
        Self::lookup_args(ApiKeyType::Anthropic)
    }

    /// The key as the interface shows it, as [`masked_of`] states.
    pub fn mask_api_key(key: &str) -> (r: String)
        ensures
            r@ == masked_of(key@),
    {
        proof {
            reveal_strlit("...");
            reveal_strlit("****");
        }
        let n = key.unicode_len();
        if n > 4 {
            let mut r = key.substring_char(0, 4).to_owned();
            r.append("...");
            r.append(key.substring_char(n - 4, n));
            r
        } else {
            String::from_str("****")
        }
    }
}

} // verus!
