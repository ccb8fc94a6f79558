//! Provider endpoint configuration: the stored records, the pure
//! operations on a configuration list (reading and writing the list is the
//! caller's concern), and endpoint URL normalization.

use vstd::prelude::*;
use vstd::string::*;
use crate::strings::str_eq;

verus! {

/// One stored provider configuration.
#[derive(Clone, Debug)]
pub struct ApiConfig {
    pub profile: String,
    pub endpoint: String,
    pub key: String,
    pub model: String,
    pub default: bool,
    pub enabled: bool,
}

/// A request to create a configuration.
#[derive(Clone, Debug)]
pub struct CreateApiRequest {
    pub profile: String,
    pub endpoint: Option<String>,
    pub key: Option<String>,
    pub model: Option<String>,
    pub default: Option<bool>,
    pub enabled: Option<bool>,
}

/// A request to update a configuration.
#[derive(Clone, Debug)]
pub struct UpdateApiRequest {
    pub profile: String,
    pub original_profile: String,
    pub endpoint: Option<String>,
    pub key: Option<String>,
    pub model: Option<String>,
    pub default: Option<bool>,
    pub enabled: Option<bool>,
}

/// The outcome of a connection test.
#[derive(Clone, Debug)]
pub struct ApiTestResult {
    pub success: bool,
    pub message: String,
    pub error: Option<String>,
}

/// One model the provider offers.
#[derive(Clone, Debug)]
pub struct ModelInfo {
    pub id: String,
    pub object: String,
}

/// Whether some configuration carries this profile name.
pub open spec fn has_profile(configs: Seq<ApiConfig>, profile: Seq<char>) -> bool {
    exists|i: int| 0 <= i < configs.len() && (#[trigger] configs[i].profile@) == profile
}

/// Pure operations on a configuration list.
pub struct ApiConfigService;

impl ApiConfigService {
    /// The position of a profile name.
    pub fn position_of(configs: &Vec<ApiConfig>, profile: &str) -> (r: Option<usize>)
        ensures
            match r {
                Some(i) => i < configs@.len() && configs@[i as int].profile@ == profile@,
                None => !has_profile(configs@, profile@),
            },
    {
        let mut i: usize = 0;
        while i < configs.len()
            invariant
                i <= configs@.len(),
                forall|j: int| 0 <= j < i ==> (#[trigger] configs@[j].profile@) != profile@,
            decreases configs@.len() - i,
        {
            if str_eq(configs[i].profile.as_str(), profile) {
                return Some(i);
            }
            i += 1;
        }
        None
    }

    /// Append a new configuration built from a creation request; fails when
    /// the profile name is taken. When the new configuration is the
    /// default, every other default flag is cleared.
    pub fn create_api_config(configs: &mut Vec<ApiConfig>, request: CreateApiRequest)
        -> (r: Result<(), String>)
        ensures
            r is Ok <==> !has_profile(old(configs)@, request.profile@),
            match r {
                Ok(_) => {
                    let c = final(configs)@.last();
                    &&& final(configs)@.len() == old(configs)@.len() + 1
                    &&& c.profile == request.profile
                    &&& c.endpoint@ == (match request.endpoint {
                        Some(e) => e@,
                        None => Seq::<char>::empty(),
                    })
                    &&& c.default == (match request.default {
                        Some(d) => d,
                        None => false,
                    })
                    &&& c.enabled == (match request.enabled {
                        Some(e) => e,
                        None => false,
                    })
                    &&& forall|i: int| 0 <= i < old(configs)@.len() ==> {
                        &&& (#[trigger] final(configs)@[i]).profile
                            == old(configs)@[i].profile
                        &&& final(configs)@[i].default == (if c.default {
                            false
                        } else {
                            old(configs)@[i].default
                        })
                    }
                },
                Err(_) => *final(configs) == *old(configs),
            },
    {
        match Self::position_of(configs, request.profile.as_str()) {
            Some(i) => {
                proof {
                    assert(has_profile(configs@, request.profile@));
                }
                Err(String::from_str("a configuration with this profile name already exists"))
            },
            None => {
                let default = match request.default {
                    Some(d) => d,
                    None => false,
                };
                if default {
                    clear_defaults(configs);
                }
                let new_config = ApiConfig {
                    profile: request.profile,
                    endpoint: match request.endpoint {
                        Some(e) => e,
                        None => String::new(),
                    },
                    key: match request.key {
                        Some(k) => k,
                        None => String::new(),
                    },
                    model: match request.model {
                        Some(m) => m,
                        None => String::new(),
                    },
                    default,
                    enabled: match request.enabled {
                        Some(e) => e,
                        None => false,
                    },
                };
                configs.push(new_config);
                Ok(())
            },
        }
    }

    /// Apply an update request: rename and overwrite the named
    /// configuration's given fields; when it becomes the default, every
    /// other default flag is cleared. Fails when the original profile is
    /// unknown.
    #[verifier::rlimit(100)]
    pub fn update_api_config(configs: &mut Vec<ApiConfig>, request: UpdateApiRequest)
        -> (r: Result<(), String>)
        ensures
            r is Ok <==> has_profile(old(configs)@, request.original_profile@),
            final(configs)@.len() == old(configs)@.len(),
            match r {
                Ok(_) => exists|i: int| 0 <= i < old(configs)@.len()
                    && (#[trigger] old(configs)@[i].profile@) == request.original_profile@
                    && {
                        let c = final(configs)@[i];
                        let was = old(configs)@[i];
                        &&& c.profile == request.profile
                        &&& c.endpoint == (match request.endpoint {
                            Some(e) => e,
                            None => was.endpoint,
                        })
                        &&& c.key == (match request.key {
                            Some(k) => k,
                            None => was.key,
                        })
                        &&& c.model == (match request.model {
                            Some(m) => m,
                            None => was.model,
                        })
                        &&& c.enabled == (match request.enabled {
                            Some(e) => e,
                            None => was.enabled,
                        })
                        &&& c.default == (match request.default {
                            Some(d) => d,
                            None => was.default,
                        })
                        &&& forall|j: int| 0 <= j < old(configs)@.len() && j != i ==> {
                            &&& (#[trigger] final(configs)@[j]).profile
                                == old(configs)@[j].profile
                            &&& final(configs)@[j].enabled == old(configs)@[j].enabled
                            &&& final(configs)@[j].default == (
                                if request.default == Some(true) {
                                    false
                                } else {
                                    old(configs)@[j].default
                                })
                        }
                    },
                Err(_) => *final(configs) == *old(configs),
            },
    {
        match Self::position_of(configs, request.original_profile.as_str()) {
            None => Err(String::from_str("profile not found")),
            Some(i) => {
                proof {
                    assert(has_profile(old(configs)@, request.original_profile@));
                }
                if request.default == Some(true) {
                    clear_defaults(configs);
                }
                let was = take_config(configs, i);
                let updated = ApiConfig {
                    profile: request.profile,
                    endpoint: match request.endpoint {
                        Some(e) => e,
                        None => was.endpoint,
                    },
                    key: match request.key {
                        Some(k) => k,
                        None => was.key,
                    },
                    model: match request.model {
                        Some(m) => m,
                        None => was.model,
                    },
                    default: match request.default {
                        Some(d) => d,
                        None => was.default,
                    },
                    enabled: match request.enabled {
                        Some(e) => e,
                        None => was.enabled,
                    },
                };
                put_config(configs, i, updated);
                Ok(())
            },
        }
    }

    /// Make the named configuration the only default; fails when the
    /// profile is unknown.
    pub fn set_default_api_config(configs: &mut Vec<ApiConfig>, profile: &str)
        -> (r: Result<(), String>)
        ensures
            r is Ok <==> has_profile(old(configs)@, profile@),
            final(configs)@.len() == old(configs)@.len(),
            match r {
                Ok(_) => forall|i: int| 0 <= i < final(configs)@.len() ==> {
                    &&& (#[trigger] final(configs)@[i]).profile == old(configs)@[i].profile
                    &&& final(configs)@[i].enabled == old(configs)@[i].enabled
                    &&& final(configs)@[i].default == (old(configs)@[i].profile@ == profile@)
                },
                Err(_) => *final(configs) == *old(configs),
            },
    {
        match Self::position_of(configs, profile) {
            None => Err(String::from_str("profile not found")),
            Some(p) => {
                let mut i: usize = 0;
                while i < configs.len()
                    invariant
                        i <= configs@.len(),
                        configs@.len() == old(configs)@.len(),
                        p < old(configs)@.len(),
                        old(configs)@[p as int].profile@ == profile@,
                        forall|j: int| i <= j < configs@.len()
                            ==> (#[trigger] configs@[j]) == old(configs)@[j],
                        forall|j: int| 0 <= j < i ==> {
                            &&& (#[trigger] configs@[j]).profile == old(configs)@[j].profile
                            &&& configs@[j].enabled == old(configs)@[j].enabled
                            &&& configs@[j].default == (old(configs)@[j].profile@ == profile@)
                        },
                    decreases configs@.len() - i,
                {
                    let is_it = str_eq(configs[i].profile.as_str(), profile);
                    let ghost pre = configs@;
                    let mut c = take_config(configs, i);
                    c.default = is_it;
                    put_config(configs, i, c);
                    proof {
                        assert forall|j: int| i + 1 <= j < configs@.len()
                            implies (#[trigger] configs@[j]) == old(configs)@[j] by {
                            assert(configs@[j] == pre[j]);
                        }
                    }
                    i += 1;
                }
                proof {
                    assert(has_profile(old(configs)@, profile@));
                }
                Ok(())
            },
        }
    }

    /// Flip the enabled flag of the named configuration; fails when the
    /// profile is unknown.
    pub fn toggle_api_config(configs: &mut Vec<ApiConfig>, profile: &str, enabled: bool)
        -> (r: Result<(), String>)
        ensures
            r is Ok <==> has_profile(old(configs)@, profile@),
            match r {
                Ok(_) => exists|i: int| 0 <= i < old(configs)@.len()
                    && (#[trigger] old(configs)@[i].profile@) == profile@
                    && final(configs)@ == old(configs)@.update(i, ApiConfig {
                        enabled,
                        ..old(configs)@[i]
                    }),
                Err(_) => *final(configs) == *old(configs),
            },
    {
        match Self::position_of(configs, profile) {
            Some(i) => {
                let mut c = take_config(configs, i);
                c.enabled = enabled;
                put_config(configs, i, c);
                proof {
                    assert(final(configs)@ =~= old(configs)@.update(i as int, ApiConfig {
                        enabled,
                        ..old(configs)@[i as int]
                    }));
                }
                Ok(())
            },
            None => Err(String::from_str("profile not found")),
        }
    }

    /// Remove the named configuration; fails when the profile is unknown.
    pub fn delete_api_config(configs: &mut Vec<ApiConfig>, profile: &str)
        -> (r: Result<(), String>)
        ensures
            r is Ok <==> has_profile(old(configs)@, profile@),
            match r {
                Ok(_) => exists|i: int| 0 <= i < old(configs)@.len()
                    && (#[trigger] old(configs)@[i].profile@) == profile@
                    && final(configs)@ == old(configs)@.remove(i),
                Err(_) => *final(configs) == *old(configs),
            },
    {
        match Self::position_of(configs, profile) {
            Some(i) => {
                configs.remove(i);
                Ok(())
            },
            None => Err(String::from_str("profile not found")),
        }
    }

    /// Borrow the default configuration, if one is marked.
    pub fn get_default_api_config(configs: &Vec<ApiConfig>) -> (r: Option<&ApiConfig>)
        ensures
            match r {
                Some(c) => exists|i: int| 0 <= i < configs@.len()
                    && configs@[i] == *c && c.default,
                None => forall|i: int| 0 <= i < configs@.len()
                    ==> !(#[trigger] configs@[i]).default,
            },
    {
        let mut i: usize = 0;
        while i < configs.len()
            invariant
                i <= configs@.len(),
                forall|j: int| 0 <= j < i ==> !(#[trigger] configs@[j]).default,
            decreases configs@.len() - i,
        {
            if configs[i].default {
                return Some(&configs[i]);
            }
            i += 1;
        }
        None
    }
}

/// Clear every default flag.
fn clear_defaults(configs: &mut Vec<ApiConfig>)
    ensures
        final(configs)@.len() == old(configs)@.len(),
        forall|i: int| 0 <= i < final(configs)@.len() ==> {
            &&& (#[trigger] final(configs)@[i]).profile == old(configs)@[i].profile
            &&& final(configs)@[i].endpoint == old(configs)@[i].endpoint
            &&& final(configs)@[i].key == old(configs)@[i].key
            &&& final(configs)@[i].model == old(configs)@[i].model
            &&& final(configs)@[i].enabled == old(configs)@[i].enabled
            &&& !final(configs)@[i].default
        },
{
    let mut i: usize = 0;
    while i < configs.len()
        invariant
            i <= configs@.len(),
            configs@.len() == old(configs)@.len(),
            forall|j: int| i <= j < configs@.len()
                ==> (#[trigger] configs@[j]) == old(configs)@[j],
            forall|j: int| 0 <= j < i ==> {
                &&& (#[trigger] configs@[j]).profile == old(configs)@[j].profile
                &&& configs@[j].endpoint == old(configs)@[j].endpoint
                &&& configs@[j].key == old(configs)@[j].key
                &&& configs@[j].model == old(configs)@[j].model
                &&& configs@[j].enabled == old(configs)@[j].enabled
                &&& !configs@[j].default
            },
        decreases configs@.len() - i,
    {
        let ghost pre = configs@;
        let mut c = take_config(configs, i);
        c.default = false;
        put_config(configs, i, c);
        proof {
            assert forall|j: int| i + 1 <= j < configs@.len()
                implies (#[trigger] configs@[j]) == old(configs)@[j] by {
                assert(configs@[j] == pre[j]);
            }
        }
        i += 1;
    }
}

/// Move the configuration at `i` out of the list, leaving a placeholder.
fn take_config(configs: &mut Vec<ApiConfig>, i: usize) -> (r: ApiConfig)
    requires
        i < old(configs)@.len(),
    ensures
        r == old(configs)@[i as int],
        final(configs)@.len() == old(configs)@.len(),
        forall|j: int| 0 <= j < final(configs)@.len() && j != i
            ==> (#[trigger] final(configs)@[j]) == old(configs)@[j],
{
    let mut placeholder = ApiConfig {
        profile: String::new(),
        endpoint: String::new(),
        key: String::new(),
        model: String::new(),
        default: false,
        enabled: false,
    };
    configs.set_and_swap(i, &mut placeholder);
    placeholder
}

/// Put a configuration back at `i`.
fn put_config(configs: &mut Vec<ApiConfig>, i: usize, c: ApiConfig)
    requires
        i < old(configs)@.len(),
    ensures
        final(configs)@ == old(configs)@.update(i as int, c),
{
    configs.set(i, c);
}

// ---------------------------------------------------------------------------
// Endpoint URLs
// ---------------------------------------------------------------------------

/// Whether `s` ends with `suffix`.
pub open spec fn ends_with(s: Seq<char>, suffix: Seq<char>) -> bool {
    s.len() >= suffix.len() && s.subrange(s.len() - suffix.len(), s.len() as int) == suffix
}

/// Number of trailing slashes.
pub open spec fn trailing_slashes(s: Seq<char>) -> nat
    decreases s.len(),
{
    if s.len() > 0 && s[s.len() - 1] == '/' {
        1 + trailing_slashes(s.take(s.len() - 1))
    } else {
        0
    }
}

/// The text without its trailing slashes.
pub open spec fn slash_trimmed(s: Seq<char>) -> Seq<char> {
    s.take(s.len() - trailing_slashes(s))
}

/// Whether `s` ends with `suffix`, tested executably.
pub fn ends_with_exec(s: &str, suffix: &str) -> (r: bool)
    ensures
        r == ends_with(s@, suffix@),
{
    let n = s.unicode_len();
    let m = suffix.unicode_len();
    if m > n {
        return false;
    }
    let r = crate::strings::match_here(s, suffix, n - m);
    r
}

/// Remove every trailing slash.
pub fn trim_trailing_slashes(s: &str) -> (r: String)
    ensures
        r@ == slash_trimmed(s@),
{
    proof {
        lemma_trailing_slashes(s@);
    }
    let n = s.unicode_len();
    let mut end: usize = n;
    while end > 0 && s.get_char(end - 1) == '/'
        invariant
            n == s@.len(),
            end <= n,
            forall|i: int| end <= i < n ==> s@[i] == '/',
            n - end <= trailing_slashes(s@),
        decreases end,
    {
        proof {
            lemma_trailing_slashes(s@);
        }
        end -= 1;
    }
    proof {
        lemma_trailing_slashes(s@);
        assert(n - end == trailing_slashes(s@));
    }
    s.substring_char(0, end).to_owned()
}

proof fn lemma_trailing_slashes(s: Seq<char>)
    ensures
        trailing_slashes(s) <= s.len(),
        forall|i: int| s.len() - trailing_slashes(s) <= i < s.len() ==> s[i] == '/',
        trailing_slashes(s) < s.len() ==> s[s.len() - trailing_slashes(s) - 1] != '/',
    decreases s.len(),
{
    if s.len() > 0 && s[s.len() - 1] == '/' {
        lemma_trailing_slashes(s.take(s.len() - 1));
        assert forall|i: int| s.len() - trailing_slashes(s) <= i < s.len()
            implies s[i] == '/' by {
            if i < s.len() - 1 {
                assert(s.take(s.len() - 1)[i] == '/');
            }
        }
    }
}

/// The versioned base URL of an endpoint: the endpoint itself when it
/// already ends in `/v1`, otherwise the endpoint without trailing slashes
/// with `/v1` appended.
pub open spec fn normalized_base_url(endpoint: Seq<char>) -> Seq<char> {
    if ends_with(endpoint, "/v1"@) {
        endpoint
    } else if ends_with(endpoint, "/v1/"@) {
        slash_trimmed(endpoint)
    } else {
        slash_trimmed(endpoint) + "/v1"@
    }
}

/// Normalize a provider endpoint to its versioned base URL.
pub fn normalize_base_url(endpoint: &str) -> (r: String)
    ensures
        r@ == normalized_base_url(endpoint@),
{
    if ends_with_exec(endpoint, "/v1") {
        endpoint.to_owned()
    } else if ends_with_exec(endpoint, "/v1/") {
        trim_trailing_slashes(endpoint)
    } else {
        let mut out = trim_trailing_slashes(endpoint);
        out.append("/v1");
        out
    }
}

/// The model-list URL of an endpoint: `models` after the endpoint, with a
/// joining slash unless the endpoint already ends in one.
pub open spec fn models_url_of(endpoint: Seq<char>) -> Seq<char> {
    if ends_with(endpoint, "/"@) {
        endpoint + "models"@
    } else {
        endpoint + "/models"@
    }
}

/// The model-list URL of an endpoint.
pub fn models_url(endpoint: &str) -> (r: String)
    ensures
        r@ == models_url_of(endpoint@),
{
    let mut out = endpoint.to_owned();
    if ends_with_exec(endpoint, "/") {
        out.append("models");
    } else {
        out.append("/models");
    }
    out
}

} // verus!
