//! Provider credentials and routing errors: how an extension's `apiKey`
//! is resolved against the environment, which credential variables count
//! as set, and what the router says when a model's provider cannot be
//! streamed.
//!
//! The environment is a snapshot of `(name, value)` pairs; where a name
//! occurs twice the first entry wins.
use vstd::prelude::*;

use crate::keybindings::env_value as env_lookup;
use crate::text::{
    chars_of, trim, trimmed, starts_with, ends_with, starts_with_lit, ends_with_lit, string_of,
    push_str, join_spec, join_strings, strs, equals_lit,
};

verus! {

/// Errors raised while resolving a provider for a model.
#[derive(Debug, Clone, PartialEq, Eq)]
pub enum ProviderError {
    /// The provider is known but none of its credential variables is set.
    MissingApiKey {
        /// Provider id from the model descriptor.
        provider: String,
        /// Comma-joined variables that would satisfy the provider, in
        /// priority order.
        vars: String,
    },
    /// The provider has no adapter in this build.
    UnsupportedProvider {
        /// Provider id from the model descriptor.
        provider: String,
        /// Model id.
        model: String,
    },
    /// An extension registered a provider for an API family this build
    /// cannot stream.
    UnsupportedApi {
        /// API family name.
        api: String,
    },
}

/// The message of each error.
pub open spec fn provider_error_text(e: ProviderError) -> Seq<char> {
    match e {
        ProviderError::MissingApiKey { provider, vars } => "provider `"@ + provider@
            + "` needs an API key: set one of "@ + vars@,
        ProviderError::UnsupportedProvider { provider, model } => "no streaming adapter for provider `"@
            + provider@ + "` (model `"@ + model@ + "`)"@,
        ProviderError::UnsupportedApi { api } => "no streaming adapter for api `"@ + api@ + "`"@,
    }
}

impl ProviderError {
    /// Process exit code for this error (sysexits `EX_CONFIG`).
    pub fn exit_code(&self) -> (r: u8)
        ensures
            r == 78,
    {
        78
    }

    /// The error's message.
    pub fn message(&self) -> (r: String)
        ensures
            r@ == provider_error_text(*self),
    {
        match self {
            ProviderError::MissingApiKey { provider, vars } => {
                let mut out = String::from_str("provider `");
                out.append(provider.as_str());
                push_str(&mut out, "` needs an API key: set one of ");
                out.append(vars.as_str());
                out
            },
            ProviderError::UnsupportedProvider { provider, model } => {
                let mut out = String::from_str("no streaming adapter for provider `");
                out.append(provider.as_str());
                push_str(&mut out, "` (model `");
                out.append(model.as_str());
                push_str(&mut out, "`)");
                out
            },
            ProviderError::UnsupportedApi { api } => {
                let mut out = String::from_str("no streaming adapter for api `");
                out.append(api.as_str());
                push_str(&mut out, "`");
                out
            },
        }
    }
}

/// What the router answers for a model whose provider has no registered
/// adapter, given that provider's credential variables.
pub fn require_error(provider: &str, model: &str, env_vars: &[String]) -> (r: ProviderError)
    ensures
        env_vars.len() > 0 ==> r is MissingApiKey && r->MissingApiKey_provider@ == provider@ && r->MissingApiKey_vars@ == join_spec(
            strs(env_vars@),
            ", "@,
        ),
        env_vars.len() == 0 ==> r is UnsupportedProvider && r->UnsupportedProvider_provider@
            == provider@ && r->UnsupportedProvider_model@ == model@,
{
    if env_vars.len() > 0 {
        ProviderError::MissingApiKey {
            provider: provider.to_string(),
            vars: join_strings(env_vars, ", "),
        }
    } else {
        ProviderError::UnsupportedProvider { provider: provider.to_string(), model: model.to_string() }
    }
}

/// The hint appended to a failure at dispatch time.
pub open spec fn hint_spec(provider: Seq<char>, vars: Seq<Seq<char>>) -> Seq<char> {
    if vars.len() == 0 {
        "no adapter registered for provider `"@ + provider + "`"@
    } else {
        "provider `"@ + provider + "` is not configured; set one of "@ + join_spec(vars, ", "@)
    }
}

/// Human-readable hint for a provider the router cannot dispatch to.
pub fn hint(provider: &str, env_vars: &[String]) -> (r: String)
    ensures
        r@ == hint_spec(provider@, strs(env_vars@)),
{
    if env_vars.len() == 0 {
        let mut out = String::from_str("no adapter registered for provider `");
        out.append(provider);
        push_str(&mut out, "`");
        out
    } else {
        let mut out = String::from_str("provider `");
        out.append(provider);
        push_str(&mut out, "` is not configured; set one of ");
        let joined = join_strings(env_vars, ", ");
        out.append(joined.as_str());
        out
    }
}

// ---------------------------------------------------------------------------
// Credential variables
// ---------------------------------------------------------------------------

/// The value of `name` in `env`, trimmed, when it is set to something
/// other than whitespace.
pub open spec fn set_value(env: Seq<(String, String)>, name: Seq<char>) -> Option<Seq<char>> {
    match env_lookup(env, name) {
        Some(v) => if trim(v).len() > 0 {
            Some(trim(v))
        } else {
            None
        },
        None => None,
    }
}

/// The first of `names` that is set, with its value.
pub open spec fn first_set_from(env: Seq<(String, String)>, names: Seq<Seq<char>>, i: int) -> Option<
    Seq<char>,
>
    decreases names.len() - i,
{
    if i < 0 || i >= names.len() {
        None
    } else {
        match set_value(env, names[i]) {
            Some(v) => Some(v),
            None => first_set_from(env, names, i + 1),
        }
    }
}

/// The value of `name` in `env`, trimmed, when set to something other than
/// whitespace.
fn lookup_set(env: &[(String, String)], name: &str) -> (r: Option<String>)
    ensures
        match r {
            Some(v) => set_value(env@, name@) == Some(v@),
            None => set_value(env@, name@) is None,
        },
{
    let mut i: usize = 0;
    assert(env@.skip(0) =~= env@);
    while i < env.len()
        invariant
            i <= env.len(),
            env_lookup(env@, name@) == env_lookup(env@.skip(i as int), name@),
        decreases env.len() - i,
    {
        assert(env@.skip(i as int).drop_first() =~= env@.skip(i + 1));
        assert(env@.skip(i as int)[0] == env@[i as int]);
        if equals_lit(&chars_of(env[i].0.as_str()), name) {
            let v = trimmed(env[i].1.as_str());
            if v.unicode_len() > 0 {
                return Some(v);
            } else {
                return None;
            }
        }
        i += 1;
    }
    None
}

/// The first credential variable of `names` that is set in `env`, trimmed.
pub fn env_value(env: &[(String, String)], names: &[String]) -> (r: Option<String>)
    ensures
        match r {
            Some(v) => first_set_from(env@, strs(names@), 0) == Some(v@),
            None => first_set_from(env@, strs(names@), 0) is None,
        },
{
    let mut i: usize = 0;
    while i < names.len()
        invariant
            i <= names.len(),
            first_set_from(env@, strs(names@), 0) == first_set_from(env@, strs(names@), i as int),
        decreases names.len() - i,
    {
        assert(strs(names@)[i as int] == names@[i as int]@);
        match lookup_set(env, names[i].as_str()) {
            Some(v) => {
                return Some(v);
            },
            None => {},
        }
        i += 1;
    }
    None
}

/// The `(name, value)` pairs of `names` that are set, in order.
pub open spec fn scoped_env_spec(env: Seq<(String, String)>, names: Seq<Seq<char>>) -> Seq<
    (Seq<char>, Seq<char>),
>
    decreases names.len(),
{
    if names.len() == 0 {
        Seq::empty()
    } else {
        let rest = scoped_env_spec(env, names.drop_last());
        match set_value(env, names.last()) {
            Some(v) => rest.push((names.last(), v)),
            None => rest,
        }
    }
}

/// The views of `(name, value)` pairs.
pub open spec fn pairs_view(v: Seq<(String, String)>) -> Seq<(Seq<char>, Seq<char>)> {
    v.map_values(|e: (String, String)| (e.0@, e.1@))
}

/// A provider's credential variables as the scoped environment handed to
/// credential resolution: the set ones, trimmed, in priority order.
pub fn scoped_provider_env(env: &[(String, String)], names: &[String]) -> (r: Vec<(String, String)>)
    ensures
        pairs_view(r@) == scoped_env_spec(env@, strs(names@)),
{
    let mut out: Vec<(String, String)> = Vec::new();
    let mut i: usize = 0;
    while i < names.len()
        invariant
            i <= names.len(),
            pairs_view(out@) == scoped_env_spec(env@, strs(names@).take(i as int)),
        decreases names.len() - i,
    {
        let ghost t = strs(names@).take(i + 1);
        assert(t.drop_last() =~= strs(names@).take(i as int));
        assert(t.last() == names@[i as int]@);
        match lookup_set(env, names[i].as_str()) {
            Some(v) => {
                let ghost before = out@;
                let n = names[i].clone();
                out.push((n, v));
                assert(pairs_view(out@) =~= pairs_view(before).push((names@[i as int]@, v@)));
            },
            None => {},
        }
        i += 1;
    }
    assert(strs(names@).take(names.len() as int) =~= strs(names@));
    out
}

// ---------------------------------------------------------------------------
// Extension `apiKey`
// ---------------------------------------------------------------------------

/// The refusal of a `!command` key.
pub open spec fn command_key_refusal() -> Seq<char> {
    "apiKey `!command` form is not supported: the extension host never executes a command to obtain a credential; use a literal or $VAR instead"@
}

/// The variable a `${VAR}` or `$VAR` key names, if it names one.
pub open spec fn key_variable(r: Seq<char>) -> Option<Seq<char>> {
    if starts_with(r, "${"@) && ends_with(r.subrange(2, r.len() as int), "}"@) {
        Some(r.subrange(2, r.len() - 1))
    } else if starts_with(r, "$"@) {
        Some(r.subrange(1, r.len() as int))
    } else {
        None
    }
}

/// What an extension's `apiKey` resolves to: no key (absent or blank), the
/// literal, or the value of the variable it names; a `!command`, an empty
/// variable name and an unset variable are errors.
pub open spec fn api_key_spec(raw: Option<Seq<char>>, env: Seq<(String, String)>) -> Result<
    Option<Seq<char>>,
    Seq<char>,
> {
    match raw {
        None => Ok(None),
        Some(raw) => {
            let r = trim(raw);
            if r.len() == 0 {
                Ok(None)
            } else if r[0] == '!' {
                Err(command_key_refusal())
            } else {
                match key_variable(r) {
                    None => Ok(Some(r)),
                    Some(var) => if var.len() == 0 {
                        Err("apiKey references an empty environment variable name"@)
                    } else {
                        match set_value(env, var) {
                            Some(v) => Ok(Some(v)),
                            None => Err("apiKey references unset environment variable `"@ + var
                                + "`"@),
                        }
                    },
                }
            }
        },
    }
}

/// The view of an optional string.
pub open spec fn str_opt(o: Option<&str>) -> Option<Seq<char>> {
    match o {
        Some(s) => Some(s@),
        None => None,
    }
}

/// Resolve the `apiKey` an extension handed to `registerProvider` against
/// `env`. `Ok(None)`: no key; `Err`: the reason the provider is skipped.
pub fn resolve_extension_api_key(raw: Option<&str>, env: &[(String, String)]) -> (r: Result<
    Option<String>,
    String,
>)
    ensures
        match r {
            Ok(Some(k)) => api_key_spec(str_opt(raw), env@) == Ok::<Option<Seq<char>>, Seq<char>>(
                Some(k@),
            ),
            Ok(None) => api_key_spec(str_opt(raw), env@) == Ok::<Option<Seq<char>>, Seq<char>>(None),
            Err(m) => api_key_spec(str_opt(raw), env@) == Err::<Option<Seq<char>>, Seq<char>>(m@),
        },
{
    let raw = match raw {
        None => {
            return Ok(None);
        },
        Some(raw) => raw,
    };
    let r = trimmed(raw);
    let v = chars_of(r.as_str());
    if v.len() == 0 {
        return Ok(None);
    }
    if v[0] == '!' {
        return Err(
            String::from_str(
                "apiKey `!command` form is not supported: the extension host never executes a command to obtain a credential; use a literal or $VAR instead",
            ),
        );
    }
    let var = if starts_with_lit(&v, "${") && v.len() >= 2 && ends_with_lit(
        &crate::text::sub_vec(&v, 2, v.len()),
        "}",
    ) {
        proof {
            reveal_strlit("}");
            reveal_strlit("${");
        }
        Some(string_of(&v, 2, v.len() - 1))
    } else if starts_with_lit(&v, "$") {
        proof {
            reveal_strlit("$");
            reveal_strlit("${");
            if starts_with(v@, "${"@) {
                assert(v@.len() >= 2);
            }
        }
        Some(string_of(&v, 1, v.len()))
    } else {
        proof {
            reveal_strlit("${");
            if starts_with(v@, "${"@) {
                assert(v@.len() >= 2);
            }
        }
        None
    };
    match var {
        None => Ok(Some(r)),
        Some(name) => {
            if name.unicode_len() == 0 {
                return Err(String::from_str("apiKey references an empty environment variable name"));
            }
            match lookup_set(env, name.as_str()) {
                Some(value) => Ok(Some(value)),
                None => {
                    let mut m = String::from_str("apiKey references unset environment variable `");
                    m.append(name.as_str());
                    push_str(&mut m, "`");
                    Err(m)
                },
            }
        },
    }
}

} // verus!
