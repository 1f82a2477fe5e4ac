//! The remote model: checking its settings, keeping its API key out of
//! every text that leaves the library, and the records made around a call.
use vstd::prelude::*;
use crate::account::{required_message, required_trimmed};
use crate::errors::{
    AiRemoteError, ApiError, is_invalid_request, same_ai_error, spec_ai_error_message,
};
use crate::model::{
    AiAnalysisInput, AiInsight, AiInsightPayload, AiSettings, AiSettingsView, MailMessage,
    copy_attachments, same_attachments, same_payload,
};
use crate::protocol::{join, join_strings};
use crate::text::{
    append_chars, chars_of, concat2, concat3, contains_seq, copy_opt_string, copy_string,
    copy_strings, is_blank, lemma_replace_all_removes, literal, replace_all, replace_chars,
    slice_range, string_from_chars, trim, trim_chars, trim_str, views,
};

verus! {

// ---------------------------------------------------------------------------
// Debug texts that hide the API key
// ---------------------------------------------------------------------------

/// Names what `format!("{:?}", s)` writes for a string slice `s`: the text in
/// double quotes, with the escapes of `str::escape_debug`.
pub uninterp spec fn debug_quoted(s: Seq<char>) -> Seq<char>;

/// Writes `s` as `format!("{:?}", s)` does; the contract only names the result.
#[verifier::external_body]
fn debug_str(s: &str) -> (r: String)
    ensures
        r@ == debug_quoted(s@),
{
    format!("{:?}", s)
}

/// `true` or `false`, as `bool` writes itself.
pub open spec fn bool_text(b: bool) -> Seq<char> {
    if b {
        "true"@
    } else {
        "false"@
    }
}

fn bool_str(b: bool) -> (r: &'static str)
    ensures
        r@ == bool_text(b),
{
    if b {
        "true"
    } else {
        "false"
    }
}

/// The debug text of the model settings, with `***` in place of the key.
pub open spec fn spec_settings_debug(s: AiSettings) -> Seq<char> {
    "AiSettings { id: "@ + debug_quoted(s.id@) + ", provider_name: "@ + debug_quoted(
        s.provider_name@,
    ) + ", base_url: "@ + debug_quoted(s.base_url@) + ", model: "@ + debug_quoted(s.model@)
        + ", api_key: \"***\", enabled: "@ + bool_text(s.enabled) + ", created_at: "@
        + debug_quoted(s.created_at@) + ", updated_at: "@ + debug_quoted(s.updated_at@) + " }"@
}

/// The debug text of a settings request, with `***` in place of a key.
pub open spec fn spec_request_debug(r: SaveAiSettingsRequestView) -> Seq<char> {
    "SaveAiSettingsRequest { provider_name: "@ + debug_quoted(r.provider_name)
        + ", base_url: "@ + debug_quoted(r.base_url) + ", model: "@ + debug_quoted(r.model)
        + ", api_key: "@ + (if r.has_api_key {
        "Some(\"***\")"@
    } else {
        "None"@
    }) + ", enabled: "@ + bool_text(r.enabled) + " }"@
}

/// What a settings request holds, the key only as present or not.
pub struct SaveAiSettingsRequestView {
    pub provider_name: Seq<char>,
    pub base_url: Seq<char>,
    pub model: Seq<char>,
    pub has_api_key: bool,
    pub enabled: bool,
}

/// The parts of a settings request that its debug text may show.
pub open spec fn request_shown_parts(r: crate::model::SaveAiSettingsRequest) -> SaveAiSettingsRequestView {
    SaveAiSettingsRequestView {
        provider_name: r.provider_name@,
        base_url: r.base_url@,
        model: r.model@,
        has_api_key: r.api_key is Some,
        enabled: r.enabled,
    }
}

impl AiSettings {
    /// The text `format!("{:?}", settings)` gives, with the key replaced by `***`.
    pub fn debug_text(&self) -> (r: String)
        ensures
            r@ == spec_settings_debug(*self),
    {
        let mut out = concat2("AiSettings { id: ", debug_str(self.id.as_str()).as_str());
        out.append(", provider_name: ");
        out.append(debug_str(self.provider_name.as_str()).as_str());
        out.append(", base_url: ");
        out.append(debug_str(self.base_url.as_str()).as_str());
        out.append(", model: ");
        out.append(debug_str(self.model.as_str()).as_str());
        out.append(", api_key: \"***\", enabled: ");
        out.append(bool_str(self.enabled));
        out.append(", created_at: ");
        out.append(debug_str(self.created_at.as_str()).as_str());
        out.append(", updated_at: ");
        out.append(debug_str(self.updated_at.as_str()).as_str());
        out.append(" }");
        out
    }
}

impl crate::model::SaveAiSettingsRequest {
    /// The text `format!("{:?}", request)` gives, with a key replaced by `***`.
    pub fn debug_text(&self) -> (r: String)
        ensures
            r@ == spec_request_debug(request_shown_parts(*self)),
    {
        let mut out = concat2(
            "SaveAiSettingsRequest { provider_name: ",
            debug_str(self.provider_name.as_str()).as_str(),
        );
        out.append(", base_url: ");
        out.append(debug_str(self.base_url.as_str()).as_str());
        out.append(", model: ");
        out.append(debug_str(self.model.as_str()).as_str());
        out.append(", api_key: ");
        match &self.api_key {
            Some(_) => out.append("Some(\"***\")"),
            None => out.append("None"),
        }
        out.append(", enabled: ");
        out.append(bool_str(self.enabled));
        out.append(" }");
        out
    }
}

/// The debug text of the model settings does not depend on the API key:
/// two settings that differ only in their keys print alike.
pub proof fn lemma_settings_debug_hides_key(a: AiSettings, b: AiSettings)
    requires
        a.id@ == b.id@,
        a.provider_name@ == b.provider_name@,
        a.base_url@ == b.base_url@,
        a.model@ == b.model@,
        a.enabled == b.enabled,
        a.created_at@ == b.created_at@,
        a.updated_at@ == b.updated_at@,
    ensures
        spec_settings_debug(a) == spec_settings_debug(b),
{
}

/// The debug text of a settings request does not depend on the API key it
/// carries, only on whether it carries one.
pub proof fn lemma_request_debug_hides_key(
    a: crate::model::SaveAiSettingsRequest,
    b: crate::model::SaveAiSettingsRequest,
)
    requires
        a.provider_name@ == b.provider_name@,
        a.base_url@ == b.base_url@,
        a.model@ == b.model@,
        a.api_key is Some == b.api_key is Some,
        a.enabled == b.enabled,
    ensures
        spec_request_debug(request_shown_parts(a)) == spec_request_debug(request_shown_parts(b)),
{
}

// ---------------------------------------------------------------------------
// Masking the key
// ---------------------------------------------------------------------------

/// What the user interface shows of an API key: `****` for a key of at most
/// eight characters, else its first three and last four around `...`.
pub open spec fn spec_mask_api_key(key: Seq<char>) -> Seq<char> {
    if key.len() <= 8 {
        "****"@
    } else {
        key.take(3) + "..."@ + key.skip(key.len() - 4)
    }
}

/// What the user interface shows of an API key.
pub fn mask_api_key(api_key: &str) -> (r: String)
    ensures
        r@ == spec_mask_api_key(api_key@),
{
    let chars = chars_of(api_key);
    if chars.len() <= 8 {
        return "****".to_owned();
    }
    let mut out = slice_range(chars.as_slice(), 0, 3);
    let dots = literal("...");
    append_chars(&mut out, dots.as_slice());
    let tail = slice_range(chars.as_slice(), chars.len() - 4, chars.len());
    append_chars(&mut out, tail.as_slice());
    proof {
        assert(chars@.subrange(0, 3) =~= api_key@.take(3));
        assert(chars@.subrange(chars@.len() - 4, chars@.len() as int) =~= api_key@.skip(
            api_key@.len() - 4,
        ));
    }
    string_from_chars(out.as_slice())
}

/// A key of at most eight characters cannot be read back from its mask:
/// all such keys mask alike.
pub proof fn lemma_short_keys_mask_alike(a: Seq<char>, b: Seq<char>)
    requires
        a.len() <= 8,
        b.len() <= 8,
    ensures
        spec_mask_api_key(a) == spec_mask_api_key(b),
{
}

/// A longer key shows only its first three and last four characters.
pub proof fn lemma_long_key_mask_shows_ends(a: Seq<char>, b: Seq<char>)
    requires
        a.len() > 8,
        b.len() > 8,
        a.take(3) == b.take(3),
        a.skip(a.len() - 4) == b.skip(b.len() - 4),
    ensures
        spec_mask_api_key(a) == spec_mask_api_key(b),
{
}

/// The settings as the user interface sees them: the key only as a mask.
pub fn ai_settings_view(settings: AiSettings) -> (r: AiSettingsView)
    ensures
        r.provider_name == settings.provider_name,
        r.base_url == settings.base_url,
        r.model == settings.model,
        r.enabled == settings.enabled,
        r.api_key_mask matches Some(m) && m@ == spec_mask_api_key(settings.api_key@),
{
    let mask = mask_api_key(settings.api_key.as_str());
    AiSettingsView {
        provider_name: settings.provider_name,
        base_url: settings.base_url,
        model: settings.model,
        enabled: settings.enabled,
        api_key_mask: Some(mask),
    }
}

// ---------------------------------------------------------------------------
// Checking the settings
// ---------------------------------------------------------------------------

/// Names what `reqwest::Url::parse` gives for a text: `None` where it fails,
/// else the URL's scheme and whether it has a host.
pub uninterp spec fn url_parts(s: Seq<char>) -> Option<(Seq<char>, bool)>;

/// Parses `s` with `reqwest::Url::parse` and keeps the scheme and whether a
/// host is present; the contract names that outcome and nothing more.
#[verifier::external_body]
fn parse_url_parts(s: &str) -> (r: Option<(String, bool)>)
    ensures
        match r {
            None => url_parts(s@) is None,
            Some((scheme, has_host)) => url_parts(s@) == Some((scheme@, has_host)),
        },
{
    match reqwest::Url::parse(s) {
        Ok(url) => Some((url.scheme().to_string(), url.host_str().is_some())),
        Err(_) => None,
    }
}

/// How the parts of a parsed base URL are judged: it must have parsed, use
/// `https`, and name a host.
pub open spec fn spec_base_url_verdict(parts: Option<(Seq<char>, bool)>) -> Result<(), Seq<char>> {
    match parts {
        None => Err("base_url must be a valid https URL"@),
        Some((scheme, has_host)) => if scheme != "https"@ {
            Err("base_url must use https"@)
        } else if !has_host {
            Err("base_url must include a host"@)
        } else {
            Ok(())
        },
    }
}

/// Judges the parts of a parsed base URL.
pub fn base_url_verdict(parts: Option<(String, bool)>) -> (r: Result<(), AiRemoteError>)
    ensures
        match spec_base_url_verdict(
            match parts {
                None => None,
                Some((s, h)) => Some((s@, h)),
            },
        ) {
            Ok(()) => r is Ok,
            Err(m) => r matches Err(AiRemoteError::InvalidSettings(x)) && x@ == m,
        },
{
    match parts {
        None => Err(AiRemoteError::InvalidSettings("base_url must be a valid https URL".to_owned())),
        Some((scheme, has_host)) => {
            let https = literal("https");
            let sc = chars_of(scheme.as_str());
            if !crate::text::chars_eq(sc.as_slice(), https.as_slice()) {
                Err(AiRemoteError::InvalidSettings("base_url must use https".to_owned()))
            } else if !has_host {
                Err(AiRemoteError::InvalidSettings("base_url must include a host".to_owned()))
            } else {
                Ok(())
            }
        },
    }
}

/// How a base URL is judged: trimmed, parsed, then checked.
pub open spec fn spec_base_url_check(base_url: Seq<char>) -> Result<(), Seq<char>> {
    spec_base_url_verdict(url_parts(trim(base_url)))
}

/// Checks that the model's base URL is an `https` URL with a host.
pub fn validate_remote_base_url(base_url: &str) -> (r: Result<(), AiRemoteError>)
    ensures
        match spec_base_url_check(base_url@) {
            Ok(()) => r is Ok,
            Err(m) => r matches Err(AiRemoteError::InvalidSettings(x)) && x@ == m,
        },
{
    let trimmed = trim_str(base_url);
    let parts = parse_url_parts(trimmed.as_str());
    base_url_verdict(parts)
}

/// The names of the settings fields that are blank, in a fixed order.
pub open spec fn missing_fields(s: AiSettings) -> Seq<Seq<char>> {
    (if trim(s.base_url@).len() == 0 {
        seq!["base_url"@]
    } else {
        Seq::empty()
    }) + (if trim(s.model@).len() == 0 {
        seq!["model"@]
    } else {
        Seq::empty()
    }) + (if trim(s.api_key@).len() == 0 {
        seq!["api_key"@]
    } else {
        Seq::empty()
    })
}

/// How settings are judged before a request: enabled, nothing missing, and
/// a good base URL.
pub open spec fn spec_settings_check(s: AiSettings) -> Result<(), AiRemoteErrorKind> {
    if !s.enabled {
        Err(AiRemoteErrorKind::Disabled)
    } else if missing_fields(s).len() > 0 {
        Err(AiRemoteErrorKind::InvalidSettings(join(missing_fields(s), ", "@)))
    } else {
        match spec_base_url_check(s.base_url@) {
            Ok(()) => Ok(()),
            Err(m) => Err(AiRemoteErrorKind::InvalidSettings(m)),
        }
    }
}

/// Settings are judged in order: disabled settings are refused as such;
/// then every blank field is named, in the order base URL, model, key,
/// joined by `, `; then the base URL must be an `https` URL with a host.
pub proof fn lemma_settings_check_order(s: AiSettings)
    ensures
        !s.enabled ==> spec_settings_check(s) == Err::<(), AiRemoteErrorKind>(AiRemoteErrorKind::Disabled),
        s.enabled && trim(s.base_url@).len() == 0 && trim(s.model@).len() == 0 && trim(s.api_key@).len()
            == 0 ==> spec_settings_check(s) == Err::<(), AiRemoteErrorKind>(
            AiRemoteErrorKind::InvalidSettings("base_url"@ + ", "@ + "model"@ + ", "@ + "api_key"@),
        ),
        s.enabled && trim(s.base_url@).len() > 0 && trim(s.model@).len() > 0 && trim(s.api_key@).len()
            == 0 ==> spec_settings_check(s) == Err::<(), AiRemoteErrorKind>(
            AiRemoteErrorKind::InvalidSettings("api_key"@),
        ),
        s.enabled && trim(s.base_url@).len() > 0 && trim(s.model@).len() == 0 && trim(s.api_key@).len()
            > 0 ==> spec_settings_check(s) == Err::<(), AiRemoteErrorKind>(
            AiRemoteErrorKind::InvalidSettings("model"@),
        ),
        s.enabled && trim(s.base_url@).len() > 0 && trim(s.model@).len() > 0 && trim(s.api_key@).len()
            > 0 ==> spec_settings_check(s) == match spec_base_url_check(s.base_url@) {
            Ok(()) => Ok::<(), AiRemoteErrorKind>(()),
            Err(m) => Err(AiRemoteErrorKind::InvalidSettings(m)),
        },
{
    let all = seq!["base_url"@, "model"@, "api_key"@];
    if s.enabled && trim(s.base_url@).len() == 0 && trim(s.model@).len() == 0 && trim(s.api_key@).len()
        == 0 {
        assert(missing_fields(s) =~= all);
        assert(all.drop_last() =~= seq!["base_url"@, "model"@]);
        assert(seq!["base_url"@, "model"@].drop_last() =~= seq!["base_url"@]);
        assert(join(all, ", "@) == join(seq!["base_url"@, "model"@], ", "@) + ", "@ + "api_key"@);
        assert(join(seq!["base_url"@], ", "@) == "base_url"@);
        assert(seq!["base_url"@, "model"@].last() == "model"@);
        assert(join(seq!["base_url"@, "model"@], ", "@) == "base_url"@ + ", "@ + "model"@);
    }
    if s.enabled && trim(s.base_url@).len() > 0 && trim(s.model@).len() > 0 && trim(s.api_key@).len()
        == 0 {
        assert(missing_fields(s) =~= seq!["api_key"@]);
    }
    if s.enabled && trim(s.base_url@).len() > 0 && trim(s.model@).len() == 0 && trim(s.api_key@).len()
        > 0 {
        assert(missing_fields(s) =~= seq!["model"@]);
    }
    if s.enabled && trim(s.base_url@).len() > 0 && trim(s.model@).len() > 0 && trim(s.api_key@).len()
        > 0 {
        assert(missing_fields(s) =~= Seq::<Seq<char>>::empty());
    }
}

/// A base URL passes only as `https` with a host: a URL that does not
/// parse, uses another scheme, or has no host is refused, each with its
/// own message.
pub proof fn lemma_base_url_verdicts(scheme: Seq<char>, has_host: bool)
    ensures
        spec_base_url_verdict(None) == Err::<(), Seq<char>>("base_url must be a valid https URL"@),
        scheme != "https"@ ==> spec_base_url_verdict(Some((scheme, has_host))) == Err::<(), Seq<char>>(
            "base_url must use https"@,
        ),
        scheme == "https"@ && !has_host ==> spec_base_url_verdict(Some((scheme, has_host))) == Err::<
            (),
            Seq<char>,
        >("base_url must include a host"@),
        scheme == "https"@ && has_host ==> spec_base_url_verdict(Some((scheme, has_host))) == Ok::<
            (),
            Seq<char>,
        >(()),
{
}

/// A remote model error as values of specification.
pub enum AiRemoteErrorKind {
    Disabled,
    InvalidSettings(Seq<char>),
}

/// Checks settings before a request is made.
pub fn validate_settings(settings: &AiSettings) -> (r: Result<(), AiRemoteError>)
    ensures
        match spec_settings_check(*settings) {
            Ok(()) => r is Ok,
            Err(AiRemoteErrorKind::Disabled) => r matches Err(AiRemoteError::Disabled),
            Err(AiRemoteErrorKind::InvalidSettings(m)) => r matches Err(
                AiRemoteError::InvalidSettings(x),
            ) && x@ == m,
        },
{
    if !settings.enabled {
        return Err(AiRemoteError::Disabled);
    }
    let mut missing: Vec<String> = Vec::new();
    let ghost want = missing_fields(*settings);
    if is_blank(settings.base_url.as_str()) {
        missing.push("base_url".to_owned());
    }
    if is_blank(settings.model.as_str()) {
        missing.push("model".to_owned());
    }
    if is_blank(settings.api_key.as_str()) {
        missing.push("api_key".to_owned());
    }
    assert(views(missing@) =~= want);
    if missing.len() == 0 {
        validate_remote_base_url(settings.base_url.as_str())
    } else {
        Err(AiRemoteError::InvalidSettings(join_strings(&missing, ", ")))
    }
}

// ---------------------------------------------------------------------------
// Keeping the key out of error texts
// ---------------------------------------------------------------------------

/// `message` with every occurrence of the trimmed key replaced by
/// `[REDACTED]`; unchanged when the trimmed key is empty.
pub open spec fn spec_redact(message: Seq<char>, key: Seq<char>) -> Seq<char> {
    if trim(key).len() == 0 {
        message
    } else {
        replace_all(message, trim(key), "[REDACTED]"@)
    }
}

/// No character of `key` appears in `[REDACTED]`.
pub open spec fn key_apart_from_marker(key: Seq<char>) -> bool {
    forall|j: int| 0 <= j < key.len() ==> !"[REDACTED]"@.contains(#[trigger] key[j])
}

/// `message` with the settings' API key replaced by `[REDACTED]`. Unless the
/// key shares a character with that marker, no copy of it is left.
pub fn redact_api_key(message: String, settings: &AiSettings) -> (r: String)
    ensures
        r@ == spec_redact(message@, settings.api_key@),
        trim(settings.api_key@).len() > 0 && key_apart_from_marker(trim(settings.api_key@))
            ==> !contains_seq(r@, trim(settings.api_key@)),
{
    let key = trim_chars(chars_of(settings.api_key.as_str()).as_slice());
    if key.len() == 0 {
        return message;
    }
    let marker = literal("[REDACTED]");
    let text = chars_of(message.as_str());
    let out = replace_chars(text.as_slice(), key.as_slice(), marker.as_slice());
    proof {
        reveal_strlit("[REDACTED]");
        if key_apart_from_marker(key@) {
            lemma_replace_all_removes(message@, key@, marker@);
        }
    }
    string_from_chars(out.as_slice())
}

/// The most characters of a provider's error body that are kept.
pub const ERROR_BODY_MAX_CHARS: usize = 512;

/// What follows an error body that was cut.
pub const TRUNCATED_ERROR_SUFFIX: &'static str = "... [truncated]";

/// An error body, redacted, and cut to its first 512 characters with
/// `... [truncated]` after them when it was longer.
pub open spec fn spec_sanitize_error_body(body: Seq<char>, key: Seq<char>) -> Seq<char> {
    let red = spec_redact(body, key);
    if red.len() > 512 {
        red.take(512) + "... [truncated]"@
    } else {
        red
    }
}

/// A provider's error body made fit to show.
pub fn sanitize_error_body(body: String, settings: &AiSettings) -> (r: String)
    ensures
        r@ == spec_sanitize_error_body(body@, settings.api_key@),
        r@.len() <= 527,
{
    let redacted = redact_api_key(body, settings);
    let chars = chars_of(redacted.as_str());
    proof {
        reveal_strlit("... [truncated]");
    }
    if chars.len() > ERROR_BODY_MAX_CHARS {
        let mut out = slice_range(chars.as_slice(), 0, ERROR_BODY_MAX_CHARS);
        let suffix = literal(TRUNCATED_ERROR_SUFFIX);
        append_chars(&mut out, suffix.as_slice());
        assert(chars@.subrange(0, 512) =~= redacted@.take(512));
        string_from_chars(out.as_slice())
    } else {
        redacted
    }
}

/// The error for a provider's answer with a failing status: the status
/// line and the sanitized body.
pub fn request_status_error(status: &str, body: String, settings: &AiSettings) -> (r: AiRemoteError)
    ensures
        r matches AiRemoteError::Request(m) && m@ == "status "@ + status@ + ": "@
            + spec_sanitize_error_body(body@, settings.api_key@),
{
    let sanitized = sanitize_error_body(body, settings);
    let mut m = concat3("status ", status, ": ");
    m.append(sanitized.as_str());
    AiRemoteError::Request(m)
}

/// What a provider's answer gives: its body, to be decoded, when the status
/// is a success; else the status error with the sanitized body.
pub fn response_body(succeeded: bool, status: &str, body: String, settings: &AiSettings) -> (r: Result<
    String,
    AiRemoteError,
>)
    ensures
        succeeded ==> r == Ok::<String, AiRemoteError>(body),
        !succeeded ==> (r matches Err(AiRemoteError::Request(m)) && m@ == "status "@ + status@ + ": "@
            + spec_sanitize_error_body(body@, settings.api_key@)),
{
    if succeeded {
        Ok(body)
    } else {
        Err(request_status_error(status, body, settings))
    }
}

/// The model's answer in a decoded completion: the text of its first choice,
/// which must be there.
pub fn first_choice_content(content: Option<String>) -> (r: Result<String, AiRemoteError>)
    ensures
        match content {
            Some(c) => r == Ok::<String, AiRemoteError>(c),
            None => r matches Err(AiRemoteError::Parse(m)) && m@
                == "missing choices[0].message.content"@,
        },
{
    match content {
        Some(c) => Ok(c),
        None => Err(AiRemoteError::Parse("missing choices[0].message.content".to_owned())),
    }
}

/// A failure of the request itself, its text redacted.
pub fn redacted_request_error(message: String, settings: &AiSettings) -> (r: AiRemoteError)
    ensures
        r matches AiRemoteError::Request(m) && m@ == spec_redact(message@, settings.api_key@),
{
    AiRemoteError::Request(redact_api_key(message, settings))
}

/// A failure to read the provider's answer, its text redacted.
pub fn redacted_parse_error(message: String, settings: &AiSettings) -> (r: AiRemoteError)
    ensures
        r matches AiRemoteError::Parse(m) && m@ == spec_redact(message@, settings.api_key@),
{
    AiRemoteError::Parse(redact_api_key(message, settings))
}

/// `s` without the `/` characters at its end.
pub open spec fn strip_trailing_slashes(s: Seq<char>) -> Seq<char>
    decreases s.len(),
{
    if s.len() > 0 && s.last() == '/' {
        strip_trailing_slashes(s.drop_last())
    } else {
        s
    }
}

/// The chat completions endpoint under a base URL.
pub fn chat_completions_url(base_url: &str) -> (r: String)
    ensures
        r@ == strip_trailing_slashes(base_url@) + "/chat/completions"@,
{
    let chars = chars_of(base_url);
    let mut end = chars.len();
    assert(chars@.take(end as int) =~= chars@);
    while end > 0 && chars[end - 1] == '/'
        invariant
            end <= chars@.len(),
            strip_trailing_slashes(chars@) == strip_trailing_slashes(chars@.take(end as int)),
        decreases end,
    {
        assert(chars@.take(end as int).drop_last() =~= chars@.take(end - 1));
        end = end - 1;
    }
    assert(chars@.take(end as int) =~= chars@.subrange(0, end as int));
    let mut out = slice_range(chars.as_slice(), 0, end);
    let tail = literal("/chat/completions");
    append_chars(&mut out, tail.as_slice());
    proof {
        assert(chars@.take(chars@.len() as int) =~= chars@);
    }
    string_from_chars(out.as_slice())
}

// ---------------------------------------------------------------------------
// The mock provider
// ---------------------------------------------------------------------------

/// A provider that answers with a configured payload or a configured error.
#[derive(Debug)]
pub struct MockAiProvider {
    payload: Option<AiInsightPayload>,
    error: Option<AiRemoteError>,
}

impl MockAiProvider {
    /// The payload this provider answers with, if any.
    pub closed spec fn configured_payload(&self) -> Option<AiInsightPayload> {
        self.payload
    }

    /// The error this provider answers with, if any.
    pub closed spec fn configured_error(&self) -> Option<AiRemoteError> {
        self.error
    }

    /// A provider that answers with `payload`.
    pub fn new(payload: AiInsightPayload) -> (r: MockAiProvider)
        ensures
            r.configured_payload() == Some(payload),
            r.configured_error() is None,
    {
        MockAiProvider { payload: Some(payload), error: None }
    }

    /// A provider that fails with `error`.
    pub fn error(error: AiRemoteError) -> (r: MockAiProvider)
        ensures
            r.configured_payload() is None,
            r.configured_error() == Some(error),
    {
        MockAiProvider { payload: None, error: Some(error) }
    }

    /// A provider whose requests fail with `message`.
    pub fn request_error(message: &str) -> (r: MockAiProvider)
        ensures
            r.configured_payload() is None,
            r.configured_error() matches Some(AiRemoteError::Request(m)) && m@ == message@,
    {
        Self::error(AiRemoteError::Request(message.to_owned()))
    }

    /// A copy of this provider.
    pub fn duplicate(&self) -> (r: MockAiProvider)
        ensures
            r.configured_payload() is Some == self.configured_payload() is Some,
            r.configured_payload() is Some ==> same_payload(
                self.configured_payload()->0,
                r.configured_payload()->0,
            ),
            r.configured_error() is Some == self.configured_error() is Some,
            r.configured_error() is Some ==> same_ai_error(
                self.configured_error()->0,
                r.configured_error()->0,
            ),
    {
        MockAiProvider {
            payload: match &self.payload {
                Some(p) => Some(p.duplicate()),
                None => None,
            },
            error: match &self.error {
                Some(e) => Some(e.duplicate()),
                None => None,
            },
        }
    }
}

/// A model that reads a message and answers with an analysis.
pub trait AiProvider {
    fn analyze_mail(&self, settings: &AiSettings, input: &AiAnalysisInput) -> Result<
        AiInsightPayload,
        AiRemoteError,
    >;
}

impl AiProvider for MockAiProvider {
    /// The answer for any settings and message: the configured error first,
    /// else the configured payload, else a request error.
    fn analyze_mail(&self, settings: &AiSettings, input: &AiAnalysisInput) -> (r: Result<
        AiInsightPayload,
        AiRemoteError,
    >)
        ensures
            match self.configured_error() {
                Some(e) => r matches Err(x) && same_ai_error(e, x),
                None => match self.configured_payload() {
                    Some(p) => r matches Ok(x) && same_payload(p, x),
                    None => r matches Err(AiRemoteError::Request(m)) && m@
                        == "mock provider has no configured payload"@,
                },
            },
    {
        if let Some(error) = &self.error {
            return Err(error.duplicate());
        }
        match &self.payload {
            Some(p) => Ok(p.duplicate()),
            None => Err(AiRemoteError::Request("mock provider has no configured payload".to_owned())),
        }
    }
}

// ---------------------------------------------------------------------------
// Saving settings and running an analysis
// ---------------------------------------------------------------------------

/// How a request to save settings is judged, in order: provider name, base
/// URL present, base URL good (its error shown as the remote model error's
/// text), model, and a key from the request or from the settings stored.
pub open spec fn spec_save_settings_check(
    request: crate::model::SaveAiSettingsRequest,
    existing: Option<AiSettings>,
) -> Result<(), Seq<char>> {
    if trim(request.provider_name@).len() == 0 {
        Err(required_message("provider_name"@))
    } else if trim(request.base_url@).len() == 0 {
        Err(required_message("base_url"@))
    } else if let Err(m) = spec_base_url_check(trim(request.base_url@)) {
        Err("ai settings are incomplete: "@ + m)
    } else if trim(request.model@).len() == 0 {
        Err(required_message("model"@))
    } else {
        match request.api_key {
            Some(k) => if trim(k@).len() == 0 {
                Err(required_message("api_key"@))
            } else {
                Ok(())
            },
            None => if existing is None {
                Err(required_message("api_key"@))
            } else {
                Ok(())
            },
        }
    }
}

/// The settings to store for a checked request: the fields trimmed, the key
/// from the request or else the stored one, the creation time kept from the
/// stored settings or else `now`.
pub fn ai_settings_from_request(
    request: crate::model::SaveAiSettingsRequest,
    existing: Option<AiSettings>,
    now: String,
) -> (r: Result<AiSettings, ApiError>)
    ensures
        match spec_save_settings_check(request, existing) {
            Err(m) => r matches Err(e) && is_invalid_request(e, m),
            Ok(()) => r matches Ok(s) && {
                &&& s.id@ == "default"@
                &&& s.provider_name@ == trim(request.provider_name@)
                &&& s.base_url@ == trim(request.base_url@)
                &&& s.model@ == trim(request.model@)
                &&& s.api_key@ == match request.api_key {
                    Some(k) => trim(k@),
                    None => existing->0.api_key@,
                }
                &&& s.enabled == request.enabled
                &&& s.created_at@ == match existing {
                    Some(e) => e.created_at@,
                    None => now@,
                }
                &&& s.updated_at@ == now@
            },
        },
{
    let provider_name = required_trimmed(request.provider_name, "provider_name")?;
    let base_url = required_trimmed(request.base_url, "base_url")?;
    match validate_remote_base_url(base_url.as_str()) {
        Ok(()) => {},
        Err(error) => {
            return Err(ApiError::InvalidRequest(error.message()));
        },
    }
    let model = required_trimmed(request.model, "model")?;
    let api_key = match request.api_key {
        Some(k) => required_trimmed(k, "api_key")?,
        None => match &existing {
            Some(e) => copy_string(&e.api_key),
            None => {
                return Err(ApiError::InvalidRequest(concat2("api_key", " is required")));
            },
        },
    };
    let created_at = match &existing {
        Some(e) => copy_string(&e.created_at),
        None => copy_string(&now),
    };
    Ok(AiSettings {
        id: "default".to_owned(),
        provider_name,
        base_url,
        model,
        api_key,
        enabled: request.enabled,
        created_at,
        updated_at: now,
    })
}

/// The settings an analysis runs with: they must be stored and enabled.
pub fn settings_for_analysis(settings: Option<AiSettings>) -> (r: Result<AiSettings, ApiError>)
    ensures
        match settings {
            None => r matches Err(e) && is_invalid_request(e, "ai settings are required"@),
            Some(s) => if s.enabled {
                r == Ok::<AiSettings, ApiError>(s)
            } else {
                r matches Err(ApiError::AiRemote(AiRemoteError::Disabled))
            },
        },
{
    match settings {
        None => Err(ApiError::InvalidRequest("ai settings are required".to_owned())),
        Some(s) => if s.enabled {
            Ok(s)
        } else {
            Err(ApiError::AiRemote(AiRemoteError::Disabled))
        },
    }
}

/// What is sent to the model about a stored message.
pub fn ai_analysis_input(message: &MailMessage) -> (r: AiAnalysisInput)
    ensures
        r.message_id@ == message.id@,
        r.subject@ == message.subject@,
        r.sender@ == message.sender@,
        views(r.recipients@) == views(message.recipients@),
        views(r.cc@) == views(message.cc@),
        r.received_at@ == message.received_at@,
        r.body_preview@ == message.body_preview@,
        r.body is Some == message.body is Some,
        r.body is Some ==> r.body->0@ == message.body->0@,
        same_attachments(message.attachments@, r.attachments@),
{
    AiAnalysisInput {
        message_id: copy_string(&message.id),
        subject: copy_string(&message.subject),
        sender: copy_string(&message.sender),
        recipients: copy_strings(&message.recipients),
        cc: copy_strings(&message.cc),
        received_at: copy_string(&message.received_at),
        body_preview: copy_string(&message.body_preview),
        body: copy_opt_string(&message.body),
        attachments: copy_attachments(&message.attachments),
    }
}

/// The stored analysis made from a model's answer. The raw JSON is the
/// answer's own, or `serialized` (the answer written as JSON) when the
/// answer has none.
pub fn insight_from_payload(
    id: String,
    message_id: String,
    settings: AiSettings,
    payload: AiInsightPayload,
    serialized: String,
    now: String,
) -> (r: AiInsight)
    ensures
        r.id == id,
        r.message_id == message_id,
        r.provider_name == settings.provider_name,
        r.model == settings.model,
        r.summary == payload.summary,
        r.category == payload.category,
        r.priority == payload.priority,
        r.todos == payload.todos,
        r.reply_draft == payload.reply_draft,
        r.raw_json == if payload.raw_json@.len() == 0 {
            serialized
        } else {
            payload.raw_json
        },
        r.created_at == now,
{
    let raw_json = if payload.raw_json.as_str().is_empty() {
        serialized
    } else {
        payload.raw_json
    };
    AiInsight {
        id,
        message_id,
        provider_name: settings.provider_name,
        model: settings.model,
        summary: payload.summary,
        category: payload.category,
        priority: payload.priority,
        todos: payload.todos,
        reply_draft: payload.reply_draft,
        raw_json,
        created_at: now,
    }
}

} // verus!
