//! Gateway settings: reading them from the configuration and the environment file,
//! and writing them there. The key goes into the environment file alone.

use vstd::prelude::*;
use crate::config_file::{
    merge_config, merged_config, provider_base_url, provider_url, top_level_value, top_value,
    ENV_KEY,
};
use crate::config_laws::{
    breaks_stay, law_config_keeps_unrelated, law_config_reads_back, one_line, plain, unpadded,
    unrelated,
};
use crate::env_file::{
    env_breaks_stay, env_value, first_value, law_env_keeps_others, law_env_reads_back,
    law_stored_key_stays, lemma_value_on_one_line, merge_env, merged_env, others, settled,
    unexported,
};
use crate::lines::{lemma_lines_unbroken, lemma_newlines, lines_of, newline_of, views};
use crate::sorted::{ascending, insert_text};
use crate::text::{
    begins_with, char_is_control, char_is_white, chars_of, contains_text, copy_of, find, is_control,
    is_white, lemma_strip_nothing, lemma_trim_plain, occurs_at, only, same, str_eq, string_of, text_of,
    trim, trimmed, white,
};
use crate::errors::{internal, said, said_around, AppError, ErrorView};
use crate::url_policy::{bare_url, is_bare_https, url_parts, url_without_query, UrlParts, UrlView};

verus! {

/// Where the gateway is unless the configuration says otherwise.
pub const DEFAULT_BASE_URL: &'static str = "https://aiapi.yxrobot.com/v1";

/// The gateway as it is set now.
#[derive(Debug, Clone, PartialEq, Eq)]
pub struct CodexGatewayStatus {
    pub base_url: String,
    pub model: String,
    pub api_key_set: bool,
    pub codex_running: bool,
}

/// The gateway as the user wants it.
#[derive(Debug, Clone)]
pub struct CodexGatewayInput {
    pub base_url: String,
    pub model: String,
    /// Empty keeps the key already stored on this computer.
    pub api_key: String,
}

/// What a listing of models needs.
#[derive(Debug, Clone)]
pub struct ListModelsInput {
    pub base_url: String,
    /// Empty uses the key already stored on this computer.
    pub api_key: String,
}

/// Why gateway settings were refused.
#[derive(Debug)]
pub struct GatewayError(pub String);

impl GatewayError {
    /// The words of the error.
    pub fn text(&self) -> (r: String)
        ensures
            r@ == self.0@,
    {
        text_of(self.0.as_str())
    }
}

/// The two files of an accepted change.
#[derive(Debug)]
pub struct GatewayFiles {
    pub config: String,
    pub env: String,
}

/// A result as texts.
pub open spec fn text_result(r: Result<String, GatewayError>) -> Result<Seq<char>, Seq<char>> {
    match r {
        Ok(t) => Ok(t@),
        Err(e) => Err(e.0@),
    }
}

fn refused(words: &str) -> (r: GatewayError)
    ensures
        r.0@ == words@,
{
    GatewayError(text_of(words))
}

// ---------------------------------------------------------------------------
// Reading
// ---------------------------------------------------------------------------

/// The base URL in effect under a configuration.
pub open spec fn base_url_in(config: Seq<char>) -> Seq<char> {
    match provider_url(lines_of(config)) {
        Some(url) => url,
        None => DEFAULT_BASE_URL@,
    }
}

/// The model in effect under a configuration, empty where none is named.
pub open spec fn model_in(config: Seq<char>) -> Seq<char> {
    match top_value(lines_of(config), "model"@) {
        Some(model) => model,
        None => Seq::empty(),
    }
}

/// The key that an environment file holds.
pub open spec fn stored_key(env: Seq<char>) -> Option<Seq<char>> {
    first_value(lines_of(env), ENV_KEY@)
}

/// The gateway as the two files say. The key itself is not given away.
pub fn read_gateway(config: &str, env: &str) -> (r: CodexGatewayStatus)
    ensures
        r.base_url@ == base_url_in(config@),
        r.model@ == model_in(config@),
        r.api_key_set == (stored_key(env@) is Some),
        !r.codex_running,
{
    let config_chars = chars_of(config);
    let env_chars = chars_of(env);
    let base_url = match provider_base_url(config_chars.as_slice()) {
        Some(url) => string_of(url.as_slice()),
        None => text_of(DEFAULT_BASE_URL),
    };
    let model = match top_level_value(config_chars.as_slice(), "model") {
        Some(model) => string_of(model.as_slice()),
        None => String::new(),
    };
    let api_key_set = env_value(env_chars.as_slice(), ENV_KEY).is_some();
    CodexGatewayStatus { base_url, model, api_key_set, codex_running: false }
}

// ---------------------------------------------------------------------------
// Checking what the user gave
// ---------------------------------------------------------------------------

/// A character that cannot stand in a model name or a key.
pub open spec fn odd(c: char) -> bool {
    is_control(c) || is_white(c) || c == '"' || c == '\\' || c == '#' || c == '\''
}

/// Whether a text holds such a character.
pub open spec fn has_odd(s: Seq<char>) -> bool {
    exists|i: int| 0 <= i < s.len() && odd(#[trigger] s[i])
}

/// Whether a text holds a space or a control character.
pub open spec fn has_space(s: Seq<char>) -> bool {
    exists|i: int| 0 <= i < s.len() && (is_control(#[trigger] s[i]) || is_white(s[i]))
}

fn holds_odd(s: &[char]) -> (r: bool)
    ensures
        r == has_odd(s@),
{
    let mut i: usize = 0;
    while i < s.len()
        invariant
            i <= s@.len(),
            forall|j: int| 0 <= j < i ==> !odd(#[trigger] s@[j]),
        decreases s@.len() - i,
    {
        let c = s[i];
        if char_is_control(c) || char_is_white(c) || c == '"' || c == '\\' || c == '#' || c
            == '\'' {
            assert(odd(s@[i as int]));
            return true;
        }
        i += 1;
    }
    false
}

fn holds_space(s: &[char]) -> (r: bool)
    ensures
        r == has_space(s@),
{
    let mut i: usize = 0;
    while i < s.len()
        invariant
            i <= s@.len(),
            forall|j: int| 0 <= j < i ==> !is_control(#[trigger] s@[j]) && !is_white(s@[j]),
        decreases s@.len() - i,
    {
        let c = s[i];
        if char_is_control(c) || char_is_white(c) {
            assert(is_control(s@[i as int]) || is_white(s@[i as int]));
            return true;
        }
        i += 1;
    }
    false
}

fn is_blank(s: &str) -> (r: bool)
    ensures
        r == (trimmed(s@).len() == 0),
{
    let all = chars_of(s);
    trim(all.as_slice()).len() == 0
}

/// The model that a text names, or why it names none.
pub open spec fn model_verdict(raw: Seq<char>) -> Result<Seq<char>, Seq<char>> {
    let model = trimmed(raw);
    if model.len() == 0 {
        Err("请填写默认模型"@)
    } else if model.len() > 200 || has_odd(model) {
        Err("模型名只能包含普通字符，不能有空格或引号"@)
    } else {
        Ok(model)
    }
}

/// The key that a text holds, or why it cannot be one.
pub open spec fn key_verdict(raw: Seq<char>) -> Result<Seq<char>, Seq<char>> {
    if raw.len() > 512 || has_odd(raw) {
        Err("API Key 格式不正确"@)
    } else {
        Ok(raw)
    }
}

/// The key to use: the given one, or the stored one where none is given.
pub open spec fn resolved_key(env: Seq<char>, raw: Seq<char>) -> Result<Seq<char>, Seq<char>> {
    if trimmed(raw).len() == 0 {
        match stored_key(env) {
            Some(key) => Ok(key),
            None => Err("请填写 API Key"@),
        }
    } else {
        key_verdict(trimmed(raw))
    }
}

/// `text` without a slash at its end.
pub open spec fn without_slash(text: Seq<char>) -> Seq<char> {
    if text.len() > 0 && text.last() == '/' {
        text.drop_last()
    } else {
        text
    }
}

/// An HTTPS URL keeps its shape without a slash at its end.
proof fn lemma_bare_without_slash(bare: Seq<char>)
    requires
        is_bare_https(bare),
        bare.len() > "https://"@.len(),
    ensures
        is_bare_https(without_slash(bare)),
{
    let r = without_slash(bare);
    let n = "https://"@.len() as int;
    assert(r.subrange(0, n) =~= bare.subrange(0, n));
    assert forall|i: int| 0 <= i < r.len() implies #[trigger] r[i] != '?' && r[i] != '#' && r[i]
        != '\\' && 0x21 <= r[i] as u32 <= 0x7e by {
        assert(r[i] == bare[i]);
    }
}

/// The base URL that a parsed URL gives, or why it gives none.
pub open spec fn parsed_verdict(
    parsed: Option<UrlView>,
    bare: Seq<char>,
) -> Result<Seq<char>, Seq<char>> {
    match parsed {
        None => Err("网关地址无法识别，请以 https:// 开头"@),
        Some(url) => if url.scheme != "https"@ {
            Err("网关地址必须是 https:// 链接"@)
        } else if url.username.len() > 0 || url.password is Some {
            Err("网关地址不能包含账号或密码"@)
        } else if url.host is None {
            Err("网关地址缺少主机名"@)
        } else {
            Ok(without_slash(bare))
        },
    }
}

/// The base URL that a text gives, or why it gives none. `parsed` and `bare` are
/// what URL parsing makes of the text without the white space around it.
pub open spec fn base_url_verdict(
    raw: Seq<char>,
    parsed: Option<UrlView>,
    bare: Seq<char>,
) -> Result<Seq<char>, Seq<char>> {
    let t = trimmed(raw);
    if t.len() == 0 {
        Err("请填写网关地址"@)
    } else if has_space(t) {
        Err("网关地址不能包含空格"@)
    } else {
        parsed_verdict(parsed, bare)
    }
}

/// The base URL that a text gives, as URL parsing reads it.
pub open spec fn base_url_of(raw: Seq<char>) -> Result<Seq<char>, Seq<char>> {
    base_url_verdict(raw, url_parts(trimmed(raw)), match bare_url(trimmed(raw)) {
        Some(text) => text,
        None => Seq::empty(),
    })
}

/// The base URL that a parsed URL gives, where `bare` is its serialization without
/// query and fragment.
pub fn judge_base_url(parsed: &Option<UrlParts>, bare: &str) -> (r: Result<String, GatewayError>)
    ensures
        text_result(r) == parsed_verdict(
            match *parsed {
                Some(p) => Some(p@),
                None => None,
            },
            bare@,
        ),
{
    match parsed {
        None => Err(refused("网关地址无法识别，请以 https:// 开头")),
        Some(url) => {
            if !str_eq(url.scheme.as_str(), "https") {
                return Err(refused("网关地址必须是 https:// 链接"));
            }
            let name = chars_of(url.username.as_str());
            if name.len() > 0 || url.password.is_some() {
                return Err(refused("网关地址不能包含账号或密码"));
            }
            if url.host.is_none() {
                return Err(refused("网关地址缺少主机名"));
            }
            let text = chars_of(bare);
            let n: usize = text.len();
            if n > 0 && text[n - 1] == '/' {
                let kept = &text.as_slice()[0..n - 1];
                assert(kept@ == bare@.drop_last());
                return Ok(string_of(kept));
            }
            Ok(string_of(text.as_slice()))
        },
    }
}

/// The base URL in a text: an HTTPS URL with a host and without user information,
/// without its query and fragment and without a slash at its end.
pub fn validate_base_url(raw: &str) -> (r: Result<String, GatewayError>)
    ensures
        text_result(r) == base_url_of(raw@),
        r is Ok ==> is_bare_https(r->Ok_0@),
{
    let all = chars_of(raw);
    let t = trim(all.as_slice());
    if t.len() == 0 {
        return Err(refused("请填写网关地址"));
    }
    if holds_space(t) {
        return Err(refused("网关地址不能包含空格"));
    }
    let text = string_of(t);
    let parsed = UrlParts::parse(text.as_str());
    let bare = match url_without_query(text.as_str()) {
        Some(bare) => bare,
        None => String::new(),
    };
    proof {
        if is_bare_https(bare@) && bare@.len() > "https://"@.len() {
            lemma_bare_without_slash(bare@);
        }
    }
    judge_base_url(&parsed, bare.as_str())
}

/// The model that a text names.
pub fn validate_model(raw: &str) -> (r: Result<String, GatewayError>)
    ensures
        text_result(r) == model_verdict(raw@),
{
    let all = chars_of(raw);
    let model = trim(all.as_slice());
    if model.len() == 0 {
        return Err(refused("请填写默认模型"));
    }
    if model.len() > 200 || holds_odd(model) {
        return Err(refused("模型名只能包含普通字符，不能有空格或引号"));
    }
    Ok(string_of(model))
}

/// The key that a text holds.
pub fn validate_api_key(raw: &str) -> (r: Result<String, GatewayError>)
    ensures
        text_result(r) == key_verdict(raw@),
{
    let all = chars_of(raw);
    if all.len() > 512 || holds_odd(all.as_slice()) {
        return Err(refused("API Key 格式不正确"));
    }
    Ok(string_of(all.as_slice()))
}

/// The key to use: the given one, or the stored one where none is given.
pub fn resolve_gateway_key(env: &str, raw: &str) -> (r: Result<String, GatewayError>)
    ensures
        text_result(r) == resolved_key(env@, raw@),
        r is Ok ==> r->Ok_0@.len() > 0,
{
    let all = chars_of(raw);
    let t = trim(all.as_slice());
    if t.len() == 0 {
        let env_chars = chars_of(env);
        return match env_value(env_chars.as_slice(), ENV_KEY) {
            Some(key) => Ok(string_of(key.as_slice())),
            None => Err(refused("请填写 API Key")),
        };
    }
    let text = string_of(t);
    validate_api_key(text.as_str())
}

// ---------------------------------------------------------------------------
// Writing
// ---------------------------------------------------------------------------

/// The environment file after a change, where `raw` is the key as it was given and `key`
/// the one to use. Without a given key the stored one stays: a file that would give
/// another key once it is written anew is left as it is.
pub open spec fn next_env(env: Seq<char>, raw: Seq<char>, key: Seq<char>) -> Seq<char> {
    if trimmed(raw).len() == 0 && stored_key(merged_env(env, key)) != Some(key) {
        env
    } else {
        merged_env(env, key)
    }
}

/// The two files after a change, or why it is refused: the address, the model and
/// the key are checked in this order, and a key that would stand in the
/// configuration is refused. `raw` is the key as it was given.
pub open spec fn applied(
    base_url: Result<Seq<char>, Seq<char>>,
    model: Result<Seq<char>, Seq<char>>,
    raw: Seq<char>,
    config: Seq<char>,
    env: Seq<char>,
) -> Result<(Seq<char>, Seq<char>), Seq<char>> {
    match (base_url, model, resolved_key(env, raw)) {
        (Err(e), _, _) => Err(e),
        (_, Err(e), _) => Err(e),
        (_, _, Err(e)) => Err(e),
        (Ok(u), Ok(m), Ok(k)) => {
            let next = merged_config(config, m, u);
            if contains_text(next, k) {
                Err("API Key 不能写入配置文件"@)
            } else {
                Ok((next, next_env(env, raw, k)))
            }
        },
    }
}

/// A key that was checked is one that reading leaves as it is.
proof fn lemma_checked_key(key: Seq<char>)
    requires
        key.len() > 0,
        !has_odd(key),
    ensures
        settled(key),
        forall|i: int| 0 <= i < key.len() ==> #[trigger] key[i] != '\n',
{
    assert forall|i: int| 0 <= i < key.len() implies !is_white(#[trigger] key[i]) && key[i] != '"'
        && key[i] != '\'' && key[i] != '\n' by {
        assert(!odd(key[i]));
    }
    lemma_trim_plain(key);
    reveal_strlit("export ");
    if begins_with(key, "export "@) {
        assert(key.subrange(0, 7)[6] == ' ');
        assert(key[6] == ' ');
        assert(is_white(key[6]));
    }
    assert(unexported(key) == key);
    assert(key[0] != '"' && key.last() != '"' && key[0] != '\'' && key.last() != '\'');
    lemma_strip_nothing(key, only('"'));
    lemma_strip_nothing(key, only('\''));
}

/// Text without odd characters can stand between quotes on one line.
proof fn lemma_checked_model(model: Seq<char>)
    requires
        !has_odd(model),
    ensures
        plain(model),
        one_line(model),
{
    assert forall|i: int| 0 <= i < model.len() implies #[trigger] model[i] != '"' && model[i]
        != '\\' && model[i] != '\n' && model[i] != '\r' by {
        assert(!odd(model[i]));
    }
}

/// A checked address stands on one line, and between quotes unless it holds one.
proof fn lemma_checked_url(url: Seq<char>)
    requires
        is_bare_https(url),
    ensures
        one_line(url),
        !url.contains('"') ==> plain(url),
{
    assert('\n' as u32 == 10 && '\r' as u32 == 13);
    assert forall|i: int| 0 <= i < url.len() implies #[trigger] url[i] != '\\' && url[i] != '\n'
        && url[i] != '\r' && (!url.contains('"') ==> url[i] != '"') by {
        assert(url.contains(url[i]));
    }
}

/// A key to use does not hold the line break of the file.
proof fn lemma_key_unbroken(env: Seq<char>, raw: Seq<char>)
    requires
        resolved_key(env, raw) is Ok,
    ensures
        !contains_text(resolved_key(env, raw)->Ok_0, newline_of(env)),
{
    let newline = newline_of(env);
    if trimmed(raw).len() > 0 {
        let key = trimmed(raw);
        lemma_checked_key(key);
        lemma_newlines();
        assert forall|i: int| !occurs_at(key, newline, i) by {
            if occurs_at(key, newline, i) {
                assert(key.subrange(i, i + newline.len()).last() == '\n');
                assert(key[i + newline.len() - 1] == '\n');
            }
        }
    } else {
        lemma_lines_unbroken(env);
        lemma_value_on_one_line(lines_of(env), newline, ENV_KEY@);
    }
}

/// The model that was written is read back, and so is the address unless it holds a
/// double quote.
pub proof fn law_written_config_reads_back(config: Seq<char>, model: Seq<char>, url: Seq<char>)
    requires
        breaks_stay(config, model, url),
        !has_odd(model),
        is_bare_https(url),
    ensures
        model_in(merged_config(config, model, url)) == model,
        !url.contains('"') ==> base_url_in(merged_config(config, model, url)) == url,
{
    lemma_checked_model(model);
    lemma_checked_url(url);
    law_config_reads_back(config, model, url);
}

/// The key to use is read back after a change: a given one that was written, and the
/// stored one where none was given, however it stands in the file.
pub proof fn law_written_key_reads_back(env: Seq<char>, raw: Seq<char>)
    requires
        resolved_key(env, raw) is Ok,
        trimmed(raw).len() > 0 ==> env_breaks_stay(env, resolved_key(env, raw)->Ok_0),
    ensures
        stored_key(next_env(env, raw, resolved_key(env, raw)->Ok_0)) == Some(
            resolved_key(env, raw)->Ok_0,
        ),
{
    if trimmed(raw).len() > 0 {
        lemma_checked_key(trimmed(raw));
        lemma_key_unbroken(env, raw);
        law_env_reads_back(env, trimmed(raw));
    }
}

/// The file is written anew where its key is one that reading does not change.
pub proof fn law_settled_key_is_written(env: Seq<char>, raw: Seq<char>)
    requires
        trimmed(raw).len() == 0,
        stored_key(env) is Some,
        settled(stored_key(env)->0),
        env_breaks_stay(env, stored_key(env)->0),
    ensures
        next_env(env, raw, stored_key(env)->0) == merged_env(env, stored_key(env)->0),
{
    law_stored_key_stays(env);
}

/// A change keeps every other line of the environment file and their order. Only empty
/// lines at the end may come or go.
pub proof fn law_other_variables_stay(env: Seq<char>, raw: Seq<char>)
    requires
        resolved_key(env, raw) is Ok,
        env_breaks_stay(env, resolved_key(env, raw)->Ok_0),
    ensures
        unpadded(
            others(lines_of(next_env(env, raw, resolved_key(env, raw)->Ok_0)), ENV_KEY@),
        ) == unpadded(others(lines_of(env), ENV_KEY@)),
{
    lemma_key_unbroken(env, raw);
    law_env_keeps_others(env, resolved_key(env, raw)->Ok_0);
}

/// The two files that hold the wanted settings.
///
/// What was written is read back: the model from the configuration, the address too
/// unless its host holds a double quote, and a given key from the environment file. An
/// empty key keeps the stored one. Every line of the two files that the settings are not
/// about stays. A lone carriage return at the end of a line, which the line feed after it
/// would join, is the exception to this, but not where the stored key is kept. The key is
/// nowhere in the configuration.
pub fn apply_gateway(input: &CodexGatewayInput, config: &str, env: &str) -> (r: Result<
    GatewayFiles,
    GatewayError,
>)
    ensures
        match r {
            Ok(files) => applied(
                base_url_of(input.base_url@),
                model_verdict(input.model@),
                input.api_key@,
                config@,
                env@,
            ) == Ok::<(Seq<char>, Seq<char>), Seq<char>>((files.config@, files.env@)),
            Err(e) => applied(
                base_url_of(input.base_url@),
                model_verdict(input.model@),
                input.api_key@,
                config@,
                env@,
            ) == Err::<(Seq<char>, Seq<char>), Seq<char>>(e.0@),
        },
        r is Ok ==> !contains_text(r->Ok_0.config@, resolved_key(env@, input.api_key@)->Ok_0),
        r is Ok && breaks_stay(
            config@,
            model_verdict(input.model@)->Ok_0,
            base_url_of(input.base_url@)->Ok_0,
        ) ==> {
            &&& model_in(r->Ok_0.config@) == model_verdict(input.model@)->Ok_0
            &&& !base_url_of(input.base_url@)->Ok_0.contains('"') ==> base_url_in(
                r->Ok_0.config@,
            ) == base_url_of(input.base_url@)->Ok_0
            &&& unpadded(unrelated(lines_of(r->Ok_0.config@))) == unpadded(
                unrelated(lines_of(config@)),
            )
        },
        r is Ok && trimmed(input.api_key@).len() == 0 ==> stored_key(r->Ok_0.env@) == stored_key(
            env@,
        ),
        r is Ok && env_breaks_stay(env@, resolved_key(env@, input.api_key@)->Ok_0) ==> {
            &&& stored_key(r->Ok_0.env@) == Some(resolved_key(env@, input.api_key@)->Ok_0)
            &&& unpadded(others(lines_of(r->Ok_0.env@), ENV_KEY@)) == unpadded(
                others(lines_of(env@), ENV_KEY@),
            )
        },
{
    let base_url = match validate_base_url(input.base_url.as_str()) {
        Ok(url) => url,
        Err(e) => {
            return Err(e);
        },
    };
    let model = match validate_model(input.model.as_str()) {
        Ok(model) => model,
        Err(e) => {
            return Err(e);
        },
    };
    let api_key = match resolve_gateway_key(env, input.api_key.as_str()) {
        Ok(key) => key,
        Err(e) => {
            return Err(e);
        },
    };
    let config_chars = chars_of(config);
    let model_chars = chars_of(model.as_str());
    let url_chars = chars_of(base_url.as_str());
    let key_chars = chars_of(api_key.as_str());
    let next = merge_config(config_chars.as_slice(), model_chars.as_slice(), url_chars.as_slice());
    if find(next.as_slice(), key_chars.as_slice()).is_some() {
        return Err(refused("API Key 不能写入配置文件"));
    }
    let env_chars = chars_of(env);
    let written = merge_env(env_chars.as_slice(), key_chars.as_slice());
    proof {
        lemma_checked_model(model@);
        lemma_checked_url(base_url@);
        if breaks_stay(config@, model@, base_url@) {
            law_written_config_reads_back(config@, model@, base_url@);
            law_config_keeps_unrelated(config@, model@, base_url@);
        }
        if env_breaks_stay(env@, api_key@) {
            law_written_key_reads_back(env@, input.api_key@);
            law_other_variables_stay(env@, input.api_key@);
        }
    }
    let config = string_of(next.as_slice());
    if is_blank(input.api_key.as_str()) {
        let kept = match env_value(written.as_slice(), ENV_KEY) {
            Some(stored) => same(stored.as_slice(), key_chars.as_slice()),
            None => false,
        };
        if !kept {
            return Ok(GatewayFiles { config, env: text_of(env) });
        }
    }
    Ok(GatewayFiles { config, env: string_of(written.as_slice()) })
}

// ---------------------------------------------------------------------------
// The models that a gateway offers
// ---------------------------------------------------------------------------

/// The request for the list of models.
#[derive(Debug)]
pub struct ModelsRequest {
    pub url: String,
    pub authorization: String,
}

/// How the request for the list of models went.
#[derive(Debug)]
pub enum ModelsReply {
    /// No client could be made.
    NoClient,
    /// The request could not be sent, or no reply came.
    Unreachable,
    /// The gateway answered with this status, which is no success.
    Refused(String),
    /// The body of the reply could not be read.
    Unreadable,
    /// The ids in the body, or none where it is not a list of models.
    Listed(Option<Vec<String>>),
}

/// Where and how to ask for the list of models, or why not to ask.
pub open spec fn request_verdict(
    base_url: Result<Seq<char>, Seq<char>>,
    key: Result<Seq<char>, Seq<char>>,
) -> Result<(Seq<char>, Seq<char>), Seq<char>> {
    match (base_url, key) {
        (Err(e), _) => Err(e),
        (_, Err(e)) => Err(e),
        (Ok(u), Ok(k)) => Ok((u + "/models"@, "Bearer "@ + k)),
    }
}

/// The request for the list of models.
pub fn models_request(base_url: &str, api_key: &str) -> (r: Result<ModelsRequest, GatewayError>)
    ensures
        match r {
            Ok(q) => request_verdict(base_url_of(base_url@), key_verdict(api_key@)) == Ok::<
                (Seq<char>, Seq<char>),
                Seq<char>,
            >((q.url@, q.authorization@)),
            Err(e) => request_verdict(base_url_of(base_url@), key_verdict(api_key@)) == Err::<
                (Seq<char>, Seq<char>),
                Seq<char>,
            >(e.0@),
        },
{
    let url = match validate_base_url(base_url) {
        Ok(url) => url,
        Err(e) => {
            return Err(e);
        },
    };
    let key = match validate_api_key(api_key) {
        Ok(key) => key,
        Err(e) => {
            return Err(e);
        },
    };
    Ok(
        ModelsRequest {
            url: said(url.as_str(), "/models"),
            authorization: said("Bearer ", key.as_str()),
        },
    )
}

/// The texts of a list.
pub open spec fn texts(list: Seq<String>) -> Seq<Seq<char>> {
    Seq::new(list.len(), |i: int| list[i]@)
}

/// The ids without white space around them, but for empty ones.
pub open spec fn is_listed(ids: Seq<String>, t: Seq<char>) -> bool {
    t.len() > 0 && exists|i: int| 0 <= i < ids.len() && trimmed((#[trigger] ids[i])@) == t
}

/// Whether `out` is the ascending list of the ids.
pub open spec fn is_model_list(ids: Seq<String>, out: Seq<Seq<char>>) -> bool {
    &&& ascending(out)
    &&& forall|t: Seq<char>| #[trigger] out.contains(t) <==> is_listed(ids, t)
}

/// The ids that a gateway lists: trimmed, in ascending order and each once. A
/// payload that is no list of models, and a list without any, are errors.
pub fn parse_model_ids(payload: Option<Vec<String>>) -> (r: Result<Vec<String>, GatewayError>)
    ensures
        match (payload, r) {
            (None, Err(e)) => e.0@ == "网关没有返回可用模型列表"@,
            (None, Ok(_)) => false,
            (Some(ids), Ok(out)) => is_model_list(ids@, texts(out@)) && out@.len() > 0,
            (Some(ids), Err(e)) => e.0@ == "网关上没有可用模型"@ && forall|t: Seq<char>|
                !#[trigger] is_listed(ids@, t),
        },
{
    let ids = match payload {
        None => {
            return Err(refused("网关没有返回可用模型列表"));
        },
        Some(ids) => ids,
    };
    let mut list: Vec<Vec<char>> = Vec::new();
    let mut i: usize = 0;
    while i < ids.len()
        invariant
            i <= ids@.len(),
            ascending(views(list@)),
            forall|t: Seq<char>| #[trigger]
                views(list@).contains(t) <==> is_listed(ids@.take(i as int), t),
        decreases ids@.len() - i,
    {
        let ghost was = views(list@);
        let ghost done = ids@.take(i as int);
        let ghost more = ids@.take(i + 1);
        let all = chars_of(ids[i].as_str());
        let id = trim(all.as_slice());
        let ghost t0 = id@;
        if id.len() > 0 {
            insert_text(&mut list, copy_of(id));
        }
        proof {
            assert forall|t: Seq<char>| #[trigger] views(list@).contains(t) <==> is_listed(
                more,
                t,
            ) by {
                assert(was.contains(t) <==> is_listed(done, t));
                if is_listed(done, t) {
                    let k = choose|k: int| 0 <= k < done.len() && trimmed((#[trigger] done[k])@)
                        == t;
                    assert(more[k] == done[k]);
                }
                if is_listed(more, t) {
                    let k = choose|k: int| 0 <= k < more.len() && trimmed((#[trigger] more[k])@)
                        == t;
                    if k < i {
                        assert(done[k] == more[k]);
                        assert(is_listed(done, t));
                    } else {
                        assert(t == t0);
                    }
                }
                if t == t0 && t.len() > 0 {
                    assert(more[i as int] == ids@[i as int]);
                    assert(is_listed(more, t));
                }
            }
        }
        i += 1;
    }
    assert(ids@.take(i as int) == ids@);
    if list.len() == 0 {
        assert forall|t: Seq<char>| !#[trigger] is_listed(ids@, t) by {
            assert(!views(list@).contains(t));
        }
        return Err(refused("网关上没有可用模型"));
    }
    let mut out: Vec<String> = Vec::new();
    let mut j: usize = 0;
    while j < list.len()
        invariant
            j <= list@.len(),
            out@.len() == j,
            forall|k: int| 0 <= k < j ==> (#[trigger] out@[k])@ == list@[k]@,
        decreases list@.len() - j,
    {
        out.push(string_of(list[j].as_slice()));
        j += 1;
    }
    assert(texts(out@) =~= views(list@));
    Ok(out)
}

/// What the reply to the request for the list of models comes to.
pub open spec fn reply_refusal(reply: ModelsReply) -> Option<Seq<char>> {
    match reply {
        ModelsReply::NoClient => Some("无法连接网关"@),
        ModelsReply::Unreachable => Some("连接网关失败，请检查地址和网络"@),
        ModelsReply::Refused(status) => Some("网关拒绝了模型列表（"@ + status@ + "）"@),
        ModelsReply::Unreadable => Some("读取模型列表失败"@),
        ModelsReply::Listed(None) => Some("网关没有返回可用模型列表"@),
        ModelsReply::Listed(Some(ids)) => None,
    }
}

/// The models in the reply, or what went wrong.
pub fn models_from_reply(reply: ModelsReply) -> (r: Result<Vec<String>, GatewayError>)
    ensures
        match r {
            Ok(out) => reply matches ModelsReply::Listed(Some(ids)) && is_model_list(
                ids@,
                texts(out@),
            ) && out@.len() > 0,
            Err(e) => match reply_refusal(reply) {
                Some(words) => e.0@ == words,
                None => e.0@ == "网关上没有可用模型"@ && forall|t: Seq<char>|
                    !#[trigger] is_listed(reply->Listed_0->0@, t),
            },
        },
{
    match reply {
        ModelsReply::NoClient => Err(refused("无法连接网关")),
        ModelsReply::Unreachable => Err(refused("连接网关失败，请检查地址和网络")),
        ModelsReply::Refused(status) => Err(
            GatewayError(said_around("网关拒绝了模型列表（", status.as_str(), "）")),
        ),
        ModelsReply::Unreadable => Err(refused("读取模型列表失败")),
        ModelsReply::Listed(payload) => parse_model_ids(payload),
    }
}

// ---------------------------------------------------------------------------
// The commands
// ---------------------------------------------------------------------------

/// Lets the settings be saved only while Codex is not running, and where the user's
/// directory is known.
pub fn may_save_gateway(codex_running: bool, home_known: bool) -> (r: Result<(), AppError>)
    ensures
        match r {
            Ok(()) => !codex_running && home_known,
            Err(e) => if codex_running {
                e@ == ErrorView::Internal("Codex 正在运行。请先完全退出 Codex，再保存。"@)
            } else {
                !home_known && e@ == ErrorView::Internal("找不到用户主目录"@)
            },
        },
{
    if codex_running {
        return Err(internal("Codex 正在运行。请先完全退出 Codex，再保存。"));
    }
    if !home_known {
        return Err(internal("找不到用户主目录"));
    }
    Ok(())
}

/// The error of a command that a refused setting becomes.
pub fn gateway_failure(error: GatewayError) -> (r: AppError)
    ensures
        r@ == ErrorView::Internal(error.0@),
{
    AppError::Internal(error.0)
}

} // verus!
