//! Which gateway settings are accepted, told by their characters, and what saving them
//! comes to.

use vstd::prelude::*;
use crate::config_file::{merged_config, provider_url, top_value};
use crate::env_file::merged_env;
use crate::gateway::{
    applied, base_url_in, base_url_of, base_url_verdict, has_odd, is_listed, is_model_list,
    key_verdict, model_in, model_verdict, next_env, odd, parsed_verdict, reply_refusal,
    request_verdict, resolved_key, stored_key, ModelsReply,
};
use crate::lines::lines_of;
use crate::sorted::before;
use crate::text::{contains_text, is_control, is_white, trimmed};
use crate::text_laws::{
    all_white, law_control_characters, law_trimming_takes_white_space, law_white_space,
};
use crate::url_policy::{bare_url, url_parts, UrlView};

verus! {

/// A model is accepted exactly where its text, without the white space around it, has one to
/// two hundred characters, none of which is a control character, white space, a quote of
/// either kind, a backslash or a number sign. It is taken as that text. A blank one is told
/// apart from one that holds something else.
pub proof fn law_models_are_told_by_their_characters(
    before: Seq<char>,
    model: Seq<char>,
    after: Seq<char>,
)
    requires
        all_white(before),
        all_white(after),
        model.len() > 0 ==> !is_white(model[0]) && !is_white(model.last()),
    ensures
        ({
            let raw = before + model + after;
            let fit = forall|i: int|
                0 <= i < model.len() ==> !is_control(#[trigger] model[i]) && !is_white(model[i])
                    && model[i] != '"' && model[i] != '\'' && model[i] != '\\' && model[i] != '#';
            &&& 1 <= model.len() <= 200 && fit ==> model_verdict(raw) == Ok::<
                Seq<char>,
                Seq<char>,
            >(model)
            &&& model.len() == 0 ==> model_verdict(raw) == Err::<Seq<char>, Seq<char>>(
                "请填写默认模型"@,
            )
            &&& model.len() > 200 || (model.len() > 0 && !fit) ==> model_verdict(raw) == Err::<
                Seq<char>,
                Seq<char>,
            >("模型名只能包含普通字符，不能有空格或引号"@)
        }),
{
    law_trimming_takes_white_space(before, model, after);
    lemma_fit(model);
}

/// The odd characters are these.
proof fn lemma_fit(s: Seq<char>)
    ensures
        has_odd(s) <==> !(forall|i: int|
            0 <= i < s.len() ==> !is_control(#[trigger] s[i]) && !is_white(s[i]) && s[i] != '"'
                && s[i] != '\'' && s[i] != '\\' && s[i] != '#'),
{
    if has_odd(s) {
        let i = choose|i: int| 0 <= i < s.len() && odd(#[trigger] s[i]);
        assert(is_control(s[i]) || is_white(s[i]) || s[i] == '"' || s[i] == '\'' || s[i] == '\\'
            || s[i] == '#');
    } else {
        assert forall|i: int| 0 <= i < s.len() implies !is_control(#[trigger] s[i]) && !is_white(
            s[i],
        ) && s[i] != '"' && s[i] != '\'' && s[i] != '\\' && s[i] != '#' by {
            assert(!odd(s[i]));
        }
    }
}

/// A key is accepted exactly where it has at most five hundred and twelve characters, none of
/// which is a control character, white space, a quote of either kind, a backslash or a number
/// sign. It is taken as it is.
pub proof fn law_keys_are_told_by_their_characters(key: Seq<char>)
    ensures
        ({
            let fit = forall|i: int|
                0 <= i < key.len() ==> !is_control(#[trigger] key[i]) && !is_white(key[i]) && key[i]
                    != '"' && key[i] != '\'' && key[i] != '\\' && key[i] != '#';
            &&& key.len() <= 512 && fit ==> key_verdict(key) == Ok::<Seq<char>, Seq<char>>(key)
            &&& key.len() > 512 || !fit ==> key_verdict(key) == Err::<Seq<char>, Seq<char>>(
                "API Key 格式不正确"@,
            )
        }),
{
    lemma_fit(key);
}

/// Every name made of the printable characters of ASCII but the two quotes, the backslash and
/// the number sign is accepted as a model and as a key.
pub proof fn law_printable_names_are_accepted(name: Seq<char>)
    requires
        1 <= name.len() <= 200,
        forall|i: int|
            0 <= i < name.len() ==> 0x21 <= #[trigger] name[i] as u32 <= 0x7e && name[i] as u32
                != 0x22 && name[i] as u32 != 0x23 && name[i] as u32 != 0x27 && name[i] as u32
                != 0x5c,
    ensures
        model_verdict(name) == Ok::<Seq<char>, Seq<char>>(name),
        key_verdict(name) == Ok::<Seq<char>, Seq<char>>(name),
        forall|env: Seq<char>| #[trigger]
            resolved_key(env, name) == Ok::<Seq<char>, Seq<char>>(name),
{
    assert('"' as u32 == 0x22 && '#' as u32 == 0x23 && '\'' as u32 == 0x27 && '\\' as u32
        == 0x5c);
    assert forall|i: int| 0 <= i < name.len() implies !is_control(#[trigger] name[i]) && !is_white(
        name[i],
    ) && name[i] != '"' && name[i] != '\'' && name[i] != '\\' && name[i] != '#' by {
        law_white_space(name[i]);
        law_control_characters(name[i]);
    }
    let none = Seq::<char>::empty();
    assert(none + name + none == name);
    law_trimming_takes_white_space(none, name, none);
    law_models_are_told_by_their_characters(none, name, none);
    law_keys_are_told_by_their_characters(name);
}

/// A key that is given is the one to use, whatever is stored; without one it is the stored
/// key, and where there is none either, one is asked for.
pub proof fn law_given_key_is_used(
    env: Seq<char>,
    before: Seq<char>,
    key: Seq<char>,
    after: Seq<char>,
)
    requires
        all_white(before),
        all_white(after),
        key.len() > 0 ==> !is_white(key[0]) && !is_white(key.last()),
    ensures
        key.len() > 0 ==> resolved_key(env, before + key + after) == key_verdict(key),
        key.len() == 0 && stored_key(env) is Some ==> resolved_key(env, before + key + after)
            == Ok::<Seq<char>, Seq<char>>(stored_key(env)->0),
        key.len() == 0 && stored_key(env) is None ==> resolved_key(env, before + key + after)
            == Err::<Seq<char>, Seq<char>>("请填写 API Key"@),
{
    law_trimming_takes_white_space(before, key, after);
}

/// An address is accepted exactly where it parses as an HTTPS URL with a host and without user
/// information. It is then the URL without query and fragment, and without one slash at its
/// end. What is wrong is told in this order.
pub proof fn law_addresses_are_told_by_their_parts(url: UrlView, bare: Seq<char>)
    ensures
        ({
            let verdict = parsed_verdict(Some(url), bare);
            let secure = url.scheme == "https"@;
            let open = url.username.len() == 0 && url.password is None;
            &&& secure && open && url.host is Some ==> verdict is Ok
            &&& verdict is Ok ==> secure && open && url.host is Some && (bare == verdict->Ok_0
                || bare == verdict->Ok_0.push('/'))
            &&& verdict is Ok && bare.len() > 0 && bare.last() == '/' ==> bare
                == verdict->Ok_0.push('/')
            &&& !secure ==> verdict == Err::<Seq<char>, Seq<char>>("网关地址必须是 https:// 链接"@)
            &&& secure && !open ==> verdict == Err::<Seq<char>, Seq<char>>(
                "网关地址不能包含账号或密码"@,
            )
            &&& secure && open && url.host is None ==> verdict == Err::<Seq<char>, Seq<char>>(
                "网关地址缺少主机名"@,
            )
        }),
        parsed_verdict(None, bare) == Err::<Seq<char>, Seq<char>>(
            "网关地址无法识别，请以 https:// 开头"@,
        ),
{
    if bare.len() > 0 && bare.last() == '/' {
        assert(bare =~= bare.drop_last().push('/'));
    }
}

/// The text of an address is refused for its white space and control characters alone before
/// it is parsed, and a blank one is told apart.
pub proof fn law_address_text_is_checked_for_spaces(
    before: Seq<char>,
    text: Seq<char>,
    after: Seq<char>,
    parsed: Option<UrlView>,
    bare: Seq<char>,
)
    requires
        all_white(before),
        all_white(after),
        text.len() > 0 ==> !is_white(text[0]) && !is_white(text.last()),
    ensures
        ({
            let verdict = base_url_verdict(before + text + after, parsed, bare);
            let spaced = exists|i: int|
                0 <= i < text.len() && (is_control(#[trigger] text[i]) || is_white(text[i]));
            &&& text.len() == 0 ==> verdict == Err::<Seq<char>, Seq<char>>("请填写网关地址"@)
            &&& spaced ==> verdict == Err::<Seq<char>, Seq<char>>("网关地址不能包含空格"@)
            &&& text.len() > 0 && !spaced ==> verdict == parsed_verdict(parsed, bare)
        }),
{
    law_trimming_takes_white_space(before, text, after);
}

/// Saving succeeds exactly where the address, the model and the key are accepted and the key
/// does not stand in the new configuration. What is refused is told of the address first, then
/// of the model, then of the key.
pub proof fn law_saving_succeeds_where_all_is_accepted(
    address: Result<Seq<char>, Seq<char>>,
    model: Result<Seq<char>, Seq<char>>,
    raw: Seq<char>,
    config: Seq<char>,
    env: Seq<char>,
)
    ensures
        ({
            let key = resolved_key(env, raw);
            let saved = applied(address, model, raw, config, env);
            let all = address is Ok && model is Ok && key is Ok;
            &&& all && !contains_text(
                merged_config(config, model->Ok_0, address->Ok_0),
                key->Ok_0,
            ) ==> saved is Ok
            &&& saved is Ok ==> all && saved->Ok_0.0 == merged_config(
                config,
                model->Ok_0,
                address->Ok_0,
            ) && !contains_text(saved->Ok_0.0, key->Ok_0)
            &&& saved is Ok && trimmed(raw).len() > 0 ==> saved->Ok_0.1 == merged_env(
                env,
                key->Ok_0,
            )
            &&& saved is Ok && trimmed(raw).len() == 0 ==> saved->Ok_0.1 == env || saved->Ok_0.1
                == merged_env(env, key->Ok_0)
            &&& address is Err ==> saved == Err::<(Seq<char>, Seq<char>), Seq<char>>(
                address->Err_0,
            )
            &&& address is Ok && model is Err ==> saved == Err::<
                (Seq<char>, Seq<char>),
                Seq<char>,
            >(model->Err_0)
            &&& address is Ok && model is Ok && key is Err ==> saved == Err::<
                (Seq<char>, Seq<char>),
                Seq<char>,
            >(key->Err_0)
            &&& all && saved is Err ==> saved->Err_0 == "API Key 不能写入配置文件"@
        }),
{
}

/// The models are asked for below the address, and the key is given as a bearer.
pub proof fn law_models_are_asked_below_the_address(
    address: Result<Seq<char>, Seq<char>>,
    key: Result<Seq<char>, Seq<char>>,
)
    ensures
        ({
            let request = request_verdict(address, key);
            &&& request is Ok <==> address is Ok && key is Ok
            &&& request is Ok ==> {
                let (url, bearer) = request->Ok_0;
                &&& url.len() == address->Ok_0.len() + 7
                &&& url.take(address->Ok_0.len() as int) == address->Ok_0
                &&& url.skip(address->Ok_0.len() as int) == seq!['/', 'm', 'o', 'd', 'e', 'l', 's']
                &&& bearer.take(7) == seq!['B', 'e', 'a', 'r', 'e', 'r', ' ']
                &&& bearer.skip(7) == key->Ok_0
            }
            &&& address is Err ==> request == Err::<(Seq<char>, Seq<char>), Seq<char>>(
                address->Err_0,
            )
            &&& address is Ok && key is Err ==> request == Err::<
                (Seq<char>, Seq<char>),
                Seq<char>,
            >(key->Err_0)
        }),
{
    reveal_strlit("/models");
    reveal_strlit("Bearer ");
    if address is Ok && key is Ok {
        let (url, bearer) = request_verdict(address, key)->Ok_0;
        assert(url.take(address->Ok_0.len() as int) =~= address->Ok_0);
        assert(url.skip(address->Ok_0.len() as int) =~= seq!['/', 'm', 'o', 'd', 'e', 'l', 's']);
        assert(bearer.take(7) =~= seq!['B', 'e', 'a', 'r', 'e', 'r', ' ']);
        assert(bearer.skip(7) =~= key->Ok_0);
    }
}

/// Every id that is not blank is listed without the white space around it, and nothing else
/// is.
pub proof fn law_every_named_model_is_listed(ids: Seq<String>, i: int, t: Seq<char>)
    requires
        0 <= i < ids.len(),
    ensures
        trimmed(ids[i]@).len() > 0 ==> is_listed(ids, trimmed(ids[i]@)),
        is_listed(ids, t) ==> t.len() > 0 && exists|k: int|
            0 <= k < ids.len() && trimmed((#[trigger] ids[k])@) == t,
{
    assert(trimmed(ids[i]@) == trimmed(ids[i]@));
}

/// Where the configuration says nothing, the gateway is at its usual place and no model is
/// named; otherwise it is what the configuration says.
pub proof fn law_defaults_stand_in_for_what_is_missing(config: Seq<char>)
    ensures
        provider_url(lines_of(config)) is None ==> base_url_in(config)
            == "https://aiapi.yxrobot.com/v1"@,
        provider_url(lines_of(config)) matches Some(url) ==> base_url_in(config) == url,
        top_value(lines_of(config), "model"@) is None ==> model_in(config).len() == 0,
        top_value(lines_of(config), "model"@) matches Some(model) ==> model_in(config) == model,
{
}

/// An address is parsed without the white space around it, and judged by what that gives.
pub proof fn law_addresses_are_parsed_bare(a: Seq<char>, text: Seq<char>, b: Seq<char>)
    requires
        all_white(a),
        all_white(b),
        text.len() > 0,
        !is_white(text[0]),
        !is_white(text.last()),
    ensures
        base_url_of(a + text + b) == base_url_of(text),
        base_url_of(a) == Err::<Seq<char>, Seq<char>>("请填写网关地址"@),
        base_url_of(text) == base_url_verdict(
            text,
            url_parts(text),
            match bare_url(text) {
                Some(bare) => bare,
                None => Seq::empty(),
            },
        ),
{
    let none = Seq::<char>::empty();
    law_trimming_takes_white_space(a, text, b);
    law_trimming_takes_white_space(none, text, none);
    assert(none + text + none =~= text);
    law_trimming_takes_white_space(a, none, none);
    assert(a + none + none =~= a);
}

/// The environment file is written anew with the key wherever one was given, and also where
/// none was given and the stored key stays readable; else it is left as it is.
pub proof fn law_environment_is_written_anew(env: Seq<char>, raw: Seq<char>, key: Seq<char>)
    ensures
        trimmed(raw).len() > 0 ==> next_env(env, raw, key) == merged_env(env, key),
        stored_key(merged_env(env, key)) == Some(key) ==> next_env(env, raw, key) == merged_env(
            env,
            key,
        ),
        trimmed(raw).len() == 0 && stored_key(merged_env(env, key)) != Some(key) ==> next_env(
            env,
            raw,
            key,
        ) == env,
{
}

/// A list of models is the one of some ids exactly where each text in it comes before the
/// later ones and it holds what the ids name and nothing else.
pub proof fn law_model_lists_are_sorted(ids: Seq<String>, out: Seq<Seq<char>>)
    ensures
        is_model_list(ids, out) <==> {
            &&& forall|i: int, j: int|
                0 <= i < j < out.len() ==> before(#[trigger] out[i], #[trigger] out[j])
            &&& forall|t: Seq<char>|
                #[trigger] out.contains(t) <==> t.len() > 0 && exists|k: int|
                    0 <= k < ids.len() && trimmed((#[trigger] ids[k])@) == t
        },
{
    assert forall|t: Seq<char>|
        is_listed(ids, t) <==> #[trigger] t.len() > 0 && exists|k: int|
            0 <= k < ids.len() && trimmed((#[trigger] ids[k])@) == t by {}
    if is_model_list(ids, out) {
        assert forall|t: Seq<char>| #[trigger] out.contains(t) <==> t.len() > 0 && exists|k: int|
            0 <= k < ids.len() && trimmed((#[trigger] ids[k])@) == t by {
            assert(out.contains(t) <==> is_listed(ids, t));
        }
    }
}

/// What is said of each reply that brings no list, and of none that does.
pub proof fn law_replies_are_told_apart(status: String, ids: Vec<String>)
    ensures
        reply_refusal(ModelsReply::NoClient) == Some("无法连接网关"@),
        reply_refusal(ModelsReply::Unreachable) == Some("连接网关失败，请检查地址和网络"@),
        reply_refusal(ModelsReply::Refused(status)) == Some(
            "网关拒绝了模型列表（"@ + status@ + "）"@,
        ),
        reply_refusal(ModelsReply::Unreadable) == Some("读取模型列表失败"@),
        reply_refusal(ModelsReply::Listed(None)) == Some("网关没有返回可用模型列表"@),
        reply_refusal(ModelsReply::Listed(Some(ids))) is None,
{
}

} // verus!
