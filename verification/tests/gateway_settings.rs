use codex_app_manager::config_file::{
    assignment_value, header_name, is_our_section, is_top_key, merge_config, provider_base_url,
    top_level_value,
};
use codex_app_manager::env_file::{env_line_key, env_value, merge_env};
use codex_app_manager::errors::AppError;
use codex_app_manager::gateway::{
    apply_gateway, gateway_failure, judge_base_url, may_save_gateway, models_from_reply,
    models_request, parse_model_ids, read_gateway, resolve_gateway_key, validate_api_key,
    validate_base_url, validate_model, CodexGatewayInput, GatewayError, ModelsReply,
    DEFAULT_BASE_URL,
};
use codex_app_manager::lines::{ensure_trailing_newline, join_lines, split_lines};
use codex_app_manager::url_policy::UrlParts;

fn chars(text: &str) -> Vec<char> {
    text.chars().collect()
}

fn text(chars: &[char]) -> String {
    chars.iter().collect()
}

fn input(base_url: &str, model: &str, api_key: &str) -> CodexGatewayInput {
    CodexGatewayInput {
        base_url: base_url.to_string(),
        model: model.to_string(),
        api_key: api_key.to_string(),
    }
}

fn refusal(result: Result<String, GatewayError>) -> String {
    match result {
        Ok(value) => panic!("accepted {value}"),
        Err(error) => error.text(),
    }
}

/// The ids in the body of a gateway's reply, where it is a list of models.
fn ids_in(body: &str) -> Option<Vec<String>> {
    let payload: serde_json::Value = serde_json::from_str(body).ok()?;
    let mut ids = Vec::new();
    for item in payload.get("data")?.as_array()? {
        ids.push(item.get("id")?.as_str()?.to_string());
    }
    Some(ids)
}

#[test]
fn writes_provider_and_keeps_the_key_out_of_config() {
    let files = apply_gateway(
        &input("https://aiapi.yxrobot.com/v1/", "gpt-5.4", "sk-test-key"),
        "",
        "",
    )
    .unwrap();
    let config = files.config;
    let env = files.env;
    assert!(config.contains("model = \"gpt-5.4\""));
    assert!(config.contains("model_provider = \"yxrobot\""));
    assert!(config.contains("base_url = \"https://aiapi.yxrobot.com/v1\""));
    assert!(config.contains("env_key = \"YXROBOT_API_KEY\""));
    assert!(config.contains("wire_api = \"responses\""));
    assert!(!config.contains("sk-test-key"));
    assert!(env.contains("YXROBOT_API_KEY=sk-test-key"));

    let status = read_gateway(&config, &env);
    assert_eq!(status.base_url, "https://aiapi.yxrobot.com/v1");
    assert_eq!(status.model, "gpt-5.4");
    assert!(status.api_key_set);
}

#[test]
fn preserves_unrelated_config_and_other_env_vars() {
    let first = apply_gateway(
        &input("https://aiapi.yxrobot.com/v1", "internal-model", "sk-one"),
        "appearanceTheme = \"dark\"\n\n[desktop.appearanceDarkChromeTheme]\naccent = \"#111111\"\n",
        "OTHER_TOKEN=keep-me\n",
    )
    .unwrap();
    assert!(first.config.contains("appearanceTheme = \"dark\""));
    assert!(first.config.contains("accent = \"#111111\""));
    assert!(first.env.contains("OTHER_TOKEN=keep-me"));
    assert!(first.env.contains("YXROBOT_API_KEY=sk-one"));

    let second = apply_gateway(
        &input("https://aiapi.yxrobot.com/v1", "internal-model-2", ""),
        &first.config,
        &first.env,
    )
    .unwrap();
    assert!(second.env.contains("YXROBOT_API_KEY=sk-one"));
    assert!(second.config.contains("model = \"internal-model-2\""));
}

#[test]
fn reads_model_ids_from_a_gateway_payload() {
    let ids = parse_model_ids(ids_in(
        r#"{"data":[{"id":"openai/gpt-5.4"},{"id":"openai/gpt-5.4"},{"id":"  "},{"id":"cloud-sonnet"}]}"#,
    ))
    .unwrap();
    assert_eq!(
        ids,
        vec!["cloud-sonnet".to_string(), "openai/gpt-5.4".to_string()]
    );
}

#[test]
fn rejects_http_empty_model_and_a_missing_key() {
    let bad_url = apply_gateway(
        &input("http://aiapi.yxrobot.com/v1", "gpt-5.4", "sk-test"),
        "",
        "",
    );
    assert!(bad_url.is_err());
    let bad_model = apply_gateway(
        &input("https://aiapi.yxrobot.com/v1", "bad model", "sk-test"),
        "",
        "",
    );
    assert!(bad_model.is_err());
    let missing_key = apply_gateway(
        &input("https://aiapi.yxrobot.com/v1", "gpt-5.4", ""),
        "",
        "",
    );
    assert!(missing_key.is_err());
}

#[test]
fn the_whole_new_configuration() {
    let files = apply_gateway(
        &input("https://aiapi.yxrobot.com/v1", "gpt-5.4", "sk-1"),
        "",
        "",
    )
    .unwrap();
    assert_eq!(
        files.config,
        "model = \"gpt-5.4\"\nmodel_provider = \"yxrobot\"\n\n[model_providers.yxrobot]\n\
         name = \"公司 AI 网关\"\nbase_url = \"https://aiapi.yxrobot.com/v1\"\n\
         env_key = \"YXROBOT_API_KEY\"\nwire_api = \"responses\"\n"
    );
    assert_eq!(files.env, "YXROBOT_API_KEY=sk-1\n");
}

#[test]
fn an_empty_pair_of_files_has_the_defaults() {
    let status = read_gateway("", "");
    assert_eq!(status.base_url, DEFAULT_BASE_URL);
    assert_eq!(status.base_url, "https://aiapi.yxrobot.com/v1");
    assert_eq!(status.model, "");
    assert!(!status.api_key_set);
    assert!(!status.codex_running);
}

#[test]
fn every_refusal_of_an_address() {
    assert_eq!(refusal(validate_base_url("  ")), "请填写网关地址");
    assert_eq!(
        refusal(validate_base_url("https://a b/")),
        "网关地址不能包含空格"
    );
    assert_eq!(
        refusal(validate_base_url("not-a-url")),
        "网关地址无法识别，请以 https:// 开头"
    );
    assert_eq!(
        refusal(validate_base_url("http://example.com")),
        "网关地址必须是 https:// 链接"
    );
    assert_eq!(
        refusal(validate_base_url("https://user@example.com/")),
        "网关地址不能包含账号或密码"
    );
    assert_eq!(
        refusal(validate_base_url("https://:secret@example.com/")),
        "网关地址不能包含账号或密码"
    );
    let hostless = Some(UrlParts {
        scheme: "https".to_string(),
        username: String::new(),
        password: None,
        host: None,
        port: None,
    });
    assert_eq!(refusal(judge_base_url(&hostless, "https:")), "网关地址缺少主机名");
    assert_eq!(
        refusal(judge_base_url(&None, "")),
        "网关地址无法识别，请以 https:// 开头"
    );
}

#[test]
fn an_address_loses_its_query_fragment_and_one_slash() {
    assert_eq!(
        validate_base_url(" https://Example.com:443/v1/?key=1#top ").unwrap(),
        "https://example.com/v1"
    );
    assert_eq!(validate_base_url("https://example.com").unwrap(), "https://example.com");
    assert_eq!(
        validate_base_url("https://example.com/a//").unwrap(),
        "https://example.com/a/"
    );
    for raw in ["https:example.com", "https:\\\\example.com\\?#", "https://example.com/%3F%23?a#b"] {
        let url = validate_base_url(raw).unwrap();
        assert!(url.starts_with("https://example.com"));
        assert!(!url.contains(['?', '#', '\\']));
    }
    assert_eq!(
        validate_base_url("https://b\u{fc}cher.example/\u{e9}").unwrap(),
        "https://xn--bcher-kva.example/%C3%A9"
    );
}

#[test]
fn models_and_keys_are_checked() {
    assert_eq!(validate_model("  gpt-5.4 ").unwrap(), "gpt-5.4");
    assert_eq!(refusal(validate_model("   ")), "请填写默认模型");
    let odd = "模型名只能包含普通字符，不能有空格或引号";
    for name in ["a b", "a\"b", "a\\b", "a#b", "a'b", "a\u{7}b"] {
        assert_eq!(refusal(validate_model(name)), odd);
    }
    assert_eq!(refusal(validate_model(&"m".repeat(201))), odd);
    assert_eq!(validate_model(&"模".repeat(200)).unwrap().chars().count(), 200);

    assert_eq!(validate_api_key("sk-1").unwrap(), "sk-1");
    assert_eq!(refusal(validate_api_key("sk 1")), "API Key 格式不正确");
    assert_eq!(refusal(validate_api_key(&"k".repeat(513))), "API Key 格式不正确");
    assert_eq!(validate_api_key(&"k".repeat(512)).unwrap().len(), 512);
}

#[test]
fn a_missing_key_is_taken_from_the_file() {
    assert_eq!(
        resolve_gateway_key("export YXROBOT_API_KEY=\"sk-9\"\n", "  ").unwrap(),
        "sk-9"
    );
    assert_eq!(resolve_gateway_key("", " sk-2 ").unwrap(), "sk-2");
    assert_eq!(refusal(resolve_gateway_key("YXROBOT_API_KEY=\n", "")), "请填写 API Key");
    assert_eq!(
        refusal(resolve_gateway_key("", "sk#2")),
        "API Key 格式不正确"
    );
}

#[test]
fn a_key_that_would_stand_in_the_configuration_is_refused() {
    let refused = apply_gateway(
        &input("https://aiapi.yxrobot.com/v1", "gpt-5.4", "responses"),
        "",
        "",
    );
    match refused {
        Ok(_) => panic!("accepted"),
        Err(error) => assert_eq!(error.text(), "API Key 不能写入配置文件"),
    }
}

#[test]
fn an_old_section_is_replaced_once() {
    let config = "model = \"old\"\r\n# model = \"no\"\r\nmodel=\"older\"\r\n\
                  [model_providers.yxrobot]\r\nbase_url = \"https://old/\"\r\n\
                  [model_providers.yxrobot.more]\r\nx = 1\r\n[other]\r\ny = 2\r\n\
                  [model_providers.yxrobot]\r\nz = 3\r\n";
    let merged = text(&merge_config(
        &chars(config),
        &chars("new"),
        &chars("https://new"),
    ));
    assert_eq!(
        merged,
        "model = \"new\"\r\n# model = \"no\"\r\nmodel_provider = \"yxrobot\"\r\n\
         [model_providers.yxrobot]\r\nname = \"公司 AI 网关\"\r\nbase_url = \"https://new\"\r\n\
         env_key = \"YXROBOT_API_KEY\"\r\nwire_api = \"responses\"\r\n[other]\r\ny = 2\r\n"
    );
    let merged = chars(&merged);
    assert_eq!(
        provider_base_url(&merged).map(|u| text(&u)),
        Some("https://new".to_string())
    );
    assert_eq!(
        top_level_value(&merged, "model").map(|m| text(&m)),
        Some("new".to_string())
    );
}

#[test]
fn lines_of_a_configuration() {
    assert_eq!(
        header_name(&chars("  [ a.b ] # c")).map(|n| text(&n)),
        Some("a.b".to_string())
    );
    assert_eq!(header_name(&chars("# [a]")), None);
    assert_eq!(header_name(&chars("[ ]")), None);
    assert_eq!(header_name(&chars("[a")), None);
    assert!(is_our_section(&chars("model_providers.yxrobot")));
    assert!(is_our_section(&chars("model_providers.yxrobot.headers")));
    assert!(!is_our_section(&chars("model_providers.yxrobots")));
    assert!(is_top_key(&chars("  model  = 1"), "model"));
    assert!(!is_top_key(&chars("model_provider = 1"), "model"));
    assert!(!is_top_key(&chars("# model = 1"), "model"));
    let value = |line: &str| assignment_value(&chars(line)).map(|v| text(&v));
    assert_eq!(value("a = \"b\\\"c\" # d"), Some("b\"c".to_string()));
    assert_eq!(value("a = 'b\\c'"), Some("b\\c".to_string()));
    assert_eq!(value("a = b c"), Some("b".to_string()));
    assert_eq!(value("a ="), Some(String::new()));
    assert_eq!(value("a = \"open"), None);
    assert_eq!(value("a"), None);
}

#[test]
fn lines_of_an_environment_file() {
    let key = |line: &str| env_line_key(&chars(line)).map(|k| text(&k));
    assert_eq!(key("export  A = 1"), Some("A".to_string()));
    assert_eq!(key("# A=1"), None);
    assert_eq!(key("=1"), None);
    let value = |file: &str| env_value(&chars(file), "A").map(|v| text(&v));
    assert_eq!(value("A=\nA='x'\n"), Some("x".to_string()));
    assert_eq!(value("B=1\n"), None);
    assert_eq!(
        text(&merge_env(&chars("A=1\nYXROBOT_API_KEY=a\nB=2\nYXROBOT_API_KEY=b\n"), &chars("k"))),
        "A=1\nYXROBOT_API_KEY=k\nB=2\n"
    );
    assert_eq!(
        text(&merge_env(&chars("A=1"), &chars("k"))),
        "A=1\n\nYXROBOT_API_KEY=k\n"
    );
    assert_eq!(
        text(&merge_env(&chars("\n\n"), &chars("k"))),
        "YXROBOT_API_KEY=k\n"
    );
}

#[test]
fn texts_split_and_join_by_lines() {
    let (lines, newline) = split_lines(&chars("a\r\nb\nc\r\n"));
    assert_eq!(newline, "\r\n");
    assert_eq!(lines, vec![chars("a"), chars("b\nc")]);
    assert_eq!(text(&join_lines(&lines, "\r\n")), "a\r\nb\nc\r\n");
    let (none, _) = split_lines(&chars(""));
    assert!(none.is_empty());
    assert_eq!(text(&join_lines(&none, "\n")), "");
    assert_eq!(text(&ensure_trailing_newline(chars("a"), "\n")), "a\n");
    assert_eq!(text(&ensure_trailing_newline(chars("a\n"), "\n")), "a\n");
}

#[test]
fn a_lone_return_at_the_end_joins_the_next_line_break() {
    let url = "https://a.test";
    let files = apply_gateway(&input(url, "m", "sk"), "a\r", "").unwrap();
    assert_eq!(read_gateway(&files.config, "").base_url, DEFAULT_BASE_URL);
    let plain = apply_gateway(&input(url, "m", "sk"), "a = 1", "").unwrap();
    assert_eq!(read_gateway(&plain.config, "").base_url, url);
    let replaced = apply_gateway(&input(url, "m", "sk"), "model = 1\r", "").unwrap();
    assert_eq!(read_gateway(&replaced.config, "").base_url, url);
}

#[test]
fn what_was_written_is_read_back_and_the_rest_stays() {
    let config = "top = 1\n[a]\nb = 2\n";
    let env = "X=1\n# note\n";
    let files = apply_gateway(&input("https://a.test/v1", "m-1", "sk-7"), config, env).unwrap();
    let status = read_gateway(&files.config, &files.env);
    assert_eq!(status.base_url, "https://a.test/v1");
    assert_eq!(status.model, "m-1");
    assert_eq!(resolve_gateway_key(&files.env, "").unwrap(), "sk-7");
    for line in ["top = 1", "[a]", "b = 2"] {
        assert!(files.config.lines().any(|l| l == line));
    }
    for line in ["X=1", "# note"] {
        assert!(files.env.lines().any(|l| l == line));
    }
}

#[test]
fn saving_the_same_settings_again_changes_nothing() {
    let wanted = input("https://a.test/v1", "m", "sk-1");
    for (config, env) in [
        ("", ""),
        ("a = 1\r\n[x]\r\nb = 2\r\n", "A=1\r\n"),
        ("model = \"old\"\nmodel = 2\n[model_providers.yxrobot.x]\ny = 1\n[z]\n", "\n\n"),
        ("[model_providers.yxrobot]\nname = 1\n\n[z]\nq = 1\n\n", "YXROBOT_API_KEY=a\nB=2\n\n"),
    ] {
        let once = apply_gateway(&wanted, config, env).unwrap();
        let twice = apply_gateway(&wanted, &once.config, &once.env).unwrap();
        assert_eq!(once.config, twice.config);
        assert_eq!(once.env, twice.env);
    }
}

#[test]
fn each_saving_takes_one_of_several_empty_lines_at_the_end() {
    let wanted = input("https://a.test/v1", "m", "sk-1");
    let config = "[model_providers.yxrobot]\n[z]\n\n\n\n";
    let once = apply_gateway(&wanted, config, "").unwrap();
    assert!(once.config.ends_with("[z]\n\n\n"));
    let twice = apply_gateway(&wanted, &once.config, "").unwrap();
    assert!(twice.config.ends_with("[z]\n\n"));
    assert!(!twice.config.ends_with("\n\n\n"));
}

#[test]
fn exceptions_to_reading_back() {
    let quoted = apply_gateway(&input("https://a\"b/", "m", "sk"), "", "").unwrap();
    assert_eq!(read_gateway(&quoted.config, "").base_url, "https://a");
    assert_eq!(read_gateway(&quoted.config, "").model, "m");
}

#[test]
fn an_empty_key_keeps_the_stored_one() {
    let wanted = input("https://a.test", "m", " ");
    for (stored, key) in [
        ("YXROBOT_API_KEY=\"' x'\"\nA=1\n", " x"),
        ("YXROBOT_API_KEY='export k'\n", "export k"),
        ("YXROBOT_API_KEY=zz9\nB=1\r", "zz9"),
    ] {
        assert_eq!(resolve_gateway_key(stored, "").unwrap(), key);
        let again = apply_gateway(&wanted, "", stored).unwrap();
        assert_eq!(resolve_gateway_key(&again.env, "").unwrap(), key);
    }
    let odd = "A=1\nYXROBOT_API_KEY=\"' x'\"\nB=2";
    assert_eq!(apply_gateway(&wanted, "", odd).unwrap().env, odd);
    let quoted = "export YXROBOT_API_KEY=\"sk-1\"\nA=1\nYXROBOT_API_KEY=2";
    assert_eq!(
        apply_gateway(&wanted, "", quoted).unwrap().env,
        "YXROBOT_API_KEY=sk-1\nA=1\n"
    );
}

#[test]
fn odd_addresses_and_keys_leave_the_other_lines() {
    let config = "a = 1\n[x]\nb = 2\n";
    let once = merge_config(&chars(config), &chars("m\"\r"), &chars("https://a\"b"));
    for line in ["a = 1", "[x]", "b = 2"] {
        assert!(text(&once).split('\n').any(|l| l == line));
    }
    assert_eq!(merge_config(&once, &chars("m\"\r"), &chars("https://a\"b")), once);
    let env = merge_env(&chars("A=1\nYXROBOT_API_KEY=k\nB=2\n"), &chars(" 'x' "));
    assert_eq!(text(&env), "A=1\nYXROBOT_API_KEY= 'x' \nB=2\n");
    assert_eq!(merge_env(&env, &chars(" 'x' ")), env);
}

#[test]
fn the_request_for_models() {
    let request = models_request("https://a.test/v1/", "sk-1").unwrap();
    assert_eq!(request.url, "https://a.test/v1/models");
    assert_eq!(request.authorization, "Bearer sk-1");
    assert_eq!(
        models_request("http://a.test", "sk-1").unwrap_err().text(),
        "网关地址必须是 https:// 链接"
    );
    assert_eq!(
        models_request("https://a.test", "sk 1").unwrap_err().text(),
        "API Key 格式不正确"
    );
}

#[test]
fn every_reply_to_the_request_for_models() {
    let words = |reply: ModelsReply| models_from_reply(reply).unwrap_err().text();
    assert_eq!(words(ModelsReply::NoClient), "无法连接网关");
    assert_eq!(
        words(ModelsReply::Unreachable),
        "连接网关失败，请检查地址和网络"
    );
    assert_eq!(
        words(ModelsReply::Refused("401 Unauthorized".to_string())),
        "网关拒绝了模型列表（401 Unauthorized）"
    );
    assert_eq!(words(ModelsReply::Unreadable), "读取模型列表失败");
    assert_eq!(words(ModelsReply::Listed(None)), "网关没有返回可用模型列表");
    assert_eq!(
        words(ModelsReply::Listed(Some(vec![" ".to_string()]))),
        "网关上没有可用模型"
    );
    let ids = vec!["b".to_string(), " a ".to_string(), "b".to_string()];
    assert_eq!(
        models_from_reply(ModelsReply::Listed(Some(ids))).unwrap(),
        vec!["a".to_string(), "b".to_string()]
    );
}

#[test]
fn settings_are_saved_only_while_codex_is_stopped() {
    assert!(may_save_gateway(false, true).is_ok());
    assert_eq!(
        may_save_gateway(true, false).unwrap_err().text(),
        "Codex 正在运行。请先完全退出 Codex，再保存。"
    );
    assert_eq!(
        may_save_gateway(false, false).unwrap_err().text(),
        "找不到用户主目录"
    );
    let error = gateway_failure(GatewayError("no".to_string()));
    assert!(matches!(error, AppError::Internal(_)));
    assert_eq!(error.text(), "no");
}
