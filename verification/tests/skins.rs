use codex_app_manager::catalog::{
    after_first_transfer, check_pack, choose_skin, curl_args, curl_supports_schannel_best_effort, data_url,
    is_schannel_revocation_offline, is_webp, join_data_url, judge_digest, prepare_catalog,
    preview_cache_name, preview_mime, read_cached_preview, safe_catalog_path, staging_name,
    transfer_failed, CachedPreview, CatalogSkin, FetchNext, CATALOG_MAX_BYTES, PACK_MAX_BYTES,
    PREVIEW_MAX_BYTES, SKINS_BASE,
};
use codex_app_manager::errors::AppError;
use codex_app_manager::settings::{AppSettings, ProxyMode, UpdateSource};
use codex_app_manager::store::{
    delete_store_skin, dev_theme_dir, merged_theme_list, migrate_store, plain_skin_id, rebase_directive,
    resolve_theme, store_dir, store_moves, theme_roots, MoveFlow, MoveStep, SkinLook, StoreEntry,
    StoreNesting, ThemeOrigin,
};

fn settings(dev: Option<&str>, store: Option<&str>) -> AppSettings {
    AppSettings {
        source: UpdateSource::Auto,
        custom_url: String::new(),
        proxy_mode: ProxyMode::System,
        custom_proxy_url: String::new(),
        signed_only: true,
        confirm_close: true,
        windows_install_mode: "msix".to_string(),
        install_root: String::new(),
        disable_codex_self_updates: false,
        codex_theme: None,
        codex_theme_dir: dev.map(str::to_string),
        codex_theme_store_dir: store.map(str::to_string),
    }
}

fn skin(id: &str, version: &str) -> CatalogSkin {
    CatalogSkin {
        id: id.to_string(),
        name: String::new(),
        description: String::new(),
        version: version.to_string(),
        author: String::new(),
        appearance: None,
        license: None,
        tags: Vec::new(),
        codex_verified: None,
        bytes: 0,
        sha256: "0".repeat(64),
        pack: "packs/x.codexskin".to_string(),
        preview: String::new(),
        category: None,
    }
}

const REAL: SkinLook = SkinLook {
    inside: true,
    symlink: false,
    is_dir: true,
    has_manifest: true,
};

#[test]
fn detects_only_the_windows_revocation_offline_tls_error() {
    let stderr = b"curl: (35) schannel: CRYPT_E_REVOCATION_OFFLINE (0x80092013)";
    assert!(is_schannel_revocation_offline(Some(35), stderr));
    assert!(!is_schannel_revocation_offline(Some(6), stderr));
    assert!(!is_schannel_revocation_offline(
        Some(35),
        b"curl: (35) schannel: SEC_E_UNTRUSTED_ROOT"
    ));
}

#[test]
fn removes_a_real_package() {
    assert!(delete_store_skin(&None, "good", REAL).is_ok());
}

#[test]
fn refuses_a_symlink_and_spares_its_target() {
    let look = SkinLook {
        symlink: true,
        ..REAL
    };
    let err = delete_store_skin(&None, "linky", look).unwrap_err();
    assert!(matches!(err, AppError::Engine(_)), "a symlink must be refused");
    assert_eq!(err.text(), "linky 是符号链接，拒绝删除");
}

#[test]
fn every_refusal_of_a_deletion() {
    let words = |active: Option<&str>, id: &str, look: SkinLook| {
        delete_store_skin(&active.map(str::to_string), id, look)
            .unwrap_err()
            .text()
    };
    assert_eq!(words(Some("a"), "a", REAL), "请先关闭该主题再删除");
    for id in ["", "a/b", "a\\b", "..", ".", "a..b"] {
        assert_eq!(words(None, id, REAL), format!("非法皮肤 id: {id}"));
        assert!(!plain_skin_id(id));
    }
    assert!(plain_skin_id("a.b"));
    assert_eq!(
        words(None, "a", SkinLook { inside: false, ..REAL }),
        "路径越界，拒绝删除"
    );
    assert_eq!(
        words(None, "a", SkinLook { is_dir: false, ..REAL }),
        "商店中没有该皮肤: a"
    );
    assert_eq!(
        words(None, "a", SkinLook { has_manifest: false, ..REAL }),
        "a 不是有效皮肤目录，拒绝删除"
    );
}

#[test]
fn where_the_store_is() {
    let platform = Some("/default".to_string());
    assert_eq!(store_dir(&settings(None, Some(" /own ")), &platform).unwrap(), "/own");
    assert_eq!(store_dir(&settings(None, Some("  ")), &platform).unwrap(), "/default");
    assert_eq!(
        store_dir(&settings(None, None), &None).unwrap_err().text(),
        "无法定位主题存储目录"
    );
    assert_eq!(
        theme_roots(&settings(Some("/dev"), None), &platform),
        vec!["/dev", "/default"]
    );
    assert_eq!(theme_roots(&settings(Some(" "), None), &None), Vec::<String>::new());
    assert_eq!(dev_theme_dir(&settings(Some(" /dev "), None)).as_deref(), Some("/dev"));
    assert_eq!(dev_theme_dir(&settings(Some(" "), None)), None);
    assert_eq!(dev_theme_dir(&settings(None, None)), None);
}

#[test]
fn the_development_copy_is_found_first() {
    let found = vec![Some("/dev/a".to_string()), Some("/store/a".to_string())];
    assert_eq!(resolve_theme(&found, "a").unwrap(), "/dev/a");
    assert_eq!(resolve_theme(&vec![None, Some("/s".to_string())], "a").unwrap(), "/s");
    assert_eq!(
        resolve_theme(&vec![None, None], "a").unwrap_err().text(),
        "未找到主题: a"
    );
    let list = merged_theme_list(vec!["a"], vec!["a", "b"]);
    let origins: Vec<ThemeOrigin> = list.iter().map(|e| e.origin).collect();
    assert_eq!(
        origins,
        vec![ThemeOrigin::Dev, ThemeOrigin::Store, ThemeOrigin::Store]
    );
    assert_eq!(list[2].summary, "b");
}

#[test]
fn moving_the_store_overwrites_nothing() {
    let entry = |name: &str, package, taken| StoreEntry {
        name: name.to_string(),
        package,
        taken,
    };
    let report = migrate_store(
        "/old",
        "/new",
        &vec![
            entry("a", true, false),
            entry("junk", false, false),
            entry("b", true, true),
            entry("c", true, false),
        ],
    );
    assert_eq!(report.from, "/old");
    assert_eq!(report.to, "/new");
    assert_eq!(report.moved, vec!["a", "c"]);
    assert_eq!(report.skipped, vec!["b"]);
}

#[test]
fn the_store_does_not_move_into_itself() {
    let apart = StoreNesting {
        same: false,
        inside: false,
        around: false,
    };
    assert!(store_moves(apart).unwrap());
    assert!(!store_moves(StoreNesting { same: true, ..apart }).unwrap());
    for nesting in [
        StoreNesting { inside: true, ..apart },
        StoreNesting { around: true, ..apart },
    ] {
        assert_eq!(
            store_moves(nesting).unwrap_err().text(),
            "新目录不能嵌套在当前主题目录内"
        );
    }
    assert!(rebase_directive(true, true));
    assert!(!rebase_directive(true, false));
}

#[test]
fn a_directory_moves_by_rename_or_by_copy() {
    let mut flow = MoveFlow::start();
    flow.advance("/a", None);
    assert_eq!(flow.step, MoveStep::Finished);
    assert!(flow.error.is_none());

    let mut flow = MoveFlow::start();
    flow.advance("/a", Some("cross-device".to_string()));
    assert_eq!(flow.step, MoveStep::CopyTree);
    flow.advance("/a", None);
    assert_eq!(flow.step, MoveStep::RemoveSource);
    flow.advance("/a", Some("denied".to_string()));
    assert_eq!(flow.error.unwrap().text(), "清理旧目录失败: denied");

    let mut flow = MoveFlow::start();
    flow.advance("/a", Some("x".to_string()));
    flow.advance("/a", Some("full".to_string()));
    assert_eq!(flow.step, MoveStep::Finished);
    assert_eq!(flow.error.unwrap().text(), "迁移 /a 失败: full");
}

#[test]
fn paths_in_the_catalog() {
    assert_eq!(
        safe_catalog_path("packs/x-1_2.codexskin").unwrap(),
        "https://skins.agentsmirror.com/packs/x-1_2.codexskin"
    );
    for rel in ["", "https://x", "/x", "a/../b", "a b", "a?b", "a@b", "ä"] {
        assert_eq!(
            safe_catalog_path(rel).unwrap_err().text(),
            format!("目录条目路径非法: {rel}")
        );
    }
    assert_eq!(SKINS_BASE, "https://skins.agentsmirror.com");
    assert_eq!(
        (CATALOG_MAX_BYTES, PACK_MAX_BYTES, PREVIEW_MAX_BYTES),
        ("1048576", "52428800", "2097152")
    );
}

#[test]
fn the_index_is_filtered_and_ordered() {
    let mut short = skin("d", "1");
    short.sha256 = "00".to_string();
    let mut packless = skin("e", "1");
    packless.pack = String::new();
    let list = prepare_catalog(vec![
        skin("b", "1"),
        skin("a", "1"),
        short,
        skin("b", "2"),
        packless,
        skin("", "1"),
        skin("B", "1"),
    ]);
    let order: Vec<(&str, &str)> = list
        .iter()
        .map(|s| (s.id.as_str(), s.version.as_str()))
        .collect();
    assert_eq!(order, vec![("B", "1"), ("a", "1"), ("b", "1"), ("b", "2")]);
    assert_eq!(choose_skin(&list, "b").unwrap(), 2);
    assert_eq!(
        choose_skin(&list, "z").unwrap_err().text(),
        "目录中没有该皮肤: z"
    );
}

#[test]
fn what_follows_a_transfer() {
    let stderr = b"0x80092013";
    assert_eq!(
        after_first_transfer(true, true, Some(0), b""),
        FetchNext::Accept
    );
    assert_eq!(
        after_first_transfer(true, false, Some(35), stderr),
        FetchNext::ProbeRetry
    );
    assert_eq!(
        after_first_transfer(false, false, Some(35), stderr),
        FetchNext::Refuse
    );
    assert_eq!(
        after_first_transfer(true, false, None, stderr),
        FetchNext::Refuse
    );
    assert_eq!(
        transfer_failed("exit status: 22", "skins").text(),
        "下载失败 (exit status: 22): skins"
    );
    let plain = curl_args("https://u", "9", "15", false, true);
    assert_eq!(
        plain,
        vec![
            "-sSfL", "--proto", "=https", "--retry", "2", "--max-time", "15", "--max-filesize",
            "9", "https://u"
        ]
    );
    let best = curl_args("https://u", "9", "15", true, true);
    assert_eq!(best[0], "--ssl-revoke-best-effort");
    assert_eq!(best[1..], plain[..]);
}

#[test]
fn a_package_must_have_the_announced_digest() {
    let digest = "BA7816BF8F01CFEA414140DE5DAE2223B00361A396177A9CB410FF61F20015AD";
    assert!(check_pack("a", digest, b"abc").is_ok());
    assert_eq!(
        check_pack("a", digest, b"abd").unwrap_err().text(),
        "校验失败：a 的 sha256 与目录不符"
    );
    assert!(judge_digest("a", "ff", "FF").is_ok());
    assert!(judge_digest("a", "ff", "fe").is_err());
    assert_eq!(staging_name(12, "a"), "codexskin-online-12-a.codexskin");
}

#[test]
fn previews_are_cached_by_url_and_version() {
    assert_eq!(preview_cache_name("", "1.0/β"), "cbf29ce484222325-1.0__.webp");
    assert_eq!(preview_cache_name("a", ""), "af63dc4c8601ec8c-v.webp");
    assert_ne!(preview_cache_name("a", "1"), preview_cache_name("a", "2"));
    assert_eq!(preview_cache_name("a", "1/2"), preview_cache_name("a", "1_2"));
}

#[test]
fn only_whole_images_come_from_the_cache() {
    let webp = b"RIFF\x00\x00\x00\x00WEBPx".to_vec();
    assert!(is_webp(&webp));
    assert!(!is_webp(&webp[..11]));
    assert!(!is_webp(b"RIFX\x00\x00\x00\x00WEBPx"));
    match read_cached_preview(Some(webp.clone())) {
        CachedPreview::Hit(bytes) => assert_eq!(bytes, webp),
        other => panic!("{other:?}"),
    }
    assert!(matches!(
        read_cached_preview(Some(vec![1, 2])),
        CachedPreview::Damaged
    ));
    assert!(matches!(read_cached_preview(None), CachedPreview::Missing));
}

#[test]
fn previews_as_data() {
    assert_eq!(preview_mime("PNG"), Some("image/png"));
    assert_eq!(preview_mime("jpg"), Some("image/jpeg"));
    assert_eq!(preview_mime("Jpeg"), Some("image/jpeg"));
    assert_eq!(preview_mime("webp"), Some("image/webp"));
    assert_eq!(preview_mime("gif"), None);
    assert_eq!(data_url("image/png", b"Man1"), "data:image/png;base64,TWFuMQ==");
    assert_eq!(join_data_url("a/b", "c"), "data:a/b;base64,c");
}

#[test]
fn the_help_of_curl_names_the_option() {
    assert!(curl_supports_schannel_best_effort(
        b" --ssl-no-revoke\n --ssl-revoke-best-effort  Ignore\xff"
    ));
    assert!(!curl_supports_schannel_best_effort(b" --ssl-revoke-best"));
    assert!(!curl_supports_schannel_best_effort(b""));
}
