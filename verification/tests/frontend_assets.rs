use cunzhi::frontend_assets::{
    asset_check_outcome, check_frontend_assets_for_dist, extract_html_asset_refs,
    extract_nested_asset_refs, has_frontend_asset_extension, normalize_frontend_asset_ref,
    should_scan_asset_contents, AssetCheck, AssetWalk, EmbeddedAsset, FrontendAssetError,
};

fn chars(s: &str) -> Vec<char> {
    s.chars().collect()
}

fn norm(base: &str, value: &str) -> Option<String> {
    normalize_frontend_asset_ref(&chars(base), &chars(value)).map(|v| v.into_iter().collect())
}

#[test]
fn extracts_vite_asset_refs_from_index_html() {
    let assets = extract_html_asset_refs(
        r#"<script type="module" src="./assets/App-C1o7Wf8b.js"></script>
           <link rel="stylesheet" href="/assets/App-x0B7Cti3.css">
           <link rel="icon" href="https://example.com/icon.png">"#,
    );

    assert_eq!(
        assets,
        vec![
            "assets/App-C1o7Wf8b.js".to_string(),
            "assets/App-x0B7Cti3.css".to_string()
        ]
    );
}

#[test]
fn references_are_normalized_to_bundle_paths() {
    assert_eq!(norm("", "/assets/a.js?v=1#x"), Some("assets/a.js".to_string()));
    assert_eq!(norm("assets", "./b.css"), Some("assets/b.css".to_string()));
    assert_eq!(norm("assets/sub", "../c.svg"), Some("assets/c.svg".to_string()));
    assert_eq!(norm("", "../x.js"), None);
    assert_eq!(norm("", "data:image/png;base64,xx"), None);
    assert_eq!(norm("", "assets/readme"), None);
    assert_eq!(norm("", "//cdn.example.com/assets/a.js"), None);
    assert!(has_frontend_asset_extension(&chars("assets/font.woff2")));
    assert!(should_scan_asset_contents("assets/a.mjs"));
    assert!(!should_scan_asset_contents("assets/a.png"));
}

#[test]
fn nested_refs_follow_quotes_and_css_urls() {
    assert_eq!(
        extract_nested_asset_refs(
            r#"const deps=["./__uno-CFTwMXKY.css","./App-C1o7Wf8b.js"];import("./App-C1o7Wf8b.js");"#,
            "assets/index-BKqn0oKf.js"
        ),
        vec![
            "assets/App-C1o7Wf8b.js".to_string(),
            "assets/__uno-CFTwMXKY.css".to_string()
        ]
    );
    assert_eq!(
        extract_nested_asset_refs("body{background:url( './bg.png' )}", "assets/app.css"),
        vec!["assets/bg.png".to_string()]
    );
    assert_eq!(
        extract_nested_asset_refs(r#"s="a\"b./x.js"; t='./y.js'"#, "assets/m.js"),
        vec!["assets/y.js".to_string()]
    );
}

#[test]
fn the_walk_reaches_every_referenced_asset_once() {
    let mut walk = AssetWalk::start(
        r#"<script type="module" crossorigin src="./assets/index-BKqn0oKf.js"></script>"#,
    )
    .unwrap();
    let first = walk.next_asset().unwrap();
    assert_eq!(first, "assets/index-BKqn0oKf.js");
    assert_eq!(asset_check_outcome(&first, AssetCheck::File).unwrap(), true);
    walk.push_nested(
        r#"const deps=["./__uno-CFTwMXKY.css","./App-C1o7Wf8b.js"];import("./App-C1o7Wf8b.js");"#,
        &first,
    );
    let mut rest = Vec::new();
    while let Some(asset) = walk.next_asset() {
        rest.push(asset);
    }
    assert_eq!(rest.len(), 2);
    assert_eq!(
        walk.reached(),
        vec![
            "assets/App-C1o7Wf8b.js".to_string(),
            "assets/__uno-CFTwMXKY.css".to_string(),
            "assets/index-BKqn0oKf.js".to_string()
        ]
    );
}

#[test]
fn the_walk_reports_missing_and_empty_assets() {
    assert!(matches!(
        AssetWalk::start("<p>no assets</p>"),
        Err(FrontendAssetError::NoAssetRefs)
    ));
    assert!(matches!(
        asset_check_outcome("assets/index-Missing.js", AssetCheck::Missing),
        Err(FrontendAssetError::AssetMissing(ref a)) if a == "assets/index-Missing.js"
    ));
    assert!(matches!(
        asset_check_outcome("assets/a.js", AssetCheck::Empty),
        Err(FrontendAssetError::AssetEmpty(_))
    ));
    assert!(matches!(
        asset_check_outcome("assets/a.js", AssetCheck::NotAFile),
        Err(FrontendAssetError::AssetNotAFile(_))
    ));
}

#[test]
fn the_bundle_must_hold_index_and_every_asset() {
    let expected = vec!["assets/a.js".to_string(), "assets/b.css".to_string()];
    let full = vec![
        EmbeddedAsset { key: "index.html".to_string(), len: 10 },
        EmbeddedAsset { key: "assets/a.js".to_string(), len: 3 },
        EmbeddedAsset { key: "assets/b.css".to_string(), len: 3 },
    ];
    assert_eq!(check_frontend_assets_for_dist(&expected, &full), Ok(2));
    let stale = vec![
        EmbeddedAsset { key: "index.html".to_string(), len: 10 },
        EmbeddedAsset { key: "assets/b.css".to_string(), len: 0 },
    ];
    assert_eq!(
        check_frontend_assets_for_dist(&expected, &stale).unwrap_err(),
        "frontend embedded assets are stale or incomplete; missing from bundle: assets/a.js, assets/b.css"
    );
    assert_eq!(
        check_frontend_assets_for_dist(&expected, &vec![]).unwrap_err(),
        "frontend asset missing: index.html (embedded_assets=0). Run `pnpm build` before compiling the Tauri app, then rebuild the app bundle."
    );
}
