use mrk_core::explorer::{asset, ExplorerFiles};

const FILES: ExplorerFiles = ExplorerFiles {
    index_html: b"<!doctype html><title>MRK</title>",
    app_js: b"start();",
    app_css: b"body {}",
};

#[test]
fn history_routes_fall_back_to_index() {
    let asset = asset(&FILES, "/explorer/blocks/42").expect("history route");
    assert_eq!(asset.content_type, "text/html; charset=utf-8");
    assert!(asset.body.starts_with(b"<!doctype html>"));
}

#[test]
fn unknown_assets_do_not_fall_back_to_index() {
    assert!(asset(&FILES, "/explorer/assets/missing.js").is_none());
}

#[test]
fn files_are_served_with_their_types() {
    assert_eq!(
        asset(&FILES, "/explorer/assets/app.js").unwrap().content_type,
        "text/javascript; charset=utf-8"
    );
    assert_eq!(
        asset(&FILES, "/explorer/assets/app.css").unwrap().content_type,
        "text/css; charset=utf-8"
    );
    assert_eq!(asset(&FILES, "/explorer").unwrap().cache_control, "no-cache");
    assert_eq!(asset(&FILES, "/explorer/assets/app.js").unwrap().body, b"start();");
    assert_eq!(asset(&FILES, "/explorer/assets/app.css").unwrap().body, b"body {}");
    assert_eq!(asset(&FILES, "/explorer/").unwrap().body, FILES.index_html);
}

#[test]
fn other_paths_hold_no_file() {
    assert!(asset(&FILES, "/").is_none());
    assert!(asset(&FILES, "/explorers").is_none());
}
