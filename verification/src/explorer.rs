use vstd::prelude::*;
use vstd::string::*;
use vstd::utf8::*;

use crate::text::{has_prefix, text_has_prefix, text_same};

verus! {

/// Where the explorer stands.
pub const EXPLORER_BASE_PATH: &'static str = "/explorer";

/// The files that the explorer has been built into: its page, which loads the rest, its script and
/// its style.
pub struct ExplorerFiles {
    pub index_html: &'static [u8],
    pub app_js: &'static [u8],
    pub app_css: &'static [u8],
}

/// The contents of `ExplorerFiles`.
#[verifier::ext_equal]
pub struct ExplorerFilesModel {
    pub index_html: Seq<u8>,
    pub app_js: Seq<u8>,
    pub app_css: Seq<u8>,
}

impl DeepView for ExplorerFiles {
    type V = ExplorerFilesModel;

    open spec fn deep_view(&self) -> ExplorerFilesModel {
        ExplorerFilesModel {
            index_html: self.index_html@,
            app_js: self.app_js@,
            app_css: self.app_css@,
        }
    }
}

/// A file of the explorer.
pub struct Asset {
    pub content_type: &'static str,
    pub cache_control: &'static str,
    pub body: &'static [u8],
}

/// The contents of `Asset`.
#[verifier::ext_equal]
pub struct AssetModel {
    pub content_type: Seq<char>,
    pub cache_control: Seq<char>,
    pub body: Seq<u8>,
}

impl DeepView for Asset {
    type V = AssetModel;

    open spec fn deep_view(&self) -> AssetModel {
        AssetModel {
            content_type: self.content_type@,
            cache_control: self.cache_control@,
            body: self.body@,
        }
    }
}

/// A file that is not to be cached.
pub open spec fn file(content_type: Seq<char>, body: Seq<u8>) -> AssetModel {
    AssetModel { content_type, cache_control: "no-cache"@, body }
}

/// Whether a path begins with another.
pub open spec fn is_under(path: Seq<char>, base: Seq<char>) -> bool {
    has_prefix(encode_utf8(path), encode_utf8(base))
}

/// The file at a path. Every path of the explorer that is no file shows its page, but for unknown
/// files.
pub open spec fn asset_at(files: ExplorerFilesModel, path: Seq<char>) -> Option<AssetModel> {
    if path == "/explorer/assets/app.js"@ {
        Some(file("text/javascript; charset=utf-8"@, files.app_js))
    } else if path == "/explorer/assets/app.css"@ {
        Some(file("text/css; charset=utf-8"@, files.app_css))
    } else if is_under(path, "/explorer/assets/"@) {
        None
    } else if path == EXPLORER_BASE_PATH@ || is_under(path, "/explorer/"@) {
        Some(file("text/html; charset=utf-8"@, files.index_html))
    } else {
        None
    }
}

/// Finds the file at a path.
pub fn asset(files: &ExplorerFiles, path: &str) -> (r: Option<Asset>)
    ensures
        r.deep_view() == asset_at(files.deep_view(), path@),
{
    if text_same(path, "/explorer/assets/app.js") {
        Some(
            Asset {
                content_type: "text/javascript; charset=utf-8",
                cache_control: "no-cache",
                body: files.app_js,
            },
        )
    } else if text_same(path, "/explorer/assets/app.css") {
        Some(
            Asset {
                content_type: "text/css; charset=utf-8",
                cache_control: "no-cache",
                body: files.app_css,
            },
        )
    } else if text_has_prefix(path, "/explorer/assets/") {
        None
    } else if text_same(path, EXPLORER_BASE_PATH) || text_has_prefix(path, "/explorer/") {
        Some(
            Asset {
                content_type: "text/html; charset=utf-8",
                cache_control: "no-cache",
                body: files.index_html,
            },
        )
    } else {
        None
    }
}

} // verus!
