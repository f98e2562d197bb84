//! The files of the frontend: which file a path stands for, and how it is served.

use vstd::prelude::*;
use crate::model::opt_view;
use crate::text::same;

verus! {

/// A file and how it is served.
pub struct Asset {
    pub file: String,
    pub content_type: String,
    /// How long clients may keep it, where that is said.
    pub cache_control: Option<String>,
    /// The paths that it may control as a service worker.
    pub worker_scope: Option<String>,
}

/// A file and how it is served, over sequences.
pub struct AssetView {
    pub file: Seq<char>,
    pub content_type: Seq<char>,
    pub cache_control: Option<Seq<char>>,
    pub worker_scope: Option<Seq<char>>,
}

impl View for Asset {
    type V = AssetView;

    open spec fn view(&self) -> AssetView {
        AssetView {
            file: self.file@,
            content_type: self.content_type@,
            cache_control: opt_view(self.cache_control),
            worker_scope: opt_view(self.worker_scope),
        }
    }
}

/// A file that never changes.
pub open spec fn lasting(file: Seq<char>, content_type: Seq<char>) -> AssetView {
    AssetView {
        file,
        content_type,
        cache_control: Some("public, max-age=31536000, immutable"@),
        worker_scope: None,
    }
}

/// The file that a path stands for. A path that stands for no other file stands for the page of
/// the application.
pub open spec fn asset_at(path: Seq<char>) -> AssetView {
    if path == "/sw.js"@ {
        AssetView {
            file: "sw.js"@,
            content_type: "application/javascript; charset=utf-8"@,
            cache_control: Some("no-cache"@),
            worker_scope: Some("/"@),
        }
    } else if path == "/assets/streamsaver.js"@ {
        lasting("vendor/streamsaver.min.js"@, "application/javascript; charset=utf-8"@)
    } else if path == "/assets/streamsaver-sw.js"@ {
        lasting("vendor/streamsaver_sw.js"@, "application/javascript; charset=utf-8"@)
    } else if path == "/assets/streamsaver-mitm.html"@ {
        lasting("vendor/mitm.html"@, "text/html; charset=utf-8"@)
    } else if path == "/assets/jszip.js"@ {
        lasting("vendor/jszip.min.js"@, "application/javascript; charset=utf-8"@)
    } else if path == "/assets/fflate.js"@ {
        lasting("vendor/fflate.umd.js"@, "application/javascript; charset=utf-8"@)
    } else if path == "/assets/marked.js"@ {
        lasting("vendor/marked.min.js"@, "application/javascript; charset=utf-8"@)
    } else if path == "/assets/fonts-inline.css"@ {
        lasting("vendor/fonts_inline.css"@, "text/css; charset=utf-8"@)
    } else {
        AssetView {
            file: "index.html"@,
            content_type: "text/html; charset=utf-8"@,
            cache_control: None,
            worker_scope: None,
        }
    }
}

/// A file that never changes.
fn text_response(file: &str, content_type: &str) -> (r: Asset)
    ensures
        r@ == lasting(file@, content_type@),
{
    Asset {
        file: file.to_owned(),
        content_type: content_type.to_owned(),
        cache_control: Some("public, max-age=31536000, immutable".to_owned()),
        worker_scope: None,
    }
}

/// The file that a path stands for.
pub fn find_asset(path: &str) -> (r: Asset)
    ensures
        r@ == asset_at(path@),
{
    let script = "application/javascript; charset=utf-8";
    if same(path, "/sw.js") {
        Asset {
            file: "sw.js".to_owned(),
            content_type: script.to_owned(),
            cache_control: Some("no-cache".to_owned()),
            worker_scope: Some("/".to_owned()),
        }
    } else if same(path, "/assets/streamsaver.js") {
        text_response("vendor/streamsaver.min.js", script)
    } else if same(path, "/assets/streamsaver-sw.js") {
        text_response("vendor/streamsaver_sw.js", script)
    } else if same(path, "/assets/streamsaver-mitm.html") {
        text_response("vendor/mitm.html", "text/html; charset=utf-8")
    } else if same(path, "/assets/jszip.js") {
        text_response("vendor/jszip.min.js", script)
    } else if same(path, "/assets/fflate.js") {
        text_response("vendor/fflate.umd.js", script)
    } else if same(path, "/assets/marked.js") {
        text_response("vendor/marked.min.js", script)
    } else if same(path, "/assets/fonts-inline.css") {
        text_response("vendor/fonts_inline.css", "text/css; charset=utf-8")
    } else {
        Asset {
            file: "index.html".to_owned(),
            content_type: "text/html; charset=utf-8".to_owned(),
            cache_control: None,
            worker_scope: None,
        }
    }
}

} // verus!
