//! The single HTML page of the web client, with the script tags that load
//! its bundle either from a development server or from a release build.
use vstd::prelude::*;

use crate::outside::{replace_all, replaced};

verus! {

/// Where the page's scripts come from.
pub enum ViteConfig {
    /// A development server at `origin`, with hot reloading.
    Dev { origin: String },
    /// A release build under `root`, described by its manifest.
    Release { root: String },
}

/// What a release manifest says of the page's entry point: its script and
/// its style sheets.
pub struct ViteChunk {
    pub file: String,
    pub css: Option<Vec<String>>,
}

/// The marker in the page template that the script tags replace.
pub const FOOTER_MARKER: &'static str = "{{GENERATED_VITE_FOOTER}}";

pub const DEV_HEAD: &'static str = "\n<script type=\"module\">\n  import RefreshRuntime from '";

pub const DEV_PREAMBLE: &'static str = "/@react-refresh'\n  RefreshRuntime.injectIntoGlobalHook(window)\n  window.$RefreshReg$ = () => {}\n  window.$RefreshSig$ = () => (type) => type\n  window.__vite_plugin_react_preamble_installed__ = true\n</script>\n<script type=\"module\" src=\"";

pub const DEV_CLIENT: &'static str = "/@vite/client\"></script>\n<script type=\"module\" src=\"";

pub const DEV_TAIL: &'static str = "/app.tsx\"></script>\n";

pub const CSS_HEAD: &'static str = "<link rel='stylesheet' href='/";

pub const CSS_TAIL: &'static str = "'>";

pub const NEWLINE: &'static str = "\n";

pub const RELEASE_HEAD: &'static str = "\n            ";

pub const RELEASE_SCRIPT: &'static str = "\n            <script type=\"module\" src=\"/";

pub const RELEASE_TAIL: &'static str = "\"></script>\n            ";

/// The script tags that load the page from a development server.
pub open spec fn dev_footer(origin: Seq<char>) -> Seq<char> {
    DEV_HEAD@ + origin + DEV_PREAMBLE@ + origin + DEV_CLIENT@ + origin + DEV_TAIL@
}

/// The link tag of one style sheet.
pub open spec fn css_tag(path: Seq<char>) -> Seq<char> {
    CSS_HEAD@ + path + CSS_TAIL@
}

/// The link tags of the style sheets `css`, one per line.
pub open spec fn css_tags(css: Seq<String>) -> Seq<char>
    decreases css.len(),
{
    if css.len() == 0 {
        Seq::empty()
    } else if css.len() == 1 {
        css_tag(css[0]@)
    } else {
        css_tags(css.drop_last()) + NEWLINE@ + css_tag(css.last()@)
    }
}

/// The style sheets of a chunk; none where the manifest lists none.
pub open spec fn chunk_css(chunk: &ViteChunk) -> Seq<String> {
    match chunk.css {
        Some(v) => v@,
        None => Seq::empty(),
    }
}

/// The tags that load the page from a release build.
pub open spec fn release_footer(chunk: &ViteChunk) -> Seq<char> {
    RELEASE_HEAD@ + css_tags(chunk_css(chunk)) + RELEASE_SCRIPT@ + chunk.file@ + RELEASE_TAIL@
}

/// The footer for a configuration; for a release build, `None` where the
/// manifest has no entry for the page.
pub open spec fn vite_footer(config: &ViteConfig, app_chunk: Option<&ViteChunk>) -> Option<
    Seq<char>,
> {
    match config {
        ViteConfig::Dev { origin } => Some(dev_footer(origin@)),
        ViteConfig::Release { .. } => match app_chunk {
            Some(c) => Some(release_footer(c)),
            None => None,
        },
    }
}

/// The rendered page.
pub struct AppHtml {
    content: String,
}

impl AppHtml {
    pub closed spec fn view(&self) -> Seq<char> {
        self.content@
    }

    pub fn as_str(&self) -> (r: &str)
        ensures
            r@ == self@,
    {
        self.content.as_str()
    }

    /// Renders `template` for `vite_config`. `app_chunk` is the manifest's
    /// entry for the page, which only a release build reads. `None` for a
    /// release build whose manifest has no such entry.
    pub fn init(template: &str, vite_config: &ViteConfig, app_chunk: Option<&ViteChunk>) -> (r:
        Option<Self>)
        ensures
            vite_footer(vite_config, app_chunk) matches Some(f) ==> (r matches Some(h) && h@
                == replaced(template@, FOOTER_MARKER@, f)),
            vite_footer(vite_config, app_chunk) is None ==> r is None,
    {
        match Self::get_vite_footer(vite_config, app_chunk) {
            Some(footer) => Some(AppHtml { content: Self::get_content(template, footer.as_str()) }),
            None => None,
        }
    }

    fn get_content(template: &str, footer: &str) -> (r: String)
        ensures
            r@ == replaced(template@, FOOTER_MARKER@, footer@),
    {
        replace_all(template, FOOTER_MARKER, footer)
    }

    pub fn get_vite_footer(vite_config: &ViteConfig, app_chunk: Option<&ViteChunk>) -> (r: Option<
        String,
    >)
        ensures
            vite_footer(vite_config, app_chunk) matches Some(f) ==> (r matches Some(s) && s@ == f),
            vite_footer(vite_config, app_chunk) is None ==> r is None,
    {
        match vite_config {
            ViteConfig::Dev { origin } => Some(Self::get_vite_dev_footer(origin.as_str())),
            ViteConfig::Release { .. } => match app_chunk {
                Some(c) => Some(Self::get_vite_release_footer(c)),
                None => None,
            },
        }
    }

    pub fn get_vite_dev_footer(origin: &str) -> (r: String)
        ensures
            r@ == dev_footer(origin@),
    {
        let mut out = String::from_str(DEV_HEAD);
        out.append(origin);
        out.append(DEV_PREAMBLE);
        out.append(origin);
        out.append(DEV_CLIENT);
        out.append(origin);
        out.append(DEV_TAIL);
        assert(out@ =~= dev_footer(origin@));
        out
    }

    fn get_css_tags(css: &Vec<String>) -> (r: String)
        ensures
            r@ == css_tags(css@),
    {
        let mut out = String::new();
        let mut i: usize = 0;
        while i < css.len()
            invariant
                i <= css@.len(),
                out@ == css_tags(css@.subrange(0, i as int)),
            decreases css@.len() - i,
        {
            proof {
                let next = css@.subrange(0, i + 1);
                assert(next.drop_last() =~= css@.subrange(0, i as int));
                assert(next.last() == css@[i as int]);
            }
            if i > 0 {
                out.append(NEWLINE);
            }
            out.append(CSS_HEAD);
            out.append(css[i].as_str());
            out.append(CSS_TAIL);
            proof {
                let next = css@.subrange(0, i + 1);
                if i == 0 {
                    assert(css@.subrange(0, 0).len() == 0);
                    assert(out@ =~= css_tag(css@[0]@));
                } else {
                    assert(out@ =~= css_tags(next.drop_last()) + NEWLINE@ + css_tag(next.last()@));
                }
            }
            i = i + 1;
        }
        assert(css@.subrange(0, css@.len() as int) =~= css@);
        out
    }

    pub fn get_vite_release_footer(app_chunk: &ViteChunk) -> (r: String)
        ensures
            r@ == release_footer(app_chunk),
    {
        let tags = match &app_chunk.css {
            Some(css) => Self::get_css_tags(css),
            None => String::new(),
        };
        let mut out = String::from_str(RELEASE_HEAD);
        out.append(tags.as_str());
        out.append(RELEASE_SCRIPT);
        out.append(app_chunk.file.as_str());
        out.append(RELEASE_TAIL);
        assert(out@ =~= release_footer(app_chunk));
        out
    }
}

} // verus!
