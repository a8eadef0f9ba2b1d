//! Options and page data for rendering whole documents.
use vstd::prelude::*;
use crate::component::{pair_put, pairs_unique, pairs_view};
use crate::html::Html;

verus! {

/// Where a rendered page goes.
#[derive(Debug, Clone, Copy, PartialEq, Eq, Hash, Structural)]
pub enum RenderTarget {
    Server,
    Static,
    Development,
    Client,
}

/// How style sheets are included.
#[derive(Debug, Clone, Copy, PartialEq, Eq, Hash, Structural)]
pub enum CssStrategy {
    Inline,
    External,
    Critical,
    /// No style sheets.
    Omitted,
}

/// How scripts are included.
#[derive(Debug, Clone, Copy, PartialEq, Eq, Hash, Structural)]
pub enum JsStrategy {
    Inline,
    External,
    /// No scripts.
    Omitted,
    Progressive,
}

/// Options for rendering a document.
#[derive(Debug)]
pub struct RenderOptions {
    pub minify: bool,
    pub pretty: bool,
    pub source_maps: bool,
    pub doctype: Option<String>,
    pub head_elements: Vec<Html>,
    pub body_attributes: Vec<(String, String)>,
    pub css_strategy: CssStrategy,
    pub js_strategy: JsStrategy,
}

impl RenderOptions {
    /// The defaults: no minifying or pretty printing, no source maps, the
    /// HTML5 doctype, no extra head elements or body attributes, external
    /// styles and scripts.
    pub fn new() -> (r: Self)
        ensures
            !r.minify && !r.pretty && !r.source_maps,
            r.doctype is Some && r.doctype->0@ == "<!DOCTYPE html>"@,
            r.head_elements@.len() == 0,
            r.body_attributes@.len() == 0,
            r.css_strategy == CssStrategy::External,
            r.js_strategy == JsStrategy::External,
    {
        RenderOptions {
            minify: false,
            pretty: false,
            source_maps: false,
            doctype: Some("<!DOCTYPE html>".to_string()),
            head_elements: Vec::new(),
            body_attributes: Vec::new(),
            css_strategy: CssStrategy::External,
            js_strategy: JsStrategy::External,
        }
    }

    /// Turns minifying on.
    pub fn minified(self) -> (r: Self)
        ensures
            r == (RenderOptions { minify: true, ..self }),
    {
        RenderOptions { minify: true, ..self }
    }

    /// Turns pretty printing on.
    pub fn pretty(self) -> (r: Self)
        ensures
            r == (RenderOptions { pretty: true, ..self }),
    {
        RenderOptions { pretty: true, ..self }
    }

    /// Sets how style sheets are included.
    pub fn css_strategy(self, strategy: CssStrategy) -> (r: Self)
        ensures
            r == (RenderOptions { css_strategy: strategy, ..self }),
    {
        RenderOptions { css_strategy: strategy, ..self }
    }

    /// Sets how scripts are included.
    pub fn js_strategy(self, strategy: JsStrategy) -> (r: Self)
        ensures
            r == (RenderOptions { js_strategy: strategy, ..self }),
    {
        RenderOptions { js_strategy: strategy, ..self }
    }

    /// Appends an element to the document head.
    pub fn with_head_element(self, element: Html) -> (r: Self)
        ensures
            r.head_elements@ == self.head_elements@.push(element),
            r.minify == self.minify && r.pretty == self.pretty && r.source_maps == self.source_maps,
            r.doctype == self.doctype && r.body_attributes == self.body_attributes,
            r.css_strategy == self.css_strategy && r.js_strategy == self.js_strategy,
    {
        let mut o = self;
        o.head_elements.push(element);
        o
    }

    /// Sets attribute `key` of the document body.
    pub fn with_body_attribute(self, key: &str, value: &str) -> (r: Self)
        ensures
            pairs_view(r.body_attributes@) == pair_put(pairs_view(self.body_attributes@), key@, value@),
            pairs_unique(pairs_view(self.body_attributes@)) ==> pairs_unique(
                pairs_view(r.body_attributes@),
            ),
            r.minify == self.minify && r.pretty == self.pretty && r.source_maps == self.source_maps,
            r.doctype == self.doctype && r.head_elements == self.head_elements,
            r.css_strategy == self.css_strategy && r.js_strategy == self.js_strategy,
    {
        let mut o = self;
        proof {
            if pairs_unique(pairs_view(self.body_attributes@)) {
                crate::component::lemma_pair_put_unique(pairs_view(self.body_attributes@), key@, value@);
            }
        }
        crate::component::put_pair(&mut o.body_attributes, key, value);
        o
    }
}

/// What a renderer can do.
#[derive(Debug, Clone, Copy, PartialEq, Eq)]
pub struct RendererCapabilities {
    pub ssr: bool,
    pub static_gen: bool,
    pub hot_reload: bool,
    pub streaming: bool,
    pub caching: bool,
}

/// How a renderer caches and where it finds templates and components.
#[derive(Debug, Clone)]
pub struct RendererConfig {
    pub cache_enabled: bool,
    pub cache_ttl: u64,
    pub max_cache_size: usize,
    pub streaming: bool,
    pub template_dirs: Vec<String>,
    pub component_dirs: Vec<String>,
}

/// A `<meta>` tag.
#[derive(Debug, Clone)]
pub struct MetaTag {
    pub name: Option<String>,
    pub property: Option<String>,
    pub content: String,
    pub charset: Option<String>,
    pub http_equiv: Option<String>,
}

/// A `<link>` tag.
#[derive(Debug, Clone)]
pub struct LinkTag {
    pub rel: String,
    pub href: String,
    pub media: Option<String>,
    pub sizes: Option<String>,
    pub crossorigin: Option<String>,
}

/// Page metadata for the document head.
#[derive(Debug, Clone, Default)]
pub struct PageData {
    pub title: Option<String>,
    pub description: Option<String>,
    pub keywords: Vec<String>,
    pub og: Vec<(String, String)>,
    pub twitter: Vec<(String, String)>,
    pub canonical: Option<String>,
    pub lang: Option<String>,
    pub meta: Vec<MetaTag>,
    pub links: Vec<LinkTag>,
}

/// What a template compiler knows while it works: variables, imports and
/// the types of components.
#[derive(Debug, Clone, Default)]
pub struct CompileContext {
    pub variables: Vec<(String, String)>,
    pub imports: Vec<String>,
    pub component_types: Vec<(String, String)>,
}

} // verus!
