//! A static-site build library: component expansion with cycle detection,
//! memoized component lookup, build-job planning, and the decision logic of
//! a watching development server.
pub mod text;
pub mod tag;
pub mod resolver;
pub mod render;
pub mod watch;
pub mod html;
pub mod batch;
pub mod config;
pub mod seo;
pub mod seo_types;
pub mod analyzer;
pub mod markdown;
pub mod troubleshooting;
pub mod minify;
pub mod variables;
pub mod seo_gen;
pub mod seo_html;

pub use analyzer::{Analyzer, PerformanceReport, SecurityReport};
pub use batch::{build_page, summarize, BuildError, BuildReport, JobOutcome};
pub use config::{BuildConfig, CliArgs};
pub use html::HtmlGenerator;
pub use markdown::{markdown_to_html, BlogFrontMatter, BlogPost, BlogProcessor};
pub use minify::Minifier;
pub use render::Renderer;
pub use resolver::ComponentResolver;
pub use seo::SEOConfig;
pub use seo_gen::{robots_txt, sitemap_xml};
pub use seo_types::PageSEO;
pub use variables::{MacroProcessor, Variables};
pub use watch::{ChangeType, DevSession, FileChange};
