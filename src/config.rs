//! Command-line options and the build configuration derived from them.
use vstd::prelude::*;

verus! {

/// The command-line options of the site builder.
#[derive(Clone, Debug)]
pub struct CliArgs {
    pub input_dir: String,
    pub output_dir: String,
    pub components_dir: String,
    pub variables_config: String,
    pub release: bool,
    pub analyze_performance: bool,
    pub enable_seo: bool,
    pub seo_config: String,
    pub minify: bool,
    pub security_checks: bool,
    pub watch: bool,
    pub port: Option<u16>,
    pub ws_port: Option<u16>,
    pub clear_cache: bool,
    pub check_watchers: bool,
    pub check_image_processor: bool,
    pub verify_assets: bool,
    pub analyze_bundles: bool,
    pub lint: bool,
    pub memory_profile: bool,
    pub command: Option<Commands>,
}

/// Subcommands.
#[derive(Clone, Debug)]
pub enum Commands {
    /// Generate a starter site into a target directory.
    InitTemplate { target: String },
}

/// What a build does.
#[derive(Debug)]
pub struct BuildConfig {
    pub release: bool,
    pub analyze_performance: bool,
    pub enable_seo: bool,
    pub minify: bool,
    pub security_checks: bool,
    pub watch: bool,
    pub port: Option<u16>,
    pub ws_port: Option<u16>,
    pub variables_config: String,
    pub clear_cache: bool,
    pub check_watchers: bool,
    pub check_image_processor: bool,
    pub verify_assets: bool,
    pub analyze_bundles: bool,
    pub lint: bool,
    pub memory_profile: bool,
}

impl Default for BuildConfig {
    fn default() -> (r: Self)
        ensures
            !r.release && !r.analyze_performance && !r.enable_seo && !r.minify && !r.security_checks
                && !r.watch,
            r.port.is_none() && r.ws_port.is_none(),
            r.variables_config@ == "variables.toml"@,
            !r.clear_cache && !r.check_watchers && !r.check_image_processor && !r.verify_assets
                && !r.analyze_bundles && !r.lint && !r.memory_profile,
    {
        BuildConfig {
            release: false,
            analyze_performance: false,
            enable_seo: false,
            minify: false,
            security_checks: false,
            watch: false,
            port: None,
            ws_port: None,
            variables_config: crate::text::to_string("variables.toml"),
            clear_cache: false,
            check_watchers: false,
            check_image_processor: false,
            verify_assets: false,
            analyze_bundles: false,
            lint: false,
            memory_profile: false,
        }
    }
}

impl BuildConfig {
    /// The configuration the options ask for; a release build always
    /// minifies and runs the security checks.
    pub fn from(args: &CliArgs) -> (r: Self)
        ensures
            r.release == args.release,
            r.analyze_performance == args.analyze_performance,
            r.enable_seo == args.enable_seo,
            r.minify == (args.minify || args.release),
            r.security_checks == (args.security_checks || args.release),
            r.watch == args.watch,
            r.port == args.port,
            r.ws_port == args.ws_port,
            r.variables_config@ == args.variables_config@,
            r.clear_cache == args.clear_cache,
            r.check_watchers == args.check_watchers,
            r.check_image_processor == args.check_image_processor,
            r.verify_assets == args.verify_assets,
            r.analyze_bundles == args.analyze_bundles,
            r.lint == args.lint,
            r.memory_profile == args.memory_profile,
    {
        let mut config = BuildConfig {
            release: args.release,
            analyze_performance: args.analyze_performance,
            enable_seo: args.enable_seo,
            minify: args.minify,
            security_checks: args.security_checks,
            watch: args.watch,
            port: args.port,
            ws_port: args.ws_port,
            variables_config: args.variables_config.clone(),
            clear_cache: args.clear_cache,
            check_watchers: args.check_watchers,
            check_image_processor: args.check_image_processor,
            verify_assets: args.verify_assets,
            analyze_bundles: args.analyze_bundles,
            lint: args.lint,
            memory_profile: args.memory_profile,
        };
        if config.release {
            config.minify = true;
            config.security_checks = true;
        }
        config
    }
}

} // verus!
