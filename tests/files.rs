use pinch::plugins::markdown;
use pinch::utils::{file_extension, to_string};
use pinch::{Config, Context, InputFile};

#[test]
fn extension_is_read_from_last_component() {
    assert_eq!(file_extension("pages/index.md"), ".md");
    assert_eq!(file_extension("a.b/c"), "");
    assert_eq!(file_extension("archive.tar.gz"), ".gz");
    assert_eq!(file_extension(".bashrc"), "");
    assert_eq!(file_extension("name."), ".");
    assert_eq!(file_extension(".."), "");
    assert_eq!(file_extension(""), "");
}

#[test]
fn to_string_falls_back_to_default() {
    let s = "given".to_string();
    assert_eq!(to_string(Some(&s), "default"), "given");
    assert_eq!(to_string(None, "default"), "default");
}

#[test]
fn from_path_splits_name_and_extension() {
    let f = InputFile::from_path("root/pages/page.md".to_string(), false);
    assert_eq!(f.filename, "page.md");
    assert_eq!(f.extension, ".md");
    assert_eq!(f.path, "root/pages/page.md");
    assert!(!f.is_directory);
}

#[test]
fn replace_extensions_rewrites_name_and_path() {
    let f = InputFile::from_path("root/pages/page.md".to_string(), false);
    let g = f.replace_extensions(".html");
    assert_eq!(g.filename, "page.html");
    assert_eq!(g.path, "root/pages/page.html");
    assert_eq!(g.extension, ".html");
    assert_eq!(f.filename, "page.md");

    let t = InputFile::from_path("root/page.mustache".to_string(), false).replace_extensions("");
    assert_eq!(t.filename, "page");
    assert_eq!(t.path, "root/page");
    assert_eq!(t.extension, "");
}

#[test]
fn replace_extension_replaces_first_occurrence_only() {
    let f = InputFile::from_path("root/a.md.d/b.md".to_string(), false);
    assert_eq!(f.replace_path_extension(".html"), "root/a.html.d/b.md");
    assert_eq!(f.replace_filename_extension(".html"), "b.html");
}

#[test]
fn stripping_an_extension_twice_is_a_no_op() {
    let once = InputFile::from_path("page.md".to_string(), false).replace_extensions("");
    assert_eq!(once.filename, "page");
    let stripped = InputFile { extension: ".md".to_string(), ..once.duplicate() };
    assert_eq!(stripped.replace_filename_extension(""), "page");
    assert_eq!(stripped.replace_path_extension(""), "page");
    let twice = once.replace_extensions("");
    assert_eq!(twice, once);
}

#[test]
fn in_directory_is_relative_to_root() {
    let f = InputFile::from_path("site/assets/app.css".to_string(), false);
    assert!(f.is_in_directory("assets".to_string(), "site".to_string()));
    assert!(!f.is_in_directory("data".to_string(), "site".to_string()));
    assert!(!f.is_in_directory("assets".to_string(), "other".to_string()));
}

#[test]
fn is_extension_compares_exactly() {
    let f = InputFile::from_path("x/y.css".to_string(), false);
    assert!(f.is_extension(".css"));
    assert!(!f.is_extension("css"));
}

#[test]
fn output_directory_drops_file_name() {
    let f = InputFile::from_path("site/pages/index.md".to_string(), false);
    assert_eq!(f.output_directory("site/dist/pages/index.md"), "site/dist/pages/");
    assert_eq!(f.output_directory("elsewhere"), "elsewhere");
}

#[test]
fn output_filename_maps_root_to_output() {
    let mut config = Config::new("site".to_string());
    let f = InputFile::from_path("site/pages/index.md".to_string(), false);
    assert_eq!(config.output_filename(&f), "site/dist/pages/index.md");
    config.output_directory_name = Some("public".to_string());
    assert_eq!(config.output_filename(&f), "site/public/pages/index.md");
    let outside = InputFile::from_path("other/x.md".to_string(), false);
    assert_eq!(config.output_filename(&outside), "other/x.md");
}

#[test]
fn defaults_of_directory_names() {
    let config = Config::new("site".to_string());
    assert_eq!(config.assets_directory_name(), "assets");
    assert_eq!(config.data_directory_name(), "data");
    assert_eq!(config.output_directory_name(), "dist");
    assert_eq!(config.config_filename(), "inapinch.toml");
    assert_eq!(config.root_directory_path(), "site");
}

#[test]
fn discovery_skips_output_settings_and_directories() {
    let config = Config::new("site".to_string());
    let entries = vec![
        InputFile::from_path("site".to_string(), true),
        InputFile::from_path("site/inapinch.toml".to_string(), false),
        InputFile::from_path("site/dist/index.html".to_string(), false),
        InputFile::from_path("site/pages/index.md".to_string(), false),
        InputFile::from_path("site/assets/app.css".to_string(), false),
    ];
    let found = config.find_files(&entries);
    let paths: Vec<&str> = found.iter().map(|f| f.path.as_str()).collect();
    assert_eq!(paths, vec!["site/pages/index.md", "site/assets/app.css"]);
}

#[test]
fn context_last_write_wins() {
    let mut ctx = Context::new();
    ctx.insert("k".to_string(), "1".to_string());
    ctx.merge(vec![("k".to_string(), "2".to_string()), ("j".to_string(), "3".to_string())]);
    assert_eq!(ctx.get("k").unwrap(), "2");
    assert_eq!(ctx.get("j").unwrap(), "3");
    assert!(ctx.get("missing").is_none());
}

#[test]
fn markdown_renders_with_tables_and_strikethrough() {
    assert_eq!(markdown::default_markdown_options(), 10);
    assert_eq!(markdown::process("# pinch").trim(), "<h1>pinch</h1>");
    assert!(markdown::process("| a | b |\n|---|---|\n| 1 | 2 |\n").contains("<table>"));
    assert_eq!(markdown::process("~~x~~").trim(), "<p><del>x</del></p>");
    assert_eq!(markdown::output_filename("site/dist/page.md"), "site/dist/page.html");
    let f = InputFile::from_path("a/b.md".to_string(), false);
    assert!(markdown::applies(&f));
    assert!(!markdown::applies(&InputFile::from_path("a/b.mdx".to_string(), false)));
}
