use pinch::plugins::{assets, data, handlebars, markdown, sorted_positions};
use pinch::{Action, BuildError, Config, Context, InputFile, Pinch, PluginDefinition, PluginKind, PluginRole};

fn config_with(root: &str, paths: &[&str]) -> Config {
    let mut config = Config::new(root.to_string());
    config.files = Some(paths.iter().map(|p| InputFile::from_path(p.to_string(), false)).collect());
    config
}

fn sources_of(pairs: &[(&str, &str)]) -> Context {
    let mut sources = Context::new();
    for (k, v) in pairs {
        sources.insert(k.to_string(), v.to_string());
    }
    sources
}

fn write_to<'a>(actions: &'a [Action], path: &str) -> Option<&'a String> {
    actions.iter().find_map(|a| match a {
        Action::WriteFile(p, c) if p == path => Some(c),
        _ => None,
    })
}

#[test]
fn build_basic_site() {
    let config = config_with("example_apps/basic", &["example_apps/basic/pages/index.md"]);
    let mut pinch = Pinch::from_config(config);
    let sources = sources_of(&[("example_apps/basic/pages/index.md", "# pinch\n")]);
    let actions = pinch.build_with_defaults(sources).unwrap();
    assert_eq!(pinch.plugins.len(), 4);

    let index_contents = write_to(&actions, "example_apps/basic/dist/pages/index.html").unwrap();
    assert_eq!(index_contents.trim(), "<h1>pinch</h1>");
}

#[test]
fn build_complex_site() {
    let config = config_with(
        "example_apps/complex",
        &["example_apps/complex/data/site.json", "example_apps/complex/pages/index.md.mustache"],
    );
    let sources = sources_of(&[
        ("example_apps/complex/data/site.json", "{\"name\": \"Jeff\"}"),
        (
            "example_apps/complex/pages/index.md.mustache",
            "# Hello {{name}}\nWould you like to subscribe to cat facts?\n",
        ),
    ]);
    let actions = Pinch::from_config(config).build_with_defaults(sources).unwrap();

    let index_contents = write_to(&actions, "example_apps/complex/dist/pages/index.html").unwrap();
    assert_eq!(
        index_contents.trim(),
        "<h1>Hello Jeff</h1>\n<p>Would you like to subscribe to cat facts?</p>"
    );
}

#[test]
fn markdown_page_becomes_html() {
    let config = config_with("site", &["site/index.md"]);
    let mut pinch = Pinch::from_config(config);
    pinch.register_plugin(markdown::plugin());
    let actions = pinch.build(sources_of(&[("site/index.md", "# pinch")])).unwrap();
    assert_eq!(
        actions,
        vec![
            Action::CreateDirectory("site/dist".to_string()),
            Action::CreateDirectory("site/dist/".to_string()),
            Action::WriteFile("site/dist/index.html".to_string(), "<h1>pinch</h1>\n".to_string()),
        ]
    );
}

#[test]
fn template_is_rendered_registered_and_removed() {
    let config = config_with("site", &["site/page.mustache"]);
    let mut pinch = Pinch::from_config(config);
    pinch.register_plugin(handlebars::plugin());
    pinch.context.insert("name".to_string(), "Jeff".to_string());
    let actions = pinch.build(sources_of(&[("site/page.mustache", "Hello {{name}}")])).unwrap();
    assert_eq!(
        actions,
        vec![
            Action::CreateDirectory("site/dist".to_string()),
            Action::WriteFile("site/page".to_string(), "Hello Jeff".to_string()),
            Action::RemoveFile("site/page".to_string()),
        ]
    );
    let files = pinch.config.files.unwrap();
    assert_eq!(files.len(), 2);
    assert_eq!(files[1].path, "site/page");
    assert_eq!(files[1].filename, "page");
    assert_eq!(files[1].extension, "");
}

#[test]
fn rendered_markdown_template_is_processed() {
    let config = config_with("site", &["site/about.md.mustache"]);
    let mut pinch = Pinch::from_config(config);
    pinch.register_plugin(handlebars::plugin());
    pinch.register_plugin(markdown::plugin());
    pinch.context.insert("who".to_string(), "cats".to_string());
    let actions = pinch.build(sources_of(&[("site/about.md.mustache", "*{{who}}*")])).unwrap();
    assert_eq!(write_to(&actions, "site/about.md").unwrap(), "*cats*");
    assert_eq!(write_to(&actions, "site/dist/about.html").unwrap(), "<p><em>cats</em></p>\n");
    assert_eq!(actions.last().unwrap(), &Action::RemoveFile("site/about.md".to_string()));
}

#[test]
fn stylesheets_are_bundled_in_discovery_order() {
    let config = config_with("site", &["site/assets/a.css", "site/assets/b.css"]);
    let mut pinch = Pinch::from_config(config);
    pinch.register_plugin(assets::plugin());
    let actions = pinch.build(sources_of(&[("site/assets/a.css", "a{}"), ("site/assets/b.css", "b{}")])).unwrap();
    assert_eq!(
        actions,
        vec![
            Action::CreateDirectory("site/dist".to_string()),
            Action::CreateDirectory("site/dist/assets/".to_string()),
            Action::CopyFile("site/assets/a.css".to_string(), "site/dist/assets/a.css".to_string()),
            Action::CreateDirectory("site/dist/assets/".to_string()),
            Action::CopyFile("site/assets/b.css".to_string(), "site/dist/assets/b.css".to_string()),
            Action::CreateDirectory("site/dist/assets".to_string()),
            Action::WriteFile("site/dist/assets/app.css".to_string(), "a{}\nb{}".to_string()),
        ]
    );
    let bundles = actions.iter().filter(|a| matches!(a, Action::WriteFile(p, _) if p.ends_with("app.css"))).count();
    assert_eq!(bundles, 1);
}

#[test]
fn scripts_are_bundled_and_other_assets_copied() {
    let config = config_with("site", &["site/assets/app1.js", "site/assets/logo.png", "site/assets/app2.js"]);
    let mut pinch = Pinch::from_config(config);
    pinch.register_plugin(assets::plugin());
    let sources = sources_of(&[("site/assets/app1.js", "one()"), ("site/assets/app2.js", "two()")]);
    let actions = pinch.build(sources).unwrap();
    assert_eq!(write_to(&actions, "site/dist/assets/app.js").unwrap(), "one()\ntwo()");
    assert!(write_to(&actions, "site/dist/assets/app.css").is_none());
    assert!(actions.contains(&Action::CopyFile(
        "site/assets/logo.png".to_string(),
        "site/dist/assets/logo.png".to_string()
    )));
}

#[test]
fn later_data_file_wins_on_shared_key() {
    let config = config_with("site", &["site/data/a.json", "site/data/b.json"]);
    let mut pinch = Pinch::from_config(config);
    pinch.register_plugin(data::plugin());
    let sources = sources_of(&[
        ("site/data/a.json", "{\"title\": \"first\", \"only_a\": \"x\"}"),
        ("site/data/b.json", "{\"title\": \"second\"}"),
    ]);
    pinch.build(sources).unwrap();
    assert_eq!(pinch.context.get("title").unwrap(), "second");
    assert_eq!(pinch.context.get("only_a").unwrap(), "x");
}

#[test]
fn pre_process_twice_gives_same_context() {
    let run = || {
        let config = config_with("site", &["site/data/a.json"]);
        let mut pinch = Pinch::from_config(config);
        pinch.register_plugin(data::plugin());
        pinch.register_plugin(handlebars::plugin());
        let mut sources = sources_of(&[("site/data/a.json", "{\"k\": \"v\"}")]);
        let mut actions = Vec::new();
        pinch.pre_process(&mut sources, &mut actions).unwrap();
        pinch.context.get("k").cloned()
    };
    assert_eq!(run(), run());
    assert_eq!(run(), Some("v".to_string()));
}

#[test]
fn removing_unknown_plugin_changes_nothing() {
    let mut pinch = Pinch::from_config(config_with("site", &[]));
    pinch.register_plugin(markdown::plugin());
    assert!(pinch.remove_plugin("nope".to_string()).is_none());
    assert_eq!(pinch.plugins.len(), 1);
    assert_eq!(pinch.plugins[0].name, "markdown");
    let removed = pinch.remove_plugin("markdown".to_string()).unwrap();
    assert_eq!(removed.kind, PluginKind::Markdown);
    assert!(pinch.plugins.is_empty());
}

#[test]
fn registering_same_name_replaces() {
    let mut pinch = Pinch::from_config(config_with("site", &[]));
    pinch.register_plugin(markdown::plugin());
    pinch.register_plugin(data::plugin());
    pinch.register_plugin(PluginDefinition {
        name: "markdown".to_string(),
        role: PluginRole::Custom,
        kind: PluginKind::Markdown,
    });
    assert_eq!(pinch.plugins.len(), 2);
    assert_eq!(pinch.plugins[0].role, PluginRole::Custom);
    assert_eq!(pinch.plugins[1].name, "data");
}

#[test]
fn execution_order_follows_roles_then_registration() {
    let defs = vec![
        assets::plugin(),
        markdown::plugin(),
        data::plugin(),
        PluginDefinition { name: "prep".to_string(), role: PluginRole::Prep, kind: PluginKind::Data },
        handlebars::plugin(),
    ];
    assert_eq!(sorted_positions(&defs), vec![2, 3, 1, 4, 0]);
}

#[test]
fn missing_file_set_is_an_error() {
    let mut pinch = Pinch::from_config(Config::new("site".to_string()));
    assert_eq!(pinch.build(Context::new()), Err(BuildError::NoFiles));
}

#[test]
fn missing_root_is_an_error() {
    let mut config = config_with("site", &[]);
    config.root_directory_path = None;
    assert_eq!(Pinch::from_config(config).build(Context::new()), Err(BuildError::NoRoot));
}

#[test]
fn unsupplied_contents_are_an_error() {
    let mut pinch = Pinch::from_config(config_with("site", &["site/index.md"]));
    pinch.register_plugin(markdown::plugin());
    assert_eq!(pinch.build(Context::new()), Err(BuildError::Unreadable("site/index.md".to_string())));
}

#[test]
fn bad_data_file_is_an_error() {
    let mut pinch = Pinch::from_config(config_with("site", &["site/data/a.json"]));
    pinch.register_plugin(data::plugin());
    let sources = sources_of(&[("site/data/a.json", "[1, 2]")]);
    assert_eq!(pinch.build(sources), Err(BuildError::InvalidData("site/data/a.json".to_string())));
}

#[test]
fn bad_template_is_an_error() {
    let mut pinch = Pinch::from_config(config_with("site", &["site/t.mustache"]));
    pinch.register_plugin(handlebars::plugin());
    let sources = sources_of(&[("site/t.mustache", "{{#if}}")]);
    assert_eq!(pinch.build(sources), Err(BuildError::Template("site/t.mustache".to_string())));
}
