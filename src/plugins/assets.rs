//! The assets plugin: after the build, copies every file of the assets
//! directory to the output and bundles stylesheets and scripts.
use vstd::prelude::*;
use crate::action::{Action, ActionView, BuildError, ErrorView, action_views};
use crate::config::{output_path_of, views, Config};
use crate::context::Context;
use crate::file::{parent_of, FileView, InputFile};
use crate::plugins::{PluginDefinition, PluginKind, PluginRole};
use crate::text::join3;

verus! {

/// The plugin, named `assets`, with the Custom role.
pub fn plugin() -> (r: PluginDefinition)
    ensures
        r.name@ == "assets"@,
        r.role == PluginRole::Custom,
        r.kind == PluginKind::Assets,
{
    PluginDefinition { name: "assets".to_string(), role: PluginRole::Custom, kind: PluginKind::Assets }
}

/// The texts of `s` joined by newlines.
pub open spec fn join_lines(s: Seq<Seq<char>>) -> Seq<char>
    decreases s.len(),
{
    if s.len() == 0 {
        Seq::empty()
    } else if s.len() == 1 {
        s[0]
    } else {
        join_lines(s.drop_last()) + seq!['\n'] + s.last()
    }
}

/// Walks `files` from position `i` on; each asset is copied to its output
/// place, and the texts of stylesheets and scripts are gathered in order.
pub open spec fn scan_assets(
    files: Seq<FileView>,
    i: int,
    assets: Seq<char>,
    root: Seq<char>,
    out: Seq<char>,
    sources: Map<Seq<char>, Seq<char>>,
    css: Seq<Seq<char>>,
    js: Seq<Seq<char>>,
    acts: Seq<ActionView>,
) -> Result<(Seq<Seq<char>>, Seq<Seq<char>>, Seq<ActionView>), ErrorView>
    decreases files.len() - i,
{
    if i < 0 || i >= files.len() {
        Ok((css, js, acts))
    } else if files[i].in_directory(assets, root) {
        let f = files[i];
        let to = output_path_of(f.path, root, out);
        let acts2 = acts.push(ActionView::CreateDirectory(parent_of(to, f.filename))).push(
            ActionView::CopyFile(f.path, to),
        );
        if f.extension == ".css"@ || f.extension == ".js"@ {
            if !sources.contains_key(f.path) {
                Err(ErrorView::Unreadable(f.path))
            } else if f.extension == ".css"@ {
                scan_assets(files, i + 1, assets, root, out, sources, css.push(sources[f.path]), js, acts2)
            } else {
                scan_assets(files, i + 1, assets, root, out, sources, css, js.push(sources[f.path]), acts2)
            }
        } else {
            scan_assets(files, i + 1, assets, root, out, sources, css, js, acts2)
        }
    } else {
        scan_assets(files, i + 1, assets, root, out, sources, css, js, acts)
    }
}

/// Where the bundles go: `root/out/assets`.
pub open spec fn bundle_dir(root: Seq<char>, out: Seq<char>, assets: Seq<char>) -> Seq<char> {
    root + seq!['/'] + out + seq!['/'] + assets
}

/// The bundle writes: `app.css` and `app.js`, each only when it has content.
pub open spec fn bundle_actions(css: Seq<Seq<char>>, js: Seq<Seq<char>>, dir: Seq<char>) -> Seq<ActionView> {
    if css.len() == 0 && js.len() == 0 {
        Seq::empty()
    } else {
        seq![ActionView::CreateDirectory(dir)] + (if css.len() > 0 {
            seq![ActionView::WriteFile(dir + "/app.css"@, join_lines(css))]
        } else {
            Seq::empty()
        }) + (if js.len() > 0 {
            seq![ActionView::WriteFile(dir + "/app.js"@, join_lines(js))]
        } else {
            Seq::empty()
        })
    }
}

/// Everything the plugin does after the build, in order.
pub open spec fn asset_actions(
    files: Seq<FileView>,
    assets: Seq<char>,
    root: Seq<char>,
    out: Seq<char>,
    sources: Map<Seq<char>, Seq<char>>,
) -> Result<Seq<ActionView>, ErrorView> {
    match scan_assets(files, 0, assets, root, out, sources, Seq::empty(), Seq::empty(), Seq::empty()) {
        Ok((css, js, acts)) => Ok(acts + bundle_actions(css, js, bundle_dir(root, out, assets))),
        Err(e) => Err(e),
    }
}

pub open spec fn texts(s: Seq<String>) -> Seq<Seq<char>> {
    s.map_values(|t: String| t@)
}

/// The texts of `parts` joined by newlines.
pub fn join_lines_of(parts: &Vec<String>) -> (r: String)
    ensures
        r@ == join_lines(texts(parts@)),
{
    let mut r = String::new();
    let mut i: usize = 0;
    while i < parts.len()
        invariant
            i <= parts@.len(),
            r@ == join_lines(texts(parts@.take(i as int))),
        decreases parts@.len() - i,
    {
        assert(texts(parts@.take(i + 1)).drop_last() =~= texts(parts@.take(i as int)));
        assert(texts(parts@.take(i + 1)).last() == parts@[i as int]@);
        if i > 0 {
            r.append("\n");
            proof {
                reveal_strlit("\n");
            }
        } else {
            assert(texts(parts@.take(1)).len() == 1);
        }
        r.append(parts[i].as_str());
        i = i + 1;
    }
    assert(parts@.take(i as int) =~= parts@);
    r
}

/// Copies the assets and writes the bundles.
pub fn post_process(files: &Vec<InputFile>, config: &Config, sources: &Context) -> (r: Result<Vec<Action>, BuildError>)
    requires
        config.root_directory_path.is_some(),
    ensures
        match asset_actions(views(files@), config.assets_dir(), config.root(), config.output_dir(), sources@) {
            Ok(s) => r matches Ok(v) && action_views(v@) == s,
            Err(e) => r matches Err(x) && x@ == e,
        },
{
    let assets = config.assets_directory_name();
    let root = config.root_directory_path();
    let out = config.output_directory_name();
    let ghost fv = views(files@);
    let mut css: Vec<String> = Vec::new();
    let mut js: Vec<String> = Vec::new();
    let mut acts: Vec<Action> = Vec::new();
    let ghost start = scan_assets(fv, 0, assets@, root@, out@, sources@, Seq::empty(), Seq::empty(), Seq::empty());
    assert(texts(css@) =~= Seq::<Seq<char>>::empty());
    assert(texts(js@) =~= Seq::<Seq<char>>::empty());
    assert(action_views(acts@) =~= Seq::<ActionView>::empty());
    let mut i: usize = 0;
    while i < files.len()
        invariant
            i <= files@.len(),
            fv == views(files@),
            config.root_directory_path.is_some(),
            assets@ == config.assets_dir(),
            root@ == config.root(),
            out@ == config.output_dir(),
            start == scan_assets(fv, 0, assets@, root@, out@, sources@, Seq::empty(), Seq::empty(), Seq::empty()),
            start == scan_assets(fv, i as int, assets@, root@, out@, sources@, texts(css@), texts(js@), action_views(acts@)),
        decreases files@.len() - i,
    {
        let file = &files[i];
        assert(fv[i as int] == file@);
        if file.is_in_directory(assets.clone(), root.clone()) {
            let is_css = file.is_extension(".css");
            let is_js = file.is_extension(".js");
            if is_css || is_js {
                match sources.get(file.path.as_str()) {
                    None => {
                        assert(start == Err::<(Seq<Seq<char>>, Seq<Seq<char>>, Seq<ActionView>), ErrorView>(
                            ErrorView::Unreadable(file@.path),
                        ));
                        return Err(BuildError::Unreadable(file.path.clone()));
                    },
                    Some(text) => {
                        let ghost before = css@;
                        let ghost before_js = js@;
                        if is_css {
                            css.push(text.clone());
                            assert(texts(css@) =~= texts(before).push(text@));
                        } else {
                            js.push(text.clone());
                            assert(texts(js@) =~= texts(before_js).push(text@));
                        }
                    },
                }
            }
            let to = config.output_filename(file);
            let dir = file.output_directory(to.as_str());
            let ghost before_acts = acts@;
            acts.push(Action::CreateDirectory(dir));
            acts.push(Action::CopyFile(file.path.clone(), to));
            assert(action_views(acts@) =~= action_views(before_acts).push(
                ActionView::CreateDirectory(parent_of(output_path_of(file@.path, root@, out@), file@.filename)),
            ).push(ActionView::CopyFile(file@.path, output_path_of(file@.path, root@, out@))));
        }
        i = i + 1;
    }
    if css.len() > 0 || js.len() > 0 {
        let dir = join3(root.as_str(), "/", out.as_str());
        let dir = join3(dir.as_str(), "/", assets.as_str());
        proof {
            reveal_strlit("/");
            assert(dir@ =~= bundle_dir(root@, out@, assets@));
        }
        let ghost scanned = action_views(acts@);
        acts.push(Action::CreateDirectory(dir.clone()));
        let ghost with_dir = action_views(acts@);
        if css.len() > 0 {
            let path = join3(dir.as_str(), "/app.css", "");
            acts.push(Action::WriteFile(path, join_lines_of(&css)));
        }
        let ghost with_css = action_views(acts@);
        if js.len() > 0 {
            let path = join3(dir.as_str(), "/app.js", "");
            acts.push(Action::WriteFile(path, join_lines_of(&js)));
        }
        proof {
            reveal_strlit("");
            reveal_strlit("/app.css");
            reveal_strlit("/app.js");
            assert(with_dir =~= scanned + seq![ActionView::CreateDirectory(bundle_dir(root@, out@, assets@))]);
            assert(action_views(acts@) =~= scanned + bundle_actions(texts(css@), texts(js@), bundle_dir(root@, out@, assets@)));
        }
    } else {
        assert(action_views(acts@) =~= action_views(acts@) + bundle_actions(texts(css@), texts(js@), bundle_dir(root@, out@, assets@)));
    }
    Ok(acts)
}

} // verus!
