//! The template plugin: renders `.mustache` files against the context before
//! the build, registers each render as an input, and removes the renders after.
use vstd::prelude::*;
use crate::action::{Action, ActionView, BuildError, ErrorView, action_views};
use crate::config::views;
use crate::context::{map_of, Context};
use crate::file::{FileView, InputFile};
use crate::plugins::{PluginDefinition, PluginKind, PluginRole};
use crate::text::replace_first;

verus! {

/// The text that handlebars renders from `template` with the string table
/// `data` as its data, if it renders.
pub uninterp spec fn rendered_template(template: Seq<char>, data: Map<Seq<char>, Seq<char>>) -> Option<Seq<char>>;

/// Relies on handlebars::Handlebars::render_template, on a registry made by
/// `Handlebars::new()`: the render of `template` against the table that the
/// writes `entries` leave (a later write of a key wins, as in a `BTreeMap`
/// collected from them), or nothing when rendering fails.
#[verifier::external_body]
fn render(template: &str, entries: &Vec<(String, String)>) -> (r: Option<String>)
    ensures
        match rendered_template(template@, map_of(entries@)) {
            Some(t) => r matches Some(s) && s@ == t,
            None => r.is_none(),
        },
{
    let data: std::collections::BTreeMap<&str, &str> =
        entries.iter().map(|(k, v)| (k.as_str(), v.as_str())).collect();
    ::handlebars::Handlebars::new().render_template(template, &data).ok()
}

/// The plugin, named `handlebars`, with the Transform role.
pub fn plugin() -> (r: PluginDefinition)
    ensures
        r.name@ == "handlebars"@,
        r.role == PluginRole::Transform,
        r.kind == PluginKind::Templates,
{
    PluginDefinition { name: "handlebars".to_string(), role: PluginRole::Transform, kind: PluginKind::Templates }
}

pub open spec fn is_template(f: FileView) -> bool {
    f.extension == ".mustache"@
}

/// The models of rendered files and their texts.
pub open spec fn render_views(s: Seq<(InputFile, String)>) -> Seq<(FileView, Seq<char>)> {
    s.map_values(|p: (InputFile, String)| (p.0@, p.1@))
}

/// The renders of the templates of `files` from position `i` on, appended to
/// `acc`: each template becomes the file without its extension, with the
/// rendered text.
pub open spec fn render_templates(
    files: Seq<FileView>,
    i: int,
    sources: Map<Seq<char>, Seq<char>>,
    ctx: Map<Seq<char>, Seq<char>>,
    acc: Seq<(FileView, Seq<char>)>,
) -> Result<Seq<(FileView, Seq<char>)>, ErrorView>
    decreases files.len() - i,
{
    if i < 0 || i >= files.len() {
        Ok(acc)
    } else if is_template(files[i]) {
        let path = files[i].path;
        if !sources.contains_key(path) {
            Err(ErrorView::Unreadable(path))
        } else {
            match rendered_template(sources[path], ctx) {
                None => Err(ErrorView::Template(path)),
                Some(t) => render_templates(
                    files,
                    i + 1,
                    sources,
                    ctx,
                    acc.push((files[i].with_extension(Seq::empty()), t)),
                ),
            }
        }
    } else {
        render_templates(files, i + 1, sources, ctx, acc)
    }
}

/// Renders every template of `files` against `context`, in order.
pub fn pre_process(files: &Vec<InputFile>, sources: &Context, context: &Context) -> (r: Result<
    Vec<(InputFile, String)>,
    BuildError,
>)
    ensures
        match render_templates(views(files@), 0, sources@, context@, Seq::empty()) {
            Ok(s) => r matches Ok(v) && render_views(v@) == s,
            Err(e) => r matches Err(x) && x@ == e,
        },
{
    let ghost fv = views(files@);
    let mut out: Vec<(InputFile, String)> = Vec::new();
    assert(render_views(out@) =~= Seq::<(FileView, Seq<char>)>::empty());
    let mut i: usize = 0;
    while i < files.len()
        invariant
            i <= files@.len(),
            fv == views(files@),
            render_templates(fv, 0, sources@, context@, Seq::empty())
                == render_templates(fv, i as int, sources@, context@, render_views(out@)),
        decreases files@.len() - i,
    {
        let file = &files[i];
        assert(fv[i as int] == file@);
        if file.is_extension(".mustache") {
            match sources.get(file.path.as_str()) {
                None => {
                    return Err(BuildError::Unreadable(file.path.clone()));
                },
                Some(text) => {
                    match render(text.as_str(), context.entries()) {
                        None => {
                            return Err(BuildError::Template(file.path.clone()));
                        },
                        Some(t) => {
                            let ghost before = out@;
                            let new_file = file.replace_extensions("");
                            proof {
                                reveal_strlit("");
                            }
                            out.push((new_file, t));
                            assert(render_views(out@) =~= render_views(before).push((fv[i as int].with_extension(Seq::empty()), t@)));
                        },
                    }
                },
            }
        }
        i = i + 1;
    }
    Ok(out)
}

/// The intermediate renders to delete after the build: for each template of
/// `files`, its path without the extension.
pub open spec fn removals(files: Seq<FileView>) -> Seq<ActionView>
    decreases files.len(),
{
    if files.len() == 0 {
        Seq::empty()
    } else {
        let rest = removals(files.drop_last());
        let f = files.last();
        if is_template(f) {
            rest.push(ActionView::RemoveFile(replace_first(f.path, f.extension, Seq::empty())))
        } else {
            rest
        }
    }
}

/// Deletes the renders that `pre_process` wrote.
pub fn post_process(files: &Vec<InputFile>) -> (r: Vec<Action>)
    ensures
        action_views(r@) == removals(views(files@)),
{
    let mut out: Vec<Action> = Vec::new();
    let mut i: usize = 0;
    while i < files.len()
        invariant
            i <= files@.len(),
            action_views(out@) == removals(views(files@.take(i as int))),
        decreases files@.len() - i,
    {
        assert(views(files@.take(i + 1)).drop_last() =~= views(files@.take(i as int)));
        assert(views(files@.take(i + 1)).last() == files@[i as int]@);
        let file = &files[i];
        let ghost before = out@;
        if file.is_extension(".mustache") {
            let path = file.replace_path_extension("");
            proof {
                reveal_strlit("");
            }
            out.push(Action::RemoveFile(path));
            assert(action_views(out@) =~= action_views(before).push(
                ActionView::RemoveFile(replace_first(file@.path, file@.extension, Seq::empty())),
            ));
        }
        i = i + 1;
    }
    assert(files@.take(i as int) =~= files@);
    out
}

} // verus!
