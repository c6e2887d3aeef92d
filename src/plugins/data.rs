//! The data plugin: merges the JSON files of the data directory into the
//! build context.
use vstd::prelude::*;
use crate::action::{BuildError, ErrorView};
use crate::config::views;
use crate::context::{map_of, Context};
use crate::file::{FileView, InputFile};
use crate::plugins::{PluginDefinition, PluginKind, PluginRole};

verus! {

/// The object of strings that serde_json reads from `text`, if `text` is one.
pub uninterp spec fn json_string_map(text: Seq<char>) -> Option<Map<Seq<char>, Seq<char>>>;

/// Relies on serde_json::from_str into a `BTreeMap<String, String>`: the
/// key/value pairs of the JSON object `text`, or nothing when `text` is not an
/// object whose values are all strings.
#[verifier::external_body]
fn parse_string_map(text: &str) -> (r: Option<Vec<(String, String)>>)
    ensures
        match json_string_map(text@) {
            Some(m) => r matches Some(v) && map_of(v@) == m,
            None => r.is_none(),
        },
{
    serde_json::from_str::<std::collections::BTreeMap<String, String>>(text).ok().map(|m| m.into_iter().collect())
}

/// The plugin, named `data`, with the LoadContext role.
pub fn plugin() -> (r: PluginDefinition)
    ensures
        r.name@ == "data"@,
        r.role == PluginRole::LoadContext,
        r.kind == PluginKind::Data,
{
    PluginDefinition { name: "data".to_string(), role: PluginRole::LoadContext, kind: PluginKind::Data }
}

/// The context after merging, from position `i` on, every file of `files`
/// under `root/dir`: a key of a later file replaces the same key before it.
pub open spec fn load_data(
    files: Seq<FileView>,
    i: int,
    dir: Seq<char>,
    root: Seq<char>,
    sources: Map<Seq<char>, Seq<char>>,
    ctx: Map<Seq<char>, Seq<char>>,
) -> Result<Map<Seq<char>, Seq<char>>, ErrorView>
    decreases files.len() - i,
{
    if i < 0 || i >= files.len() {
        Ok(ctx)
    } else if files[i].in_directory(dir, root) {
        let path = files[i].path;
        if !sources.contains_key(path) {
            Err(ErrorView::Unreadable(path))
        } else {
            match json_string_map(sources[path]) {
                None => Err(ErrorView::InvalidData(path)),
                Some(m) => load_data(files, i + 1, dir, root, sources, ctx.union_prefer_right(m)),
            }
        }
    } else {
        load_data(files, i + 1, dir, root, sources, ctx)
    }
}

/// Of two data files that share a key, the one merged last gives the key
/// its value.
pub proof fn lemma_later_data_file_wins(
    first: FileView,
    second: FileView,
    dir: Seq<char>,
    root: Seq<char>,
    sources: Map<Seq<char>, Seq<char>>,
    ctx: Map<Seq<char>, Seq<char>>,
    key: Seq<char>,
)
    requires
        first.in_directory(dir, root),
        second.in_directory(dir, root),
        sources.contains_key(first.path),
        sources.contains_key(second.path),
        json_string_map(sources[first.path]) is Some,
        json_string_map(sources[second.path]) matches Some(m) && m.contains_key(key),
    ensures
        load_data(seq![first, second], 0, dir, root, sources, ctx) matches Ok(merged) && merged.contains_key(key)
            && merged[key] == json_string_map(sources[second.path]).unwrap()[key],
{
    let files = seq![first, second];
    let m1 = json_string_map(sources[first.path]).unwrap();
    let m2 = json_string_map(sources[second.path]).unwrap();
    assert(load_data(files, 2, dir, root, sources, ctx.union_prefer_right(m1).union_prefer_right(m2))
        == Ok::<Map<Seq<char>, Seq<char>>, ErrorView>(ctx.union_prefer_right(m1).union_prefer_right(m2)));
    assert(load_data(files, 1, dir, root, sources, ctx.union_prefer_right(m1)) == load_data(
        files,
        2,
        dir,
        root,
        sources,
        ctx.union_prefer_right(m1).union_prefer_right(m2),
    ));
}

/// Merges every data file into `context`, in the order of `files`.
pub fn pre_process(
    files: &Vec<InputFile>,
    dir: &String,
    root: &String,
    sources: &Context,
    context: &mut Context,
) -> (r: Result<(), BuildError>)
    ensures
        match load_data(views(files@), 0, dir@, root@, sources@, old(context)@) {
            Ok(m) => r is Ok && final(context)@ == m,
            Err(e) => r matches Err(x) && x@ == e,
        },
{
    let ghost fv = views(files@);
    let mut i: usize = 0;
    while i < files.len()
        invariant
            i <= files@.len(),
            fv == views(files@),
            load_data(fv, 0, dir@, root@, sources@, old(context)@)
                == load_data(fv, i as int, dir@, root@, sources@, context@),
        decreases files@.len() - i,
    {
        let file = &files[i];
        assert(fv[i as int] == file@);
        if file.is_in_directory(dir.clone(), root.clone()) {
            match sources.get(file.path.as_str()) {
                None => {
                    return Err(BuildError::Unreadable(file.path.clone()));
                },
                Some(text) => {
                    match parse_string_map(text.as_str()) {
                        None => {
                            return Err(BuildError::InvalidData(file.path.clone()));
                        },
                        Some(pairs) => {
                            context.merge(pairs);
                        },
                    }
                },
            }
        }
        i = i + 1;
    }
    Ok(())
}

} // verus!
