//! The build orchestrator: the plugin registry, the shared context, and the
//! three phases of a build.
use vstd::prelude::*;
use crate::action::{Action, ActionView, BuildError, ErrorView, action_views, append_actions};
use crate::config::{output_path_of, views, Config};
use crate::context::Context;
use crate::file::{parent_of, under, FileView, InputFile};
use crate::plugins::{
    execution_order, find_plugin, position_of_name, sorted_positions, PluginDefinition, PluginKind,
};
use crate::plugins::assets::{self, asset_actions};
use crate::plugins::data::{self, load_data};
use crate::plugins::handlebars::{self, removals, render_templates, render_views};
use crate::plugins::markdown::{self, md_applies, md_output, md_process};
use crate::text::join3;

verus! {

/// Two settings that differ at most in their file sets.
pub open spec fn same_settings(a: Config, b: Config) -> bool {
    &&& a.name == b.name
    &&& a.description == b.description
    &&& a.assets_directory_name == b.assets_directory_name
    &&& a.data_directory_name == b.data_directory_name
    &&& a.output_directory_name == b.output_directory_name
    &&& a.root_directory_path == b.root_directory_path
    &&& a.config_filename == b.config_filename
}

/// `root/out`, where the build writes.
pub open spec fn output_root(config: Config) -> Seq<char> {
    under(config.root()) + config.output_dir()
}

/// The files that the templates gave.
pub open spec fn rendered_files(pending: Seq<(FileView, Seq<char>)>) -> Seq<FileView> {
    pending.map_values(|p: (FileView, Seq<char>)| p.0)
}

/// The writes of the rendered files.
pub open spec fn rendered_writes(pending: Seq<(FileView, Seq<char>)>) -> Seq<ActionView> {
    pending.map_values(|p: (FileView, Seq<char>)| ActionView::WriteFile(p.0.path, p.1))
}

/// The file contents once the rendered files are known by their paths.
pub open spec fn sources_with(
    sources: Map<Seq<char>, Seq<char>>,
    pending: Seq<(FileView, Seq<char>)>,
) -> Map<Seq<char>, Seq<char>>
    decreases pending.len(),
{
    if pending.len() == 0 {
        sources
    } else {
        sources_with(sources, pending.drop_last()).insert(pending.last().0.path, pending.last().1)
    }
}

/// The pre-process phase from position `i` of `order` on: each plugin with a
/// pre-process hook runs on the context the one before it left, and the
/// rendered files wait in `pending`.
pub open spec fn pre_fold(
    plugins: Seq<PluginDefinition>,
    order: Seq<usize>,
    i: int,
    config: Config,
    files: Seq<FileView>,
    sources: Map<Seq<char>, Seq<char>>,
    ctx: Map<Seq<char>, Seq<char>>,
    pending: Seq<(FileView, Seq<char>)>,
) -> Result<(Map<Seq<char>, Seq<char>>, Seq<(FileView, Seq<char>)>), ErrorView>
    decreases order.len() - i,
{
    if i < 0 || i >= order.len() {
        Ok((ctx, pending))
    } else if order[i] >= plugins.len() {
        pre_fold(plugins, order, i + 1, config, files, sources, ctx, pending)
    } else {
        match plugins[order[i] as int].kind {
            PluginKind::Data => match load_data(files, 0, config.data_dir(), config.root(), sources, ctx) {
                Err(e) => Err(e),
                Ok(m) => pre_fold(plugins, order, i + 1, config, files, sources, m, pending),
            },
            PluginKind::Templates => match render_templates(files, 0, sources, ctx, Seq::empty()) {
                Err(e) => Err(e),
                Ok(s) => pre_fold(plugins, order, i + 1, config, files, sources, ctx, pending + s),
            },
            _ => pre_fold(plugins, order, i + 1, config, files, sources, ctx, pending),
        }
    }
}

/// The pre-process phase of a build on these settings, registry and context.
pub open spec fn pre_process_result(
    plugins: Seq<PluginDefinition>,
    config: Config,
    sources: Map<Seq<char>, Seq<char>>,
    ctx: Map<Seq<char>, Seq<char>>,
) -> Result<(Map<Seq<char>, Seq<char>>, Seq<(FileView, Seq<char>)>), ErrorView> {
    pre_fold(plugins, execution_order(plugins), 0, config, views(config.files.unwrap()@), sources, ctx, Seq::empty())
}

/// The process phase on one file, from plugin `j` on: each plugin whose
/// predicate holds writes its transform of the file to its output path.
pub open spec fn process_file(
    plugins: Seq<PluginDefinition>,
    j: int,
    f: FileView,
    root: Seq<char>,
    out: Seq<char>,
    sources: Map<Seq<char>, Seq<char>>,
    acts: Seq<ActionView>,
) -> Result<Seq<ActionView>, ErrorView>
    decreases plugins.len() - j,
{
    if j < 0 || j >= plugins.len() {
        Ok(acts)
    } else if plugins[j].kind == PluginKind::Markdown && md_applies(f.extension) {
        if !sources.contains_key(f.path) {
            Err(ErrorView::Unreadable(f.path))
        } else {
            let to = output_path_of(f.path, root, out);
            process_file(
                plugins,
                j + 1,
                f,
                root,
                out,
                sources,
                acts.push(ActionView::CreateDirectory(parent_of(to, f.filename))).push(
                    ActionView::WriteFile(md_output(to), md_process(sources[f.path])),
                ),
            )
        }
    } else {
        process_file(plugins, j + 1, f, root, out, sources, acts)
    }
}

/// The process phase from file `i` on.
pub open spec fn process_all(
    plugins: Seq<PluginDefinition>,
    files: Seq<FileView>,
    i: int,
    root: Seq<char>,
    out: Seq<char>,
    sources: Map<Seq<char>, Seq<char>>,
    acts: Seq<ActionView>,
) -> Result<Seq<ActionView>, ErrorView>
    decreases files.len() - i,
{
    if i < 0 || i >= files.len() {
        Ok(acts)
    } else {
        match process_file(plugins, 0, files[i], root, out, sources, acts) {
            Err(e) => Err(e),
            Ok(a) => process_all(plugins, files, i + 1, root, out, sources, a),
        }
    }
}

/// The post-process phase from plugin `j` on, in registry order.
pub open spec fn post_fold(
    plugins: Seq<PluginDefinition>,
    j: int,
    files: Seq<FileView>,
    assets: Seq<char>,
    root: Seq<char>,
    out: Seq<char>,
    sources: Map<Seq<char>, Seq<char>>,
    acts: Seq<ActionView>,
) -> Result<Seq<ActionView>, ErrorView>
    decreases plugins.len() - j,
{
    if j < 0 || j >= plugins.len() {
        Ok(acts)
    } else {
        match plugins[j].kind {
            PluginKind::Templates => post_fold(plugins, j + 1, files, assets, root, out, sources, acts + removals(files)),
            PluginKind::Assets => match asset_actions(files, assets, root, out, sources) {
                Err(e) => Err(e),
                Ok(a) => post_fold(plugins, j + 1, files, assets, root, out, sources, acts + a),
            },
            _ => post_fold(plugins, j + 1, files, assets, root, out, sources, acts),
        }
    }
}

/// A whole build: the context it leaves, the working file set it ends with,
/// and the file-system steps it takes, in order; or the error that stops it.
pub open spec fn build_result(
    plugins: Seq<PluginDefinition>,
    config: Config,
    ctx: Map<Seq<char>, Seq<char>>,
    sources: Map<Seq<char>, Seq<char>>,
) -> Result<(Map<Seq<char>, Seq<char>>, Seq<FileView>, Seq<ActionView>), ErrorView> {
    if config.files.is_none() {
        Err(ErrorView::NoFiles)
    } else if config.root_directory_path.is_none() {
        Err(ErrorView::NoRoot)
    } else {
        match pre_process_result(plugins, config, sources, ctx) {
            Err(e) => Err(e),
            Ok((m, pending)) => {
                let files = views(config.files.unwrap()@) + rendered_files(pending);
                let src = sources_with(sources, pending);
                let acts = seq![ActionView::CreateDirectory(output_root(config))] + rendered_writes(pending);
                match process_all(plugins, files, 0, config.root(), config.output_dir(), src, acts) {
                    Err(e) => Err(e),
                    Ok(a) => match post_fold(
                        plugins,
                        0,
                        files,
                        config.assets_dir(),
                        config.root(),
                        config.output_dir(),
                        src,
                        a,
                    ) {
                        Err(e) => Err(e),
                        Ok(b) => Ok((m, files, b)),
                    },
                }
            },
        }
    }
}

/// Pre-processing is a function of the registry, the settings, the file
/// contents and the context: two runs on the same ones, with no change to the
/// registry between them, end with the same context and the same new files.
pub proof fn lemma_pre_process_deterministic(a: Pinch, b: Pinch, sa: Context, sb: Context)
    requires
        a.plugins@ == b.plugins@,
        a.config == b.config,
        a.context@ == b.context@,
        sa@ == sb@,
    ensures
        pre_process_result(a.plugins@, a.config, sa@, a.context@) == pre_process_result(
            b.plugins@,
            b.config,
            sb@,
            b.context@,
        ),
{
}

/// A build: settings, registered plugins and the shared context.
pub struct Pinch {
    pub config: Config,
    pub plugins: Vec<PluginDefinition>,
    pub context: Context,
}

impl Pinch {
    /// A build on `config` with no plugins and an empty context.
    pub fn from_config(config: Config) -> (r: Pinch)
        ensures
            r.config == config,
            r.plugins@.len() == 0,
            r.context@ == Map::<Seq<char>, Seq<char>>::empty(),
    {
        Pinch { config, plugins: Vec::new(), context: Context::new() }
    }

    /// Adds a file to the working set.
    pub fn register_file(&mut self, input_file: InputFile)
        requires
            old(self).config.files.is_some(),
        ensures
            final(self).config.files is Some,
            final(self).config.files.unwrap()@ == old(self).config.files.unwrap()@.push(input_file),
            same_settings(final(self).config, old(self).config),
            final(self).plugins == old(self).plugins,
            final(self).context == old(self).context,
    {
        let mut files = self.config.files.take().unwrap();
        files.push(input_file);
        self.config.files = Some(files);
    }

    /// Registers `plugin` under its name; a plugin already registered under
    /// that name is replaced in its place.
    pub fn register_plugin(&mut self, plugin: PluginDefinition)
        ensures
            match position_of_name(old(self).plugins@, plugin.name@) {
                Some(i) => final(self).plugins@ == old(self).plugins@.update(i, plugin),
                None => final(self).plugins@ == old(self).plugins@.push(plugin),
            },
            final(self).config == old(self).config,
            final(self).context == old(self).context,
    {
        proof {
            crate::plugins::lemma_position_of_name(self.plugins@, plugin.name@, 0);
        }
        match find_plugin(&self.plugins, &plugin.name) {
            Some(i) => {
                self.plugins.set(i, plugin);
            },
            None => {
                self.plugins.push(plugin);
            },
        }
    }

    /// Removes the plugin registered under `name` and hands it back; with no
    /// such plugin the registry stays as it is and nothing comes back.
    pub fn remove_plugin(&mut self, name: String) -> (r: Option<PluginDefinition>)
        ensures
            match position_of_name(old(self).plugins@, name@) {
                Some(i) => r == Some(old(self).plugins@[i]) && final(self).plugins@
                    == old(self).plugins@.remove(i),
                None => r.is_none() && final(self).plugins@ == old(self).plugins@,
            },
            final(self).config == old(self).config,
            final(self).context == old(self).context,
    {
        proof {
            crate::plugins::lemma_position_of_name(self.plugins@, name@, 0);
        }
        match find_plugin(&self.plugins, &name) {
            Some(i) => Some(self.plugins.remove(i)),
            None => None,
        }
    }

    /// The pre-process phase. The output directory is created first. Then the
    /// plugins run in role order, each on the context the one before it left;
    /// the files that templates render join the working set, and their texts
    /// the file contents, only after every plugin has run.
    pub fn pre_process(&mut self, sources: &mut Context, actions: &mut Vec<Action>) -> (r: Result<(), BuildError>)
        requires
            old(self).config.files.is_some(),
            old(self).config.root_directory_path.is_some(),
        ensures
            final(self).plugins == old(self).plugins,
            same_settings(final(self).config, old(self).config),
            match pre_process_result(old(self).plugins@, old(self).config, old(sources)@, old(self).context@) {
                Ok((m, pending)) => {
                    &&& r is Ok
                    &&& final(self).context@ == m
                    &&& final(self).config.files is Some
                    &&& views(final(self).config.files.unwrap()@) == views(old(self).config.files.unwrap()@)
                        + rendered_files(pending)
                    &&& final(sources)@ == sources_with(old(sources)@, pending)
                    &&& action_views(final(actions)@) == action_views(old(actions)@) + seq![
                        ActionView::CreateDirectory(output_root(old(self).config)),
                    ] + rendered_writes(pending)
                },
                Err(e) => r matches Err(x) && x@ == e,
            },
    {
        let root = self.config.root_directory_path();
        let out = self.config.output_directory_name();
        let data_dir = self.config.data_directory_name();
        let out_root = join3(root.as_str(), "/", out.as_str());
        proof {
            reveal_strlit("/");
            assert(out_root@ =~= output_root(self.config));
        }
        let ghost acts0 = action_views(actions@);
        actions.push(Action::CreateDirectory(out_root));
        let order = sorted_positions(&self.plugins);
        let ghost fv = views(self.config.files.unwrap()@);
        let ghost total = pre_process_result(self.plugins@, self.config, sources@, self.context@);
        let mut pending: Vec<(InputFile, String)> = Vec::new();
        assert(render_views(pending@) =~= Seq::<(FileView, Seq<char>)>::empty());
        let mut i: usize = 0;
        while i < order.len()
            invariant
                i <= order@.len(),
                order@ == execution_order(self.plugins@),
                self.config == old(self).config,
                self.plugins == old(self).plugins,
                *sources == *old(sources),
                self.config.files.is_some(),
                self.config.root_directory_path.is_some(),
                fv == views(self.config.files.unwrap()@),
                root@ == self.config.root(),
                data_dir@ == self.config.data_dir(),
                action_views(actions@) == acts0 + seq![ActionView::CreateDirectory(output_root(self.config))],
                total == pre_process_result(old(self).plugins@, old(self).config, old(sources)@, old(self).context@),
                total == pre_fold(self.plugins@, order@, i as int, self.config, fv, sources@, self.context@, render_views(pending@)),
            decreases order@.len() - i,
        {
            let k = order[i];
            if k < self.plugins.len() {
                let files = self.config.files.as_ref().unwrap();
                match self.plugins[k].kind {
                    PluginKind::Data => {
                        match data::pre_process(files, &data_dir, &root, sources, &mut self.context) {
                            Err(e) => {
                                return Err(e);
                            },
                            Ok(()) => {},
                        }
                    },
                    PluginKind::Templates => {
                        match handlebars::pre_process(files, sources, &self.context) {
                            Err(e) => {
                                return Err(e);
                            },
                            Ok(rendered) => {
                                let ghost before = render_views(pending@);
                                let ghost added = render_views(rendered@);
                                let mut rendered = rendered;
                                pending.append(&mut rendered);
                                assert(render_views(pending@) =~= before + added);
                            },
                        }
                    },
                    _ => {},
                }
            }
            i = i + 1;
        }
        let ghost pv = render_views(pending@);
        let mut files = self.config.files.take().unwrap();
        let ghost files0 = files@;
        let ghost src0 = sources@;
        let ghost acts1 = action_views(actions@);
        let mut j: usize = 0;
        assert(pv.take(0) =~= Seq::<(FileView, Seq<char>)>::empty());
        assert(views(files@) =~= views(files0) + rendered_files(pv.take(0)));
        assert(acts1 =~= acts1 + rendered_writes(pv.take(0)));
        while j < pending.len()
            invariant
                j <= pending@.len(),
                pv == render_views(pending@),
                views(files@) == views(files0) + rendered_files(pv.take(j as int)),
                sources@ == sources_with(src0, pv.take(j as int)),
                action_views(actions@) == acts1 + rendered_writes(pv.take(j as int)),
            decreases pending@.len() - j,
        {
            let ghost vb = views(files@);
            let ghost ab = action_views(actions@);
            let f = &pending[j].0;
            let t = &pending[j].1;
            assert(pv[j as int] == (f@, t@));
            assert(pv.take(j + 1).drop_last() =~= pv.take(j as int));
            actions.push(Action::WriteFile(f.path.clone(), t.clone()));
            sources.insert(f.path.clone(), t.clone());
            files.push(f.duplicate());
            assert(views(files@) =~= vb.push(f@));
            assert(views(files@) =~= views(files0) + rendered_files(pv.take(j + 1)));
            assert(action_views(actions@) =~= ab.push(ActionView::WriteFile(f@.path, t@)));
            assert(action_views(actions@) =~= acts1 + rendered_writes(pv.take(j + 1)));
            j = j + 1;
        }
        assert(pv.take(j as int) =~= pv);
        self.config.files = Some(files);
        Ok(())
    }

    /// The process phase: for each file of the working set, each plugin whose
    /// predicate holds of it transforms its contents and writes them to the
    /// plugin's output path, after creating that path's directory.
    pub fn process_files(&self, sources: &Context, actions: &mut Vec<Action>) -> (r: Result<(), BuildError>)
        requires
            self.config.files.is_some(),
            self.config.root_directory_path.is_some(),
        ensures
            match process_all(
                self.plugins@,
                views(self.config.files.unwrap()@),
                0,
                self.config.root(),
                self.config.output_dir(),
                sources@,
                action_views(old(actions)@),
            ) {
                Ok(a) => r is Ok && action_views(final(actions)@) == a,
                Err(e) => r matches Err(x) && x@ == e,
            },
    {
        let files = self.config.files.as_ref().unwrap();
        let ghost fv = views(files@);
        let ghost root = self.config.root();
        let ghost out = self.config.output_dir();
        let ghost total = process_all(self.plugins@, fv, 0, root, out, sources@, action_views(actions@));
        let mut i: usize = 0;
        while i < files.len()
            invariant
                i <= files@.len(),
                fv == views(files@),
                self.config.files.is_some(),
                self.config.root_directory_path.is_some(),
                *files == self.config.files.unwrap(),
                root == self.config.root(),
                out == self.config.output_dir(),
                total == process_all(self.plugins@, fv, 0, root, out, sources@, action_views(old(actions)@)),
                total == process_all(self.plugins@, fv, i as int, root, out, sources@, action_views(actions@)),
            decreases files@.len() - i,
        {
            let file = &files[i];
            assert(fv[i as int] == file@);
            let ghost a_i = action_views(actions@);
            let mut j: usize = 0;
            while j < self.plugins.len()
                invariant
                    j <= self.plugins@.len(),
                    i < files@.len(),
                    *file == files@[i as int],
                    fv == views(files@),
                    self.config.files.is_some(),
                    *files == self.config.files.unwrap(),
                    i < fv.len(),
                    fv[i as int] == file@,
                    self.config.root_directory_path.is_some(),
                    root == self.config.root(),
                    out == self.config.output_dir(),
                    process_file(self.plugins@, 0, file@, root, out, sources@, a_i)
                        == process_file(self.plugins@, j as int, file@, root, out, sources@, action_views(actions@)),
                    total == process_all(self.plugins@, fv, 0, root, out, sources@, action_views(old(actions)@)),
                    total == process_all(self.plugins@, fv, i as int, root, out, sources@, a_i),
                decreases self.plugins@.len() - j,
            {
                let plugin = &self.plugins[j];
                if plugin.kind == PluginKind::Markdown && markdown::applies(file) {
                    match sources.get(file.path.as_str()) {
                        None => {
                            assert(process_file(self.plugins@, 0, file@, root, out, sources@, a_i)
                                == Err::<Seq<ActionView>, ErrorView>(ErrorView::Unreadable(file@.path)));
                            assert(process_file(self.plugins@, 0, fv[i as int], root, out, sources@, a_i)
                                == Err::<Seq<ActionView>, ErrorView>(ErrorView::Unreadable(file@.path)));
                            assert(total == Err::<Seq<ActionView>, ErrorView>(ErrorView::Unreadable(file@.path)));
                            return Err(BuildError::Unreadable(file.path.clone()));
                        },
                        Some(text) => {
                            let output_contents = markdown::process(text.as_str());
                            let to = self.config.output_filename(file);
                            let dir = file.output_directory(to.as_str());
                            let target = markdown::output_filename(to.as_str());
                            let ghost before = action_views(actions@);
                            actions.push(Action::CreateDirectory(dir));
                            actions.push(Action::WriteFile(target, output_contents));
                            assert(action_views(actions@) =~= before.push(
                                ActionView::CreateDirectory(parent_of(output_path_of(file@.path, root, out), file@.filename)),
                            ).push(ActionView::WriteFile(md_output(output_path_of(file@.path, root, out)), md_process(text@))));
                        },
                    }
                }
                j = j + 1;
            }
            i = i + 1;
        }
        Ok(())
    }

    /// The post-process phase: each plugin with a post-process hook runs, in
    /// registry order.
    pub fn post_process(&self, sources: &Context, actions: &mut Vec<Action>) -> (r: Result<(), BuildError>)
        requires
            self.config.files.is_some(),
            self.config.root_directory_path.is_some(),
        ensures
            match post_fold(
                self.plugins@,
                0,
                views(self.config.files.unwrap()@),
                self.config.assets_dir(),
                self.config.root(),
                self.config.output_dir(),
                sources@,
                action_views(old(actions)@),
            ) {
                Ok(a) => r is Ok && action_views(final(actions)@) == a,
                Err(e) => r matches Err(x) && x@ == e,
            },
    {
        let files = self.config.files.as_ref().unwrap();
        let ghost fv = views(files@);
        let ghost total = post_fold(
            self.plugins@,
            0,
            fv,
            self.config.assets_dir(),
            self.config.root(),
            self.config.output_dir(),
            sources@,
            action_views(actions@),
        );
        let mut j: usize = 0;
        while j < self.plugins.len()
            invariant
                j <= self.plugins@.len(),
                fv == views(files@),
                self.config.root_directory_path.is_some(),
                *files == self.config.files.unwrap(),
                total == post_fold(
                    self.plugins@,
                    0,
                    fv,
                    self.config.assets_dir(),
                    self.config.root(),
                    self.config.output_dir(),
                    sources@,
                    action_views(old(actions)@),
                ),
                total == post_fold(
                    self.plugins@,
                    j as int,
                    fv,
                    self.config.assets_dir(),
                    self.config.root(),
                    self.config.output_dir(),
                    sources@,
                    action_views(actions@),
                ),
            decreases self.plugins@.len() - j,
        {
            match self.plugins[j].kind {
                PluginKind::Templates => {
                    let removed = handlebars::post_process(files);
                    append_actions(actions, removed);
                },
                PluginKind::Assets => {
                    match assets::post_process(files, &self.config, sources) {
                        Err(e) => {
                            return Err(e);
                        },
                        Ok(copied) => {
                            append_actions(actions, copied);
                        },
                    }
                },
                _ => {},
            }
            j = j + 1;
        }
        Ok(())
    }

    /// Runs the three phases in turn and returns the file-system steps they
    /// take, in order; the first error stops the build. `sources` holds the
    /// contents of the working set's files by path.
    pub fn build(&mut self, sources: Context) -> (r: Result<Vec<Action>, BuildError>)
        ensures
            final(self).plugins == old(self).plugins,
            same_settings(final(self).config, old(self).config),
            match build_result(old(self).plugins@, old(self).config, old(self).context@, sources@) {
                Ok((m, files, acts)) => {
                    &&& r matches Ok(v) && action_views(v@) == acts
                    &&& final(self).context@ == m
                    &&& final(self).config.files is Some
                    &&& views(final(self).config.files.unwrap()@) == files
                },
                Err(e) => r matches Err(x) && x@ == e,
            },
    {
        if self.config.files.is_none() {
            return Err(BuildError::NoFiles);
        }
        if self.config.root_directory_path.is_none() {
            return Err(BuildError::NoRoot);
        }
        let mut sources = sources;
        let mut actions: Vec<Action> = Vec::new();
        assert(action_views(actions@) =~= Seq::<ActionView>::empty());
        assert(seq![ActionView::CreateDirectory(output_root(self.config))] =~= Seq::<ActionView>::empty()
            + seq![ActionView::CreateDirectory(output_root(self.config))]);
        match self.pre_process(&mut sources, &mut actions) {
            Err(e) => {
                return Err(e);
            },
            Ok(()) => {},
        }
        match self.process_files(&sources, &mut actions) {
            Err(e) => {
                return Err(e);
            },
            Ok(()) => {},
        }
        match self.post_process(&sources, &mut actions) {
            Err(e) => {
                return Err(e);
            },
            Ok(()) => {},
        }
        Ok(actions)
    }

    /// Registers the four reference plugins when none is registered, then
    /// builds.
    pub fn build_with_defaults(&mut self, sources: Context) -> (r: Result<Vec<Action>, BuildError>)
        ensures
            old(self).plugins@.len() > 0 ==> final(self).plugins == old(self).plugins,
            old(self).plugins@.len() == 0 ==> {
                &&& final(self).plugins@.len() == 4
                &&& final(self).plugins@[0].kind == PluginKind::Assets
                &&& final(self).plugins@[1].kind == PluginKind::Data
                &&& final(self).plugins@[2].kind == PluginKind::Templates
                &&& final(self).plugins@[3].kind == PluginKind::Markdown
            },
            same_settings(final(self).config, old(self).config),
            match build_result(final(self).plugins@, old(self).config, old(self).context@, sources@) {
                Ok((m, files, acts)) => {
                    &&& r matches Ok(v) && action_views(v@) == acts
                    &&& final(self).context@ == m
                    &&& final(self).config.files is Some
                    &&& views(final(self).config.files.unwrap()@) == files
                },
                Err(e) => r matches Err(x) && x@ == e,
            },
    {
        if self.plugins.len() == 0 {
            self.plugins.push(assets::plugin());
            self.plugins.push(data::plugin());
            self.plugins.push(handlebars::plugin());
            self.plugins.push(markdown::plugin());
        }
        self.build(sources)
    }
}

} // verus!
