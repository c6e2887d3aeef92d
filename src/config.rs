//! Build settings, with the defaults of each directory name.
use vstd::prelude::*;
use crate::file::{under, FileView, InputFile};
use crate::text::{has_prefix, join3, starts_with, suffix_from};
use crate::utils::to_string;

verus! {

/// The resolved settings of one build and its working file set.
#[derive(Debug)]
pub struct Config {
    pub name: Option<String>,
    pub description: Option<String>,
    pub assets_directory_name: Option<String>,
    pub data_directory_name: Option<String>,
    pub output_directory_name: Option<String>,
    pub root_directory_path: Option<String>,
    pub config_filename: Option<String>,
    pub files: Option<Vec<InputFile>>,
}

pub open spec fn or_default(o: Option<String>, d: Seq<char>) -> Seq<char> {
    match o {
        Some(s) => s@,
        None => d,
    }
}

/// The models of a sequence of files.
pub open spec fn views(s: Seq<InputFile>) -> Seq<FileView> {
    s.map_values(|f: InputFile| f@)
}

/// Where the build writes the file found at `path`: `root/` becomes
/// `root/out/`; a path outside `root` stays as it is.
pub open spec fn output_path_of(path: Seq<char>, root: Seq<char>, out: Seq<char>) -> Seq<char> {
    if starts_with(path, under(root)) {
        under(root) + out + seq!['/'] + path.subrange(under(root).len() as int, path.len() as int)
    } else {
        path
    }
}

/// A walked entry is an input: not a directory, not the settings file, and
/// not under the output directory.
pub open spec fn discoverable(f: FileView, config_name: Seq<char>, out: Seq<char>, root: Seq<char>) -> bool {
    !f.is_directory && f.filename != config_name && !f.in_directory(out, root)
}

/// The walked entries that are inputs, in walk order.
pub open spec fn discovered(
    entries: Seq<FileView>,
    config_name: Seq<char>,
    out: Seq<char>,
    root: Seq<char>,
) -> Seq<FileView>
    decreases entries.len(),
{
    if entries.len() == 0 {
        Seq::empty()
    } else {
        let rest = discovered(entries.drop_last(), config_name, out, root);
        if discoverable(entries.last(), config_name, out, root) {
            rest.push(entries.last())
        } else {
            rest
        }
    }
}

impl Config {
    pub open spec fn assets_dir(&self) -> Seq<char> {
        or_default(self.assets_directory_name, "assets"@)
    }

    pub open spec fn data_dir(&self) -> Seq<char> {
        or_default(self.data_directory_name, "data"@)
    }

    pub open spec fn output_dir(&self) -> Seq<char> {
        or_default(self.output_directory_name, "dist"@)
    }

    pub open spec fn config_name(&self) -> Seq<char> {
        or_default(self.config_filename, "inapinch.toml"@)
    }

    pub open spec fn root(&self) -> Seq<char> {
        self.root_directory_path.unwrap()@
    }

    /// Settings with every name at its default and no files yet.
    pub fn new(root_directory_path: String) -> (r: Config)
        ensures
            r.root_directory_path == Some(root_directory_path),
            r.name.is_none() && r.description.is_none() && r.config_filename.is_none(),
            r.assets_directory_name.is_none() && r.data_directory_name.is_none(),
            r.output_directory_name.is_none() && r.files.is_none(),
    {
        Config {
            name: None,
            description: None,
            assets_directory_name: None,
            data_directory_name: None,
            output_directory_name: None,
            root_directory_path: Some(root_directory_path),
            config_filename: None,
            files: None,
        }
    }

    pub fn root_directory_path(&self) -> (r: String)
        requires
            self.root_directory_path.is_some(),
        ensures
            r@ == self.root(),
    {
        self.root_directory_path.as_ref().unwrap().clone()
    }

    pub fn config_filename(&self) -> (r: String)
        ensures
            r@ == self.config_name(),
    {
        to_string(self.config_filename.as_ref(), "inapinch.toml")
    }

    pub fn assets_directory_name(&self) -> (r: String)
        ensures
            r@ == self.assets_dir(),
    {
        to_string(self.assets_directory_name.as_ref(), "assets")
    }

    pub fn data_directory_name(&self) -> (r: String)
        ensures
            r@ == self.data_dir(),
    {
        to_string(self.data_directory_name.as_ref(), "data")
    }

    pub fn output_directory_name(&self) -> (r: String)
        ensures
            r@ == self.output_dir(),
    {
        to_string(self.output_directory_name.as_ref(), "dist")
    }

    /// Where the build writes `input_file`: its path with `root/` replaced by
    /// `root/<output directory>/`.
    pub fn output_filename(&self, input_file: &InputFile) -> (r: String)
        requires
            self.root_directory_path.is_some(),
        ensures
            r@ == output_path_of(input_file@.path, self.root(), self.output_dir()),
    {
        let root = self.root_directory_path();
        let prefix = join3(root.as_str(), "/", "");
        proof {
            reveal_strlit("/");
            reveal_strlit("");
            assert(prefix@ =~= under(root@));
        }
        if !has_prefix(input_file.path.as_str(), prefix.as_str()) {
            return input_file.path.clone();
        }
        let plen = prefix.unicode_len();
        let rest = suffix_from(input_file.path.as_str(), plen);
        let out = self.output_directory_name();
        let mut r = join3(prefix.as_str(), out.as_str(), "/");
        r.append(rest.as_str());
        proof {
            assert(r@ =~= output_path_of(input_file@.path, self.root(), self.output_dir()));
        }
        r
    }

    /// Whether a walked entry is an input of the build.
    pub fn is_discoverable(&self, entry: &InputFile) -> (r: bool)
        requires
            self.root_directory_path.is_some(),
        ensures
            r == discoverable(entry@, self.config_name(), self.output_dir(), self.root()),
    {
        if entry.is_directory {
            return false;
        }
        let config_name = self.config_filename();
        if entry.filename == config_name {
            return false;
        }
        !entry.is_in_directory(self.output_directory_name(), self.root_directory_path())
    }

    /// The walked entries that are inputs, in walk order; none of them lies
    /// under the output directory.
    pub fn find_files(&self, entries: &Vec<InputFile>) -> (r: Vec<InputFile>)
        requires
            self.root_directory_path.is_some(),
        ensures
            views(r@) == discovered(views(entries@), self.config_name(), self.output_dir(), self.root()),
            forall|i: int| 0 <= i < r@.len() ==> !r@[i]@.in_directory(self.output_dir(), self.root()),
    {
        let mut r: Vec<InputFile> = Vec::new();
        let mut i: usize = 0;
        while i < entries.len()
            invariant
                i <= entries@.len(),
                self.root_directory_path.is_some(),
                views(r@) == discovered(views(entries@.take(i as int)), self.config_name(), self.output_dir(), self.root()),
                forall|j: int| 0 <= j < r@.len() ==> !r@[j]@.in_directory(self.output_dir(), self.root()),
            decreases entries@.len() - i,
        {
            assert(views(entries@.take(i + 1)).drop_last() =~= views(entries@.take(i as int)));
            assert(views(entries@.take(i + 1)).last() == entries@[i as int]@);
            let ghost before = r@;
            if self.is_discoverable(&entries[i]) {
                r.push(entries[i].duplicate());
                assert(views(r@) =~= views(before).push(entries@[i as int]@));
            }
            i = i + 1;
        }
        assert(entries@.take(i as int) =~= entries@);
        r
    }
}

} // verus!
