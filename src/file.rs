//! The file model: one entry of the working file set.
use vstd::prelude::*;
use crate::text::{
    base_name, find_last, has_prefix, join3, lemma_last_index_bounds, matches_at, occurs_at,
    replace_first, replace_first_of, starts_with, suffix_from,
};
use crate::utils::{extension_of, file_extension};

verus! {

/// One discovered (or synthesized) file.
#[derive(Debug, PartialEq, Eq)]
pub struct InputFile {
    pub filename: String,
    pub path: String,
    pub is_directory: bool,
    pub extension: String,
}

/// The mathematical model of an `InputFile`.
pub struct FileView {
    pub filename: Seq<char>,
    pub path: Seq<char>,
    pub is_directory: bool,
    pub extension: Seq<char>,
}

impl View for InputFile {
    type V = FileView;

    open spec fn view(&self) -> FileView {
        FileView {
            filename: self.filename@,
            path: self.path@,
            is_directory: self.is_directory,
            extension: self.extension@,
        }
    }
}

/// `root` followed by a `/`.
pub open spec fn under(root: Seq<char>) -> Seq<char> {
    root.push('/')
}

/// The directory that holds `output`, when `output` ends with `filename`.
pub open spec fn parent_of(output: Seq<char>, filename: Seq<char>) -> Seq<char> {
    if occurs_at(output, filename, output.len() - filename.len()) {
        output.subrange(0, output.len() - filename.len())
    } else {
        output
    }
}

impl FileView {
    /// The extension is the one its file name gives.
    pub open spec fn wf(self) -> bool {
        self.extension == extension_of(self.filename)
    }

    /// The file with the first occurrence of its extension replaced by `e`,
    /// in its name and in its path, and the extension read again.
    pub open spec fn with_extension(self, e: Seq<char>) -> FileView {
        let filename = replace_first(self.filename, self.extension, e);
        FileView {
            filename,
            path: replace_first(self.path, self.extension, e),
            is_directory: self.is_directory,
            extension: extension_of(filename),
        }
    }

    /// The path, once `root/` is taken off its front, begins with `dir`;
    /// false for a file outside `root`.
    pub open spec fn in_directory(self, dir: Seq<char>, root: Seq<char>) -> bool {
        starts_with(self.path, under(root)) && starts_with(
            self.path.subrange(under(root).len() as int, self.path.len() as int),
            dir,
        )
    }
}

impl InputFile {
    /// The file found at `path`; its name is the last component of `path`.
    pub fn from_path(path: String, is_directory: bool) -> (r: InputFile)
        ensures
            r@.path == path@,
            r@.filename == base_name(path@),
            r@.is_directory == is_directory,
            r@.wf(),
    {
        let n = path.unicode_len();
        proof {
            lemma_last_index_bounds(path@, '/');
        }
        let start: usize = match find_last(path.as_str(), '/') {
            Some(i) => i + 1,
            None => 0,
        };
        let filename = path.as_str().substring_char(start, n).to_string();
        let extension = file_extension(filename.as_str());
        InputFile { filename, path, is_directory, extension }
    }

    /// A copy of this file.
    pub fn duplicate(&self) -> (r: InputFile)
        ensures
            r@ == self@,
    {
        InputFile {
            filename: self.filename.clone(),
            path: self.path.clone(),
            is_directory: self.is_directory,
            extension: self.extension.clone(),
        }
    }

    /// The directory that holds `output_filename`: the output path with this
    /// file's name taken off its end.
    pub fn output_directory(&self, output_filename: &str) -> (r: String)
        ensures
            r@ == parent_of(output_filename@, self.filename@),
    {
        let n = output_filename.unicode_len();
        let m = self.filename.unicode_len();
        if m <= n && matches_at(output_filename, n, self.filename.as_str(), m, n - m) {
            output_filename.substring_char(0, n - m).to_string()
        } else {
            proof {
                if m > n {
                    assert(!occurs_at(output_filename@, self.filename@, n - m));
                }
            }
            output_filename.to_string()
        }
    }

    /// A new file whose name and path have the first occurrence of the old
    /// extension replaced by `new_value`; this file is left as it is.
    pub fn replace_extensions(&self, new_value: &str) -> (r: InputFile)
        ensures
            r@ == self@.with_extension(new_value@),
            r@.wf(),
    {
        let filename = self.replace_filename_extension(new_value);
        let path = self.replace_path_extension(new_value);
        let extension = file_extension(filename.as_str());
        InputFile { filename, path, is_directory: self.is_directory, extension }
    }

    /// The file name with the first occurrence of the extension replaced.
    pub fn replace_filename_extension(&self, new_value: &str) -> (r: String)
        ensures
            r@ == replace_first(self.filename@, self.extension@, new_value@),
    {
        replace_first_of(self.filename.as_str(), self.extension.as_str(), new_value)
    }

    /// The path with the first occurrence of the extension replaced.
    pub fn replace_path_extension(&self, new_value: &str) -> (r: String)
        ensures
            r@ == replace_first(self.path@, self.extension@, new_value@),
    {
        replace_first_of(self.path.as_str(), self.extension.as_str(), new_value)
    }

    /// Whether the file lies under `root/directory`, read as text.
    pub fn is_in_directory(&self, directory: String, root: String) -> (r: bool)
        ensures
            r == self@.in_directory(directory@, root@),
    {
        let prefix = join3(root.as_str(), "/", "");
        proof {
            reveal_strlit("/");
            reveal_strlit("");
            assert(prefix@ =~= under(root@));
        }
        if !has_prefix(self.path.as_str(), prefix.as_str()) {
            return false;
        }
        let plen = prefix.unicode_len();
        let rest = suffix_from(self.path.as_str(), plen);
        has_prefix(rest.as_str(), directory.as_str())
    }

    /// Whether the file's extension is `extension`.
    pub fn is_extension(&self, extension: &str) -> (r: bool)
        ensures
            r == (self@.extension == extension@),
    {
        let e = extension.to_string();
        self.extension == e
    }
}

} // verus!
