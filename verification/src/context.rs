//! The state that outlives a command: the working directory and the
//! environment variables that the interpreter reads.
//!
//! The state is an ordinary value. Commands read it, and `cd` alone changes
//! it, through [`ExecutionContext::finish_cd`].

use vstd::prelude::*;
use crate::resolver::{split, split_path_list};
use crate::text::{range_is, to_chars};

verus! {

/// The session state that commands see.
#[derive(Debug, PartialEq, Eq)]
pub struct ExecutionContext {
    /// The absolute path of the working directory.
    pub cwd: String,
    /// The value of `HOME`, if it is set.
    pub home: Option<String>,
    /// The value of `PATH`, if it is set.
    pub path: Option<String>,
}

/// The mathematical value of an [`ExecutionContext`].
pub struct ExecutionContextView {
    pub cwd: Seq<char>,
    pub home: Option<Seq<char>>,
    pub path: Option<Seq<char>>,
}

impl View for ExecutionContext {
    type V = ExecutionContextView;

    open spec fn view(&self) -> ExecutionContextView {
        ExecutionContextView {
            cwd: self.cwd@,
            home: self.home.deep_view(),
            path: self.path.deep_view(),
        }
    }
}

/// The directory that `cd` is to enter for the argument `path`: the home
/// directory for `~`, or `/` when there is no home directory; otherwise the
/// argument itself.
pub open spec fn cd_destination(path: Seq<char>, home: Option<Seq<char>>) -> Seq<char> {
    if path == "~"@ {
        match home {
            Some(dir) => dir,
            None => "/"@,
        }
    } else {
        path
    }
}

/// The complaint of `cd` about the argument `path`.
pub open spec fn cd_complaint(path: Seq<char>) -> Seq<char> {
    "cd: "@ + path + ": No such file or directory"@
}

/// The directories of the search path `path`, in order; none when the
/// variable is not set.
pub open spec fn search_path(path: Option<Seq<char>>) -> Seq<Seq<char>> {
    match path {
        Some(list) => split(list, ':'),
        None => Seq::empty(),
    }
}

impl ExecutionContext {
    /// The state of a session that starts in the directory `cwd`.
    pub fn new(cwd: String, home: Option<String>, path: Option<String>) -> (ctx: Self)
        ensures
            ctx@ == (ExecutionContextView {
                cwd: cwd@,
                home: home.deep_view(),
                path: path.deep_view(),
            }),
    {
        ExecutionContext { cwd, home, path }
    }

    /// Runs `pwd`: the working directory.
    pub fn pwd(&self) -> (r: String)
        ensures
            r@ == self@.cwd,
    {
        self.cwd.clone()
    }

    /// The directory that `cd` is to enter for the argument `path`.
    pub fn cd_target(&self, path: &str) -> (r: String)
        ensures
            r@ == cd_destination(path@, self@.home),
    {
        let chars = to_chars(path);
        assert(chars@.subrange(0, chars.len() as int) =~= path@);
        if range_is(&chars, 0, chars.len(), "~") {
            match &self.home {
                Some(dir) => dir.clone(),
                None => "/".to_owned(),
            }
        } else {
            path.to_owned()
        }
    }

    /// Ends `cd` for the argument `path`, once the attempt to enter
    /// [`cd_target`](Self::cd_target) was made.
    ///
    /// `entered` is the absolute path of the directory that was entered, or
    /// `None` if it could not be entered. On success the working directory is
    /// the new one and nothing is printed. On failure the state stays as it
    /// was, and the result is the complaint, which names the argument as it
    /// was written. The complaint is meant for standard error, whether or not
    /// standard output is redirected.
    pub fn finish_cd(&mut self, path: &str, entered: Option<String>) -> (r: Option<String>)
        ensures
            match entered {
                Some(dir) => r.is_none() && final(self)@ == (ExecutionContextView {
                    cwd: dir@,
                    ..old(self)@
                }),
                None => r.deep_view() == Some(cd_complaint(path@)) && *final(self) == *old(self),
            },
    {
        match entered {
            Some(dir) => {
                self.cwd = dir;
                None
            },
            None => {
                let mut line = "cd: ".to_owned();
                line.append(path);
                line.append(": No such file or directory");
                Some(line)
            },
        }
    }

    /// The directories in which programs are looked for, in search order.
    pub fn search_dirs(&self) -> (dirs: Vec<String>)
        ensures
            dirs.deep_view() == search_path(self@.path),
    {
        match &self.path {
            Some(list) => split_path_list(list.as_str()),
            None => {
                let dirs: Vec<String> = Vec::new();
                dirs
            },
        }
    }
}

} // verus!
