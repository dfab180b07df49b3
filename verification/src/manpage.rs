//! Installing a section-1 manual: which directory to try next, and when to give up.

use vstd::prelude::*;
use vstd::string::*;

use std::path::PathBuf;

use crate::paths::{
    copy_path, display_path, join_bytes, path_bytes, path_display, path_join, paths_view,
    text_bytes,
};
use crate::text::{join, join_strings, strings_view};

verus! {

/// Where the manual `name` lands in `directory`: `name.1` there.
pub open spec fn manpage_destination_of(directory: Seq<u8>, name: Seq<char>) -> Seq<u8> {
    join_bytes(directory, text_bytes(name + ".1"@))
}

/// The file that the manual `name` is written to in `directory`.
pub fn manpage_destination(directory: &PathBuf, name: &str) -> (r: PathBuf)
    ensures
        path_bytes(r) == manpage_destination_of(path_bytes(*directory), name@),
{
    let mut file = name.to_owned();
    file.append(".1");
    path_join(directory, file.as_str())
}

/// The line that reports why `directory` failed: the directory as it is
/// displayed, then the reason.
pub open spec fn failure_line(directory: Seq<u8>, reason: Seq<char>) -> Seq<char> {
    path_display(directory) + ": "@ + reason
}

/// The message when no directory took the manual: advice, then one line per
/// failed directory.
pub open spec fn install_failure_message(name: Seq<char>, failures: Seq<Seq<char>>) -> Seq<char> {
    "could not install the "@ + name
        + " manual; try --dir ~/.local/share/man/man1 or use the required system privileges\n"@
        + join(failures, "\n"@)
}

/// What to do next.
#[derive(Debug, PartialEq, Eq)]
pub enum ManpageStep {
    /// Create `directory` and write the manual to `destination`.
    Install { directory: PathBuf, destination: PathBuf },
    /// The manual was written to this file.
    Installed(PathBuf),
    /// Every directory failed; the message says which and why.
    Failed(String),
}

/// The content of a step.
pub enum StepView {
    Install { directory: Seq<u8>, destination: Seq<u8> },
    Installed(Seq<u8>),
    Failed(Seq<char>),
}

impl ManpageStep {
    pub open spec fn view(&self) -> StepView {
        match self {
            ManpageStep::Install { directory, destination } => StepView::Install {
                directory: path_bytes(*directory),
                destination: path_bytes(*destination),
            },
            ManpageStep::Installed(d) => StepView::Installed(path_bytes(*d)),
            ManpageStep::Failed(m) => StepView::Failed(m@),
        }
    }
}

/// The content of an installation in progress.
pub struct InstallView {
    pub name: Seq<char>,
    pub directories: Seq<Seq<u8>>,
    pub failures: Seq<Seq<char>>,
}

/// The start of an installation: nothing tried yet.
pub open spec fn start_of(name: Seq<char>, directories: Seq<Seq<u8>>) -> InstallView {
    InstallView { name, directories, failures: Seq::empty() }
}

/// The step an installation calls for: the first directory not yet tried, or,
/// once every directory has failed, the failure with every reason.
pub open spec fn next_step_of(s: InstallView) -> StepView {
    if s.failures.len() < s.directories.len() {
        let d = s.directories[s.failures.len() as int];
        StepView::Install { directory: d, destination: manpage_destination_of(d, s.name) }
    } else {
        StepView::Failed(install_failure_message(s.name, s.failures))
    }
}

/// The outcome of installing into a directory: done, or why it failed.
pub open spec fn outcome_view(outcome: Result<(), String>) -> Result<(), Seq<char>> {
    match outcome {
        Ok(()) => Ok(()),
        Err(e) => Err(e@),
    }
}

/// What one outcome does: success ends at that directory's destination; a
/// failure is recorded with its directory and the next step follows.
pub open spec fn record_of(s: InstallView, outcome: Result<(), Seq<char>>) -> (InstallView, StepView) {
    if s.failures.len() >= s.directories.len() {
        (s, next_step_of(s))
    } else {
        let d = s.directories[s.failures.len() as int];
        match outcome {
            Ok(()) => (s, StepView::Installed(manpage_destination_of(d, s.name))),
            Err(e) => {
                let next = InstallView { failures: s.failures.push(failure_line(d, e)), ..s };
                (next, next_step_of(next))
            },
        }
    }
}

/// The state and step after a run of outcomes, one per `Install` step.
pub open spec fn run_of(s: InstallView, outcomes: Seq<Result<(), Seq<char>>>) -> (InstallView, StepView)
    decreases outcomes.len(),
{
    if outcomes.len() == 0 {
        (s, next_step_of(s))
    } else {
        record_of(run_of(s, outcomes.drop_last()).0, outcomes.last())
    }
}

/// An installation in progress: the directories to try in order, how many
/// have failed, and why each failed.
#[derive(Debug, PartialEq, Eq)]
pub struct ManpageInstall {
    name: String,
    directories: Vec<PathBuf>,
    failures: Vec<String>,
}

impl ManpageInstall {
    #[verifier::type_invariant]
    spec fn tried_in_order(self) -> bool {
        &&& self.failures@.len() <= self.directories@.len()
        &&& forall|i: int|
            0 <= i < self.failures@.len() ==> (path_display(path_bytes(self.directories@[i])) + ": "@).is_prefix_of(
                #[trigger] self.failures@[i]@,
            )
    }

    /// The manual's name.
    pub closed spec fn name_view(&self) -> Seq<char> {
        self.name@
    }

    /// The directories, in the order they are tried.
    pub closed spec fn directories_view(&self) -> Seq<Seq<u8>> {
        paths_view(self.directories@)
    }

    /// One line per directory that failed so far, in order: the directory and why.
    pub closed spec fn failures_view(&self) -> Seq<Seq<char>> {
        strings_view(self.failures@)
    }

    /// The installation's content.
    pub open spec fn view(&self) -> InstallView {
        InstallView {
            name: self.name_view(),
            directories: self.directories_view(),
            failures: self.failures_view(),
        }
    }

    /// How many directories have failed; the next one to try comes after them.
    pub open spec fn attempted(&self) -> nat {
        self.failures_view().len()
    }

    /// How many directories have failed: never more than there are, tried in
    /// order, each failure line naming its directory.
    pub fn attempts(&self) -> (n: usize)
        ensures
            n == self.attempted(),
            n <= self.directories_view().len(),
            forall|i: int|
                0 <= i < n ==> (path_display(self.directories_view()[i]) + ": "@).is_prefix_of(
                    #[trigger] self.failures_view()[i],
                ),
    {
        proof {
            use_type_invariant(self);
        }
        self.failures.len()
    }

    /// The next step.
    pub fn next_step(&self) -> (step: ManpageStep)
        ensures
            step.view() == next_step_of(self.view()),
    {
        proof {
            use_type_invariant(self);
        }
        let i = self.failures.len();
        if i < self.directories.len() {
            let directory = copy_path(&self.directories[i]);
            let destination = manpage_destination(&directory, self.name.as_str());
            ManpageStep::Install { directory, destination }
        } else {
            let mut m = String::new();
            m.append("could not install the ");
            m.append(self.name.as_str());
            m.append(
                " manual; try --dir ~/.local/share/man/man1 or use the required system privileges\n",
            );
            let lines = join_strings(&self.failures, "\n");
            m.append(lines.as_str());
            ManpageStep::Failed(m)
        }
    }

    /// Takes the outcome of the last `Install` step: success ends the
    /// installation at that destination; a failure is recorded with its
    /// directory, and the next directory is tried.
    pub fn record(&mut self, outcome: Result<(), String>) -> (step: ManpageStep)
        ensures
            (final(self).view(), step.view()) == record_of(old(self).view(), outcome_view(outcome)),
    {
        proof {
            use_type_invariant(&*self);
        }
        let i = self.failures.len();
        if i >= self.directories.len() {
            return self.next_step();
        }
        match outcome {
            Ok(()) => {
                let destination = manpage_destination(&self.directories[i], self.name.as_str());
                ManpageStep::Installed(destination)
            },
            Err(e) => {
                let mut line = display_path(&self.directories[i]);
                line.append(": ");
                line.append(e.as_str());
                let ghost before = self.failures@;
                let ghost shown = path_display(path_bytes(self.directories@[i as int]));
                assert((shown + ": "@).is_prefix_of(line@)) by {
                    assert(line@ =~= shown + ": "@ + e@);
                }
                let mut failures: Vec<String> = Vec::new();
                std::mem::swap(&mut failures, &mut self.failures);
                failures.push(line);
                self.failures = failures;
                assert(strings_view(self.failures@) =~= strings_view(before).push(line@));
                self.next_step()
            },
        }
    }
}

/// Begins installing the manual `name`: into `requested_directory` alone where
/// one is given, else into each of `default_directories` in turn until one
/// takes it.
pub fn install_manpage(name: &str, requested_directory: Option<PathBuf>, default_directories: Vec<PathBuf>) -> (r: (ManpageInstall, ManpageStep))
    ensures
        r.0.view() == start_of(
            name@,
            match requested_directory {
                Some(d) => seq![path_bytes(d)],
                None => paths_view(default_directories@),
            },
        ),
        r.1.view() == next_step_of(r.0.view()),
{
    let directories = match requested_directory {
        Some(d) => {
            let ghost bytes = path_bytes(d);
            let mut v: Vec<PathBuf> = Vec::new();
            v.push(d);
            assert(paths_view(v@) =~= seq![bytes]);
            v
        },
        None => default_directories,
    };
    let state = ManpageInstall { name: name.to_owned(), directories, failures: Vec::new() };
    assert(strings_view(state.failures@) =~= Seq::<Seq<char>>::empty());
    let step = state.next_step();
    (state, step)
}

} // verus!
