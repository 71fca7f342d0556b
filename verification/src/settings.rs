//! What a run is configured with: where to scan, which sigils mark the four
//! kinds of directive, and what to do with what is found.

use crate::command::Subcommand;
use crate::directive::{compile_directive_regex, directive_pattern};
use crate::matcher::{Matcher, PatternError};
use crate::text::{str_eq, texts};
use vstd::prelude::*;
use vstd::string::*;

verus! {

/// The configuration of a run.
#[derive(Debug)]
pub struct Settings {
    /// The roots to scan.
    pub paths: Vec<String>,
    /// The sigil of tags.
    pub tag_sigil: String,
    /// The sigil of references to tags.
    pub ref_sigil: String,
    /// The sigil of references to files.
    pub file_sigil: String,
    /// The sigil of references to directories.
    pub dir_sigil: String,
    /// What to do.
    pub subcommand: Subcommand,
}

/// The four matchers of a run, one for each kind of directive.
pub struct Matchers {
    pub tags: Matcher,
    pub refs: Matcher,
    pub files: Matcher,
    pub dirs: Matcher,
}

/// The operation that a name on the command line stands for. No name stands
/// for a check. The flag counts for the listing of unused tags only.
pub open spec fn named(name: Option<Seq<char>>, fail_if_any: bool) -> Option<Subcommand> {
    match name {
        None => Some(Subcommand::Check),
        Some(name) => if name == "check"@ {
            Some(Subcommand::Check)
        } else if name == "list-tags"@ {
            Some(Subcommand::ListTags)
        } else if name == "list-refs"@ {
            Some(Subcommand::ListRefs)
        } else if name == "list-files"@ {
            Some(Subcommand::ListFiles)
        } else if name == "list-dirs"@ {
            Some(Subcommand::ListDirs)
        } else if name == "list-unused"@ {
            Some(Subcommand::ListUnused(fail_if_any))
        } else {
            None
        },
    }
}

impl Subcommand {
    /// Reads the operation from its name on the command line, if the name is
    /// that of an operation.
    pub fn from_name(name: Option<&str>, fail_if_any: bool) -> (subcommand: Option<Subcommand>)
        ensures
            subcommand == named(
                match name {
                    Some(name) => Some(name@),
                    None => None,
                },
                fail_if_any,
            ),
    {
        match name {
            None => Some(Subcommand::Check),
            Some(name) => if str_eq(name, "check") {
                Some(Subcommand::Check)
            } else if str_eq(name, "list-tags") {
                Some(Subcommand::ListTags)
            } else if str_eq(name, "list-refs") {
                Some(Subcommand::ListRefs)
            } else if str_eq(name, "list-files") {
                Some(Subcommand::ListFiles)
            } else if str_eq(name, "list-dirs") {
                Some(Subcommand::ListDirs)
            } else if str_eq(name, "list-unused") {
                Some(Subcommand::ListUnused(fail_if_any))
            } else {
                None
            },
        }
    }
}

impl Default for Settings {
    /// A check of the current directory with the sigils `tag`, `ref`, `file`
    /// and `dir`.
    fn default() -> (settings: Settings)
        ensures
            texts(settings.paths@) == seq!["."@],
            settings.tag_sigil@ == "tag"@,
            settings.ref_sigil@ == "ref"@,
            settings.file_sigil@ == "file"@,
            settings.dir_sigil@ == "dir"@,
            settings.subcommand == Subcommand::Check,
    {
        let mut paths: Vec<String> = Vec::new();
        paths.push(".".to_owned());
        assert(texts(paths@) =~= seq!["."@]);
        Settings {
            paths,
            tag_sigil: "tag".to_owned(),
            ref_sigil: "ref".to_owned(),
            file_sigil: "file".to_owned(),
            dir_sigil: "dir".to_owned(),
            subcommand: Subcommand::Check,
        }
    }
}

/// What four attempts to compile make together: the four matchers where all
/// of them succeeded, and else the first failure, in the order tags,
/// references, files, directories.
pub open spec fn assembled(
    tags: Result<Matcher, PatternError>,
    refs: Result<Matcher, PatternError>,
    files: Result<Matcher, PatternError>,
    dirs: Result<Matcher, PatternError>,
) -> Result<Matchers, PatternError> {
    match (tags, refs, files, dirs) {
        (Ok(tags), Ok(refs), Ok(files), Ok(dirs)) => Ok(Matchers { tags, refs, files, dirs }),
        (Err(error), _, _, _) => Err(error),
        (_, Err(error), _, _) => Err(error),
        (_, _, Err(error), _) => Err(error),
        (_, _, _, Err(error)) => Err(error),
    }
}

impl Matchers {
    /// Puts the outcomes of four compilations together: the four matchers
    /// where all of them succeeded, and else the first failure.
    pub fn from_compiled(
        tags: Result<Matcher, PatternError>,
        refs: Result<Matcher, PatternError>,
        files: Result<Matcher, PatternError>,
        dirs: Result<Matcher, PatternError>,
    ) -> (made: Result<Matchers, PatternError>)
        ensures
            made == assembled(tags, refs, files, dirs),
    {
        let tags = match tags {
            Ok(matcher) => matcher,
            Err(error) => {
                return Err(error);
            },
        };
        let refs = match refs {
            Ok(matcher) => matcher,
            Err(error) => {
                return Err(error);
            },
        };
        let files = match files {
            Ok(matcher) => matcher,
            Err(error) => {
                return Err(error);
            },
        };
        let dirs = match dirs {
            Ok(matcher) => matcher,
            Err(error) => {
                return Err(error);
            },
        };
        Ok(Matchers { tags, refs, files, dirs })
    }
}

impl Settings {
    /// Compiles the four matchers, once, before any file is read. Fails with
    /// the first sigil that cannot be made into a matcher.
    pub fn matchers(&self) -> (made: Result<Matchers, PatternError>)
        ensures
            made matches Ok(matchers) ==> {
                &&& matchers.tags@ == directive_pattern(self.tag_sigil@)
                &&& matchers.refs@ == directive_pattern(self.ref_sigil@)
                &&& matchers.files@ == directive_pattern(self.file_sigil@)
                &&& matchers.dirs@ == directive_pattern(self.dir_sigil@)
            },
    {
        Matchers::from_compiled(
            compile_directive_regex(self.tag_sigil.as_str()),
            compile_directive_regex(self.ref_sigil.as_str()),
            compile_directive_regex(self.file_sigil.as_str()),
            compile_directive_regex(self.dir_sigil.as_str()),
        )
    }
}

} // verus!
