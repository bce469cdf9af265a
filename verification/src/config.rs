use vstd::prelude::*;
use crate::text::equal;

verus! {

/// Why settings given to a run cannot be used.
#[derive(Clone, Copy, Debug, PartialEq, Eq, Structural)]
pub enum ConfigError {
    /// The name given is that of no diagnostic.
    UnknownDebugOption,
    /// The optimisation level is not one of 0, 1, 2 and 3.
    InvalidOptimisationLevel,
}

/// When a symbolic link is followed.
#[derive(Clone, Copy, Debug, PartialEq, Eq, Structural)]
pub enum SymLinkSetting {
    /// Links are reported and tested as links.
    Never,
    /// Links met during the walk are resolved and their targets reported.
    Follow,
    /// Only a link named as the starting path is followed; links met during the walk
    /// are treated as under `Never`.
    OnlyCommandLineArgs,
}

impl SymLinkSetting {
    /// Whether a link met during the walk is resolved.
    pub open spec fn follows(self) -> bool {
        self == SymLinkSetting::Follow
    }

    /// The policy that three switches ask for together: never to follow wins over
    /// always to follow, which wins over following what the command line names;
    /// with no switch set, links are never followed.
    pub open spec fn chosen(never: bool, follow: bool, only_command_line_args: bool) -> SymLinkSetting {
        if never {
            SymLinkSetting::Never
        } else if follow {
            SymLinkSetting::Follow
        } else if only_command_line_args {
            SymLinkSetting::OnlyCommandLineArgs
        } else {
            SymLinkSetting::Never
        }
    }

    /// Computes [`SymLinkSetting::chosen`].
    pub fn from_flags(never: bool, follow: bool, only_command_line_args: bool) -> (setting:
        SymLinkSetting)
        ensures
            setting == SymLinkSetting::chosen(never, follow, only_command_line_args),
    {
        let mut setting = SymLinkSetting::Never;
        if only_command_line_args {
            setting = SymLinkSetting::OnlyCommandLineArgs;
        }
        if follow {
            setting = SymLinkSetting::Follow;
        }
        if never {
            setting = SymLinkSetting::Never;
        }
        setting
    }

    /// Computes [`SymLinkSetting::follows`].
    pub fn is_follow(&self) -> (follow: bool)
        ensures
            follow == self.follows(),
    {
        match self {
            SymLinkSetting::Follow => true,
            SymLinkSetting::Never => false,
            SymLinkSetting::OnlyCommandLineArgs => false,
        }
    }
}

/// The diagnostics a run can be asked for.
#[derive(Clone, Copy, Debug, PartialEq, Eq, Structural)]
pub enum DebugOpts {
    Exec,
    Opt,
    Rates,
    Search,
    Stat,
    Tree,
    All,
    Help,
}

impl DebugOpts {
    /// The diagnostic that `name` names, if it names one.
    pub open spec fn named(name: Seq<char>) -> Option<DebugOpts> {
        if name == "exec"@ {
            Some(DebugOpts::Exec)
        } else if name == "opt"@ {
            Some(DebugOpts::Opt)
        } else if name == "rates"@ {
            Some(DebugOpts::Rates)
        } else if name == "search"@ {
            Some(DebugOpts::Search)
        } else if name == "stat"@ {
            Some(DebugOpts::Stat)
        } else if name == "tree"@ {
            Some(DebugOpts::Tree)
        } else if name == "all"@ {
            Some(DebugOpts::All)
        } else if name == "help"@ {
            Some(DebugOpts::Help)
        } else {
            None
        }
    }

    /// Reads the name of a diagnostic. A name that names none is an error.
    pub fn parse(name: &str) -> (outcome: Result<DebugOpts, ConfigError>)
        ensures
            match outcome {
                Ok(option) => DebugOpts::named(name@) == Some(option),
                Err(error) => DebugOpts::named(name@) is None && error
                    == ConfigError::UnknownDebugOption,
            },
    {
        if equal(name, "exec") {
            Ok(DebugOpts::Exec)
        } else if equal(name, "opt") {
            Ok(DebugOpts::Opt)
        } else if equal(name, "rates") {
            Ok(DebugOpts::Rates)
        } else if equal(name, "search") {
            Ok(DebugOpts::Search)
        } else if equal(name, "stat") {
            Ok(DebugOpts::Stat)
        } else if equal(name, "tree") {
            Ok(DebugOpts::Tree)
        } else if equal(name, "all") {
            Ok(DebugOpts::All)
        } else if equal(name, "help") {
            Ok(DebugOpts::Help)
        } else {
            Err(ConfigError::UnknownDebugOption)
        }
    }
}

/// The settings of one search that do not concern depth.
#[derive(Clone, Copy, Debug)]
pub struct Params {
    pub symlink_setting: SymLinkSetting,
    pub debug_opts: Option<DebugOpts>,
    pub optimisation_level: Option<u8>,
}

impl Params {
    /// Settings with the given parts. An optimisation level, where one is given, has
    /// to be one of 0, 1, 2 and 3.
    pub fn new(
        symlink_setting: SymLinkSetting,
        debug_opts: Option<DebugOpts>,
        optimisation_level: Option<u8>,
    ) -> (outcome: Result<Params, ConfigError>)
        ensures
            match outcome {
                Ok(params) => {
                    &&& optimisation_level matches Some(level) ==> level <= 3
                    &&& params == (Params { symlink_setting, debug_opts, optimisation_level })
                },
                Err(error) => {
                    &&& optimisation_level matches Some(level) && level > 3
                    &&& error == ConfigError::InvalidOptimisationLevel
                },
            },
    {
        match optimisation_level {
            Some(level) if level > 3 => Err(ConfigError::InvalidOptimisationLevel),
            _ => Ok(Params { symlink_setting, debug_opts, optimisation_level }),
        }
    }

    /// Whether lines are indented as a tree.
    pub open spec fn tree_mode(self) -> bool {
        self.debug_opts == Some(DebugOpts::Tree)
    }

    /// Computes [`Params::tree_mode`].
    pub fn is_tree_mode(&self) -> (tree: bool)
        ensures
            tree == self.tree_mode(),
    {
        match self.debug_opts {
            Some(DebugOpts::Tree) => true,
            _ => false,
        }
    }
}

} // verus!
