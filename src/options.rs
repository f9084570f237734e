use vstd::prelude::*;

verus! {

/// Which internal representation the automaton uses.
#[derive(Clone, Copy, Debug, PartialEq, Eq, Structural)]
pub enum Representation {
    NoncontiguousNfa,
    ContiguousNfa,
    Dfa,
}

/// Which of several overlapping candidate matches a search reports.
#[derive(Clone, Copy, Debug, PartialEq, Eq, Structural)]
pub enum MatchSemantics {
    Standard,
    LeftmostLongest,
    LeftmostFirst,
}

/// Which start-of-match semantics a built automaton supports.
#[derive(Clone, Copy, Debug, PartialEq, Eq, Structural)]
pub enum StartMode {
    Both,
    Unanchored,
    Anchored,
}

/// Why a set of builder options does not describe a configuration.
#[derive(Clone, Copy, Debug, PartialEq, Eq, Structural)]
pub enum ConfigError {
    InvalidMatchKind,
    InvalidStartKind,
}

/// A decoded, well-typed builder configuration.
#[derive(Clone, Copy, Debug, PartialEq, Eq, Structural)]
pub struct Config {
    pub ascii_case_insensitive: bool,
    pub byte_classes: bool,
    pub dense_depth: Option<usize>,
    pub kind: Option<Representation>,
    pub match_kind: MatchSemantics,
    pub prefilter: bool,
    pub start_kind: StartMode,
}

/// Builder options as integer codes, the shape in which a foreign caller
/// hands them over. A flag is set when it is non-zero; `kind` and
/// `dense_depth` may be absent.
#[derive(Clone, Copy, Debug, PartialEq, Eq, Structural)]
pub struct AhoCorasickBuilderOptions {
    pub ascii_case_insensitive: i32,
    pub byte_classes: i32,
    pub dense_depth: Option<usize>,
    pub kind: Option<usize>,
    pub match_kind: usize,
    pub prefilter: i32,
    pub start_kind: usize,
}

/// The representation a kind code names: 1, 2 and 3 name the
/// non-contiguous NFA, the contiguous NFA and the DFA; anything else leaves
/// the choice to the builder.
pub open spec fn kind_of_code(code: Option<usize>) -> Option<Representation> {
    match code {
        Some(1) => Some(Representation::NoncontiguousNfa),
        Some(2) => Some(Representation::ContiguousNfa),
        Some(3) => Some(Representation::Dfa),
        _ => None,
    }
}

/// The match semantics a match-kind code names, if any.
pub open spec fn match_kind_of_code(code: usize) -> Option<MatchSemantics> {
    if code == 1 {
        Some(MatchSemantics::Standard)
    } else if code == 2 {
        Some(MatchSemantics::LeftmostLongest)
    } else if code == 3 {
        Some(MatchSemantics::LeftmostFirst)
    } else {
        None
    }
}

/// The start mode a start-kind code names, if any.
pub open spec fn start_kind_of_code(code: usize) -> Option<StartMode> {
    if code == 1 {
        Some(StartMode::Both)
    } else if code == 2 {
        Some(StartMode::Unanchored)
    } else if code == 3 {
        Some(StartMode::Anchored)
    } else {
        None
    }
}

impl AhoCorasickBuilderOptions {
    /// The configuration these options describe, if both codes are valid.
    pub open spec fn config_spec(&self) -> Result<Config, ConfigError> {
        match match_kind_of_code(self.match_kind) {
            None => Err(ConfigError::InvalidMatchKind),
            Some(mk) => match start_kind_of_code(self.start_kind) {
                None => Err(ConfigError::InvalidStartKind),
                Some(sk) => Ok(
                    Config {
                        ascii_case_insensitive: self.ascii_case_insensitive != 0,
                        byte_classes: self.byte_classes != 0,
                        dense_depth: self.dense_depth,
                        kind: kind_of_code(self.kind),
                        match_kind: mk,
                        prefilter: self.prefilter != 0,
                        start_kind: sk,
                    },
                ),
            },
        }
    }

    pub fn get_kind(&self) -> (r: Option<Representation>)
        ensures
            r == kind_of_code(self.kind),
    {
        match self.kind {
            None => None,
            Some(code) => {
                if code == 1 {
                    Some(Representation::NoncontiguousNfa)
                } else if code == 2 {
                    Some(Representation::ContiguousNfa)
                } else if code == 3 {
                    Some(Representation::Dfa)
                } else {
                    None
                }
            },
        }
    }

    pub fn get_match_kind(&self) -> (r: Result<MatchSemantics, ConfigError>)
        ensures
            match match_kind_of_code(self.match_kind) {
                Some(mk) => r == Ok::<MatchSemantics, ConfigError>(mk),
                None => r == Err::<MatchSemantics, ConfigError>(ConfigError::InvalidMatchKind),
            },
    {
        if self.match_kind == 1 {
            Ok(MatchSemantics::Standard)
        } else if self.match_kind == 2 {
            Ok(MatchSemantics::LeftmostLongest)
        } else if self.match_kind == 3 {
            Ok(MatchSemantics::LeftmostFirst)
        } else {
            Err(ConfigError::InvalidMatchKind)
        }
    }

    pub fn get_start_kind(&self) -> (r: Result<StartMode, ConfigError>)
        ensures
            match start_kind_of_code(self.start_kind) {
                Some(sk) => r == Ok::<StartMode, ConfigError>(sk),
                None => r == Err::<StartMode, ConfigError>(ConfigError::InvalidStartKind),
            },
    {
        if self.start_kind == 1 {
            Ok(StartMode::Both)
        } else if self.start_kind == 2 {
            Ok(StartMode::Unanchored)
        } else if self.start_kind == 3 {
            Ok(StartMode::Anchored)
        } else {
            Err(ConfigError::InvalidStartKind)
        }
    }

    /// Decodes every option; the match kind is checked before the start kind.
    pub fn to_config(&self) -> (r: Result<Config, ConfigError>)
        ensures
            r == self.config_spec(),
    {
        let mk = match self.get_match_kind() {
            Ok(mk) => mk,
            Err(e) => {
                return Err(e);
            },
        };
        let sk = match self.get_start_kind() {
            Ok(sk) => sk,
            Err(e) => {
                return Err(e);
            },
        };
        Ok(
            Config {
                ascii_case_insensitive: self.ascii_case_insensitive != 0,
                byte_classes: self.byte_classes != 0,
                dense_depth: self.dense_depth,
                kind: self.get_kind(),
                match_kind: mk,
                prefilter: self.prefilter != 0,
                start_kind: sk,
            },
        )
    }
}

impl Config {
    /// The configuration used when none is given: standard semantics,
    /// unanchored searches, case-sensitive, the builder's own choices for the
    /// rest.
    pub open spec fn default_spec() -> Config {
        Config {
            ascii_case_insensitive: false,
            byte_classes: true,
            dense_depth: None,
            kind: None,
            match_kind: MatchSemantics::Standard,
            prefilter: true,
            start_kind: StartMode::Unanchored,
        }
    }

    pub fn default_config() -> (r: Config)
        ensures
            r == Config::default_spec(),
    {
        Config {
            ascii_case_insensitive: false,
            byte_classes: true,
            dense_depth: None,
            kind: None,
            match_kind: MatchSemantics::Standard,
            prefilter: true,
            start_kind: StartMode::Unanchored,
        }
    }
}

} // verus!
