use vstd::prelude::*;
use aho_corasick::{AhoCorasick, AhoCorasickKind as AcKind, Anchored, Input, MatchKind as AcMatch, StartKind as AcStart};
use crate::options::{AhoCorasickBuilderOptions, Config, ConfigError, MatchSemantics, Representation, StartMode};
use crate::semantics::{
    ends_ordered, first_match, has_candidate, is_overlapping_report, is_overlapping_scan, is_scan,
    lemma_overlapping_scan_nonempty, lemma_report_without_repeats, lemma_without_repeats,
    without_repeats,
    lemma_no_patterns, lemma_scan_nonempty, lemma_scan_ordered, AhoCorasickMatch,
};

verus! {

#[verifier::external_type_specification]
#[verifier::external_body]
pub struct ExAhoCorasick(AhoCorasick);

#[verifier::external_type_specification]
#[verifier::external_body]
pub struct ExBuildError(aho_corasick::BuildError);

/// The non-overlapping scan that an automaton built from `pats` with the
/// given case folding and semantics reports on `text`.
pub uninterp spec fn scan_of(
    pats: Seq<Seq<u8>>,
    fold: bool,
    kind: MatchSemantics,
    anchored: bool,
    text: Seq<u8>,
) -> Seq<AhoCorasickMatch>;

/// The overlapping scan that an automaton with standard semantics built from
/// `pats` with the given case folding reports on `text`.
pub uninterp spec fn overlapping_scan_of(pats: Seq<Seq<u8>>, fold: bool, text: Seq<u8>) -> Seq<AhoCorasickMatch>;

/// The match that an automaton built from `pats` with the given case
/// folding and semantics reports on `text` for a search beginning at `from`.
pub uninterp spec fn find_of(
    pats: Seq<Seq<u8>>,
    fold: bool,
    kind: MatchSemantics,
    anchored: bool,
    text: Seq<u8>,
    from: int,
) -> Option<AhoCorasickMatch>;

/// Whether the builder accepts `pats` under the configuration `c`: it
/// refuses only a pattern set that exceeds one of its limits there.
pub uninterp spec fn builds(pats: Seq<Seq<u8>>, c: Config) -> bool;

/// Why building an automaton failed.
#[derive(Clone, Copy, Debug, PartialEq, Eq, Structural)]
pub enum BuildFailure {
    /// The options do not describe a configuration.
    Config(ConfigError),
    /// The builder refused the patterns under this configuration (a size
    /// limit, or a representation that cannot hold them).
    Construction,
}

/// Why a search could not run.
#[derive(Clone, Copy, Debug, PartialEq, Eq, Structural)]
pub enum SearchError {
    /// The automaton was not built for the requested anchoring.
    UnsupportedAnchoring,
}

/// A built automaton. Only `build_with_config` makes one, so `ac` is always
/// the automaton built from `patterns` under `config`: the contracts of the
/// search wrappers below speak of `ac` through these two fields.
pub struct Automaton {
    ac: AhoCorasick,
    patterns: Ghost<Seq<Seq<u8>>>,
    config: Config,
}

/// Whether an automaton built for `s` can run a search with this anchoring.
pub open spec fn supports(s: StartMode, anchored: bool) -> bool {
    match s {
        StartMode::Both => true,
        StartMode::Unanchored => !anchored,
        StartMode::Anchored => anchored,
    }
}

/// The anchoring of a search that does not ask for one: anchored only where
/// the automaton supports nothing else.
pub open spec fn default_anchored(s: StartMode) -> bool {
    s == StartMode::Anchored
}

/// Whether a full scan reports overlapping matches: under standard semantics,
/// unless only anchored searches are supported.
pub open spec fn overlapping(c: Config) -> bool {
    c.match_kind == MatchSemantics::Standard && !default_anchored(c.start_kind)
}

impl Automaton {
    /// The patterns, in order; a pattern's identity is its index.
    pub closed spec fn patterns(&self) -> Seq<Seq<u8>> {
        self.patterns@
    }

    pub closed spec fn config_spec(&self) -> Config {
        self.config
    }

    pub fn config(&self) -> (r: Config)
        ensures
            r == self.config_spec(),
    {
        self.config
    }

    pub open spec fn fold(&self) -> bool {
        self.config_spec().ascii_case_insensitive
    }

    pub open spec fn kind(&self) -> MatchSemantics {
        self.config_spec().match_kind
    }

    pub open spec fn anchored_default(&self) -> bool {
        default_anchored(self.config_spec().start_kind)
    }

    /// Whether the text holds an occurrence that a search from its start may
    /// report.
    pub open spec fn is_match_spec(&self, text: Seq<u8>) -> bool {
        has_candidate(self.patterns(), self.fold(), text, 0, self.anchored_default())
    }

    /// The first match of `text`, searching from its start.
    pub open spec fn find_spec(&self, text: Seq<u8>) -> Option<AhoCorasickMatch> {
        find_of(self.patterns(), self.fold(), self.kind(), self.anchored_default(), text, 0)
    }

    /// The full match sequence of a scan of `text`.
    pub open spec fn scan_spec(&self, text: Seq<u8>) -> Seq<AhoCorasickMatch> {
        if overlapping(self.config_spec()) {
            without_repeats(overlapping_scan_of(self.patterns(), self.fold(), text))
        } else {
            scan_of(self.patterns(), self.fold(), self.kind(), self.anchored_default(), text)
        }
    }
}

/// Relies on `AhoCorasickBuilder` and its `build`: each option is handed to
/// the builder's setter of the same name, then the builder is run. Whether
/// it succeeds depends on the patterns and the options alone; a pattern set
/// with no pattern always builds.
#[verifier::external_body]
fn build_ac(patterns: &Vec<Vec<u8>>, c: Config) -> (r: Result<AhoCorasick, aho_corasick::BuildError>)
    ensures
        r is Ok <==> builds(patterns.deep_view(), c),
        patterns@.len() == 0 ==> r is Ok,
{
    let mut b = AhoCorasick::builder();
    b.ascii_case_insensitive(c.ascii_case_insensitive).byte_classes(c.byte_classes).prefilter(c.prefilter);
    if let Some(d) = c.dense_depth {
        b.dense_depth(d);
    }
    b.kind(c.kind.map(|k| match k { Representation::NoncontiguousNfa => AcKind::NoncontiguousNFA, Representation::ContiguousNfa => AcKind::ContiguousNFA, Representation::Dfa => AcKind::DFA }));
    b.match_kind(match c.match_kind { MatchSemantics::Standard => AcMatch::Standard, MatchSemantics::LeftmostLongest => AcMatch::LeftmostLongest, MatchSemantics::LeftmostFirst => AcMatch::LeftmostFirst });
    b.start_kind(match c.start_kind { StartMode::Both => AcStart::Both, StartMode::Unanchored => AcStart::Unanchored, StartMode::Anchored => AcStart::Anchored });
    b.build(patterns)
}

/// Relies on `AhoCorasick::find` on the input `text[from..]` with the given
/// anchoring: it reports the candidate that the automaton's match semantics
/// prefer, or nothing when there is none. It panics on an anchoring that
/// the automaton was not built for.
#[verifier::external_body]
fn search(a: &Automaton, text: &[u8], from: usize, anchored: bool) -> (r: Option<AhoCorasickMatch>)
    requires
        from <= text@.len(),
        supports(a.config_spec().start_kind, anchored),
    ensures
        first_match(a.patterns(), a.fold(), a.kind(), text@, from as int, anchored, r),
        r == find_of(a.patterns(), a.fold(), a.kind(), anchored, text@, from as int),
{
    let input = Input::new(text).span(from..text.len()).anchored(if anchored { Anchored::Yes } else { Anchored::No });
    a.ac.find(input).map(|m| AhoCorasickMatch { end: m.end(), pattern_index: m.pattern().as_usize(), start: m.start() })
}

/// Relies on `AhoCorasick::is_match`: whether any candidate occurs. It
/// panics on an anchoring that the automaton was not built for.
#[verifier::external_body]
fn contains_match(a: &Automaton, text: &[u8], anchored: bool) -> (r: bool)
    requires
        supports(a.config_spec().start_kind, anchored),
    ensures
        r == has_candidate(a.patterns(), a.fold(), text@, 0, anchored),
{
    a.ac.is_match(Input::new(text).anchored(if anchored { Anchored::Yes } else { Anchored::No }))
}

/// Relies on `AhoCorasick::find_iter`: the non-overlapping scan, each search
/// resuming where the last match ended; its first search is `find`'s from
/// offset zero. Its result depends on the patterns,
/// the folding, the semantics, the anchoring and the text alone. It panics on
/// an anchoring that the automaton was not built for.
#[verifier::external_body]
fn scan(a: &Automaton, text: &[u8], anchored: bool) -> (r: Vec<AhoCorasickMatch>)
    requires
        supports(a.config_spec().start_kind, anchored),
    ensures
        is_scan(a.patterns(), a.fold(), a.kind(), text@, anchored, r@),
        r@ == scan_of(a.patterns(), a.fold(), a.kind(), anchored, text@),
        r@.len() == 0 ==> find_of(a.patterns(), a.fold(), a.kind(), anchored, text@, 0) == None::<AhoCorasickMatch>,
        r@.len() > 0 ==> find_of(a.patterns(), a.fold(), a.kind(), anchored, text@, 0) == Some(r@[0]),
{
    let input = Input::new(text).anchored(if anchored { Anchored::Yes } else { Anchored::No });
    a.ac.find_iter(input).map(|m| AhoCorasickMatch { end: m.end(), pattern_index: m.pattern().as_usize(), start: m.start() }).collect()
}

/// Relies on `AhoCorasick::find_overlapping_iter`: every occurrence of every
/// pattern by end offset (an empty pattern's match may come more than once), the first being the one `find` reports
/// from offset zero. Its result depends on the patterns, the
/// folding and the text alone. It panics unless the semantics are standard
/// and unanchored searches are supported.
#[verifier::external_body]
fn scan_overlapping(a: &Automaton, text: &[u8]) -> (r: Vec<AhoCorasickMatch>)
    requires
        a.kind() == MatchSemantics::Standard,
        supports(a.config_spec().start_kind, false),
    ensures
        is_overlapping_report(a.patterns(), a.fold(), text@, r@),
        r@ == overlapping_scan_of(a.patterns(), a.fold(), text@),
        r@.len() == 0 ==> find_of(a.patterns(), a.fold(), a.kind(), false, text@, 0) == None::<AhoCorasickMatch>,
        r@.len() > 0 ==> find_of(a.patterns(), a.fold(), a.kind(), false, text@, 0) == Some(r@[0]),
{
    a.ac.find_overlapping_iter(text).map(|m| AhoCorasickMatch { end: m.end(), pattern_index: m.pattern().as_usize(), start: m.start() }).collect()
}

fn build_with_config(patterns: &Vec<Vec<u8>>, c: Config) -> (r: Result<Automaton, BuildFailure>)
    ensures
        match r {
            Ok(a) => a.patterns() == patterns.deep_view() && a.config_spec() == c,
            Err(f) => f == BuildFailure::Construction,
        },
        r is Ok <==> builds(patterns.deep_view(), c),
        patterns@.len() == 0 ==> r is Ok,
{
    match build_ac(patterns, c) {
        Ok(ac) => Ok(Automaton { ac, patterns: Ghost(patterns.deep_view()), config: c }),
        Err(_) => Err(BuildFailure::Construction),
    }
}

/// Builds an automaton over `patterns` under the decoded `options`. Invalid
/// options are refused before anything is built; the builder may still
/// refuse a valid configuration.
pub fn build_automaton(patterns: &Vec<Vec<u8>>, options: &AhoCorasickBuilderOptions) -> (r: Result<
    Automaton,
    BuildFailure,
>)
    ensures
        match options.config_spec() {
            Err(e) => r == Err::<Automaton, BuildFailure>(BuildFailure::Config(e)),
            Ok(c) => match r {
                Ok(a) => a.patterns() == patterns.deep_view() && a.config_spec() == c,
                Err(f) => f == BuildFailure::Construction,
            },
        },
        forall|c: Config|
            options.config_spec() == Ok::<Config, ConfigError>(c) ==> ((r is Ok) <==> builds(
                patterns.deep_view(),
                c,
            )),
        options.config_spec() is Ok && patterns@.len() == 0 ==> r is Ok,
{
    match options.to_config() {
        Err(e) => Err(BuildFailure::Config(e)),
        Ok(c) => build_with_config(patterns, c),
    }
}

/// Builds an automaton over `patterns` under the default configuration.
pub fn create_automaton(patterns: &Vec<Vec<u8>>) -> (r: Result<Automaton, BuildFailure>)
    ensures
        match r {
            Ok(a) => a.patterns() == patterns.deep_view() && a.config_spec() == Config::default_spec(),
            Err(f) => f == BuildFailure::Construction,
        },
        r is Ok <==> builds(patterns.deep_view(), Config::default_spec()),
        patterns@.len() == 0 ==> r is Ok,
{
    build_with_config(patterns, Config::default_config())
}

/// Releases an automaton; releasing nothing does nothing.
pub fn free_automaton(automaton: Option<Automaton>) {
    match automaton {
        Some(a) => {
            let _released: Automaton = a;
        },
        None => {},
    }
}

fn anchored_by_default(a: &Automaton) -> (r: bool)
    ensures
        r == a.anchored_default(),
        supports(a.config_spec().start_kind, r),
{
    match a.config.start_kind {
        StartMode::Anchored => true,
        _ => false,
    }
}

/// The first match of `text`, searching from its start.
pub fn find(automaton: &Automaton, text: &[u8]) -> (r: Option<AhoCorasickMatch>)
    ensures
        first_match(
            automaton.patterns(),
            automaton.fold(),
            automaton.kind(),
            text@,
            0,
            automaton.anchored_default(),
            r,
        ),
        r == automaton.find_spec(text@),
{
    let anchored = anchored_by_default(automaton);
    search(automaton, text, 0, anchored)
}

/// The first match of `text` that a search beginning at `start` reports:
/// one starting exactly there when `anchored`, anywhere after it otherwise.
/// A start past the end of the text finds nothing.
pub fn find_at(automaton: &Automaton, text: &[u8], start: usize, anchored: bool) -> (r: Result<
    Option<AhoCorasickMatch>,
    SearchError,
>)
    ensures
        !supports(automaton.config_spec().start_kind, anchored) ==> r == Err::<
            Option<AhoCorasickMatch>,
            SearchError,
        >(SearchError::UnsupportedAnchoring),
        supports(automaton.config_spec().start_kind, anchored) ==> match r {
            Ok(o) => first_match(
                automaton.patterns(),
                automaton.fold(),
                automaton.kind(),
                text@,
                start as int,
                anchored,
                o,
            ) && (start <= text@.len() ==> o == find_of(
                automaton.patterns(),
                automaton.fold(),
                automaton.kind(),
                anchored,
                text@,
                start as int,
            )),
            Err(_) => false,
        },
{
    let supported = match automaton.config.start_kind {
        StartMode::Both => true,
        StartMode::Unanchored => !anchored,
        StartMode::Anchored => anchored,
    };
    if !supported {
        return Err(SearchError::UnsupportedAnchoring);
    }
    if start > text.len() {
        return Ok(None);
    }
    Ok(search(automaton, text, start, anchored))
}

/// Whether `text` holds any match.
pub fn is_match(automaton: &Automaton, text: &[u8]) -> (r: bool)
    ensures
        r == automaton.is_match_spec(text@),
{
    let anchored = anchored_by_default(automaton);
    contains_match(automaton, text, anchored)
}

/// Leaves out every record after its first appearance. Equal records share
/// an end offset, so each record is compared only with the kept records that
/// end where it does.
fn remove_repeats(raw: Vec<AhoCorasickMatch>) -> (r: Vec<AhoCorasickMatch>)
    requires
        ends_ordered(raw@),
    ensures
        r@ == without_repeats(raw@),
{
    let mut out: Vec<AhoCorasickMatch> = Vec::new();
    let mut i: usize = 0;
    while i < raw.len()
        invariant
            0 <= i <= raw.len(),
            ends_ordered(raw@),
            out@ == without_repeats(raw@.subrange(0, i as int)),
        decreases raw.len() - i,
    {
        let m = raw[i];
        proof {
            lemma_without_repeats(raw@.subrange(0, i as int));
            assert(ends_ordered(raw@.subrange(0, i as int)));
            assert forall|k: int| 0 <= k < out@.len() implies out@[k].end <= m.end by {
                assert(out@.contains(out@[k]));
                let q = choose|q: int| 0 <= q < i && raw@.subrange(0, i as int)[q] == out@[k];
                assert(raw@[q] == out@[k]);
            }
        }
        let mut j: usize = out.len();
        let mut seen = false;
        while j > 0 && !seen && out[j - 1].end == m.end
            invariant
                j <= out@.len(),
                seen ==> out@.contains(m),
                !seen ==> forall|k: int| j <= k < out@.len() ==> out@[k] != m,
            decreases j,
        {
            if out[j - 1] == m {
                seen = true;
                assert(out@[j - 1] == m);
            }
            j = j - 1;
        }
        proof {
            if !seen && j > 0 {
                assert forall|k: int| 0 <= k < j implies out@[k] != m by {
                    assert(out@[k].end <= out@[j - 1].end);
                }
            }
            assert(raw@.subrange(0, i + 1).drop_last() =~= raw@.subrange(0, i as int));
            assert(raw@.subrange(0, i + 1).last() == m);
        }
        if !seen {
            out.push(m);
        }
        i = i + 1;
    }
    assert(raw@.subrange(0, raw@.len() as int) =~= raw@);
    out
}

/// Every match of `text` under the automaton's semantics: all occurrences,
/// overlapping, under standard semantics; otherwise the non-overlapping
/// scan.
pub fn find_iter(automaton: &Automaton, text: &[u8]) -> (r: Vec<AhoCorasickMatch>)
    ensures
        r@ == automaton.scan_spec(text@),
        overlapping(automaton.config_spec()) ==> is_overlapping_scan(
            automaton.patterns(),
            automaton.fold(),
            text@,
            r@,
        ),
        !overlapping(automaton.config_spec()) ==> is_scan(
            automaton.patterns(),
            automaton.fold(),
            automaton.kind(),
            text@,
            automaton.anchored_default(),
            r@,
        ),
        r@.len() > 0 <==> automaton.is_match_spec(text@),
        r@.len() == 0 ==> automaton.find_spec(text@) == None::<AhoCorasickMatch>,
        r@.len() > 0 ==> automaton.find_spec(text@) == Some(r@[0]),
        automaton.kind() != MatchSemantics::Standard ==> forall|i: int|
            0 < i < r@.len() ==> r@[i - 1].end <= (#[trigger] r@[i]).start && r@[i - 1].start
                < r@[i].start,
{
    let anchored = anchored_by_default(automaton);
    let is_standard = match automaton.config.match_kind {
        MatchSemantics::Standard => true,
        _ => false,
    };
    if is_standard && !anchored {
        let reported = scan_overlapping(automaton, text);
        let r = remove_repeats(reported);
        proof {
            lemma_report_without_repeats(automaton.patterns(), automaton.fold(), text@, reported@);
            lemma_overlapping_scan_nonempty(automaton.patterns(), automaton.fold(), text@, r@);
        }
        r
    } else {
        let r = scan(automaton, text, anchored);
        proof {
            lemma_scan_nonempty(automaton.patterns(), automaton.fold(), automaton.kind(), text@, anchored, r@);
            if automaton.kind() != MatchSemantics::Standard {
                lemma_scan_ordered(automaton.patterns(), automaton.fold(), automaton.kind(), text@, anchored, r@);
            }
        }
        r
    }
}

/// Two automata built from the same patterns under the same configuration
/// report the same matches on the same text.
pub proof fn lemma_scan_deterministic(a: &Automaton, b: &Automaton, text: Seq<u8>)
    requires
        a.patterns() == b.patterns(),
        a.config_spec() == b.config_spec(),
    ensures
        a.find_spec(text) == b.find_spec(text),
        a.scan_spec(text) == b.scan_spec(text),
        a.is_match_spec(text) == b.is_match_spec(text),
{
}

/// Two automata over the same patterns that agree on case folding, match
/// semantics and default anchoring report the same matches on every text,
/// whatever representation, prefilter, byte classes or dense depth each was
/// built with.
pub proof fn lemma_same_search_settings_agree(a: &Automaton, b: &Automaton, text: Seq<u8>)
    requires
        a.patterns() == b.patterns(),
        a.fold() == b.fold(),
        a.kind() == b.kind(),
        a.anchored_default() == b.anchored_default(),
    ensures
        a.find_spec(text) == b.find_spec(text),
        a.scan_spec(text) == b.scan_spec(text),
        a.is_match_spec(text) == b.is_match_spec(text),
{
}

/// An automaton built from no patterns matches no text, the empty text
/// included.
pub proof fn lemma_empty_set_never_matches(a: &Automaton, text: Seq<u8>)
    requires
        a.patterns().len() == 0,
    ensures
        !a.is_match_spec(text),
{
    assert(a.patterns() =~= Seq::<Seq<u8>>::empty());
    lemma_no_patterns(a.fold(), text, 0, a.anchored_default());
}

} // verus!
