//! Redaction: ordered regex → replacement rules applied to the text of a
//! capture before it is rendered.
use vstd::prelude::*;
use crate::ir::{lines_view, Capture, CaptureView, Line, Run, RunView};

verus! {

/// Redaction rule: regex → replacement. Applied to the text of every run and
/// to the displayed command line.
#[derive(Debug, Clone, PartialEq, Eq)]
pub struct RedactRule {
    pub pattern: String,
    pub replacement: String,
    pub enabled: bool,
    /// Default rules can be disabled but not removed through the UI.
    pub is_default: bool,
}

/// Abstract value of a `RedactRule`.
pub struct RuleView {
    pub pattern: Seq<char>,
    pub replacement: Seq<char>,
    pub enabled: bool,
    pub is_default: bool,
}

impl View for RedactRule {
    type V = RuleView;

    open spec fn view(&self) -> RuleView {
        RuleView {
            pattern: self.pattern@,
            replacement: self.replacement@,
            enabled: self.enabled,
            is_default: self.is_default,
        }
    }
}

#[derive(Debug, Clone, PartialEq, Eq)]
pub struct Redaction {
    pub rules: Vec<RedactRule>,
}

impl View for Redaction {
    type V = Seq<RuleView>;

    open spec fn view(&self) -> Seq<RuleView> {
        self.rules@.map_values(|r: RedactRule| r@)
    }
}

#[verifier::external_type_specification]
#[verifier::external_body]
pub struct ExRegex(regex::Regex);

#[verifier::external_type_specification]
#[verifier::external_body]
pub struct ExRegexError(regex::Error);

/// Whether the `regex` crate compiles a pattern (it refuses invalid
/// patterns and patterns over its default size limit).
pub uninterp spec fn regex_compiles(pattern: Seq<char>) -> bool;

/// Whether the compiled pattern matches somewhere in the haystack.
pub uninterp spec fn regex_is_match(pattern: Seq<char>, haystack: Seq<char>) -> bool;

/// The haystack with every non-overlapping match of the pattern replaced by
/// the replacement (with `$name` group references expanded), as
/// `regex::Regex::replace_all` computes it.
pub uninterp spec fn regex_replace_all(pattern: Seq<char>, haystack: Seq<char>, replacement: Seq<char>) -> Seq<char>;

/// Whether a character has significance in a regex: the meta characters
/// `\ . + * ? ( ) | [ ] { } ^ $ # & - ~`.
pub open spec fn regex_meta(c: char) -> bool {
    c == '\\' || c == '.' || c == '+' || c == '*' || c == '?' || c == '(' || c == ')' || c == '|'
        || c == '[' || c == ']' || c == '{' || c == '}' || c == '^' || c == '$' || c == '#' || c == '&'
        || c == '-' || c == '~'
}

/// The text with a backslash before every meta character; every other
/// character is kept.
pub open spec fn regex_escape(text: Seq<char>) -> Seq<char>
    decreases text.len(),
{
    if text.len() == 0 {
        Seq::<char>::empty()
    } else {
        regex_escape(text.drop_last()) + if regex_meta(text.last()) {
            seq!['\\', text.last()]
        } else {
            seq![text.last()]
        }
    }
}

/// A compiled regular expression together with its pattern.
pub struct CompiledRegex {
    re: regex::Regex,
    source: Ghost<Seq<char>>,
}

impl CompiledRegex {
    /// The pattern this regex was compiled from.
    pub closed spec fn source(&self) -> Seq<char> {
        self.source@
    }

    /// Compiles a pattern.
    ///
    /// Calls `regex::Regex::new`; whether it succeeds is named by
    /// `regex_compiles`, the error is passed on as it is.
    #[verifier::external_body]
    pub fn compile(pattern: &str) -> (r: Result<CompiledRegex, regex::Error>)
        ensures
            r is Ok == regex_compiles(pattern@),
            r matches Ok(c) ==> c.source() == pattern@,
    {
        regex::Regex::new(pattern).map(|re| CompiledRegex { re, source: Ghost(pattern@) })
    }

    /// Whether the regex matches somewhere in the haystack.
    ///
    /// Calls `regex::Regex::is_match`. When it finds no match, replacing
    /// every match leaves the haystack as it is, whatever the replacement
    /// (`Regex::replace_all` documents that a haystack without a match is
    /// returned unchanged).
    #[verifier::external_body]
    pub fn is_match(&self, haystack: &str) -> (b: bool)
        ensures
            b == regex_is_match(self.source(), haystack@),
            !b ==> forall|rep: Seq<char>| #[trigger] regex_replace_all(self.source(), haystack@, rep) == haystack@,
    {
        self.re.is_match(haystack)
    }

    /// The haystack with every match replaced.
    ///
    /// Calls `regex::Regex::replace_all` with the replacement string (which
    /// expands `$name` references) and takes the result as an owned string.
    #[verifier::external_body]
    pub fn replace_all(&self, haystack: &str, replacement: &str) -> (s: String)
        ensures
            s@ == regex_replace_all(self.source(), haystack@, replacement@),
    {
        self.re.replace_all(haystack, replacement).into_owned()
    }
}

/// Escapes every regex meta character of a text, so that it can stand in a
/// pattern as a literal.
///
/// Calls `regex::escape`, which puts a backslash before each meta character
/// and keeps every other character, as `regex_escape` states.
#[verifier::external_body]
pub fn escape_regex(text: &str) -> (s: String)
    ensures
        s@ == regex_escape(text@),
{
    regex::escape(text)
}

/// One rule applied to a text: a disabled rule, an empty pattern or a pattern
/// that does not compile leaves the text as it is; otherwise every match is
/// replaced.
pub open spec fn rule_step(text: Seq<char>, r: RuleView) -> Seq<char> {
    if rule_effective(r) {
        regex_replace_all(r.pattern, text, r.replacement)
    } else {
        text
    }
}

/// All rules applied to a text, in order, each to the result of the previous.
pub open spec fn apply_rules(rules: Seq<RuleView>, text: Seq<char>) -> Seq<char>
    decreases rules.len(),
{
    if rules.len() == 0 {
        text
    } else {
        rule_step(apply_rules(rules.drop_last(), text), rules.last())
    }
}

/// Indices of the rules whose pattern is not empty and does not compile,
/// among the first `n` rules.
pub open spec fn invalid_indices(rules: Seq<RuleView>, n: nat) -> Seq<usize>
    decreases n,
{
    if n == 0 {
        Seq::<usize>::empty()
    } else {
        let before = invalid_indices(rules, (n - 1) as nat);
        let r = rules[n - 1];
        if r.pattern.len() != 0 && !regex_compiles(r.pattern) {
            before.push((n - 1) as usize)
        } else {
            before
        }
    }
}

impl Redaction {
    /// Applies every enabled rule, in order, to a text. An invalid pattern is
    /// skipped silently (the UI validates separately).
    pub fn apply(&self, text: &str) -> (out: String)
        ensures
            out@ == apply_rules(self@, text@),
    {
        let ghost rules = self@;
        let mut out = String::from_str(text);
        let mut i: usize = 0;
        while i < self.rules.len()
            invariant
                i <= self.rules@.len(),
                rules == self@,
                out@ == apply_rules(rules.take(i as int), text@),
            decreases self.rules@.len() - i,
        {
            let rule = &self.rules[i];
            proof {
                assert(rules.take(i + 1).drop_last() =~= rules.take(i as int));
                assert(rules.take(i + 1).last() == rule@);
            }
            if rule.enabled && !rule.pattern.as_str().is_empty() {
                match CompiledRegex::compile(rule.pattern.as_str()) {
                    Ok(re) => {
                        if re.is_match(out.as_str()) {
                            out = re.replace_all(out.as_str(), rule.replacement.as_str());
                        }
                    },
                    Err(_) => {},
                }
            }
            i = i + 1;
        }
        assert(rules.take(self.rules@.len() as int) =~= rules);
        out
    }

    /// Indices of the rules whose pattern is not empty and does not compile.
    pub fn invalid_patterns(&self) -> (bad: Vec<usize>)
        ensures
            bad@ == invalid_indices(self@, self@.len()),
    {
        let ghost rules = self@;
        let mut bad: Vec<usize> = Vec::new();
        let mut i: usize = 0;
        while i < self.rules.len()
            invariant
                i <= self.rules@.len(),
                rules == self@,
                bad@ == invalid_indices(rules, i as nat),
            decreases self.rules@.len() - i,
        {
            let rule = &self.rules[i];
            assert(rules[i as int] == rule@);
            if !rule.pattern.as_str().is_empty() {
                match CompiledRegex::compile(rule.pattern.as_str()) {
                    Ok(_) => {},
                    Err(_) => {
                        bad.push(i);
                    },
                }
            }
            i = i + 1;
        }
        bad
    }
}


/// A run with its text redacted.
pub open spec fn redact_run(rules: Seq<RuleView>, r: RunView) -> RunView {
    RunView { text: apply_rules(rules, r.text), ..r }
}

/// A capture with the command line and the text of every run redacted.
pub open spec fn redact_capture_view(rules: Seq<RuleView>, c: CaptureView) -> CaptureView {
    CaptureView {
        command_line: apply_rules(rules, c.command_line),
        lines: c.lines.map_values(|l: Seq<RunView>| l.map_values(|r: RunView| redact_run(rules, r))),
        ..c
    }
}

/// Applies the redaction rules to the command line and the text of every run.
pub fn redact_capture(capture: &mut Capture, r: &Redaction)
    ensures
        final(capture)@ == redact_capture_view(r@, old(capture)@),
{
    let ghost rules = r@;
    let ghost orig = capture@;
    let cl = r.apply(capture.command_line.as_str());
    capture.command_line = cl;
    let mut lines: Vec<Line> = Vec::new();
    let mut i: usize = 0;
    while i < capture.lines.len()
        invariant
            i <= capture.lines@.len(),
            rules == r@,
            lines_view(capture.lines@) == orig.lines,
            lines@.len() == i,
            forall|k: int| 0 <= k < i ==> #[trigger] lines@[k]@ == orig.lines[k].map_values(
                |x: RunView| redact_run(rules, x),
            ),
        decreases capture.lines@.len() - i,
    {
        let line = &capture.lines[i];
        let ghost lv = line@;
        assert(lv == orig.lines[i as int]);
        let mut runs: Vec<Run> = Vec::new();
        let mut j: usize = 0;
        while j < line.runs.len()
            invariant
                j <= line.runs@.len(),
                rules == r@,
                lv == line@,
                runs@.len() == j,
                forall|k: int| 0 <= k < j ==> #[trigger] runs@[k]@ == redact_run(rules, lv[k]),
            decreases line.runs@.len() - j,
        {
            let run = &line.runs[j];
            assert(lv[j as int] == run@);
            let text = r.apply(run.text.as_str());
            runs.push(Run {
                text,
                fg: run.fg,
                bg: run.bg,
                bold: run.bold,
                italic: run.italic,
                underline: run.underline,
            });
            j = j + 1;
        }
        let new_line = Line { runs };
        assert(new_line@ =~= lv.map_values(|x: RunView| redact_run(rules, x)));
        lines.push(new_line);
        i = i + 1;
    }
    capture.lines = lines;
    assert(capture@.lines =~= redact_capture_view(rules, orig).lines);
}

/// The default rules for a user environment: the home directory becomes
/// `~`, the user name `usuario` and the host name `localhost`, each matched
/// literally. Without a home directory, `/home/<user>` stands for it.
pub open spec fn default_rules_view(home: Option<Seq<char>>, user: Seq<char>, hostname: Seq<char>) -> Seq<RuleView> {
    let home_path = match home {
        Some(h) => h,
        None => "/home/"@ + user,
    };
    seq![
        RuleView { pattern: regex_escape(home_path), replacement: "~"@, enabled: true, is_default: true },
        RuleView { pattern: regex_escape(user), replacement: "usuario"@, enabled: true, is_default: true },
        RuleView { pattern: regex_escape(hostname), replacement: "localhost"@, enabled: true, is_default: true },
    ]
}

/// The characters of an optional string.
pub open spec fn opt_str_view(o: Option<String>) -> Option<Seq<char>> {
    match o {
        Some(s) => Some(s@),
        None => None,
    }
}

/// Default rules for the given home directory (`None` when it is not set),
/// user name and host name.
pub fn default_rules_from(home: Option<String>, user: &str, hostname: &str) -> (rules: Vec<RedactRule>)
    ensures
        rules@.map_values(|r: RedactRule| r@) == default_rules_view(opt_str_view(home), user@, hostname@),
{
    let ghost h = opt_str_view(home);
    let home_path = match home {
        Some(h) => h,
        None => {
            let mut p = String::from_str("/home/");
            p.append(user);
            p
        },
    };
    let rules = vec![
        RedactRule {
            pattern: escape_regex(home_path.as_str()),
            replacement: String::from_str("~"),
            enabled: true,
            is_default: true,
        },
        RedactRule {
            pattern: escape_regex(user),
            replacement: String::from_str("usuario"),
            enabled: true,
            is_default: true,
        },
        RedactRule {
            pattern: escape_regex(hostname),
            replacement: String::from_str("localhost"),
            enabled: true,
            is_default: true,
        },
    ];
    assert(rules@.map_values(|r: RedactRule| r@) =~= default_rules_view(h, user@, hostname@));
    rules
}

/// Rules are applied in order: applying a list of rules followed by another
/// is applying the first list, then the second to its result.
pub proof fn apply_rules_in_order(first: Seq<RuleView>, second: Seq<RuleView>, text: Seq<char>)
    ensures
        apply_rules(first + second, text) == apply_rules(second, apply_rules(first, text)),
    decreases second.len(),
{
    if second.len() == 0 {
        assert(first + second =~= first);
    } else {
        apply_rules_in_order(first, second.drop_last(), text);
        assert((first + second).drop_last() =~= first + second.drop_last());
    }
}

/// The rules that take part in redaction: the enabled ones.
pub open spec fn enabled_rules(rules: Seq<RuleView>) -> Seq<RuleView> {
    rules.filter(|r: RuleView| r.enabled)
}

/// Disabled rules are skipped: only the enabled rules affect the result.
pub proof fn disabled_rules_skipped(rules: Seq<RuleView>, text: Seq<char>)
    ensures
        apply_rules(rules, text) == apply_rules(enabled_rules(rules), text),
    decreases rules.len(),
{
    if rules.len() > 0 {
        disabled_rules_skipped(rules.drop_last(), text);
        reveal_with_fuel(Seq::filter, 1);
        let sub = enabled_rules(rules.drop_last());
        assert(rules.drop_last().filter(|r: RuleView| r.enabled) == sub);
        if rules.last().enabled {
            assert(enabled_rules(rules) == sub.push(rules.last()));
            assert(sub.push(rules.last()).drop_last() =~= sub);
        } else {
            assert(enabled_rules(rules) == sub);
        }
    }
}

/// Whether a rule takes part in redaction: enabled, with a pattern that is
/// not empty and compiles.
pub open spec fn rule_effective(r: RuleView) -> bool {
    r.enabled && r.pattern.len() != 0 && regex_compiles(r.pattern)
}

/// The rules that can change a text: the effective ones.
pub open spec fn effective_rules(rules: Seq<RuleView>) -> Seq<RuleView> {
    rules.filter(|r: RuleView| rule_effective(r))
}

/// Disabled rules, empty patterns and patterns that do not compile are
/// skipped silently: only the effective rules affect the result.
pub proof fn ineffective_rules_skipped(rules: Seq<RuleView>, text: Seq<char>)
    ensures
        apply_rules(rules, text) == apply_rules(effective_rules(rules), text),
    decreases rules.len(),
{
    if rules.len() > 0 {
        ineffective_rules_skipped(rules.drop_last(), text);
        reveal_with_fuel(Seq::filter, 1);
        let sub = effective_rules(rules.drop_last());
        assert(rules.drop_last().filter(|r: RuleView| rule_effective(r)) == sub);
        if rule_effective(rules.last()) {
            assert(effective_rules(rules) == sub.push(rules.last()));
            assert(sub.push(rules.last()).drop_last() =~= sub);
        } else {
            assert(effective_rules(rules) == sub);
        }
    }
}

/// Redaction only rewrites text: the grid size, the number of lines, the
/// number of runs of each line and the style of every run are kept.
pub proof fn redaction_keeps_styles(rules: Seq<RuleView>, c: CaptureView)
    ensures
        redact_capture_view(rules, c).cols == c.cols,
        redact_capture_view(rules, c).rows == c.rows,
        redact_capture_view(rules, c).lines.len() == c.lines.len(),
        forall|k: int| 0 <= k < c.lines.len() ==> #[trigger] redact_capture_view(rules, c).lines[k].len() == c.lines[k].len(),
        forall|k: int, j: int|
            0 <= k < c.lines.len() && 0 <= j < c.lines[k].len() ==> {
                let a = #[trigger] redact_capture_view(rules, c).lines[k][j];
                let b = c.lines[k][j];
                &&& a.fg == b.fg
                &&& a.bg == b.bg
                &&& a.bold == b.bold
                &&& a.italic == b.italic
                &&& a.underline == b.underline
                &&& a.text == apply_rules(rules, b.text)
            },
{
}

/// A single rule replaces every match of its pattern when it is effective,
/// and changes nothing otherwise.
pub proof fn single_rule_replaces(r: RuleView, text: Seq<char>)
    ensures
        apply_rules(seq![r], text) == if rule_effective(r) {
            regex_replace_all(r.pattern, text, r.replacement)
        } else {
            text
        },
{
    assert(seq![r].drop_last() =~= Seq::<RuleView>::empty());
    assert(apply_rules(seq![r].drop_last(), text) == text);
    assert(seq![r].last() == r);
}

/// No rule, no change.
pub proof fn no_rules_no_change(text: Seq<char>)
    ensures
        apply_rules(Seq::<RuleView>::empty(), text) == text,
{
}

} // verus!
