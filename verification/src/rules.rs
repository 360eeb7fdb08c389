//! Per-window rules of the configuration, matched against a window's title
//! (by regular expression) and its application's bundle identifier.
use regex::Error as RegexError;
use regex::Regex;
use vstd::prelude::*;
use crate::errors;
use crate::text::str_eq;

verus! {

#[verifier::external_type_specification]
#[verifier::external_body]
pub struct ExRegex(Regex);

#[verifier::external_type_specification]
#[verifier::external_body]
pub struct ExRegexError(RegexError);

/// Whether `pattern` compiles to a regular expression (valid syntax, within
/// the default size limit).
pub uninterp spec fn regex_compiles(pattern: Seq<char>) -> bool;

/// Whether the regular expression compiled from `pattern` matches somewhere
/// in `haystack`.
pub uninterp spec fn regex_is_match(pattern: Seq<char>, haystack: Seq<char>) -> bool;

/// A compiled title pattern, with the text it was compiled from. Its fields
/// are private: only [`TitlePattern::compile`] builds one, so the regular
/// expression is always the one compiled from the text.
#[derive(Debug)]
pub struct TitlePattern {
    source: String,
    regex: Regex,
}

impl TitlePattern {
    /// The text the pattern was compiled from.
    pub closed spec fn source(&self) -> Seq<char> {
        self.source@
    }
}

/// Compiles a pattern with `regex::Regex::new`: `Ok` exactly when the
/// pattern compiles, holding the pattern's text.
#[verifier::external_body]
fn regex_new(pattern: &str) -> (r: Result<TitlePattern, RegexError>)
    ensures
        r is Ok <==> regex_compiles(pattern@),
        r matches Ok(t) ==> t.source@ == pattern@,
{
    match Regex::new(pattern) {
        Ok(regex) => Ok(TitlePattern { source: String::from(pattern), regex }),
        Err(e) => Err(e),
    }
}

/// Runs `regex::Regex::is_match` of the pattern's compiled expression on
/// `haystack`; it answers as the pattern's text does, since that is what
/// the expression was compiled from.
#[verifier::external_body]
fn regex_find(p: &TitlePattern, haystack: &str) -> (r: bool)
    ensures
        r == regex_is_match(p.source@, haystack@),
{
    p.regex.is_match(haystack)
}

/// The message of a compile error, as `regex::Error`'s `Display` writes it.
/// Nothing is stated of the text.
#[verifier::external_body]
fn regex_error_message(e: &RegexError) -> String {
    e.to_string()
}

impl TitlePattern {
    /// Compiles a title pattern; an invalid pattern is a configuration error.
    pub fn compile(pattern: &str) -> (r: Result<TitlePattern, errors::Error>)
        ensures
            r is Ok <==> regex_compiles(pattern@),
            r matches Ok(t) ==> t.source() == pattern@,
    {
        match regex_new(pattern) {
            Ok(t) => Ok(t),
            Err(e) => Err(errors::Error::InvalidConfig(regex_error_message(&e))),
        }
    }

    /// Whether the pattern matches somewhere in `title`.
    pub fn is_match(&self, title: &str) -> (b: bool)
        ensures
            b == regex_is_match(self.source(), title@),
    {
        regex_find(self, title)
    }
}

/// A rule for windows: a title pattern and, optionally, the bundle
/// identifier the owning application must have, with the properties it
/// gives the windows it applies to.
#[derive(Debug)]
pub struct WindowRule {
    pub title: TitlePattern,
    pub bundle_id: Option<String>,
    /// Whether the window floats instead of being tiled.
    pub floating: Option<bool>,
    /// Preferred position of the window in the strip.
    pub index: Option<usize>,
    pub vertical_padding: Option<i32>,
    pub horizontal_padding: Option<i32>,
    pub dont_focus: Option<bool>,
    /// Grid placement for floating windows: `cols:rows:x:y:w:h`.
    pub grid: Option<String>,
    /// Corner radius of the active-window border, as the IEEE 754 bits of
    /// the radius.
    pub border_radius_bits: Option<u64>,
}

impl WindowRule {
    /// A rule that sets no property.
    pub fn new(title: TitlePattern, bundle_id: Option<String>) -> (r: WindowRule)
        ensures
            r.title == title,
            r.bundle_id == bundle_id,
            r.floating is None,
            r.index is None,
            r.vertical_padding is None,
            r.horizontal_padding is None,
            r.dont_focus is None,
            r.grid is None,
            r.border_radius_bits is None,
    {
        WindowRule {
            title,
            bundle_id,
            floating: None,
            index: None,
            vertical_padding: None,
            horizontal_padding: None,
            dont_focus: None,
            grid: None,
            border_radius_bits: None,
        }
    }
}

/// Whether a rule applies: its bundle identifier (if it names one) is the
/// window's, and its title pattern matched.
pub open spec fn spec_rule_applies(bundle_rule: Option<String>, bundle_id: Seq<char>, title_matched: bool) -> bool {
    &&& match bundle_rule {
        Some(b) => b@ == bundle_id,
        None => true,
    }
    &&& title_matched
}

/// Whether a rule applies, given whether its title pattern matched.
pub fn rule_applies(bundle_rule: &Option<String>, bundle_id: &str, title_matched: bool) -> (b: bool)
    ensures
        b == spec_rule_applies(*bundle_rule, bundle_id@, title_matched),
{
    let bundle_ok = match bundle_rule {
        Some(b) => str_eq(b.as_str(), bundle_id),
        None => true,
    };
    bundle_ok && title_matched
}

/// Whether `rule` applies to a window with this title and bundle identifier.
pub open spec fn matches_rule(rule: WindowRule, title: Seq<char>, bundle_id: Seq<char>) -> bool {
    spec_rule_applies(rule.bundle_id, bundle_id, regex_is_match(rule.title.source(), title))
}

/// Positions as mathematical integers.
pub open spec fn positions(v: Seq<usize>) -> Seq<int> {
    v.map_values(|k: usize| k as int)
}

/// Whether `r` is the position of the first rule that satisfies `p`, or
/// nothing when no rule does.
pub open spec fn is_first_where(r: Option<usize>, rules: Seq<WindowRule>, p: spec_fn(WindowRule) -> bool) -> bool {
    match r {
        Some(k) => k < rules.len() && p(rules[k as int]) && forall|j: int| 0 <= j < k ==> !p(#[trigger] rules[j]),
        None => forall|j: int| 0 <= j < rules.len() ==> !p(#[trigger] rules[j]),
    }
}

/// Whether `rule` applies to the window and sets a border radius.
pub open spec fn sets_border_radius(rule: WindowRule, title: Seq<char>, bundle_id: Seq<char>) -> bool {
    matches_rule(rule, title, bundle_id) && rule.border_radius_bits is Some
}

/// Whether the rule at position `i` applies to the window (and, when
/// `need_radius`, also sets a border radius).
fn rule_at_applies(rules: &Vec<WindowRule>, i: usize, title: &str, bundle_id: &str, need_radius: bool) -> (b: bool)
    requires
        i < rules@.len(),
    ensures
        b == (matches_rule(rules@[i as int], title@, bundle_id@) && (need_radius ==> rules@[i as int].border_radius_bits is Some)),
{
    let rule = &rules[i];
    if need_radius && rule.border_radius_bits.is_none() {
        return false;
    }
    let bundle_ok = match &rule.bundle_id {
        Some(b) => str_eq(b.as_str(), bundle_id),
        None => true,
    };
    bundle_ok && rule.title.is_match(title)
}

/// The position of the first rule that applies to the window (the rules of
/// the configuration are tried in order), or `None` when none does.
pub fn find_window_properties(rules: &Vec<WindowRule>, title: &str, bundle_id: &str) -> (r: Option<usize>)
    ensures
        is_first_where(r, rules@, |w: WindowRule| matches_rule(w, title@, bundle_id@)),
{
    let mut i: usize = 0;
    while i < rules.len()
        invariant
            i <= rules@.len(),
            forall|j: int| 0 <= j < i ==> !matches_rule(#[trigger] rules@[j], title@, bundle_id@),
        decreases rules@.len() - i,
    {
        if rule_at_applies(rules, i, title, bundle_id, false) {
            return Some(i);
        }
        i = i + 1;
    }
    None
}

/// The position of the first rule that applies to the window and sets a
/// border radius, or `None` when none does; that rule's radius overrides the
/// configured one for the window's border.
pub fn find_border_radius(rules: &Vec<WindowRule>, title: &str, bundle_id: &str) -> (r: Option<usize>)
    ensures
        is_first_where(r, rules@, |w: WindowRule| sets_border_radius(w, title@, bundle_id@)),
{
    let mut i: usize = 0;
    while i < rules.len()
        invariant
            i <= rules@.len(),
            forall|j: int| 0 <= j < i ==> !sets_border_radius(#[trigger] rules@[j], title@, bundle_id@),
        decreases rules@.len() - i,
    {
        if rule_at_applies(rules, i, title, bundle_id, true) {
            return Some(i);
        }
        i = i + 1;
    }
    None
}

/// A window rule as the configuration writes it: the title pattern as text.
#[derive(Clone, Debug)]
pub struct WindowRuleConfig {
    pub title: String,
    pub bundle_id: Option<String>,
    pub floating: Option<bool>,
    pub index: Option<usize>,
    pub vertical_padding: Option<i32>,
    pub horizontal_padding: Option<i32>,
    pub dont_focus: Option<bool>,
    pub grid: Option<String>,
    pub border_radius_bits: Option<u64>,
}

/// Whether `r` is the rule compiled from `c`: the pattern compiled from its
/// title, and every property as written.
pub open spec fn compiled_from(r: WindowRule, c: WindowRuleConfig) -> bool {
    &&& r.title.source() == c.title@
    &&& r.bundle_id == c.bundle_id
    &&& r.floating == c.floating
    &&& r.index == c.index
    &&& r.vertical_padding == c.vertical_padding
    &&& r.horizontal_padding == c.horizontal_padding
    &&& r.dont_focus == c.dont_focus
    &&& r.grid == c.grid
    &&& r.border_radius_bits == c.border_radius_bits
}

fn copy_text(o: &Option<String>) -> (r: Option<String>)
    ensures
        r == *o,
{
    match o {
        Some(t) => Some(t.clone()),
        None => None,
    }
}

/// Compiles the configured window rules, in order; fails at the first rule
/// whose title pattern does not compile.
pub fn compile_window_rules(configs: &Vec<WindowRuleConfig>) -> (r: Result<Vec<WindowRule>, errors::Error>)
    ensures
        match r {
            Ok(v) => v@.len() == configs@.len() && forall|k: int|
                0 <= k < configs@.len() ==> compiled_from(#[trigger] v@[k], configs@[k]),
            Err(_) => exists|k: int|
                0 <= k < configs@.len() && !regex_compiles(#[trigger] configs@[k].title@) && forall|j: int|
                    0 <= j < k ==> regex_compiles(#[trigger] configs@[j].title@),
        },
{
    let mut out: Vec<WindowRule> = Vec::new();
    let mut i: usize = 0;
    while i < configs.len()
        invariant
            i <= configs@.len(),
            out@.len() == i,
            forall|k: int| 0 <= k < i ==> compiled_from(#[trigger] out@[k], configs@[k]),
            forall|k: int| 0 <= k < i ==> regex_compiles(#[trigger] configs@[k].title@),
        decreases configs@.len() - i,
    {
        let c = &configs[i];
        let title = match TitlePattern::compile(c.title.as_str()) {
            Ok(t) => t,
            Err(e) => {
                assert(!regex_compiles(configs@[i as int].title@));
                return Err(e);
            },
        };
        out.push(
            WindowRule {
                title,
                bundle_id: copy_text(&c.bundle_id),
                floating: c.floating,
                index: c.index,
                vertical_padding: c.vertical_padding,
                horizontal_padding: c.horizontal_padding,
                dont_focus: c.dont_focus,
                grid: copy_text(&c.grid),
                border_radius_bits: c.border_radius_bits,
            },
        );
        i = i + 1;
    }
    Ok(out)
}

} // verus!
