//! The domain filter: rule sources, their line format, and the search for
//! the first rule that matches a name.
//!
//! A rule source is a text with one pattern on each line. Blank lines and
//! lines that start with `#` are no rules. In a pattern `*` stands for any
//! run of characters and `?` for any one character; a pattern that starts
//! with `**.` also covers the domain that follows the prefix itself.

use crate::domain::Domain;
use crate::text::{
    append_chars, append_str, chars_of, decimal, decimal_of, same_chars, slice_of, split,
    split_on, starts_with, string_of, trim, trimmed,
};
use vstd::prelude::*;
use wildmatch::WildMatch;

pub mod blacklist;
pub mod whitelist;

verus! {

/// One rule source.
#[derive(Debug)]
pub struct Filter {
    /// Where the source lies, as reported with a match.
    pub pathname: String,
    /// The source's own name, which tells the whitelist from the rest.
    pub filename: String,
    /// The rules, one on each line.
    pub contents: String,
}

/// `Filter` over plain values.
pub struct FilterView {
    pub pathname: Seq<char>,
    pub filename: Seq<char>,
    pub contents: Seq<char>,
}

impl View for Filter {
    type V = FilterView;

    open spec fn view(&self) -> FilterView {
        FilterView { pathname: self.pathname@, filename: self.filename@, contents: self.contents@ }
    }
}

/// The rule that matched a name.
#[derive(Debug)]
pub struct FilterEntry {
    /// The source that holds the rule.
    pub file: String,
    /// The rule, as written.
    pub pattern: String,
    /// The line of the rule in its source, counted from 1.
    pub line: usize,
}

/// `FilterEntry` over plain values.
pub struct FilterEntryView {
    pub file: Seq<char>,
    pub pattern: Seq<char>,
    pub line: nat,
}

impl View for FilterEntry {
    type V = FilterEntryView;

    open spec fn view(&self) -> FilterEntryView {
        FilterEntryView { file: self.file@, pattern: self.pattern@, line: self.line as nat }
    }
}

/// The views of the sources in `filters`.
pub open spec fn views_of(filters: Seq<Filter>) -> Seq<FilterView> {
    Seq::new(filters.len(), |i: int| filters[i]@)
}

/// The message that reports a refusal.
pub open spec fn refusal_message(entry: FilterEntryView, name: Seq<char>) -> Seq<char> {
    "the domain `"@ + name + "` has been blacklisted (pattern `"@ + entry.pattern + "`, "@
        + entry.file + ":"@ + decimal(entry.line) + "), refusing to resolve."@
}

impl FilterEntry {
    /// The message that reports that `domain` was refused by this rule.
    pub fn format_message(&self, domain: &Domain) -> (r: String)
        ensures
            r@ == refusal_message(self@, domain@),
    {
        let mut out: Vec<char> = Vec::new();
        append_str(&mut out, "the domain `");
        append_str(&mut out, domain.name());
        append_str(&mut out, "` has been blacklisted (pattern `");
        append_str(&mut out, self.pattern.as_str());
        append_str(&mut out, "`, ");
        append_str(&mut out, self.file.as_str());
        append_str(&mut out, ":");
        let number = decimal_of(self.line as u64);
        append_chars(&mut out, &number);
        append_str(&mut out, "), refusing to resolve.");
        assert(out@ =~= refusal_message(self@, domain@));
        string_of(&out)
    }
}

/// Whether the pattern `p` covers the whole of `s`: `*` stands for any run
/// of characters, `?` for any one character, every other character for
/// itself.
pub open spec fn glob_matches(p: Seq<char>, s: Seq<char>) -> bool
    decreases p.len(), s.len(),
{
    if p.len() == 0 {
        s.len() == 0
    } else if p[0] == '*' {
        glob_matches(p.drop_first(), s) || (s.len() > 0 && glob_matches(p, s.drop_first()))
    } else {
        s.len() > 0 && (p[0] == '?' || p[0] == s[0]) && glob_matches(
            p.drop_first(),
            s.drop_first(),
        )
    }
}

/// Calls `WildMatch::new(pattern).matches(name)`. The contract claims what
/// the crate documents: the pattern must match the entire input, `?` matches
/// exactly one character, `*` any number of them, matching is case-sensitive
/// and there are no escape characters.
#[verifier::external_body]
fn wild_match(pattern: &str, name: &str) -> (r: bool)
    ensures
        r == glob_matches(pattern@, name@),
{
    WildMatch::new(pattern).matches(name)
}

/// The prefix of a rule that also covers the bare domain.
pub open spec fn globstar() -> Seq<char> {
    seq!['*', '*', '.']
}

/// Whether a trimmed line is a rule: not blank, and no comment.
pub open spec fn is_rule(line: Seq<char>) -> bool {
    line.len() > 0 && line[0] != '#'
}

/// Whether the rule `pattern` covers `name`. A rule `**.d` covers what the
/// two patterns `d` and `*.d` cover.
pub open spec fn rule_matches(pattern: Seq<char>, name: Seq<char>) -> bool {
    ||| glob_matches(pattern, name)
    ||| globstar().is_prefix_of(pattern) && (glob_matches(pattern.skip(3), name) || glob_matches(
        seq!['*', '.'] + pattern.skip(3),
        name,
    ))
}

/// Whether a line of a rule source, as it stands in the source, holds a rule
/// that covers `name`.
pub open spec fn line_blocks(line: Seq<char>, name: Seq<char>) -> bool {
    is_rule(trimmed(line)) && rule_matches(trimmed(line), name)
}

/// The lines of a rule source.
pub open spec fn lines_of(contents: Seq<char>) -> Seq<Seq<char>> {
    split(contents, '\n')
}

/// The position of the first line that covers `name`, or the number of lines
/// where none does.
pub open spec fn first_match(lines: Seq<Seq<char>>, name: Seq<char>) -> int
    decreases lines.len(),
{
    if lines.len() == 0 || line_blocks(lines[0], name) {
        0
    } else {
        1 + first_match(lines.drop_first(), name)
    }
}

/// `first_match` is the least position of a line that covers `name`.
pub proof fn lemma_first_match(lines: Seq<Seq<char>>, name: Seq<char>)
    ensures
        0 <= first_match(lines, name) <= lines.len(),
        forall|k: int| 0 <= k < first_match(lines, name) ==> !line_blocks(lines[k], name),
        first_match(lines, name) < lines.len() ==> line_blocks(
            lines[first_match(lines, name)],
            name,
        ),
    decreases lines.len(),
{
    if lines.len() == 0 || line_blocks(lines[0], name) {
    } else {
        let t = lines.drop_first();
        lemma_first_match(t, name);
        assert forall|k: int| 0 <= k < first_match(lines, name) implies !line_blocks(
            lines[k],
            name,
        ) by {
            if k > 0 {
                assert(t[k - 1] == lines[k]);
            }
        }
    }
}

/// What a search of one source yields: the first rule, in line order, that
/// covers `name`, with the source and the line it stands on.
pub open spec fn scan(file: Seq<char>, contents: Seq<char>, name: Seq<char>) -> Option<
    FilterEntryView,
> {
    let lines = lines_of(contents);
    let i = first_match(lines, name);
    if i < lines.len() {
        Some(FilterEntryView { file, pattern: trimmed(lines[i]), line: (i + 1) as nat })
    } else {
        None
    }
}

/// Decides `rule_matches` for a trimmed line that is a rule.
fn rule_covers(pattern: &Vec<char>, name: &str) -> (r: bool)
    ensures
        r == rule_matches(pattern@, name@),
{
    let mut prefix: Vec<char> = Vec::new();
    prefix.push('*');
    prefix.push('*');
    prefix.push('.');
    assert(prefix@ =~= globstar());
    if starts_with(pattern, &prefix) {
        let domain_pattern = slice_of(pattern, 3, pattern.len());
        assert(domain_pattern@ =~= pattern@.skip(3));
        let mut subdomain_pattern: Vec<char> = Vec::new();
        subdomain_pattern.push('*');
        subdomain_pattern.push('.');
        append_chars(&mut subdomain_pattern, &domain_pattern);
        assert(subdomain_pattern@ =~= seq!['*', '.'] + pattern@.skip(3));
        let bare = string_of(&domain_pattern);
        let below = string_of(&subdomain_pattern);
        if wild_match(bare.as_str(), name) || wild_match(below.as_str(), name) {
            return true;
        }
    }
    let whole = string_of(pattern);
    wild_match(whole.as_str(), name)
}

/// Searches one rule source for the first rule that covers `name`.
#[verifier::loop_isolation(false)]
pub fn enumerate(pathname: &str, contents: &str, name: &str) -> (r: Option<FilterEntry>)
    ensures
        match scan(pathname@, contents@, name@) {
            None => r is None,
            Some(e) => r matches Some(found) && found@ == e,
        },
{
    let text = chars_of(contents);
    let lines = split_on(&text, '\n');
    let ghost all = lines_of(contents@);
    proof {
        lemma_first_match(all, name@);
    }
    let mut index: usize = 0;
    while index < lines.len()
        invariant
            index <= lines.len(),
            forall|k: int| 0 <= k < index ==> !line_blocks(all[k], name@),
        decreases lines.len() - index,
    {
        assert(lines@[index as int]@ == all[index as int]);
        let pattern = trim(&lines[index]);
        if pattern.len() > 0 && pattern[0] != '#' {
            if rule_covers(&pattern, name) {
                assert(line_blocks(all[index as int], name@));
                assert(first_match(all, name@) == index);
                return Some(
                    FilterEntry {
                        file: string_of(&chars_of(pathname)),
                        pattern: string_of(&pattern),
                        line: index + 1,
                    },
                );
            }
        }
        index += 1;
    }
    assert(first_match(all, name@) == all.len());
    None
}

/// The name of the source that holds the whitelist.
pub open spec fn whitelist_name() -> Seq<char> {
    "whitelist.list"@
}

/// Whether a source is searched: with `white` the whitelist, without it every
/// other source.
pub open spec fn in_list(filter: FilterView, white: bool) -> bool {
    (filter.filename == whitelist_name()) == white
}

/// Whether a source is searched and holds a rule that covers `name`.
pub open spec fn source_hits(filter: FilterView, name: Seq<char>, white: bool) -> bool {
    in_list(filter, white) && scan(filter.pathname, filter.contents, name) is Some
}

/// The position of the first source that is searched and covers `name`, or
/// the number of sources where none does.
pub open spec fn first_hit(filters: Seq<FilterView>, name: Seq<char>, white: bool) -> int
    decreases filters.len(),
{
    if filters.len() == 0 || source_hits(filters[0], name, white) {
        0
    } else {
        1 + first_hit(filters.drop_first(), name, white)
    }
}

/// `first_hit` is the least position of a searched source that covers
/// `name`.
pub proof fn lemma_first_hit(filters: Seq<FilterView>, name: Seq<char>, white: bool)
    ensures
        0 <= first_hit(filters, name, white) <= filters.len(),
        forall|k: int|
            0 <= k < first_hit(filters, name, white) ==> !source_hits(filters[k], name, white),
        first_hit(filters, name, white) < filters.len() ==> source_hits(
            filters[first_hit(filters, name, white)],
            name,
            white,
        ),
    decreases filters.len(),
{
    if filters.len() == 0 || source_hits(filters[0], name, white) {
    } else {
        let t = filters.drop_first();
        lemma_first_hit(t, name, white);
        assert forall|k: int| 0 <= k < first_hit(filters, name, white) implies !source_hits(
            filters[k],
            name,
            white,
        ) by {
            if k > 0 {
                assert(t[k - 1] == filters[k]);
            }
        }
    }
}

/// The first rule that covers `name`, sources taken in their order and lines
/// in theirs: in the whitelist with `white`, in the other sources without.
pub open spec fn lookup(filters: Seq<FilterView>, name: Seq<char>, white: bool) -> Option<
    FilterEntryView,
> {
    let i = first_hit(filters, name, white);
    if i < filters.len() {
        scan(filters[i].pathname, filters[i].contents, name)
    } else {
        None
    }
}

/// The rule that blocks `name`: none where the whitelist covers the name,
/// else the first rule of the other sources that covers it.
pub open spec fn blocked(filters: Seq<FilterView>, name: Seq<char>) -> Option<FilterEntryView> {
    if lookup(filters, name, true) is Some {
        None
    } else {
        lookup(filters, name, false)
    }
}

/// Searches the whitelist (`white`) or the other sources for the first rule
/// that covers `name`.
#[verifier::loop_isolation(false)]
pub fn search(filters: &Vec<Filter>, name: &str, white: bool) -> (r: Option<FilterEntry>)
    ensures
        match lookup(views_of(filters@), name@, white) {
            None => r is None,
            Some(e) => r matches Some(found) && found@ == e,
        },
{
    let ghost all = views_of(filters@);
    proof {
        lemma_first_hit(all, name@, white);
    }
    let marker = chars_of("whitelist.list");
    let mut index: usize = 0;
    while index < filters.len()
        invariant
            index <= filters.len(),
            forall|k: int| 0 <= k < index ==> !source_hits(all[k], name@, white),
        decreases filters.len() - index,
    {
        let filter = &filters[index];
        assert(all[index as int] == filter@);
        let named = chars_of(filter.filename.as_str());
        if same_chars(&named, &marker) == white {
            let found = enumerate(filter.pathname.as_str(), filter.contents.as_str(), name);
            if found.is_some() {
                assert(source_hits(all[index as int], name@, white));
                assert(first_hit(all, name@, white) == index);
                return found;
            }
        }
        index += 1;
    }
    assert(first_hit(all, name@, white) == all.len());
    None
}

/// Whether a pattern holds no wildcard, so that it stands for itself only.
pub open spec fn is_literal(p: Seq<char>) -> bool {
    forall|k: int| 0 <= k < p.len() ==> p[k] != '*' && p[k] != '?'
}

/// Whether `s` ends with `t`.
pub open spec fn ends_with(s: Seq<char>, t: Seq<char>) -> bool {
    t.len() <= s.len() && s.skip(s.len() - t.len()) == t
}

/// A pattern without wildcards covers itself and nothing else.
pub proof fn lemma_glob_literal(p: Seq<char>, s: Seq<char>)
    requires
        is_literal(p),
    ensures
        glob_matches(p, s) <==> s == p,
    decreases p.len(),
{
    if p.len() == 0 {
        if s.len() == 0 {
            assert(s =~= p);
        }
    } else if s.len() > 0 {
        let pt = p.drop_first();
        let st = s.drop_first();
        assert forall|k: int| 0 <= k < pt.len() implies pt[k] != '*' && pt[k] != '?' by {
            assert(pt[k] == p[k + 1]);
        }
        lemma_glob_literal(pt, st);
        if p[0] == s[0] && st == pt {
            assert forall|k: int| 0 <= k < s.len() implies s[k] == p[k] by {
                if k > 0 {
                    assert(st[k - 1] == s[k]);
                    assert(pt[k - 1] == p[k]);
                }
            }
            assert(s =~= p);
        }
    }
}

/// A pattern that starts with `*` covers a text exactly when the rest of the
/// pattern covers some tail of the text.
pub proof fn lemma_glob_star(p: Seq<char>, s: Seq<char>)
    ensures
        glob_matches(seq!['*'] + p, s) <==> exists|k: int|
            0 <= k <= s.len() && glob_matches(p, #[trigger] s.skip(k)),
    decreases s.len(),
{
    let q = seq!['*'] + p;
    assert(q.drop_first() =~= p);
    assert(s.skip(0) =~= s);
    if s.len() > 0 {
        let st = s.drop_first();
        lemma_glob_star(p, st);
        if glob_matches(q, s) {
            if glob_matches(p, s) {
                assert(glob_matches(p, s.skip(0)));
            } else {
                let k = choose|k: int| 0 <= k <= st.len() && glob_matches(p, #[trigger] st.skip(k));
                assert(st.skip(k) =~= s.skip(k + 1));
                assert(glob_matches(p, s.skip(k + 1)));
            }
        }
        if exists|k: int| 0 <= k <= s.len() && glob_matches(p, #[trigger] s.skip(k)) {
            let k = choose|k: int| 0 <= k <= s.len() && glob_matches(p, #[trigger] s.skip(k));
            if k > 0 {
                assert(st.skip(k - 1) =~= s.skip(k));
                assert(glob_matches(p, st.skip(k - 1)));
            }
        }
    } else {
        if exists|k: int| 0 <= k <= s.len() && glob_matches(p, #[trigger] s.skip(k)) {
            let k = choose|k: int| 0 <= k <= s.len() && glob_matches(p, #[trigger] s.skip(k));
            assert(k == 0);
        }
        if glob_matches(q, s) {
            assert(glob_matches(p, s.skip(0)));
        }
    }
}

/// `*` followed by a text without wildcards covers exactly the texts that
/// end with it.
pub proof fn lemma_glob_suffix(lit: Seq<char>, s: Seq<char>)
    requires
        is_literal(lit),
    ensures
        glob_matches(seq!['*'] + lit, s) <==> ends_with(s, lit),
{
    lemma_glob_star(lit, s);
    if glob_matches(seq!['*'] + lit, s) {
        let k = choose|k: int| 0 <= k <= s.len() && glob_matches(lit, #[trigger] s.skip(k));
        lemma_glob_literal(lit, s.skip(k));
        assert(s.skip(k).len() == s.len() - k);
    }
    if ends_with(s, lit) {
        let k = s.len() - lit.len();
        lemma_glob_literal(lit, s.skip(k));
    }
}

/// A rule `**.d`, where `d` holds no wildcard, covers `d` itself and every
/// name that ends with `.d`, and nothing else.
pub proof fn lemma_globstar_rule(d: Seq<char>, name: Seq<char>)
    requires
        is_literal(d),
    ensures
        is_rule(globstar() + d),
        rule_matches(globstar() + d, name) <==> (name == d || ends_with(name, seq!['.'] + d)),
        trimmed(globstar() + d) == globstar() + d ==> (line_blocks(globstar() + d, name) <==> (name
            == d || ends_with(name, seq!['.'] + d))),
{
    let pattern = globstar() + d;
    let dotted = seq!['.'] + d;
    let below = seq!['*'] + dotted;
    assert(pattern.skip(3) =~= d);
    assert(globstar().is_prefix_of(pattern));
    assert(seq!['*', '.'] + d =~= below);
    assert(pattern =~= seq!['*'] + below);
    assert(is_literal(dotted));
    lemma_glob_literal(d, name);
    lemma_glob_suffix(dotted, name);
    lemma_glob_star(below, name);
    if glob_matches(pattern, name) {
        let k = choose|k: int| 0 <= k <= name.len() && glob_matches(below, #[trigger] name.skip(k));
        let tail = name.skip(k);
        lemma_glob_suffix(dotted, tail);
        assert(tail.skip(tail.len() - dotted.len()) =~= name.skip(name.len() - dotted.len()));
    }
}

/// A name that the whitelist covers is not blocked, whatever the other
/// sources hold.
pub proof fn lemma_whitelist_overrides(filters: Seq<FilterView>, name: Seq<char>)
    requires
        lookup(filters, name, true) is Some,
    ensures
        blocked(filters, name) is None,
{
}

} // verus!
