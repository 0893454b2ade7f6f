//! Canonical domain names.
//!
//! A `Domain` is built from user or wire text: the text is lower-cased,
//! trimmed, relieved of one final dot and converted to its ASCII (punycode)
//! form, which must then pass the checks of `fault`. What passes is lower
//! case: an upper-case letter is no character of a canonical name.

use crate::text::{
    append_str, chars_of, is_whitespace, lemma_split_after_final_separator, split, split_on,
    string_of, trim, trimmed,
};
use vstd::prelude::*;

verus! {

#[verifier::external_type_specification]
#[verifier::external_body]
pub struct ExIdnaErrors(idna::Errors);

/// What `str::to_lowercase` makes of a text.
pub uninterp spec fn unicode_lowercase(s: Seq<char>) -> Seq<char>;

/// What `idna::domain_to_ascii` makes of a text: the ASCII form, or nothing
/// where the conversion fails.
pub uninterp spec fn idna_ascii(s: Seq<char>) -> Option<Seq<char>>;

/// Calls `str::to_lowercase`. The contract only gives the result its name:
/// the lower-case mapping is a function of the text alone.
#[verifier::external_body]
fn lowercase(s: &str) -> (r: String)
    ensures
        r@ == unicode_lowercase(s@),
{
    s.to_lowercase()
}

/// Calls `idna::domain_to_ascii`. The contract only gives the outcome its
/// name: success with the converted text, or failure, as a function of the
/// text alone.
#[verifier::external_body]
fn to_ascii(s: &str) -> (r: Result<String, idna::Errors>)
    ensures
        match r {
            Ok(a) => idna_ascii(s@) == Some(a@),
            Err(_) => idna_ascii(s@) is None,
        },
{
    idna::domain_to_ascii(s)
}

pub const MAX_DOMAIN_LENGTH: usize = 253;

pub const MAX_LABEL_LENGTH: usize = 63;

/// Why a text is not a domain name.
#[derive(Debug)]
pub enum DomainError {
    /// The text has no ASCII form.
    Encoding,
    /// The ASCII form holds this character, which no name may hold.
    InvalidCharacter(char),
    /// The name is empty or longer than 253 characters.
    Length,
    /// A label is empty or longer than 63 characters.
    LabelLength,
    /// This label begins or ends with a hyphen.
    Hyphen(String),
    /// The last label is shorter than 2 characters.
    TopLevelLength,
}

/// `DomainError` over plain values.
pub enum DomainFault {
    Encoding,
    InvalidCharacter(char),
    Length,
    LabelLength,
    Hyphen(Seq<char>),
    TopLevelLength,
}

impl View for DomainError {
    type V = DomainFault;

    open spec fn view(&self) -> DomainFault {
        match self {
            DomainError::Encoding => DomainFault::Encoding,
            DomainError::InvalidCharacter(c) => DomainFault::InvalidCharacter(*c),
            DomainError::Length => DomainFault::Length,
            DomainError::LabelLength => DomainFault::LabelLength,
            DomainError::Hyphen(label) => DomainFault::Hyphen(label@),
            DomainError::TopLevelLength => DomainFault::TopLevelLength,
        }
    }
}

/// The text that reports a fault.
pub open spec fn fault_message(f: DomainFault) -> Seq<char> {
    match f {
        DomainFault::Encoding => "Domain has no ASCII form"@,
        DomainFault::InvalidCharacter(c) => "Invalid character found: '"@ + seq![c] + "'"@,
        DomainFault::Length => "Domain must be between 1 and 253 in length"@,
        DomainFault::LabelLength => "Each label must be between 1 and 63 in length"@,
        DomainFault::Hyphen(label) => "A label cannot contain a hyphen at the beginning or end ("@
            + label + ")"@,
        DomainFault::TopLevelLength => "Domain TLD must be between 2 and 63 in length"@,
    }
}

impl DomainError {
    /// The error as text.
    pub fn message(&self) -> (r: String)
        ensures
            r@ == fault_message(self@),
    {
        let mut out: Vec<char> = Vec::new();
        match self {
            DomainError::Encoding => {
                append_str(&mut out, "Domain has no ASCII form");
            },
            DomainError::InvalidCharacter(c) => {
                append_str(&mut out, "Invalid character found: '");
                out.push(*c);
                append_str(&mut out, "'");
                assert(out@ =~= "Invalid character found: '"@ + seq![*c] + "'"@);
            },
            DomainError::Length => {
                append_str(&mut out, "Domain must be between 1 and 253 in length");
            },
            DomainError::LabelLength => {
                append_str(&mut out, "Each label must be between 1 and 63 in length");
            },
            DomainError::Hyphen(label) => {
                append_str(&mut out, "A label cannot contain a hyphen at the beginning or end (");
                append_str(&mut out, label.as_str());
                append_str(&mut out, ")");
                assert(out@ =~= "A label cannot contain a hyphen at the beginning or end ("@
                    + label@ + ")"@);
            },
            DomainError::TopLevelLength => {
                append_str(&mut out, "Domain TLD must be between 2 and 63 in length");
            },
        }
        assert(out@ =~= fault_message(self@));
        string_of(&out)
    }
}

/// The characters a name may hold: ASCII lower-case letters and digits, the
/// dot and the hyphen.
pub open spec fn allowed(c: char) -> bool {
    let n = c as u32;
    ||| 0x30 <= n <= 0x39
    ||| 0x61 <= n <= 0x7A
    ||| c == '.'
    ||| c == '-'
}

/// Decides `allowed`.
pub fn is_allowed(c: char) -> (r: bool)
    ensures
        r == allowed(c),
{
    let n: u32 = c as u32;
    (0x30 <= n && n <= 0x39) || (0x61 <= n && n <= 0x7A) || c == '.' || c == '-'
}

/// The position of the first character of `s` that is not allowed, or the
/// length of `s` where all are.
pub open spec fn first_disallowed(s: Seq<char>) -> int
    decreases s.len(),
{
    if s.len() == 0 || !allowed(s[0]) {
        0
    } else {
        1 + first_disallowed(s.drop_first())
    }
}

/// Whether a label begins or ends with a hyphen.
pub open spec fn hyphen_at_edge(label: Seq<char>) -> bool {
    label.len() > 0 && (label[0] == '-' || label.last() == '-')
}

/// Whether a label has between 1 and 63 characters.
pub open spec fn label_length_ok(label: Seq<char>) -> bool {
    1 <= label.len() <= MAX_LABEL_LENGTH
}

/// The position of the first label with a hyphen at an edge, or the number
/// of labels where there is none.
pub open spec fn first_edge_hyphen(labels: Seq<Seq<char>>) -> int
    decreases labels.len(),
{
    if labels.len() == 0 || hyphen_at_edge(labels[0]) {
        0
    } else {
        1 + first_edge_hyphen(labels.drop_first())
    }
}

/// The labels of a name: its pieces between dots.
pub open spec fn labels_of(s: Seq<char>) -> Seq<Seq<char>> {
    split(s, '.')
}

/// The first reason, in the order of the checks, for which `s` is not a
/// canonical name; nothing where it is one.
pub open spec fn fault(s: Seq<char>) -> Option<DomainFault> {
    let labels = labels_of(s);
    if first_disallowed(s) < s.len() {
        Some(DomainFault::InvalidCharacter(s[first_disallowed(s)]))
    } else if s.len() == 0 || s.len() > MAX_DOMAIN_LENGTH {
        Some(DomainFault::Length)
    } else if exists|i: int| 0 <= i < labels.len() && !label_length_ok(#[trigger] labels[i]) {
        Some(DomainFault::LabelLength)
    } else if first_edge_hyphen(labels) < labels.len() {
        Some(DomainFault::Hyphen(labels[first_edge_hyphen(labels)]))
    } else if labels.last().len() < 2 {
        Some(DomainFault::TopLevelLength)
    } else {
        None
    }
}

/// Whether `s` is a canonical name.
pub open spec fn is_canonical(s: Seq<char>) -> bool {
    fault(s) is None
}

/// `first_disallowed` is the least position of a character that is not
/// allowed.
pub proof fn lemma_first_disallowed(s: Seq<char>)
    ensures
        0 <= first_disallowed(s) <= s.len(),
        forall|k: int| 0 <= k < first_disallowed(s) ==> allowed(s[k]),
        first_disallowed(s) < s.len() ==> !allowed(s[first_disallowed(s)]),
    decreases s.len(),
{
    if s.len() == 0 || !allowed(s[0]) {
    } else {
        let t = s.drop_first();
        lemma_first_disallowed(t);
        assert forall|k: int| 0 <= k < first_disallowed(s) implies allowed(s[k]) by {
            if k > 0 {
                assert(t[k - 1] == s[k]);
            }
        }
    }
}

/// `first_edge_hyphen` is the least position of a label with a hyphen at an
/// edge.
pub proof fn lemma_first_edge_hyphen(labels: Seq<Seq<char>>)
    ensures
        0 <= first_edge_hyphen(labels) <= labels.len(),
        forall|k: int| 0 <= k < first_edge_hyphen(labels) ==> !hyphen_at_edge(labels[k]),
        first_edge_hyphen(labels) < labels.len() ==> hyphen_at_edge(
            labels[first_edge_hyphen(labels)],
        ),
    decreases labels.len(),
{
    if labels.len() == 0 || hyphen_at_edge(labels[0]) {
    } else {
        let t = labels.drop_first();
        lemma_first_edge_hyphen(t);
        assert forall|k: int| 0 <= k < first_edge_hyphen(labels) implies !hyphen_at_edge(
            labels[k],
        ) by {
            if k > 0 {
                assert(t[k - 1] == labels[k]);
            }
        }
    }
}

/// A text is a canonical name exactly when it has 1 to 253 characters, all
/// of them allowed, every label has 1 to 63 characters and no hyphen at an
/// edge, and the last label has at least 2 characters.
pub proof fn lemma_canonical(s: Seq<char>)
    ensures
        is_canonical(s) <==> {
            &&& 1 <= s.len() <= MAX_DOMAIN_LENGTH
            &&& forall|k: int| 0 <= k < s.len() ==> allowed(#[trigger] s[k])
            &&& forall|i: int|
                0 <= i < labels_of(s).len() ==> label_length_ok(#[trigger] labels_of(s)[i])
                    && !hyphen_at_edge(labels_of(s)[i])
            &&& labels_of(s).last().len() >= 2
        },
{
    lemma_first_disallowed(s);
    lemma_first_edge_hyphen(labels_of(s));
}

/// A canonical name holds no upper-case letter and no blank space, and does
/// not end with a dot.
pub proof fn lemma_canonical_is_normalized(s: Seq<char>)
    requires
        is_canonical(s),
    ensures
        forall|k: int| 0 <= k < s.len() ==> !(0x41 <= (#[trigger] s[k]) as u32 <= 0x5A),
        forall|k: int| 0 <= k < s.len() ==> !is_whitespace(#[trigger] s[k]),
        s.last() != '.',
{
    lemma_canonical(s);
    assert forall|k: int| 0 <= k < s.len() implies !(0x41 <= (#[trigger] s[k]) as u32 <= 0x5A)
        && !is_whitespace(s[k]) by {
        assert(allowed(s[k]));
    }
    if s.last() == '.' {
        lemma_split_after_final_separator(s, '.');
    }
}

/// A text without blank space at its ends and without a final dot is what
/// cleaning leaves of it once it is lower case, whether or not one dot is
/// appended to it.
pub proof fn lemma_final_dot_is_dropped(t: Seq<char>)
    requires
        t.len() > 0 ==> !is_whitespace(t[0]) && !is_whitespace(t.last()) && t.last() != '.',
    ensures
        without_final_dot(trimmed(t)) == t,
        without_final_dot(trimmed(t + seq!['.'])) == t,
{
    let dotted = t + seq!['.'];
    assert(dotted.last() == '.');
    assert(dotted[0] == if t.len() > 0 { t[0] } else { '.' });
    assert(!is_whitespace('.'));
    assert(trimmed(dotted) == dotted);
    assert(dotted.drop_last() =~= t);
}

/// Where lower-casing a text and then one dot gives the lower-cased text
/// and then that dot, and the lower-cased text has no blank space at its
/// ends and no final dot, the text has the same canonical name with the dot
/// appended as without it.
pub proof fn lemma_final_dot_keeps_canonical_name(s: Seq<char>)
    requires
        unicode_lowercase(s + seq!['.']) == unicode_lowercase(s) + seq!['.'],
        unicode_lowercase(s).len() > 0 ==> !is_whitespace(unicode_lowercase(s)[0])
            && !is_whitespace(unicode_lowercase(s).last()) && unicode_lowercase(s).last() != '.',
    ensures
        canonical_name(s + seq!['.']) == canonical_name(s),
{
    lemma_final_dot_is_dropped(unicode_lowercase(s));
}

/// A domain name in canonical form.
#[derive(Debug)]
pub struct Domain {
    name: String,
    written: String,
}

impl View for Domain {
    type V = Seq<char>;

    /// The canonical name.
    closed spec fn view(&self) -> Seq<char> {
        self.name@
    }
}

/// `s` without one final dot.
pub open spec fn without_final_dot(s: Seq<char>) -> Seq<char> {
    if s.len() > 0 && s.last() == '.' {
        s.drop_last()
    } else {
        s
    }
}

/// The text as it reaches the ASCII conversion: lower-cased, trimmed, and
/// without the final dot of a fully qualified name.
pub open spec fn cleaned(s: Seq<char>) -> Seq<char> {
    without_final_dot(trimmed(unicode_lowercase(s)))
}

/// What `Domain::new` returns for a text whose cleaned form has the ASCII
/// conversion `ascii`: the canonical name, or the reason there is none.
pub open spec fn construction(ascii: Option<Seq<char>>) -> Result<Seq<char>, DomainFault> {
    match ascii {
        None => Err(DomainFault::Encoding),
        Some(a) => match fault(a) {
            Some(f) => Err(f),
            None => Ok(a),
        },
    }
}

/// The canonical name of a text, or the reason it has none.
pub open spec fn canonical_name(text: Seq<char>) -> Result<Seq<char>, DomainFault> {
    construction(idna_ascii(cleaned(text)))
}

impl Domain {
    #[verifier::type_invariant]
    spec fn well_formed(self) -> bool {
        is_canonical(self.name@)
    }

    /// The text the name was built from, after cleaning.
    pub closed spec fn spec_written(&self) -> Seq<char> {
        self.written@
    }

    /// Checks an ASCII text against the rules for canonical names.
    pub fn validate(ascii: &str) -> (r: Result<(), DomainError>)
        ensures
            match fault(ascii@) {
                None => r is Ok,
                Some(f) => r matches Err(e) && e@ == f,
            },
    {
        let chars = chars_of(ascii);
        check(&chars)
    }

    /// The domain whose canonical name is `ascii`, where `ascii` is one.
    pub fn from_ascii(ascii: String, written: String) -> (r: Result<Domain, DomainError>)
        ensures
            match fault(ascii@) {
                None => r matches Ok(d) && d@ == ascii@ && d.spec_written() == written@,
                Some(f) => r matches Err(e) && e@ == f,
            },
    {
        match Domain::validate(ascii.as_str()) {
            Ok(()) => Ok(Domain { name: ascii, written }),
            Err(e) => Err(e),
        }
    }

    /// Builds the canonical name of `domain`.
    pub fn new(domain: &str) -> (r: Result<Domain, DomainError>)
        ensures
            match canonical_name(domain@) {
                Ok(name) => r matches Ok(d) && d@ == name && d.spec_written() == cleaned(
                    domain@,
                ),
                Err(f) => r matches Err(e) && e@ == f,
            },
    {
        let lowered = lowercase(domain);
        let mut chars = trim(&chars_of(lowered.as_str()));
        if chars.len() > 0 && chars[chars.len() - 1] == '.' {
            chars.pop();
        }
        assert(chars@ =~= cleaned(domain@));
        let written = string_of(&chars);
        match to_ascii(written.as_str()) {
            Ok(ascii) => Domain::from_ascii(ascii, written),
            Err(_) => Err(DomainError::Encoding),
        }
    }

    /// The canonical name.
    pub fn name(&self) -> (r: &str)
        ensures
            r@ == self@,
            is_canonical(self@),
    {
        proof {
            use_type_invariant(self);
        }
        self.name.as_str()
    }

    /// The text the name was built from, after cleaning.
    pub fn written(&self) -> (r: &str)
        ensures
            r@ == self.spec_written(),
    {
        self.written.as_str()
    }

    /// A copy of the domain.
    pub fn duplicate(&self) -> (r: Domain)
        ensures
            r@ == self@,
            r.spec_written() == self.spec_written(),
    {
        proof {
            use_type_invariant(self);
        }
        Domain { name: self.name.clone(), written: self.written.clone() }
    }
}

#[verifier::loop_isolation(false)]
fn check(name: &Vec<char>) -> (r: Result<(), DomainError>)
    ensures
        match fault(name@) {
            None => r is Ok,
            Some(f) => r matches Err(e) && e@ == f,
        },
{
    proof {
        lemma_first_disallowed(name@);
    }
    let mut i: usize = 0;
    while i < name.len()
        invariant
            i <= name.len(),
            forall|k: int| 0 <= k < i ==> allowed(name@[k]),
        decreases name.len() - i,
    {
        if !is_allowed(name[i]) {
            assert(first_disallowed(name@) == i);
            return Err(DomainError::InvalidCharacter(name[i]));
        }
        i += 1;
    }
    assert(first_disallowed(name@) == name@.len());
    if name.len() == 0 || name.len() > MAX_DOMAIN_LENGTH {
        return Err(DomainError::Length);
    }
    let labels = split_on(name, '.');
    let ghost parts = labels_of(name@);
    proof {
        crate::text::lemma_split_pieces(name@, '.');
        lemma_first_edge_hyphen(parts);
    }
    let mut j: usize = 0;
    while j < labels.len()
        invariant
            j <= labels.len(),
            labels@.len() == parts.len(),
            forall|k: int| 0 <= k < labels@.len() ==> (#[trigger] labels@[k])@ == parts[k],
            forall|k: int| 0 <= k < j ==> label_length_ok(#[trigger] parts[k]),
        decreases labels.len() - j,
    {
        let n = labels[j].len();
        assert(labels@[j as int]@ == parts[j as int]);
        if n == 0 || n > MAX_LABEL_LENGTH {
            assert(!label_length_ok(parts[j as int]));
            return Err(DomainError::LabelLength);
        }
        j += 1;
    }
    let mut j: usize = 0;
    while j < labels.len()
        invariant
            j <= labels.len(),
            labels@.len() == parts.len(),
            forall|k: int| 0 <= k < labels@.len() ==> (#[trigger] labels@[k])@ == parts[k],
            forall|k: int| 0 <= k < labels@.len() ==> label_length_ok(#[trigger] parts[k]),
            forall|k: int| 0 <= k < j ==> !hyphen_at_edge(#[trigger] parts[k]),
        decreases labels.len() - j,
    {
        let label = &labels[j];
        assert(labels@[j as int]@ == parts[j as int]);
        assert(label_length_ok(parts[j as int]));
        if label[0] == '-' || label[label.len() - 1] == '-' {
            assert(hyphen_at_edge(parts[j as int]));
            assert(first_edge_hyphen(parts) == j);
            return Err(DomainError::Hyphen(string_of(label)));
        }
        j += 1;
    }
    assert(first_edge_hyphen(parts) == parts.len());
    let last = &labels[labels.len() - 1];
    assert(last@ == parts.last());
    if last.len() < 2 {
        return Err(DomainError::TopLevelLength);
    }
    Ok(())
}

} // verus!
