//! Record types, the request to the upstream resolver and its answer set.
//!
//! The resolver is asked over HTTPS: a GET of `query_url` with the header
//! `Accept: application/dns-json`. The exchange itself is the caller's; what
//! came of it is judged by `resolve`.

use crate::config::Mode;
use crate::domain::allowed;
use crate::text::{
    append_chars, append_str, chars_of, decimal, decimal_of, same_chars, string_of,
};
use vstd::prelude::*;
use vstd::string::StringSliceAdditionalSpecFns;
use vstd::utf8::{encode_utf8, is_ascii_chars, is_ascii_chars_encode_utf8};

verus! {

/// The record types the proxy resolves.
#[derive(Debug, Clone, Copy, PartialEq, Eq, Hash, Structural)]
pub enum RecordType {
    A,
    AAAA,
}

/// Whether `s` is the letter `a`, in either case, written `n` times.
pub open spec fn is_run_of_a(s: Seq<char>, n: nat) -> bool {
    s.len() == n && forall|k: int| 0 <= k < s.len() ==> s[k] == 'a' || s[k] == 'A'
}

/// The record type that a text names, whatever the case of its letters.
pub open spec fn record_type_named(s: Seq<char>) -> Option<RecordType> {
    if is_run_of_a(s, 1) {
        Some(RecordType::A)
    } else if is_run_of_a(s, 4) {
        Some(RecordType::AAAA)
    } else {
        None
    }
}

/// The record type with a protocol code.
pub open spec fn record_type_coded(code: u16) -> Option<RecordType> {
    if code == 1 {
        Some(RecordType::A)
    } else if code == 28 {
        Some(RecordType::AAAA)
    } else {
        None
    }
}

/// A text names no record type.
#[derive(Debug, Clone, Copy, PartialEq, Eq, Structural)]
pub struct InvalidRecordType;

impl InvalidRecordType {
    /// The error as text.
    pub fn message(&self) -> (r: &'static str)
        ensures
            r@ == "Invalid record type"@,
    {
        "Invalid record type"
    }
}

impl RecordType {
    /// The protocol code of the type.
    pub open spec fn code(self) -> u16 {
        match self {
            RecordType::A => 1,
            RecordType::AAAA => 28,
        }
    }

    /// The name of the type.
    pub open spec fn text(self) -> Seq<char> {
        match self {
            RecordType::A => "A"@,
            RecordType::AAAA => "AAAA"@,
        }
    }

    /// The protocol code of the type.
    pub fn value(&self) -> (r: u16)
        ensures
            r == self.code(),
    {
        match self {
            RecordType::A => 1,
            RecordType::AAAA => 28,
        }
    }

    /// The name of the type.
    pub fn as_str(&self) -> (r: &'static str)
        ensures
            r@ == self.text(),
    {
        match self {
            RecordType::A => "A",
            RecordType::AAAA => "AAAA",
        }
    }

    /// The type with the protocol code `code`.
    pub fn from_value(code: u16) -> (r: Option<RecordType>)
        ensures
            r == record_type_coded(code),
    {
        if code == 1 {
            Some(RecordType::A)
        } else if code == 28 {
            Some(RecordType::AAAA)
        } else {
            None
        }
    }

    /// The type that `s` names, in any case.
    pub fn parse(s: &str) -> (r: Result<RecordType, InvalidRecordType>)
        ensures
            match record_type_named(s@) {
                Some(t) => r == Ok::<RecordType, InvalidRecordType>(t),
                None => r is Err,
            },
    {
        let chars = chars_of(s);
        let mut i: usize = 0;
        while i < chars.len()
            invariant
                i <= chars.len(),
                chars@ == s@,
                forall|k: int| 0 <= k < i ==> chars@[k] == 'a' || chars@[k] == 'A',
            decreases chars.len() - i,
        {
            if chars[i] != 'a' && chars[i] != 'A' {
                assert(!(s@[i as int] == 'a' || s@[i as int] == 'A'));
                return Err(InvalidRecordType);
            }
            i += 1;
        }
        if chars.len() == 1 {
            Ok(RecordType::A)
        } else if chars.len() == 4 {
            Ok(RecordType::AAAA)
        } else {
            Err(InvalidRecordType)
        }
    }
}

/// The code of a type is the code that names it, and its name is a text that
/// names it.
pub proof fn lemma_record_type_round_trip(t: RecordType)
    ensures
        record_type_coded(t.code()) == Some(t),
        record_type_named(t.text()) == Some(t),
{
    reveal_strlit("A");
    reveal_strlit("AAAA");
}

/// One record of an answer set.
#[derive(Debug)]
pub struct DnsAnswer {
    /// The name the record belongs to.
    pub domain_name: String,
    /// The protocol code of the record's type.
    pub record_type: u16,
    /// The seconds for which the record may be reused.
    pub ttl: u32,
    /// The record's data: for an address record, the address as text.
    pub data: String,
}

/// `DnsAnswer` over plain values.
pub struct AnswerView {
    pub domain_name: Seq<char>,
    pub record_type: u16,
    pub ttl: u32,
    pub data: Seq<char>,
}

impl View for DnsAnswer {
    type V = AnswerView;

    open spec fn view(&self) -> AnswerView {
        AnswerView {
            domain_name: self.domain_name@,
            record_type: self.record_type,
            ttl: self.ttl,
            data: self.data@,
        }
    }
}

impl Clone for DnsAnswer {
    fn clone(&self) -> (r: Self)
        ensures
            r@ == self@,
    {
        DnsAnswer {
            domain_name: self.domain_name.clone(),
            record_type: self.record_type,
            ttl: self.ttl,
            data: self.data.clone(),
        }
    }
}

/// A canonical question: a name and the code of a record type.
#[derive(Debug)]
pub struct DnsQuestion {
    pub name: String,
    pub record_type: u16,
}

/// `DnsQuestion` over plain values.
pub struct QuestionView {
    pub name: Seq<char>,
    pub record_type: u16,
}

impl View for DnsQuestion {
    type V = QuestionView;

    open spec fn view(&self) -> QuestionView {
        QuestionView { name: self.name@, record_type: self.record_type }
    }
}

impl Clone for DnsQuestion {
    fn clone(&self) -> (r: Self)
        ensures
            r@ == self@,
    {
        DnsQuestion { name: self.name.clone(), record_type: self.record_type }
    }
}

impl DnsQuestion {
    /// Whether two questions ask for the same name and type.
    pub fn same_as(&self, other: &DnsQuestion) -> (r: bool)
        ensures
            r == (self@ == other@),
    {
        self.record_type == other.record_type && same_chars(
            &chars_of(self.name.as_str()),
            &chars_of(other.name.as_str()),
        )
    }
}

/// The views of the records in `answers`.
pub open spec fn answer_views(answers: Seq<DnsAnswer>) -> Seq<AnswerView> {
    Seq::new(answers.len(), |i: int| answers[i]@)
}

/// The views of the questions in `questions`.
pub open spec fn question_views(questions: Seq<DnsQuestion>) -> Seq<QuestionView> {
    Seq::new(questions.len(), |i: int| questions[i]@)
}

/// A copy of a list of records.
pub fn clone_answers(answers: &Vec<DnsAnswer>) -> (r: Vec<DnsAnswer>)
    ensures
        answer_views(r@) == answer_views(answers@),
{
    let mut out: Vec<DnsAnswer> = Vec::new();
    let mut i: usize = 0;
    while i < answers.len()
        invariant
            i <= answers.len(),
            out@.len() == i,
            forall|k: int| 0 <= k < i ==> (#[trigger] out@[k])@ == answers@[k]@,
        decreases answers.len() - i,
    {
        out.push(answers[i].clone());
        i += 1;
    }
    assert(answer_views(out@) =~= answer_views(answers@));
    out
}

/// A copy of a list of questions.
pub fn clone_questions(questions: &Vec<DnsQuestion>) -> (r: Vec<DnsQuestion>)
    ensures
        question_views(r@) == question_views(questions@),
{
    let mut out: Vec<DnsQuestion> = Vec::new();
    let mut i: usize = 0;
    while i < questions.len()
        invariant
            i <= questions.len(),
            out@.len() == i,
            forall|k: int| 0 <= k < i ==> (#[trigger] out@[k])@ == questions@[k]@,
        decreases questions.len() - i,
    {
        out.push(questions[i].clone());
        i += 1;
    }
    assert(question_views(out@) =~= question_views(questions@));
    out
}

/// The answer of the upstream resolver to one lookup.
#[derive(Debug)]
pub struct DnsResponse {
    /// The status code of the lookup.
    pub status: u8,
    /// Truncated.
    pub tc: bool,
    /// Recursion desired.
    pub rd: bool,
    /// Recursion available.
    pub ra: bool,
    /// Authenticated data.
    pub ad: bool,
    /// Checking disabled.
    pub cd: bool,
    /// The questions, where the resolver echoes them.
    pub question: Option<Vec<DnsQuestion>>,
    /// The records found; empty where the resolver sent none.
    pub answer: Vec<DnsAnswer>,
    /// The authority records, where the resolver sent any.
    pub authority: Option<Vec<DnsAnswer>>,
}

/// `DnsResponse` over plain values.
pub struct ResponseView {
    pub status: u8,
    pub tc: bool,
    pub rd: bool,
    pub ra: bool,
    pub ad: bool,
    pub cd: bool,
    pub question: Option<Seq<QuestionView>>,
    pub answer: Seq<AnswerView>,
    pub authority: Option<Seq<AnswerView>>,
}

impl View for DnsResponse {
    type V = ResponseView;

    open spec fn view(&self) -> ResponseView {
        ResponseView {
            status: self.status,
            tc: self.tc,
            rd: self.rd,
            ra: self.ra,
            ad: self.ad,
            cd: self.cd,
            question: match self.question {
                Some(q) => Some(question_views(q@)),
                None => None,
            },
            answer: answer_views(self.answer@),
            authority: match self.authority {
                Some(a) => Some(answer_views(a@)),
                None => None,
            },
        }
    }
}

impl Clone for DnsResponse {
    fn clone(&self) -> (r: Self)
        ensures
            r@ == self@,
    {
        DnsResponse {
            status: self.status,
            tc: self.tc,
            rd: self.rd,
            ra: self.ra,
            ad: self.ad,
            cd: self.cd,
            question: match &self.question {
                Some(q) => Some(clone_questions(q)),
                None => None,
            },
            answer: clone_answers(&self.answer),
            authority: match &self.authority {
                Some(a) => Some(clone_answers(a)),
                None => None,
            },
        }
    }
}

/// What the `Accept` header of a request to the resolver holds.
pub const ACCEPT: &'static str = "application/dns-json";

/// Whether a byte stands for itself in a query parameter: ASCII letters and
/// digits, `-`, `.`, `_` and `~`.
pub open spec fn is_unreserved(b: u8) -> bool {
    ||| 0x30 <= b <= 0x39
    ||| 0x41 <= b <= 0x5A
    ||| 0x61 <= b <= 0x7A
    ||| b == 0x2D
    ||| b == 0x2E
    ||| b == 0x5F
    ||| b == 0x7E
}

/// The upper-case hexadecimal digit for `n`.
pub open spec fn hex_digit(n: u8) -> char {
    if n < 10 {
        (0x30 + n) as char
    } else {
        (0x41 + n - 10) as char
    }
}

/// A byte as it stands in a query parameter: itself, or `%` and its two
/// hexadecimal digits.
pub open spec fn escaped_byte(b: u8) -> Seq<char> {
    if is_unreserved(b) {
        seq![b as char]
    } else {
        seq!['%', hex_digit(b / 16), hex_digit(b % 16)]
    }
}

/// Bytes as they stand in a query parameter.
pub open spec fn percent_encoded(bytes: Seq<u8>) -> Seq<char>
    decreases bytes.len(),
{
    if bytes.len() == 0 {
        Seq::empty()
    } else {
        percent_encoded(bytes.drop_last()) + escaped_byte(bytes.last())
    }
}

/// Calls `urlencoding::encode`. The contract claims what the crate
/// documents and its source shows: every byte of the text's UTF-8 form is
/// percent-encoded, with upper-case digits, except ASCII letters and digits
/// and `-`, `_`, `.`, `~`.
#[verifier::external_body]
fn url_encode(s: &str) -> (r: String)
    ensures
        r@ == percent_encoded(s.spec_bytes()),
{
    urlencoding::encode(s).into_owned()
}

/// A text made of ASCII letters and digits, dots and hyphens, as every
/// canonical domain name is, stands for itself in a query parameter.
pub proof fn lemma_domain_name_not_escaped(name: Seq<char>)
    requires
        forall|k: int| 0 <= k < name.len() ==> allowed(#[trigger] name[k]),
    ensures
        percent_encoded(encode_utf8(name)) == name,
{
    assert forall|i: int| 0 <= i < name.len() implies ('\0' <= #[trigger] name[i] && name[i]
        <= '\u{7f}') by {
        lemma_allowed_byte(name[i]);
    }
    assert(is_ascii_chars(name));
    is_ascii_chars_encode_utf8(name);
    let bytes = encode_utf8(name);
    lemma_prefix_not_escaped(name, bytes, name.len() as int);
    assert(bytes.take(bytes.len() as int) =~= bytes);
    assert(name.take(name.len() as int) =~= name);
}

proof fn lemma_allowed_byte(c: char)
    requires
        allowed(c),
    ensures
        '\0' <= c,
        c <= '\u{7f}',
        is_unreserved(c as u8),
        (c as u8) as char == c,
{
}

proof fn lemma_prefix_not_escaped(name: Seq<char>, bytes: Seq<u8>, n: int)
    requires
        forall|k: int| 0 <= k < name.len() ==> allowed(#[trigger] name[k]),
        bytes.len() == name.len(),
        forall|k: int| 0 <= k < name.len() ==> name[k] as u8 == #[trigger] bytes[k],
        0 <= n <= name.len(),
    ensures
        percent_encoded(bytes.take(n)) == name.take(n),
    decreases n,
{
    if n == 0 {
        assert(name.take(0) =~= Seq::empty());
    } else {
        lemma_prefix_not_escaped(name, bytes, n - 1);
        let c = name[n - 1];
        let b = bytes[n - 1];
        lemma_allowed_byte(c);
        assert(c as u8 == b);
        assert(bytes.take(n).drop_last() =~= bytes.take(n - 1));
        assert(bytes.take(n).last() == b);
        assert(name.take(n) =~= name.take(n - 1) + seq![c]);
    }
}

/// The address of the lookup of `name` and `record_type` at the endpoint of
/// `mode`, DNSSEC data included.
pub open spec fn lookup_url(mode: Mode, name_bytes: Seq<u8>, record_type: RecordType) -> Seq<
    char,
> {
    "https://"@ + mode.address() + "/dns-query?name="@ + percent_encoded(name_bytes) + "&type="@
        + record_type.text() + "&do=1"@
}

/// The address to GET for a lookup.
pub fn query_url(mode: &Mode, name: &str, record_type: &RecordType) -> (r: String)
    ensures
        r@ == lookup_url(*mode, name.spec_bytes(), *record_type),
{
    let mut out: Vec<char> = Vec::new();
    append_str(&mut out, "https://");
    append_str(&mut out, mode.ip_address());
    append_str(&mut out, "/dns-query?name=");
    let escaped = url_encode(name);
    append_str(&mut out, escaped.as_str());
    append_str(&mut out, "&type=");
    append_str(&mut out, record_type.as_str());
    append_str(&mut out, "&do=1");
    assert(out@ =~= lookup_url(*mode, name.spec_bytes(), *record_type));
    string_of(&out)
}

/// Why a lookup gave no answer set.
#[derive(Debug, Clone, Copy, PartialEq, Eq, Structural)]
pub enum ResolutionError {
    /// The resolver rejected the request.
    BadRequest,
    /// The resolver could not be reached.
    Network,
    /// The resolver's answer is no answer set.
    Decode,
}

impl ResolutionError {
    /// The error as text.
    pub fn message(&self) -> (r: &'static str)
        ensures
            r@ == match self {
                ResolutionError::BadRequest => "Bad request"@,
                ResolutionError::Network => "The resolver could not be reached"@,
                ResolutionError::Decode => "The resolver's answer could not be read"@,
            },
    {
        match self {
            ResolutionError::BadRequest => "Bad request",
            ResolutionError::Network => "The resolver could not be reached",
            ResolutionError::Decode => "The resolver's answer could not be read",
        }
    }
}

/// What came of the exchange with the resolver.
#[derive(Debug)]
pub enum Exchange {
    /// No answer arrived.
    Unreachable,
    /// An answer arrived with this HTTP status; the body is the answer set
    /// read from it, where it held one.
    Answered(u16, Option<DnsResponse>),
}

/// `Exchange` over plain values.
pub enum ExchangeView {
    Unreachable,
    Answered(u16, Option<ResponseView>),
}

impl View for Exchange {
    type V = ExchangeView;

    open spec fn view(&self) -> ExchangeView {
        match self {
            Exchange::Unreachable => ExchangeView::Unreachable,
            Exchange::Answered(status, body) => ExchangeView::Answered(
                *status,
                match body {
                    Some(response) => Some(response@),
                    None => None,
                },
            ),
        }
    }
}

/// The HTTP status with which the resolver rejects a request.
pub const BAD_REQUEST: u16 = 400;

/// The answer set that an exchange gave, or the reason it gave none.
pub open spec fn resolution(exchange: ExchangeView) -> Result<ResponseView, ResolutionError> {
    match exchange {
        ExchangeView::Unreachable => Err(ResolutionError::Network),
        ExchangeView::Answered(status, body) => if status == BAD_REQUEST {
            Err(ResolutionError::BadRequest)
        } else {
            match body {
                Some(response) => Ok(response),
                None => Err(ResolutionError::Decode),
            }
        },
    }
}

/// Judges what came of the exchange with the resolver.
pub fn resolve(exchange: Exchange) -> (r: Result<DnsResponse, ResolutionError>)
    ensures
        match resolution(exchange@) {
            Ok(response) => r matches Ok(found) && found@ == response,
            Err(e) => r == Err::<DnsResponse, ResolutionError>(e),
        },
{
    match exchange {
        Exchange::Unreachable => Err(ResolutionError::Network),
        Exchange::Answered(status, body) => {
            if status == BAD_REQUEST {
                Err(ResolutionError::BadRequest)
            } else {
                match body {
                    Some(response) => Ok(response),
                    None => Err(ResolutionError::Decode),
                }
            }
        },
    }
}

/// What `idna::domain_to_unicode` makes of a name: its Unicode form.
pub uninterp spec fn idna_unicode(name: Seq<char>) -> Seq<char>;

/// Calls `idna::domain_to_unicode` and keeps the text, whatever the crate
/// reports beside it. The contract only gives the text its name.
#[verifier::external_body]
fn to_unicode(name: &str) -> (r: String)
    ensures
        r@ == idna_unicode(name@),
{
    idna::domain_to_unicode(name).0
}

/// The first line of the table of an answer set.
pub open spec fn table_header() -> Seq<char> {
    "domain"@ + seq!['\t'] + "type"@ + seq!['\t'] + "ttl"@ + seq!['\t'] + "data"@
}

/// The line of one record in the table of an answer set.
pub open spec fn table_row(answer: AnswerView, record_type: RecordType) -> Seq<char> {
    idna_unicode(answer.domain_name) + seq!['\t'] + record_type.text() + " ("@ + decimal(
        record_type.code() as nat,
    ) + ")"@ + seq!['\t'] + decimal(answer.ttl as nat) + " secs"@ + seq!['\t'] + answer.data
}

/// The lines of the first `n` records, each line but the last followed by a
/// line feed.
pub open spec fn table_rows(answers: Seq<AnswerView>, record_type: RecordType, n: int) -> Seq<
    char,
>
    decreases n,
{
    if n <= 0 {
        Seq::empty()
    } else if n == 1 {
        table_row(answers[0], record_type)
    } else {
        table_rows(answers, record_type, n - 1) + seq!['\n'] + table_row(
            answers[n - 1],
            record_type,
        )
    }
}

/// The table of an answer set: a header, a line feed, and one line for each
/// record, the columns separated by tabs.
pub open spec fn table(answers: Seq<AnswerView>, record_type: RecordType) -> Seq<char> {
    table_header() + seq!['\n'] + table_rows(answers, record_type, answers.len() as int)
}

fn push_row(out: &mut Vec<char>, answer: &DnsAnswer, record_type: &RecordType)
    ensures
        final(out)@ == old(out)@ + table_row(answer@, *record_type),
{
    let ghost before = out@;
    let name = to_unicode(answer.domain_name.as_str());
    append_str(out, name.as_str());
    out.push('\t');
    append_str(out, record_type.as_str());
    append_str(out, " (");
    append_chars(out, &decimal_of(record_type.value() as u64));
    append_str(out, ")");
    out.push('\t');
    append_chars(out, &decimal_of(answer.ttl as u64));
    append_str(out, " secs");
    out.push('\t');
    append_str(out, answer.data.as_str());
    assert(out@ =~= before + table_row(answer@, *record_type));
}

impl DnsResponse {
    /// The answer set as a table, for a lookup of `record_type`.
    pub fn display(&self, record_type: &RecordType) -> (r: String)
        ensures
            r@ == table(self@.answer, *record_type),
    {
        let mut out: Vec<char> = Vec::new();
        append_str(&mut out, "domain");
        out.push('\t');
        append_str(&mut out, "type");
        out.push('\t');
        append_str(&mut out, "ttl");
        out.push('\t');
        append_str(&mut out, "data");
        out.push('\n');
        assert(out@ =~= table_header() + seq!['\n']);
        let ghost all = self@.answer;
        let mut i: usize = 0;
        while i < self.answer.len()
            invariant
                i <= self.answer.len(),
                all == answer_views(self.answer@),
                out@ == table_header() + seq!['\n'] + table_rows(all, *record_type, i as int),
            decreases self.answer.len() - i,
        {
            if i > 0 {
                out.push('\n');
            }
            push_row(&mut out, &self.answer[i], record_type);
            assert(all[i as int] == self.answer@[i as int]@);
            assert(out@ =~= table_header() + seq!['\n'] + table_rows(
                all,
                *record_type,
                i as int + 1,
            ));
            i += 1;
        }
        string_of(&out)
    }
}

} // verus!
