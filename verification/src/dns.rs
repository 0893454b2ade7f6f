//! The DNS side of the proxy: the records exchanged with the upstream
//! resolver and the wire form of queries and replies.
//!
//! The wire form itself is the work of the `dns_message_parser` crate. This
//! module decides what goes into a reply: which flags are set, which
//! questions are echoed and which records are attached.

use crate::dns::resolver::{answer_views, AnswerView, DnsAnswer};
use bytes::Bytes;
use dns_message_parser::question::Question;
use dns_message_parser::rr::{A, AAAA, RR};
use dns_message_parser::{Dns, Flags, Opcode, RCode};
use vstd::prelude::*;

pub mod resolver;

verus! {

#[verifier::external_type_specification]
#[verifier::external_body]
pub struct ExQuestion(dns_message_parser::question::Question);

#[verifier::external_type_specification]
#[verifier::external_body]
pub struct ExRecord(dns_message_parser::rr::RR);

/// One entry of the question section: what the proxy reads of it, and the
/// entry itself as it was decoded, which a reply echoes.
#[derive(Debug)]
pub struct WireQuestion {
    /// The name as text, each label followed by a dot.
    pub name: String,
    /// The code of the type asked for.
    pub qtype: u16,
    /// The code of the class asked for.
    pub qclass: u16,
    /// The entry as the crate decoded it.
    pub wire: Question,
}

/// `WireQuestion` over plain values; the decoded entry is carried as it is.
pub struct WireQuestionView {
    pub name: Seq<char>,
    pub qtype: u16,
    pub qclass: u16,
    pub wire: Question,
}

impl View for WireQuestion {
    type V = WireQuestionView;

    open spec fn view(&self) -> WireQuestionView {
        WireQuestionView {
            name: self.name@,
            qtype: self.qtype,
            qclass: self.qclass,
            wire: self.wire,
        }
    }
}

/// Calls `Question::clone`, which the crate derives. The contract claims
/// that the copy is the same question.
#[verifier::external_body]
fn copy_question(question: &Question) -> (r: Question)
    ensures
        r == *question,
{
    question.clone()
}

impl Clone for WireQuestion {
    fn clone(&self) -> (r: Self)
        ensures
            r@ == self@,
    {
        WireQuestion {
            name: self.name.clone(),
            qtype: self.qtype,
            qclass: self.qclass,
            wire: copy_question(&self.wire),
        }
    }
}

/// The views of the questions in `questions`.
pub open spec fn wire_question_views(questions: Seq<WireQuestion>) -> Seq<WireQuestionView> {
    Seq::new(questions.len(), |i: int| questions[i]@)
}

/// A copy of a question section.
pub fn clone_wire_questions(questions: &Vec<WireQuestion>) -> (r: Vec<WireQuestion>)
    ensures
        wire_question_views(r@) == wire_question_views(questions@),
{
    let mut out: Vec<WireQuestion> = Vec::new();
    let mut i: usize = 0;
    while i < questions.len()
        invariant
            i <= questions.len(),
            out@.len() == i,
            forall|k: int| 0 <= k < i ==> (#[trigger] out@[k])@ == questions@[k]@,
        decreases questions.len() - i,
    {
        out.push(questions[i].clone());
        i += 1;
    }
    assert(wire_question_views(out@) =~= wire_question_views(questions@));
    out
}

/// A decoded query: what a reply has to echo, and the question section.
#[derive(Debug)]
pub struct Query {
    pub id: u16,
    /// The code of the kind of query.
    pub opcode: u8,
    /// Truncated.
    pub tc: bool,
    /// Recursion desired.
    pub rd: bool,
    /// Checking disabled.
    pub cd: bool,
    pub questions: Vec<WireQuestion>,
}

/// `Query` over plain values.
pub struct QueryView {
    pub id: u16,
    pub opcode: u8,
    pub tc: bool,
    pub rd: bool,
    pub cd: bool,
    pub questions: Seq<WireQuestionView>,
}

impl View for Query {
    type V = QueryView;

    open spec fn view(&self) -> QueryView {
        QueryView {
            id: self.id,
            opcode: self.opcode,
            tc: self.tc,
            rd: self.rd,
            cd: self.cd,
            questions: wire_question_views(self.questions@),
        }
    }
}

/// The status of a reply.
#[derive(Debug, Clone, Copy, PartialEq, Eq, Structural)]
pub enum ResponseCode {
    NoError,
    FormErr,
    NXDomain,
    NotImp,
    Refused,
}

impl ResponseCode {
    /// The protocol code of the status.
    pub open spec fn code(self) -> u8 {
        match self {
            ResponseCode::NoError => 0,
            ResponseCode::FormErr => 1,
            ResponseCode::NXDomain => 3,
            ResponseCode::NotImp => 4,
            ResponseCode::Refused => 5,
        }
    }

    /// The protocol code of the status.
    pub fn value(&self) -> (r: u8)
        ensures
            r == self.code(),
    {
        match self {
            ResponseCode::NoError => 0,
            ResponseCode::FormErr => 1,
            ResponseCode::NXDomain => 3,
            ResponseCode::NotImp => 4,
            ResponseCode::Refused => 5,
        }
    }
}

/// What the proxy answers to a query.
#[derive(Debug)]
pub struct Reply {
    pub id: u16,
    pub opcode: u8,
    pub tc: bool,
    pub rd: bool,
    pub cd: bool,
    pub rcode: ResponseCode,
    pub questions: Vec<WireQuestion>,
    pub answers: Vec<DnsAnswer>,
}

/// `Reply` over plain values.
pub struct ReplyView {
    pub id: u16,
    pub opcode: u8,
    pub tc: bool,
    pub rd: bool,
    pub cd: bool,
    pub rcode: ResponseCode,
    pub questions: Seq<WireQuestionView>,
    pub answers: Seq<AnswerView>,
}

impl View for Reply {
    type V = ReplyView;

    open spec fn view(&self) -> ReplyView {
        ReplyView {
            id: self.id,
            opcode: self.opcode,
            tc: self.tc,
            rd: self.rd,
            cd: self.cd,
            rcode: self.rcode,
            questions: wire_question_views(self.questions@),
            answers: answer_views(self.answers@),
        }
    }
}

/// The header of a message on the wire.
#[derive(Debug, Clone, Copy, PartialEq, Eq, Structural)]
pub struct Header {
    pub id: u16,
    pub qr: bool,
    pub opcode: u8,
    pub aa: bool,
    pub tc: bool,
    pub rd: bool,
    pub ra: bool,
    pub ad: bool,
    pub cd: bool,
    pub rcode: u8,
}

/// The query that `Dns::decode` reads from a datagram, or nothing where it
/// rejects the datagram.
pub uninterp spec fn decoded_query(bytes: Seq<u8>) -> Option<QueryView>;

/// The record of type A that the crate makes of a name, a time-to-live and
/// the text of an IPv4 address, or nothing where the name or the address is
/// malformed.
pub uninterp spec fn a_record(name: Seq<char>, ttl: u32, address: Seq<char>) -> Option<RR>;

/// The record of type AAAA that the crate makes of a name, a time-to-live
/// and the text of an IPv6 address, or nothing where the name or the address
/// is malformed.
pub uninterp spec fn aaaa_record(name: Seq<char>, ttl: u32, address: Seq<char>) -> Option<RR>;

/// The datagram that `Dns::encode` writes for a header, a question section
/// and an answer section, the other sections empty; nothing where the header
/// holds a code that the crate does not know or the encoder fails.
pub uninterp spec fn encoded_message(header: Header, questions: Seq<Question>, answers: Seq<RR>)
    -> Option<Seq<u8>>;

/// The length of the header of a message, below which no datagram is one.
pub const HEADER_LENGTH: usize = 12;

/// Calls `Dns::decode` and reads the id, the echoed flags and the question
/// section out of the message; each question is kept as decoded beside its
/// name as text and its codes. The contract gives the outcome its name, for
/// it is a function of the datagram alone, and claims that a datagram
/// shorter than a header is rejected.
#[verifier::external_body]
fn parse_query(bytes: &[u8]) -> (r: Option<Query>)
    ensures
        match r {
            Some(q) => decoded_query(bytes@) == Some(q@),
            None => decoded_query(bytes@) is None,
        },
        bytes@.len() < HEADER_LENGTH ==> r is None,
{
    let dns = Dns::decode(Bytes::copy_from_slice(bytes)).ok()?;
    let f = dns.flags;
    let questions = dns.questions.into_iter().map(
        |q| WireQuestion {
            name: q.domain_name.to_string(),
            qtype: q.q_type as u16,
            qclass: q.q_class as u16,
            wire: q,
        },
    ).collect();
    Some(Query { id: dns.id, opcode: f.opcode as u8, tc: f.tc, rd: f.rd, cd: f.cd, questions })
}

/// Builds an `RR::A` of the crate: the name through `DomainName::from_str`,
/// the address through the IPv4 parser of std. The contract only gives the
/// outcome its name.
#[verifier::external_body]
fn make_a_record(name: &str, ttl: u32, address: &str) -> (r: Option<RR>)
    ensures
        r == a_record(name@, ttl, address@),
{
    Some(RR::A(A { domain_name: name.parse().ok()?, ttl, ipv4_addr: address.parse().ok()? }))
}

/// Builds an `RR::AAAA` of the crate: the name through
/// `DomainName::from_str`, the address through the IPv6 parser of std. The
/// contract only gives the outcome its name.
#[verifier::external_body]
fn make_aaaa_record(name: &str, ttl: u32, address: &str) -> (r: Option<RR>)
    ensures
        r == aaaa_record(name@, ttl, address@),
{
    Some(RR::AAAA(AAAA { domain_name: name.parse().ok()?, ttl, ipv6_addr: address.parse().ok()? }))
}

/// Calls `Dns::encode` on a message with the given header, questions and
/// answers and no other records; the codes of the header go through
/// `Opcode::try_from` and `RCode::try_from`. The contract only gives the
/// outcome its name.
#[verifier::external_body]
fn encode_message(header: &Header, questions: Vec<Question>, answers: Vec<RR>) -> (r: Option<
    Vec<u8>,
>)
    ensures
        match r {
            Some(b) => encoded_message(*header, questions@, answers@) == Some(b@),
            None => encoded_message(*header, questions@, answers@) is None,
        },
{
    let flags = Flags {
        qr: header.qr,
        opcode: Opcode::try_from(header.opcode).ok()?,
        aa: header.aa,
        tc: header.tc,
        rd: header.rd,
        ra: header.ra,
        ad: header.ad,
        cd: header.cd,
        rcode: RCode::try_from(header.rcode).ok()?,
    };
    let dns =
        Dns { id: header.id, flags, questions, answers, authorities: vec![], additionals: vec![] };
    dns.encode().ok().map(|b| b.to_vec())
}

/// A datagram is no DNS message.
#[derive(Debug, Clone, Copy, PartialEq, Eq, Structural)]
pub struct DecodeError;

/// Why a reply has no wire form.
#[derive(Debug, Clone, Copy, PartialEq, Eq, Structural)]
pub enum EncodeError {
    /// The address record at this position of the answer set has a malformed
    /// name or address.
    Answer(usize),
    /// The message as a whole could not be written.
    Message,
}

/// What becomes of one record of an answer set in a reply.
pub enum Grouping {
    /// The record is of a type that replies do not carry.
    Skipped,
    /// The record goes into the reply.
    Record(RR),
    /// The record's name or address is malformed.
    Malformed,
}

/// What becomes of a record: only records of the types A and AAAA go into a
/// reply, each with its address in binary form.
pub open spec fn grouping(answer: AnswerView) -> Grouping {
    if answer.record_type == 1 {
        match a_record(answer.domain_name, answer.ttl, answer.data) {
            Some(rr) => Grouping::Record(rr),
            None => Grouping::Malformed,
        }
    } else if answer.record_type == 28 {
        match aaaa_record(answer.domain_name, answer.ttl, answer.data) {
            Some(rr) => Grouping::Record(rr),
            None => Grouping::Malformed,
        }
    } else {
        Grouping::Skipped
    }
}

/// The answer section made of an answer set: the records that go into a
/// reply, in their order, or the position of the first malformed one.
pub open spec fn grouped(answers: Seq<AnswerView>) -> Result<Seq<RR>, int>
    decreases answers.len(),
{
    if answers.len() == 0 {
        Ok(Seq::empty())
    } else {
        match grouped(answers.drop_last()) {
            Err(i) => Err(i),
            Ok(records) => match grouping(answers.last()) {
                Grouping::Skipped => Ok(records),
                Grouping::Record(rr) => Ok(records.push(rr)),
                Grouping::Malformed => Err(answers.len() - 1),
            },
        }
    }
}

/// The question section as it was decoded: what a reply echoes.
pub open spec fn wire_section(questions: Seq<WireQuestionView>) -> Seq<Question> {
    Seq::new(questions.len(), |i: int| questions[i].wire)
}

/// The header of a reply: it is a response, authoritative, with recursion
/// available and data authenticated; id, opcode and the bits TC, RD and CD
/// are those of the query.
pub open spec fn reply_header(reply: ReplyView) -> Header {
    Header {
        id: reply.id,
        qr: true,
        opcode: reply.opcode,
        aa: true,
        tc: reply.tc,
        rd: reply.rd,
        ra: true,
        ad: true,
        cd: reply.cd,
        rcode: reply.rcode.code(),
    }
}

/// The wire form of a reply, or the reason it has none: the header of
/// `reply_header`, the questions as they were decoded, and the address
/// records of the answer set.
pub open spec fn encoding(reply: ReplyView) -> Result<Seq<u8>, EncodeError> {
    match grouped(reply.answers) {
        Err(i) => Err(EncodeError::Answer(i as usize)),
        Ok(records) => match encoded_message(
            reply_header(reply),
            wire_section(reply.questions),
            records,
        ) {
            Some(bytes) => Ok(bytes),
            None => Err(EncodeError::Message),
        },
    }
}

/// Reads a query from a datagram.
pub fn decode(query_bytes: &[u8]) -> (r: Result<Query, DecodeError>)
    ensures
        match decoded_query(query_bytes@) {
            Some(q) => r matches Ok(query) && query@ == q,
            None => r is Err,
        },
        query_bytes@.len() < HEADER_LENGTH ==> r is Err,
{
    match parse_query(query_bytes) {
        Some(query) => Ok(query),
        None => Err(DecodeError),
    }
}

/// Makes the answer section of a reply from an answer set.
pub fn group_answers(answers: &Vec<DnsAnswer>) -> (r: Result<Vec<RR>, EncodeError>)
    ensures
        match grouped(answer_views(answers@)) {
            Ok(records) => r matches Ok(group) && group@ == records,
            Err(i) => r == Err::<Vec<RR>, EncodeError>(EncodeError::Answer(i as usize)),
        },
{
    let mut group: Vec<RR> = Vec::new();
    let ghost all = answer_views(answers@);
    let mut i: usize = 0;
    assert(all.take(0) =~= Seq::empty());
    while i < answers.len()
        invariant
            i <= answers.len(),
            all == answer_views(answers@),
            grouped(all.take(i as int)) == Ok::<Seq<RR>, int>(group@),
        decreases answers.len() - i,
    {
        let answer = &answers[i];
        proof {
            assert(all.take(i as int + 1).drop_last() =~= all.take(i as int));
            assert(all.take(i as int + 1).last() == answer@);
        }
        let made = if answer.record_type == 1 {
            make_a_record(answer.domain_name.as_str(), answer.ttl, answer.data.as_str())
        } else if answer.record_type == 28 {
            make_aaaa_record(answer.domain_name.as_str(), answer.ttl, answer.data.as_str())
        } else {
            i += 1;
            continue ;
        };
        match made {
            Some(rr) => {
                group.push(rr);
            },
            None => {
                proof {
                    lemma_grouped_fails(all, i as int + 1);
                }
                return Err(EncodeError::Answer(i));
            },
        }
        i += 1;
    }
    assert(all.take(answers.len() as int) =~= all);
    Ok(group)
}

/// Where a prefix of an answer set has a malformed record, the first one of
/// the whole set is that of the prefix.
pub proof fn lemma_grouped_fails(answers: Seq<AnswerView>, n: int)
    requires
        0 <= n <= answers.len(),
        grouped(answers.take(n)) is Err,
    ensures
        grouped(answers) == grouped(answers.take(n)),
    decreases answers.len() - n,
{
    if n < answers.len() {
        assert(answers.take(n + 1).drop_last() =~= answers.take(n));
        lemma_grouped_fails(answers, n + 1);
    } else {
        assert(answers.take(n) =~= answers);
    }
}

/// The question section of a reply as it is handed to the encoder.
fn section_of(questions: &Vec<WireQuestion>) -> (r: Vec<Question>)
    ensures
        r@ == wire_section(wire_question_views(questions@)),
{
    let mut section: Vec<Question> = Vec::new();
    let mut i: usize = 0;
    while i < questions.len()
        invariant
            i <= questions.len(),
            section@.len() == i,
            forall|k: int| 0 <= k < i ==> section@[k] == (#[trigger] questions@[k]).wire,
        decreases questions.len() - i,
    {
        section.push(copy_question(&questions[i].wire));
        i += 1;
    }
    assert(section@ =~= wire_section(wire_question_views(questions@)));
    section
}

/// Writes a reply in its wire form.
pub fn encode(reply: &Reply) -> (r: Result<Vec<u8>, EncodeError>)
    ensures
        match encoding(reply@) {
            Ok(bytes) => r matches Ok(written) && written@ == bytes,
            Err(e) => r == Err::<Vec<u8>, EncodeError>(e),
        },
{
    let records = match group_answers(&reply.answers) {
        Ok(records) => records,
        Err(e) => {
            return Err(e);
        },
    };
    let questions = section_of(&reply.questions);
    let header = Header {
        id: reply.id,
        qr: true,
        opcode: reply.opcode,
        aa: true,
        tc: reply.tc,
        rd: reply.rd,
        ra: true,
        ad: true,
        cd: reply.cd,
        rcode: reply.rcode.value(),
    };
    match encode_message(&header, questions, records) {
        Some(bytes) => Ok(bytes),
        None => Err(EncodeError::Message),
    }
}

} // verus!
