//! The decisions taken for each datagram.
//!
//! A query goes through these steps, and the first that fails ends it with
//! the reply named: it must hold exactly one question (`FormErr`), for a
//! record type that the proxy resolves (`NotImp`) and a name that has a
//! canonical form (`NXDomain`) and is not blocked (`Refused`). The cache is
//! then read. Only on a miss is the upstream resolver asked; its answer set
//! is stored and answered with (`NoError`), or, where it holds no record,
//! answered with `NXDomain`.
//!
//! The caller owns the socket and the connection to the resolver: it hands
//! in what arrived and carries out what comes back.

use crate::cache::{fresh, now, stored, swept, Cache, CacheView};
use crate::dns::resolver::{
    answer_views, clone_answers, record_type_coded, resolution, resolve, AnswerView, DnsAnswer,
    DnsQuestion, DnsResponse, Exchange, ExchangeView, QuestionView, RecordType, ResolutionError,
};
use crate::dns::{
    clone_wire_questions, decode, decoded_query, encode, encoding, wire_section, EncodeError,
    Query, QueryView, Reply, ReplyView, ResponseCode,
};
use crate::domain::{canonical_name, Domain};
use crate::filter::{
    blacklist, blocked, refusal_message, views_of, Filter, FilterEntry, FilterEntryView,
    FilterView,
};
use vstd::prelude::*;

verus! {

/// What has to be asked of the upstream resolver.
#[derive(Debug)]
pub struct Lookup {
    pub domain: Domain,
    pub record_type: RecordType,
}

/// `Lookup` over plain values.
pub struct LookupView {
    pub name: Seq<char>,
    pub record_type: RecordType,
}

impl View for Lookup {
    type V = LookupView;

    open spec fn view(&self) -> LookupView {
        LookupView { name: self.domain@, record_type: self.record_type }
    }
}

/// The question under which a lookup is cached.
pub open spec fn cache_key(lookup: LookupView) -> QuestionView {
    QuestionView { name: lookup.name, record_type: lookup.record_type.code() }
}

/// What follows from a query.
#[derive(Debug)]
pub enum Step {
    /// The reply is known.
    Respond(Reply),
    /// The name of this lookup is blocked by this rule; the reply says so.
    Refuse(Reply, FilterEntry, Lookup),
    /// The upstream resolver has to be asked.
    Resolve(Lookup),
}

/// `Step` over plain values.
pub enum StepView {
    Respond(ReplyView),
    Refuse(ReplyView, FilterEntryView, LookupView),
    Resolve(LookupView),
}

impl View for Step {
    type V = StepView;

    open spec fn view(&self) -> StepView {
        match self {
            Step::Respond(reply) => StepView::Respond(reply@),
            Step::Refuse(reply, rule, lookup) => StepView::Refuse(reply@, rule@, lookup@),
            Step::Resolve(lookup) => StepView::Resolve(lookup@),
        }
    }
}

/// The reply to `query` with a status and an answer set: the id, the opcode,
/// the bits TC, RD and CD and the question section are those of the query.
pub open spec fn reply_to(query: QueryView, rcode: ResponseCode, answers: Seq<AnswerView>)
    -> ReplyView {
    ReplyView {
        id: query.id,
        opcode: query.opcode,
        tc: query.tc,
        rd: query.rd,
        cd: query.cd,
        rcode,
        questions: query.questions,
        answers,
    }
}

/// The reply to `query` once its answer set is known: `NoError` with the
/// records, or `NXDomain` where there is none.
pub open spec fn answered(query: QueryView, answers: Seq<AnswerView>) -> ReplyView {
    if answers.len() > 0 {
        reply_to(query, ResponseCode::NoError, answers)
    } else {
        reply_to(query, ResponseCode::NXDomain, Seq::empty())
    }
}

/// The lookup that `query` asks for, or the status with which it is turned
/// down before any rule or cache is consulted.
pub open spec fn requested(query: QueryView) -> Result<LookupView, ResponseCode> {
    if query.questions.len() != 1 {
        Err(ResponseCode::FormErr)
    } else {
        match record_type_coded(query.questions[0].qtype) {
            None => Err(ResponseCode::NotImp),
            Some(record_type) => match canonical_name(query.questions[0].name) {
                Err(_) => Err(ResponseCode::NXDomain),
                Ok(name) => Ok(LookupView { name, record_type }),
            },
        }
    }
}

/// What follows from `query`, given the rule sources, the cache and the
/// instant.
pub open spec fn decision(query: QueryView, filters: Seq<FilterView>, cache: CacheView, now: int)
    -> StepView {
    match requested(query) {
        Err(rcode) => StepView::Respond(reply_to(query, rcode, Seq::empty())),
        Ok(lookup) => match blocked(filters, lookup.name) {
            Some(rule) => StepView::Refuse(
                reply_to(query, ResponseCode::Refused, Seq::empty()),
                rule,
                lookup,
            ),
            None => match fresh(cache, cache_key(lookup), now) {
                Some(entry) => StepView::Respond(answered(query, entry.response.answer)),
                None => StepView::Resolve(lookup),
            },
        },
    }
}

/// The cache after the decision on `query`: it was read, and so swept, only
/// where the query asked for a lookup of a name that is not blocked.
pub open spec fn cache_after_decision(
    query: QueryView,
    filters: Seq<FilterView>,
    cache: CacheView,
    now: int,
) -> CacheView {
    match requested(query) {
        Err(_) => cache,
        Ok(lookup) => if blocked(filters, lookup.name) is Some {
            cache
        } else {
            swept(cache, cache_key(lookup), now)
        },
    }
}

/// Every reply carries the id and the question section of its query, and
/// the opcode and the bits TC, RD and CD with them; the questions that go to
/// the encoder are those that were decoded.
pub proof fn lemma_reply_echoes_query(
    query: QueryView,
    filters: Seq<FilterView>,
    cache: CacheView,
    now: int,
    upstream: Seq<AnswerView>,
)
    ensures
        decision(query, filters, cache, now) matches StepView::Respond(reply) ==> reply.id
            == query.id && reply.questions == query.questions,
        decision(query, filters, cache, now) matches StepView::Refuse(reply, _, _) ==> reply.id
            == query.id && reply.questions == query.questions,
        answered(query, upstream).id == query.id,
        answered(query, upstream).questions == query.questions,
        wire_section(answered(query, upstream).questions) == wire_section(query.questions),
        answered(query, upstream).opcode == query.opcode,
        answered(query, upstream).tc == query.tc,
        answered(query, upstream).rd == query.rd,
        answered(query, upstream).cd == query.cd,
{
}

/// A query with one question for a supported type and a name that no rule
/// blocks is answered from the cache or handed to the resolver; any reply to
/// it has the status `NoError` with at least one record, or `NXDomain` with
/// none.
pub proof fn lemma_unblocked_query(
    query: QueryView,
    filters: Seq<FilterView>,
    cache: CacheView,
    now: int,
)
    requires
        requested(query) is Ok,
        blocked(filters, requested(query)->Ok_0.name) is None,
    ensures
        match decision(query, filters, cache, now) {
            StepView::Respond(reply) => {
                &&& fresh(cache, cache_key(requested(query)->Ok_0), now) is Some
                &&& reply.id == query.id
                &&& reply.questions == query.questions
                &&& (reply.rcode == ResponseCode::NoError && reply.answers.len() > 0
                    || reply.rcode == ResponseCode::NXDomain && reply.answers.len() == 0)
            },
            StepView::Refuse(_, _, _) => false,
            StepView::Resolve(lookup) => {
                &&& lookup == requested(query)->Ok_0
                &&& fresh(cache, cache_key(lookup), now) is None
            },
        },
{
}

/// A blocked name is refused without a look at the cache or a word to the
/// resolver, and a query that does not hold exactly one question is turned
/// down with `FormErr`.
pub proof fn lemma_turned_down(
    query: QueryView,
    filters: Seq<FilterView>,
    cache: CacheView,
    now: int,
)
    ensures
        query.questions.len() != 1 ==> decision(query, filters, cache, now) == StepView::Respond(
            reply_to(query, ResponseCode::FormErr, Seq::empty()),
        ) && cache_after_decision(query, filters, cache, now) == cache,
        requested(query) is Ok && blocked(filters, requested(query)->Ok_0.name) is Some
            ==> decision(query, filters, cache, now) == StepView::Refuse(
            reply_to(query, ResponseCode::Refused, Seq::empty()),
            blocked(filters, requested(query)->Ok_0.name)->Some_0,
            requested(query)->Ok_0,
        ) && cache_after_decision(query, filters, cache, now) == cache,
{
}

/// Builds the reply to `query` with a status and an answer set.
pub fn reply(query: &Query, rcode: ResponseCode, answers: Vec<DnsAnswer>) -> (r: Reply)
    ensures
        r@ == reply_to(query@, rcode, answer_views(answers@)),
{
    Reply {
        id: query.id,
        opcode: query.opcode,
        tc: query.tc,
        rd: query.rd,
        cd: query.cd,
        rcode,
        questions: clone_wire_questions(&query.questions),
        answers,
    }
}

/// Builds the reply to `query` once its answer set is known.
pub fn answer(query: &Query, answers: &Vec<DnsAnswer>) -> (r: Reply)
    ensures
        r@ == answered(query@, answer_views(answers@)),
{
    if answers.len() > 0 {
        reply(query, ResponseCode::NoError, clone_answers(answers))
    } else {
        let none: Vec<DnsAnswer> = Vec::new();
        assert(answer_views(none@) =~= Seq::empty());
        reply(query, ResponseCode::NXDomain, none)
    }
}

/// Reads what `query` asks for.
pub fn request(query: &Query) -> (r: Result<Lookup, ResponseCode>)
    ensures
        match requested(query@) {
            Ok(lookup) => r matches Ok(found) && found@ == lookup,
            Err(rcode) => r == Err::<Lookup, ResponseCode>(rcode),
        },
{
    if query.questions.len() != 1 {
        return Err(ResponseCode::FormErr);
    }
    let question = &query.questions[0];
    assert(query@.questions[0] == question@);
    let record_type = match RecordType::from_value(question.qtype) {
        Some(record_type) => record_type,
        None => {
            return Err(ResponseCode::NotImp);
        },
    };
    match Domain::new(question.name.as_str()) {
        Ok(domain) => Ok(Lookup { domain, record_type }),
        Err(_) => Err(ResponseCode::NXDomain),
    }
}

/// The question under which `lookup` is cached.
pub fn question_of(lookup: &Lookup) -> (r: DnsQuestion)
    ensures
        r@ == cache_key(lookup@),
{
    DnsQuestion { name: lookup.domain.name().to_owned(), record_type: lookup.record_type.value() }
}

/// Decides what follows from `query` at the instant `now`.
pub fn decide(query: &Query, filters: &Vec<Filter>, cache: &mut Cache, now: i64) -> (r: Step)
    ensures
        r@ == decision(query@, views_of(filters@), old(cache)@, now as int),
        final(cache)@ == cache_after_decision(
            query@,
            views_of(filters@),
            old(cache)@,
            now as int,
        ),
{
    let none: Vec<DnsAnswer> = Vec::new();
    assert(answer_views(none@) =~= Seq::empty());
    let lookup = match request(query) {
        Ok(lookup) => lookup,
        Err(rcode) => {
            return Step::Respond(reply(query, rcode, none));
        },
    };
    if let Some(rule) = blacklist::find(filters, lookup.domain.name()) {
        return Step::Refuse(reply(query, ResponseCode::Refused, none), rule, lookup);
    }
    let question = question_of(&lookup);
    match cache.get_at(&question, now) {
        Some(entry) => Step::Respond(answer(query, &entry.response.answer)),
        None => Step::Resolve(lookup),
    }
}

/// Decides what follows from `query` at the present instant.
pub fn handle_query(query: &Query, filters: &Vec<Filter>, cache: &mut Cache) -> (r: Step)
    ensures
        exists|now: i64|
            {
                &&& r@ == decision(query@, views_of(filters@), old(cache)@, now as int)
                &&& final(cache)@ == cache_after_decision(
                    query@,
                    views_of(filters@),
                    old(cache)@,
                    now as int,
                )
            },
{
    let at = now();
    decide(query, filters, cache, at)
}

/// Stores the answer set that the resolver gave for `lookup` and builds the
/// reply to `query` from it.
pub fn conclude(
    query: &Query,
    lookup: &Lookup,
    response: &DnsResponse,
    cache: &mut Cache,
    now: i64,
) -> (r: Reply)
    ensures
        r@ == answered(query@, response@.answer),
        final(cache)@ == stored(old(cache)@, cache_key(lookup@), response@, now as int),
{
    cache.set_at(question_of(lookup), response, now);
    answer(query, &response.answer)
}

/// What the owner of the socket has to do next.
#[derive(Debug)]
pub enum Action {
    /// Nothing: the datagram is no query, and no reply is owed.
    Drop,
    /// Send this reply.
    Send(Vec<u8>),
    /// Send this reply, which refuses the query, and report the refusal
    /// with this message.
    Refuse(Vec<u8>, String),
    /// Ask the upstream resolver for this lookup, and hand what comes of it
    /// to `finish` together with the query.
    Ask(Query, Lookup),
    /// Send nothing: the lookup failed for this reason.
    Abandon(ResolutionError),
    /// Send nothing: the reply has no wire form.
    Fail(EncodeError),
}

/// `Action` over plain values.
pub enum ActionView {
    Drop,
    Send(Seq<u8>),
    Refuse(Seq<u8>, Seq<char>),
    Ask(QueryView, LookupView),
    Abandon(ResolutionError),
    Fail(EncodeError),
}

impl View for Action {
    type V = ActionView;

    open spec fn view(&self) -> ActionView {
        match self {
            Action::Drop => ActionView::Drop,
            Action::Send(bytes) => ActionView::Send(bytes@),
            Action::Refuse(bytes, notice) => ActionView::Refuse(bytes@, notice@),
            Action::Ask(query, lookup) => ActionView::Ask(query@, lookup@),
            Action::Abandon(e) => ActionView::Abandon(*e),
            Action::Fail(e) => ActionView::Fail(*e),
        }
    }
}

/// What is done with a reply: it is sent in its wire form, where it has one.
pub open spec fn sending(reply: ReplyView) -> ActionView {
    match encoding(reply) {
        Ok(bytes) => ActionView::Send(bytes),
        Err(e) => ActionView::Fail(e),
    }
}

/// What is done about a datagram: one that is no query is dropped, any other
/// is decided on as `decision` says.
pub open spec fn reaction(
    datagram: Seq<u8>,
    filters: Seq<FilterView>,
    cache: CacheView,
    now: int,
) -> ActionView {
    match decoded_query(datagram) {
        None => ActionView::Drop,
        Some(query) => match decision(query, filters, cache, now) {
            StepView::Respond(reply) => sending(reply),
            StepView::Refuse(reply, rule, lookup) => match encoding(reply) {
                Ok(bytes) => ActionView::Refuse(bytes, refusal_message(rule, lookup.name)),
                Err(e) => ActionView::Fail(e),
            },
            StepView::Resolve(lookup) => ActionView::Ask(query, lookup),
        },
    }
}

/// The cache after a datagram was received.
pub open spec fn cache_after_reaction(
    datagram: Seq<u8>,
    filters: Seq<FilterView>,
    cache: CacheView,
    now: int,
) -> CacheView {
    match decoded_query(datagram) {
        None => cache,
        Some(query) => cache_after_decision(query, filters, cache, now),
    }
}

/// What is done once the exchange with the resolver is over: a failed
/// lookup is abandoned without a reply, an answer set is answered with.
pub open spec fn completion(query: QueryView, exchange: ExchangeView) -> ActionView {
    match resolution(exchange) {
        Err(e) => ActionView::Abandon(e),
        Ok(response) => sending(answered(query, response.answer)),
    }
}

/// The cache once the exchange with the resolver is over: an answer set is
/// stored under the question of the lookup.
pub open spec fn cache_after_completion(
    lookup: LookupView,
    exchange: ExchangeView,
    cache: CacheView,
    now: int,
) -> CacheView {
    match resolution(exchange) {
        Err(_) => cache,
        Ok(response) => stored(cache, cache_key(lookup), response, now),
    }
}

fn send(reply: &Reply) -> (r: Action)
    ensures
        r@ == sending(reply@),
{
    match encode(reply) {
        Ok(bytes) => Action::Send(bytes),
        Err(e) => Action::Fail(e),
    }
}

/// Decides what is done about a datagram that arrived at the instant `now`.
pub fn receive(datagram: &[u8], filters: &Vec<Filter>, cache: &mut Cache, now: i64) -> (r: Action)
    ensures
        r@ == reaction(datagram@, views_of(filters@), old(cache)@, now as int),
        final(cache)@ == cache_after_reaction(
            datagram@,
            views_of(filters@),
            old(cache)@,
            now as int,
        ),
{
    let query = match decode(datagram) {
        Ok(query) => query,
        Err(_) => {
            return Action::Drop;
        },
    };
    match decide(&query, filters, cache, now) {
        Step::Respond(reply) => send(&reply),
        Step::Refuse(reply, rule, lookup) => match encode(&reply) {
            Ok(bytes) => Action::Refuse(bytes, rule.format_message(&lookup.domain)),
            Err(e) => Action::Fail(e),
        },
        Step::Resolve(lookup) => Action::Ask(query, lookup),
    }
}

/// Decides what is done once the exchange with the resolver for `lookup` is
/// over, at the instant `now`.
pub fn finish(
    query: &Query,
    lookup: &Lookup,
    exchange: Exchange,
    cache: &mut Cache,
    now: i64,
) -> (r: Action)
    ensures
        r@ == completion(query@, exchange@),
        final(cache)@ == cache_after_completion(lookup@, exchange@, old(cache)@, now as int),
{
    match resolve(exchange) {
        Err(e) => Action::Abandon(e),
        Ok(response) => {
            let reply = conclude(query, lookup, &response, cache, now);
            send(&reply)
        },
    }
}

} // verus!
