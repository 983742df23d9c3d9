//! What the MCP reverse proxies have in common.
//!
//! An agent sends MCP messages by HTTP, and a browser answers them. The proxy forwards each message
//! to the browser that is registered for the session. A message with an `id` is a request: the
//! agent waits until the browser sends a message with the same `id`.

use vstd::prelude::*;

use crate::json;
use crate::json::{Json, JsonView};
use crate::jsonrpc;
use crate::registry;
use crate::registry::Registry;

verus! {

broadcast use crate::registry::group_viewed;

/// The error code of the proxy's own answers.
pub const PROXY_ERROR: i64 = -32000;

/// The requests that wait for an answer: for each session, by the text of their `id`, the ticket of
/// the one who waits.
pub struct AwaitingAnswers {
    sessions: Registry<Registry<u64>>,
}

/// Tickets by session and by the text of the request's `id`.
pub type TicketMap = Map<Seq<char>, Map<Seq<char>, u64>>;

impl View for AwaitingAnswers {
    type V = TicketMap;

    closed spec fn view(&self) -> TicketMap {
        registry::viewed(self.sessions@)
    }
}

/// The tickets of one session.
pub open spec fn tickets_of(waiting: TicketMap, session_id: Seq<char>) -> Map<Seq<char>, u64> {
    if waiting.contains_key(session_id) {
        waiting[session_id]
    } else {
        Map::empty()
    }
}

/// The ticket of a request.
pub open spec fn ticket(waiting: TicketMap, session_id: Seq<char>, id: JsonView) -> Option<u64> {
    let tickets = tickets_of(waiting, session_id);
    if tickets.contains_key(json::id_text(id)) {
        Some(tickets[json::id_text(id)])
    } else {
        None
    }
}

/// The requests with one more.
pub open spec fn with_ticket(waiting: TicketMap, session_id: Seq<char>, id: JsonView, ticket: u64) -> TicketMap {
    waiting.insert(session_id, tickets_of(waiting, session_id).insert(json::id_text(id), ticket))
}

/// The requests without one.
pub open spec fn without_ticket(waiting: TicketMap, session_id: Seq<char>, id: JsonView) -> TicketMap {
    waiting.insert(session_id, tickets_of(waiting, session_id).remove(json::id_text(id)))
}

/// Whether a list names the requests of some sessions, each request once, by its session and the text
/// of its `id`.
pub open spec fn lists_requests(
    waiting: TicketMap,
    sessions: Seq<Seq<char>>,
    requests: Seq<(Seq<char>, Seq<char>)>,
) -> bool {
    &&& requests.no_duplicates()
    &&& forall|session_id: Seq<char>, key: Seq<char>| #[trigger]
        requests.contains((session_id, key)) <==> sessions.contains(session_id) && tickets_of(
            waiting,
            session_id,
        ).contains_key(key)
}

/// The tickets of the requests in a list.
pub open spec fn tickets_for(waiting: TicketMap, requests: Seq<(Seq<char>, Seq<char>)>) -> Seq<u64> {
    requests.map_values(|request: (Seq<char>, Seq<char>)| tickets_of(waiting, request.0)[request.1])
}

/// Whether a list holds the tickets of the requests of some sessions, one for each request.
pub open spec fn each_once(waiting: TicketMap, sessions: Seq<Seq<char>>, listed: Seq<u64>) -> bool {
    exists|requests: Seq<(Seq<char>, Seq<char>)>| #[trigger]
        lists_requests(waiting, sessions, requests) && listed == tickets_for(waiting, requests)
}

proof fn lemma_session_requests(waiting: TicketMap, session_id: Seq<char>, keys: Seq<Seq<char>>)
    requires
        keys.no_duplicates(),
        forall|key: Seq<char>| #[trigger]
            keys.contains(key) <==> tickets_of(waiting, session_id).contains_key(key),
    ensures
        lists_requests(
            waiting,
            seq![session_id],
            keys.map_values(|key: Seq<char>| (session_id, key)),
        ),
{
    let requests = keys.map_values(|key: Seq<char>| (session_id, key));
    assert forall|s: Seq<char>, key: Seq<char>| #[trigger] requests.contains((s, key)) <==> seq![
        session_id,
    ].contains(s) && tickets_of(waiting, s).contains_key(key) by {
        if requests.contains((s, key)) {
            let i = requests.index_of((s, key));
            assert(keys[i] == key);
            assert(keys.contains(key));
            assert(seq![session_id][0] == s);
        }
        if seq![session_id].contains(s) && tickets_of(waiting, s).contains_key(key) {
            assert(s == session_id);
            assert(keys.contains(key));
            let i = keys.index_of(key);
            assert(requests[i] == (s, key));
        }
    }
}

/// The requests of one session more.
pub proof fn lemma_requests_of_more(
    waiting: TicketMap,
    left: TicketMap,
    done: Seq<Seq<char>>,
    session_id: Seq<char>,
    earlier: Seq<u64>,
    more: Seq<u64>,
)
    requires
        forall|s: Seq<char>|
            #![trigger tickets_of(left, s)]
            tickets_of(left, s) == (if done.contains(s) {
                Map::empty()
            } else {
                tickets_of(waiting, s)
            }),
        each_once(waiting, done, earlier),
        each_once(left, seq![session_id], more),
    ensures
        each_once(waiting, done.push(session_id), earlier + more),
{
    let first = choose|requests: Seq<(Seq<char>, Seq<char>)>| #[trigger]
        lists_requests(waiting, done, requests) && earlier == tickets_for(waiting, requests);
    let second = choose|requests: Seq<(Seq<char>, Seq<char>)>| #[trigger]
        lists_requests(left, seq![session_id], requests) && more == tickets_for(left, requests);
    let all = first + second;
    let longer = done.push(session_id);
    assert forall|s: Seq<char>, key: Seq<char>| #[trigger] all.contains((s, key)) <==> longer.contains(s)
        && tickets_of(waiting, s).contains_key(key) by {
        assert(seq![session_id].contains(s) <==> s == session_id) by {
            if s == session_id {
                assert(seq![session_id][0] == s);
            }
        }
        assert(longer.contains(s) <==> done.contains(s) || s == session_id) by {
            if done.contains(s) {
                assert(longer[done.index_of(s)] == s);
            }
            if s == session_id {
                assert(longer[done.len() as int] == s);
            }
        }
        assert(all.contains((s, key)) <==> first.contains((s, key)) || second.contains((s, key))) by {
            if first.contains((s, key)) {
                assert(all[first.index_of((s, key))] == (s, key));
            }
            if second.contains((s, key)) {
                assert(all[first.len() + second.index_of((s, key))] == (s, key));
            }
        }
        assert(tickets_of(left, s).contains_key(key) <==> !done.contains(s) && tickets_of(
            waiting,
            s,
        ).contains_key(key));
    }
    assert forall|i: int, j: int| 0 <= i < all.len() && 0 <= j < all.len() && i != j implies all[i] != all[j] by {
        let (low, high) = if i < j {
            (i, j)
        } else {
            (j, i)
        };
        if low < first.len() && first.len() <= high && all[low] == all[high] {
            let request = first[low];
            assert(first.contains((request.0, request.1)));
            assert(second[high - first.len()] == request);
            assert(second.contains((request.0, request.1)));
            assert(tickets_of(left, request.0).contains_key(request.1));
        }
    }
    assert(lists_requests(waiting, longer, all));
    assert forall|i: int| 0 <= i < second.len() implies tickets_of(left, (#[trigger] second[i]).0)
        == tickets_of(waiting, second[i].0) by {
        let request = second[i];
        assert(second.contains((request.0, request.1)));
        assert(tickets_of(left, request.0).contains_key(request.1));
    }
    assert(earlier + more =~= tickets_for(waiting, all));
}

impl AwaitingAnswers {
    /// The tables are well formed.
    pub closed spec fn wf(&self) -> bool {
        &&& self.sessions.wf()
        &&& forall|key: Seq<char>| #[trigger]
            self.sessions@.contains_key(key) ==> self.sessions@[key].wf()
    }

    /// Nobody waits.
    pub fn new() -> (r: Self)
        ensures
            r.wf(),
            r@ == Map::<Seq<char>, Map<Seq<char>, u64>>::empty(),
    {
        let r = AwaitingAnswers { sessions: Registry::new() };
        assert(r@ =~= Map::<Seq<char>, Map<Seq<char>, u64>>::empty());
        r
    }

    /// Adds a request. The result is the ticket of an earlier request with the same `id`, which
    /// will not be answered any more.
    pub fn insert(&mut self, session_id: &str, id: &Json, ticket: u64) -> (r: Option<u64>)
        requires
            old(self).wf(),
        ensures
            final(self).wf(),
            r == self::ticket(old(self)@, session_id@, id@),
            final(self)@ == with_ticket(old(self)@, session_id@, id@, ticket),
    {
        let key = id.id_text();
        match self.sessions.get_mut(session_id) {
            Some(tickets) => {
                let replaced = match tickets.get(key.as_str()) {
                    Some(t) => Some(*t),
                    None => None,
                };
                tickets.insert(key, ticket);
                replaced
            },
            None => {
                let mut tickets: Registry<u64> = Registry::new();
                tickets.insert(key, ticket);
                self.sessions.insert(session_id.to_owned(), tickets);
                None
            },
        }
    }

    /// Takes the ticket of a request out.
    pub fn take(&mut self, session_id: &str, id: &Json) -> (r: Option<u64>)
        requires
            old(self).wf(),
        ensures
            final(self).wf(),
            r == self::ticket(old(self)@, session_id@, id@),
            final(self)@ == (if r is Some {
                without_ticket(old(self)@, session_id@, id@)
            } else {
                old(self)@
            }),
    {
        let key = id.id_text();
        match self.sessions.get_mut(session_id) {
            Some(tickets) => {
                if tickets.contains_key(key.as_str()) {
                    tickets.remove(key.as_str())
                } else {
                    assert(old(self).sessions@.insert(session_id@, *tickets) =~= old(self).sessions@);
                    None
                }
            },
            None => None,
        }
    }

    /// Takes the tickets of all requests of a session out.
    pub fn take_session(&mut self, session_id: &str) -> (r: Vec<u64>)
        requires
            old(self).wf(),
        ensures
            final(self).wf(),
            final(self)@ == old(self)@.remove(session_id@),
            each_once(old(self)@, seq![session_id@], r@),
    {
        let ghost before = tickets_of(self@, session_id@);
        match self.sessions.remove(session_id) {
            Some(tickets) => {
                let ghost order = tickets.order();
                proof {
                    tickets.lemma_order();
                    assert(before == tickets@);
                }
                let mut r: Vec<u64> = Vec::new();
                let mut i: usize = 0;
                while i < tickets.len()
                    invariant
                        tickets.wf(),
                        order == tickets.order(),
                        i <= order.len(),
                        r.len() == i,
                        forall|k: int| 0 <= k < i ==> r@[k] == tickets@[#[trigger] order[k]],
                    decreases order.len() - i,
                {
                    r.push(*tickets.value_at(i));
                    i = i + 1;
                }
                proof {
                    let requests = order.map_values(|key: Seq<char>| (session_id@, key));
                    lemma_session_requests(old(self)@, session_id@, order);
                    assert(r@ =~= tickets_for(old(self)@, requests));
                }
                r
            },
            None => {
                let r: Vec<u64> = Vec::new();
                proof {
                    let none = Seq::<Seq<char>>::empty();
                    lemma_session_requests(old(self)@, session_id@, none);
                    assert(r@ =~= tickets_for(
                        old(self)@,
                        none.map_values(|key: Seq<char>| (session_id@, key)),
                    ));
                }
                r
            },
        }
    }
}

/// The answer to those who wait for a browser that has gone: `{"error": {"code": .., "message": ..}}`.
pub open spec fn closed_json(message: Seq<char>) -> JsonView {
    json::empty_object().with("error"@, proxy_error_json(message))
}

/// The error object of the proxy's own answers.
pub open spec fn proxy_error_json(message: Seq<char>) -> JsonView {
    json::empty_object().with("code"@, json::integer_json(PROXY_ERROR)).with(
        "message"@,
        JsonView::Str(message),
    )
}

/// The answer to those who wait for a browser that has gone.
pub fn closed_answer(message: &str) -> (r: Json)
    ensures
        r@ == closed_json(message@),
{
    Json::object().with(
        "error",
        Json::object().with("code", Json::integer(PROXY_ERROR)).with("message", Json::string(message)),
    )
}

/// The answer to an agent whose browser is not connected.
pub open spec fn not_connected_json(message: JsonView) -> JsonView {
    json::empty_object().with("jsonrpc"@, JsonView::Str("2.0"@)).with(
        "id"@,
        jsonrpc::or_null(message.get("id"@)),
    ).with(
        "error"@,
        proxy_error_json(
            "Browser is not connected. Abort any generation until a manual user retry."@,
        ),
    )
}

/// The answer to an agent whose browser is not connected.
pub fn not_connected_answer(message: &Json) -> (r: Json)
    ensures
        r@ == not_connected_json(message@),
{
    let id = match message.get("id") {
        Some(id) => id.clone(),
        None => Json::Null,
    };
    Json::object().with("jsonrpc", Json::string("2.0")).with("id", id).with(
        "error",
        Json::object().with("code", Json::integer(PROXY_ERROR)).with(
            "message",
            Json::string("Browser is not connected. Abort any generation until a manual user retry."),
        ),
    )
}

/// The message in the body of an agent's HTTP request: it has to be JSON with a `jsonrpc` member.
pub open spec fn body_message(body: Seq<u8>) -> Option<JsonView> {
    match json::json_parsed_bytes(body) {
        Some(message) => if message.get("jsonrpc"@) is Some {
            Some(message)
        } else {
            None
        },
        None => None,
    }
}

/// Reads the message in the body of an agent's HTTP request.
pub fn parse_body(body: &[u8]) -> (r: Option<Json>)
    ensures
        json::opt_json(r) == body_message(body@),
{
    match Json::parse_bytes(body) {
        Some(message) => if message.has("jsonrpc") {
            Some(message)
        } else {
            None
        },
        None => None,
    }
}

/// How an agent's HTTP request is answered.
#[derive(Debug)]
pub enum HttpAnswer {
    /// 400 Bad Request.
    BadRequest,
    /// 202 Accepted, without a body.
    Accepted,
    /// 200 OK with a JSON body.
    Body(Json),
    /// 500 Internal Server Error.
    InternalError,
}

/// The answer for the one who waited: what the browser sent, or an error where nothing came.
pub fn answer_waiting(response: Option<Json>) -> (r: HttpAnswer)
    ensures
        match response {
            Some(v) => r is Body && r->Body_0@ == v@,
            None => r is InternalError,
        },
{
    match response {
        Some(v) => HttpAnswer::Body(v),
        None => HttpAnswer::InternalError,
    }
}

/// What becomes of an agent's HTTP request after its message was handed to the browser.
#[derive(Debug)]
pub enum Handed {
    /// The request waits for the browser's answer.
    Wait,
    Answer(HttpAnswer),
}

/// Decides how an agent's HTTP request goes on. `waits` says whether its message asks for an answer,
/// `sent` whether the message could be handed to the browser.
pub fn handed_over(waits: bool, sent: bool) -> (r: Handed)
    ensures
        r is Wait == (sent && waits),
        r is Answer ==> (if sent {
            r->Answer_0 is Accepted
        } else {
            r->Answer_0 is InternalError
        }),
{
    if !sent {
        Handed::Answer(HttpAnswer::InternalError)
    } else if waits {
        Handed::Wait
    } else {
        Handed::Answer(HttpAnswer::Accepted)
    }
}

/// A request that was added is found under its own `id` and session, and taking it out leaves the
/// other requests as they were.
pub proof fn lemma_ticket_round_trip(
    waiting: TicketMap,
    session_id: Seq<char>,
    id: JsonView,
    new_ticket: u64,
    other_session: Seq<char>,
    other_id: JsonView,
)
    requires
        ticket(waiting, session_id, id) is None,
    ensures
        ({
            let added = with_ticket(waiting, session_id, id, new_ticket);
            let taken = without_ticket(added, session_id, id);
            let same = session_id == other_session && json::id_text(id) == json::id_text(other_id);
            &&& ticket(added, session_id, id) == Some(new_ticket)
            &&& ticket(taken, session_id, id) is None
            &&& !same ==> ticket(added, other_session, other_id) == ticket(waiting, other_session, other_id)
            &&& ticket(taken, other_session, other_id) == ticket(waiting, other_session, other_id)
        }),
{
}

/// The body of an agent's request is taken exactly if it is JSON with a `jsonrpc` member. The message
/// is then what the body says, whatever other members it has: requests, notifications and responses
/// alike. A body that is no JSON, or has no `jsonrpc` member, is refused.
pub proof fn lemma_body_is_taken(body: Seq<u8>)
    ensures
        body_message(body) is Some <==> json::json_parsed_bytes(body) is Some && json::json_parsed_bytes(
            body,
        )->0.get("jsonrpc"@) is Some,
        body_message(body) is Some ==> body_message(body) == json::json_parsed_bytes(body),
        json::json_parsed_bytes(body) is None ==> body_message(body) is None,
{
}

/// Of the members of a message only `jsonrpc` matters for whether its body is taken.
pub proof fn lemma_other_members_do_not_matter(body: Seq<u8>, members: Map<Seq<char>, JsonView>)
    requires
        json::json_parsed_bytes(body) == Some(JsonView::Obj(members)),
    ensures
        members.contains_key("jsonrpc"@) ==> body_message(body) == Some(JsonView::Obj(members)),
        !members.contains_key("jsonrpc"@) ==> body_message(body) is None,
{
}

/// The members of the answer to an agent whose browser is not connected: the version, the identity of
/// the agent's own message, or null where it has none, and the error.
pub proof fn lemma_not_connected_members(message: JsonView)
    ensures
        ({
            let answer = not_connected_json(message);
            let error = answer.get("error"@);
            &&& answer is Obj
            &&& answer->Obj_0.dom() == set!["jsonrpc"@, "id"@, "error"@]
            &&& answer.get("jsonrpc"@) == Some(JsonView::Str("2.0"@))
            &&& message.get("id"@) is Some ==> answer.get("id"@) == message.get("id"@)
            &&& message.get("id"@) is None ==> answer.get("id"@) == Some(JsonView::Null)
            &&& error is Some
            &&& error->0 is Obj
            &&& error->0->Obj_0.dom() == set!["code"@, "message"@]
            &&& error->0.get("code"@) == Some(JsonView::Number(json::NumberView::NegInt((-32000) as i64)))
            &&& error->0.get("message"@) == Some(
                JsonView::Str(
                    "Browser is not connected. Abort any generation until a manual user retry."@,
                ),
            )
        }),
{
    lemma_member_names();
    let answer = not_connected_json(message);
    assert(answer->Obj_0.dom() =~= set!["jsonrpc"@, "id"@, "error"@]);
    assert(answer.get("error"@)->0->Obj_0.dom() =~= set!["code"@, "message"@]);
}

/// The members of the answer to those who wait for a browser that has gone: an error with the text, and
/// nothing else.
pub proof fn lemma_closed_members(message: Seq<char>)
    ensures
        ({
            let answer = closed_json(message);
            let error = answer.get("error"@);
            &&& answer is Obj
            &&& answer->Obj_0.dom() == set!["error"@]
            &&& error is Some
            &&& error->0 is Obj
            &&& error->0->Obj_0.dom() == set!["code"@, "message"@]
            &&& error->0.get("code"@) == Some(JsonView::Number(json::NumberView::NegInt((-32000) as i64)))
            &&& error->0.get("message"@) == Some(JsonView::Str(message))
        }),
{
    lemma_member_names();
    let answer = closed_json(message);
    assert(answer->Obj_0.dom() =~= set!["error"@]);
    assert(answer.get("error"@)->0->Obj_0.dom() =~= set!["code"@, "message"@]);
}

proof fn lemma_member_names()
    ensures
        "jsonrpc"@ != "id"@,
        "jsonrpc"@ != "error"@,
        "id"@ != "error"@,
        "code"@ != "message"@,
{
    reveal_strlit("jsonrpc");
    reveal_strlit("id");
    reveal_strlit("error");
    reveal_strlit("code");
    reveal_strlit("message");
    assert("jsonrpc"@.len() == 7);
    assert("id"@.len() == 2);
    assert("error"@.len() == 5);
    assert("code"@.len() == 4);
    assert("message"@.len() == 7);
}

/// A request that is added to those of its session replaces one with the same `id`, and none else.
pub proof fn lemma_ticket_is_replaced(
    waiting: TicketMap,
    session_id: Seq<char>,
    id: JsonView,
    new_ticket: u64,
    other_session: Seq<char>,
    other_id: JsonView,
)
    ensures
        ({
            let added = with_ticket(waiting, session_id, id, new_ticket);
            let same = session_id == other_session && json::id_text(id) == json::id_text(other_id);
            ticket(added, other_session, other_id) == (if same {
                Some(new_ticket)
            } else {
                ticket(waiting, other_session, other_id)
            })
        }),
        ({
            let taken = without_ticket(waiting, session_id, id);
            let same = session_id == other_session && json::id_text(id) == json::id_text(other_id);
            ticket(taken, other_session, other_id) == (if same {
                None
            } else {
                ticket(waiting, other_session, other_id)
            })
        }),
{
}

/// The ticket of a request stands under the text of its `id` in the table of its session.
pub proof fn lemma_ticket_by_text(waiting: TicketMap, session_id: Seq<char>, id: JsonView)
    ensures
        ticket(waiting, session_id, id) is Some <==> waiting.contains_key(session_id)
            && waiting[session_id].contains_key(json::id_text(id)),
        ticket(waiting, session_id, id) is Some ==> ticket(waiting, session_id, id) == Some(
            waiting[session_id][json::id_text(id)],
        ),
{
}

/// Reading a body gives its JSON exactly if that has a `jsonrpc` member, with all its members as they
/// are, and nothing if the body is no JSON or has no such member.
pub proof fn lemma_parse_body_call(body: &[u8], r: Option<Json>)
    requires
        call_ensures(parse_body, (body,), r),
    ensures
        match json::json_parsed_bytes(body@) {
            Some(message) => if message.get("jsonrpc"@) is Some {
                r is Some && r->0@ == message
            } else {
                r is None
            },
            None => r is None,
        },
{
}

/// An agent that waits gets what the browser sent as it is, and an internal error where nothing came. One
/// whose message asks for an answer waits if the message could be handed over; one that asks for none is
/// accepted at once.
pub proof fn lemma_answer_calls(
    response: Option<Json>,
    waits: bool,
    sent: bool,
    answer: HttpAnswer,
    handed: Handed,
)
    requires
        call_ensures(answer_waiting, (response,), answer),
        call_ensures(handed_over, (waits, sent), handed),
    ensures
        response is Some ==> answer is Body && answer->Body_0@ == response->0@,
        response is None ==> answer is InternalError,
        sent && waits ==> handed is Wait,
        sent && !waits ==> handed is Answer && handed->Answer_0 is Accepted,
        !sent ==> handed is Answer && handed->Answer_0 is InternalError,
{
}

/// The proxy's own answers are those of their laws.
pub proof fn lemma_own_answer_calls(message: &str, asked: &Json, closed: Json, not_connected: Json)
    requires
        call_ensures(closed_answer, (message,), closed),
        call_ensures(not_connected_answer, (asked,), not_connected),
    ensures
        closed@ == closed_json(message@),
        not_connected@ == not_connected_json(asked@),
{
}

} // verus!
