use vstd::prelude::*;
use crate::error::Error;
use crate::json::{Json, field, lemma_field_index, find_field};

verus! {

/// The envelope exchanged on the wire: an event tag, an optional text value
/// and an optional structured payload, whose meaning the tag decides.
#[derive(Debug, PartialEq, Eq)]
pub struct SonicMessage {
    pub e: String,
    pub v: Option<String>,
    pub p: Option<Json>,
}

/// A request to run a query against a data source.
#[derive(Debug, PartialEq, Eq)]
pub struct Query {
    /// Local identifier; never sent.
    pub id: Option<String>,
    /// Raw query text.
    pub query: String,
    pub trace_id: Option<String>,
    /// Bearer token.
    pub auth: Option<String>,
    /// Resolved data-source configuration.
    pub config: Json,
}

/// A text, or `null` where there is none.
pub open spec fn text_or_null(s: Option<String>) -> Json {
    match s {
        Some(t) => Json::Str(t),
        None => Json::Null,
    }
}

/// The text a member holds, if it holds one.
pub open spec fn as_text(f: Option<Json>) -> Option<String> {
    match f {
        Some(Json::Str(s)) => Some(s),
        _ => None,
    }
}

/// A member that may be absent, `null` or a text.
pub open spec fn optional_text_ok(f: Option<Json>) -> bool {
    match f {
        None => true,
        Some(Json::Null) => true,
        Some(Json::Str(_)) => true,
        _ => false,
    }
}

/// A payload member: absent and `null` both mean no payload.
pub open spec fn as_payload(f: Option<Json>) -> Option<Json> {
    match f {
        None => None,
        Some(Json::Null) => None,
        Some(x) => Some(x),
    }
}

/// `j` is the JSON form of `m`: an object with the members `e`, `v` and `p`
/// in that order, where a missing value or payload is written as `null`.
pub open spec fn is_json_of(m: SonicMessage, j: Json) -> bool {
    match j {
        Json::Object(fs) => {
            &&& fs@.len() == 3
            &&& fs@[0].0@ == "e"@ && fs@[0].1 == Json::Str(m.e)
            &&& fs@[1].0@ == "v"@ && fs@[1].1 == text_or_null(m.v)
            &&& fs@[2].0@ == "p"@ && fs@[2].1 == match m.p {
                Some(x) => x,
                None => Json::Null,
            }
        },
        _ => false,
    }
}

/// The message that a JSON value denotes: an object whose `e` member is a
/// text, whose `v` member is absent, `null` or a text, and whose `p` member,
/// if present and not `null`, is the payload. Other members are ignored.
pub open spec fn message_of_json(j: Json) -> Option<SonicMessage> {
    match j {
        Json::Object(fs) => match field(fs@, "e"@) {
            Some(Json::Str(e)) => if optional_text_ok(field(fs@, "v"@)) {
                Some(SonicMessage { e, v: as_text(field(fs@, "v"@)), p: as_payload(field(fs@, "p"@)) })
            } else {
                None
            },
            _ => None,
        },
        _ => None,
    }
}

/// `m` is the message that carries `q`: tag `Q`, the query text as value, and
/// a payload object with the members `auth`, `config` and `trace_id`.
pub open spec fn is_message_of(q: Query, m: SonicMessage) -> bool {
    &&& m.e@ == "Q"@
    &&& m.v == Some(q.query)
    &&& m.p matches Some(Json::Object(fs)) && {
        &&& fs@.len() == 3
        &&& fs@[0].0@ == "auth"@ && fs@[0].1 == text_or_null(q.auth)
        &&& fs@[1].0@ == "config"@ && fs@[1].1 == q.config
        &&& fs@[2].0@ == "trace_id"@ && fs@[2].1 == text_or_null(q.trace_id)
    }
}

/// The message has the shape of a query: tag `Q`, a value, an object payload.
pub open spec fn has_query_shape(m: SonicMessage) -> bool {
    &&& m.e@ == "Q"@
    &&& m.v is Some
    &&& m.p matches Some(Json::Object(_))
}

/// The query a message of query shape carries, if its payload names a
/// configuration. A `trace_id` or `auth` member that is not a text is ignored.
pub open spec fn query_of_message(m: SonicMessage) -> Option<Query> {
    match (m.v, m.p) {
        (Some(text), Some(Json::Object(fs))) => match field(fs@, "config"@) {
            Some(c) => Some(Query {
                id: None,
                query: text,
                trace_id: as_text(field(fs@, "trace_id"@)),
                auth: as_text(field(fs@, "auth"@)),
                config: c,
            }),
            None => None,
        },
        _ => None,
    }
}

/// Takes the member at `i` out of `fields`, leaving a placeholder with an
/// empty name.
fn take_field(fields: &mut Vec<(String, Json)>, i: usize) -> (r: Json)
    requires
        i < old(fields)@.len(),
    ensures
        r == old(fields)@[i as int].1,
        final(fields)@.len() == old(fields)@.len(),
        forall|j: int| 0 <= j < old(fields)@.len() && j != i ==> final(fields)@[j] == old(fields)@[j],
{
    let mut slot = (String::new(), Json::Null);
    fields.set_and_swap(i, &mut slot);
    slot.1
}

impl SonicMessage {
    /// The message as a JSON object with the members `e`, `v` and `p`.
    pub fn into_json(self) -> (r: Json)
        ensures
            is_json_of(self, r),
    {
        let mut fs: Vec<(String, Json)> = Vec::new();
        fs.push(("e".to_owned(), Json::Str(self.e)));
        fs.push((
            "v".to_owned(),
            match self.v {
                Some(s) => Json::Str(s),
                None => Json::Null,
            },
        ));
        fs.push((
            "p".to_owned(),
            match self.p {
                Some(x) => x,
                None => Json::Null,
            },
        ));
        Json::Object(fs)
    }

    /// Reads a message out of a JSON value; fails with a deserialization
    /// error when the value does not have the message's shape.
    pub fn from_json(j: Json) -> (r: Result<SonicMessage, Error>)
        ensures
            r is Ok <==> message_of_json(j) is Some,
            r matches Ok(m) ==> message_of_json(j) == Some(m),
            r matches Err(err) ==> err is SerDe,
    {
        let ghost j0 = j;
        let bad = Err(Error::SerDe("value is not a message object with a text member 'e'".to_owned()));
        match j {
            Json::Object(mut fs) => {
                let ghost fs0 = fs@;
                proof {
                    reveal_strlit("e");
                    reveal_strlit("v");
                    reveal_strlit("p");
                    lemma_field_index(fs0, "e"@);
                    lemma_field_index(fs0, "v"@);
                    lemma_field_index(fs0, "p"@);
                }
                let ie = find_field(&fs, &"e".to_owned());
                let iv = find_field(&fs, &"v".to_owned());
                let ip = find_field(&fs, &"p".to_owned());
                let ie = match ie {
                    Some(i) => i,
                    None => { return bad; },
                };
                assert("e"@ != "v"@ && "e"@ != "p"@ && "v"@ != "p"@) by {
                    assert("e"@[0] != "v"@[0] && "e"@[0] != "p"@[0] && "v"@[0] != "p"@[0]);
                }
                assert(iv matches Some(i) ==> i != ie);
                assert(ip matches Some(i) ==> i != ie);
                assert(iv matches Some(i) ==> ip matches Some(k) ==> i != k);
                let e = match take_field(&mut fs, ie) {
                    Json::Str(s) => s,
                    _ => { return bad; },
                };
                assert(fs@.len() == fs0.len());
                let ghost fs1 = fs@;
                let v = match iv {
                    None => None,
                    Some(i) => match take_field(&mut fs, i) {
                        Json::Null => None,
                        Json::Str(s) => Some(s),
                        _ => { return bad; },
                    },
                };
                let p = match ip {
                    None => None,
                    Some(i) => match take_field(&mut fs, i) {
                        Json::Null => None,
                        x => Some(x),
                    },
                };
                Ok(SonicMessage { e, v, p })
            },
            _ => bad,
        }
    }

    /// The acknowledgement a peer sends on receipt of a query.
    pub fn ack() -> (r: SonicMessage)
        ensures
            r.e@ == "A"@,
            r.v is None,
            r.p is None,
    {
        SonicMessage { e: "A".to_owned(), v: None, p: None }
    }

    /// The terminal message of a query execution: value `success` and a
    /// `null` payload on success; value `error` and a one-element array
    /// holding the error's text on failure.
    pub fn done<T>(e: Result<T, Error>) -> (r: SonicMessage)
        ensures
            r.e@ == "D"@,
            e is Ok ==> (r.v matches Some(s) && s@ == "success"@),
            e is Ok ==> r.p == Some(Json::Null),
            e is Err ==> (r.v matches Some(s) && s@ == "error"@),
            e is Err ==> (r.p matches Some(Json::Array(items)) && items@.len() == 1
                && (items@[0] matches Json::Str(t) && t@ == e->Err_0.message_spec())),
    {
        match e {
            Ok(_) => SonicMessage { e: "D".to_owned(), v: Some("success".to_owned()), p: Some(Json::Null) },
            Err(err) => {
                let mut items: Vec<Json> = Vec::new();
                items.push(Json::Str(err.message()));
                SonicMessage { e: "D".to_owned(), v: Some("error".to_owned()), p: Some(Json::Array(items)) }
            },
        }
    }
}

impl Query {
    /// Reads the query a message carries. A message that is not tagged `Q`,
    /// has no value or has no object payload fails with a deserialization
    /// error; a payload without `config` fails with a protocol error.
    pub fn from_msg(msg: SonicMessage) -> (r: Result<Query, Error>)
        ensures
            !has_query_shape(msg) <==> (r matches Err(err) && err is SerDe),
            r matches Err(Error::SerDe(m)) ==> m@ == "message cannot be deserialized into a query: event "@
                + msg.e@,
            has_query_shape(msg) && query_of_message(msg) is None <==> (r matches Err(err)
                && err is ProtocolError),
            r is Ok <==> has_query_shape(msg) && query_of_message(msg) is Some,
            r matches Ok(q) ==> query_of_message(msg) == Some(q),
    {
        let ghost m0 = msg;
        let is_q = msg.e == "Q".to_owned();
        match (msg.v, msg.p) {
            (Some(text), Some(Json::Object(mut fs))) if is_q => {
                let ghost fs0 = fs@;
                proof {
                    reveal_strlit("config");
                    reveal_strlit("auth");
                    reveal_strlit("trace_id");
                    lemma_field_index(fs0, "config"@);
                    lemma_field_index(fs0, "auth"@);
                    lemma_field_index(fs0, "trace_id"@);
                }
                let ic = find_field(&fs, &"config".to_owned());
                let ia = find_field(&fs, &"auth".to_owned());
                let it = find_field(&fs, &"trace_id".to_owned());
                let ic = match ic {
                    Some(i) => i,
                    None => {
                        return Err(Error::ProtocolError("missing 'config' in query message payload".to_owned()));
                    },
                };
                assert("config"@ != "auth"@ && "config"@ != "trace_id"@ && "auth"@ != "trace_id"@) by {
                    assert("config"@[0] != "auth"@[0] && "config"@[0] != "trace_id"@[0]
                        && "auth"@[0] != "trace_id"@[0]);
                }
                assert(ia matches Some(i) ==> i != ic);
                assert(it matches Some(i) ==> i != ic);
                assert(ia matches Some(i) ==> it matches Some(k) ==> i != k);
                let config = take_field(&mut fs, ic);
                let auth = match ia {
                    None => None,
                    Some(i) => match take_field(&mut fs, i) {
                        Json::Str(s) => Some(s),
                        _ => None,
                    },
                };
                let trace_id = match it {
                    None => None,
                    Some(i) => match take_field(&mut fs, i) {
                        Json::Str(s) => Some(s),
                        _ => None,
                    },
                };
                Ok(Query { id: None, query: text, trace_id, auth, config })
            },
            _ => {
                let mut m = "message cannot be deserialized into a query: event ".to_owned();
                m.append(msg.e.as_str());
                Err(Error::SerDe(m))
            },
        }
    }

    /// The message that carries this query: tag `Q`, the query text as value,
    /// and a payload object holding `auth`, `config` and `trace_id`, with
    /// `null` for a missing token or trace id. The `id` is not sent.
    pub fn into_msg(self) -> (r: SonicMessage)
        ensures
            is_message_of(self, r),
    {
        let mut fs: Vec<(String, Json)> = Vec::new();
        fs.push((
            "auth".to_owned(),
            match self.auth {
                Some(s) => Json::Str(s),
                None => Json::Null,
            },
        ));
        fs.push(("config".to_owned(), self.config));
        fs.push((
            "trace_id".to_owned(),
            match self.trace_id {
                Some(s) => Json::Str(s),
                None => Json::Null,
            },
        ));
        SonicMessage { e: "Q".to_owned(), v: Some(self.query), p: Some(Json::Object(fs)) }
    }

    /// The JSON form of the message that carries this query.
    pub fn into_json(self) -> (r: Json)
        ensures
            exists|m: SonicMessage| is_message_of(self, m) && is_json_of(m, r),
    {
        let ghost q = self;
        let m = self.into_msg();
        let ghost gm = m;
        let r = m.into_json();
        assert(is_message_of(q, gm) && is_json_of(gm, r));
        r
    }
}

/// A message read back from its JSON form is the message itself, provided it
/// does not carry a `null` payload: `null` and an absent payload have the same
/// JSON form, which reads back as no payload.
pub proof fn lemma_json_round_trip(m: SonicMessage, j: Json)
    requires
        is_json_of(m, j),
        m.p != Some(Json::Null),
    ensures
        message_of_json(j) == Some(m),
{
    reveal_strlit("e");
    reveal_strlit("v");
    reveal_strlit("p");
    let fs = j->Object_0@;
    assert(field(fs, "e"@) == Some(fs[0].1));
    assert("v"@ != "e"@ && "p"@ != "e"@ && "p"@ != "v"@) by {
        assert("v"@[0] != "e"@[0] && "p"@[0] != "e"@[0] && "p"@[0] != "v"@[0]);
    }
    assert(fs.drop_first()[0] == fs[1]);
    assert(fs.drop_first().drop_first()[0] == fs[2]);
    assert(field(fs.drop_first(), "v"@) == Some(fs[1].1));
    assert(field(fs, "v"@) == Some(fs[1].1));
    assert(field(fs.drop_first().drop_first(), "p"@) == Some(fs[2].1));
    assert(field(fs.drop_first(), "p"@) == Some(fs[2].1));
    assert(field(fs, "p"@) == Some(fs[2].1));
}

/// A query read back from the message that carries it is the query itself,
/// with no local identifier.
pub proof fn lemma_query_round_trip(q: Query, m: SonicMessage)
    requires
        is_message_of(q, m),
    ensures
        has_query_shape(m),
        query_of_message(m) == Some(Query { id: None, ..q }),
{
    reveal_strlit("auth");
    reveal_strlit("config");
    reveal_strlit("trace_id");
    let fs = m.p->Some_0->Object_0@;
    assert("config"@ != "auth"@ && "config"@ != "trace_id"@ && "auth"@ != "trace_id"@) by {
        assert("config"@[0] != "auth"@[0] && "config"@[0] != "trace_id"@[0]
            && "auth"@[0] != "trace_id"@[0]);
    }
    assert(fs.drop_first()[0] == fs[1]);
    assert(fs.drop_first().drop_first()[0] == fs[2]);
    assert(field(fs, "auth"@) == Some(fs[0].1));
    assert(field(fs.drop_first(), "config"@) == Some(fs[1].1));
    assert(field(fs, "config"@) == Some(fs[1].1));
    assert(field(fs.drop_first().drop_first(), "trace_id"@) == Some(fs[2].1));
    assert(field(fs.drop_first(), "trace_id"@) == Some(fs[2].1));
    assert(field(fs, "trace_id"@) == Some(fs[2].1));
}

} // verus!
