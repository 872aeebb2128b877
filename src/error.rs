use vstd::prelude::*;

verus! {

/// Declared so that database failures can be carried inside `HttpError`.
#[verifier::external_type_specification]
#[verifier::external_body]
pub struct ExSqlxError(sqlx::Error);

/// Declared so that internal failures can be carried inside `HttpError`.
#[verifier::external_type_specification]
#[verifier::external_body]
pub struct ExAnyhowError(anyhow::Error);

/// The closed set of failures that a request can end in.
#[derive(Debug)]
pub enum HttpError {
    /// `401 Unauthorized`, with a bearer challenge.
    Unauthorized,
    /// `403 Forbidden`.
    Forbidden,
    /// `404 Not Found`.
    NotFound,
    /// `422 Unprocessable Entity`: each field with its messages, in the order given.
    UnprocessableEntity { errors: Vec<(String, Vec<String>)> },
    /// `500`; the database error is logged, never shown to the client.
    Sqlx(sqlx::Error),
    /// `500`; the cause is logged, never shown to the client.
    Anyhow(anyhow::Error),
}

/// Field errors name each field at most once, each with at least one message.
pub open spec fn field_errors_wf(g: Seq<(String, Vec<String>)>) -> bool {
    &&& forall|i: int, j: int| 0 <= i < g.len() && 0 <= j < g.len() && i != j ==> #[trigger] g[i].0@ != #[trigger] g[j].0@
    &&& forall|i: int| 0 <= i < g.len() ==> #[trigger] g[i].1@.len() > 0
}

impl HttpError {
    /// Only field errors have a shape to keep.
    pub open spec fn wf(&self) -> bool {
        match self {
            HttpError::UnprocessableEntity { errors } => field_errors_wf(errors@),
            _ => true,
        }
    }
}

/// A database error becomes a `500` that keeps it for the log, so that `?`
/// converts it.
impl From<sqlx::Error> for HttpError {
    fn from(e: sqlx::Error) -> (r: HttpError)
        ensures
            r == HttpError::Sqlx(e),
    {
        HttpError::Sqlx(e)
    }
}

impl vstd::std_specs::convert::FromSpecImpl<sqlx::Error> for HttpError {
    open spec fn obeys_from_spec() -> bool {
        true
    }

    open spec fn from_spec(e: sqlx::Error) -> HttpError {
        HttpError::Sqlx(e)
    }
}

/// An internal failure becomes a `500` that keeps its cause for the log, so
/// that `?` converts it.
impl From<anyhow::Error> for HttpError {
    fn from(e: anyhow::Error) -> (r: HttpError)
        ensures
            r == HttpError::Anyhow(e),
    {
        HttpError::Anyhow(e)
    }
}

impl vstd::std_specs::convert::FromSpecImpl<anyhow::Error> for HttpError {
    open spec fn obeys_from_spec() -> bool {
        true
    }

    open spec fn from_spec(e: anyhow::Error) -> HttpError {
        HttpError::Anyhow(e)
    }
}

/// The status code of each failure.
pub open spec fn status_of(e: &HttpError) -> u16 {
    match e {
        HttpError::Unauthorized => 401,
        HttpError::Forbidden => 403,
        HttpError::NotFound => 404,
        HttpError::UnprocessableEntity { .. } => 422,
        HttpError::Sqlx(_) => 500,
        HttpError::Anyhow(_) => 500,
    }
}

impl HttpError {
    /// The HTTP status code that this failure is answered with.
    pub fn status_code(&self) -> (r: u16)
        ensures
            r == status_of(self),
    {
        match self {
            HttpError::Unauthorized => 401,
            HttpError::Forbidden => 403,
            HttpError::NotFound => 404,
            HttpError::UnprocessableEntity { .. } => 422,
            HttpError::Sqlx(_) | HttpError::Anyhow(_) => 500,
        }
    }

    /// Field errors from `(field, message)` pairs: each field once, in order of
    /// first appearance, with its messages in the order they were given.
    pub fn unprocessable_entity(errors: Vec<(String, String)>) -> (r: HttpError)
        ensures
            match r {
                HttpError::UnprocessableEntity { errors: g } => groups_view(g@) == grouped(pairs_view(errors@)),
                _ => false,
            },
            r.wf(),
    {
        let ghost pairs = pairs_view(errors@);
        let mut map: Vec<(String, Vec<String>)> = Vec::new();
        let mut i: usize = 0;
        while i < errors.len()
            invariant
                i <= errors.len(),
                pairs == pairs_view(errors@),
                groups_view(map@) == grouped(pairs.take(i as int)),
            decreases errors.len() - i,
        {
            let key = errors[i].0.clone();
            let msg = errors[i].1.clone();
            let ghost before = pairs.take(i as int);
            let ghost after = pairs.take(i as int + 1);
            proof {
                assert(after.drop_last() =~= before);
                assert(after.last() == (key@, msg@));
                lemma_fields_and_messages(before, key@);
                lemma_fields_and_messages(after, key@);
            }
            let mut j: usize = 0;
            let mut found = false;
            while j < map.len()
                invariant
                    j <= map.len(),
                    groups_view(map@) == grouped(before),
                    found ==> j < map.len() && map@[j as int].0@ == key@,
                    !found ==> forall|t: int| 0 <= t < j ==> map@[t].0@ != key@,
                ensures
                    found ==> j < map.len() && map@[j as int].0@ == key@,
                    !found ==> forall|t: int| 0 <= t < map.len() ==> map@[t].0@ != key@,
                decreases map.len() - j,
            {
                if map[j].0 == key {
                    found = true;
                    break;
                }
                j = j + 1;
            }
            proof {
                assert(groups_view(map@).len() == fields_in_order(before).len());
                assert forall|t: int| 0 <= t < map@.len() implies #[trigger] map@[t].0@ == fields_in_order(before)[t] by {
                    assert(groups_view(map@)[t] == grouped(before)[t]);
                }
            }
            if found {
                let ghost old_map = map@;
                map[j].1.push(msg);
                proof {
                    assert(fields_in_order(before).contains(key@)) by {
                        assert(fields_in_order(before)[j as int] == key@);
                    }
                    assert(fields_in_order(after) == fields_in_order(before));
                    assert forall|t: int| 0 <= t < map@.len() implies #[trigger] groups_view(map@)[t] == grouped(after)[t] by {
                        assert(groups_view(old_map)[t] == grouped(before)[t]);
                        if t != j {
                            assert(map@[t] == old_map[t]);
                            assert(fields_in_order(before)[t] != fields_in_order(before)[j as int]);
                        } else {
                            assert(map@[t].1@ == old_map[t].1@.push(msg));
                            assert(map@[t].1@.map_values(|m: String| m@) =~= old_map[t].1@.map_values(|m: String| m@).push(msg@));
                        }
                    }
                    assert(groups_view(map@) =~= grouped(after));
                }
            } else {
                let ghost old_map = map@;
                let mut msgs: Vec<String> = Vec::new();
                msgs.push(msg);
                map.push((key, msgs));
                proof {
                    assert(!fields_in_order(before).contains(key@)) by {
                        if fields_in_order(before).contains(key@) {
                            let t = choose|t: int| 0 <= t < fields_in_order(before).len() && fields_in_order(before)[t] == key@;
                            assert(map@[t].0@ == key@);
                        }
                    }
                    assert(fields_in_order(after) == fields_in_order(before).push(key@));
                    assert(messages_for(before, key@) =~= seq![]);
                    assert forall|t: int| 0 <= t < map@.len() implies #[trigger] groups_view(map@)[t] == grouped(after)[t] by {
                        if t < old_map.len() {
                            assert(map@[t] == old_map[t]);
                            assert(groups_view(old_map)[t] == grouped(before)[t]);
                            assert(fields_in_order(before)[t] != key@) by {
                                assert(fields_in_order(before).contains(fields_in_order(before)[t]));
                            }
                        } else {
                            assert(map@[t].1@.map_values(|m: String| m@) =~= seq![msg@]);
                        }
                    }
                    assert(groups_view(map@) =~= grouped(after));
                }
            }
            i = i + 1;
        }
        proof {
            assert(pairs.take(errors.len() as int) =~= pairs);
            lemma_grouping_keeps_input_order(pairs);
            assert forall|a: int, b: int| 0 <= a < map@.len() && 0 <= b < map@.len() && a != b implies
                #[trigger] map@[a].0@ != #[trigger] map@[b].0@ by {
                assert(groups_view(map@)[a] == grouped(pairs)[a]);
                assert(groups_view(map@)[b] == grouped(pairs)[b]);
            }
            assert forall|a: int| 0 <= a < map@.len() implies #[trigger] map@[a].1@.len() > 0 by {
                assert(groups_view(map@)[a] == grouped(pairs)[a]);
                assert(grouped(pairs)[a].1.len() > 0);
            }
        }
        HttpError::UnprocessableEntity { errors: map }
    }

    /// The message shown to the client.
    pub fn message(&self) -> (r: String)
        ensures
            r@ == message_of(self),
    {
        match self {
            HttpError::Unauthorized => "authentication required".to_owned(),
            HttpError::Forbidden => "user may not perform that action".to_owned(),
            HttpError::NotFound => "request path not found".to_owned(),
            HttpError::UnprocessableEntity { .. } => "error in the request body".to_owned(),
            HttpError::Sqlx(_) => "an error occurred with the database".to_owned(),
            HttpError::Anyhow(_) => "an internal server error occurred".to_owned(),
        }
    }

    /// The status, challenge and body that this failure is answered with. The
    /// field errors go out as they are; every other failure sends its generic
    /// message, so a database error or an internal cause never reaches the client.
    pub fn into_response(self) -> (r: ErrorResponse)
        ensures
            r.status == status_of(&self),
            r.bearer_challenge == (self is Unauthorized),
            match self {
                HttpError::UnprocessableEntity { errors } => r.body == ResponseBody::FieldErrors(errors),
                _ => is_text(r.body, message_of(&self)),
            },
    {
        let status = self.status_code();
        let bearer_challenge = match self {
            HttpError::Unauthorized => true,
            _ => false,
        };
        match self {
            HttpError::UnprocessableEntity { errors } => ErrorResponse {
                status,
                bearer_challenge,
                body: ResponseBody::FieldErrors(errors),
            },
            _ => {
                let text = self.message();
                ErrorResponse { status, bearer_challenge, body: ResponseBody::Text(text) }
            },
        }
    }
}

/// A list of `(field, message)` pairs as sequences of characters.
pub open spec fn pairs_view(v: Seq<(String, String)>) -> Seq<(Seq<char>, Seq<char>)> {
    v.map_values(|p: (String, String)| (p.0@, p.1@))
}

/// Field errors as sequences of characters.
pub open spec fn groups_view(g: Seq<(String, Vec<String>)>) -> Seq<(Seq<char>, Seq<Seq<char>>)> {
    g.map_values(|e: (String, Vec<String>)| (e.0@, e.1@.map_values(|m: String| m@)))
}

/// The messages given for field `k`, in input order.
pub open spec fn messages_for(pairs: Seq<(Seq<char>, Seq<char>)>, k: Seq<char>) -> Seq<Seq<char>>
    decreases pairs.len(),
{
    if pairs.len() == 0 {
        seq![]
    } else {
        let rest = messages_for(pairs.drop_last(), k);
        if pairs.last().0 == k {
            rest.push(pairs.last().1)
        } else {
            rest
        }
    }
}

/// The distinct fields named in `pairs`, in order of first appearance.
pub open spec fn fields_in_order(pairs: Seq<(Seq<char>, Seq<char>)>) -> Seq<Seq<char>>
    decreases pairs.len(),
{
    if pairs.len() == 0 {
        seq![]
    } else {
        let rest = fields_in_order(pairs.drop_last());
        if rest.contains(pairs.last().0) {
            rest
        } else {
            rest.push(pairs.last().0)
        }
    }
}

/// Each field once, in order of first appearance, with all of its messages in input order.
pub open spec fn grouped(pairs: Seq<(Seq<char>, Seq<char>)>) -> Seq<(Seq<char>, Seq<Seq<char>>)> {
    fields_in_order(pairs).map_values(|k: Seq<char>| (k, messages_for(pairs, k)))
}

/// A field that is not among the fields in order has no messages; one that is has some.
pub proof fn lemma_fields_and_messages(pairs: Seq<(Seq<char>, Seq<char>)>, k: Seq<char>)
    ensures
        fields_in_order(pairs).contains(k) <==> messages_for(pairs, k).len() > 0,
        fields_in_order(pairs).no_duplicates(),
    decreases pairs.len(),
{
    if pairs.len() > 0 {
        lemma_fields_and_messages(pairs.drop_last(), k);
        lemma_fields_and_messages(pairs.drop_last(), pairs.last().0);
        let rest = fields_in_order(pairs.drop_last());
        if !rest.contains(pairs.last().0) {
            assert forall|i: int, j: int|
                0 <= i < rest.len() + 1 && 0 <= j < rest.len() + 1 && i != j implies
                    #[trigger] rest.push(pairs.last().0)[i] != #[trigger] rest.push(pairs.last().0)[j] by {
                if i == rest.len() {
                    assert(rest.contains(rest[j]));
                }
                if j == rest.len() {
                    assert(rest.contains(rest[i]));
                }
            }
            if k != pairs.last().0 {
                if rest.push(pairs.last().0).contains(k) {
                    let i = choose|i: int| 0 <= i < rest.len() + 1 && rest.push(pairs.last().0)[i] == k;
                    assert(rest[i] == k);
                }
                if rest.contains(k) {
                    let i = choose|i: int| 0 <= i < rest.len() && rest[i] == k;
                    assert(rest.push(pairs.last().0)[i] == k);
                }
            }
            assert(rest.push(pairs.last().0)[rest.len() as int] == pairs.last().0);
        }
    }
}

/// Field errors name each field once, with every message given for it in the
/// order of the input, and name exactly the fields that have messages: given
/// `[("a", "x"), ("a", "y")]`, field `a` gets `["x", "y"]`.
pub proof fn lemma_grouping_keeps_input_order(pairs: Seq<(Seq<char>, Seq<char>)>)
    ensures
        fields_in_order(pairs).no_duplicates(),
        forall|i: int| 0 <= i < grouped(pairs).len() ==> {
            &&& #[trigger] grouped(pairs)[i].1 == messages_for(pairs, grouped(pairs)[i].0)
            &&& grouped(pairs)[i].1.len() > 0
        },
        forall|k: Seq<char>| #[trigger] fields_in_order(pairs).contains(k) <==> messages_for(pairs, k).len() > 0,
{
    lemma_fields_and_messages(pairs, seq![]);
    assert forall|k: Seq<char>| #[trigger] fields_in_order(pairs).contains(k) <==> messages_for(pairs, k).len() > 0 by {
        lemma_fields_and_messages(pairs, k);
    }
    assert forall|i: int| 0 <= i < grouped(pairs).len() implies {
        &&& #[trigger] grouped(pairs)[i].1 == messages_for(pairs, grouped(pairs)[i].0)
        &&& grouped(pairs)[i].1.len() > 0
    } by {
        let k = fields_in_order(pairs)[i];
        lemma_fields_and_messages(pairs, k);
        assert(fields_in_order(pairs).contains(k));
    }
}

/// A reordering that keeps the relative order of pairs with equal fields
/// changes at most the order of the fields: two inputs that give every field
/// the same messages in the same order name the same fields, each with the
/// same list.
pub proof fn lemma_grouping_ignores_interleaving(
    a: Seq<(Seq<char>, Seq<char>)>,
    b: Seq<(Seq<char>, Seq<char>)>,
)
    requires
        forall|k: Seq<char>| messages_for(a, k) == messages_for(b, k),
    ensures
        forall|k: Seq<char>| #[trigger] fields_in_order(a).contains(k) <==> fields_in_order(b).contains(k),
        forall|i: int, j: int|
            0 <= i < grouped(a).len() && 0 <= j < grouped(b).len() && grouped(a)[i].0 == grouped(b)[j].0
                ==> #[trigger] grouped(a)[i].1 == #[trigger] grouped(b)[j].1,
{
    lemma_grouping_keeps_input_order(a);
    lemma_grouping_keeps_input_order(b);
    assert forall|k: Seq<char>| #[trigger] fields_in_order(a).contains(k) <==> fields_in_order(b).contains(k) by {
        assert(messages_for(a, k) == messages_for(b, k));
    }
    assert forall|i: int, j: int|
        0 <= i < grouped(a).len() && 0 <= j < grouped(b).len() && grouped(a)[i].0 == grouped(b)[j].0
            implies #[trigger] grouped(a)[i].1 == #[trigger] grouped(b)[j].1 by {
        assert(messages_for(a, grouped(a)[i].0) == messages_for(b, grouped(a)[i].0));
    }
}

proof fn lemma_messages_count(a: Seq<(Seq<char>, Seq<char>)>, k: Seq<char>, m: Seq<char>)
    ensures
        messages_for(a, k).to_multiset().count(m) == a.to_multiset().count((k, m)),
    decreases a.len(),
{
    if a.len() == 0 {
        a.to_multiset_ensures();
        messages_for(a, k).to_multiset_ensures();
    } else {
        let rest = a.drop_last();
        lemma_messages_count(rest, k, m);
        assert(a =~= rest.push(a.last()));
        rest.to_multiset_ensures();
        messages_for(rest, k).to_multiset_ensures();
    }
}

/// Grouping any permutation of the same pairs names the same fields, and gives
/// each field the same messages, counted with multiplicity; each list stays in
/// the order of its own input.
pub proof fn lemma_grouping_of_permutation(a: Seq<(Seq<char>, Seq<char>)>, b: Seq<(Seq<char>, Seq<char>)>)
    requires
        a.to_multiset() == b.to_multiset(),
    ensures
        forall|k: Seq<char>| #[trigger] fields_in_order(a).contains(k) <==> fields_in_order(b).contains(k),
        forall|k: Seq<char>| #[trigger] messages_for(a, k).to_multiset() == messages_for(b, k).to_multiset(),
{
    assert forall|k: Seq<char>| #[trigger] messages_for(a, k).to_multiset() == messages_for(b, k).to_multiset() by {
        assert forall|m: Seq<char>| messages_for(a, k).to_multiset().count(m) == messages_for(b, k).to_multiset().count(m) by {
            lemma_messages_count(a, k, m);
            lemma_messages_count(b, k, m);
        }
        assert(messages_for(a, k).to_multiset() =~= messages_for(b, k).to_multiset());
    }
    assert forall|k: Seq<char>| #[trigger] fields_in_order(a).contains(k) <==> fields_in_order(b).contains(k) by {
        lemma_fields_and_messages(a, k);
        lemma_fields_and_messages(b, k);
        messages_for(a, k).to_multiset_ensures();
        messages_for(b, k).to_multiset_ensures();
        assert(messages_for(a, k).to_multiset() == messages_for(b, k).to_multiset());
    }
}

/// The text that a failure shows the client; a cause is never part of it.
pub open spec fn message_of(e: &HttpError) -> Seq<char> {
    match e {
        HttpError::Unauthorized => "authentication required"@,
        HttpError::Forbidden => "user may not perform that action"@,
        HttpError::NotFound => "request path not found"@,
        HttpError::UnprocessableEntity { .. } => "error in the request body"@,
        HttpError::Sqlx(_) => "an error occurred with the database"@,
        HttpError::Anyhow(_) => "an internal server error occurred"@,
    }
}

/// What is sent back for a failure.
pub enum ResponseBody {
    /// A plain-text message.
    Text(String),
    /// A JSON object `{"errors": {field: [message, ...]}}`.
    FieldErrors(Vec<(String, Vec<String>)>),
}

/// A failure as the client sees it.
pub struct ErrorResponse {
    pub status: u16,
    /// Whether a `WWW-Authenticate: Bearer` header goes with it.
    pub bearer_challenge: bool,
    pub body: ResponseBody,
}

/// The name of the constraint that a database error reports, if it reports one.
pub uninterp spec fn constraint_of(e: sqlx::Error) -> Option<Seq<char>>;

/// Relies on sqlx's `Error::as_database_error` and `DatabaseError::constraint`:
/// the name of the constraint that a database error reports, read from the
/// error value alone.
#[verifier::external_body]
fn violated_constraint(e: &sqlx::Error) -> (r: Option<String>)
    ensures
        match r {
            Some(c) => constraint_of(*e) == Some(c@),
            None => constraint_of(*e) is None,
        },
{
    e.as_database_error().and_then(|d| d.constraint()).map(|c| c.to_owned())
}

/// Whether `err` is a database error that reported the constraint `name`,
/// given `constraint`, the constraint that its database error reported.
pub open spec fn names_constraint(err: HttpError, constraint: Option<String>, name: Seq<char>) -> bool {
    &&& err is Sqlx
    &&& constraint is Some
    &&& constraint->Some_0@ == name
}

/// Turns a database error that reported the constraint `name` into the failure
/// that `f` makes of it; any other failure comes back unchanged. `constraint` is
/// the constraint that the database error in `err` reported, if any.
pub fn remap_constraint<F: FnOnce(sqlx::Error) -> HttpError>(
    err: HttpError,
    constraint: Option<String>,
    name: &str,
    f: F,
) -> (r: HttpError)
    requires
        forall|e: sqlx::Error| f.requires((e,)),
    ensures
        names_constraint(err, constraint, name@) ==> f.ensures((err->Sqlx_0,), r),
        !names_constraint(err, constraint, name@) ==> r == err,
{
    let matches = match &constraint {
        Some(c) => c.eq(&name.to_owned()),
        None => false,
    };
    match err {
        HttpError::Sqlx(e) => {
            if matches {
                f(e)
            } else {
                HttpError::Sqlx(e)
            }
        },
        other => other,
    }
}

/// Recovering domain meaning from a database failure.
pub trait ResultExt<T>: Sized {
    /// If `self` holds a database error that reported the constraint `name`,
    /// `f` turns it into another failure; anything else passes through unchanged.
    fn on_constraint<F: FnOnce(sqlx::Error) -> HttpError>(self, name: &str, f: F) -> Result<T, HttpError>
        requires
            forall|e: sqlx::Error| f.requires((e,)),
    ;
}

impl<T> ResultExt<T> for Result<T, HttpError> {
    fn on_constraint<F: FnOnce(sqlx::Error) -> HttpError>(self, name: &str, f: F) -> (r: Result<T, HttpError>)
        ensures
            self is Ok ==> r == self,
            self matches Err(e) && !(e is Sqlx) ==> r == self,
            (self matches Err(HttpError::Sqlx(e)) && constraint_of(e) == Some(name@)) ==> (r matches Err(x) && f.ensures((self->Err_0->Sqlx_0,), x)),
            (self matches Err(HttpError::Sqlx(e)) && constraint_of(e) != Some(name@)) ==> r == self,
    {
        match self {
            Ok(v) => Ok(v),
            Err(err) => {
                let constraint = match &err {
                    HttpError::Sqlx(e) => violated_constraint(e),
                    _ => None,
                };
                Err(remap_constraint(err, constraint, name, f))
            },
        }
    }
}

/// Whether a body is the plain-text message `s`.
pub open spec fn is_text(b: ResponseBody, s: Seq<char>) -> bool {
    match b {
        ResponseBody::Text(t) => t@ == s,
        _ => false,
    }
}

} // verus!
