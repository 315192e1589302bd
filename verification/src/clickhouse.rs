//! The query client: what is sent to the database, how a reply is read,
//! and the cache that answers a repeated query text without a second
//! request.

use crate::text::{chars_of, clone_texts, find_char, first_of, texts};
use crate::text_map::TextMap;
use vstd::prelude::*;
use vstd::string::*;

verus! {

/// One row of a tabular result: its columns as text.
#[derive(Debug, PartialEq, Eq)]
pub struct ResultRow {
    pub cols: Vec<String>,
}

impl ResultRow {
    /// The columns as texts.
    pub open spec fn view(&self) -> Seq<Seq<char>> {
        texts(self.cols@)
    }

    /// The number of columns.
    pub fn n_cols(&self) -> (n: usize)
        ensures
            n == self@.len(),
    {
        self.cols.len()
    }
}

impl Clone for ResultRow {
    fn clone(&self) -> (out: Self)
        ensures
            out@ == self@,
    {
        ResultRow { cols: clone_texts(&self.cols) }
    }
}

/// The rows as texts.
pub open spec fn rows_view(rows: Seq<ResultRow>) -> Seq<Seq<Seq<char>>> {
    Seq::new(rows.len(), |i: int| rows[i]@)
}

/// A copy of `rows`.
pub fn clone_rows(rows: &Vec<ResultRow>) -> (out: Vec<ResultRow>)
    ensures
        rows_view(out@) == rows_view(rows@),
{
    let mut out: Vec<ResultRow> = Vec::new();
    let mut i: usize = 0;
    while i < rows.len()
        invariant
            i <= rows.len(),
            out.len() == i,
            rows_view(out@) == rows_view(rows@).take(i as int),
        decreases rows.len() - i,
    {
        let ghost before = out@;
        out.push(rows[i].clone());
        assert forall|j: int| 0 <= j < i + 1 implies rows_view(out@)[j] == rows_view(rows@)[j] by {
            if j < i {
                assert(rows_view(before)[j] == rows_view(rows@).take(i as int)[j]);
            }
        }
        assert(rows_view(out@) =~= rows_view(rows@).take(i + 1));
        i += 1;
    }
    assert(rows_view(rows@).take(rows.len() as int) =~= rows_view(rows@));
    out
}

/// The fields of `s[from..to]`: the stretches between tabs. A text without
/// a tab is one field, and so is the empty text.
pub open spec fn fields(s: Seq<char>, from: int, to: int) -> Seq<Seq<char>>
    decreases to - from,
{
    let stop = first_of(s, from, to, '\t');
    if from <= stop < to {
        seq![s.subrange(from, stop)] + fields(s, stop + 1, to)
    } else {
        seq![s.subrange(from, to)]
    }
}

/// Where the line that starts at `from` and runs up to the line feed at
/// `stop` (or to the end of the text, where `stop` is `s.len()`) ends: a
/// carriage return just before the line feed is not part of the line.
pub open spec fn line_end(s: Seq<char>, from: int, stop: int) -> int {
    if from < stop < s.len() && s[stop - 1] == '\r' {
        stop - 1
    } else {
        stop
    }
}

/// The rows of the tabular text `s[from..]`: one for each line, made of the
/// line's fields. Lines end at a line feed; the last line need not have one,
/// and nothing follows a final line feed.
pub open spec fn rows(s: Seq<char>, from: int) -> Seq<Seq<Seq<char>>>
    decreases s.len() - from,
{
    if from < 0 || from >= s.len() {
        Seq::empty()
    } else {
        let stop = first_of(s, from, s.len() as int, '\n');
        let row = fields(s, from, line_end(s, from, stop));
        if from <= stop < s.len() {
            seq![row] + rows(s, stop + 1)
        } else {
            seq![row]
        }
    }
}

/// Whether every row has as many columns as the first.
pub open spec fn consistent(rows: Seq<Seq<Seq<char>>>) -> bool {
    forall|i: int| 0 <= i < rows.len() ==> #[trigger] rows[i].len() == rows[0].len()
}

fn parse_fields(text: &str, chars: &Vec<char>, from: usize, to: usize) -> (out: ResultRow)
    requires
        chars@ == text@,
        from <= to <= chars.len(),
    ensures
        out@ == fields(text@, from as int, to as int),
{
    let mut cols: Vec<String> = Vec::new();
    let mut at: usize = from;
    loop
        invariant_except_break
            from <= at <= to <= chars.len(),
            chars@ == text@,
            texts(cols@) + fields(text@, at as int, to as int) == fields(
                text@,
                from as int,
                to as int,
            ),
        ensures
            texts(cols@) == fields(text@, from as int, to as int),
        decreases to - at,
    {
        let stop = find_char(chars, at, to, '\t');
        let ghost before = texts(cols@);
        cols.push(String::from_str(text.substring_char(at, stop)));
        assert(texts(cols@) =~= before + seq![text@.subrange(at as int, stop as int)]);
        if stop < to {
            assert((before + seq![text@.subrange(at as int, stop as int)]) + fields(
                text@,
                stop + 1,
                to as int,
            ) =~= before + (seq![text@.subrange(at as int, stop as int)] + fields(
                text@,
                stop + 1,
                to as int,
            )));
            at = stop + 1;
        } else {
            break;
        }
    }
    ResultRow { cols }
}

/// Reads a tabular reply: one row for each line, one column for each
/// tab-separated field.
pub fn parse_rows(body: &str) -> (out: Vec<ResultRow>)
    ensures
        rows_view(out@) == rows(body@, 0),
{
    let chars = chars_of(body);
    let n = chars.len();
    let mut out: Vec<ResultRow> = Vec::new();
    let mut at: usize = 0;
    while at < n
        invariant
            at <= n,
            n == chars.len(),
            chars@ == body@,
            rows_view(out@) + rows(body@, at as int) == rows(body@, 0),
        decreases n - at,
    {
        let stop = find_char(&chars, at, n, '\n');
        let end = if at < stop && stop < n && chars[stop - 1] == '\r' {
            stop - 1
        } else {
            stop
        };
        let ghost before = rows_view(out@);
        let row = parse_fields(body, &chars, at, end);
        out.push(row);
        proof {
            let r = fields(body@, at as int, end as int);
            assert(rows_view(out@) =~= before + seq![r]);
            if stop < n {
                assert((before + seq![r]) + rows(body@, stop + 1) =~= before + (seq![r] + rows(
                    body@,
                    stop + 1,
                )));
            } else {
                assert(rows(body@, n as int) =~= Seq::empty());
                assert((before + seq![r]) + rows(body@, n as int) =~= before + seq![r]);
            }
        }
        at = if stop < n {
            stop + 1
        } else {
            n
        };
    }
    assert(rows(body@, n as int) =~= Seq::empty());
    assert(rows_view(out@) + rows(body@, n as int) =~= rows_view(out@));
    out
}

/// Whether every row has as many columns as the first.
pub fn same_width(rows: &Vec<ResultRow>) -> (ok: bool)
    ensures
        ok == consistent(rows_view(rows@)),
{
    let mut i: usize = 1;
    while i < rows.len()
        invariant
            1 <= i,
            forall|j: int| 0 <= j < i && j < rows.len() ==> #[trigger] rows_view(rows@)[j].len()
                == rows_view(rows@)[0].len(),
        decreases rows.len() - i,
    {
        if rows[i].n_cols() != rows[0].n_cols() {
            assert(rows_view(rows@)[i as int].len() != rows_view(rows@)[0].len());
            return false;
        }
        i += 1;
    }
    true
}

/// Where the database listens, and who asks.
#[derive(Debug)]
pub struct Flags {
    /// URL of the database's HTTP endpoint.
    pub url: String,
    /// User name.
    pub username: String,
    /// Password, if the user has one.
    pub password: Option<String>,
}

/// What is to be sent to the database: the query text as the request body,
/// and the response format to ask for.
#[derive(Debug)]
pub struct Request {
    /// The query text.
    pub query: String,
    /// The value of the `default_format` query parameter.
    pub default_format: String,
    /// Whether the response is only to be read to its end and counted, not
    /// kept.
    pub count_only: bool,
}

/// A `Request` with its strings as texts.
pub struct RequestModel {
    pub query: Seq<char>,
    pub default_format: Seq<char>,
    pub count_only: bool,
}

impl Request {
    /// The request with its strings as texts.
    pub open spec fn view(&self) -> RequestModel {
        RequestModel {
            query: self.query@,
            default_format: self.default_format@,
            count_only: self.count_only,
        }
    }
}

/// The request that runs `query` in the native format and counts the
/// response.
pub open spec fn native_request(query: Seq<char>) -> RequestModel {
    RequestModel { query, default_format: native_format(), count_only: true }
}

/// The request that asks for the rows of `query` in the tabular format.
pub open spec fn tabular_request(query: Seq<char>) -> RequestModel {
    RequestModel { query, default_format: tabular_format(), count_only: false }
}

/// What came back for a request.
#[derive(Debug)]
pub enum Reply {
    /// The server answered.
    Answer {
        /// The HTTP status code.
        status: u16,
        /// The status as it is shown to a reader, code and reason.
        status_text: String,
        /// The response body as text; empty where it was only counted.
        body: String,
        /// The number of bytes of the response body.
        bytes: usize,
    },
    /// The request failed before an answer came.
    Failed {
        /// What the transport reported.
        detail: String,
    },
}

/// Why a query gave no result.
#[derive(Debug)]
pub enum QueryError {
    /// The server answered with a status that is no success.
    Status { status: String, body: String },
    /// The transport failed.
    Transport { detail: String },
    /// The rows of a tabular result differ in their number of columns.
    InconsistentColumns,
}

/// A `QueryError` with its strings as texts.
pub enum QueryFault {
    Status { status: Seq<char>, body: Seq<char> },
    Transport { detail: Seq<char> },
    InconsistentColumns,
}

/// A query fault in words: the status and the response body, the
/// transport's report, or what is wrong with the rows.
pub open spec fn fault_message(fault: QueryFault) -> Seq<char> {
    match fault {
        QueryFault::Status { status, body } => status + ": "@ + body,
        QueryFault::Transport { detail } => detail,
        QueryFault::InconsistentColumns => "Inconsistent column sizes"@,
    }
}

impl QueryError {
    /// The error in words.
    pub fn message(&self) -> (out: String)
        ensures
            out@ == fault_message(self@),
    {
        match self {
            QueryError::Status { status, body } => {
                let mut out = status.clone();
                out.append(": ");
                out.append(body.as_str());
                out
            },
            QueryError::Transport { detail } => detail.clone(),
            QueryError::InconsistentColumns => String::from_str("Inconsistent column sizes"),
        }
    }

    /// The error with its strings as texts.
    pub open spec fn view(&self) -> QueryFault {
        match *self {
            QueryError::Status { status, body } => QueryFault::Status {
                status: status@,
                body: body@,
            },
            QueryError::Transport { detail } => QueryFault::Transport { detail: detail@ },
            QueryError::InconsistentColumns => QueryFault::InconsistentColumns,
        }
    }
}

/// Whether `status` is an HTTP success status.
pub open spec fn is_success(status: u16) -> bool {
    200 <= status < 300
}

/// Whether `reply` is an answer with a success status.
pub open spec fn accepted(reply: Reply) -> bool {
    reply matches Reply::Answer { status, .. } && is_success(status)
}

/// Why a reply that is not accepted is not: the status with the response
/// body as the detail, or the transport's report.
pub open spec fn refusal(reply: Reply) -> QueryFault {
    match reply {
        Reply::Answer { status_text, body, .. } => QueryFault::Status {
            status: status_text@,
            body: body@,
        },
        Reply::Failed { detail } => QueryFault::Transport { detail: detail@ },
    }
}

/// The body of an answer; empty for a reply that is none.
pub open spec fn body_of(reply: Reply) -> Seq<char> {
    match reply {
        Reply::Answer { body, .. } => body@,
        Reply::Failed { .. } => Seq::empty(),
    }
}

/// The byte count of an answer; zero for a reply that is none.
pub open spec fn bytes_of(reply: Reply) -> usize {
    match reply {
        Reply::Answer { bytes, .. } => bytes,
        Reply::Failed { .. } => 0,
    }
}

/// The rows that a reply to a tabular request gives: those of its body,
/// if it is accepted and all rows have the same number of columns.
pub open spec fn reply_rows(reply: Reply) -> Result<Seq<Seq<Seq<char>>>, QueryFault> {
    if !accepted(reply) {
        Err(refusal(reply))
    } else if !consistent(rows(body_of(reply), 0)) {
        Err(QueryFault::InconsistentColumns)
    } else {
        Ok(rows(body_of(reply), 0))
    }
}

/// The byte count that a reply to a counting request gives.
pub open spec fn reply_bytes(reply: Reply) -> Result<usize, QueryFault> {
    if !accepted(reply) {
        Err(refusal(reply))
    } else {
        Ok(bytes_of(reply))
    }
}

/// What the cache answers for `query`: its rows where caching is on and
/// the text is cached, letter for letter.
pub open spec fn cached(
    cache: Map<Seq<char>, Seq<Seq<Seq<char>>>>,
    query: Seq<char>,
    use_cache: bool,
) -> Option<Seq<Seq<Seq<char>>>> {
    if use_cache && cache.contains_key(query) {
        Some(cache[query])
    } else {
        None
    }
}

/// The cache after `reply` came for `query`: with caching on, the rows of
/// a good reply are stored under the query text, in place of any rows that
/// were there. Nothing else changes, and nothing is ever removed.
pub open spec fn cache_after(
    cache: Map<Seq<char>, Seq<Seq<Seq<char>>>>,
    query: Seq<char>,
    use_cache: bool,
    reply: Reply,
) -> Map<Seq<char>, Seq<Seq<Seq<char>>>> {
    match reply_rows(reply) {
        Ok(found) if use_cache => cache.insert(query, found),
        _ => cache,
    }
}

/// Once a query text has been answered with caching on, asking for it again
/// with caching on needs no request: the cache answers, and with the rows
/// of that reply.
pub proof fn lemma_second_query_is_cached(
    cache: Map<Seq<char>, Seq<Seq<Seq<char>>>>,
    query: Seq<char>,
    reply: Reply,
)
    requires
        reply_rows(reply) is Ok,
    ensures
        cached(cache_after(cache, query, true, reply), query, true) == Some(
            reply_rows(reply)->Ok_0,
        ),
{
}

/// The cache never forgets: a text that it answers, it still answers after
/// any reply for any query was taken in, and with the same rows unless the
/// reply was for that very text.
pub proof fn lemma_cache_keeps(
    cache: Map<Seq<char>, Seq<Seq<Seq<char>>>>,
    earlier: Seq<char>,
    query: Seq<char>,
    use_cache: bool,
    reply: Reply,
)
    requires
        cache.contains_key(earlier),
    ensures
        cache_after(cache, query, use_cache, reply).contains_key(earlier),
        earlier != query ==> cache_after(cache, query, use_cache, reply)[earlier]
            == cache[earlier],
{
}

/// What the cache holds for a text is what a fresh reading of the same
/// reply gives with caching off.
pub proof fn lemma_cached_equals_fresh(
    cache: Map<Seq<char>, Seq<Seq<Seq<char>>>>,
    query: Seq<char>,
    reply: Reply,
)
    requires
        reply_rows(reply) is Ok,
    ensures
        cached(cache_after(cache, query, true, reply), query, true) == Some(
            reply_rows(reply)->Ok_0,
        ),
        cache_after(cache, query, false, reply) == cache,
{
}

/// What `ChClient::query` finds before anything is sent.
#[derive(Debug)]
pub enum Lookup {
    /// The cache answered: the rows, and nothing is to be sent.
    Hit(Vec<ResultRow>),
    /// The request to send; its reply goes to `ChClient::query_reply`.
    Miss(Request),
}

/// The query client: the endpoint, the credentials, and the cache of
/// tabular results by query text.
pub struct ChClient {
    url: String,
    username: String,
    password: Option<String>,
    cache: TextMap<Vec<ResultRow>>,
}

impl ChClient {
    /// The cache: the rows that each cached query text gave.
    pub closed spec fn cache(&self) -> Map<Seq<char>, Seq<Seq<Seq<char>>>> {
        Map::new(
            |query: Seq<char>| self.cache@.contains_key(query),
            |query: Seq<char>| rows_view(self.cache@[query]@),
        )
    }

    /// The endpoint's URL as text.
    pub closed spec fn spec_url(&self) -> Seq<char> {
        self.url@
    }

    /// The user name as text.
    pub closed spec fn spec_username(&self) -> Seq<char> {
        self.username@
    }

    /// The password as text.
    pub closed spec fn spec_password(&self) -> Option<Seq<char>> {
        match self.password {
            Some(p) => Some(p@),
            None => None,
        }
    }

    /// A client for the endpoint that `flags` names, with an empty cache.
    pub fn from_flags(flags: &Flags) -> (out: Self)
        ensures
            out.cache() == Map::<Seq<char>, Seq<Seq<Seq<char>>>>::empty(),
            out.spec_url() == flags.url@,
            out.spec_username() == flags.username@,
            out.spec_password() == match flags.password {
                Some(p) => Some(p@),
                None => None,
            },
    {
        let password = match &flags.password {
            Some(p) => Some(p.clone()),
            None => None,
        };
        let out = ChClient {
            url: flags.url.clone(),
            username: flags.username.clone(),
            password,
            cache: TextMap::new(),
        };
        assert(out.cache() =~= Map::<Seq<char>, Seq<Seq<Seq<char>>>>::empty());
        out
    }

    /// The endpoint's URL.
    pub fn url(&self) -> (out: &String)
        ensures
            out@ == self.spec_url(),
    {
        &self.url
    }

    /// The user name.
    pub fn username(&self) -> (out: &String)
        ensures
            out@ == self.spec_username(),
    {
        &self.username
    }

    /// The password.
    pub fn password(&self) -> (out: &Option<String>)
        ensures
            match *out {
                Some(p) => self.spec_password() == Some(p@),
                None => self.spec_password() is None,
            },
    {
        &self.password
    }

    /// The request that asks for `query` in the format `default_format`,
    /// with the response body kept as text.
    pub fn send_query(&self, query: String, default_format: &str) -> (out: Request)
        ensures
            out.query@ == query@,
            out.default_format@ == default_format@,
            !out.count_only,
    {
        Request { query, default_format: String::from_str(default_format), count_only: false }
    }

    /// Whether `status` is an HTTP success status.
    pub fn accepts(status: u16) -> (out: bool)
        ensures
            out == is_success(status),
    {
        200 <= status && status < 300
    }

    /// Reads the status of a reply: an answer with a success status gives
    /// its body's byte count; any other reply is the error, with the
    /// response body as its detail.
    pub fn check_reply(reply: &Reply) -> (out: Result<usize, QueryError>)
        ensures
            match out {
                Ok(bytes) => reply_bytes(*reply) == Ok::<usize, QueryFault>(bytes),
                Err(e) => reply_bytes(*reply) == Err::<usize, QueryFault>(e@),
            },
    {
        match reply {
            Reply::Answer { status, status_text, body, bytes } => {
                if ChClient::accepts(*status) {
                    Ok(*bytes)
                } else {
                    Err(QueryError::Status { status: status_text.clone(), body: body.clone() })
                }
            },
            Reply::Failed { detail } => Err(QueryError::Transport { detail: detail.clone() }),
        }
    }

    /// The request that runs `query` in the native format. It is always
    /// sent: the cache plays no part, and the response is only counted.
    pub fn query_native(&self, query: String) -> (out: Request)
        ensures
            out@ == native_request(query@),
    {
        ChClient::native(query)
    }

    /// The request that runs `query` in the native format, which is the
    /// same for every client.
    pub fn native(query: String) -> (out: Request)
        ensures
            out@ == native_request(query@),
    {
        proof {
            reveal_strlit("Native");
        }
        let out = Request { query, default_format: String::from_str("Native"), count_only: true };
        assert(out.default_format@ =~= native_format());
        out
    }

    /// The total number of bytes that a native query received.
    pub fn query_native_reply(reply: &Reply) -> (out: Result<usize, QueryError>)
        ensures
            match out {
                Ok(bytes) => reply_bytes(*reply) == Ok::<usize, QueryFault>(bytes),
                Err(e) => reply_bytes(*reply) == Err::<usize, QueryFault>(e@),
            },
    {
        ChClient::check_reply(reply)
    }

    /// Looks `query` up. With `cache` on and the text cached, the answer is
    /// a copy of the cached rows. Otherwise it is the tabular request to
    /// send.
    pub fn query(&self, query: &str, cache: bool) -> (out: Lookup)
        ensures
            match out {
                Lookup::Hit(found) => cached(self.cache(), query@, cache) == Some(
                    rows_view(found@),
                ),
                Lookup::Miss(request) => cached(self.cache(), query@, cache) is None
                    && request@ == tabular_request(query@),
            },
    {
        if cache {
            match self.cache.get(query) {
                Some(found) => {
                    return Lookup::Hit(clone_rows(found));
                },
                None => {},
            }
        }
        proof {
            reveal_strlit("TSV");
        }
        let request = Request {
            query: String::from_str(query),
            default_format: String::from_str("TSV"),
            count_only: false,
        };
        assert(request.default_format@ =~= tabular_format());
        Lookup::Miss(request)
    }

    /// Takes in the reply to the request that `query` asked to send: reads
    /// the rows and, with `cache` on, stores them under the query text.
    pub fn query_reply(&mut self, query: String, cache: bool, reply: &Reply) -> (out: Result<
        Vec<ResultRow>,
        QueryError,
    >)
        ensures
            match out {
                Ok(found) => reply_rows(*reply) == Ok::<Seq<Seq<Seq<char>>>, QueryFault>(
                    rows_view(found@),
                ),
                Err(e) => reply_rows(*reply) == Err::<Seq<Seq<Seq<char>>>, QueryFault>(e@),
            },
            final(self).cache() == cache_after(old(self).cache(), query@, cache, *reply),
            final(self).spec_url() == old(self).spec_url(),
            final(self).spec_username() == old(self).spec_username(),
            final(self).spec_password() == old(self).spec_password(),
    {
        match ChClient::check_reply(reply) {
            Err(e) => {
                return Err(e);
            },
            Ok(_) => {},
        }
        let found = match reply {
            Reply::Answer { body, .. } => parse_rows(body.as_str()),
            Reply::Failed { .. } => Vec::new(),
        };
        if !same_width(&found) {
            return Err(QueryError::InconsistentColumns);
        }
        if cache {
            let ghost before = self.cache();
            let copy = clone_rows(&found);
            self.cache.insert(query, copy);
            assert(self.cache() =~= before.insert(query@, rows_view(found@)));
        }
        Ok(found)
    }
}

/// The name of the native response format.
pub open spec fn native_format() -> Seq<char> {
    seq!['N', 'a', 't', 'i', 'v', 'e']
}

/// The name of the tabular response format.
pub open spec fn tabular_format() -> Seq<char> {
    seq!['T', 'S', 'V']
}

} // verus!
