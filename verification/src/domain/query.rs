//! Query expressions such as `title contains "Pay"`.
use vstd::prelude::*;
use crate::domain::path::TopicPath;
use crate::domain::topic::Topic;
use crate::text::{
    chars_of, contains, contains_spec, is_ascii_alphanumeric, is_ascii_alphanumeric_spec,
    is_white_space_spec, leading_count, lemma_leading_count_from, matches_at, occurs_at, skip_ws, skip_ws_spec,
    slice_chars, starts_with, starts_with_spec, str_equal, string_from_chars,
};

verus! {

/// A parsed query.
#[derive(Clone, Debug, PartialEq, Eq)]
pub enum QueryExpr {
    Comparison(QueryComparison),
}

/// A comparison of a topic field with a value.
#[derive(Clone, Debug, PartialEq, Eq)]
pub struct QueryComparison {
    field: QueryField,
    operator: QueryOperator,
    value: QueryValue,
}

/// The topic fields that a query can read.
#[derive(Clone, Copy, Debug, PartialEq, Eq)]
pub enum QueryField {
    Title,
}

/// The comparison operators.
#[derive(Clone, Copy, Debug, PartialEq, Eq)]
pub enum QueryOperator {
    Eq,
    Ne,
    Contains,
    StartsWith,
}

/// A query value.
#[derive(Clone, Debug, PartialEq, Eq)]
pub enum QueryValue {
    String(String),
}

/// Why a query could not be read.
#[derive(Clone, Debug, PartialEq, Eq)]
pub enum QueryParseError {
    ExpectedField,
    UnsupportedField(String),
    ExpectedOperator,
    UnsupportedOperator(String),
    ExpectedStringValue,
    IncompleteEscape,
    UnterminatedString,
    TrailingInput(String),
}

/// The meaning of a query: the field, the operator and the expected text.
pub struct QuerySpec {
    pub field: QueryField,
    pub operator: QueryOperator,
    pub value: Seq<char>,
}

/// The meaning of a query error, with its text.
pub enum QueryErrorSpec {
    ExpectedField,
    UnsupportedField(Seq<char>),
    ExpectedOperator,
    UnsupportedOperator(Seq<char>),
    ExpectedStringValue,
    IncompleteEscape,
    UnterminatedString,
    TrailingInput(Seq<char>),
}

impl View for QueryExpr {
    type V = QuerySpec;

    closed spec fn view(&self) -> QuerySpec {
        match self {
            QueryExpr::Comparison(c) => {
                let QueryValue::String(v) = c.value;
                QuerySpec { field: c.field, operator: c.operator, value: v@ }
            },
        }
    }
}

impl View for QueryParseError {
    type V = QueryErrorSpec;

    open spec fn view(&self) -> QueryErrorSpec {
        match self {
            QueryParseError::ExpectedField => QueryErrorSpec::ExpectedField,
            QueryParseError::UnsupportedField(s) => QueryErrorSpec::UnsupportedField(s@),
            QueryParseError::ExpectedOperator => QueryErrorSpec::ExpectedOperator,
            QueryParseError::UnsupportedOperator(s) => QueryErrorSpec::UnsupportedOperator(s@),
            QueryParseError::ExpectedStringValue => QueryErrorSpec::ExpectedStringValue,
            QueryParseError::IncompleteEscape => QueryErrorSpec::IncompleteEscape,
            QueryParseError::UnterminatedString => QueryErrorSpec::UnterminatedString,
            QueryParseError::TrailingInput(s) => QueryErrorSpec::TrailingInput(s@),
        }
    }
}

/// Whether `c` may appear in a field name or word operator.
pub open spec fn is_ident_char(c: char) -> bool {
    is_ascii_alphanumeric_spec(c) || c == '_'
}

/// The identifier that starts at the first non-white-space position at or after `p`,
/// with the position after it; `None` when no identifier character stands there.
pub open spec fn identifier_spec(s: Seq<char>, p: int) -> Option<(Seq<char>, int)> {
    let start = skip_ws_spec(s, p);
    let end = start + leading_count(s.skip(start), |c: char| is_ident_char(c));
    if end > start {
        Some((s.subrange(start, end), end))
    } else {
        None
    }
}

/// The symbol operators, tried in this order before a word operator.
pub open spec fn symbol_operators() -> Seq<Seq<char>> {
    seq![seq!['!', '='], seq!['>', '='], seq!['<', '='], seq!['='], seq!['>'], seq!['<']]
}

/// The first symbol operator (in the order above) that occurs at `p`.
pub open spec fn symbol_at(s: Seq<char>, p: int, k: int) -> Option<Seq<char>>
    decreases 6 - k,
{
    if k < 0 || k >= 6 {
        None
    } else if occurs_at(s, symbol_operators()[k], p) {
        Some(symbol_operators()[k])
    } else {
        symbol_at(s, p, k + 1)
    }
}

/// The operator token at the first non-white-space position at or after `p`.
pub open spec fn operator_token_spec(s: Seq<char>, p: int) -> Option<(Seq<char>, int)> {
    let start = skip_ws_spec(s, p);
    match symbol_at(s, start, 0) {
        Some(op) => Some((op, start + op.len())),
        None => identifier_spec(s, start),
    }
}

/// Reading a quoted string from position `i` on, with `acc` read so far.
pub open spec fn scan_string_spec(s: Seq<char>, i: int, escaped: bool, acc: Seq<char>) -> Result<
    (Seq<char>, int),
    QueryErrorSpec,
>
    decreases s.len() - i,
{
    if i < 0 || i >= s.len() {
        if escaped {
            Err(QueryErrorSpec::IncompleteEscape)
        } else {
            Err(QueryErrorSpec::UnterminatedString)
        }
    } else if escaped {
        scan_string_spec(s, i + 1, false, acc.push(s[i]))
    } else if s[i] == '\\' {
        scan_string_spec(s, i + 1, true, acc)
    } else if s[i] == '"' {
        Ok((acc, i + 1))
    } else {
        scan_string_spec(s, i + 1, false, acc.push(s[i]))
    }
}

/// The quoted string value at the first non-white-space position at or after `p`.
pub open spec fn string_value_spec(s: Seq<char>, p: int) -> Result<(Seq<char>, int), QueryErrorSpec> {
    let start = skip_ws_spec(s, p);
    if start < s.len() && s[start] == '"' {
        scan_string_spec(s, start + 1, false, seq![])
    } else {
        Err(QueryErrorSpec::ExpectedStringValue)
    }
}

/// The operator that a token names.
pub open spec fn operator_of(tok: Seq<char>) -> Option<QueryOperator> {
    if tok == seq!['='] {
        Some(QueryOperator::Eq)
    } else if tok == seq!['!', '='] {
        Some(QueryOperator::Ne)
    } else if tok == "contains"@ {
        Some(QueryOperator::Contains)
    } else if tok == "starts_with"@ {
        Some(QueryOperator::StartsWith)
    } else {
        None
    }
}

/// What a query text reads as: a field name, an operator and a quoted string, with
/// white space around them and nothing after.
pub open spec fn parse_query_spec(s: Seq<char>) -> Result<QuerySpec, QueryErrorSpec> {
    match identifier_spec(s, 0) {
        None => Err(QueryErrorSpec::ExpectedField),
        Some((name, p1)) => if name != "title"@ {
            Err(QueryErrorSpec::UnsupportedField(name))
        } else {
            match operator_token_spec(s, p1) {
                None => Err(QueryErrorSpec::ExpectedOperator),
                Some((tok, p2)) => match operator_of(tok) {
                    None => Err(QueryErrorSpec::UnsupportedOperator(tok)),
                    Some(op) => match string_value_spec(s, p2) {
                        Err(e) => Err(e),
                        Ok((value, p3)) => {
                            let end = skip_ws_spec(s, p3);
                            if end == s.len() {
                                Ok(QuerySpec { field: QueryField::Title, operator: op, value })
                            } else {
                                Err(QueryErrorSpec::TrailingInput(s.skip(end)))
                            }
                        },
                    },
                },
            }
        },
    }
}

/// Whether a query holds for a topic with the given title.
pub open spec fn query_matches_title(q: QuerySpec, title: Seq<char>) -> bool {
    match q.operator {
        QueryOperator::Eq => title == q.value,
        QueryOperator::Ne => title != q.value,
        QueryOperator::Contains => contains_spec(title, q.value),
        QueryOperator::StartsWith => starts_with_spec(title, q.value),
    }
}

/// The text of a query string value: each character of `v`, with a backslash before
/// each backslash and each double quote.
pub open spec fn escape_query_value(v: Seq<char>) -> Seq<char>
    decreases v.len(),
{
    if v.len() == 0 {
        seq![]
    } else {
        let c = v[0];
        (if c == '\\' || c == '"' {
            seq!['\\', c]
        } else {
            seq![c]
        }) + escape_query_value(v.drop_first())
    }
}

/// The query `title <op> "<v>"`, the value escaped.
pub open spec fn title_query_text(op: Seq<char>, v: Seq<char>) -> Seq<char> {
    "title "@ + op + " \""@ + escape_query_value(v) + "\""@
}

proof fn lemma_scan_escaped(a: Seq<char>, v: Seq<char>, b: Seq<char>, acc: Seq<char>)
    requires
        b.len() > 0,
        b[0] == '"',
    ensures
        scan_string_spec(a + escape_query_value(v) + b, a.len() as int, false, acc) == Ok::<
            (Seq<char>, int),
            QueryErrorSpec,
        >((acc + v, (a.len() + escape_query_value(v).len() + 1) as int)),
    decreases v.len(),
{
    let s = a + escape_query_value(v) + b;
    let i = a.len() as int;
    if v.len() == 0 {
        assert(s[i] == b[0]);
        assert(acc + v =~= acc);
    } else {
        let c = v[0];
        let head = if c == '\\' || c == '"' {
            seq!['\\', c]
        } else {
            seq![c]
        };
        let rest = v.drop_first();
        assert(escape_query_value(v) == head + escape_query_value(rest));
        assert(s =~= (a + head) + escape_query_value(rest) + b);
        lemma_scan_escaped(a + head, rest, b, acc.push(c));
        assert(acc.push(c) + rest =~= acc + v);
        if c == '\\' || c == '"' {
            assert(s[i] == '\\');
            assert(s[i + 1] == c);
            assert(scan_string_spec(s, i + 1, true, acc) == scan_string_spec(
                s,
                i + 2,
                false,
                acc.push(c),
            ));
        } else {
            assert(s[i] == c);
        }
    }
}

proof fn lemma_skip_ws_at(s: Seq<char>, p: int, n: int)
    requires
        0 <= p,
        0 <= n,
        p + n <= s.len(),
        forall|k: int| p <= k < p + n ==> is_white_space_spec(#[trigger] s[k]),
        p + n == s.len() || !is_white_space_spec(s[p + n]),
    ensures
        skip_ws_spec(s, p) == p + n,
{
    let t = s.skip(p);
    assert forall|k: int| 0 <= k < n implies is_white_space_spec(#[trigger] t[k]) by {
        assert(t[k] == s[p + k]);
    }
    if p + n < s.len() {
        assert(t[n] == s[p + n]);
    }
    lemma_leading_count_from(t, |c: char| is_white_space_spec(c), n);
}

proof fn lemma_identifier_at(s: Seq<char>, p: int, w: Seq<char>)
    requires
        0 <= p,
        w.len() > 0,
        p + w.len() < s.len(),
        s.subrange(p, p + w.len()) == w,
        forall|k: int| 0 <= k < w.len() ==> is_ident_char(#[trigger] w[k]),
        !is_ident_char(s[p + w.len()]),
        !is_white_space_spec(s[p]),
    ensures
        identifier_spec(s, p) == Some((w, p + w.len())),
{
    lemma_skip_ws_at(s, p, 0);
    let t = s.skip(p);
    assert forall|k: int| 0 <= k < w.len() implies is_ident_char(#[trigger] t[k]) by {
        assert(t[k] == s.subrange(p, p + w.len())[k]);
    }
    assert(t[w.len() as int] == s[p + w.len()]);
    lemma_leading_count_from(t, |c: char| is_ident_char(c), w.len() as int);
}

/// A query `title <op> "<v>"`, with `op` one of `=`, `!=`, `contains` and
/// `starts_with` and the value escaped, reads back as that operator with the value `v`,
/// whatever `v` holds. Each operator then means what it says of a topic's title:
/// equality, inequality, containment or a prefix; so `=` and `!=` never agree. The
/// topic's path and depth play no part (`QueryExpr::matches_topic` reads the title only).
pub proof fn law_title_query_reads_back(op: Seq<char>, v: Seq<char>)
    requires
        operator_of(op) is Some,
    ensures
        parse_query_spec(title_query_text(op, v)) == Ok::<QuerySpec, QueryErrorSpec>(
            QuerySpec { field: QueryField::Title, operator: operator_of(op)->0, value: v },
        ),
        forall|title: Seq<char>|
            #![trigger query_matches_title(
                QuerySpec { field: QueryField::Title, operator: operator_of(op)->0, value: v },
                title,
            )]
            query_matches_title(
                QuerySpec { field: QueryField::Title, operator: operator_of(op)->0, value: v },
                title,
            ) == if op == seq!['='] {
                title == v
            } else if op == seq!['!', '='] {
                title != v
            } else if op == "contains"@ {
                contains_spec(title, v)
            } else {
                starts_with_spec(title, v)
            },
{
    reveal_strlit("title ");
    reveal_strlit(" \"");
    reveal_strlit("\"");
    reveal_strlit("title");
    reveal_strlit("contains");
    reveal_strlit("starts_with");
    let l = op.len() as int;
    let a = "title "@ + op + " \""@;
    let b = "\""@;
    let e = escape_query_value(v);
    let s = title_query_text(op, v);
    assert(s == a + e + b);
    assert(a.len() == l + 8);
    assert(l >= 1);
    assert(forall|k: int| 0 <= k < 6 ==> s[k] == "title "@[k]);
    assert(forall|k: int| 0 <= k < l ==> s[6 + k] == op[k]);
    assert(s[6 + l] == ' ');
    assert(s[7 + l] == '"');
    assert(s.subrange(6, 6 + l) =~= op);
    // The field.
    assert(s.subrange(0, 5) =~= "title"@);
    lemma_identifier_at(s, 0, "title"@);
    // The operator token.
    lemma_skip_ws_at(s, 5, 1);
    reveal_with_fuel(symbol_at, 7);
    let o0 = op[0];
    assert(o0 == '=' || o0 == '!' || o0 == 'c' || o0 == 's');
    assert(s[6] == o0);
    if op == seq!['='] {
        assert(s.subrange(6, 7) =~= seq!['=']);
        assert(!occurs_at(s, symbol_operators()[0], 6)) by {
            assert(s.subrange(6, 8)[0] == '=');
        }
        assert(!occurs_at(s, symbol_operators()[1], 6)) by {
            assert(s.subrange(6, 8)[0] == '=');
        }
        assert(!occurs_at(s, symbol_operators()[2], 6)) by {
            assert(s.subrange(6, 8)[0] == '=');
        }
        assert(operator_token_spec(s, 5) == Some((seq!['='], 7int)));
    } else if op == seq!['!', '='] {
        assert(s.subrange(6, 8) =~= seq!['!', '=']);
        assert(operator_token_spec(s, 5) == Some((seq!['!', '='], 8int)));
    } else {
        assert forall|k: int| 0 <= k < 6 implies !occurs_at(s, #[trigger] symbol_operators()[k], 6) by {
            let sym = symbol_operators()[k];
            if occurs_at(s, sym, 6) {
                assert(s.subrange(6, 6 + sym.len() as int)[0] == s[6]);
            }
        }
        assert(symbol_at(s, 6, 0) is None);
        assert forall|k: int| 0 <= k < op.len() implies is_ident_char(#[trigger] op[k]) by {}
        lemma_identifier_at(s, 6, op);
        assert(operator_token_spec(s, 5) == Some((op, 6 + l)));
    }
    // The value.
    lemma_skip_ws_at(s, 6 + l, 1);
    lemma_scan_escaped(a, v, b, seq![]);
    assert(seq![] + v =~= v);
    assert(string_value_spec(s, 6 + l) == Ok::<(Seq<char>, int), QueryErrorSpec>((v, s.len() as int)));
    lemma_skip_ws_at(s, s.len() as int, 0);
}

/// Reads the identifier at the first non-white-space position at or after `p`.
fn parse_identifier(cs: &[char], p: usize) -> (r: (Option<Vec<char>>, usize))
    requires
        p <= cs@.len(),
    ensures
        r.1 <= cs@.len(),
        match identifier_spec(cs@, p as int) {
            Some((name, end)) => r.0 matches Some(v) && v@ == name && r.1 == end,
            None => r.0 is None,
        },
{
    let start = skip_ws(cs, p);
    let mut i: usize = start;
    while i < cs.len() && (is_ascii_alphanumeric(cs[i]) || cs[i] == '_')
        invariant
            start <= i <= cs@.len(),
            forall|k: int| start <= k < i ==> is_ident_char(#[trigger] cs@[k]),
        decreases cs@.len() - i,
    {
        i = i + 1;
    }
    proof {
        let t = cs@.skip(start as int);
        assert forall|k: int| 0 <= k < i - start implies is_ident_char(#[trigger] t[k]) by {
            assert(t[k] == cs@[start + k]);
        }
        if i < cs@.len() {
            assert(t[i - start] == cs@[i as int]);
        }
        lemma_leading_count_from(t, |c: char| is_ident_char(c), i - start);
    }
    if i > start {
        (Some(slice_chars(cs, start, i)), i)
    } else {
        (None, i)
    }
}

/// Reads the operator token at the first non-white-space position at or after `p`.
fn parse_operator_token(cs: &[char], p: usize) -> (r: (Option<Vec<char>>, usize))
    requires
        p <= cs@.len(),
    ensures
        r.1 <= cs@.len(),
        match operator_token_spec(cs@, p as int) {
            Some((tok, end)) => r.0 matches Some(v) && v@ == tok && r.1 == end,
            None => r.0 is None,
        },
{
    let start = skip_ws(cs, p);
    let ops: [&str; 6] = ["!=", ">=", "<=", "=", ">", "<"];
    let mut k: usize = 0;
    while k < 6
        invariant
            0 <= k <= 6,
            start <= cs@.len(),
            start == skip_ws_spec(cs@, p as int),
            ops@ == seq!["!=", ">=", "<=", "=", ">", "<"],
            symbol_at(cs@, start as int, 0) == symbol_at(cs@, start as int, k as int),
        decreases 6 - k,
    {
        let op = chars_of(ops[k]);
        proof {
            reveal_strlit("!=");
            reveal_strlit(">=");
            reveal_strlit("<=");
            reveal_strlit("=");
            reveal_strlit(">");
            reveal_strlit("<");
            assert(op@ == symbol_operators()[k as int]);
        }
        if matches_at(cs, op.as_slice(), start) {
            let n = cs.len();
            let m = op.len();
            assert(start + m <= n);
            let end = start + m;
            return (Some(op), end);
        }
        k = k + 1;
    }
    parse_identifier(cs, start)
}

/// Reads a quoted string value at the first non-white-space position at or after `p`.
fn parse_string_value(cs: &[char], p: usize) -> (r: Result<(Vec<char>, usize), QueryParseError>)
    requires
        p <= cs@.len(),
    ensures
        match (r, string_value_spec(cs@, p as int)) {
            (Ok((v, end)), Ok((w, e))) => v@ == w && end == e && end <= cs@.len(),
            (Err(x), Err(y)) => x@ == y,
            _ => false,
        },
{
    let start = skip_ws(cs, p);
    if start >= cs.len() || cs[start] != '"' {
        return Err(QueryParseError::ExpectedStringValue);
    }
    let mut value: Vec<char> = Vec::new();
    let mut escaped = false;
    let mut i: usize = start + 1;
    while i < cs.len()
        invariant
            start < i <= cs@.len(),
            start == skip_ws_spec(cs@, p as int),
            start < cs@.len() && cs@[start as int] == '"',
            scan_string_spec(cs@, start + 1, false, seq![]) == scan_string_spec(
                cs@,
                i as int,
                escaped,
                value@,
            ),
        decreases cs@.len() - i,
    {
        let c = cs[i];
        if escaped {
            value.push(c);
            escaped = false;
        } else if c == '\\' {
            escaped = true;
        } else if c == '"' {
            return Ok((value, i + 1));
        } else {
            value.push(c);
        }
        i = i + 1;
    }
    if escaped {
        Err(QueryParseError::IncompleteEscape)
    } else {
        Err(QueryParseError::UnterminatedString)
    }
}

impl QueryExpr {
    /// Reads a query such as `title = "Payment"`.
    pub fn parse(input: &str) -> (r: Result<Self, QueryParseError>)
        ensures
            match (r, parse_query_spec(input@)) {
                (Ok(q), Ok(s)) => q@ == s,
                (Err(e), Err(f)) => e@ == f,
                _ => false,
            },
    {
        let cs = chars_of(input);
        let (name, p1) = parse_identifier(cs.as_slice(), 0);
        let name = match name {
            None => return Err(QueryParseError::ExpectedField),
            Some(name) => name,
        };
        let title = chars_of("title");
        proof {
            reveal_strlit("title");
        }
        if !crate::text::chars_equal(name.as_slice(), title.as_slice()) {
            return Err(QueryParseError::UnsupportedField(string_from_chars(name.as_slice())));
        }
        let (tok, p2) = parse_operator_token(cs.as_slice(), p1);
        let tok = match tok {
            None => return Err(QueryParseError::ExpectedOperator),
            Some(tok) => tok,
        };
        let tok_s = string_from_chars(tok.as_slice());
        proof {
            reveal_strlit("=");
            reveal_strlit("!=");
            reveal_strlit("contains");
            reveal_strlit("starts_with");
            assert("="@ =~= seq!['=']);
            assert("!="@ =~= seq!['!', '=']);
        }
        let operator = if str_equal(tok_s.as_str(), "=") {
            QueryOperator::Eq
        } else if str_equal(tok_s.as_str(), "!=") {
            QueryOperator::Ne
        } else if str_equal(tok_s.as_str(), "contains") {
            QueryOperator::Contains
        } else if str_equal(tok_s.as_str(), "starts_with") {
            QueryOperator::StartsWith
        } else {
            return Err(QueryParseError::UnsupportedOperator(tok_s));
        };
        let (value, p3) = match parse_string_value(cs.as_slice(), p2) {
            Ok(v) => v,
            Err(e) => return Err(e),
        };
        let end = skip_ws(cs.as_slice(), p3);
        if end != cs.len() {
            let rest = slice_chars(cs.as_slice(), end, cs.len());
            proof {
                assert(cs@.subrange(end as int, cs@.len() as int) =~= cs@.skip(end as int));
            }
            return Err(QueryParseError::TrailingInput(string_from_chars(rest.as_slice())));
        }
        let value = string_from_chars(value.as_slice());
        Ok(QueryExpr::Comparison(QueryComparison {
            field: QueryField::Title,
            operator,
            value: QueryValue::String(value),
        }))
    }

    /// A copy of this query.
    pub fn duplicate(&self) -> (r: Self)
        ensures
            r@ == self@,
    {
        match self {
            QueryExpr::Comparison(c) => {
                let QueryValue::String(v) = &c.value;
                QueryExpr::Comparison(QueryComparison {
                    field: c.field,
                    operator: c.operator,
                    value: QueryValue::String(v.clone()),
                })
            },
        }
    }

    /// Whether the topic satisfies this query. The path and depth of the topic are
    /// available to queries but no field that reads them exists yet.
    pub fn matches_topic(&self, topic: &Topic, path: &TopicPath, depth: usize) -> (r: bool)
        ensures
            r == query_matches_title(self@, topic.title@),
    {
        match self {
            QueryExpr::Comparison(c) => c.matches_topic(topic, path, depth),
        }
    }
}

impl QueryComparison {
    fn matches_topic(&self, topic: &Topic, _path: &TopicPath, _depth: usize) -> (r: bool)
        ensures
            r == query_matches_title(QueryExpr::Comparison(*self)@, topic.title@),
    {
        let QueryValue::String(expected) = &self.value;
        let title = chars_of(topic.title.as_str());
        let value = chars_of(expected.as_str());
        match self.operator {
            QueryOperator::Eq => crate::text::chars_equal(title.as_slice(), value.as_slice()),
            QueryOperator::Ne => !crate::text::chars_equal(title.as_slice(), value.as_slice()),
            QueryOperator::Contains => contains(title.as_slice(), value.as_slice()),
            QueryOperator::StartsWith => starts_with(title.as_slice(), value.as_slice()),
        }
    }
}

impl QueryParseError {
    /// The human-readable description of this error.
    pub fn message(&self) -> (r: String)
        ensures
            r@ == query_error_message(self@),
    {
        let mut out: Vec<char> = Vec::new();
        let (head, tail): (&str, Option<&String>) = match self {
            QueryParseError::ExpectedField => ("expected field name", None),
            QueryParseError::UnsupportedField(s) => ("unsupported query field: ", Some(s)),
            QueryParseError::ExpectedOperator => ("expected operator", None),
            QueryParseError::UnsupportedOperator(s) => (
                "unsupported operator for this query slice: ",
                Some(s),
            ),
            QueryParseError::ExpectedStringValue => ("expected quoted string value", None),
            QueryParseError::IncompleteEscape => (
                "query string contains an incomplete escape sequence",
                None,
            ),
            QueryParseError::UnterminatedString => ("query string is missing a closing quote", None),
            QueryParseError::TrailingInput(s) => ("unexpected trailing query input: ", Some(s)),
        };
        let h = chars_of(head);
        crate::text::push_all(&mut out, h.as_slice());
        if let Some(s) = tail {
            let t = chars_of(s.as_str());
            crate::text::push_all(&mut out, t.as_slice());
        }
        proof {
            assert(out@ =~= query_error_message(self@));
        }
        string_from_chars(out.as_slice())
    }
}

/// The description of each query error.
pub open spec fn query_error_message(e: QueryErrorSpec) -> Seq<char> {
    match e {
        QueryErrorSpec::ExpectedField => "expected field name"@,
        QueryErrorSpec::UnsupportedField(s) => "unsupported query field: "@ + s,
        QueryErrorSpec::ExpectedOperator => "expected operator"@,
        QueryErrorSpec::UnsupportedOperator(s) => "unsupported operator for this query slice: "@
            + s,
        QueryErrorSpec::ExpectedStringValue => "expected quoted string value"@,
        QueryErrorSpec::IncompleteEscape => "query string contains an incomplete escape sequence"@,
        QueryErrorSpec::UnterminatedString => "query string is missing a closing quote"@,
        QueryErrorSpec::TrailingInput(s) => "unexpected trailing query input: "@ + s,
    }
}

} // verus!
