//! The subgraph requests: reading a query file, the request address and
//! body, and where responses are kept.

use vstd::prelude::*;
use crate::graph::RESP_DIR;
use crate::text::{replace_all, replace_text};

verus! {

/// A blank line (two line breaks) starts at position `i` of `s`.
pub open spec fn separator_at(s: Seq<char>, i: int) -> bool {
    0 <= i && i + 1 < s.len() && s[i] == '\n' && s[i + 1] == '\n'
}

/// `i` is the first blank line of `s` at or after `from`.
pub open spec fn first_separator_from(s: Seq<char>, from: int, i: int) -> bool {
    &&& from <= i
    &&& separator_at(s, i)
    &&& forall|j: int| from <= j < i ==> !separator_at(s, j)
}

/// `s` has no blank line at or after `from`.
pub open spec fn no_separator_from(s: Seq<char>, from: int) -> bool {
    forall|j: int| from <= j ==> !separator_at(s, j)
}

/// A query file: the address template, then a blank line, then the query.
#[derive(Clone, Debug)]
pub struct QueryTemplate {
    pub url: String,
    pub query: String,
}

/// `url` and `query` are the first two parts of `s` split at blank lines:
/// the text before the first blank line, and the text from there up to the
/// next blank line or the end.
pub open spec fn template_of(s: Seq<char>, url: Seq<char>, query: Seq<char>) -> bool {
    exists|i: int|
        {
            &&& #[trigger] first_separator_from(s, 0, i)
            &&& url == s.subrange(0, i)
            &&& {
                ||| exists|j: int|
                    #[trigger] first_separator_from(s, i + 2, j) && query == s.subrange(i + 2, j)
                ||| no_separator_from(s, i + 2) && query == s.subrange(i + 2, s.len() as int)
            }
        }
}

/// The first blank line of `s` at or after `from`, if any.
fn find_separator(s: &str, n: usize, from: usize) -> (r: Option<usize>)
    requires
        n == s@.len(),
        from <= n,
    ensures
        (match r {
            Some(i) => first_separator_from(s@, from as int, i as int),
            None => no_separator_from(s@, from as int),
        }),
{
    let mut i: usize = from;
    while n - i >= 2
        invariant
            n == s@.len(),
            from <= i <= n,
            forall|j: int| from <= j < i ==> !separator_at(s@, j),
        decreases n - i,
    {
        if s.get_char(i) == '\n' && s.get_char(i + 1) == '\n' {
            return Some(i);
        }
        i = i + 1;
    }
    None
}

/// Splits a query file into its address template and its query, or `None`
/// when it has no blank line.
pub fn checked_query_template(content: &str) -> (r: Option<QueryTemplate>)
    ensures
        r is None <==> no_separator_from(content@, 0),
        r matches Some(t) ==> template_of(content@, t.url@, t.query@),
{
    let n = content.unicode_len();
    match find_separator(content, n, 0) {
        None => None,
        Some(i) => {
            let url = String::from_str(content.substring_char(0, i));
            let end = match find_separator(content, n, i + 2) {
                Some(j) => j,
                None => n,
            };
            let query = String::from_str(content.substring_char(i + 2, end));
            Some(QueryTemplate { url, query })
        },
    }
}

/// Splits a query file that holds a blank line into its address template and
/// its query.
pub fn query_template(content: &str) -> (t: QueryTemplate)
    requires
        !no_separator_from(content@, 0),
    ensures
        template_of(content@, t.url@, t.query@),
{
    match checked_query_template(content) {
        Some(t) => t,
        None => {
            proof {
                assert(false);
            }
            QueryTemplate { url: String::new(), query: String::new() }
        },
    }
}

/// The request address for the subgraph `id`.
pub open spec fn subgraph_url_text(template: Seq<char>, id: Seq<char>) -> Seq<char> {
    replace_all(template, "{subgraph-id}"@, id)
}

/// Writes the request address for the subgraph `id`.
pub fn subgraph_url(template: &str, id: &str) -> (r: String)
    ensures
        r@ == subgraph_url_text(template@, id@),
{
    proof {
        reveal_strlit("{subgraph-id}");
    }
    replace_text(template, "{subgraph-id}", id)
}

/// The request body: the query with its line breaks removed, as the named
/// operation `Subgraphs` without variables.
pub open spec fn request_body_text(query: Seq<char>) -> Seq<char> {
    "{\"query\": \""@ + replace_all(query, "\n"@, Seq::empty()) + "\", \"operationName\": \"Subgraphs\", \"variables\": {}}"@
}

/// Writes the request body for `query`.
pub fn request_body(query: &str) -> (r: String)
    ensures
        r@ == request_body_text(query@),
{
    proof {
        reveal_strlit("\n");
        reveal_strlit("");
        assert(""@ =~= Seq::<char>::empty());
    }
    let q = replace_text(query, "\n", "");
    let mut r = String::from_str("{\"query\": \"");
    r.append(q.as_str());
    r.append("\", \"operationName\": \"Subgraphs\", \"variables\": {}}");
    r
}

/// Where the response of the query file `file` for the DAO `dao` is kept.
pub open spec fn response_path_text(dao: Seq<char>, file: Seq<char>) -> Seq<char> {
    RESP_DIR@ + "/"@ + dao + "_"@ + file
}

/// Writes where the response of the query file `file` for the DAO `dao` is kept.
pub fn response_path(dao: &str, file: &str) -> (r: String)
    ensures
        r@ == response_path_text(dao@, file@),
{
    let mut r = String::from_str(RESP_DIR);
    r.append("/");
    r.append(dao);
    r.append("_");
    r.append(file);
    r
}

/// Removing every line break leaves none: the query of a request body is a
/// single line.
pub proof fn lemma_no_line_breaks(q: Seq<char>)
    ensures
        !replace_all(q, "\n"@, Seq::empty()).contains('\n'),
    decreases q.len(),
{
    reveal_strlit("\n");
    let nl = "\n"@;
    let r = replace_all(q, nl, Seq::empty());
    if q.len() >= 1 {
        lemma_no_line_breaks(q.skip(1));
        let rest = replace_all(q.skip(1), nl, Seq::empty());
        if q.take(1) == nl {
            assert(r =~= Seq::<char>::empty() + rest);
        } else {
            assert(q[0] != '\n') by {
                if q[0] == '\n' {
                    assert(q.take(1) =~= nl);
                }
            }
            assert(r =~= seq![q[0]] + rest);
            assert forall|k: int| 0 <= k < r.len() implies r[k] != '\n' by {
                if k > 0 {
                    assert(r[k] == rest[k - 1]);
                }
            }
        }
    }
}

/// `t` holds no blank line: no two line breaks follow each other.
pub open spec fn no_blank_line(t: Seq<char>) -> bool {
    forall|j: int| 0 <= j && j + 1 < t.len() ==> !(#[trigger] t[j] == '\n' && t[j + 1] == '\n')
}

/// A query file written as an address template `u`, a blank line and a query
/// `q` splits back into `u` and `q`, whether the file ends there or a further
/// blank line and more text follow; neither part may hold a blank line, and a
/// part that a blank line follows may not end in a line break.
pub proof fn lemma_template_written(u: Seq<char>, q: Seq<char>, tail: Seq<char>)
    requires
        no_blank_line(u),
        u.len() == 0 || u.last() != '\n',
        no_blank_line(q),
        tail.len() == 0 || (tail.len() >= 2 && tail[0] == '\n' && tail[1] == '\n' && (q.len() == 0
            || q.last() != '\n')),
    ensures
        template_of(u + "\n\n"@ + q + tail, u, q),
{
    reveal_strlit("\n\n");
    let c = u + "\n\n"@ + q + tail;
    let i = u.len() as int;
    let k = i + 2 + q.len();
    assert(c[i] == '\n' && c[i + 1] == '\n');
    assert forall|j: int| 0 <= j < i implies !separator_at(c, j) by {
        if j + 1 < i {
            assert(c[j] == u[j] && c[j + 1] == u[j + 1]);
        } else {
            assert(c[j] == u.last());
        }
    }
    assert(first_separator_from(c, 0, i));
    assert(u == c.subrange(0, i));
    assert forall|j: int| i + 2 <= j < k implies !separator_at(c, j) by {
        if j + 1 < k {
            assert(c[j] == q[j - i - 2] && c[j + 1] == q[j + 1 - i - 2]);
        } else {
            assert(c[j] == q.last());
        }
    }
    assert(q == c.subrange(i + 2, k));
    if tail.len() == 0 {
        assert(c.len() == k);
        assert(no_separator_from(c, i + 2));
    } else {
        assert(c[k] == tail[0] && c[k + 1] == tail[1]);
        assert(first_separator_from(c, i + 2, k));
    }
}

/// The first blank line at or after a position is unique.
proof fn lemma_first_separator_unique(s: Seq<char>, from: int, i: int, j: int)
    requires
        first_separator_from(s, from, i),
        first_separator_from(s, from, j),
    ensures
        i == j,
{
}

/// A query file splits in one way only: two splits of the same text give the
/// same address template and the same query.
pub proof fn lemma_template_unique(
    s: Seq<char>,
    u1: Seq<char>,
    q1: Seq<char>,
    u2: Seq<char>,
    q2: Seq<char>,
)
    requires
        template_of(s, u1, q1),
        template_of(s, u2, q2),
    ensures
        u1 == u2,
        q1 == q2,
{
    let i1 = choose|i: int|
        {
            &&& #[trigger] first_separator_from(s, 0, i)
            &&& u1 == s.subrange(0, i)
            &&& {
                ||| exists|j: int|
                    #[trigger] first_separator_from(s, i + 2, j) && q1 == s.subrange(i + 2, j)
                ||| no_separator_from(s, i + 2) && q1 == s.subrange(i + 2, s.len() as int)
            }
        };
    let i2 = choose|i: int|
        {
            &&& #[trigger] first_separator_from(s, 0, i)
            &&& u2 == s.subrange(0, i)
            &&& {
                ||| exists|j: int|
                    #[trigger] first_separator_from(s, i + 2, j) && q2 == s.subrange(i + 2, j)
                ||| no_separator_from(s, i + 2) && q2 == s.subrange(i + 2, s.len() as int)
            }
        };
    lemma_first_separator_unique(s, 0, i1, i2);
    if exists|j: int| #[trigger] first_separator_from(s, i1 + 2, j) && q1 == s.subrange(i1 + 2, j) {
        let j1 = choose|j: int|
            #[trigger] first_separator_from(s, i1 + 2, j) && q1 == s.subrange(i1 + 2, j);
        if exists|j: int|
            #[trigger] first_separator_from(s, i1 + 2, j) && q2 == s.subrange(i1 + 2, j) {
            let j2 = choose|j: int|
                #[trigger] first_separator_from(s, i1 + 2, j) && q2 == s.subrange(i1 + 2, j);
            lemma_first_separator_unique(s, i1 + 2, j1, j2);
        } else {
            assert(!separator_at(s, j1));
        }
    } else if exists|j: int|
        #[trigger] first_separator_from(s, i1 + 2, j) && q2 == s.subrange(i1 + 2, j) {
        let j2 = choose|j: int|
            #[trigger] first_separator_from(s, i1 + 2, j) && q2 == s.subrange(i1 + 2, j);
        assert(!separator_at(s, j2));
    }
}

} // verus!
