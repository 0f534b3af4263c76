//! The Boardroom requests: proposal-list addresses, page-by-page collection
//! of a proposal list, where responses are kept, and the DAO list file.

use vstd::prelude::*;
use crate::boardroom::{CNAMECSVRow, PROPOSAL_URL, RESP_DIR};
use crate::text::{replace_all, replace_text};

verus! {

/// The address of the proposal list of the protocol named `cname`.
pub open spec fn proposal_url_text(cname: Seq<char>) -> Seq<char> {
    replace_all(PROPOSAL_URL@, "{cname}"@, cname)
}

/// The address of the page after `cursor` of the proposal list of `cname`.
pub open spec fn page_url_text(cname: Seq<char>, cursor: Seq<char>) -> Seq<char> {
    proposal_url_text(cname) + "&cursor="@ + cursor
}

/// Writes the address of the proposal list of the protocol named `cname`.
pub fn proposal_url(cname: &str) -> (r: String)
    ensures
        r@ == proposal_url_text(cname@),
{
    proof {
        reveal_strlit("{cname}");
    }
    replace_text(PROPOSAL_URL, "{cname}", cname)
}

/// Writes the address of the page after `cursor` of the proposal list of `cname`.
pub fn page_url(cname: &str, cursor: &str) -> (r: String)
    ensures
        r@ == page_url_text(cname@, cursor@),
{
    let mut r = proposal_url(cname);
    r.append("&cursor=");
    r.append(cursor);
    r
}

/// Where the proposals of the DAO `dao` are kept.
pub open spec fn response_path_text(dao: Seq<char>) -> Seq<char> {
    RESP_DIR@ + "/"@ + dao
}

/// Writes where the proposals of the DAO `dao` are kept.
pub fn response_path(dao: &str) -> (r: String)
    ensures
        r@ == response_path_text(dao@),
{
    let mut r = String::from_str(RESP_DIR);
    r.append("/");
    r.append(dao);
    r
}

/// The items of a page; a page without a list has none.
pub open spec fn page_items<T>(data: Option<Vec<T>>) -> Seq<T> {
    match data {
        Some(v) => v@,
        None => Seq::empty(),
    }
}

/// The proposals of a DAO collected page by page, and the cursor of the next
/// page to fetch, if any.
pub struct PageCollector<T> {
    pub items: Vec<T>,
    pub cursor: Option<String>,
}

impl<T> PageCollector<T> {
    /// Starts from the first page.
    pub fn start(data: Option<Vec<T>>, cursor: Option<String>) -> (c: Self)
        ensures
            c.items@ == page_items(data),
            c.cursor == cursor,
    {
        let items = match data {
            Some(v) => v,
            None => Vec::new(),
        };
        PageCollector { items, cursor }
    }

    /// The address of the next page to fetch for the protocol `cname`, or
    /// `None` when the list is complete.
    pub fn next_url(&self, cname: &str) -> (r: Option<String>)
        ensures
            (match self.cursor {
                Some(c) => r is Some && r->0@ == page_url_text(cname@, c@),
                None => r is None,
            }),
    {
        match &self.cursor {
            Some(c) => Some(page_url(cname, c.as_str())),
            None => None,
        }
    }

    /// Adds a fetched page: its items follow those collected so far, and its
    /// cursor becomes the one to follow.
    pub fn absorb(&mut self, data: Option<Vec<T>>, cursor: Option<String>)
        ensures
            final(self).items@ == old(self).items@ + page_items(data),
            final(self).cursor == cursor,
    {
        match data {
            Some(v) => {
                let mut v = v;
                self.items.append(&mut v);
            },
            None => {
                assert(self.items@ + Seq::<T>::empty() =~= self.items@);
            },
        }
        self.cursor = cursor;
    }
}

/// One line of the DAO list: the DAO's name and its Boardroom name.
pub open spec fn cname_line(r: CNAMECSVRow) -> Seq<char> {
    r.dao@ + ","@ + r.cname@
}

/// The lines of the DAO list, separated by line breaks.
pub open spec fn cname_lines(rows: Seq<CNAMECSVRow>) -> Seq<char>
    decreases rows.len(),
{
    if rows.len() == 0 {
        Seq::empty()
    } else if rows.len() == 1 {
        cname_line(rows[0])
    } else {
        cname_lines(rows.drop_last()) + "\n"@ + cname_line(rows.last())
    }
}

/// The DAO list file: a header line and one line per DAO.
pub open spec fn cname_csv_text(rows: Seq<CNAMECSVRow>) -> Seq<char> {
    "dao,cname\n"@ + cname_lines(rows)
}

/// Writes the DAO list file.
pub fn cname_csv(rows: &Vec<CNAMECSVRow>) -> (r: String)
    ensures
        r@ == cname_csv_text(rows@),
{
    let mut body = String::new();
    let mut i: usize = 0;
    while i < rows.len()
        invariant
            0 <= i <= rows.len(),
            body@ == cname_lines(rows@.take(i as int)),
        decreases rows.len() - i,
    {
        assert(rows@.take(i + 1).drop_last() =~= rows@.take(i as int));
        if i > 0 {
            body.append("\n");
        }
        body.append(rows[i].dao.as_str());
        body.append(",");
        body.append(rows[i].cname.as_str());
        proof {
            if i == 0 {
                assert(body@ =~= cname_line(rows@.take(1)[0]));
            }
        }
        i = i + 1;
    }
    assert(rows@.take(rows.len() as int) =~= rows@);
    let mut r = String::from_str("dao,cname\n");
    r.append(body.as_str());
    r
}

} // verus!
