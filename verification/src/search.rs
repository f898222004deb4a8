use crate::models::Posting;
use crate::text::{chars_of, lowercase, same_text};
use vstd::prelude::*;

verus! {

/// How many applications the list shows at first, and how many more each
/// time more are asked for.
pub const PAGE_SIZE: usize = 12;

/// The filter that lets every status pass.
pub const ALL_STATUSES: &'static str = "All";

/// Whether `needle` stands somewhere in `hay` as it is.
pub open spec fn has_part(hay: Seq<char>, needle: Seq<char>) -> bool {
    exists|at: int| 0 <= at <= hay.len() - needle.len() && #[trigger] hay.subrange(
        at,
        at + needle.len(),
    ) == needle
}

fn part_at(hay: &Vec<char>, needle: &Vec<char>, at: usize) -> (found: bool)
    requires
        at + needle.len() <= hay.len(),
    ensures
        found == (hay@.subrange(at as int, at + needle@.len()) == needle@),
{
    let size = needle.len();
    let end = hay.len();
    let mut i: usize = 0;
    while i < size
        invariant
            i <= size,
            size == needle@.len(),
            end == hay@.len(),
            at + size <= end,
            forall|j: int| 0 <= j < i ==> hay@[at + j] == needle@[j],
        decreases size - i,
    {
        if hay[at + i] != needle[i] {
            proof {
                assert(hay@.subrange(at as int, at + needle@.len())[i as int] == hay@[at + i]);
            }
            return false;
        }
        i += 1;
    }
    proof {
        assert(hay@.subrange(at as int, at + needle@.len()) =~= needle@);
    }
    true
}

/// Whether `needle` stands somewhere in `hay` as it is.
pub fn contains_text(hay: &str, needle: &str) -> (found: bool)
    ensures
        found == has_part(hay@, needle@),
{
    let hay_chars = chars_of(hay);
    let needle_chars = chars_of(needle);
    if needle_chars.len() > hay_chars.len() {
        return false;
    }
    let last = hay_chars.len() - needle_chars.len();
    let mut at: usize = 0;
    loop
        invariant
            at <= last,
            last == hay_chars@.len() - needle_chars@.len(),
            hay_chars@ == hay@,
            needle_chars@ == needle@,
            forall|k: int|
                0 <= k < at ==> #[trigger] hay@.subrange(k, k + needle@.len()) != needle@,
        decreases last - at,
    {
        if part_at(&hay_chars, &needle_chars, at) {
            return true;
        }
        if at == last {
            return false;
        }
        at += 1;
    }
}

/// Whether an application passes the search box and the status filter:
/// the query stands in its company or in its role, letter case aside, and
/// its status is the one filtered for, or every status is let pass.
pub open spec fn passes(
    company: Seq<char>,
    role: Seq<char>,
    status: Seq<char>,
    query: Seq<char>,
    filter: Seq<char>,
) -> bool {
    &&& has_part(lowercase(company), lowercase(query)) || has_part(
        lowercase(role),
        lowercase(query),
    )
    &&& filter == ALL_STATUSES@ || status == filter
}

/// Whether an application passes the search box and the status filter.
pub fn matches_search<T: Posting>(application: &T, query: &str, filter: &str) -> (shown: bool)
    ensures
        shown == passes(
            application.company_text(),
            application.role_text(),
            application.status_text(),
            query@,
            filter@,
        ),
{
    let wanted = query.to_lowercase();
    let company = application.company().to_lowercase();
    let role = application.role().to_lowercase();
    let in_text = contains_text(company.as_str(), wanted.as_str()) || contains_text(
        role.as_str(),
        wanted.as_str(),
    );
    let in_status = same_text(filter, ALL_STATUSES) || same_text(application.status(), filter);
    in_text && in_status
}

/// The places of the first `upto` applications that pass, in their order.
pub open spec fn passing<T: Posting>(
    applications: Seq<T>,
    query: Seq<char>,
    filter: Seq<char>,
    upto: int,
) -> Seq<int>
    decreases upto,
{
    if upto <= 0 {
        Seq::empty()
    } else {
        let earlier = passing(applications, query, filter, upto - 1);
        let last = applications[upto - 1];
        if passes(last.company_text(), last.role_text(), last.status_text(), query, filter) {
            earlier.push(upto - 1)
        } else {
            earlier
        }
    }
}

/// What the list shows of what was searched for.
#[derive(Debug, Clone, PartialEq, Eq)]
pub struct Listing {
    /// The places of the applications that are shown, in their order.
    pub shown: Vec<usize>,
    /// How many applications pass in all.
    pub total: usize,
}

impl Listing {
    /// Whether more applications pass than are shown.
    pub fn has_more(&self) -> (more: bool)
        ensures
            more == (self.total > self.shown@.len()),
    {
        self.total > self.shown.len()
    }
}

/// The applications that the list shows: of those that pass the search
/// box and the status filter, the first `limit`, and how many pass in all.
pub fn list<T: Posting>(applications: &Vec<T>, query: &str, filter: &str, limit: usize) -> (listing:
    Listing)
    ensures
        ({
            let all = passing(applications@, query@, filter@, applications@.len() as int);
            &&& listing.total == all.len()
            &&& listing.shown@.len() == (if all.len() <= limit {
                all.len()
            } else {
                limit as nat
            })
            &&& forall|k: int| 0 <= k < listing.shown@.len() ==> listing.shown@[k] == all[k]
        }),
{
    let mut shown: Vec<usize> = Vec::new();
    let mut total: usize = 0;
    let mut i: usize = 0;
    while i < applications.len()
        invariant
            i <= applications@.len(),
            total == passing(applications@, query@, filter@, i as int).len(),
            total <= i,
            shown@.len() == (if total <= limit {
                total
            } else {
                limit
            }),
            forall|k: int|
                0 <= k < shown@.len() ==> shown@[k] == passing(
                    applications@,
                    query@,
                    filter@,
                    i as int,
                )[k],
        decreases applications@.len() - i,
    {
        if matches_search(&applications[i], query, filter) {
            if total < limit {
                shown.push(i);
            }
            total += 1;
        }
        i += 1;
    }
    Listing { shown, total }
}

} // verus!
