use crate::models::{Application, Posting};
use crate::text::same_text;
use vstd::prelude::*;

verus! {

/// How many stages an application can be in.
pub const STAGE_COUNT: usize = 5;

/// The stages of an application in the order of the board.
pub open spec fn stages() -> Seq<Seq<char>> {
    seq!["Applied"@, "Interviewing"@, "Offer"@, "Rejected"@, "Accepted"@]
}

/// The stage at place `index` of the board.
fn stage_at(index: usize) -> (stage: &'static str)
    requires
        index < STAGE_COUNT,
    ensures
        stage@ == stages()[index as int],
{
    if index == 0 {
        "Applied"
    } else if index == 1 {
        "Interviewing"
    } else if index == 2 {
        "Offer"
    } else if index == 3 {
        "Rejected"
    } else {
        "Accepted"
    }
}

/// The place of a status on the board, and the first place for a status
/// that is no stage.
pub open spec fn place_of(status: Seq<char>) -> int {
    if status == "Interviewing"@ {
        1
    } else if status == "Offer"@ {
        2
    } else if status == "Rejected"@ {
        3
    } else if status == "Accepted"@ {
        4
    } else {
        0
    }
}

proof fn lemma_place(status: Seq<char>, index: int)
    requires
        0 <= index < 5,
        stages()[index] == status,
    ensures
        place_of(status) == index,
{
    reveal_strlit("Applied");
    reveal_strlit("Interviewing");
    reveal_strlit("Offer");
    reveal_strlit("Rejected");
    reveal_strlit("Accepted");
    assert("Applied"@.len() == 7);
    assert("Interviewing"@.len() == 12);
    assert("Offer"@.len() == 5);
    assert("Rejected"@[0] == 'R');
    assert("Accepted"@[0] == 'A');
}

/// The place of a status on the board.
pub fn stage_index(status: &str) -> (index: usize)
    ensures
        index == place_of(status@),
        index < STAGE_COUNT,
{
    let mut index: usize = 0;
    while index < STAGE_COUNT
        invariant
            index <= STAGE_COUNT,
            forall|j: int| 0 <= j < index ==> stages()[j] != status@,
        decreases STAGE_COUNT - index,
    {
        if same_text(stage_at(index), status) {
            proof {
                lemma_place(status@, index as int);
            }
            return index;
        }
        index += 1;
    }
    proof {
        assert(stages()[1] != status@ && stages()[2] != status@ && stages()[3] != status@
            && stages()[4] != status@);
    }
    0
}

/// The stage before that of `status` on the board; none for the first
/// stage and for a status that is no stage.
pub fn previous_stage(status: &str) -> (stage: Option<&'static str>)
    ensures
        stage is Some == (place_of(status@) > 0),
        stage matches Some(s) ==> s@ == stages()[place_of(status@) - 1],
{
    let index = stage_index(status);
    if index > 0 {
        Some(stage_at(index - 1))
    } else {
        None
    }
}

/// The stage after that of `status` on the board; none for the last stage.
pub fn next_stage(status: &str) -> (stage: Option<&'static str>)
    ensures
        stage is Some == (place_of(status@) < STAGE_COUNT - 1),
        stage matches Some(s) ==> s@ == stages()[place_of(status@) + 1],
{
    let index = stage_index(status);
    if index < STAGE_COUNT - 1 {
        Some(stage_at(index + 1))
    } else {
        None
    }
}

/// Whether an application with this status came to a good end.
pub open spec fn is_success(status: Seq<char>) -> bool {
    status == "Offer"@ || status == "Accepted"@
}

/// Whether an application with this status is still under way: it has
/// neither come to a good end nor been rejected.
pub open spec fn is_in_progress(status: Seq<char>) -> bool {
    status != "Rejected"@ && status != "Offer"@ && status != "Accepted"@
}

/// Whether an application with this status is one that is being worked on.
pub open spec fn is_active(status: Seq<char>) -> bool {
    status == "Applied"@ || status == "Interviewing"@
}

/// How the applications of a pipeline are counted.
#[derive(Debug, Clone, Copy, PartialEq, Eq)]
pub enum Tally {
    /// Those that came to a good end.
    Successes,
    /// Those that have neither come to a good end nor been rejected.
    InProgress,
    /// Those that were sent or are in interviews.
    Active,
}

impl Tally {
    /// Whether an application with this status is counted.
    pub open spec fn counts(self, status: Seq<char>) -> bool {
        match self {
            Tally::Successes => is_success(status),
            Tally::InProgress => is_in_progress(status),
            Tally::Active => is_active(status),
        }
    }

    /// Whether an application with this status is counted.
    pub fn includes(self, status: &str) -> (counted: bool)
        ensures
            counted == self.counts(status@),
    {
        match self {
            Tally::Successes => same_text(status, "Offer") || same_text(status, "Accepted"),
            Tally::InProgress => !same_text(status, "Rejected") && !same_text(status, "Offer")
                && !same_text(status, "Accepted"),
            Tally::Active => same_text(status, "Applied") || same_text(status, "Interviewing"),
        }
    }
}

/// How many of the first `upto` applications are counted by `tally`.
pub open spec fn tally_of<T: Posting>(applications: Seq<T>, tally: Tally, upto: int) -> int
    decreases upto,
{
    if upto <= 0 {
        0
    } else {
        tally_of(applications, tally, upto - 1) + (if tally.counts(
            applications[upto - 1].status_text(),
        ) {
            1int
        } else {
            0int
        })
    }
}

/// How many of the applications are counted by `tally`.
pub fn count<T: Posting>(applications: &Vec<T>, tally: Tally) -> (n: usize)
    ensures
        n == tally_of(applications@, tally, applications@.len() as int),
        n <= applications@.len(),
{
    let mut n: usize = 0;
    let mut i: usize = 0;
    while i < applications.len()
        invariant
            i <= applications@.len(),
            n == tally_of(applications@, tally, i as int),
            n <= i,
        decreases applications@.len() - i,
    {
        if tally.includes(applications[i].status()) {
            n += 1;
        }
        i += 1;
    }
    n
}

/// The share of `part` in `whole` in percent, rounded down; 0 where
/// `whole` is 0.
pub open spec fn percent_of(part: int, whole: int) -> int {
    if whole <= 0 {
        0
    } else {
        part * 100 / whole
    }
}

/// The share in percent, rounded down, of the applications that came to
/// a good end; 0 where there are no applications.
pub fn success_rate<T: Posting>(applications: &Vec<T>) -> (rate: u32)
    ensures
        rate == percent_of(
            tally_of(applications@, Tally::Successes, applications@.len() as int),
            applications@.len() as int,
        ),
        rate <= 100,
{
    let total = applications.len();
    if total == 0 {
        return 0;
    }
    let successes = count(applications, Tally::Successes);
    let rate: u128 = successes as u128 * 100 / (total as u128);
    proof {
        assert(successes * 100 / (total as int) <= 100) by (nonlinear_arith)
            requires
                0 <= successes <= total,
                total > 0,
        ;
    }
    rate as u32
}

/// The comments on the first `upto` applications, an application without
/// a count having none.
pub open spec fn comments_of(applications: Seq<Application>, upto: int) -> int
    decreases upto,
{
    if upto <= 0 {
        0
    } else {
        comments_of(applications, upto - 1) + (match applications[upto - 1].comment_count {
            Some(n) => n as int,
            None => 0int,
        })
    }
}

/// Whether every sum of the comments on the first applications, up to
/// `upto` of them, fits in 64 bits.
pub open spec fn comments_fit(applications: Seq<Application>, upto: int) -> bool {
    forall|k: int| 0 <= k <= upto ==> i64::MIN <= #[trigger] comments_of(applications, k) <= i64::MAX
}

/// The comments on all the applications together. There is no number
/// where adding them up one after the other leaves the range of 64 bits.
pub fn total_comments(applications: &Vec<Application>) -> (total: Option<i64>)
    ensures
        total is Some == comments_fit(applications@, applications@.len() as int),
        total matches Some(n) ==> n == comments_of(applications@, applications@.len() as int),
{
    let mut total: i64 = 0;
    let mut i: usize = 0;
    while i < applications.len()
        invariant
            i <= applications@.len(),
            total == comments_of(applications@, i as int),
            comments_fit(applications@, i as int),
        decreases applications@.len() - i,
    {
        let more = match applications[i].comment_count {
            Some(n) => n,
            None => 0,
        };
        match total.checked_add(more) {
            Some(next) => {
                total = next;
            },
            None => {
                assert(!comments_fit(applications@, applications@.len() as int)) by {
                    assert(comments_of(applications@, i + 1) == total + more);
                }
                return None;
            },
        }
        i += 1;
    }
    Some(total)
}

/// The companies of the applications.
pub open spec fn companies<T: Posting>(applications: Seq<T>) -> Seq<Seq<char>> {
    applications.map_values(|a: T| a.company_text())
}

/// How many companies the applications are with, a company that has
/// several of them counted once.
pub fn distinct_companies<T: Posting>(applications: &Vec<T>) -> (n: usize)
    ensures
        n == companies(applications@).to_set().len(),
{
    let ghost names = companies(applications@);
    let mut n: usize = 0;
    let mut i: usize = 0;
    proof {
        assert(names.take(0).to_set() =~= Set::<Seq<char>>::empty());
    }
    while i < applications.len()
        invariant
            i <= applications@.len(),
            names == companies(applications@),
            n == names.take(i as int).to_set().len(),
            n <= i,
        decreases applications@.len() - i,
    {
        let mut seen = false;
        let mut j: usize = 0;
        while j < i
            invariant
                j <= i,
                i < applications@.len(),
                names == companies(applications@),
                !seen ==> forall|k: int| 0 <= k < j ==> names[k] != names[i as int],
                seen ==> names.take(i as int).contains(names[i as int]),
            decreases i - j,
        {
            if same_text(applications[j].company(), applications[i].company()) {
                seen = true;
                proof {
                    assert(names.take(i as int)[j as int] == names[i as int]);
                }
            }
            j += 1;
        }
        proof {
            let before = names.take(i as int);
            vstd::seq_lib::seq_to_set_is_finite(before);
            assert(names.take(i + 1) =~= before.push(names[i as int]));
            before.lemma_push_to_set_commute(names[i as int]);
            if !seen {
                if before.contains(names[i as int]) {
                    let k = choose|k: int| 0 <= k < before.len() && before[k] == names[i as int];
                    assert(names[k] == names[i as int]);
                }
                assert(!before.to_set().contains(names[i as int]));
            } else {
                assert(before.to_set().contains(names[i as int]));
                assert(before.to_set().insert(names[i as int]) =~= before.to_set());
            }
        }
        if !seen {
            n += 1;
        }
        i += 1;
    }
    proof {
        assert(names.take(applications@.len() as int) =~= names);
    }
    n
}

} // verus!
