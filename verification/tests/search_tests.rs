use oisko::models::{Application, PublicApplication};
use oisko::pipeline::distinct_companies;
use oisko::search::{contains_text, list, matches_search, Listing, ALL_STATUSES, PAGE_SIZE};

fn application(company: &str, role: &str, status: &str) -> Application {
    Application {
        id: 1,
        user_id: 1,
        company: company.to_string(),
        company_website: None,
        role: role.to_string(),
        status: status.to_string(),
        salary: None,
        contact_person: None,
        cv_version: None,
        cv_path: None,
        cover_letter: None,
        cover_letter_path: None,
        logo_url: None,
        description: None,
        comment_count: None,
        created_at: 0,
        updated_at: 0,
    }
}

fn pipeline() -> Vec<Application> {
    vec![
        application("Acme", "Rust Engineer", "Applied"),
        application("Globex", "Designer", "Offer"),
        application("acme labs", "Manager", "Rejected"),
        application("Initech", "Rustacean", "Applied"),
        application("Acme", "Tester", "Interviewing"),
    ]
}

#[test]
fn contains_text_agrees_with_the_standard_library() {
    let samples = ["", "a", "ab", "abc", "abcabc", "bca", "é🚀é", "🚀", "cab", "aaa", "aa"];
    for hay in samples {
        for needle in samples {
            assert_eq!(contains_text(hay, needle), hay.contains(needle), "{:?} in {:?}", needle, hay);
        }
    }
}

#[test]
fn search_ignores_letter_case_and_looks_at_company_and_role() {
    let app = application("Acme Oy", "Rust Engineer", "Applied");
    assert!(matches_search(&app, "", "All"));
    assert!(matches_search(&app, "acme", "All"));
    assert!(matches_search(&app, "ACME", "All"));
    assert!(matches_search(&app, "engineer", "All"));
    assert!(matches_search(&app, "me o", "All"));
    assert!(!matches_search(&app, "globex", "All"));
    assert!(!matches_search(&app, "applied", "All"));
}

#[test]
fn status_filter_is_exact() {
    let app = application("Acme", "Engineer", "Applied");
    assert_eq!(ALL_STATUSES, "All");
    assert!(matches_search(&app, "", "Applied"));
    assert!(!matches_search(&app, "", "applied"));
    assert!(!matches_search(&app, "", "Offer"));
    assert!(!matches_search(&app, "", "all"));
    assert!(!matches_search(&app, "nothing", "Applied"));
}

#[test]
fn listing_shows_the_first_matches() {
    assert_eq!(PAGE_SIZE, 12);
    let apps = pipeline();
    assert_eq!(
        list(&apps, "", "All", PAGE_SIZE),
        Listing { shown: vec![0, 1, 2, 3, 4], total: 5 }
    );
    let some = list(&apps, "acme", "All", 2);
    assert_eq!(some, Listing { shown: vec![0, 2], total: 3 });
    assert!(some.has_more());
    let rust = list(&apps, "RUST", "Applied", 12);
    assert_eq!(rust, Listing { shown: vec![0, 3], total: 2 });
    assert!(!rust.has_more());
    assert_eq!(list(&apps, "zzz", "All", 12), Listing { shown: vec![], total: 0 });
    assert_eq!(list(&apps, "", "All", 0), Listing { shown: vec![], total: 5 });
    assert_eq!(
        list(&Vec::<Application>::new(), "", "All", 12),
        Listing { shown: vec![], total: 0 }
    );
}

#[test]
fn companies_are_counted_once() {
    assert_eq!(distinct_companies(&pipeline()), 4);
    assert_eq!(distinct_companies(&Vec::<Application>::new()), 0);
    assert_eq!(
        distinct_companies(&vec![
            application("A", "x", "s"),
            application("A", "y", "s"),
            application("A", "z", "s"),
        ]),
        1
    );
}

#[test]
fn public_applications_are_listed_and_tallied_alike() {
    let public = |company: &str, role: &str, status: &str| PublicApplication {
        id: 1,
        company: company.to_string(),
        company_website: None,
        role: role.to_string(),
        status: status.to_string(),
        logo_url: None,
        created_at: 0,
    };
    let apps = vec![
        public("Acme", "Engineer", "Applied"),
        public("Globex", "Designer", "Offer"),
        public("Acme", "Tester", "Accepted"),
    ];
    assert_eq!(list(&apps, "acme", "All", 12), Listing { shown: vec![0, 2], total: 2 });
    assert_eq!(distinct_companies(&apps), 2);
    assert_eq!(oisko::pipeline::count(&apps, oisko::pipeline::Tally::Successes), 2);
    assert_eq!(oisko::pipeline::count(&apps, oisko::pipeline::Tally::Active), 1);
}
