use oisko::handlers::Reply;
use oisko::models::Application;
use oisko::pipeline::{
    count, next_stage, previous_stage, stage_index, success_rate, total_comments, Tally,
    STAGE_COUNT,
};
use oisko::stats::{peak_count, status_color, total_count, DailyCount, DashboardStats, StatusCount};

fn day(count: i64) -> DailyCount {
    DailyCount { date: "2026-01-16".to_string(), count }
}

fn of(status: &str, count: i64) -> StatusCount {
    StatusCount { status: status.to_string(), count }
}

fn application(status: &str, comments: Option<i64>) -> Application {
    Application {
        id: 1,
        user_id: 1,
        company: "Acme".to_string(),
        company_website: None,
        role: "Engineer".to_string(),
        status: status.to_string(),
        salary: None,
        contact_person: None,
        cv_version: None,
        cv_path: None,
        cover_letter: None,
        cover_letter_path: None,
        logo_url: None,
        description: None,
        comment_count: comments,
        created_at: 0,
        updated_at: 0,
    }
}

#[test]
fn dashboard_needs_both_readings() {
    assert_eq!(
        DashboardStats::assemble(Some(vec![day(1)]), Some(vec![of("Offer", 2)])),
        Ok(DashboardStats {
            daily_activity: vec![day(1)],
            status_distribution: vec![of("Offer", 2)],
        })
    );
    assert_eq!(DashboardStats::assemble(None, Some(vec![])), Err(Reply::StatsUnavailable));
    assert_eq!(DashboardStats::assemble(Some(vec![]), None), Err(Reply::StatsUnavailable));
    assert_eq!(DashboardStats::assemble(None, None), Err(Reply::StatsUnavailable));
}

#[test]
fn peak_is_the_largest_count_and_at_least_one() {
    assert_eq!(peak_count(&vec![]), 1);
    assert_eq!(peak_count(&vec![day(0), day(0)]), 1);
    assert_eq!(peak_count(&vec![day(3), day(7), day(2)]), 7);
    assert_eq!(peak_count(&vec![day(-3)]), 1);
    assert_eq!(peak_count(&vec![day(i64::MAX), day(1)]), i64::MAX);
}

#[test]
fn total_is_the_sum_where_it_fits() {
    assert_eq!(total_count(&vec![]), Some(0));
    assert_eq!(total_count(&vec![of("Applied", 3), of("Offer", 4)]), Some(7));
    assert_eq!(total_count(&vec![of("a", i64::MAX), of("b", 1)]), None);
    assert_eq!(total_count(&vec![of("a", i64::MAX), of("b", 1), of("c", -1)]), None);
    assert_eq!(total_count(&vec![of("a", i64::MAX), of("c", -1), of("b", 1)]), Some(i64::MAX));
}

#[test]
fn colours_by_status() {
    assert_eq!(status_color("Offer"), "#10b981");
    assert_eq!(status_color("Accepted"), "#10b981");
    assert_eq!(status_color("Rejected"), "#ef4444");
    assert_eq!(status_color("Interviewing"), "#f59e0b");
    assert_eq!(status_color("Applied"), "#00f3ff");
    assert_eq!(status_color("offer"), "#00f3ff");
    assert_eq!(status_color(""), "#00f3ff");
}

#[test]
fn stages_of_the_board() {
    assert_eq!(STAGE_COUNT, 5);
    let names = ["Applied", "Interviewing", "Offer", "Rejected", "Accepted"];
    for (i, name) in names.iter().enumerate() {
        assert_eq!(stage_index(name), i);
    }
    assert_eq!(stage_index("Ghosted"), 0);
    assert_eq!(stage_index(""), 0);
}

#[test]
fn moving_along_the_board() {
    assert_eq!(previous_stage("Applied"), None);
    assert_eq!(next_stage("Applied"), Some("Interviewing"));
    assert_eq!(previous_stage("Offer"), Some("Interviewing"));
    assert_eq!(next_stage("Offer"), Some("Rejected"));
    assert_eq!(previous_stage("Accepted"), Some("Rejected"));
    assert_eq!(next_stage("Accepted"), None);
    assert_eq!(previous_stage("Ghosted"), None);
    assert_eq!(next_stage("Ghosted"), Some("Interviewing"));
}

#[test]
fn tallies_of_a_pipeline() {
    let apps = vec![
        application("Applied", Some(2)),
        application("Offer", None),
        application("Rejected", Some(1)),
        application("Accepted", Some(0)),
        application("Interviewing", Some(4)),
        application("Ghosted", None),
    ];
    assert_eq!(count(&apps, Tally::Successes), 2);
    assert_eq!(count(&apps, Tally::Active), 2);
    assert_eq!(count(&apps, Tally::InProgress), 3);
    assert_eq!(count(&Vec::<Application>::new(), Tally::Active), 0);
    assert_eq!(total_comments(&apps), Some(7));
    assert_eq!(total_comments(&vec![]), Some(0));
    assert_eq!(
        total_comments(&vec![application("a", Some(i64::MAX)), application("b", Some(1))]),
        None
    );
}

#[test]
fn success_rate_is_a_truncated_percentage() {
    assert_eq!(success_rate(&Vec::<Application>::new()), 0);
    let of = |won: usize, lost: usize| {
        let mut apps = Vec::new();
        for _ in 0..won {
            apps.push(application("Offer", None));
        }
        for _ in 0..lost {
            apps.push(application("Rejected", None));
        }
        success_rate(&apps)
    };
    assert_eq!(of(0, 5), 0);
    assert_eq!(of(5, 0), 100);
    assert_eq!(of(1, 2), 33);
    assert_eq!(of(2, 1), 66);
    assert_eq!(of(1, 1), 50);
    assert_eq!(of(1, 6), 14);
    assert_eq!(of(29, 71), 29);
    assert_eq!(of(199, 1), 99);
    let mixed = vec![
        application("Accepted", None),
        application("Applied", None),
        application("Interviewing", None),
    ];
    assert_eq!(success_rate(&mixed), 33);
}
