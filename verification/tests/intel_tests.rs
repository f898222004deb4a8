use oisko::intel::{
    assemble_intel, attribute_selector, clean_company_name, company_intel, make_absolute_url,
    CompanyIntel, IntelFailure, IntelQuery,
};

fn query(url: &str) -> IntelQuery {
    IntelQuery { url: url.to_string() }
}

fn some(text: &str) -> Option<String> {
    Some(text.to_string())
}

#[test]
fn absolute_addresses_stay() {
    assert_eq!(make_absolute_url("https://ex.com/a/", "http://cdn.com/l.png"), "http://cdn.com/l.png");
    assert_eq!(make_absolute_url("https://ex.com/a/", "https://cdn.com/l.png"), "https://cdn.com/l.png");
    assert_eq!(make_absolute_url("https://ex.com/a/", "httpfoo"), "httpfoo");
}

#[test]
fn relative_addresses_are_resolved_on_the_page() {
    assert_eq!(
        make_absolute_url("https://example.com/jobs/page.html", "/logo.png"),
        "https://example.com/logo.png"
    );
    assert_eq!(
        make_absolute_url("https://example.com/jobs/page.html", "img/l.png"),
        "https://example.com/jobs/img/l.png"
    );
    assert_eq!(
        make_absolute_url("https://example.com/jobs/page.html", "//cdn.example.org/a.png"),
        "https://cdn.example.org/a.png"
    );
    assert_eq!(
        make_absolute_url("https://example.com/jobs/", "../up.ico"),
        "https://example.com/up.ico"
    );
}

#[test]
fn what_cannot_be_resolved_stays_as_it_is() {
    assert_eq!(make_absolute_url("not an address", "/logo.png"), "/logo.png");
    assert_eq!(make_absolute_url("", "logo.png"), "logo.png");
}

#[test]
fn company_names_are_tidied() {
    assert_eq!(clean_company_name("  Acme | Careers | Home "), "Acme");
    assert_eq!(clean_company_name("Acme"), "Acme");
    assert_eq!(clean_company_name("| Acme"), "");
    assert_eq!(clean_company_name("\n\tAcme Oy\u{a0}|x"), "Acme Oy");
    assert_eq!(clean_company_name(""), "");
}

#[test]
fn selectors_are_spelled_with_single_quotes() {
    assert_eq!(attribute_selector("meta", "property", "og:image"), "meta[property='og:image']");
    assert_eq!(attribute_selector("link", "rel", "shortcut icon"), "link[rel='shortcut icon']");
}

#[test]
fn assembling_prefers_the_first_that_is_there() {
    assert_eq!(
        assemble_intel(
            "https://ex.com/",
            some(" Site | x"),
            some("Title"),
            some("shared"),
            some("plain"),
            some("/og.png"),
            some("/touch.png"),
            some("/icon.png"),
            some("/short.png"),
        ),
        CompanyIntel {
            company_name: some("Site"),
            description: some("shared"),
            logo_url: some("https://ex.com/og.png"),
        }
    );
    assert_eq!(
        assemble_intel("https://ex.com/", None, some("Title"), None, some("plain"), None, None, None, some("s.ico")),
        CompanyIntel {
            company_name: some("Title"),
            description: some("plain"),
            logo_url: some("https://ex.com/s.ico"),
        }
    );
    assert_eq!(
        assemble_intel("https://ex.com/", None, None, None, None, None, None, some("i.ico"), some("s.ico")),
        CompanyIntel { company_name: None, description: None, logo_url: some("https://ex.com/i.ico") }
    );
    assert_eq!(
        assemble_intel("https://ex.com/", None, None, None, None, None, None, None, None),
        CompanyIntel { company_name: None, description: None, logo_url: None }
    );
}

#[test]
fn intel_is_read_from_a_page() {
    let body = r#"<!doctype html><html><head>
        <title> Acme Corp | Careers </title>
        <meta name="description" content="We build rockets.">
        <meta property="og:description" content="Rockets for everyone.">
        <link rel="icon" href="/favicon.ico">
        <link rel="apple-touch-icon" href="touch.png">
        </head><body><p>Hello</p></body></html>"#;
    assert_eq!(
        company_intel(&query("https://acme.example/about/"), body),
        CompanyIntel {
            company_name: some("Acme Corp"),
            description: some("Rockets for everyone."),
            logo_url: some("https://acme.example/about/touch.png"),
        }
    );
}

#[test]
fn site_name_and_shared_image_come_first() {
    let body = r#"<html><head><title>Ignored</title>
        <meta property="og:site_name" content="Acme">
        <meta property="og:image" content="https://cdn.acme.example/og.png">
        <link rel="icon" href="/favicon.ico"></head></html>"#;
    assert_eq!(
        company_intel(&query("https://acme.example/"), body),
        CompanyIntel {
            company_name: some("Acme"),
            description: None,
            logo_url: some("https://cdn.acme.example/og.png"),
        }
    );
}

#[test]
fn an_empty_page_tells_nothing() {
    assert_eq!(
        company_intel(&query("https://acme.example/"), ""),
        CompanyIntel { company_name: None, description: None, logo_url: None }
    );
}

#[test]
fn failures_have_their_codes_and_texts() {
    assert_eq!(IntelFailure::Unreachable.status_code(), 400);
    assert_eq!(IntelFailure::Unreachable.message(), "Failed to reach URL");
    assert_eq!(IntelFailure::Unreadable.status_code(), 500);
    assert_eq!(IntelFailure::Unreadable.message(), "Failed to read body");
}
