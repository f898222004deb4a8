use crate::text::{before_first, chars_of, first_field, opt_text, trim, trimmed};
use scraper::{Html, Selector};
use vstd::prelude::*;
use vstd::string::StringExecFns;

verus! {

/// What is asked about a company: the address of its web page.
#[derive(Debug, Clone, PartialEq, Eq)]
pub struct IntelQuery {
    pub url: String,
}

/// What a company's web page tells about it.
#[derive(Debug, Clone, PartialEq, Eq)]
pub struct CompanyIntel {
    pub company_name: Option<String>,
    pub description: Option<String>,
    pub logo_url: Option<String>,
}

/// Why nothing could be told about a company.
#[derive(Debug, Clone, Copy, PartialEq, Eq)]
pub enum IntelFailure {
    /// 400: the page could not be reached.
    Unreachable,
    /// 500: the page could not be read.
    Unreadable,
}

impl IntelFailure {
    /// The status code of the reply.
    pub fn status_code(self) -> (code: u16)
        ensures
            code == (match self {
                IntelFailure::Unreachable => 400u16,
                IntelFailure::Unreadable => 500u16,
            }),
    {
        match self {
            IntelFailure::Unreachable => 400,
            IntelFailure::Unreadable => 500,
        }
    }

    /// The text that the reply carries.
    pub fn message(self) -> (text: &'static str)
        ensures
            text@ == (match self {
                IntelFailure::Unreachable => "Failed to reach URL"@,
                IntelFailure::Unreadable => "Failed to read body"@,
            }),
    {
        match self {
            IntelFailure::Unreachable => "Failed to reach URL",
            IntelFailure::Unreadable => "Failed to read body",
        }
    }
}

/// The value of `attribute` on the first element that matches
/// `selector` in the HTML document that `body` spells, as the `scraper`
/// crate reads it; nothing where the selector cannot be read, nothing
/// matches, or the element lacks the attribute.
pub uninterp spec fn html_attribute(
    body: Seq<char>,
    selector: Seq<char>,
    attribute: Seq<char>,
) -> Option<Seq<char>>;

/// The text inside the first element that matches `selector` in the
/// HTML document that `body` spells, as the `scraper` crate reads it;
/// nothing where the selector cannot be read or nothing matches.
pub uninterp spec fn html_text(body: Seq<char>, selector: Seq<char>) -> Option<Seq<char>>;

/// `scraper::Html::select` on the document read by
/// `scraper::Html::parse_document`, with a selector read by
/// `scraper::Selector::parse`, followed by `scraper::node::Element::attr`:
/// the value of `attribute` on the first matching element.
#[verifier::external_body]
fn first_attribute(body: &str, selector: &str, attribute: &str) -> (found: Option<String>)
    ensures
        opt_text(found) == html_attribute(body@, selector@, attribute@),
{
    let document = Html::parse_document(body);
    let selector = match Selector::parse(selector) {
        Ok(selector) => selector,
        Err(_) => return None,
    };
    match document.select(&selector).next() {
        Some(element) => match element.value().attr(attribute) {
            Some(value) => Some(value.to_string()),
            None => None,
        },
        None => None,
    }
}

/// `scraper::Html::select` on the document read by
/// `scraper::Html::parse_document`, with a selector read by
/// `scraper::Selector::parse`, followed by `scraper::ElementRef::text`:
/// the text inside the first matching element.
#[verifier::external_body]
fn first_text(body: &str, selector: &str) -> (found: Option<String>)
    ensures
        opt_text(found) == html_text(body@, selector@),
{
    let document = Html::parse_document(body);
    let selector = match Selector::parse(selector) {
        Ok(selector) => selector,
        Err(_) => return None,
    };
    match document.select(&selector).next() {
        Some(element) => Some(element.text().collect::<Vec<_>>().join("")),
        None => None,
    }
}

/// The address that `relative` names when it is read on the page at
/// `base`, as `reqwest::Url::join` resolves it; nothing where `base` is
/// no address or the two cannot be joined.
pub uninterp spec fn joined_url(base: Seq<char>, relative: Seq<char>) -> Option<Seq<char>>;

/// `reqwest::Url::join` on an address read by `reqwest::Url::parse`: the
/// address that `relative` names when it is read on the page at `base`.
#[verifier::external_body]
fn join_url(base: &str, relative: &str) -> (joined: Option<String>)
    ensures
        opt_text(joined) == joined_url(base@, relative@),
{
    match reqwest::Url::parse(base) {
        Ok(base) => match base.join(relative) {
            Ok(joined) => Some(joined.to_string()),
            Err(_) => None,
        },
        Err(_) => None,
    }
}

/// The selector for the elements `tag` whose attribute `attribute` is `value`.
pub open spec fn selector_for(tag: Seq<char>, attribute: Seq<char>, value: Seq<char>) -> Seq<char> {
    tag + "["@ + attribute + "='"@ + value + "']"@
}

/// The selector for the elements `tag` whose attribute `attribute` is `value`.
pub fn attribute_selector(tag: &str, attribute: &str, value: &str) -> (selector: String)
    ensures
        selector@ == selector_for(tag@, attribute@, value@),
{
    let mut selector = String::from_str(tag);
    selector.append("[");
    selector.append(attribute);
    selector.append("='");
    selector.append(value);
    selector.append("']");
    selector
}

/// The content of the first `meta` element of the page whose attribute
/// `attribute` is `value`.
pub open spec fn meta_content(
    body: Seq<char>,
    attribute: Seq<char>,
    value: Seq<char>,
) -> Option<Seq<char>> {
    html_attribute(body, selector_for("meta"@, attribute, value), "content"@)
}

/// The text of the page's title.
pub open spec fn title_text(body: Seq<char>) -> Option<Seq<char>> {
    html_text(body, "title"@)
}

/// The target of the first `link` element of the page whose relation is `rel`.
pub open spec fn link_target(body: Seq<char>, rel: Seq<char>) -> Option<Seq<char>> {
    html_attribute(body, selector_for("link"@, "rel"@, rel), "href"@)
}

/// The content of the first `meta` element of the page whose attribute
/// `attribute` is `value`.
fn extract_meta(body: &str, attribute: &str, value: &str) -> (found: Option<String>)
    ensures
        opt_text(found) == meta_content(body@, attribute@, value@),
{
    let selector = attribute_selector("meta", attribute, value);
    first_attribute(body, selector.as_str(), "content")
}

/// The text of the page's title.
fn extract_title(body: &str) -> (found: Option<String>)
    ensures
        opt_text(found) == title_text(body@),
{
    first_text(body, "title")
}

/// The target of the first `link` element of the page whose relation is `rel`.
fn extract_link_rel(body: &str, rel: &str) -> (found: Option<String>)
    ensures
        opt_text(found) == link_target(body@, rel@),
{
    let selector = attribute_selector("link", "rel", rel);
    first_attribute(body, selector.as_str(), "href")
}

/// Whether `text` begins with the letters `http`.
pub open spec fn begins_with_http(text: Seq<char>) -> bool {
    text.len() >= 4 && text.take(4) == "http"@
}

/// The address of a resource that a page names: the name itself where
/// it begins with `http`, else the name resolved on the page's address,
/// and the name as it is where that cannot be done.
pub open spec fn absolute_url_of(base: Seq<char>, relative: Seq<char>) -> Seq<char> {
    if begins_with_http(relative) {
        relative
    } else {
        match joined_url(base, relative) {
            Some(joined) => joined,
            None => relative,
        }
    }
}

/// The address of a resource that the page at `base` names as `relative`.
pub fn make_absolute_url(base: &str, relative: &str) -> (url: String)
    ensures
        url@ == absolute_url_of(base@, relative@),
{
    proof {
        reveal_strlit("http");
    }
    let chars = chars_of(relative);
    if chars.len() >= 4 && chars[0] == 'h' && chars[1] == 't' && chars[2] == 't' && chars[3]
        == 'p' {
        proof {
            assert(relative@.take(4) =~= "http"@);
        }
        return String::from_str(relative);
    }
    proof {
        if begins_with_http(relative@) {
            assert(relative@.take(4)[0] == 'h');
            assert(relative@.take(4)[1] == 't');
            assert(relative@.take(4)[2] == 't');
            assert(relative@.take(4)[3] == 'p');
        }
    }
    match join_url(base, relative) {
        Some(joined) => joined,
        None => String::from_str(relative),
    }
}

/// A company's name as a page gives it, tidied: what stands before the
/// first `|`, without white space around it.
pub open spec fn tidy_name(raw: Seq<char>) -> Seq<char> {
    trimmed(before_first(trimmed(raw), '|'))
}

/// A company's name as a page gives it, tidied.
pub fn clean_company_name(raw: &str) -> (name: String)
    ensures
        name@ == tidy_name(raw@),
{
    let outer = trim(raw);
    let first = first_field(outer.as_str(), '|');
    trim(first.as_str())
}

/// The first of two texts that is there.
pub open spec fn or(first: Option<Seq<char>>, second: Option<Seq<char>>) -> Option<Seq<char>> {
    if first is Some {
        first
    } else {
        second
    }
}

/// What a page tells about a company, from what was found on it. The
/// name is the site's name, or else the title, tidied. The description
/// is the one for sharing, or else the plain one. The logo is the image
/// for sharing, or else the first icon that the page names, as an
/// absolute address.
pub open spec fn intel_of(
    page_url: Seq<char>,
    site_name: Option<Seq<char>>,
    title: Option<Seq<char>>,
    shared_description: Option<Seq<char>>,
    plain_description: Option<Seq<char>>,
    shared_image: Option<Seq<char>>,
    touch_icon: Option<Seq<char>>,
    icon: Option<Seq<char>>,
    shortcut_icon: Option<Seq<char>>,
) -> (Option<Seq<char>>, Option<Seq<char>>, Option<Seq<char>>) {
    (
        match or(site_name, title) {
            Some(raw) => Some(tidy_name(raw)),
            None => None,
        },
        or(shared_description, plain_description),
        match or(or(or(shared_image, touch_icon), icon), shortcut_icon) {
            Some(relative) => Some(absolute_url_of(page_url, relative)),
            None => None,
        },
    )
}

fn first_of(first: Option<String>, second: Option<String>) -> (found: Option<String>)
    ensures
        opt_text(found) == or(opt_text(first), opt_text(second)),
{
    match first {
        Some(text) => Some(text),
        None => second,
    }
}

/// What a page tells about a company, from what was found on it.
pub fn assemble_intel(
    page_url: &str,
    site_name: Option<String>,
    title: Option<String>,
    shared_description: Option<String>,
    plain_description: Option<String>,
    shared_image: Option<String>,
    touch_icon: Option<String>,
    icon: Option<String>,
    shortcut_icon: Option<String>,
) -> (intel: CompanyIntel)
    ensures
        (opt_text(intel.company_name), opt_text(intel.description), opt_text(intel.logo_url))
            == intel_of(
            page_url@,
            opt_text(site_name),
            opt_text(title),
            opt_text(shared_description),
            opt_text(plain_description),
            opt_text(shared_image),
            opt_text(touch_icon),
            opt_text(icon),
            opt_text(shortcut_icon),
        ),
{
    let company_name = match first_of(site_name, title) {
        Some(raw) => Some(clean_company_name(raw.as_str())),
        None => None,
    };
    let description = first_of(shared_description, plain_description);
    let logo = first_of(first_of(first_of(shared_image, touch_icon), icon), shortcut_icon);
    let logo_url = match logo {
        Some(relative) => Some(make_absolute_url(page_url, relative.as_str())),
        None => None,
    };
    CompanyIntel { company_name, description, logo_url }
}

/// What the page at `page_url`, whose text is `body`, tells about the
/// company. The name is the site's name for sharing, or else the title,
/// tidied. The description is the one for sharing, or else the plain
/// one. The logo is the image for sharing, or else the first of the
/// touch icon, the icon and the shortcut icon that the page names, as an
/// absolute address.
pub open spec fn page_intel(page_url: Seq<char>, body: Seq<char>) -> (
    Option<Seq<char>>,
    Option<Seq<char>>,
    Option<Seq<char>>,
) {
    intel_of(
        page_url,
        meta_content(body, "property"@, "og:site_name"@),
        title_text(body),
        meta_content(body, "property"@, "og:description"@),
        meta_content(body, "name"@, "description"@),
        meta_content(body, "property"@, "og:image"@),
        link_target(body, "apple-touch-icon"@),
        link_target(body, "icon"@),
        link_target(body, "shortcut icon"@),
    )
}

/// What the page at `query.url`, whose text is `body`, tells about the
/// company: its name from the site's name or the title, its description,
/// and the address of its logo. A later place on the page is looked at
/// only where the earlier ones gave nothing.
pub fn company_intel(query: &IntelQuery, body: &str) -> (intel: CompanyIntel)
    ensures
        (opt_text(intel.company_name), opt_text(intel.description), opt_text(intel.logo_url))
            == page_intel(query.url@, body@),
{
    let raw_name = match extract_meta(body, "property", "og:site_name") {
        Some(name) => Some(name),
        None => extract_title(body),
    };
    let company_name = match raw_name {
        Some(raw) => Some(clean_company_name(raw.as_str())),
        None => None,
    };
    let description = match extract_meta(body, "property", "og:description") {
        Some(text) => Some(text),
        None => extract_meta(body, "name", "description"),
    };
    let image = match extract_meta(body, "property", "og:image") {
        Some(image) => Some(image),
        None => match extract_link_rel(body, "apple-touch-icon") {
            Some(icon) => Some(icon),
            None => match extract_link_rel(body, "icon") {
                Some(icon) => Some(icon),
                None => extract_link_rel(body, "shortcut icon"),
            },
        },
    };
    let logo_url = match image {
        Some(relative) => Some(make_absolute_url(query.url.as_str(), relative.as_str())),
        None => None,
    };
    CompanyIntel { company_name, description, logo_url }
}

} // verus!
