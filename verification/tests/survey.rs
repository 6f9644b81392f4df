use rawhide_scrape::survey::keep_distribution;
use rawhide_scrape::survey::parse_line;
use rawhide_scrape::survey::Survey;
use rawhide_scrape::survey::FetchTarget;
use rawhide_scrape::survey::Outcome;
use rawhide_scrape::survey::Request;
use rawhide_scrape::survey::TARGET_DISTRIBUTION;
use rawhide_scrape::client::Answer;
use rawhide_scrape::client::Client;
use rawhide_scrape::client::BASE_URL;
use rawhide_scrape::error::Error;
use rawhide_scrape::table::Version;

const FOO_PAGE: &str = r#"<html><body><table id="version-table">
  <thead><tr><th>Release</th><th>Stable</th></tr></thead>
  <tbody>
    <tr><td>Fedora Rawhide</td><td>1.2.3-1.fc41</td></tr>
    <tr><td>Fedora 40</td><td>1.2.0-1.fc40</td></tr>
  </tbody>
</table></body></html>"#;

const STABLE_ONLY_PAGE: &str = r#"<table id="version-table"><tbody>
    <tr><td>Fedora 40</td><td>1.2.0-1.fc40</td></tr>
    <tr><td>fedora rawhide</td><td>0.9</td></tr>
</tbody></table>"#;

fn version(distribution: &str, version: &str) -> Version {
    Version { distribution: distribution.to_string(), version: version.to_string() }
}

fn response(status: u16, body: &str) -> Answer {
    Answer::Response { status, body: body.to_string() }
}

/// The site of the tests: what it answers to the request for an address.
fn site(url: &str) -> Answer {
    match url {
        "https://packages.fedoraproject.org/pkgs/rust-foo/rust-foo-devel" => response(200, FOO_PAGE),
        "https://packages.fedoraproject.org/pkgs/rust-old/rust-old-devel" => {
            response(200, STABLE_ONLY_PAGE)
        }
        "https://packages.fedoraproject.org/pkgs/rust-broken/rust-broken-devel" => response(500, ""),
        _ => response(404, "Not Found"),
    }
}

/// Runs the lines through a fresh survey of the site of the tests. Gives
/// what each line came to (`None` for a line that was passed over), the
/// addresses that were asked for, the count, and the error that ended the
/// survey, if any.
fn run(lines: &[&str]) -> (Vec<Option<Outcome>>, Vec<String>, u64, Option<Error>) {
    let mut survey = Survey::default();
    let mut outcomes = Vec::new();
    let mut asked = Vec::new();
    for line in lines {
        assert!(survey.line_fits(line));
        match survey.request(line) {
            Err(error) => return (outcomes, asked, survey.missing, Some(error)),
            Ok(None) => outcomes.push(None),
            Ok(Some(request)) => {
                asked.push(request.url.clone());
                let answer = site(&request.url);
                assert!(answer.is_readable());
                match survey.settle(answer) {
                    Ok(outcome) => outcomes.push(Some(outcome)),
                    Err(error) => return (outcomes, asked, survey.missing, Some(error)),
                }
            }
        }
    }
    (outcomes, asked, survey.missing, None)
}

#[test]
fn a_package_is_looked_up_under_its_rust_names() {
    let target = FetchTarget::for_package("foo");
    assert_eq!(target.primary, "rust-foo");
    assert_eq!(target.secondary, "rust-foo-devel");
    let target = FetchTarget::for_package("serde_json");
    assert_eq!(target.primary, "rust-serde_json");
    assert_eq!(target.secondary, "rust-serde_json-devel");
}

#[test]
fn a_package_without_a_name_still_has_segments() {
    let target = FetchTarget::for_package("");
    assert_eq!(target.primary, "rust-");
    assert_eq!(target.secondary, "rust--devel");
}

#[test]
fn a_line_is_a_name_a_space_and_a_version() {
    assert_eq!(parse_line("foo 1.0"), Some(("foo", "1.0")));
    assert_eq!(parse_line("bar 2.0"), Some(("bar", "2.0")));
}

#[test]
fn a_line_is_split_at_its_first_space_only() {
    assert_eq!(parse_line("foo 1.0 beta"), Some(("foo", "1.0 beta")));
    assert_eq!(parse_line("foo  1.0"), Some(("foo", " 1.0")));
    assert_eq!(parse_line(" 1.0"), Some(("", "1.0")));
}

#[test]
fn a_line_without_a_space_is_nothing() {
    assert_eq!(parse_line("malformed"), None);
    assert_eq!(parse_line(""), None);
    assert_eq!(parse_line("foo\t1.0"), None);
}

#[test]
fn filtering_is_exact_and_case_sensitive() {
    let records = vec![version("fedora rawhide", "1.0")];
    assert_eq!(keep_distribution(records, "Fedora Rawhide"), vec![]);
    let records = vec![
        version("Fedora Rawhide", "1.2.3-1.fc41"),
        version("fedora rawhide", "1.0"),
        version("FEDORA RAWHIDE", "1.1"),
        version("Fedora Rawhide ", "1.2"),
        version("Fedora  Rawhide", "1.3"),
        version("Fedora Rawhid", "1.4"),
        version("", "1.5"),
        version("Fedora Rawhide", "1.6"),
    ];
    assert_eq!(
        keep_distribution(records, "Fedora Rawhide"),
        vec![version("Fedora Rawhide", "1.2.3-1.fc41"), version("Fedora Rawhide", "1.6")]
    );
}

#[test]
fn filtering_keeps_order_and_duplicates() {
    let records =
        vec![version("b", "1"), version("a", "2"), version("b", "3"), version("b", "1")];
    assert_eq!(
        keep_distribution(records, "b"),
        vec![version("b", "1"), version("b", "3"), version("b", "1")]
    );
}

#[test]
fn filtering_nothing_keeps_nothing() {
    assert_eq!(keep_distribution(vec![], "Fedora Rawhide"), vec![]);
    assert_eq!(keep_distribution(vec![version("Fedora 40", "1")], "Fedora Rawhide"), vec![]);
}

#[test]
fn filtering_for_the_empty_distribution_is_exact_too() {
    let records = vec![version("", "1"), version(" ", "2")];
    assert_eq!(keep_distribution(records, ""), vec![version("", "1")]);
}

#[test]
fn a_fresh_run_has_missed_nothing() {
    let survey = Survey::default();
    assert_eq!(survey.missing, 0);
    assert_eq!(survey.distribution, "Fedora Rawhide");
    assert_eq!(survey.distribution, TARGET_DISTRIBUTION);
    assert_eq!(survey.client.url(), BASE_URL);
    let survey = Survey::new(Client::new("http://localhost/".to_string()), "EPEL 9".to_string());
    assert_eq!(survey.missing, 0);
    assert_eq!(survey.distribution, "EPEL 9");
    assert_eq!(survey.client.url(), "http://localhost/");
}

#[test]
fn a_listed_package_is_found_with_its_record() {
    let mut survey = Survey::default();
    let request = survey.request("foo 1.0").unwrap().unwrap();
    assert_eq!(
        request,
        Request {
            package: "foo".to_string(),
            url: "https://packages.fedoraproject.org/pkgs/rust-foo/rust-foo-devel".to_string(),
        }
    );
    let outcome = survey.settle(site(&request.url));
    assert_eq!(outcome, Ok(Outcome::Found(vec![version("Fedora Rawhide", "1.2.3-1.fc41")])));
    assert_eq!(survey.missing, 0);
}

#[test]
fn a_package_without_a_page_is_missing() {
    let mut survey = Survey::default();
    let request = survey.request("bar 2.0").unwrap().unwrap();
    assert_eq!(request.package, "bar");
    assert_eq!(request.url, "https://packages.fedoraproject.org/pkgs/rust-bar/rust-bar-devel");
    assert_eq!(survey.settle(response(404, "")), Ok(Outcome::Missing));
    assert_eq!(survey.missing, 1);
}

#[test]
fn a_line_without_a_space_is_passed_over() {
    let survey = Survey::default();
    assert_eq!(survey.request("malformed"), Ok(None));
    assert_eq!(survey.missing, 0);
    let (outcomes, asked, missing, error) = run(&["malformed"]);
    assert_eq!(outcomes, vec![None]);
    assert!(asked.is_empty());
    assert_eq!(missing, 0);
    assert_eq!(error, None);
}

#[test]
fn a_package_listed_elsewhere_only_is_missing() {
    let mut survey = Survey::default();
    assert_eq!(survey.settle(response(200, STABLE_ONLY_PAGE)), Ok(Outcome::Missing));
    assert_eq!(survey.missing, 1);
    assert_eq!(survey.settle(response(200, "<p>no table</p>")), Ok(Outcome::Missing));
    assert_eq!(survey.missing, 2);
}

#[test]
fn the_run_looks_for_its_own_distribution() {
    let mut survey = Survey::new(Client::default(), "Fedora 40".to_string());
    assert_eq!(
        survey.settle(response(200, FOO_PAGE)),
        Ok(Outcome::Found(vec![version("Fedora 40", "1.2.0-1.fc40")]))
    );
    assert_eq!(survey.missing, 0);
}

#[test]
fn a_server_error_ends_the_run_and_counts_nothing() {
    let mut survey = Survey::default();
    assert_eq!(survey.settle(response(404, "")), Ok(Outcome::Missing));
    assert_eq!(survey.settle(response(500, "")), Err(Error::Http(500)));
    assert_eq!(survey.missing, 1);
    let (outcomes, asked, missing, error) = run(&["bar 2.0", "broken 0.1", "foo 1.0"]);
    assert_eq!(outcomes, vec![Some(Outcome::Missing)]);
    assert_eq!(asked.len(), 2);
    assert_eq!(missing, 1);
    assert_eq!(error, Some(Error::Http(500)));
}

#[test]
fn a_failed_request_ends_the_run_and_counts_nothing() {
    let mut survey = Survey::default();
    assert_eq!(
        survey.settle(Answer::Failed("timed out".to_string())),
        Err(Error::Transport("timed out".to_string()))
    );
    assert_eq!(survey.missing, 0);
}

#[test]
fn a_root_that_is_no_base_ends_the_run() {
    let survey = Survey::new(Client::new("mailto:me@example.com".to_string()), "x".to_string());
    assert_eq!(survey.request("foo 1.0"), Err(Error::NotABase));
    // a line that is passed over asks nothing of the root
    assert_eq!(survey.request("malformed"), Ok(None));
}

#[test]
fn a_run_counts_the_missing_packages() {
    let (outcomes, asked, missing, error) =
        run(&["foo 1.0", "bar 2.0", "malformed", "old 0.3", "", "foo 1.0", "baz 0.1"]);
    assert_eq!(
        outcomes,
        vec![
            Some(Outcome::Found(vec![version("Fedora Rawhide", "1.2.3-1.fc41")])),
            Some(Outcome::Missing),
            None,
            Some(Outcome::Missing),
            None,
            Some(Outcome::Found(vec![version("Fedora Rawhide", "1.2.3-1.fc41")])),
            Some(Outcome::Missing),
        ]
    );
    assert_eq!(
        asked,
        vec![
            "https://packages.fedoraproject.org/pkgs/rust-foo/rust-foo-devel",
            "https://packages.fedoraproject.org/pkgs/rust-bar/rust-bar-devel",
            "https://packages.fedoraproject.org/pkgs/rust-old/rust-old-devel",
            "https://packages.fedoraproject.org/pkgs/rust-foo/rust-foo-devel",
            "https://packages.fedoraproject.org/pkgs/rust-baz/rust-baz-devel",
        ]
    );
    assert_eq!(missing, 3);
    assert_eq!(error, None);
}

#[test]
fn two_runs_over_the_same_input_agree() {
    let lines = ["foo 1.0", "bar 2.0", "malformed", "old 0.3", "foo 2.0"];
    let first = run(&lines);
    let second = run(&lines);
    assert_eq!(first, second);
    assert_eq!(first.2, 2);
}

#[test]
fn the_version_on_the_line_does_not_count() {
    let survey = Survey::default();
    assert_eq!(survey.request("foo 1.0"), survey.request("foo 9.9.9 whatever"));
}

#[test]
fn a_line_of_ordinary_length_fits() {
    let survey = Survey::default();
    assert!(survey.line_fits("foo 1.0"));
    assert!(survey.line_fits(""));
    assert!(survey.line_fits(&"x".repeat(100_000)));
}

#[test]
fn a_line_beyond_the_limit_does_not_fit() {
    let survey = Survey::default();
    let limit = rawhide_scrape::client::MAX_URL_CHARS;
    let room = (limit - 16 - BASE_URL.len()) / 2;
    assert!(survey.line_fits(&"x".repeat(room)));
    assert!(!survey.line_fits(&"x".repeat(room + 1)));
    assert!(!survey.line_fits(&"x".repeat(limit + 1)));
}
