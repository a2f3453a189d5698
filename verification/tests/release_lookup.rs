use ubi::request::is_authorization_name;
use ubi::url_path::fits;
use ubi::{Asset, ForgeError, ForgejoAsset, Forgejo, Release, Reply, Request};
use url::Url;

fn forge(tag: Option<&str>, token: Option<&str>, base: &str) -> Forgejo {
    Forgejo::new(
        "houseabsolute/ubi".to_string(),
        tag.map(String::from),
        Url::parse(base).unwrap(),
        token.map(String::from),
    )
}

fn fetch_assets(tag: Option<&str>, token: Option<&str>) {
    let assets = vec![Asset {
        name: "asset1".to_string(),
        url: Url::parse("https://codeberg.org/api/v1/repos/owner/repo/releases/assets/1").unwrap(),
    }];

    let expect_path = if let Some(tag) = tag {
        format!("/repos/houseabsolute/ubi/releases/tags/{tag}")
    } else {
        "/repos/houseabsolute/ubi/releases/latest".to_string()
    };

    let forgejo = forge(tag, token, "http://127.0.0.1:1234");
    let request = forgejo.release_info_request().unwrap();
    assert_eq!(request.url.path(), expect_path.as_str());
    assert_eq!(request.url.as_str(), format!("http://127.0.0.1:1234{expect_path}"));
    match token {
        Some(token) => {
            assert_eq!(request.headers.len(), 1);
            assert_eq!(request.headers[0].name, "Authorization");
            assert_eq!(request.headers[0].value, format!("token {token}"));
            assert!(request.headers[0].sensitive);
        }
        None => assert!(request.headers.is_empty()),
    }

    let reply = Reply::Received {
        status: 200,
        release: Some(Release {
            assets: assets
                .clone()
                .into_iter()
                .map(|asset| ForgejoAsset {
                    name: asset.name,
                    browser_download_url: asset.url,
                })
                .collect(),
        }),
    };
    let got_assets = forgejo.fetch_assets(&reply).unwrap();
    assert_eq!(got_assets, assets);
}

#[test]
fn fetch_assets_without_token() {
    fetch_assets(None, None);
}

#[test]
fn fetch_assets_with_token() {
    fetch_assets(None, Some("glpat-fakeToken"));
}

#[test]
fn fetch_assets_with_tag() {
    fetch_assets(Some("v1.0.0"), None);
}

#[test]
fn fetch_assets_with_tag_and_token() {
    fetch_assets(Some("v1.0.0"), Some("glpat-fakeToken"));
}

#[test]
fn api_base_url() {
    let forgejo = Forgejo::new(
        "houseabsolute/ubi".to_string(),
        None,
        Url::parse("https://codeberg.example.com/api/v1").unwrap(),
        None,
    );
    let url = forgejo.release_info_url().unwrap();
    assert_eq!(
        url.as_str(),
        "https://codeberg.example.com/api/v1/repos/houseabsolute/ubi/releases/latest"
    );
}

#[test]
fn release_info_url_leaves_the_base_as_it_was() {
    let forgejo = forge(None, None, "https://codeberg.example.com/api/v1");
    let url = forgejo.release_info_url().unwrap();
    assert_ne!(url, forgejo.api_base_url);
    assert_eq!(forgejo.api_base_url.as_str(), "https://codeberg.example.com/api/v1");
    assert_eq!(forgejo.release_info_url().unwrap(), url);
}

#[test]
fn release_info_url_with_tag() {
    let forgejo = forge(Some("v1.0.0"), None, "https://codeberg.example.com/api/v1");
    let url = forgejo.release_info_url().unwrap();
    assert_eq!(
        url.as_str(),
        "https://codeberg.example.com/api/v1/repos/houseabsolute/ubi/releases/tags/v1.0.0"
    );
    assert!(!url.path().ends_with("/releases/latest"));
}

#[test]
fn release_info_url_with_tag_named_latest() {
    let forgejo = forge(Some("latest"), None, "https://codeberg.example.com/api/v1");
    let url = forgejo.release_info_url().unwrap();
    assert_eq!(url.path(), "/api/v1/repos/houseabsolute/ubi/releases/tags/latest");
}

#[test]
fn release_info_url_on_a_bare_host() {
    let forgejo = forge(None, None, "https://codeberg.org");
    let url = forgejo.release_info_url().unwrap();
    assert_eq!(url.as_str(), "https://codeberg.org/repos/houseabsolute/ubi/releases/latest");
}

#[test]
fn release_info_url_keeps_the_query_of_the_base() {
    let forgejo = forge(None, None, "https://codeberg.org/api/v1?page=2");
    let url = forgejo.release_info_url().unwrap();
    assert_eq!(
        url.as_str(),
        "https://codeberg.org/api/v1/repos/houseabsolute/ubi/releases/latest?page=2"
    );
}

#[test]
fn release_info_url_escapes_a_tag() {
    let forgejo = forge(Some("release/1 0"), None, "https://codeberg.org/api/v1");
    let url = forgejo.release_info_url().unwrap();
    assert_eq!(
        url.path(),
        "/api/v1/repos/houseabsolute/ubi/releases/tags/release%2F1%200"
    );
}

#[test]
fn release_info_url_rejects_a_name_without_separator() {
    let forgejo = Forgejo::new(
        "houseabsolute".to_string(),
        None,
        Url::parse("https://codeberg.org/api/v1").unwrap(),
        None,
    );
    assert_eq!(forgejo.release_info_url(), Err(ForgeError::InvalidProjectName));
}

#[test]
fn release_info_url_rejects_a_name_of_three_segments() {
    let forgejo = Forgejo::new(
        "houseabsolute/ubi/extra".to_string(),
        None,
        Url::parse("https://codeberg.org/api/v1").unwrap(),
        None,
    );
    assert_eq!(forgejo.release_info_url(), Err(ForgeError::InvalidProjectName));
}

#[test]
fn release_info_url_rejects_an_empty_name() {
    let forgejo = Forgejo::new(
        String::new(),
        Some("v1.0.0".to_string()),
        Url::parse("https://codeberg.org/api/v1").unwrap(),
        None,
    );
    assert_eq!(forgejo.release_info_url(), Err(ForgeError::InvalidProjectName));
}

#[test]
fn release_info_url_rejects_a_base_without_segments() {
    let forgejo = forge(None, None, "mailto:releases@codeberg.org");
    assert_eq!(forgejo.release_info_url(), Err(ForgeError::InvalidBaseUrl));
}

#[test]
fn invalid_project_name_comes_before_invalid_base() {
    let forgejo = Forgejo::new(
        "ubi".to_string(),
        None,
        Url::parse("mailto:releases@codeberg.org").unwrap(),
        Some("bad\ntoken".to_string()),
    );
    assert_eq!(forgejo.release_info_url(), Err(ForgeError::InvalidProjectName));
    assert!(matches!(
        forgejo.release_info_request(),
        Err(ForgeError::InvalidProjectName)
    ));
}

#[test]
fn no_token_leaves_the_request_unchanged() {
    let forgejo = forge(None, None, "https://codeberg.org/api/v1");
    let request = Request::new(Url::parse("https://codeberg.org/api/v1/version").unwrap());
    let request = forgejo.maybe_add_token_header(request).unwrap();
    assert_eq!(request.url.as_str(), "https://codeberg.org/api/v1/version");
    assert!(request.headers.is_empty());
}

#[test]
fn token_adds_one_authorization_header() {
    let forgejo = forge(None, Some("s3cr3t"), "https://codeberg.org/api/v1");
    let request = Request::new(Url::parse("https://codeberg.org/api/v1/version").unwrap());
    let request = forgejo.maybe_add_token_header(request).unwrap();
    assert_eq!(request.url.as_str(), "https://codeberg.org/api/v1/version");
    let authorization: Vec<_> = request
        .headers
        .iter()
        .filter(|header| header.name.eq_ignore_ascii_case("authorization"))
        .collect();
    assert_eq!(authorization.len(), 1);
    assert_eq!(authorization[0].value, "token s3cr3t");
    assert_eq!(authorization[0].value.as_bytes(), b"token s3cr3t");
    assert!(authorization[0].sensitive);
}

#[test]
fn token_header_stands_behind_earlier_headers() {
    let forgejo = forge(None, Some("s3cr3t"), "https://codeberg.org/api/v1");
    let request = Request::new(Url::parse("https://codeberg.org/api/v1/version").unwrap())
        .with_header(ubi::Header {
            name: "Accept".to_string(),
            value: "application/json".to_string(),
            sensitive: false,
        });
    let request = forgejo.maybe_add_token_header(request).unwrap();
    assert_eq!(request.headers.len(), 2);
    assert_eq!(request.headers[0].name, "Accept");
    assert_eq!(request.headers[0].value, "application/json");
    assert!(!request.headers[0].sensitive);
    assert_eq!(request.headers[1].name, "Authorization");
    assert_eq!(request.headers[1].value, "token s3cr3t");
}

#[test]
fn token_with_a_line_break_is_invalid() {
    let forgejo = forge(None, Some("bad\ntoken"), "https://codeberg.org/api/v1");
    let request = Request::new(Url::parse("https://codeberg.org/api/v1/version").unwrap());
    assert!(matches!(
        forgejo.maybe_add_token_header(request),
        Err(ForgeError::InvalidToken)
    ));
    assert!(matches!(
        forgejo.release_info_request(),
        Err(ForgeError::InvalidToken)
    ));
}

#[test]
fn token_with_the_delete_character_is_invalid() {
    let forgejo = forge(None, Some("bad\u{7f}"), "https://codeberg.org/api/v1");
    let request = Request::new(Url::parse("https://codeberg.org/api/v1/version").unwrap());
    assert!(matches!(
        forgejo.maybe_add_token_header(request),
        Err(ForgeError::InvalidToken)
    ));
}

#[test]
fn token_with_a_tab_or_a_letter_beyond_ascii_is_valid() {
    let forgejo = forge(None, Some("a\tb\u{e9}"), "https://codeberg.org/api/v1");
    let request = Request::new(Url::parse("https://codeberg.org/api/v1/version").unwrap());
    let request = forgejo.maybe_add_token_header(request).unwrap();
    assert_eq!(request.headers[0].value, "token a\tb\u{e9}");
}

#[test]
fn empty_token_is_valid() {
    let forgejo = forge(None, Some(""), "https://codeberg.org/api/v1");
    let request = forgejo.release_info_request().unwrap();
    assert_eq!(request.headers.len(), 1);
    assert_eq!(request.headers[0].value, "token ");
}

#[test]
fn release_info_url_passes_over_a_tag_of_two_dots() {
    let forgejo = forge(Some(".."), None, "https://codeberg.org/api/v1");
    let url = forgejo.release_info_url().unwrap();
    assert_eq!(url.path(), "/api/v1/repos/houseabsolute/ubi/releases/tags");
}

#[test]
fn release_info_url_with_an_empty_repository() {
    let forgejo = Forgejo::new(
        "houseabsolute/".to_string(),
        None,
        Url::parse("https://codeberg.org/api/v1").unwrap(),
        None,
    );
    let url = forgejo.release_info_url().unwrap();
    assert_eq!(url.path(), "/api/v1/repos/houseabsolute//releases/latest");
}

#[test]
fn token_takes_the_place_of_an_authorization_header() {
    let forgejo = forge(None, Some("s3cr3t"), "https://codeberg.org/api/v1");
    let request = Request::new(Url::parse("https://codeberg.org/api/v1/version").unwrap())
        .with_header(ubi::Header {
            name: "authorization".to_string(),
            value: "Bearer other".to_string(),
            sensitive: true,
        })
        .with_header(ubi::Header {
            name: "Accept".to_string(),
            value: "application/json".to_string(),
            sensitive: false,
        })
        .with_header(ubi::Header {
            name: "AUTHORIZATION".to_string(),
            value: "token old".to_string(),
            sensitive: false,
        });
    let request = forgejo.maybe_add_token_header(request).unwrap();
    assert_eq!(request.url.as_str(), "https://codeberg.org/api/v1/version");
    assert_eq!(request.headers.len(), 2);
    assert_eq!(request.headers[0].name, "Accept");
    assert_eq!(request.headers[0].value, "application/json");
    assert_eq!(request.headers[1].name, "Authorization");
    assert_eq!(request.headers[1].value, "token s3cr3t");
    assert!(request.headers[1].sensitive);
}

#[test]
fn no_token_keeps_an_authorization_header() {
    let forgejo = forge(None, None, "https://codeberg.org/api/v1");
    let request = Request::new(Url::parse("https://codeberg.org/api/v1/version").unwrap())
        .with_header(ubi::Header {
            name: "Authorization".to_string(),
            value: "Bearer other".to_string(),
            sensitive: true,
        });
    let request = forgejo.maybe_add_token_header(request).unwrap();
    assert_eq!(request.headers.len(), 1);
    assert_eq!(request.headers[0].value, "Bearer other");
}

#[test]
fn invalid_token_comes_before_any_change() {
    let forgejo = forge(None, Some("bad\rtoken"), "https://codeberg.org/api/v1");
    let request = Request::new(Url::parse("https://codeberg.org/api/v1/version").unwrap())
        .with_header(ubi::Header {
            name: "Authorization".to_string(),
            value: "Bearer other".to_string(),
            sensitive: true,
        });
    assert!(matches!(
        forgejo.maybe_add_token_header(request),
        Err(ForgeError::InvalidToken)
    ));
}

#[test]
fn authorization_name_in_any_case_of_letters() {
    assert!(is_authorization_name("Authorization"));
    assert!(is_authorization_name("authorization"));
    assert!(is_authorization_name("AUTHORIZATION"));
    assert!(is_authorization_name("aUtHoRiZaTiOn"));
    assert!(!is_authorization_name("Authorisation"));
    assert!(!is_authorization_name("Authorization "));
    assert!(!is_authorization_name("Proxy-Authorization"));
    assert!(!is_authorization_name(""));
    assert!(!is_authorization_name("authorizatio\u{146}"));
}

#[test]
fn without_authorization_keeps_the_other_headers_in_order() {
    let request = Request::new(Url::parse("https://codeberg.org/api/v1/version").unwrap())
        .with_header(ubi::Header {
            name: "Accept".to_string(),
            value: "application/json".to_string(),
            sensitive: false,
        })
        .with_header(ubi::Header {
            name: "Authorization".to_string(),
            value: "token old".to_string(),
            sensitive: true,
        })
        .with_header(ubi::Header {
            name: "User-Agent".to_string(),
            value: "ubi".to_string(),
            sensitive: false,
        })
        .without_authorization();
    assert_eq!(request.url.as_str(), "https://codeberg.org/api/v1/version");
    assert_eq!(request.headers.len(), 2);
    assert_eq!(request.headers[0].name, "Accept");
    assert_eq!(request.headers[1].name, "User-Agent");
    assert_eq!(request.headers[1].value, "ubi");
}

#[test]
fn release_info_url_rejects_a_tag_that_may_not_fit() {
    let forgejo = Forgejo::new(
        "houseabsolute/ubi".to_string(),
        Some(" ".repeat(1_431_655_764)),
        Url::parse("https://codeberg.org/api/v1").unwrap(),
        None,
    );
    assert_eq!(forgejo.release_info_url(), Err(ForgeError::UrlTooLong));
}

#[test]
fn segment_fits_up_to_the_limit_at_its_worst() {
    let url = Url::parse("https://codeberg.org/api/v1").unwrap();
    assert_eq!(url.as_str().len(), 27);
    assert!(fits(&url, "latest"));
    assert!(fits(&url, ""));
    assert!(fits(&url, &"a".repeat(1_431_655_754)));
    assert!(!fits(&url, &"a".repeat(1_431_655_755)));
}

#[test]
fn invalid_base_comes_before_a_tag_that_may_not_fit() {
    let forgejo = Forgejo::new(
        "houseabsolute/ubi".to_string(),
        Some("a".repeat(1_431_655_764)),
        Url::parse("mailto:releases@codeberg.org").unwrap(),
        None,
    );
    assert_eq!(forgejo.release_info_url(), Err(ForgeError::InvalidBaseUrl));
}
