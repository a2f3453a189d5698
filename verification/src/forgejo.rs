//! The Forgejo forge: where its release information lives, how a request
//! for it is authorized, and what its reply holds.

use crate::asset::{asset_views, reply_assets, Asset, AssetView, Reply};
use crate::error::ForgeError;
use crate::project::{lemma_joined_name_parts, project_parts, split_project_name};
use crate::request::{
    authorization_count, header_value_accepted, is_authorization, is_header_value,
    lemma_authorization_count_push, lemma_authorization_name, lemma_without_authorization_count,
    lemma_without_authorization_keeps, without_authorization, Header, HeaderView, Request,
    RequestView,
};
use crate::url_path::{
    push_segments, segment_views, segments_cost, url_cannot_be_a_base, url_len, url_with_segments,
};
use url::Url;
use vstd::prelude::*;
use vstd::string::*;

verus! {

/// A project on a Forgejo forge, with the release that is asked for.
#[derive(Debug)]
pub struct Forgejo {
    /// Owner and repository, separated by `/`.
    pub project_name: String,
    /// The tag of the release; without one, the latest release is meant.
    pub tag: Option<String>,
    /// The root of the forge's API.
    pub api_base_url: Url,
    /// The token that authorizes requests, where there is one.
    pub token: Option<String>,
}

/// The path segments that lead from the root of the API to the release
/// information of a project: `repos`, the owner, the repository and
/// `releases`, then `tags` and the tag, or `latest` without a tag.
pub open spec fn release_segments(owner: Seq<char>, repo: Seq<char>, tag: Option<Seq<char>>) -> Seq<
    Seq<char>,
> {
    match tag {
        Some(tag) => seq!["repos"@, owner, repo, "releases"@, "tags"@, tag],
        None => seq!["repos"@, owner, repo, "releases"@, "latest"@],
    }
}

/// The URL of the release information of the project `name` below `base`:
/// `InvalidProjectName` comes first, then `InvalidBaseUrl` for a base
/// that has no path segments, then the segments are appended.
pub open spec fn release_url(name: Seq<char>, tag: Option<Seq<char>>, base: Url) -> Result<
    Url,
    ForgeError,
> {
    match project_parts(name) {
        None => Err(ForgeError::InvalidProjectName),
        Some((owner, repo)) => if url_cannot_be_a_base(base) {
            Err(ForgeError::InvalidBaseUrl)
        } else {
            url_with_segments(base, release_segments(owner, repo, tag))
        },
    }
}

/// The value of the authorization header for `token`.
pub open spec fn token_value(token: Seq<char>) -> Seq<char> {
    "token "@ + token
}

/// The authorization header for `token`; its value is marked a secret.
pub open spec fn token_header(token: Seq<char>) -> HeaderView {
    HeaderView { name: "Authorization"@, value: token_value(token), sensitive: true }
}

/// `request` after the token, if there is one, has been written into it:
/// unchanged without a token; with one, the header of [`token_header`]
/// takes the place of the authorization headers that were there and
/// stands behind the other headers, unless the token cannot be written
/// as a header value.
pub open spec fn with_token_header(request: RequestView, token: Option<Seq<char>>) -> Result<
    RequestView,
    ForgeError,
> {
    match token {
        None => Ok(request),
        Some(token) => if is_header_value(token) {
            Ok(
                RequestView {
                    url: request.url,
                    headers: without_authorization(request.headers).push(token_header(token)),
                },
            )
        } else {
            Err(ForgeError::InvalidToken)
        },
    }
}

/// The request for release information: a request to the URL of the
/// release information, without headers but that of the token.
pub open spec fn release_request(
    name: Seq<char>,
    tag: Option<Seq<char>>,
    base: Url,
    token: Option<Seq<char>>,
) -> Result<RequestView, ForgeError> {
    match release_url(name, tag, base) {
        Err(error) => Err(error),
        Ok(url) => with_token_header(RequestView { url, headers: Seq::empty() }, token),
    }
}

/// The header value for a token can be written exactly when the token can.
pub proof fn lemma_token_value_valid(token: Seq<char>)
    ensures
        is_header_value(token_value(token)) == is_header_value(token),
{
    reveal_strlit("token ");
    let value = token_value(token);
    if is_header_value(token) {
        assert forall|i: int| 0 <= i < value.len() implies crate::request::is_header_value_char(
            #[trigger] value[i],
        ) by {
            if i >= 6 {
                assert(value[i] == token[i - 6]);
            }
        }
    }
    if is_header_value(value) {
        assert forall|i: int| 0 <= i < token.len() implies crate::request::is_header_value_char(
            #[trigger] token[i],
        ) by {
            assert(token[i] == value[i + 6]);
        }
    }
}

/// Without a token a request comes back as it went in; one that carried
/// no authorization header carries none afterwards.
pub proof fn lemma_no_token_no_authorization(request: RequestView)
    requires
        authorization_count(request.headers) == 0,
    ensures
        with_token_header(request, None) == Ok::<RequestView, ForgeError>(request),
        with_token_header(request, None) matches Ok(unchanged) && authorization_count(
            unchanged.headers,
        ) == 0,
{
}

/// With a token that can be written as a header value, every request
/// carries exactly one authorization header afterwards: its last header,
/// named `Authorization`, marked a secret, whose value is `token `, with
/// the space, and then the token. The headers before it are those of the
/// request that are no authorization headers.
pub proof fn lemma_token_one_authorization(request: RequestView, token: Seq<char>)
    requires
        is_header_value(token),
    ensures
        with_token_header(request, Some(token)) matches Ok(changed) && {
            &&& authorization_count(changed.headers) == 1
            &&& changed.url == request.url
            &&& changed.headers.drop_last() == without_authorization(request.headers)
            &&& is_authorization(changed.headers.last().name)
            &&& changed.headers.last().sensitive
            &&& changed.headers.last().value == seq!['t', 'o', 'k', 'e', 'n', ' '] + token
        },
{
    reveal_strlit("token ");
    lemma_authorization_name();
    lemma_without_authorization_count(request.headers);
    let kept = without_authorization(request.headers);
    lemma_authorization_count_push(kept, token_header(token));
    assert(kept.push(token_header(token)).drop_last() =~= kept);
    assert("token "@ =~= seq!['t', 'o', 'k', 'e', 'n', ' ']);
}

/// With a token, a request without an authorization header keeps all its
/// headers, and the token's header stands behind them.
pub proof fn lemma_token_header_behind(request: RequestView, token: Seq<char>)
    requires
        authorization_count(request.headers) == 0,
        is_header_value(token),
    ensures
        with_token_header(request, Some(token)) == Ok::<RequestView, ForgeError>(
            RequestView { url: request.url, headers: request.headers.push(token_header(token)) },
        ),
{
    lemma_without_authorization_keeps(request.headers);
}

/// Without a tag the release information of `owner/repo` lies at
/// `repos`, the owner, the repository, `releases`, `latest`, appended to
/// the API's root in that order: owner and repository stand once each,
/// second and third, and `latest` stands last.
pub proof fn lemma_latest_release_url(owner: Seq<char>, repo: Seq<char>, base: Url)
    requires
        !owner.contains('/'),
        !repo.contains('/'),
        !url_cannot_be_a_base(base),
    ensures
        release_url(owner + seq!['/'] + repo, None, base) == url_with_segments(
            base,
            seq!["repos"@, owner, repo, "releases"@, "latest"@],
        ),
        release_segments(owner, repo, None).len() == 5,
        release_segments(owner, repo, None)[1] == owner,
        release_segments(owner, repo, None)[2] == repo,
        release_segments(owner, repo, None).last() == "latest"@,
{
    lemma_joined_name_parts(owner, repo);
}

/// With a tag the release information of `owner/repo` lies at `repos`,
/// the owner, the repository, `releases`, `tags`, the tag: the tag stands
/// last, behind `tags`, and the segments are never those of the latest
/// release, whatever the tag.
pub proof fn lemma_tagged_release_url(
    owner: Seq<char>,
    repo: Seq<char>,
    tag: Seq<char>,
    base: Url,
)
    requires
        !owner.contains('/'),
        !repo.contains('/'),
        !url_cannot_be_a_base(base),
    ensures
        release_url(owner + seq!['/'] + repo, Some(tag), base) == url_with_segments(
            base,
            seq!["repos"@, owner, repo, "releases"@, "tags"@, tag],
        ),
        release_segments(owner, repo, Some(tag)).len() == 6,
        release_segments(owner, repo, Some(tag))[1] == owner,
        release_segments(owner, repo, Some(tag))[2] == repo,
        release_segments(owner, repo, Some(tag))[4] == "tags"@,
        release_segments(owner, repo, Some(tag)).last() == tag,
        release_segments(owner, repo, Some(tag)) != release_segments(owner, repo, None),
{
    lemma_joined_name_parts(owner, repo);
    assert(release_segments(owner, repo, None).len() == 5);
}

impl Forgejo {
    /// The tag, as text.
    pub open spec fn tag_view(&self) -> Option<Seq<char>> {
        match self.tag {
            Some(tag) => Some(tag@),
            None => None,
        }
    }

    /// The token, as text.
    pub open spec fn token_view(&self) -> Option<Seq<char>> {
        match self.token {
            Some(token) => Some(token@),
            None => None,
        }
    }

    /// A forge for the project `project_name`, asked for the release
    /// `tag` or, without one, for the latest release. Nothing is tested
    /// here: a project name that is no owner and repository shows when
    /// the URL is built.
    pub fn new(
        project_name: String,
        tag: Option<String>,
        api_base_url: Url,
        token: Option<String>,
    ) -> (forge: Self)
        ensures
            forge.project_name == project_name,
            forge.tag == tag,
            forge.api_base_url == api_base_url,
            forge.token == token,
    {
        Self { project_name, tag, api_base_url, token }
    }

    /// The URL of the release information: the API's root with the
    /// segments of [`release_segments`] appended to its path. Fails with
    /// `InvalidProjectName` where the project name is not an owner and a
    /// repository, else with `InvalidBaseUrl` where the root takes no
    /// path segments, else with `UrlTooLong` where a segment may take the
    /// URL beyond `u32::MAX` bytes. It succeeds whenever the name is an
    /// owner and a repository, the root takes path segments and all the
    /// segments fit at their worst.
    pub fn release_info_url(&self) -> (result: Result<Url, ForgeError>)
        ensures
            result == release_url(self.project_name@, self.tag_view(), self.api_base_url),
            project_parts(self.project_name@) matches Some(parts) && !url_cannot_be_a_base(
                self.api_base_url,
            ) && url_len(self.api_base_url) + segments_cost(
                release_segments(parts.0, parts.1, self.tag_view()),
            ) <= u32::MAX ==> result is Ok,
    {
        let (owner, repo) = match split_project_name(self.project_name.as_str()) {
            Some(parts) => parts,
            None => return Err(ForgeError::InvalidProjectName),
        };
        if self.api_base_url.cannot_be_a_base() {
            return Err(ForgeError::InvalidBaseUrl);
        }
        let mut segments: Vec<&str> = Vec::new();
        segments.push("repos");
        segments.push(owner.as_str());
        segments.push(repo.as_str());
        segments.push("releases");
        match &self.tag {
            Some(tag) => {
                segments.push("tags");
                segments.push(tag.as_str());
            },
            None => {
                segments.push("latest");
            },
        }
        proof {
            assert(segment_views(segments@) =~= release_segments(
                owner@,
                repo@,
                self.tag_view(),
            ));
        }
        push_segments(self.api_base_url.clone(), &segments)
    }

    /// Hands `request` back as it is where there is no token. With a
    /// token it takes the authorization headers out of the request and
    /// adds, behind the headers that stay, the header
    /// `Authorization: token <token>`, marked a secret; it fails with
    /// `InvalidToken` exactly where the token cannot be written as a
    /// header value.
    pub fn maybe_add_token_header(&self, request: Request) -> (result: Result<Request, ForgeError>)
        ensures
            self.token is None ==> result == Ok::<Request, ForgeError>(request),
            match result {
                Ok(changed) => with_token_header(request@, self.token_view()) == Ok::<
                    RequestView,
                    ForgeError,
                >(changed@),
                Err(error) => with_token_header(request@, self.token_view()) == Err::<
                    RequestView,
                    ForgeError,
                >(error),
            },
    {
        match &self.token {
            None => Ok(request),
            Some(token) => {
                let value = String::from_str("token ").concat(token.as_str());
                proof {
                    lemma_token_value_valid(token@);
                }
                if header_value_accepted(value.as_str()) {
                    let header = Header {
                        name: String::from_str("Authorization"),
                        value,
                        sensitive: true,
                    };
                    Ok(request.without_authorization().with_header(header))
                } else {
                    Err(ForgeError::InvalidToken)
                }
            },
        }
    }

    /// The request for release information: a request to
    /// [`Forgejo::release_info_url`], passed through
    /// [`Forgejo::maybe_add_token_header`]. An error of the URL comes
    /// before one of the token.
    pub fn release_info_request(&self) -> (result: Result<Request, ForgeError>)
        ensures
            match result {
                Ok(request) => release_request(
                    self.project_name@,
                    self.tag_view(),
                    self.api_base_url,
                    self.token_view(),
                ) == Ok::<RequestView, ForgeError>(request@),
                Err(error) => release_request(
                    self.project_name@,
                    self.tag_view(),
                    self.api_base_url,
                    self.token_view(),
                ) == Err::<RequestView, ForgeError>(error),
            },
    {
        match self.release_info_url() {
            Err(error) => Err(error),
            Ok(url) => {
self.maybe_add_token_header(Request::new(url))
            },
        }
    }

    /// The assets of the release that `reply` carries, one for each entry
    /// of the release document and in its order. Fails with
    /// `RequestFailed` where no response arrived or its status is not
    /// from 200 to 299, else with `DecodeFailed` where the body was no
    /// release document.
    pub fn fetch_assets(&self, reply: &Reply) -> (result: Result<Vec<Asset>, ForgeError>)
        ensures
            match result {
                Ok(assets) => reply_assets(*reply) == Ok::<Seq<AssetView>, ForgeError>(
                    asset_views(assets@),
                ),
                Err(error) => reply_assets(*reply) == Err::<Seq<AssetView>, ForgeError>(error),
            },
    {
        reply.to_assets()
    }
}

} // verus!
