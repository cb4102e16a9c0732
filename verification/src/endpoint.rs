//! Where to publish: what the server's URL says.
use crate::error::PublishError;
use crate::text::{
    decimal, decimal_text, join, law_split_cuts_at_separators, law_split_then_join, split, split_text,
    texts,
};
use vstd::prelude::*;
use vstd::string::*;

verus! {

/// The port of RTMP, for a URL that gives none.
pub const DEFAULT_PORT: u16 = 1935;

/// The port of HTTPS, on which a server expects TLS.
pub const TLS_PORT: u16 = 443;

/// The parts of a URL that matter here.
#[derive(Debug)]
pub struct ServerUrl {
    pub scheme: String,
    pub host: Option<String>,
    pub port: Option<u16>,
    pub path: String,
}

/// The parts of a URL, as text.
pub struct UrlParts {
    pub scheme: Seq<char>,
    pub host: Option<Seq<char>>,
    pub port: Option<u16>,
    pub path: Seq<char>,
}

impl View for ServerUrl {
    type V = UrlParts;

    open spec fn view(&self) -> UrlParts {
        UrlParts {
            scheme: self.scheme@,
            host: match self.host {
                Some(host) => Some(host@),
                None => None,
            },
            port: self.port,
            path: self.path@,
        }
    }
}

/// Where to connect and what to publish there.
#[derive(Debug)]
pub struct Endpoint {
    /// The address to connect to: scheme, host and port.
    pub address: String,
    pub scheme: String,
    pub port: u16,
    pub app_name: String,
    pub stream_key: String,
}

/// An endpoint, as text.
pub struct EndpointParts {
    pub address: Seq<char>,
    pub scheme: Seq<char>,
    pub port: u16,
    pub app_name: Seq<char>,
    pub stream_key: Seq<char>,
}

impl View for Endpoint {
    type V = EndpointParts;

    open spec fn view(&self) -> EndpointParts {
        EndpointParts {
            address: self.address@,
            scheme: self.scheme@,
            port: self.port,
            app_name: self.app_name@,
            stream_key: self.stream_key@,
        }
    }
}

/// What `Url::parse` makes of a text: the scheme, the host as it is displayed, the port if one is
/// given that is not the default of the scheme, and the path.
pub uninterp spec fn parsed_url(text: Seq<char>) -> Result<UrlParts, url::ParseError>;

/// A parsed URL with its parts as text.
pub open spec fn url_view(url: Result<ServerUrl, url::ParseError>) -> Result<
    UrlParts,
    url::ParseError,
> {
    match url {
        Ok(url) => Ok(url@),
        Err(error) => Err(error),
    }
}

/// Calls `url::Url::parse` and reads the parts of the URL. The contract claims that they depend on
/// the text alone.
#[verifier::external_body]
pub(crate) fn parse_url(text: &str) -> (url: Result<ServerUrl, url::ParseError>)
    ensures
        url_view(url) == parsed_url(text@),
{
    url::Url::parse(text).map(|url| ServerUrl {
        scheme: url.scheme().to_string(),
        host: url.host().map(|host| host.to_string()),
        port: url.port(),
        path: url.path().to_string(),
    })
}

/// The port to connect to.
pub open spec fn port_of(url: UrlParts) -> u16 {
    match url.port {
        Some(port) => port,
        None => DEFAULT_PORT,
    }
}

/// The endpoint that a URL stands for. There has to be a host, and the path has to have exactly two
/// slashes: the application stands between them and the stream key behind the second.
pub open spec fn endpoint_of(url: UrlParts) -> Result<EndpointParts, PublishError> {
    let parts = split(url.path, '/');
    match url.host {
        None => Err(PublishError::HostNotSpecified),
        Some(host) => if parts.len() != 3 {
            Err(PublishError::UnusualPath)
        } else {
            Ok(
                EndpointParts {
                    address: url.scheme + "://"@ + host + ":"@ + decimal(port_of(url) as nat),
                    scheme: url.scheme,
                    port: port_of(url),
                    app_name: parts[1],
                    stream_key: parts[2],
                },
            )
        },
    }
}

/// Whether an endpoint is the one that was to be found.
pub open spec fn is_endpoint(
    endpoint: Result<Endpoint, PublishError>,
    expected: Result<EndpointParts, PublishError>,
) -> bool {
    match expected {
        Ok(parts) => endpoint matches Ok(found) && found@ == parts,
        Err(error) => endpoint == Err::<Endpoint, PublishError>(error),
    }
}

impl Endpoint {
    /// The endpoint that a parsed URL stands for.
    pub fn from_url(url: &ServerUrl) -> (endpoint: Result<Endpoint, PublishError>)
        ensures
            is_endpoint(endpoint, endpoint_of(url@)),
    {
        let host = match &url.host {
            None => {
                return Err(PublishError::HostNotSpecified);
            },
            Some(host) => host,
        };
        let port = match url.port {
            Some(port) => port,
            None => DEFAULT_PORT,
        };
        let parts = split_text(url.path.as_str(), '/');
        assert(parts@.len() == texts(parts@).len());
        if parts.len() != 3 {
            return Err(PublishError::UnusualPath);
        }
        assert(texts(parts@)[1] == parts@[1]@ && texts(parts@)[2] == parts@[2]@);
        let mut address = url.scheme.clone();
        address.append("://");
        address.append(host.as_str());
        address.append(":");
        address.append(decimal_text(port).as_str());
        Ok(
            Endpoint {
                address,
                scheme: url.scheme.clone(),
                port,
                app_name: parts[1].clone(),
                stream_key: parts[2].clone(),
            },
        )
    }

    /// The endpoint that a text stands for, if it is a URL.
    pub fn from_server(server: &str) -> (endpoint: Result<Endpoint, PublishError>)
        ensures
            match parsed_url(server@) {
                Ok(url) => is_endpoint(endpoint, endpoint_of(url)),
                Err(error) => endpoint == Err::<Endpoint, PublishError>(
                    PublishError::InvalidUrl(error),
                ),
            },
    {
        match parse_url(server) {
            Ok(url) => Self::from_url(&url),
            Err(error) => Err(PublishError::InvalidUrl(error)),
        }
    }

    /// Whether the server at this endpoint expects TLS.
    pub open spec fn wants_tls(&self) -> bool {
        self.port == TLS_PORT || self.scheme@ == "rtmps"@
    }

    /// Turns endpoints down that expect TLS.
    pub fn check_tls(&self) -> (checked: Result<(), PublishError>)
        ensures
            checked == if self.wants_tls() {
                Err::<(), PublishError>(PublishError::TlsUnsupported)
            } else {
                Ok::<(), PublishError>(())
            },
    {
        if self.port == TLS_PORT || self.scheme == "rtmps".to_owned() {
            Err(PublishError::TlsUnsupported)
        } else {
            Ok(())
        }
    }
}

/// The path of a URL that is accepted is the application and the stream key, each behind a slash
/// and neither with a slash of its own; in front of the first slash there may be more.
pub proof fn law_path_is_app_and_key(url: UrlParts)
    requires
        endpoint_of(url) is Ok,
    ensures
        ({
            let endpoint = endpoint_of(url)->Ok_0;
            &&& url.path == split(url.path, '/')[0].push('/') + endpoint.app_name.push('/')
                + endpoint.stream_key
            &&& !endpoint.app_name.contains('/')
            &&& !endpoint.stream_key.contains('/')
        }),
{
    let parts = split(url.path, '/');
    law_split_then_join(url.path, '/');
    reveal_with_fuel(join, 3);
    let two = parts.drop_last();
    assert(two.drop_last().len() == 1 && two.drop_last()[0] == parts[0]);
    assert(join(parts, '/') =~= parts[0].push('/') + parts[1].push('/') + parts[2]);
}

/// A URL that is accepted gives its own scheme, the port that it names, or 1935 if it names none, and
/// the address that is made of scheme, host and this port in decimal.
pub proof fn law_address_has_the_port_of_the_url(url: UrlParts)
    requires
        endpoint_of(url) is Ok,
    ensures
        url.host is Some,
        endpoint_of(url)->Ok_0.scheme == url.scheme,
        url.port matches Some(port) ==> endpoint_of(url)->Ok_0.port == port && endpoint_of(
            url,
        )->Ok_0.address == url.scheme + "://"@ + url.host->Some_0 + ":"@ + decimal(port as nat),
        url.port is None ==> endpoint_of(url)->Ok_0.port == 1935 && endpoint_of(url)->Ok_0.address
            == url.scheme + "://"@ + url.host->Some_0 + ":"@ + decimal(1935),
{
}

/// A URL without a host is turned down. One with a host is accepted exactly if its path has two
/// slashes; the application stands between them, and the stream key behind the second.
pub proof fn law_which_urls_are_accepted(
    url: UrlParts,
    front: Seq<char>,
    app_name: Seq<char>,
    stream_key: Seq<char>,
)
    requires
        !front.contains('/'),
        !app_name.contains('/'),
        !stream_key.contains('/'),
    ensures
        url.host is None ==> endpoint_of(url) == Err::<EndpointParts, PublishError>(
            PublishError::HostNotSpecified,
        ),
        url.host is Some ==> (endpoint_of(url) is Ok || endpoint_of(url) == Err::<
            EndpointParts,
            PublishError,
        >(PublishError::UnusualPath)),
        url.host is Some && url.path == front.push('/') + (app_name.push('/') + stream_key) ==> {
            &&& endpoint_of(url) matches Ok(endpoint)
            &&& endpoint.app_name == app_name
            &&& endpoint.stream_key == stream_key
        },
{
    law_split_cuts_at_separators(front, app_name.push('/') + stream_key, '/');
    law_split_cuts_at_separators(app_name, stream_key, '/');
    law_split_cuts_at_separators(stream_key, Seq::empty(), '/');
}

/// Paths that have no slash, just one, or more than two are turned down.
pub proof fn law_unusual_paths_are_turned_down(
    url: UrlParts,
    front: Seq<char>,
    second: Seq<char>,
    third: Seq<char>,
    rest: Seq<char>,
)
    requires
        url.host is Some,
        !front.contains('/'),
        !second.contains('/'),
        !third.contains('/'),
    ensures
        url.path == front || url.path == front.push('/') + second || url.path == front.push('/') + (
        second.push('/') + (third.push('/') + rest)) ==> endpoint_of(url) == Err::<
            EndpointParts,
            PublishError,
        >(PublishError::UnusualPath),
{
    law_split_cuts_at_separators(front, second, '/');
    law_split_cuts_at_separators(second, Seq::empty(), '/');
    law_split_cuts_at_separators(front, second.push('/') + (third.push('/') + rest), '/');
    law_split_cuts_at_separators(second, third.push('/') + rest, '/');
    law_split_cuts_at_separators(third, rest, '/');
    law_split_then_join(rest, '/');
}

/// TLS is expected on port 443 and under the scheme `rtmps`, and nowhere else.
pub proof fn law_where_tls_is_expected(endpoint: Endpoint)
    ensures
        endpoint.wants_tls() <==> endpoint.port == 443 || endpoint.scheme@ == "rtmps"@,
{
}

/// What is found is just what was to be found.
pub proof fn law_endpoint_found_is_the_one(
    found: Result<Endpoint, PublishError>,
    expected: Result<EndpointParts, PublishError>,
)
    requires
        is_endpoint(found, expected),
    ensures
        found is Ok <==> expected is Ok,
        expected is Err ==> found->Err_0 == expected->Err_0,
        expected is Ok ==> {
            &&& found->Ok_0.address@ == expected->Ok_0.address
            &&& found->Ok_0.scheme@ == expected->Ok_0.scheme
            &&& found->Ok_0.port == expected->Ok_0.port
            &&& found->Ok_0.app_name@ == expected->Ok_0.app_name
            &&& found->Ok_0.stream_key@ == expected->Ok_0.stream_key
        },
{
}

/// The parts of a URL, as text, are its own.
pub proof fn law_url_parts_are_its_own(url: ServerUrl)
    ensures
        url@.scheme == url.scheme@,
        url@.port == url.port,
        url@.path == url.path@,
        url@.host is Some <==> url.host is Some,
        url.host matches Some(host) ==> url@.host == Some(host@),
{
}

} // verus!
