//! Registration of this service with a Consul agent.
//!
//! A [`RegistrationBuilder`] collects the agent's address, an optional
//! bearer token and the service's own address, name, id, port and scheme;
//! the type parameters record which of the required settings were given.
//! From a complete builder, [`RegistrationBuilder::prepare_registration`]
//! computes the request that registers the service (or finds that there is
//! nothing to register), and the [`Registration`] that later deregisters it.
use vstd::prelude::*;

use reqwest::header::{HeaderMap, HeaderValue, InvalidHeaderValue};
use reqwest::Error as ReqwestError;
use std::marker::PhantomData;

use crate::headers;
use crate::text;

verus! {

#[verifier::external_type_specification]
#[verifier::external_body]
pub struct ExReqwestError(ReqwestError);

/// Why a registration with Consul failed.
#[derive(Debug)]
pub enum Error {
    /// The bearer token cannot stand in an HTTP header.
    InvalidAuthToken(InvalidHeaderValue),
    /// The HTTP request to the agent failed.
    Request(ReqwestError),
}

impl From<InvalidHeaderValue> for Error {
    fn from(error: InvalidHeaderValue) -> (r: Self) {
        Error::InvalidAuthToken(error)
    }
}

impl vstd::std_specs::convert::FromSpecImpl<InvalidHeaderValue> for Error {
    open spec fn obeys_from_spec() -> bool {
        true
    }

    open spec fn from_spec(v: InvalidHeaderValue) -> Self {
        Error::InvalidAuthToken(v)
    }
}

impl From<ReqwestError> for Error {
    fn from(error: ReqwestError) -> (r: Self) {
        Error::Request(error)
    }
}

impl vstd::std_specs::convert::FromSpecImpl<ReqwestError> for Error {
    open spec fn obeys_from_spec() -> bool {
        true
    }

    open spec fn from_spec(v: ReqwestError) -> Self {
        Error::Request(v)
    }
}

/// The text of an optional string.
pub open spec fn opt_text(o: Option<&str>) -> Option<Seq<char>> {
    match o {
        Some(s) => Some(s@),
        None => None,
    }
}

/// The headers of a request, as `header_map_entries` describes them.
pub type HeadersView = Map<Seq<char>, Seq<(Seq<u8>, bool)>>;

/// What a builder holds.
pub struct BuilderView {
    pub http_addr: Option<Seq<char>>,
    pub service_address: Option<Seq<char>>,
    pub service_name: Seq<char>,
    pub service_id: Seq<char>,
    pub service_port: u16,
    pub service_scheme: Seq<char>,
    pub headers: HeadersView,
}

impl BuilderView {
    /// The text of the `Authorization` header for a bearer token.
    pub open spec fn bearer(token: Seq<char>) -> Seq<char> {
        "Bearer "@ + token
    }

    pub open spec fn with_bearer(self, token: Seq<char>) -> BuilderView {
        BuilderView {
            headers: self.headers.insert(
                "authorization"@,
                seq![(vstd::utf8::encode_utf8(Self::bearer(token)), true)],
            ),
            ..self
        }
    }

    pub open spec fn with_port(self, port: u16) -> BuilderView {
        BuilderView { service_port: port, ..self }
    }

    pub open spec fn with_scheme(self, scheme: Seq<char>) -> BuilderView {
        BuilderView { service_scheme: scheme, ..self }
    }

    pub open spec fn with_http_addr(self, addr: Option<Seq<char>>) -> BuilderView {
        BuilderView { http_addr: addr, ..self }
    }

    pub open spec fn with_service_address(self, addr: Option<Seq<char>>) -> BuilderView {
        BuilderView { service_address: addr, ..self }
    }

    pub open spec fn with_service_name(self, name: Seq<char>) -> BuilderView {
        BuilderView { service_name: name, ..self }
    }

    pub open spec fn with_service_id(self, id: Seq<char>) -> BuilderView {
        BuilderView { service_id: id, ..self }
    }
}

/// Whether a header value of this text is accepted: every byte of its
/// UTF-8 encoding may stand in a header value.
pub open spec fn header_text_is_valid(t: Seq<char>) -> bool {
    forall|i: int|
        0 <= i < vstd::utf8::encode_utf8(t).len() ==> headers::is_header_value_byte(
            #[trigger] vstd::utf8::encode_utf8(t)[i],
        )
}

struct RegistrationConfig<'a> {
    consul_http_addr: Option<&'a str>,
    consul_service_address: Option<&'a str>,
    service_name: &'a str,
    service_id: String,
    consul_service_port: u16,
    consul_service_scheme: &'a str,
    headers: HeaderMap,
}

impl<'a> RegistrationConfig<'a> {
    /// The only header that a builder ever sets is `Authorization`.
    #[verifier::type_invariant]
    spec fn only_authorization(self) -> bool {
        &&& headers::header_map_entries(self.headers).dom().finite()
        &&& headers::header_map_entries(self.headers).dom().subset_of(set!["authorization"@])
    }
}

/// Collects the settings of a registration. The type parameters record
/// which of the Consul address, the service address, the service name and
/// the service id have been given.
pub struct RegistrationBuilder<
    'a,
    HttpAddress = (),
    ServiceAddress = (),
    ServiceName = (),
    ServiceId = (),
> {
    config: RegistrationConfig<'a>,
    state: PhantomData<(HttpAddress, ServiceAddress, ServiceName, ServiceId)>,
}

impl<'a, HttpAddress, ServiceAddress, ServiceName, ServiceId> View for RegistrationBuilder<
    'a,
    HttpAddress,
    ServiceAddress,
    ServiceName,
    ServiceId,
> {
    type V = BuilderView;

    closed spec fn view(&self) -> BuilderView {
        BuilderView {
            http_addr: opt_text(self.config.consul_http_addr),
            service_address: opt_text(self.config.consul_service_address),
            service_name: self.config.service_name@,
            service_id: self.config.service_id@,
            service_port: self.config.consul_service_port,
            service_scheme: self.config.consul_service_scheme@,
            headers: headers::header_map_entries(self.config.headers),
        }
    }
}

impl<'a> RegistrationBuilder<'a> {
    /// A builder with nothing given yet: no addresses, an empty name and
    /// id, port 443, scheme `https` and no headers.
    pub fn new() -> (r: Self)
        ensures
            r@.http_addr is None,
            r@.service_address is None,
            r@.service_name == ""@,
            r@.service_id == Seq::<char>::empty(),
            r@.service_port == 443,
            r@.service_scheme == "https"@,
            r@.headers.dom() == Set::<Seq<char>>::empty(),
    {
        let headers = HeaderMap::new();
        proof {
            assert(headers::header_map_entries(headers).dom().finite());
        }
        RegistrationBuilder {
            config: RegistrationConfig {
                consul_http_addr: None,
                consul_service_address: None,
                service_name: "",
                service_id: String::new(),
                consul_service_port: 443,
                consul_service_scheme: "https",
                headers,
            },
            state: PhantomData,
        }
    }
}

impl<'a, HttpAddress, ServiceAddress, ServiceName, ServiceId> RegistrationBuilder<
    'a,
    HttpAddress,
    ServiceAddress,
    ServiceName,
    ServiceId,
> {
    /// Adds `Authorization: Bearer <token>`, marked sensitive, when a token
    /// is given; fails when that text cannot stand in a header.
    pub fn auth_token(self, consul_auth_token: Option<&str>) -> (r: Result<Self, Error>)
        ensures
            consul_auth_token is None ==> (r matches Ok(b) && b@ == self@),
            consul_auth_token matches Some(t) ==> (r is Ok <==> header_text_is_valid(
                BuilderView::bearer(t@),
            )),
            consul_auth_token matches Some(t) ==> (r matches Ok(b) ==> b@ == self@.with_bearer(
                t@,
            )),
            r matches Err(e) ==> e is InvalidAuthToken,
    {
        proof {
            use_type_invariant(&self.config);
        }
        let token = match consul_auth_token {
            Some(token) => token,
            None => {
                return Ok(self);
            },
        };
        let text = "Bearer ".to_owned().concat(token);
        let mut value = match HeaderValue::from_str(text.as_str()) {
            Ok(v) => v,
            Err(e) => {
                return Err(Error::from(e));
            },
        };
        value.set_sensitive(true);
        let RegistrationBuilder { config, state } = self;
        let RegistrationConfig {
            consul_http_addr,
            consul_service_address,
            service_name,
            service_id,
            consul_service_port,
            consul_service_scheme,
            headers: map,
        } = config;
        let mut map = map;
        proof {
            vstd::set_lib::lemma_len_subset(
                headers::header_map_entries(map).dom(),
                set!["authorization"@],
            );
        }
        headers::header_map_insert(&mut map, headers::authorization_header(), value);
        let config = RegistrationConfig {
            consul_http_addr,
            consul_service_address,
            service_name,
            service_id,
            consul_service_port,
            consul_service_scheme,
            headers: map,
        };
        Ok(RegistrationBuilder { config, state })
    }

    /// Sets the port that the service listens on.
    pub fn service_port(self, consul_service_port: u16) -> (r: Self)
        ensures
            r@ == self@.with_port(consul_service_port),
    {
        proof {
            use_type_invariant(&self.config);
        }
        let mut builder = self;
        builder.config.consul_service_port = consul_service_port;
        builder
    }

    /// Sets the scheme under which the service is reached.
    pub fn service_scheme(self, consul_service_scheme: &'a str) -> (r: Self)
        ensures
            r@ == self@.with_scheme(consul_service_scheme@),
    {
        proof {
            use_type_invariant(&self.config);
        }
        let mut builder = self;
        builder.config.consul_service_scheme = consul_service_scheme;
        builder
    }
}

impl<'a, ServiceAddress, ServiceName, ServiceId> RegistrationBuilder<
    'a,
    (),
    ServiceAddress,
    ServiceName,
    ServiceId,
> {
    /// Gives the address of the Consul agent.
    pub fn http_addr(self, consul_http_addr: Option<&'a str>) -> (r: RegistrationBuilder<
        'a,
        Option<&'a str>,
        ServiceAddress,
        ServiceName,
        ServiceId,
    >)
        ensures
            r@ == self@.with_http_addr(opt_text(consul_http_addr)),
    {
        proof {
            use_type_invariant(&self.config);
        }
        let mut config = self.config;
        config.consul_http_addr = consul_http_addr;
        RegistrationBuilder { config, state: PhantomData }
    }
}

impl<'a, HttpAddress, ServiceName, ServiceId> RegistrationBuilder<
    'a,
    HttpAddress,
    (),
    ServiceName,
    ServiceId,
> {
    /// Gives the address under which the service is reached.
    pub fn service_address(self, consul_service_address: Option<&'a str>) -> (r: RegistrationBuilder<
        'a,
        HttpAddress,
        Option<&'a str>,
        ServiceName,
        ServiceId,
    >)
        ensures
            r@ == self@.with_service_address(opt_text(consul_service_address)),
    {
        proof {
            use_type_invariant(&self.config);
        }
        let mut config = self.config;
        config.consul_service_address = consul_service_address;
        RegistrationBuilder { config, state: PhantomData }
    }
}

impl<'a, HttpAddress, ServiceAddress, ServiceId> RegistrationBuilder<
    'a,
    HttpAddress,
    ServiceAddress,
    (),
    ServiceId,
> {
    /// Gives the name under which the service registers.
    pub fn service_name(self, service_name: &'a str) -> (r: RegistrationBuilder<
        'a,
        HttpAddress,
        ServiceAddress,
        &'a str,
        ServiceId,
    >)
        ensures
            r@ == self@.with_service_name(service_name@),
    {
        proof {
            use_type_invariant(&self.config);
        }
        let mut config = self.config;
        config.service_name = service_name;
        RegistrationBuilder { config, state: PhantomData }
    }
}

impl<'a, HttpAddress, ServiceAddress, ServiceName> RegistrationBuilder<
    'a,
    HttpAddress,
    ServiceAddress,
    ServiceName,
> {
    /// Gives the id under which the service registers.
    pub fn service_id(self, service_id: String) -> (r: RegistrationBuilder<
        'a,
        HttpAddress,
        ServiceAddress,
        ServiceName,
        String,
    >)
        ensures
            r@ == self@.with_service_id(service_id@),
    {
        proof {
            use_type_invariant(&self.config);
        }
        let mut config = self.config;
        config.service_id = service_id;
        RegistrationBuilder { config, state: PhantomData }
    }
}

/// Whether an optional address is given and not empty.
pub open spec fn given(a: Option<Seq<char>>) -> bool {
    a matches Some(t) && t.len() > 0
}

/// The agent's service endpoint for an agent address: the address without
/// its trailing `/` characters, then `/v1/agent/service`.
pub open spec fn service_endpoint_for(http_addr: Seq<char>) -> Seq<char> {
    text::trim_trailing_slashes(http_addr) + "/v1/agent/service"@
}

/// The address at which Consul checks the service's health.
pub open spec fn health_endpoint_for(
    scheme: Seq<char>,
    address: Seq<char>,
    port: u16,
) -> Seq<char> {
    scheme + "://"@ + address + ":"@ + text::decimal_text(port as nat) + "/api/health"@
}

/// The URL that registers a service with the agent at `http_addr`, with the
/// query that replaces the service's earlier health checks.
pub open spec fn register_url_for(http_addr: Seq<char>) -> Seq<char> {
    service_endpoint_for(http_addr) + "/register?replace-existing-checks=true"@
}

/// The URL that deregisters the service `id` from the agent at `http_addr`.
pub open spec fn deregister_url_for(http_addr: Seq<char>, id: Seq<char>) -> Seq<char> {
    service_endpoint_for(http_addr) + "/deregister/"@ + id
}

/// The health check that Consul runs on the service: an HTTP GET of `http`
/// every 30 s, that times out after 10 s.
pub struct HealthCheck {
    pub http: String,
    pub interval: String,
    pub timeout: String,
}

/// The service description that the agent receives.
pub struct Service {
    pub name: String,
    pub id: String,
    pub tags: Vec<String>,
    pub address: String,
    pub port: u16,
    pub check: HealthCheck,
}

/// What a service description says.
pub struct ServiceView {
    pub name: Seq<char>,
    pub id: Seq<char>,
    pub tags: Seq<Seq<char>>,
    pub address: Seq<char>,
    pub port: u16,
    pub check_http: Seq<char>,
    pub check_interval: Seq<char>,
    pub check_timeout: Seq<char>,
}

impl View for Service {
    type V = ServiceView;

    open spec fn view(&self) -> ServiceView {
        ServiceView {
            name: self.name@,
            id: self.id@,
            tags: self.tags@.map_values(|t: String| t@),
            address: self.address@,
            port: self.port,
            check_http: self.check.http@,
            check_interval: self.check.interval@,
            check_timeout: self.check.timeout@,
        }
    }
}

/// The service description that a complete builder registers.
pub open spec fn service_for(b: BuilderView) -> ServiceView {
    ServiceView {
        name: b.service_name,
        id: b.service_id,
        tags: seq!["prometheus"@],
        address: b.service_address->0,
        port: b.service_port,
        check_http: health_endpoint_for(b.service_scheme, b.service_address->0, b.service_port),
        check_interval: "30s"@,
        check_timeout: "10s"@,
    }
}

/// A service registered with an agent: what it takes to deregister it.
pub struct Registration {
    headers: HeaderMap,
    service_endpoint: String,
    service_id: String,
}

/// What a registration holds.
pub struct RegistrationView {
    pub headers: HeadersView,
    pub service_endpoint: Seq<char>,
    pub service_id: Seq<char>,
}

impl View for Registration {
    type V = RegistrationView;

    closed spec fn view(&self) -> RegistrationView {
        RegistrationView {
            headers: headers::header_map_entries(self.headers),
            service_endpoint: self.service_endpoint@,
            service_id: self.service_id@,
        }
    }
}

impl Registration {
    /// The headers that every request to the agent carries.
    pub fn headers(&self) -> (r: &HeaderMap)
        ensures
            headers::header_map_entries(*r) == self@.headers,
    {
        &self.headers
    }

    /// The URL that deregisters the service.
    pub fn deregister_url(&self) -> (r: String)
        ensures
            r@ == self@.service_endpoint + "/deregister/"@ + self@.service_id,
    {
        self.service_endpoint.clone().concat("/deregister/").concat(self.service_id.as_str())
    }
}

/// A registration ready to be sent: the URL to `PUT` it to, query
/// `replace-existing-checks=true` included, the service description that is
/// its body, and the registration that deregisters the service later.
pub struct PreparedRegistration {
    pub register_url: String,
    pub payload: Service,
    pub registration: Registration,
}

impl<'a> RegistrationBuilder<'a, Option<&'a str>, Option<&'a str>, &'a str, String> {
    /// What registering the service takes: nothing when the agent's address
    /// or the service's address is missing or empty; otherwise the request
    /// to the agent's service endpoint and the registration that it makes.
    pub fn prepare_registration(self) -> (r: Option<PreparedRegistration>)
        ensures
            r is Some <==> given(self@.http_addr) && given(self@.service_address),
            r matches Some(p) ==> {
                &&& p.register_url@ == register_url_for(self@.http_addr->0)
                &&& p.payload@ == service_for(self@)
                &&& p.registration@.service_endpoint == service_endpoint_for(self@.http_addr->0)
                &&& p.registration@.service_id == self@.service_id
                &&& p.registration@.headers == self@.headers
            },
    {
        let RegistrationBuilder { config, state: _ } = self;
        let consul_http_addr = match config.consul_http_addr {
            Some(a) => a,
            None => {
                return None;
            },
        };
        if consul_http_addr.is_empty() {
            return None;
        }
        let consul_service_address = match config.consul_service_address {
            Some(a) => a,
            None => {
                return None;
            },
        };
        if consul_service_address.is_empty() {
            return None;
        }
        let service_endpoint = text::trim_end_slashes(consul_http_addr).to_owned().concat(
            "/v1/agent/service",
        );
        let mut health_endpoint = config.consul_service_scheme.to_owned().concat("://").concat(
            consul_service_address,
        ).concat(":");
        text::push_decimal(&mut health_endpoint, config.consul_service_port as u64);
        health_endpoint.append("/api/health");
        let health_check = HealthCheck {
            http: health_endpoint,
            interval: "30s".to_owned(),
            timeout: "10s".to_owned(),
        };
        let tags = vec!["prometheus".to_owned()];
        let payload = Service {
            name: config.service_name.to_owned(),
            id: config.service_id.clone(),
            tags,
            address: consul_service_address.to_owned(),
            port: config.consul_service_port,
            check: health_check,
        };
        assert(payload.tags@.map_values(|t: String| t@) =~= seq!["prometheus"@]);
        let register_url = service_endpoint.clone().concat(
            "/register?replace-existing-checks=true",
        );
        let registration = Registration {
            headers: config.headers,
            service_endpoint,
            service_id: config.service_id,
        };
        Some(PreparedRegistration { register_url, payload, registration })
    }
}

/// Trailing `/` characters of the agent's address make no difference:
/// `http://consul/` and `http://consul` reach the same endpoint.
pub proof fn lemma_trailing_slash_ignored(http_addr: Seq<char>)
    ensures
        service_endpoint_for(http_addr.push('/')) == service_endpoint_for(http_addr),
{
    assert(http_addr.push('/').drop_last() =~= http_addr);
}

/// The service endpoint is the agent's address up to its trailing `/`
/// characters, with no `/` doubled before `/v1/agent/service`.
pub proof fn lemma_service_endpoint_shape(http_addr: Seq<char>)
    ensures
        ({
            let t = text::trim_trailing_slashes(http_addr);
            &&& service_endpoint_for(http_addr) == t + "/v1/agent/service"@
            &&& t == http_addr.take(t.len() as int)
            &&& (t.len() == 0 || t.last() != '/')
            &&& http_addr == t + text::slashes((http_addr.len() - t.len()) as nat)
        }),
{
    let t = text::trim_trailing_slashes(http_addr);
    text::lemma_trim_trailing_slashes(http_addr);
    assert(http_addr =~= t + text::slashes((http_addr.len() - t.len()) as nat));
}

/// Deregistration addresses the service that registration created: the
/// registration that `prepare_registration` makes deregisters the service
/// id of the description it sends, at the endpoint it sends it to.
pub proof fn lemma_deregister_matches_register(b: BuilderView, r: RegistrationView)
    requires
        given(b.http_addr),
        given(b.service_address),
        r.service_endpoint == service_endpoint_for(b.http_addr->0),
        r.service_id == b.service_id,
    ensures
        r.service_endpoint + "/deregister/"@ + r.service_id == deregister_url_for(
            b.http_addr->0,
            service_for(b).id,
        ),
        register_url_for(b.http_addr->0) == r.service_endpoint
            + "/register?replace-existing-checks=true"@,
{
}

/// The service registers the builder's port, whatever the scheme, and
/// Consul checks its health at `<scheme>://<address>:<port>/api/health`,
/// with that same port written in decimal.
pub proof fn lemma_service_uses_builder_port(b: BuilderView)
    ensures
        service_for(b).port == b.service_port,
        service_for(b).address == b.service_address->0,
        service_for(b).name == b.service_name,
        service_for(b).id == b.service_id,
        service_for(b).check_http == b.service_scheme + "://"@ + b.service_address->0 + ":"@
            + text::decimal_text(b.service_port as nat) + "/api/health"@,
        text::parse_unsigned(text::decimal_text(b.service_port as nat), u16::MAX as int) == Some(
            b.service_port as int,
        ),
{
    text::lemma_decimal_text_parses_back(b.service_port as nat, u16::MAX as int);
}

/// The bearer header holds `Bearer ` and then the whole token: the token
/// can be read back from it, whatever its length.
pub proof fn lemma_bearer_holds_whole_token(b: BuilderView, token: Seq<char>)
    ensures
        BuilderView::bearer(token) == "Bearer "@ + token,
        BuilderView::bearer(token).subrange(
            "Bearer "@.len() as int,
            BuilderView::bearer(token).len() as int,
        ) == token,
        b.with_bearer(token).headers == b.headers.insert(
            "authorization"@,
            seq![(vstd::utf8::encode_utf8("Bearer "@ + token), true)],
        ),
        b.with_bearer(token).http_addr == b.http_addr,
        b.with_bearer(token).service_address == b.service_address,
        b.with_bearer(token).service_name == b.service_name,
        b.with_bearer(token).service_id == b.service_id,
        b.with_bearer(token).service_port == b.service_port,
        b.with_bearer(token).service_scheme == b.service_scheme,
{
    assert(BuilderView::bearer(token).subrange(
        "Bearer "@.len() as int,
        BuilderView::bearer(token).len() as int,
    ) =~= token);
}

/// Two tokens give the same bearer header text only when they are the same
/// token.
pub proof fn lemma_bearer_injective(t1: Seq<char>, t2: Seq<char>)
    ensures
        BuilderView::bearer(t1) == BuilderView::bearer(t2) <==> t1 == t2,
{
    if BuilderView::bearer(t1) == BuilderView::bearer(t2) {
        lemma_bearer_holds_whole_token(BuilderView {
            http_addr: None,
            service_address: None,
            service_name: seq![],
            service_id: seq![],
            service_port: 0,
            service_scheme: seq![],
            headers: Map::empty(),
        }, t1);
        lemma_bearer_holds_whole_token(BuilderView {
            http_addr: None,
            service_address: None,
            service_name: seq![],
            service_id: seq![],
            service_port: 0,
            service_scheme: seq![],
            headers: Map::empty(),
        }, t2);
    }
}

} // verus!
