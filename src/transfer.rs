use vstd::prelude::*;
use vstd::string::StringExecFns;

use crate::namespace::{edc_iri, Namespace, EDC_PREFIX};
use crate::signaling::{properties_view, property_of, DataAddress, EndpointProperty};
use crate::text::text_eq;

verus! {

/// Where a transfer stands in its life.
#[derive(Clone, Copy, Debug, PartialEq, Eq, Structural)]
pub enum TransferStatus {
    Started,
    Suspended,
}

/// A transfer as it is kept: its id is the process id of the start request;
/// times are seconds since the epoch.
#[derive(Debug)]
pub struct Transfer {
    pub id: String,
    pub status: TransferStatus,
    pub source: DataAddress,
    pub participant_id: String,
    pub created_at: i64,
    pub updated_at: i64,
}

/// The mathematical value of a transfer.
pub struct TransferView {
    pub id: Seq<char>,
    pub status: TransferStatus,
    pub source_type: Seq<char>,
    pub source: Seq<(Seq<char>, Seq<char>)>,
    pub participant_id: Seq<char>,
    pub created_at: i64,
    pub updated_at: i64,
}

impl View for Transfer {
    type V = TransferView;

    open spec fn view(&self) -> TransferView {
        TransferView {
            id: self.id@,
            status: self.status,
            source_type: self.source.endpoint_type@,
            source: self.source.properties(),
            participant_id: self.participant_id@,
            created_at: self.created_at,
            updated_at: self.updated_at,
        }
    }
}

/// A copy of the properties of a data address.
pub fn copy_properties(v: &Vec<EndpointProperty>) -> (r: Vec<EndpointProperty>)
    ensures
        properties_view(r@) == properties_view(v@),
{
    let mut out: Vec<EndpointProperty> = Vec::new();
    let mut i: usize = 0;
    while i < v.len()
        invariant
            i <= v@.len(),
            out@.len() == i,
            forall|k: int| 0 <= k < i ==> #[trigger] out@[k]@ == v@[k]@,
        decreases v@.len() - i,
    {
        let p = EndpointProperty { name: v[i].name.clone(), value: v[i].value.clone() };
        out.push(p);
        i += 1;
    }
    assert(properties_view(out@) =~= properties_view(v@));
    out
}

impl DataAddress {
    /// A copy of this data address.
    pub fn copy(&self) -> (r: DataAddress)
        ensures
            r.endpoint_type@ == self.endpoint_type@,
            r.properties() == self.properties(),
    {
        DataAddress {
            endpoint_type: self.endpoint_type.clone(),
            endpoint_properties: copy_properties(&self.endpoint_properties),
        }
    }
}

impl Transfer {
    /// A copy of this transfer.
    pub fn copy(&self) -> (r: Transfer)
        ensures
            r@ == self@,
    {
        Transfer {
            id: self.id.clone(),
            status: self.status,
            source: self.source.copy(),
            participant_id: self.participant_id.clone(),
            created_at: self.created_at,
            updated_at: self.updated_at,
        }
    }
}

/// The parts of a URL: scheme, host, port and path.
#[derive(Debug)]
pub struct BaseUrl {
    pub scheme: Option<String>,
    pub host: Option<String>,
    pub port: Option<u16>,
    pub path: String,
}

/// The text held by an optional string.
pub open spec fn text_option(o: Option<String>) -> Option<Seq<char>> {
    match o {
        Some(s) => Some(s@),
        None => None,
    }
}

impl View for BaseUrl {
    type V = (Option<Seq<char>>, Option<Seq<char>>, Option<u16>, Seq<char>);

    open spec fn view(&self) -> (Option<Seq<char>>, Option<Seq<char>>, Option<u16>, Seq<char>) {
        (text_option(self.scheme), text_option(self.host), self.port, self.path@)
    }
}

/// The parts of the URI written in a text, as `http::Uri` reads it: scheme,
/// host, port and path; none where it is no URI.
pub uninterp spec fn uri_parts(s: Seq<char>) -> Option<
    (Option<Seq<char>>, Option<Seq<char>>, Option<u16>, Seq<char>),
>;

/// Relies on `http::Uri`'s `FromStr` and on its accessors `scheme_str`, `host`,
/// `port_u16` and `path`, which depend on the text alone.
#[verifier::external_body]
fn parse_uri(s: &str) -> (r: Option<BaseUrl>)
    ensures
        match r {
            Some(u) => uri_parts(s@) == Some(u@),
            None => uri_parts(s@) is None,
        },
{
    match s.parse::<axum::http::Uri>() {
        Ok(u) => Some(BaseUrl {
            scheme: u.scheme_str().map(|x| x.to_string()),
            host: u.host().map(|x| x.to_string()),
            port: u.port_u16(),
            path: u.path().to_string(),
        }),
        Err(_) => None,
    }
}

/// Whether URL parts name a scheme and a host.
pub open spec fn is_absolute(u: (Option<Seq<char>>, Option<Seq<char>>, Option<u16>, Seq<char>)) -> bool {
    u.0 is Some && u.1 is Some
}

/// The parts of an absolute URL written in `s`.
pub open spec fn absolute_url(s: Seq<char>) -> Option<
    (Option<Seq<char>>, Option<Seq<char>>, Option<u16>, Seq<char>),
> {
    match uri_parts(s) {
        Some(u) => if is_absolute(u) {
            Some(u)
        } else {
            None
        },
        None => None,
    }
}

impl BaseUrl {
    /// Reads an absolute URL: one with a scheme and a host.
    pub fn parse_absolute(s: &str) -> (r: Option<BaseUrl>)
        ensures
            match r {
                Some(u) => absolute_url(s@) == Some(u@),
                None => absolute_url(s@) is None,
            },
    {
        match parse_uri(s) {
            Some(u) => if u.scheme.is_some() && u.host.is_some() {
                Some(u)
            } else {
                None
            },
            None => None,
        }
    }
}

/// A data source reached over HTTP.
#[derive(Debug)]
pub struct HttpData {
    pub base_url: BaseUrl,
    pub proxy_path: bool,
    pub proxy_method: bool,
    pub proxy_query_params: bool,
}

/// The kinds of data source that can be transferred.
#[derive(Debug)]
pub enum TransferKind {
    HttpData(HttpData),
}

/// Why a data address names no data source that can be transferred.
#[derive(Clone, Copy, Debug, PartialEq, Eq, Structural)]
pub enum TransferKindError {
    UnsupportedType,
    MissingBaseUrl,
    InvalidBaseUrl,
}

/// Whether an endpoint type names an HTTP data source.
pub open spec fn is_http_data_type(t: Seq<char>) -> bool {
    t == "HttpData"@ || t == edc_iri("HttpData"@)
}

/// The value of a flag property: set only where it reads `true`.
pub open spec fn flag_of(props: Seq<(Seq<char>, Seq<char>)>, name: Seq<char>) -> bool {
    property_of(props, edc_iri(name)) == Some("true"@)
}

/// What `HttpData::try_from` makes of a data address: the base URL, or why
/// there is none.
pub open spec fn http_base_url(props: Seq<(Seq<char>, Seq<char>)>) -> Result<
    (Option<Seq<char>>, Option<Seq<char>>, Option<u16>, Seq<char>),
    TransferKindError,
> {
    match property_of(props, edc_iri("baseUrl"@)) {
        None => Err(TransferKindError::MissingBaseUrl),
        Some(url) => match absolute_url(url) {
            None => Err(TransferKindError::InvalidBaseUrl),
            Some(u) => Ok(u),
        },
    }
}

/// Whether a flag property of the data address is set.
pub fn get_bool_property(value: &DataAddress, property: &str) -> (r: bool)
    ensures
        r == flag_of(value.properties(), property@),
{
    let name = Namespace(EDC_PREFIX).to_iri(property);
    match value.get_property(name.as_str()) {
        Some(v) => text_eq(v, "true"),
        None => false,
    }
}

impl HttpData {
    /// The HTTP data source that a data address describes.
    pub fn try_from(value: &DataAddress) -> (r: Result<HttpData, TransferKindError>)
        ensures
            match r {
                Ok(d) => http_base_url(value.properties()) == Ok::<_, TransferKindError>(d.base_url@)
                    && d.proxy_path == flag_of(value.properties(), "proxyPath"@)
                    && d.proxy_method == flag_of(value.properties(), "proxyMethod"@)
                    && d.proxy_query_params == flag_of(value.properties(), "proxyQueryParams"@),
                Err(e) => http_base_url(value.properties()) == Err::<
                    (Option<Seq<char>>, Option<Seq<char>>, Option<u16>, Seq<char>),
                    _,
                >(e),
            },
    {
        let name = Namespace(EDC_PREFIX).to_iri("baseUrl");
        let url = match value.get_property(name.as_str()) {
            Some(u) => u,
            None => return Err(TransferKindError::MissingBaseUrl),
        };
        let base_url = match BaseUrl::parse_absolute(url) {
            Some(b) => b,
            None => return Err(TransferKindError::InvalidBaseUrl),
        };
        Ok(HttpData {
            base_url,
            proxy_path: get_bool_property(value, "proxyPath"),
            proxy_method: get_bool_property(value, "proxyMethod"),
            proxy_query_params: get_bool_property(value, "proxyQueryParams"),
        })
    }
}

/// What `TransferKind::try_from` makes of a data address: the base URL of the
/// HTTP data source, or why there is none.
pub open spec fn transfer_kind_of(source_type: Seq<char>, props: Seq<(Seq<char>, Seq<char>)>) -> Result<
    (Option<Seq<char>>, Option<Seq<char>>, Option<u16>, Seq<char>),
    TransferKindError,
> {
    if is_http_data_type(source_type) {
        http_base_url(props)
    } else {
        Err(TransferKindError::UnsupportedType)
    }
}

impl TransferKind {
    /// The kind of data source that a data address describes.
    pub fn try_from(value: &DataAddress) -> (r: Result<TransferKind, TransferKindError>)
        ensures
            match r {
                Ok(TransferKind::HttpData(d)) => transfer_kind_of(
                    value.endpoint_type@,
                    value.properties(),
                ) == Ok::<_, TransferKindError>(d.base_url@) && d.proxy_path == flag_of(
                    value.properties(),
                    "proxyPath"@,
                ) && d.proxy_method == flag_of(value.properties(), "proxyMethod"@)
                    && d.proxy_query_params == flag_of(value.properties(), "proxyQueryParams"@),
                Err(e) => transfer_kind_of(value.endpoint_type@, value.properties()) == Err::<
                    (Option<Seq<char>>, Option<Seq<char>>, Option<u16>, Seq<char>),
                    _,
                >(e),
            },
    {
        let edc_type = Namespace(EDC_PREFIX).to_iri("HttpData");
        if text_eq(value.endpoint_type.as_str(), "HttpData") || text_eq(
            value.endpoint_type.as_str(),
            edc_type.as_str(),
        ) {
            match HttpData::try_from(value) {
                Ok(d) => Ok(TransferKind::HttpData(d)),
                Err(e) => Err(e),
            }
        } else {
            Err(TransferKindError::UnsupportedType)
        }
    }
}

} // verus!
