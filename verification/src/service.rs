use vstd::prelude::*;

use crate::http_helper::answer_model;
use crate::http_helper::generate_ssdp_discover_answer;
use crate::message::first_token;
use crate::message::first_token_of;
use crate::message::parse_datagram;
use crate::message::parse_message;
use crate::message::render_message;
use crate::message::str_eq;

verus! {

/// The mathematical content of a [`ServiceDescription`]: its four fields as
/// plain sequences and an integer.
#[verifier::ext_equal]
pub struct DescriptionModel {
    pub usn_uri: Seq<char>,
    pub service_type_uri: Seq<char>,
    pub expiration: u32,
    pub location: Seq<char>,
}

/// This describes the basic data exchanged between [`Service`] and
/// [`crate::client::Client`].
///
/// Usages:
/// - It is used to create a new [`Service`].
/// - [`crate::client::Client`] holds a list of all it could find within the
///   network.
#[derive(Debug, PartialEq, Eq)]
pub struct ServiceDescription {
    /// Unique identifier, often a UUID, e.g. `uuid:83760048-2d32-4e48-854f-f63a8fa9fd09`.
    pub usn_uri: String,
    /// Descriptive name; usually a [`crate::client::Client`] searches for this term.
    pub service_type_uri: String,
    /// Cache-Control max age: the time after which this service expires and a
    /// [`crate::client::Client`] should search again.  The protocol caps the
    /// value at 31536000 seconds (one year); the codec does not enforce that.
    pub expiration: u32,
    /// Location of the [`Service`], nominally a URL.  Not validated.
    pub location: String,
}

impl View for ServiceDescription {
    type V = DescriptionModel;

    open spec fn view(&self) -> DescriptionModel {
        DescriptionModel {
            usn_uri: self.usn_uri@,
            service_type_uri: self.service_type_uri@,
            expiration: self.expiration,
            location: self.location@,
        }
    }
}

impl Clone for ServiceDescription {
    fn clone(&self) -> (r: Self)
        ensures
            r == *self,
    {
        ServiceDescription {
            usn_uri: self.usn_uri.clone(),
            service_type_uri: self.service_type_uri.clone(),
            expiration: self.expiration,
            location: self.location.clone(),
        }
    }
}

/// The SSDP Service.
///
/// Call [`Service::new`] with a [`ServiceDescription`] to create one.
pub struct Service {
    service_description: ServiceDescription,
}

impl View for Service {
    type V = DescriptionModel;

    closed spec fn view(&self) -> DescriptionModel {
        self.service_description@
    }
}

/// A datagram is answered exactly when it parses, its method is `M-SEARCH`,
/// the header at slot 2 carries the quoted discover literal, and the header
/// at slot 3 carries `ssdp:all` or the service's own search target.
///
/// The slots are positional on purpose: both ends of this codec emit headers
/// in a fixed order and read them back by index, not by name.
pub open spec fn search_accepts(msg: Seq<char>, own_st: Seq<char>) -> bool {
    match parse_message(msg) {
        None => false,
        Some(m) => {
            &&& first_token(m.start) == "M-SEARCH"@
            &&& m.headers.len() > 3
            &&& m.headers[2].value == "\"ssdp:discover\""@
            &&& (m.headers[3].value == "ssdp:all"@ || m.headers[3].value == own_st)
        },
    }
}

/// The requester identifier of an accepted search: the value at header
/// slot 0.
pub open spec fn search_requester(msg: Seq<char>) -> Seq<char> {
    parse_message(msg)->Some_0.headers[0].value
}

impl Service {
    /// Creates a new [`Service`] from the description it will answer with.
    pub fn new(service_description: ServiceDescription) -> (r: Self)
        ensures
            r@ == service_description@,
    {
        Service { service_description }
    }

    /// Decides one received datagram: answers an acceptable search with the
    /// rendered search-answer addressed to the requester, and rejects
    /// everything else silently with `None`.
    pub fn handle_search(&self, datagram: &str) -> (r: Option<String>)
        ensures
            r is Some <==> search_accepts(datagram@, self@.service_type_uri),
            r is Some ==> r->0@ == render_message(
                answer_model(self@, search_requester(datagram@)),
            ),
    {
        match parse_datagram(datagram) {
            None => None,
            Some(m) => {
                if !str_eq(first_token_of(m.start_line.as_str()), "M-SEARCH") {
                    return None;
                }
                if m.headers.len() <= 3 {
                    return None;
                }
                if !str_eq(m.headers[2].value.as_str(), "\"ssdp:discover\"") {
                    return None;
                }
                let is_all = str_eq(m.headers[3].value.as_str(), "ssdp:all");
                let is_own = str_eq(
                    m.headers[3].value.as_str(),
                    self.service_description.service_type_uri.as_str(),
                );
                if !is_all && !is_own {
                    return None;
                }
                let requester = m.headers[0].value.clone();
                Some(generate_ssdp_discover_answer(&self.service_description, requester))
            },
        }
    }
}

} // verus!
