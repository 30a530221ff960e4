use vstd::prelude::*;

use crate::message::parse_datagram;
use crate::message::parse_message;
use crate::message::second_token;
use crate::message::second_token_of;
use crate::message::str_eq;
use crate::service::DescriptionModel;
use crate::service::ServiceDescription;

verus! {

/// The mathematical content of a [`Client`]: the registry of discovered
/// services and the configured collection timeout.
#[verifier::ext_equal]
pub struct ClientModel {
    pub services: Seq<DescriptionModel>,
    pub timeout_ms: u64,
}

/// The views of the registry entries, in insertion order.
pub open spec fn descs_view(s: Seq<ServiceDescription>) -> Seq<DescriptionModel> {
    s.map_values(|d: ServiceDescription| d@)
}

/// Index of the first registry entry carrying `usn`, or the length if none
/// does.
pub open spec fn first_usn_index(s: Seq<DescriptionModel>, usn: Seq<char>) -> nat
    decreases s.len(),
{
    if s.len() == 0 {
        0
    } else if s[0].usn_uri == usn {
        0
    } else {
        1 + first_usn_index(s.drop_first(), usn)
    }
}

/// Some registry entry carries `usn`.
pub open spec fn has_usn(s: Seq<DescriptionModel>, usn: Seq<char>) -> bool {
    exists|i: int| 0 <= i < s.len() && s[i].usn_uri == usn
}

pub proof fn lemma_first_usn_index(s: Seq<DescriptionModel>, usn: Seq<char>)
    ensures
        first_usn_index(s, usn) <= s.len(),
        forall|j: int| 0 <= j < first_usn_index(s, usn) ==> s[j].usn_uri != usn,
        first_usn_index(s, usn) < s.len() ==> s[first_usn_index(s, usn) as int].usn_uri == usn,
        has_usn(s, usn) <==> first_usn_index(s, usn) < s.len(),
    decreases s.len(),
{
    if s.len() != 0 && s[0].usn_uri != usn {
        lemma_first_usn_index(s.drop_first(), usn);
        let i = first_usn_index(s, usn);
        assert forall|j: int| 0 <= j < i implies s[j].usn_uri != usn by {
            if j > 0 {
                assert(s[j] == s.drop_first()[j - 1]);
            }
        }
        if has_usn(s, usn) {
            let w = choose|w: int| 0 <= w < s.len() && s[w].usn_uri == usn;
            assert(w != 0);
            assert(s.drop_first()[w - 1].usn_uri == usn);
            assert(has_usn(s.drop_first(), usn));
        }
        if first_usn_index(s.drop_first(), usn) < s.drop_first().len() {
            assert(s[i as int] == s.drop_first()[i - 1]);
            assert(has_usn(s, usn));
        }
    }
}

/// Where the entries before `i` miss `usn` and the entry at `i` carries it,
/// `i` is the first index for `usn`.
pub proof fn lemma_first_usn_index_pin(s: Seq<DescriptionModel>, usn: Seq<char>, i: nat)
    requires
        i < s.len(),
        s[i as int].usn_uri == usn,
        forall|j: int| 0 <= j < i ==> s[j].usn_uri != usn,
    ensures
        first_usn_index(s, usn) == i,
        has_usn(s, usn),
    decreases s.len(),
{
    if i > 0 {
        assert(s[0].usn_uri != usn);
        let t = s.drop_first();
        assert(t[i - 1].usn_uri == usn);
        assert forall|j: int| 0 <= j < i - 1 implies t[j].usn_uri != usn by {
            assert(t[j] == s[j + 1]);
        }
        lemma_first_usn_index_pin(t, usn, (i - 1) as nat);
    }
}

/// The registry after recording `d`: the first entry with `d`'s identity is
/// replaced where one exists, else `d` is appended.
pub open spec fn upsert(s: Seq<DescriptionModel>, d: DescriptionModel) -> Seq<DescriptionModel> {
    if has_usn(s, d.usn_uri) {
        s.update(first_usn_index(s, d.usn_uri) as int, d)
    } else {
        s.push(d)
    }
}

/// No two registry entries share an identity.
pub open spec fn unique_identities(s: Seq<DescriptionModel>) -> bool {
    forall|i: int, j: int| 0 <= i < j < s.len() ==> s[i].usn_uri != s[j].usn_uri
}

/// Recording grows the registry by one entry exactly when the identity is
/// new, and never otherwise.
pub proof fn lemma_upsert_len(r: Seq<DescriptionModel>, d: DescriptionModel)
    ensures
        upsert(r, d).len() == if has_usn(r, d.usn_uri) {
            r.len()
        } else {
            r.len() + 1
        },
{
    lemma_first_usn_index(r, d.usn_uri);
}

/// Recording keeps identities unique and makes the recorded identity
/// present.
pub proof fn lemma_upsert_preserves_unique(r: Seq<DescriptionModel>, d: DescriptionModel)
    requires
        unique_identities(r),
    ensures
        unique_identities(upsert(r, d)),
        has_usn(upsert(r, d), d.usn_uri),
{
    lemma_first_usn_index(r, d.usn_uri);
    let out = upsert(r, d);
    if has_usn(r, d.usn_uri) {
        let i0 = first_usn_index(r, d.usn_uri) as int;
        assert(out == r.update(i0, d));
        assert(out[i0].usn_uri == d.usn_uri);
        assert forall|i: int, j: int| 0 <= i < j < out.len() implies out[i].usn_uri
            != out[j].usn_uri by {
            if i != i0 && j != i0 {
                assert(out[i] == r[i] && out[j] == r[j]);
            } else if i == i0 {
                assert(out[j] == r[j]);
                assert(r[i0].usn_uri == d.usn_uri);
            } else {
                assert(out[i] == r[i]);
                assert(r[i0].usn_uri == d.usn_uri);
            }
        }
    } else {
        assert(out == r.push(d));
        assert(out[r.len() as int].usn_uri == d.usn_uri);
        assert forall|i: int, j: int| 0 <= i < j < out.len() implies out[i].usn_uri
            != out[j].usn_uri by {
            if j < r.len() {
                assert(out[i] == r[i] && out[j] == r[j]);
            } else {
                assert(out[i] == r[i]);
                if r[i].usn_uri == d.usn_uri {
                    assert(has_usn(r, d.usn_uri));
                }
            }
        }
    }
}

/// Recording a description and then one with the same identity leaves no
/// trace of the first: only the latest fields remain, in one entry.
pub proof fn lemma_upsert_same_identity(
    r: Seq<DescriptionModel>,
    d1: DescriptionModel,
    d2: DescriptionModel,
)
    requires
        d1.usn_uri == d2.usn_uri,
    ensures
        upsert(upsert(r, d1), d2) == upsert(r, d2),
{
    lemma_first_usn_index(r, d1.usn_uri);
    let r1 = upsert(r, d1);
    if has_usn(r, d1.usn_uri) {
        let i0 = first_usn_index(r, d1.usn_uri) as nat;
        assert(r1 == r.update(i0 as int, d1));
        assert(r1[i0 as int].usn_uri == d2.usn_uri);
        assert forall|j: int| 0 <= j < i0 implies r1[j].usn_uri != d2.usn_uri by {
            assert(r1[j] == r[j]);
        }
        lemma_first_usn_index_pin(r1, d2.usn_uri, i0);
        assert(upsert(r1, d2) == r1.update(i0 as int, d2));
        assert(r1.update(i0 as int, d2) =~= r.update(i0 as int, d2));
    } else {
        assert(r1 == r.push(d1));
        assert(r1[r.len() as int].usn_uri == d2.usn_uri);
        assert forall|j: int| 0 <= j < r.len() implies r1[j].usn_uri != d2.usn_uri by {
            assert(r1[j] == r[j]);
            if r[j].usn_uri == d2.usn_uri {
                assert(has_usn(r, d1.usn_uri));
            }
        }
        lemma_first_usn_index_pin(r1, d2.usn_uri, r.len());
        assert(upsert(r1, d2) == r1.update(r.len() as int, d2));
        assert(r1.update(r.len() as int, d2) =~= r.push(d2));
        assert(upsert(r, d2) == r.push(d2));
    }
}

/// Recording two descriptions with distinct identities appends both: no
/// accidental merge.
pub proof fn lemma_upsert_distinct_identity(
    r: Seq<DescriptionModel>,
    d1: DescriptionModel,
    d2: DescriptionModel,
)
    requires
        d1.usn_uri != d2.usn_uri,
        !has_usn(r, d1.usn_uri),
        !has_usn(r, d2.usn_uri),
    ensures
        upsert(upsert(r, d1), d2) == r.push(d1).push(d2),
{
    let r1 = upsert(r, d1);
    assert(r1 == r.push(d1));
    assert forall|i: int| 0 <= i < r1.len() implies r1[i].usn_uri != d2.usn_uri by {
        if i < r.len() {
            assert(r1[i] == r[i]);
            if r[i].usn_uri == d2.usn_uri {
                assert(has_usn(r, d2.usn_uri));
            }
        }
    }
    assert(!has_usn(r1, d2.usn_uri));
    assert(upsert(r1, d2) == r1.push(d2));
}

/// Recording into an empty registry leaves exactly that one description.
pub proof fn lemma_upsert_into_empty(d: DescriptionModel)
    ensures
        upsert(Seq::<DescriptionModel>::empty(), d) =~= seq![d],
{
}

/// A datagram updates the registry exactly when it parses, its status token
/// is `200`, and the headers at slots 3, 4, 5 are named `ST`, `USN`, `AL`.
///
/// The slots are positional on purpose: both ends of this codec emit headers
/// in a fixed order and read them back by index, not by name.
pub open spec fn response_accepts(msg: Seq<char>) -> bool {
    match parse_message(msg) {
        None => false,
        Some(m) => {
            &&& second_token(m.start) == "200"@
            &&& m.headers.len() > 5
            &&& m.headers[3].name == "ST"@
            &&& m.headers[4].name == "USN"@
            &&& m.headers[5].name == "AL"@
        },
    }
}

/// The description an accepted answer contributes: `USN`, `ST` and the raw
/// `AL` value, read by slot.  The expiration is a fixed placeholder; the
/// `max-age` of `Cache-Control` is not parsed, and the `AL` value is kept
/// whole rather than reduced to its URL part.
pub open spec fn response_description(msg: Seq<char>) -> DescriptionModel {
    let m = parse_message(msg)->Some_0;
    DescriptionModel {
        usn_uri: m.headers[4].value,
        service_type_uri: m.headers[3].value,
        expiration: 100,
        location: m.headers[5].value,
    }
}

/// The SSDP Client: the registry of services found so far and the timeout
/// used to bound one discovery round.
pub struct Client {
    services: Vec<ServiceDescription>,
    timeout_ms: u64,
}

impl View for Client {
    type V = ClientModel;

    closed spec fn view(&self) -> ClientModel {
        ClientModel { services: descs_view(self.services@), timeout_ms: self.timeout_ms }
    }
}

impl Default for Client {
    /// An empty registry and the default five-second timeout.
    fn default() -> (r: Self)
        ensures
            r@.services == Seq::<DescriptionModel>::empty(),
            r@.timeout_ms == 5000,
    {
        let r = Client { services: Vec::new(), timeout_ms: 5000 };
        proof {
            assert(descs_view(r.services@) =~= Seq::<DescriptionModel>::empty());
        }
        r
    }
}

fn upsert_service(services: &mut Vec<ServiceDescription>, d: ServiceDescription)
    ensures
        descs_view(final(services)@) == upsert(descs_view(old(services)@), d@),
{
    let ghost s0 = descs_view(services@);
    let n: usize = services.len();
    let mut i: usize = 0;
    while i < n
        invariant
            n == services@.len(),
            i <= n,
            descs_view(services@) == s0,
            descs_view(old(services)@) == s0,
            forall|j: int| 0 <= j < i ==> s0[j].usn_uri != d@.usn_uri,
        decreases n - i,
    {
        if str_eq(services[i].usn_uri.as_str(), d.usn_uri.as_str()) {
            proof {
                lemma_first_usn_index(s0, d@.usn_uri);
                assert(s0[i as int] == services@[i as int]@);
                assert(first_usn_index(s0, d@.usn_uri) == i);
            }
            let ghost dv = d@;
            services[i] = d;
            proof {
                assert(s0[i as int].usn_uri == dv.usn_uri);
                assert(has_usn(s0, dv.usn_uri));
                assert(upsert(s0, dv) == s0.update(i as int, dv));
                assert(descs_view(services@) =~= s0.update(i as int, dv));
            }
            return;
        }
        proof {
            assert(s0[i as int] == services@[i as int]@);
        }
        i = i + 1;
    }
    proof {
        lemma_first_usn_index(s0, d@.usn_uri);
        assert(!has_usn(s0, d@.usn_uri));
    }
    services.push(d);
    proof {
        assert(descs_view(services@) =~= s0.push(d@));
    }
}

impl Client {
    /// Folds one received datagram into the registry: an acceptable answer
    /// is recorded under its `USN` identity, replacing any earlier entry
    /// with the same identity; anything else is discarded silently.
    pub fn process_response(&mut self, datagram: &str) -> (accepted: bool)
        ensures
            accepted == response_accepts(datagram@),
            final(self)@.timeout_ms == old(self)@.timeout_ms,
            accepted ==> final(self)@.services == upsert(
                old(self)@.services,
                response_description(datagram@),
            ),
            !accepted ==> final(self)@.services == old(self)@.services,
    {
        match parse_datagram(datagram) {
            None => false,
            Some(m) => {
                if !str_eq(second_token_of(m.start_line.as_str()), "200") {
                    return false;
                }
                if m.headers.len() <= 5 {
                    return false;
                }
                if !str_eq(m.headers[3].name.as_str(), "ST") {
                    return false;
                }
                if !str_eq(m.headers[4].name.as_str(), "USN") {
                    return false;
                }
                if !str_eq(m.headers[5].name.as_str(), "AL") {
                    return false;
                }
                let d = ServiceDescription {
                    usn_uri: m.headers[4].value.clone(),
                    service_type_uri: m.headers[3].value.clone(),
                    expiration: 100,
                    location: m.headers[5].value.clone(),
                };
                proof {
                    assert(d@ =~= response_description(datagram@));
                }
                upsert_service(&mut self.services, d);
                true
            },
        }
    }

    /// Retrieve a copy of the list of all services that answered so far.
    pub fn get_services(&self) -> (r: Vec<ServiceDescription>)
        ensures
            descs_view(r@) == self@.services,
    {
        let n: usize = self.services.len();
        let mut r: Vec<ServiceDescription> = Vec::new();
        let mut i: usize = 0;
        while i < n
            invariant
                n == self.services@.len(),
                i <= n,
                r@.len() == i,
                forall|j: int| 0 <= j < i ==> r@[j] == self.services@[j],
            decreases n - i,
        {
            r.push(self.services[i].clone());
            i = i + 1;
        }
        proof {
            assert(descs_view(r@) =~= descs_view(self.services@));
        }
        r
    }

    /// Changes the timeout used by subsequent discovery rounds.
    pub fn set_timeout(&mut self, timeout_ms: u64)
        ensures
            final(self)@.services == old(self)@.services,
            final(self)@.timeout_ms == timeout_ms,
    {
        self.timeout_ms = timeout_ms;
    }

    /// The configured timeout for one discovery round, in milliseconds.
    pub fn get_timeout(&self) -> (r: u64)
        ensures
            r == self@.timeout_ms,
    {
        self.timeout_ms
    }
}

} // verus!
