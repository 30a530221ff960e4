//! Protocol-level laws: what happens when one side's built message reaches
//! the other side's decision logic.

use vstd::prelude::*;

use crate::client::lemma_upsert_into_empty;
use crate::client::response_accepts;
use crate::client::response_description;
use crate::client::upsert;
use crate::http_helper::al_value;
use crate::http_helper::answer_model;
use crate::http_helper::lemma_answer_round_trip;
use crate::http_helper::lemma_search_round_trip;
use crate::http_helper::search_model;
use crate::http_helper::wire_safe;
use crate::message::first_token;
use crate::message::free_of;
use crate::message::lemma_find_char_unique;
use crate::message::render_message;
use crate::message::second_token;
use crate::service::search_accepts;
use crate::service::search_requester;
use crate::service::DescriptionModel;
use crate::MulticastAddr;

verus! {

proof fn lemma_method_token()
    ensures
        first_token("M-SEARCH * HTTP/1.1"@) == "M-SEARCH"@,
{
    reveal_strlit("M-SEARCH * HTTP/1.1");
    reveal_strlit("M-SEARCH");
    let s = "M-SEARCH * HTTP/1.1"@;
    lemma_find_char_unique(s, ' ', 8);
    assert(s.take(8) =~= "M-SEARCH"@);
}

proof fn lemma_status_token()
    ensures
        second_token("HTTP/1.1 200 OK"@) == "200"@,
{
    reveal_strlit("HTTP/1.1 200 OK");
    reveal_strlit("200");
    let s = "HTTP/1.1 200 OK"@;
    lemma_find_char_unique(s, ' ', 8);
    let rest = s.skip(9);
    assert(rest[3] == ' ');
    assert(forall|j: int| 0 <= j < 3 ==> rest[j] != ' ');
    lemma_find_char_unique(rest, ' ', 3);
    assert(rest.take(3) =~= "200"@);
}

/// A service accepts every built search whose target is `ssdp:all` or its
/// own search target, and reads back the requester identifier unchanged.
pub proof fn lemma_matching_search_accepted(
    s: Seq<char>,
    st: Seq<char>,
    a: MulticastAddr,
    own_st: Seq<char>,
)
    requires
        free_of(s, '\r'),
        free_of(st, '\r'),
        st == "ssdp:all"@ || st == own_st,
    ensures
        search_accepts(render_message(search_model(s, st, a)), own_st),
        search_requester(render_message(search_model(s, st, a))) == s,
{
    lemma_search_round_trip(s, st, a);
    lemma_method_token();
}

/// A service never accepts a built search whose target is neither
/// `ssdp:all` nor its own search target.
pub proof fn lemma_foreign_search_rejected(
    s: Seq<char>,
    st: Seq<char>,
    a: MulticastAddr,
    own_st: Seq<char>,
)
    requires
        free_of(s, '\r'),
        free_of(st, '\r'),
        st != "ssdp:all"@,
        st != own_st,
    ensures
        !search_accepts(render_message(search_model(s, st, a)), own_st),
{
    lemma_search_round_trip(s, st, a);
    let m = search_model(s, st, a);
    assert(crate::message::parse_message(render_message(m)) == Some(m));
    assert(m.headers[3].value == st);
    assert(!(m.headers[3].value == "ssdp:all"@ || m.headers[3].value == own_st));
}

/// A client accepts every built search answer and distills from it exactly
/// the answering service's identity and search target, the placeholder
/// expiration, and the raw `AL` value as the location.
pub proof fn lemma_answer_recorded(d: DescriptionModel, s: Seq<char>)
    requires
        wire_safe(d),
        free_of(s, '\r'),
    ensures
        response_accepts(render_message(answer_model(d, s))),
        response_description(render_message(answer_model(d, s))) == (DescriptionModel {
            usn_uri: d.usn_uri,
            service_type_uri: d.service_type_uri,
            expiration: 100,
            location: al_value(d.service_type_uri, d.location),
        }),
{
    lemma_answer_round_trip(d, s);
    lemma_status_token();
}

/// One full discovery exchange: a service accepts a matching built search,
/// the client accepts the answer built for the requester, and an empty
/// registry afterwards holds exactly one entry, carrying the service's
/// identity and search target, the placeholder expiration, and the raw `AL`
/// value as the location.
pub proof fn lemma_discovery_round_trip(
    d: DescriptionModel,
    s: Seq<char>,
    st: Seq<char>,
    a: MulticastAddr,
)
    requires
        wire_safe(d),
        free_of(s, '\r'),
        free_of(st, '\r'),
        st == "ssdp:all"@ || st == d.service_type_uri,
    ensures
        ({
            let search = render_message(search_model(s, st, a));
            let answer = render_message(answer_model(d, search_requester(search)));
            &&& search_accepts(search, d.service_type_uri)
            &&& search_requester(search) == s
            &&& response_accepts(answer)
            &&& upsert(Seq::<DescriptionModel>::empty(), response_description(answer)) =~= seq![
                (DescriptionModel {
                    usn_uri: d.usn_uri,
                    service_type_uri: d.service_type_uri,
                    expiration: 100,
                    location: al_value(d.service_type_uri, d.location),
                }),
            ]
        }),
{
    lemma_matching_search_accepted(s, st, a, d.service_type_uri);
    lemma_answer_recorded(d, s);
    let search = render_message(search_model(s, st, a));
    let answer = render_message(answer_model(d, search_requester(search)));
    lemma_upsert_into_empty(response_description(answer));
}

} // verus!
