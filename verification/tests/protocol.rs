use ssdp::client::Client;
use ssdp::http_helper::generate_ssdp_alive;
use ssdp::http_helper::generate_ssdp_discover;
use ssdp::http_helper::generate_ssdp_discover_answer;
use ssdp::service::Service;
use ssdp::service::ServiceDescription;
use ssdp::IpAddress;
use ssdp::MulticastAddr;

fn sample_description() -> ServiceDescription {
    ServiceDescription {
        usn_uri: "uuid:some-service-uuid".to_string(),
        service_type_uri: "some:special:service".to_string(),
        expiration: 100,
        location: "https://foo/bar".to_string(),
    }
}

#[test]
fn test_client_and_service_engine() {
    let service = Service::new(sample_description());

    let search = generate_ssdp_discover(
        "uuid:some-client-uuid".to_string(),
        "some:special:service".to_string(),
        &MulticastAddr::Loopback,
    );

    let answer = service.handle_search(&search);
    assert!(answer.is_some());

    let mut client = Client::default();
    assert!(client.process_response(&answer.unwrap()));

    let expected = vec![ServiceDescription {
        usn_uri: "uuid:some-service-uuid".to_string(),
        service_type_uri: "some:special:service".to_string(),
        expiration: 100,
        location: "<some:special:service><https://foo/bar>".to_string(),
    }];
    assert_eq!(expected, client.get_services());
}

#[test]
fn test_service_accepts_ssdp_all() {
    let service = Service::new(sample_description());
    let search = generate_ssdp_discover(
        "uuid:some-client-uuid".to_string(),
        "ssdp:all".to_string(),
        &MulticastAddr::Loopback,
    );
    assert!(service.handle_search(&search).is_some());
}

#[test]
fn test_service_ignores_foreign_target() {
    let service = Service::new(sample_description());
    let search = generate_ssdp_discover(
        "uuid:some-client-uuid".to_string(),
        "other:service".to_string(),
        &MulticastAddr::Loopback,
    );
    assert!(service.handle_search(&search).is_none());
}

#[test]
fn test_service_rejects_unquoted_man() {
    let service = Service::new(sample_description());
    let search = "M-SEARCH * HTTP/1.1\r\nS: uuid:x\r\nHost: 127.0.0.1:1900\r\nMAN: ssdp:discover\r\nST: ssdp:all\r\nMX: 1\r\n\r\n";
    assert!(service.handle_search(search).is_none());
}

#[test]
fn test_service_rejects_notify() {
    let service = Service::new(sample_description());
    let alive = generate_ssdp_alive(&sample_description(), &MulticastAddr::Loopback);
    assert!(service.handle_search(&alive).is_none());
}

#[test]
fn test_service_rejects_truncated_search() {
    let service = Service::new(sample_description());
    assert!(service.handle_search("M-SEARCH * HTTP/1.1\r\nS: uuid:x").is_none());
    assert!(service.handle_search("").is_none());
}

#[test]
fn test_registry_replaces_same_usn() {
    let mut client = Client::default();

    let first = ServiceDescription {
        usn_uri: "uuid:dup".to_string(),
        service_type_uri: "type:one".to_string(),
        expiration: 1,
        location: "https://one".to_string(),
    };
    let second = ServiceDescription {
        usn_uri: "uuid:dup".to_string(),
        service_type_uri: "type:two".to_string(),
        expiration: 2,
        location: "https://two".to_string(),
    };

    assert!(client.process_response(&generate_ssdp_discover_answer(&first, "uuid:c".to_string())));
    assert!(client.process_response(&generate_ssdp_discover_answer(&second, "uuid:c".to_string())));

    let services = client.get_services();
    assert_eq!(1, services.len());
    assert_eq!("uuid:dup", services[0].usn_uri);
    assert_eq!("type:two", services[0].service_type_uri);
    assert_eq!("<type:two><https://two>", services[0].location);
}

#[test]
fn test_registry_keeps_distinct_usn() {
    let mut client = Client::default();

    let first = ServiceDescription {
        usn_uri: "uuid:one".to_string(),
        service_type_uri: "type:one".to_string(),
        expiration: 1,
        location: "https://one".to_string(),
    };
    let second = ServiceDescription {
        usn_uri: "uuid:two".to_string(),
        service_type_uri: "type:two".to_string(),
        expiration: 2,
        location: "https://two".to_string(),
    };

    assert!(client.process_response(&generate_ssdp_discover_answer(&first, "uuid:c".to_string())));
    assert!(client.process_response(&generate_ssdp_discover_answer(&second, "uuid:c".to_string())));

    let services = client.get_services();
    assert_eq!(2, services.len());
    assert_eq!("uuid:one", services[0].usn_uri);
    assert_eq!("uuid:two", services[1].usn_uri);
}

#[test]
fn test_client_ignores_malformed() {
    let mut client = Client::default();
    assert!(!client.process_response("no line terminator at all"));
    assert!(!client.process_response(""));
    assert!(!client.process_response("HTTP/1.1 200 OK\r\nbroken header line\r\n\r\n"));
    assert!(client.get_services().is_empty());
}

#[test]
fn test_client_ignores_non_200() {
    let mut client = Client::default();
    let message = "HTTP/1.1 404 Not Found\r\nS: uuid:c\r\nExt: \r\nCache-Control: x\r\nST: a\r\nUSN: b\r\nAL: c\r\n\r\n";
    assert!(!client.process_response(message));
    assert!(client.get_services().is_empty());
}

#[test]
fn test_client_ignores_misordered_headers() {
    let mut client = Client::default();
    let message = "HTTP/1.1 200 OK\r\nS: uuid:c\r\nExt: \r\nCache-Control: x\r\nUSN: b\r\nST: a\r\nAL: c\r\n\r\n";
    assert!(!client.process_response(message));
    assert!(client.get_services().is_empty());
}

#[test]
fn test_timeout_configuration() {
    let mut client = Client::default();
    assert_eq!(5000, client.get_timeout());
    client.set_timeout(500);
    assert_eq!(500, client.get_timeout());
    assert!(client.get_services().is_empty());
}

#[test]
fn test_multicast_addr_families() {
    assert!(MulticastAddr::V4.is_v4());
    assert!(!MulticastAddr::V6LinkLocal.is_v4());
    assert!(!MulticastAddr::V6SiteLocal.is_v4());
    assert!(MulticastAddr::Loopback.is_v4());

    let v4 = MulticastAddr::V4.get_v4().unwrap();
    assert_eq!((239, 255, 255, 250), (v4.octet0, v4.octet1, v4.octet2, v4.octet3));
    assert!(MulticastAddr::V4.get_v6().is_none());

    let ll = MulticastAddr::V6LinkLocal.get_v6().unwrap();
    assert_eq!(0xFF02, ll.seg0);
    assert_eq!(0xC, ll.seg7);
    assert!(MulticastAddr::V6LinkLocal.get_v4().is_none());

    let sl = MulticastAddr::V6SiteLocal.get_v6().unwrap();
    assert_eq!(0xFF05, sl.seg0);
    assert_eq!(0xC, sl.seg7);
    assert!(MulticastAddr::V6SiteLocal.get_v4().is_none());

    let lo = MulticastAddr::Loopback.get_v4().unwrap();
    assert_eq!((127, 0, 0, 1), (lo.octet0, lo.octet1, lo.octet2, lo.octet3));
    assert!(MulticastAddr::Loopback.get_v6().is_none());

    match MulticastAddr::V4.get_ip() {
        IpAddress::V4(a) => assert_eq!(239, a.octet0),
        IpAddress::V6(_) => panic!("expected an IPv4 address"),
    }
    match MulticastAddr::V6SiteLocal.get_ip() {
        IpAddress::V4(_) => panic!("expected an IPv6 address"),
        IpAddress::V6(a) => assert_eq!(0xFF05, a.seg0),
    }

    assert_eq!("239.255.255.250", MulticastAddr::V4.ip_text());
    assert_eq!("ff02::c", MulticastAddr::V6LinkLocal.ip_text());
    assert_eq!("ff05::c", MulticastAddr::V6SiteLocal.ip_text());
    assert_eq!("127.0.0.1", MulticastAddr::Loopback.ip_text());
}

#[test]
fn test_expiration_rendering() {
    let zero = ServiceDescription {
        usn_uri: "uuid:z".to_string(),
        service_type_uri: "t:z".to_string(),
        expiration: 0,
        location: "https://z".to_string(),
    };
    let year = ServiceDescription {
        usn_uri: "uuid:y".to_string(),
        service_type_uri: "t:y".to_string(),
        expiration: 31536000,
        location: "https://y".to_string(),
    };

    let answer_zero = generate_ssdp_discover_answer(&zero, "uuid:c".to_string());
    assert!(answer_zero.contains("Cache-Control: no-cache=\"Ext\", max-age=0\r\n"));

    let mut headers = [httparse::EMPTY_HEADER; 64];
    let mut resp = httparse::Response::new(&mut headers);
    let answer_year = generate_ssdp_discover_answer(&year, "uuid:c".to_string());
    resp.parse(answer_year.as_bytes()).unwrap();
    assert_eq!(
        "no-cache=\"Ext\", max-age=31536000",
        String::from_utf8_lossy(resp.headers.get(2).unwrap().value)
    );
}

#[test]
fn test_answer_addressed_to_requester() {
    let service = Service::new(sample_description());
    let search = generate_ssdp_discover(
        "uuid:the-requester".to_string(),
        "ssdp:all".to_string(),
        &MulticastAddr::V4,
    );
    let answer = service.handle_search(&search).unwrap();
    assert!(answer.starts_with("HTTP/1.1 200 OK\r\nS: uuid:the-requester\r\n"));
}
