use ttl_backend::headers::{extract_client_ip, header_text, ForwardingHeaders};

fn headers(forwarded_for: Option<&[u8]>, real_ip: Option<&[u8]>) -> ForwardingHeaders {
    ForwardingHeaders {
        forwarded_for: forwarded_for.map(|v| v.to_vec()),
        real_ip: real_ip.map(|v| v.to_vec()),
    }
}

#[test]
fn first_forwarded_hop_wins() {
    let h = headers(Some(b"203.0.113.195, 70.41.3.18, 150.172.238.178"), Some(b"9.9.9.9"));
    assert_eq!(extract_client_ip(&h), "203.0.113.195");
}

#[test]
fn forwarded_hop_is_trimmed_of_spaces_and_tabs() {
    let h = headers(Some(b" \t 10.0.0.1 \t,10.0.0.2"), None);
    assert_eq!(extract_client_ip(&h), "10.0.0.1");
    let h = headers(Some(b"  2001:db8::1  "), None);
    assert_eq!(extract_client_ip(&h), "2001:db8::1");
}

#[test]
fn empty_first_hop_gives_empty_address() {
    assert_eq!(extract_client_ip(&headers(Some(b""), Some(b"1.1.1.1"))), "");
    assert_eq!(extract_client_ip(&headers(Some(b" , 1.2.3.4"), None)), "");
    assert_eq!(extract_client_ip(&headers(Some(b",1.2.3.4"), None)), "");
}

#[test]
fn unreadable_forwarded_header_falls_back_to_real_ip() {
    let h = headers(Some(b"1.2.3.4\n"), Some(b"5.6.7.8"));
    assert_eq!(extract_client_ip(&h), "5.6.7.8");
    let h = headers(Some(&[0x31, 0x80]), Some(b"5.6.7.8"));
    assert_eq!(extract_client_ip(&h), "5.6.7.8");
}

#[test]
fn real_ip_is_taken_as_it_stands() {
    let h = headers(None, Some(b" 198.51.100.7 "));
    assert_eq!(extract_client_ip(&h), " 198.51.100.7 ");
}

#[test]
fn no_readable_header_gives_unknown() {
    assert_eq!(extract_client_ip(&headers(None, None)), "unknown");
    assert_eq!(extract_client_ip(&headers(Some(&[0x7f]), Some(&[0x00]))), "unknown");
}

#[test]
fn header_text_accepts_visible_ascii_and_tab_only() {
    assert_eq!(header_text(b"user-42"), Some("user-42".to_string()));
    assert_eq!(header_text(b"a\tb ~"), Some("a\tb ~".to_string()));
    assert_eq!(header_text(b""), Some(String::new()));
    assert_eq!(header_text(b"a\x7f"), None);
    assert_eq!(header_text(b"\r"), None);
    assert_eq!(header_text("é".as_bytes()), None);
}
