use obol_dvt_blueprint::{decode, encode, Msg};

fn all_messages() -> Vec<Msg> {
    vec![
        Msg::HereIAm,
        Msg::RequestEnr,
        Msg::SendEnr("enr:-abc".to_string()),
        Msg::SendEnr(String::new()),
        Msg::SendEnr("énr:-ключ-🔑".to_string()),
        Msg::EnrReceived,
        Msg::DkgConfigGenerated("{\"name\":\"Example\"}".to_string()),
        Msg::DkgConfigGenerated(String::new()),
        Msg::DkgConfigGenerated("配置 ✓".to_string()),
        Msg::DkgConfigReceived,
        Msg::ExchangeEnd,
    ]
}

#[test]
fn every_variant_round_trips() {
    for m in all_messages() {
        let bytes = encode(&m);
        assert_eq!(decode(&bytes), Some(m));
    }
}

#[test]
fn encoding_is_tag_then_text() {
    assert_eq!(encode(&Msg::HereIAm), vec![0u8]);
    assert_eq!(encode(&Msg::ExchangeEnd), vec![6u8]);
    assert_eq!(encode(&Msg::SendEnr("ab".to_string())), vec![2u8, b'a', b'b']);
    assert_eq!(encode(&Msg::DkgConfigGenerated("é".to_string())), vec![4u8, 0xC3, 0xA9]);
    assert_eq!(encode(&Msg::SendEnr(String::new())), vec![2u8]);
}

#[test]
fn malformed_payloads_decode_to_none() {
    assert_eq!(decode(&vec![]), None);
    assert_eq!(decode(&vec![7u8]), None);
    assert_eq!(decode(&vec![0u8, 0u8]), None);
    assert_eq!(decode(&vec![2u8, 0xFF, 0xFE]), None);
    assert_eq!(decode(&vec![4u8, 0xC3]), None);
}
