use kitsune_core::codec::{
    dec_agent_info_signed, dec_agents, dec_nil, dec_uint, enc_agent_info, enc_agent_info_signed,
    enc_agents, enc_arr_len, enc_bin, enc_nil, enc_random_query, enc_str, enc_uint,
};
use kitsune_core::error::KitsuneError;
use kitsune_core::types::{
    AgentInfo, AgentInfoSigned, KitsuneAgent, KitsuneSignature, KitsuneSpace, RandomQuery,
};

fn my_uint(v: u64) -> Vec<u8> {
    let mut out = Vec::new();
    enc_uint(&mut out, v);
    out
}

fn rmp_uint(v: u64) -> Vec<u8> {
    let mut out: Vec<u8> = Vec::new();
    rmp::encode::write_uint(&mut out, v).unwrap();
    out
}

#[test]
fn uint_encoding_matches_messagepack() {
    for v in [
        0u64,
        1,
        0x7f,
        0x80,
        0xff,
        0x100,
        1000,
        0xffff,
        0x10000,
        0xffff_ffff,
        0x1_0000_0000,
        u64::MAX,
    ] {
        assert_eq!(my_uint(v), rmp_uint(v), "value {v}");
    }
}

#[test]
fn uint_exact_bytes() {
    assert_eq!(my_uint(0), vec![0x00]);
    assert_eq!(my_uint(1000), vec![0xcd, 0x03, 0xe8]);
    assert_eq!(my_uint(0xff), vec![0xcc, 0xff]);
}

#[test]
fn uint_decode_inverts_encode() {
    for v in [0u64, 0x7f, 0x80, 0xff, 0x100, 0xffff, 0x10000, 0xffff_ffff, u64::MAX] {
        let mut bytes = my_uint(v);
        let n = bytes.len();
        bytes.push(0xaa); // trailing bytes are left alone
        let (decoded, next) = dec_uint(&bytes, 0).unwrap();
        assert_eq!(decoded, v);
        assert_eq!(next, n);
    }
}

#[test]
fn uint_decode_rejects_malformed_input() {
    let empty: Vec<u8> = Vec::new();
    assert_eq!(dec_uint(&empty, 0).unwrap_err(), KitsuneError::EncodingError);
    // A non-minimal form: 5 dressed up as uint8.
    assert_eq!(
        dec_uint(&vec![0xcc, 0x05], 0).unwrap_err(),
        KitsuneError::EncodingError
    );
    // Truncated payload.
    assert_eq!(dec_uint(&vec![0xcd, 0x03], 0).unwrap_err(), KitsuneError::EncodingError);
}

#[test]
fn nil_encoding_matches_messagepack() {
    let mut mine = Vec::new();
    enc_nil(&mut mine);
    let mut theirs: Vec<u8> = Vec::new();
    rmp::encode::write_nil(&mut theirs).unwrap();
    assert_eq!(mine, theirs);
    assert_eq!(dec_nil(&mine, 0).unwrap(), 1);
    assert_eq!(dec_nil(&vec![0x01], 0).unwrap_err(), KitsuneError::EncodingError);
}

#[test]
fn bin_encoding_matches_messagepack() {
    for len in [0usize, 1, 31, 32, 255, 256, 70_000] {
        let data: Vec<u8> = (0..len).map(|i| (i % 251) as u8).collect();
        let mut mine = Vec::new();
        enc_bin(&mut mine, &data);
        let mut theirs: Vec<u8> = Vec::new();
        rmp::encode::write_bin(&mut theirs, &data).unwrap();
        assert_eq!(mine, theirs, "length {len}");
    }
}

#[test]
fn str_encoding_matches_messagepack() {
    let long = "x".repeat(40);
    let longer = "y".repeat(300);
    for s in ["", "a", "wss://example.test/p2p", long.as_str(), longer.as_str()] {
        let mut mine = Vec::new();
        enc_str(&mut mine, &s.as_bytes().to_vec());
        let mut theirs: Vec<u8> = Vec::new();
        rmp::encode::write_str(&mut theirs, s).unwrap();
        assert_eq!(mine, theirs, "string length {}", s.len());
    }
}

#[test]
fn array_header_matches_messagepack() {
    for n in [0usize, 1, 15, 16, 0xffff, 0x10000] {
        let mut mine = Vec::new();
        enc_arr_len(&mut mine, n);
        let mut theirs: Vec<u8> = Vec::new();
        rmp::encode::write_array_len(&mut theirs, n as u32).unwrap();
        assert_eq!(mine, theirs, "count {n}");
    }
}

fn sample_record(tag: u8) -> AgentInfoSigned {
    AgentInfoSigned {
        agent: KitsuneAgent(vec![tag; 36]),
        signature: KitsuneSignature(vec![tag ^ 0xff; 64]),
        agent_info: vec![tag, 1, 2, 3],
    }
}

#[test]
fn agent_info_signed_round_trip() {
    let record = sample_record(7);
    let mut bytes = Vec::new();
    enc_agent_info_signed(&mut bytes, &record);
    let n = bytes.len();
    bytes.push(0x55);
    let (decoded, next) = dec_agent_info_signed(&bytes, 0).unwrap();
    assert_eq!(decoded, record);
    assert_eq!(next, n);
}

#[test]
fn agent_info_signed_matches_messagepack_layout() {
    // A three-element array of the three byte-string fields.
    let record = sample_record(9);
    let mut mine = Vec::new();
    enc_agent_info_signed(&mut mine, &record);
    let mut theirs: Vec<u8> = Vec::new();
    rmp::encode::write_array_len(&mut theirs, 3).unwrap();
    rmp::encode::write_bin(&mut theirs, &record.agent.0).unwrap();
    rmp::encode::write_bin(&mut theirs, &record.signature.0).unwrap();
    rmp::encode::write_bin(&mut theirs, &record.agent_info).unwrap();
    assert_eq!(mine, theirs);
}

#[test]
fn agent_list_round_trip() {
    let list = vec![sample_record(1), sample_record(2)];
    let mut bytes = Vec::new();
    enc_agents(&mut bytes, &list);
    let (decoded, next) = dec_agents(&bytes, 0).unwrap();
    assert_eq!(decoded, list);
    assert_eq!(next, bytes.len());
}

#[test]
fn empty_agent_list_round_trip() {
    let list: Vec<AgentInfoSigned> = Vec::new();
    let mut bytes = Vec::new();
    enc_agents(&mut bytes, &list);
    assert_eq!(bytes, vec![0x90]);
    let (decoded, _) = dec_agents(&bytes, 0).unwrap();
    assert!(decoded.is_empty());
}

#[test]
fn agent_list_decode_rejects_malformed_element() {
    // Array of one, but the element is not a record.
    let bytes = vec![0x91, 0xc0];
    assert_eq!(dec_agents(&bytes, 0).unwrap_err(), KitsuneError::EncodingError);
}

#[test]
fn random_query_matches_messagepack_layout() {
    let query = RandomQuery { space: KitsuneSpace(vec![3; 36]), limit: 256 };
    let mut mine = Vec::new();
    enc_random_query(&mut mine, &query);
    let mut theirs: Vec<u8> = Vec::new();
    rmp::encode::write_array_len(&mut theirs, 2).unwrap();
    rmp::encode::write_bin(&mut theirs, &query.space.0).unwrap();
    rmp::encode::write_uint(&mut theirs, 256).unwrap();
    assert_eq!(mine, theirs);
}

#[test]
fn agent_info_matches_messagepack_layout() {
    let info = AgentInfo {
        space: KitsuneSpace(vec![3; 36]),
        agent: KitsuneAgent(vec![4; 36]),
        urls: vec![b"wss://a.example".to_vec(), b"wss://b.example".to_vec()],
        signed_at_ms: 1_600_000_000_000,
        expires_after_ms: 60 * 60 * 1000,
    };
    let mut mine = Vec::new();
    enc_agent_info(&mut mine, &info);
    let mut theirs: Vec<u8> = Vec::new();
    rmp::encode::write_array_len(&mut theirs, 5).unwrap();
    rmp::encode::write_bin(&mut theirs, &info.space.0).unwrap();
    rmp::encode::write_bin(&mut theirs, &info.agent.0).unwrap();
    rmp::encode::write_array_len(&mut theirs, 2).unwrap();
    rmp::encode::write_str(&mut theirs, "wss://a.example").unwrap();
    rmp::encode::write_str(&mut theirs, "wss://b.example").unwrap();
    rmp::encode::write_uint(&mut theirs, info.signed_at_ms).unwrap();
    rmp::encode::write_uint(&mut theirs, info.expires_after_ms).unwrap();
    assert_eq!(mine, theirs);
}
