use dtvault::program_id::{chinachu_beta_channel_id_to_nid, ProgramID, NETWORK_ID_BS, NETWORK_ID_UNKNOWN};

#[test]
fn test_parse_chinachu_beta_gr_program_id() {
    let id1: ProgramID = "gr1064-5xo".parse().unwrap();
    assert_eq!(NETWORK_ID_UNKNOWN, id1.nid);
    assert_eq!(1064, id1.sid);
    assert_eq!(7692, id1.eid);

    let id1: ProgramID = "gr1064-_7ih".parse().unwrap();
    assert_eq!(NETWORK_ID_UNKNOWN, id1.nid);
    assert_eq!(1064, id1.sid);
    assert_eq!(9737, id1.eid);
}

#[test]
fn test_parse_chinachu_beta_bs_program_id() {
    let id1: ProgramID = "bs211-14ka".parse().unwrap();
    assert_eq!(NETWORK_ID_BS, id1.nid);
    assert_eq!(211, id1.sid);
    assert_eq!(52570, id1.eid);

    let id1: ProgramID = "bs211-_14ka".parse().unwrap();
    assert_eq!(NETWORK_ID_BS, id1.nid);
    assert_eq!(211, id1.sid);
    assert_eq!(52570, id1.eid);
}

#[test]
fn test_parse_chinachu_gamma_gr_program_id() {
    let id1: ProgramID = "3826py3te8".parse().unwrap();
    assert_eq!(32742, id1.nid);
    assert_eq!(1072, id1.sid);
    assert_eq!(26512, id1.eid);
}

#[test]
fn test_parse_chinachu_gamma_bs_program_id() {
    let id1: ProgramID = "idvjnsb".parse().unwrap();
    assert_eq!(NETWORK_ID_BS, id1.nid);
    assert_eq!(211, id1.sid);
    assert_eq!(27723, id1.eid);
}

#[test]
fn test_parse_invalid_id() {
    assert!("hoge65535-xyz".parse::<ProgramID>().is_err());
    assert!("AKAZA_AKARI".parse::<ProgramID>().is_err());
}

#[test]
fn program_id_out_of_range_numbers() {
    assert!("gr65536-1".parse::<ProgramID>().is_err());
    assert!("gr1-1ekg".parse::<ProgramID>().is_err());
    let gamma_with_time: ProgramID = "idvjnsb-1600000000".parse().unwrap();
    assert_eq!(211, gamma_with_time.sid);
}

#[test]
fn beta_network_by_channel_type() {
    assert_eq!(NETWORK_ID_BS, chinachu_beta_channel_id_to_nid("bs", 211));
    assert_eq!(NETWORK_ID_UNKNOWN, chinachu_beta_channel_id_to_nid("gr", 1064));
}
