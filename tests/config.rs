use microloan::config::{Config, Error, ProtocolInfo};
use microloan::ids::Address;

fn parse_address(hex: &str) -> Address {
    let mut bytes = [0u8; 20];
    for (i, b) in bytes.iter_mut().enumerate() {
        *b = u8::from_str_radix(&hex[2 * i..2 * i + 2], 16).expect("valid H160");
    }
    Address::from_bytes(bytes)
}

fn default_admin() -> Address {
    parse_address("d43593c715fdd31c61141abd04a99fd6822c8558")
}

#[test]
fn saves_data_correctly() {
    let admin = default_admin();
    let config = Config::new(admin, 3, 150, 4, 2, 525960);
    assert_eq!(config.get_protocol_info(), (3, 150, 4, 2, 525960, admin));
}

#[test]
fn changes_data_correctly() {
    let admin = default_admin();
    let mut config = Config::new(admin, 3, 150, 4, 2, 525960);
    config.set_overfunding_factor(admin, 200).unwrap();
    assert_eq!(config.get_protocol_info(), (3, 200, 4, 2, 525960, admin));
}

#[test]
fn non_admin_cant_change_data() {
    let admin = default_admin();
    let non_admin = parse_address("1111111111111111111111111111111111111111");
    let mut config = Config::new(admin, 3, 150, 4, 2, 525960);
    let result = config.set_overfunding_factor(non_admin, 200);
    assert_eq!(result, Err(Error::NotAdmin));
    assert_eq!(config.get_protocol_info(), (3, 150, 4, 2, 525960, admin));
}

#[test]
fn admin_sets_every_parameter() {
    let admin = default_admin();
    let mut config = Config::new(admin, 3, 150, 4, 2, 525960);
    config.set_min_lenders(admin, 5).unwrap();
    config.set_base_interest_rate(admin, 7).unwrap();
    config.set_late_penalty_rate(admin, 9).unwrap();
    config.set_max_loan_duration(admin, 100).unwrap();
    assert_eq!(config.ensure_admin(admin), Ok(()));
    assert_eq!(
        config.terms(),
        ProtocolInfo {
            min_lenders: 5,
            overfunding_factor: 150,
            base_interest_rate: 7,
            late_penalty_rate: 9,
            max_loan_duration: 100,
        }
    );
}
