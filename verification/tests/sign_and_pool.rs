use signatrust::entity::{KeyState, Visibility};
use signatrust::errors::Error;
use signatrust::pool::validate_pool_config;
use signatrust::sign::{FileType, KeyType, SignType};

#[test]
fn sign_type_round_trip() {
    assert_eq!(SignType::CMS.fmt(), "cms".to_owned());
    assert_eq!(SignType::Authenticode.fmt(), "authenticode".to_owned());
    assert_eq!(SignType::from_str("cms").unwrap(), SignType::CMS);
    assert_eq!(
        SignType::from_str("authenticode").unwrap(),
        SignType::Authenticode
    );
    assert!(matches!(
        SignType::from_str("pkcs7"),
        Err(Error::ParameterError(_))
    ));
}

#[test]
fn file_type_strings() {
    assert_eq!(FileType::RPM.fmt(), "rpm".to_owned());
    assert_eq!(FileType::CheckSum.fmt(), "checksum".to_owned());
    assert_eq!(FileType::KernelModule.fmt(), "ko".to_owned());
    assert_eq!(FileType::EfiImage.fmt(), "efi".to_owned());
}

#[test]
fn key_type_strings() {
    assert_eq!(KeyType::PGP.fmt(), "pgp".to_owned());
    assert_eq!(KeyType::X509.fmt(), "x509".to_owned());
}

#[test]
fn state_and_visibility_strings() {
    assert_eq!(KeyState::Enabled.fmt(), "enabled".to_owned());
    assert_eq!(KeyState::Disabled.fmt(), "disabled".to_owned());
    assert_eq!(KeyState::PendingDelete.fmt(), "pending_delete".to_owned());
    assert_eq!(KeyState::Deleted.fmt(), "deleted".to_owned());
    assert_eq!(Visibility::Public.fmt(), "public".to_owned());
    assert_eq!(Visibility::Private.fmt(), "private".to_owned());
}

#[test]
fn pool_config_rejects_zero_connections() {
    assert!(matches!(
        validate_pool_config(0, "mysql://localhost/sign".to_owned()),
        Err(Error::ConfigError(_))
    ));
}

#[test]
fn pool_config_rejects_empty_url() {
    assert!(matches!(
        validate_pool_config(8, String::new()),
        Err(Error::ConfigError(_))
    ));
}

#[test]
fn pool_config_accepts_valid_input() {
    let c = validate_pool_config(8, "mysql://localhost/sign".to_owned()).unwrap();
    assert_eq!(c.max_connections, 8);
    assert_eq!(c.connection_url, "mysql://localhost/sign".to_owned());
}
