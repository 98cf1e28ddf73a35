use ruma_identifiers::{
    HashAlgorithm, KeyAgreementProtocol, LoginType, Medium, MessageAuthenticationCode,
    ShortAuthenticationString, VerificationMethod,
};

#[test]
fn key_agreement_names() {
    assert_eq!(KeyAgreementProtocol::Curve25519HkdfSha256.as_str(), "curve25519-hkdf-sha256");
    assert_eq!(
        KeyAgreementProtocol::from_name("curve25519-hkdf-sha256"),
        Some(KeyAgreementProtocol::Curve25519HkdfSha256)
    );
    assert_eq!(KeyAgreementProtocol::Curve25519.as_str(), "curve25519");
    assert_eq!(KeyAgreementProtocol::from_name("curve25519"), Some(KeyAgreementProtocol::Curve25519));
    assert_eq!(KeyAgreementProtocol::from_name("Curve25519"), None);
}

#[test]
fn verification_names() {
    assert_eq!(HashAlgorithm::Sha256.as_str(), "sha256");
    assert_eq!(HashAlgorithm::from_name("sha256"), Some(HashAlgorithm::Sha256));
    assert_eq!(MessageAuthenticationCode::HkdfHmacSha256.as_str(), "hkdf-hmac-sha256");
    assert_eq!(
        MessageAuthenticationCode::from_name("hkdf-hmac-sha256"),
        Some(MessageAuthenticationCode::HkdfHmacSha256)
    );
    assert_eq!(ShortAuthenticationString::Decimal.as_str(), "decimal");
    assert_eq!(ShortAuthenticationString::Emoji.as_str(), "emoji");
    assert_eq!(ShortAuthenticationString::from_name("emoji"), Some(ShortAuthenticationString::Emoji));
    assert_eq!(ShortAuthenticationString::from_name(""), None);
    assert_eq!(VerificationMethod::MSasV1.as_str(), "m.sas.v1");
    assert_eq!(VerificationMethod::from_name("m.sas.v1"), Some(VerificationMethod::MSasV1));
}

#[test]
fn login_names() {
    assert_eq!(Medium::Email.as_str(), "email");
    assert_eq!(Medium::from_name("email"), Some(Medium::Email));
    assert_eq!(LoginType::Password.as_str(), "m.login.password");
    assert_eq!(LoginType::from_name("m.login.password"), Some(LoginType::Password));
    assert_eq!(LoginType::from_name("m.login.token"), None);
}
