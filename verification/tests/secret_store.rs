use novacirrus::error::Error;
use novacirrus::secret_store::{
    clear, is_unsupported, legacy_read, legacy_write, read, read_failure, KeychainError,
    Read, Step, ERR_AUTH_FAILED, ERR_ITEM_NOT_FOUND, ERR_MISSING_ENTITLEMENT, ERR_NOT_AVAILABLE,
    ERR_PARAM, ERR_USER_CANCELED, SERVICE,
};

fn kerr(no_entry: bool, message: &str) -> KeychainError {
    KeychainError { no_entry, message: message.into() }
}

#[test]
fn keychain_statuses() {
    assert_eq!(SERVICE, "io.cirrus.novacirrus");
    assert!(is_unsupported(ERR_MISSING_ENTITLEMENT));
    assert!(is_unsupported(ERR_PARAM));
    assert!(is_unsupported(ERR_NOT_AVAILABLE));
    assert!(!is_unsupported(ERR_ITEM_NOT_FOUND));
    assert!(matches!(read_failure(ERR_ITEM_NOT_FOUND), Read::NotFound));
    assert!(matches!(read_failure(ERR_USER_CANCELED), Read::Denied));
    assert!(matches!(read_failure(ERR_AUTH_FAILED), Read::Denied));
    assert!(matches!(read_failure(ERR_MISSING_ENTITLEMENT), Read::Unsupported));
    assert!(matches!(read_failure(-1), Read::Unsupported));
}

#[test]
fn biometric_read_outcomes() {
    match read(Read::Found(b"{\"password\":\"pw\"}".to_vec())) {
        Step::Done(Ok(Some(s))) => assert_eq!(s, "{\"password\":\"pw\"}"),
        _ => panic!("a found secret is returned"),
    }
    match read(Read::Found(vec![b'a', 0xff, b'b'])) {
        Step::Done(Ok(Some(s))) => assert_eq!(s, "a\u{fffd}b"),
        _ => panic!("a found secret is returned"),
    }
    match read(Read::Denied) {
        Step::Done(Err(Error::Msg(m))) => {
            assert_eq!(m, "Biometric authentication was cancelled \u{2014} secret not unlocked")
        }
        _ => panic!("a refusal is reported"),
    }
    assert!(matches!(read(Read::NotFound), Step::Legacy));
    assert!(matches!(read(Read::Unsupported), Step::Legacy));
}

#[test]
fn writes_fall_back_to_the_legacy_keychain() {
    assert!(matches!(novacirrus::secret_store::write(true), Step::Done(Ok(()))));
    assert!(matches!(novacirrus::secret_store::write(false), Step::Legacy));
    assert!(legacy_write(Ok(())).is_ok());
    match legacy_write(Err(kerr(true, "no entry"))) {
        Err(Error::Keyring(m)) => assert_eq!(m, "no entry"),
        _ => panic!("a failed write is a keychain error"),
    }
}

#[test]
fn legacy_replies() {
    assert_eq!(legacy_read(Ok("s".into())).ok().unwrap(), Some("s".to_string()));
    assert_eq!(legacy_read(Err(kerr(true, "none"))).ok().unwrap(), None);
    match legacy_read(Err(kerr(false, "locked"))) {
        Err(Error::Keyring(m)) => assert_eq!(m, "locked"),
        _ => panic!("a keychain failure is reported"),
    }
    assert!(clear(Ok(())).is_ok());
    assert!(clear(Err(kerr(true, "none"))).is_ok());
    assert!(matches!(clear(Err(kerr(false, "denied"))), Err(Error::Keyring(_))));
}
