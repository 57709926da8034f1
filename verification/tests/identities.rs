use sekey::keys::{
    copy_bytes, curve_identifier, identities_from_keys, HardwareKey, Identity,
    PublicKeyDescriptor,
};

fn key(label: &str, point: &[u8]) -> HardwareKey {
    HardwareKey { label: label.to_string(), key: point.to_vec() }
}

#[test]
fn the_curve_is_nistp256() {
    assert_eq!(curve_identifier(), "nistp256");
}

#[test]
fn copy_bytes_copies() {
    assert_eq!(copy_bytes(&[]), Vec::<u8>::new());
    assert_eq!(copy_bytes(&[1, 2, 3]), vec![1, 2, 3]);
}

#[test]
fn no_keys_give_no_identities() {
    assert_eq!(identities_from_keys(&[]), Vec::<Identity>::new());
}

#[test]
fn identities_follow_the_keys_in_order() {
    let keys = vec![key("work", &[4, 1, 2]), key("home", &[4, 9]), key("", &[])];
    let identities = identities_from_keys(&keys);
    assert_eq!(identities.len(), 3);
    for (identity, key) in identities.iter().zip(keys.iter()) {
        assert_eq!(identity.comment, key.label);
        assert_eq!(
            identity.public_key,
            PublicKeyDescriptor::EcDsa {
                curve_identifier: "nistp256".to_string(),
                point: key.key.clone()
            }
        );
    }
    assert_eq!(identities[0].comment, "work");
    assert_eq!(identities[1].comment, "home");
}
