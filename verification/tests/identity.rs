//! Plugin identity parsing, by the addressing grammar, and equality.

use polywrap_client_hmny::PluginId;

#[test]
fn parse_plain_identity() {
    let id = PluginId::parse("hmny-wrap/test-wrap".as_bytes()).unwrap();
    assert_eq!(id.authority, "hmny-wrap".as_bytes().to_vec());
    assert_eq!(id.path, "test-wrap".as_bytes().to_vec());
}

#[test]
fn parse_strips_the_scheme_prefix() {
    let id = PluginId::parse("wrap://hmny-wrap/test-wrap".as_bytes()).unwrap();
    assert_eq!(id.authority, "hmny-wrap".as_bytes().to_vec());
    assert_eq!(id.path, "test-wrap".as_bytes().to_vec());
    let plain = PluginId::parse("hmny-wrap/test-wrap".as_bytes()).unwrap();
    assert!(id == plain);
}

#[test]
fn parse_strips_leading_slashes() {
    let id = PluginId::parse("////wrap://ipfs/QmHASH".as_bytes()).unwrap();
    assert_eq!(id.authority, "ipfs".as_bytes().to_vec());
    assert_eq!(id.path, "QmHASH".as_bytes().to_vec());
}

#[test]
fn parse_keeps_later_slashes_in_the_path() {
    let id = PluginId::parse("wrapscan.io/user/cool-wrap".as_bytes()).unwrap();
    assert_eq!(id.authority, "wrapscan.io".as_bytes().to_vec());
    assert_eq!(id.path, "user/cool-wrap".as_bytes().to_vec());
}

#[test]
fn parse_accepts_an_empty_path() {
    let id = PluginId::parse("trailing/".as_bytes()).unwrap();
    assert_eq!(id.authority, "trailing".as_bytes().to_vec());
    assert_eq!(id.path, Vec::<u8>::new());
}

#[test]
fn parse_stops_the_path_at_a_newline() {
    let id = PluginId::parse("ipfs/QmHASH\nrest".as_bytes()).unwrap();
    assert_eq!(id.authority, "ipfs".as_bytes().to_vec());
    assert_eq!(id.path, "QmHASH".as_bytes().to_vec());
}

#[test]
fn parse_rejects_a_mid_string_scheme() {
    assert!(PluginId::parse("ipfs/QmHASHwrap://".as_bytes()).is_none());
    assert!(PluginId::parse("wraps://ipfs/QmHASH".as_bytes()).is_none());
}

#[test]
fn parse_rejects_a_bad_authority() {
    // Too short, wrong first character, or an illegal character.
    assert!(PluginId::parse("a/b".as_bytes()).is_none());
    assert!(PluginId::parse("9ipfs/QmHASH".as_bytes()).is_none());
    assert!(PluginId::parse("IPFS/QmHASH".as_bytes()).is_none());
    assert!(PluginId::parse("ip fs/QmHASH".as_bytes()).is_none());
}

#[test]
fn parse_rejects_shapeless_text() {
    assert!(PluginId::parse("no-slash".as_bytes()).is_none());
    assert!(PluginId::parse("/leading".as_bytes()).is_none());
    assert!(PluginId::parse("".as_bytes()).is_none());
    assert!(PluginId::parse("wrap://".as_bytes()).is_none());
}

#[test]
fn identity_equality_is_by_content() {
    let a = PluginId::parse("aa/bb".as_bytes()).unwrap();
    let b = PluginId::parse("aa/bb".as_bytes()).unwrap();
    let c = PluginId::parse("aa/cc".as_bytes()).unwrap();
    assert!(a == b);
    assert!(a != c);
    let d = a.duplicate();
    assert!(d == a);
}
