use gpgme_bindings::key::{
    encode_signature, encode_user_id, key_can_authenticate, key_can_certify, key_can_encrypt,
    key_can_sign, key_fingerprint, key_has_secret, key_id, key_is_disabled, key_is_expired,
    key_is_invalid, key_is_qualified, key_is_revoked, key_user_ids, KeyInfo, KeyOrigin,
    SignatureInfo, UserId, Validity,
};
use gpgme_bindings::term::Term;

fn atom(name: &str) -> Term {
    Term::Atom(name.to_string())
}

fn text(contents: &str) -> Term {
    Term::Text(contents.to_string())
}

fn sample_signature() -> SignatureInfo {
    SignatureInfo {
        signer_key_id: Some("0123456789ABCDEF".to_string()),
        signer_user_id: Some("Alice <alice@example.org>".to_string()),
        algorithm_name: Some("RSA".to_string()),
        creation_time: Some(1_500_000_000),
        expiration_time: None,
        invalid: false,
        revocation: false,
        exportable: true,
        status_text: "NoError".to_string(),
    }
}

fn sample_signature_term() -> Term {
    Term::Dict(vec![
        (atom("signer_key"), text("0123456789ABCDEF")),
        (atom("signer"), text("Alice <alice@example.org>")),
        (atom("algorithm"), text("RSA")),
        (atom("creation_time"), Term::Int(1_500_000_000)),
        (atom("expiration_time"), atom("unknown")),
        (atom("invalid"), Term::Bool(false)),
        (atom("revoked"), Term::Bool(false)),
        (atom("exportable"), Term::Bool(true)),
        (atom("status"), text("NoError")),
    ])
}

fn sample_key() -> KeyInfo {
    KeyInfo {
        id: Some("89ABCDEF01234567".to_string()),
        fingerprint: Some("FPR0FPR1FPR2FPR3FPR4".to_string()),
        can_encrypt: true,
        can_sign: true,
        can_certify: false,
        can_authenticate: false,
        has_secret: true,
        is_revoked: false,
        is_expired: false,
        is_disabled: false,
        is_invalid: false,
        is_qualified: false,
        user_ids: vec![UserId {
            name: Some("Alice".to_string()),
            email: Some("alice@example.org".to_string()),
            comment: None,
            revoked: false,
            invalid: false,
            origin: KeyOrigin::Self_,
            validity: Validity::Ultimate,
            signatures: vec![sample_signature()],
        }],
    }
}

fn ok_pair(value: Term) -> Term {
    Term::Tuple(vec![atom("ok"), value])
}

#[test]
fn signature_encodes_every_field_in_order() {
    assert_eq!(encode_signature(&sample_signature()), sample_signature_term());
}

#[test]
fn signature_missing_fields_become_symbols() {
    let s = SignatureInfo {
        signer_key_id: None,
        signer_user_id: None,
        algorithm_name: None,
        creation_time: None,
        expiration_time: None,
        invalid: true,
        revocation: true,
        exportable: false,
        status_text: "BadSignature".to_string(),
    };
    assert_eq!(
        encode_signature(&s),
        Term::Dict(vec![
            (atom("signer_key"), atom("none")),
            (atom("signer"), atom("none")),
            (atom("algorithm"), atom("unknown")),
            (atom("creation_time"), atom("unknown")),
            (atom("expiration_time"), atom("unknown")),
            (atom("invalid"), Term::Bool(true)),
            (atom("revoked"), Term::Bool(true)),
            (atom("exportable"), Term::Bool(false)),
            (atom("status"), text("BadSignature")),
        ])
    );
}

#[test]
fn user_id_encodes_fields_origin_validity_and_signatures() {
    let key = sample_key();
    assert_eq!(
        encode_user_id(&key.user_ids[0]),
        Term::Dict(vec![
            (atom("name"), text("Alice")),
            (atom("email"), text("alice@example.org")),
            (atom("comment"), atom("none")),
            (atom("revoked"), Term::Bool(false)),
            (atom("invalid"), Term::Bool(false)),
            (atom("origin"), atom("_self")),
            (atom("validity"), atom("ultimate")),
            (atom("tofu_info"), atom("none")),
            (atom("signatures"), Term::List(vec![sample_signature_term()])),
        ])
    );
}

#[test]
fn user_ids_reply_lists_every_user_id() {
    let mut key = sample_key();
    key.user_ids.push(UserId {
        name: None,
        email: None,
        comment: None,
        revoked: true,
        invalid: true,
        origin: KeyOrigin::KeyServer,
        validity: Validity::Never,
        signatures: vec![],
    });
    let reply = key_user_ids(&key);
    match reply {
        Term::Tuple(parts) => {
            assert_eq!(parts.len(), 2);
            assert_eq!(parts[0], atom("ok"));
            match &parts[1] {
                Term::List(uids) => {
                    assert_eq!(uids.len(), 2);
                    assert_eq!(
                        uids[1],
                        Term::Dict(vec![
                            (atom("name"), atom("none")),
                            (atom("email"), atom("none")),
                            (atom("comment"), atom("none")),
                            (atom("revoked"), Term::Bool(true)),
                            (atom("invalid"), Term::Bool(true)),
                            (atom("origin"), atom("key_server")),
                            (atom("validity"), atom("never")),
                            (atom("tofu_info"), atom("none")),
                            (atom("signatures"), Term::List(vec![])),
                        ])
                    );
                }
                other => panic!("expected a list of user ids, got {:?}", other),
            }
        }
        other => panic!("expected an ok tuple, got {:?}", other),
    }
}

#[test]
fn key_id_replies_with_identifier() {
    assert_eq!(
        key_id(&sample_key()),
        ok_pair(text("89ABCDEF01234567"))
    );
}

#[test]
fn key_id_replies_with_question_mark_when_missing() {
    let mut key = sample_key();
    key.id = None;
    assert_eq!(key_id(&key), ok_pair(text("?")));
}

#[test]
fn key_fingerprint_replies_with_fingerprint_or_none() {
    assert_eq!(
        key_fingerprint(&sample_key()),
        ok_pair(text("FPR0FPR1FPR2FPR3FPR4"))
    );
    let mut key = sample_key();
    key.fingerprint = None;
    assert_eq!(key_fingerprint(&key), ok_pair(atom("none")));
}

#[test]
fn capability_and_status_replies() {
    let key = sample_key();
    assert_eq!(key_can_encrypt(&key), ok_pair(Term::Bool(true)));
    assert_eq!(key_can_sign(&key), ok_pair(Term::Bool(true)));
    assert_eq!(key_can_certify(&key), ok_pair(Term::Bool(false)));
    assert_eq!(key_can_authenticate(&key), ok_pair(Term::Bool(false)));
    assert_eq!(key_has_secret(&key), ok_pair(Term::Bool(true)));
    assert_eq!(key_is_revoked(&key), ok_pair(Term::Bool(false)));
    assert_eq!(key_is_expired(&key), ok_pair(Term::Bool(false)));
    assert_eq!(key_is_disabled(&key), ok_pair(Term::Bool(false)));
    assert_eq!(key_is_invalid(&key), ok_pair(Term::Bool(false)));
    assert_eq!(key_is_qualified(&key), ok_pair(Term::Bool(false)));
}

#[test]
fn validity_symbols() {
    assert_eq!(Validity::Unknown.as_term(), atom("unknown"));
    assert_eq!(Validity::Undefined.as_term(), atom("undefined"));
    assert_eq!(Validity::Never.as_term(), atom("never"));
    assert_eq!(Validity::Marginal.as_term(), atom("marginal"));
    assert_eq!(Validity::Full.as_term(), atom("full"));
    assert_eq!(Validity::Ultimate.as_term(), atom("ultimate"));
}

#[test]
fn origin_symbols() {
    assert_eq!(KeyOrigin::Unknown.as_term(), atom("unknown"));
    assert_eq!(KeyOrigin::KeyServer.as_term(), atom("key_server"));
    assert_eq!(KeyOrigin::Dane.as_term(), atom("dane"));
    assert_eq!(KeyOrigin::Wkd.as_term(), atom("wkd"));
    assert_eq!(KeyOrigin::Url.as_term(), atom("url"));
    assert_eq!(KeyOrigin::File.as_term(), atom("file"));
    assert_eq!(KeyOrigin::Self_.as_term(), atom("_self"));
    assert_eq!(KeyOrigin::Other.as_term(), atom("other"));
}
