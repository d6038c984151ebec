use gpgme_bindings::context::{
    ack_reply, as_map, encode_import_result, encode_notation, import, info, parse_notation_flags,
    sender, signature_notations, EngineInfo, ImportInfo, ImportOutcome, SignatureNotation,
    NOTATION_CRITICAL, NOTATION_HUMAN_READABLE,
};
use gpgme_bindings::error::NifError;
use gpgme_bindings::protocol::Protocol;
use gpgme_bindings::term::Term;

fn atom(name: &str) -> Term {
    Term::Atom(name.to_string())
}

fn text(contents: &str) -> Term {
    Term::Text(contents.to_string())
}

fn ok_pair(value: Term) -> Term {
    Term::Tuple(vec![atom("ok"), value])
}

#[test]
fn info_reports_the_engine_description() {
    let e = EngineInfo {
        home_dir: "/var/keys".to_string(),
        path: "/usr/bin/gpg".to_string(),
        version: "2.2.27".to_string(),
        required_version: "1.4.0".to_string(),
        protocol: Protocol::OpenPgp,
    };
    assert_eq!(
        info(&e),
        ok_pair(Term::Dict(vec![
            (atom("home"), text("/var/keys")),
            (atom("path"), text("/usr/bin/gpg")),
            (atom("version"), text("2.2.27")),
            (atom("protocol"), atom("openpgp")),
            (atom("required_version"), text("1.4.0")),
        ]))
    );
}

#[test]
fn as_map_reports_one_import() {
    let i = ImportInfo {
        fingerprint: Some("FPR".to_string()),
        result_ok: true,
        status_text: "NewKey".to_string(),
    };
    assert_eq!(
        as_map(&i),
        Term::Dict(vec![
            (atom("fingerprint"), text("FPR")),
            (atom("result"), atom("ok")),
            (atom("status"), text("NewKey")),
        ])
    );
}

#[test]
fn as_map_marks_failures_and_missing_fingerprints() {
    let i = ImportInfo {
        fingerprint: None,
        result_ok: false,
        status_text: "Unchanged".to_string(),
    };
    assert_eq!(
        as_map(&i),
        Term::Dict(vec![
            (atom("fingerprint"), atom("none")),
            (atom("result"), atom("error")),
            (atom("status"), text("Unchanged")),
        ])
    );
}

fn sample_outcome() -> ImportOutcome {
    ImportOutcome {
        without_user_id: 0,
        new_user_ids: 1,
        new_subkeys: 2,
        new_revocations: 0,
        considered: 3,
        imported: 1,
        unchanged: 2,
        secret_considered: 1,
        secret_imported: 0,
        secret_unchanged: 1,
        not_imported: 0,
        imports: vec![ImportInfo {
            fingerprint: Some("FPR".to_string()),
            result_ok: true,
            status_text: "NewKey".to_string(),
        }],
    }
}

#[test]
fn import_result_reports_counts_and_imports_in_order() {
    assert_eq!(
        encode_import_result(&sample_outcome()),
        ok_pair(Term::Dict(vec![
            (atom("without_user_id"), Term::Int(0)),
            (atom("new_user_ids"), Term::Int(1)),
            (atom("new_revocations"), Term::Int(0)),
            (atom("secret_considered"), Term::Int(1)),
            (atom("secret_imported"), Term::Int(0)),
            (atom("secret_unchanged"), Term::Int(1)),
            (atom("not_imported"), Term::Int(0)),
            (atom("unchanged"), Term::Int(2)),
            (atom("new_subkeys"), Term::Int(2)),
            (atom("considered"), Term::Int(3)),
            (atom("imported"), Term::Int(1)),
            (
                atom("imports"),
                Term::List(vec![Term::Dict(vec![
                    (atom("fingerprint"), text("FPR")),
                    (atom("result"), atom("ok")),
                    (atom("status"), text("NewKey")),
                ])])
            ),
        ]))
    );
}

#[test]
fn import_replies_with_report_or_error() {
    let reply = import(Ok(sample_outcome())).expect("import reply");
    assert_eq!(reply, encode_import_result(&sample_outcome()));
    assert_eq!(import(Err(117)), Err(NifError::OperationFailed));
}

#[test]
fn notation_encodes_fields_in_order() {
    let n = SignatureNotation {
        name: Some("issuer@example.org".to_string()),
        value: Some("yes".to_string()),
        critical: true,
        human_readable: true,
    };
    assert_eq!(
        encode_notation(&n),
        Term::Dict(vec![
            (atom("name"), text("issuer@example.org")),
            (atom("value"), text("yes")),
            (atom("critical"), Term::Bool(true)),
            (atom("human_readable"), Term::Bool(true)),
        ])
    );
}

#[test]
fn notations_reply_lists_every_notation() {
    let ns = vec![
        SignatureNotation {
            name: None,
            value: Some("https://example.org/policy".to_string()),
            critical: false,
            human_readable: false,
        },
        SignatureNotation {
            name: Some("remark".to_string()),
            value: None,
            critical: false,
            human_readable: true,
        },
    ];
    assert_eq!(
        signature_notations(&ns),
        ok_pair(Term::List(vec![
            Term::Dict(vec![
                (atom("name"), atom("none")),
                (atom("value"), text("https://example.org/policy")),
                (atom("critical"), Term::Bool(false)),
                (atom("human_readable"), Term::Bool(false)),
            ]),
            Term::Dict(vec![
                (atom("name"), text("remark")),
                (atom("value"), atom("none")),
                (atom("critical"), Term::Bool(false)),
                (atom("human_readable"), Term::Bool(true)),
            ]),
        ]))
    );
}

#[test]
fn empty_flag_list_selects_nothing() {
    assert_eq!(parse_notation_flags(&vec![]), 0);
}

#[test]
fn each_flag_atom_selects_its_bit() {
    assert_eq!(
        parse_notation_flags(&vec![atom("human_readable")]),
        NOTATION_HUMAN_READABLE
    );
    assert_eq!(
        parse_notation_flags(&vec![atom("critical")]),
        NOTATION_CRITICAL
    );
    assert_eq!(
        parse_notation_flags(&vec![atom("critical"), atom("human_readable")]),
        NOTATION_HUMAN_READABLE | NOTATION_CRITICAL
    );
}

#[test]
fn unknown_flag_values_are_passed_over() {
    assert_eq!(
        parse_notation_flags(&vec![atom("exportable"), Term::Int(1), text("critical")]),
        0
    );
    assert_eq!(
        parse_notation_flags(&vec![atom("shady"), atom("critical"), Term::Bool(true)]),
        NOTATION_CRITICAL
    );
}

#[test]
fn repeated_flag_atoms_select_the_same_bit() {
    assert_eq!(
        parse_notation_flags(&vec![
            atom("critical"),
            atom("critical"),
            atom("critical")
        ]),
        NOTATION_CRITICAL
    );
}

#[test]
fn sender_replies_with_address_none_or_error() {
    assert_eq!(
        sender(Ok("alice@example.org".to_string())),
        Ok(text("alice@example.org"))
    );
    assert_eq!(sender(Ok(String::new())), Ok(atom("none")));
    assert_eq!(sender(Err(150)), Err(NifError::OperationFailed));
}

#[test]
fn ack_reply_acknowledges_or_fails() {
    assert_eq!(ack_reply(Ok(())), Ok(atom("ok")));
    assert_eq!(ack_reply(Err(1)), Err(NifError::OperationFailed));
}
