use gpgme_bindings::error::NifError;
use gpgme_bindings::protocol::{as_term, from_term, Protocol};
use gpgme_bindings::term::{ok_reply, Term};

fn atom(name: &str) -> Term {
    Term::Atom(name.to_string())
}

#[test]
fn from_term_accepts_openpgp() {
    assert_eq!(from_term(&atom("openpgp")), Ok(Protocol::OpenPgp));
}

#[test]
fn from_term_rejects_other_atoms() {
    assert_eq!(from_term(&atom("cms")), Err(NifError::UnsupportedProtocol));
    assert_eq!(from_term(&atom("")), Err(NifError::UnsupportedProtocol));
    assert_eq!(
        from_term(&atom("OpenPGP")),
        Err(NifError::UnsupportedProtocol)
    );
}

#[test]
fn from_term_rejects_non_atoms() {
    assert_eq!(from_term(&Term::Int(1)), Err(NifError::BadArg));
    assert_eq!(
        from_term(&Term::Text("openpgp".to_string())),
        Err(NifError::BadArg)
    );
    assert_eq!(from_term(&Term::List(vec![])), Err(NifError::BadArg));
}

#[test]
fn as_term_names_openpgp() {
    assert_eq!(as_term(Protocol::OpenPgp), atom("openpgp"));
}

#[test]
fn as_term_marks_everything_else_unsupported() {
    assert_eq!(as_term(Protocol::Cms), atom("unsupported_protocol"));
    assert_eq!(as_term(Protocol::Assuan), atom("unsupported_protocol"));
    assert_eq!(as_term(Protocol::Unknown), atom("unsupported_protocol"));
}

#[test]
fn protocol_round_trips_through_its_symbol() {
    assert_eq!(
        from_term(&as_term(Protocol::OpenPgp)),
        Ok(Protocol::OpenPgp)
    );
    assert_eq!(
        from_term(&as_term(Protocol::Spawn)),
        Err(NifError::UnsupportedProtocol)
    );
}

#[test]
fn error_atom_names() {
    assert_eq!(NifError::BadArg.atom_name(), "badarg");
    assert_eq!(
        NifError::UnsupportedProtocol.atom_name(),
        "unsupported_protocol"
    );
    assert_eq!(
        NifError::ContextInitialization.atom_name(),
        "context_initialization"
    );
    assert_eq!(NifError::OperationFailed.atom_name(), "error");
    assert_eq!(NifError::NotFound.atom_name(), "not_found");
}

#[test]
fn ok_reply_wraps_in_tagged_tuple() {
    assert_eq!(
        ok_reply(Term::Int(5)),
        Term::Tuple(vec![atom("ok"), Term::Int(5)])
    );
}
