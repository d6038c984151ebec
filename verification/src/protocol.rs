//! The engine protocols, and their translation to and from host symbols.
//! Only OpenPGP is offered to the host; every other protocol the engine
//! knows is answered with the `unsupported_protocol` symbol.
use vstd::prelude::*;

use crate::error::NifError;
use crate::term::{Term, TermS};

verus! {

/// A protocol of the engine.
#[derive(Clone, Copy, Debug, PartialEq, Eq, Structural)]
pub enum Protocol {
    OpenPgp,
    Cms,
    GpgConf,
    Assuan,
    G13,
    UiServer,
    Spawn,
    Unknown,
}

/// The protocol a host term selects: the `openpgp` symbol selects OpenPGP,
/// any other symbol is an unsupported protocol, and any other value is a
/// malformed argument.
pub open spec fn protocol_of_term(t: TermS) -> Result<Protocol, NifError> {
    match t {
        TermS::Atom(name) => if name == "openpgp"@ {
            Ok(Protocol::OpenPgp)
        } else {
            Err(NifError::UnsupportedProtocol)
        },
        _ => Err(NifError::BadArg),
    }
}

/// The symbol the host sees for a protocol.
pub open spec fn protocol_atom(p: Protocol) -> TermS {
    match p {
        Protocol::OpenPgp => TermS::Atom("openpgp"@),
        _ => TermS::Atom("unsupported_protocol"@),
    }
}

/// Reads the protocol a host term selects.
pub fn from_term(t: &Term) -> (r: Result<Protocol, NifError>)
    ensures
        r == protocol_of_term(t@),
{
    match t {
        Term::Atom(name) => {
            let openpgp: String = "openpgp".to_owned();
            if *name == openpgp {
                Ok(Protocol::OpenPgp)
            } else {
                Err(NifError::UnsupportedProtocol)
            }
        },
        _ => Err(NifError::BadArg),
    }
}

/// Writes a protocol as the symbol the host sees for it.
pub fn as_term(p: Protocol) -> (t: Term)
    ensures
        t@ == protocol_atom(p),
{
    match p {
        Protocol::OpenPgp => Term::atom("openpgp"),
        _ => Term::atom("unsupported_protocol"),
    }
}

/// Translating the OpenPGP protocol to its symbol and reading it back
/// selects OpenPGP again; for every other protocol the written symbol is
/// answered with the unsupported-protocol error.
pub proof fn lemma_protocol_round_trip(p: Protocol)
    ensures
        p == Protocol::OpenPgp ==> protocol_of_term(protocol_atom(p)) == Ok::<
            Protocol,
            NifError,
        >(p),
        p != Protocol::OpenPgp ==> protocol_of_term(protocol_atom(p)) == Err::<
            Protocol,
            NifError,
        >(NifError::UnsupportedProtocol),
{
    reveal_strlit("openpgp");
    reveal_strlit("unsupported_protocol");
    assert(("openpgp"@).len() == 7);
    assert(("unsupported_protocol"@).len() == 20);
}

} // verus!
