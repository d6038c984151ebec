//! Keys as the bindings read them from the engine: identifiers,
//! capability and status flags, user ids and their certifying signatures —
//! and the encoders that turn each of them into the host's reply terms.
use vstd::prelude::*;

use crate::term::{
    distinct_keys, lemma_pair_shapes, lemma_shapes_push, ok_reply, ok_reply_term, opt_text, opt_text_term,
    opt_time, opt_time_term, pair_shapes, shapes, Term, TermS,
};

verus! {

/// How much a user id is trusted to belong to its key.
#[derive(Clone, Copy, Debug, PartialEq, Eq, Structural)]
pub enum Validity {
    Unknown,
    Undefined,
    Never,
    Marginal,
    Full,
    Ultimate,
}

/// The symbol the host sees for a validity.
pub open spec fn validity_atom(v: Validity) -> TermS {
    match v {
        Validity::Unknown => TermS::Atom("unknown"@),
        Validity::Undefined => TermS::Atom("undefined"@),
        Validity::Never => TermS::Atom("never"@),
        Validity::Marginal => TermS::Atom("marginal"@),
        Validity::Full => TermS::Atom("full"@),
        Validity::Ultimate => TermS::Atom("ultimate"@),
    }
}

impl Validity {
    /// Writes this validity as the symbol the host sees for it.
    pub fn as_term(&self) -> (t: Term)
        ensures
            t@ == validity_atom(*self),
    {
        match self {
            Validity::Unknown => Term::atom("unknown"),
            Validity::Undefined => Term::atom("undefined"),
            Validity::Never => Term::atom("never"),
            Validity::Marginal => Term::atom("marginal"),
            Validity::Full => Term::atom("full"),
            Validity::Ultimate => Term::atom("ultimate"),
        }
    }
}

/// Where a user id was first seen.
#[derive(Clone, Copy, Debug, PartialEq, Eq, Structural)]
pub enum KeyOrigin {
    Unknown,
    KeyServer,
    Dane,
    Wkd,
    Url,
    File,
    Self_,
    Other,
}

/// The symbol the host sees for a key origin.
pub open spec fn origin_atom(o: KeyOrigin) -> TermS {
    match o {
        KeyOrigin::Unknown => TermS::Atom("unknown"@),
        KeyOrigin::KeyServer => TermS::Atom("key_server"@),
        KeyOrigin::Dane => TermS::Atom("dane"@),
        KeyOrigin::Wkd => TermS::Atom("wkd"@),
        KeyOrigin::Url => TermS::Atom("url"@),
        KeyOrigin::File => TermS::Atom("file"@),
        KeyOrigin::Self_ => TermS::Atom("_self"@),
        KeyOrigin::Other => TermS::Atom("other"@),
    }
}

impl KeyOrigin {
    /// Writes this origin as the symbol the host sees for it.
    pub fn as_term(&self) -> (t: Term)
        ensures
            t@ == origin_atom(*self),
    {
        match self {
            KeyOrigin::Unknown => Term::atom("unknown"),
            KeyOrigin::KeyServer => Term::atom("key_server"),
            KeyOrigin::Dane => Term::atom("dane"),
            KeyOrigin::Wkd => Term::atom("wkd"),
            KeyOrigin::Url => Term::atom("url"),
            KeyOrigin::File => Term::atom("file"),
            KeyOrigin::Self_ => Term::atom("_self"),
            KeyOrigin::Other => Term::atom("other"),
        }
    }
}

/// A certifying signature on a user id, as read from the engine. Times are
/// seconds since the epoch; a time the engine lacked, or one before the
/// epoch, is `None`.
#[derive(Debug, PartialEq)]
pub struct SignatureInfo {
    pub signer_key_id: Option<String>,
    pub signer_user_id: Option<String>,
    pub algorithm_name: Option<String>,
    pub creation_time: Option<u64>,
    pub expiration_time: Option<u64>,
    pub invalid: bool,
    pub revocation: bool,
    pub exportable: bool,
    pub status_text: String,
}

/// The map the host sees for one certifying signature.
pub open spec fn signature_term(s: SignatureInfo) -> TermS {
    TermS::Dict(
        seq![
            (TermS::Atom("signer_key"@), opt_text_term(s.signer_key_id)),
            (TermS::Atom("signer"@), opt_text_term(s.signer_user_id)),
            (
                TermS::Atom("algorithm"@),
                match s.algorithm_name {
                    Some(a) => TermS::Text(a@),
                    None => TermS::Atom("unknown"@),
                },
            ),
            (TermS::Atom("creation_time"@), opt_time_term(s.creation_time)),
            (TermS::Atom("expiration_time"@), opt_time_term(s.expiration_time)),
            (TermS::Atom("invalid"@), TermS::Bool(s.invalid)),
            (TermS::Atom("revoked"@), TermS::Bool(s.revocation)),
            (TermS::Atom("exportable"@), TermS::Bool(s.exportable)),
            (TermS::Atom("status"@), TermS::Text(s.status_text@)),
        ],
    )
}

/// Encodes one certifying signature as the map the host sees.
pub fn encode_signature(s: &SignatureInfo) -> (t: Term)
    ensures
        t@ == signature_term(*s),
{
    let mut entries: Vec<(Term, Term)> = Vec::new();
    entries.push((Term::atom("signer_key"), opt_text(&s.signer_key_id)));
    entries.push((Term::atom("signer"), opt_text(&s.signer_user_id)));
    let algorithm = match &s.algorithm_name {
        Some(a) => Term::Text(a.clone()),
        None => Term::atom("unknown"),
    };
    entries.push((Term::atom("algorithm"), algorithm));
    entries.push((Term::atom("creation_time"), opt_time(&s.creation_time)));
    entries.push((Term::atom("expiration_time"), opt_time(&s.expiration_time)));
    entries.push((Term::atom("invalid"), Term::Bool(s.invalid)));
    entries.push((Term::atom("revoked"), Term::Bool(s.revocation)));
    entries.push((Term::atom("exportable"), Term::Bool(s.exportable)));
    entries.push((Term::atom("status"), Term::text(s.status_text.clone())));
    let t = Term::Dict(entries);
    proof {
        lemma_pair_shapes(entries@);
        assert(pair_shapes(entries@) =~= seq![
            (TermS::Atom("signer_key"@), opt_text_term(s.signer_key_id)),
            (TermS::Atom("signer"@), opt_text_term(s.signer_user_id)),
            (
                TermS::Atom("algorithm"@),
                match s.algorithm_name {
                    Some(a) => TermS::Text(a@),
                    None => TermS::Atom("unknown"@),
                },
            ),
            (TermS::Atom("creation_time"@), opt_time_term(s.creation_time)),
            (TermS::Atom("expiration_time"@), opt_time_term(s.expiration_time)),
            (TermS::Atom("invalid"@), TermS::Bool(s.invalid)),
            (TermS::Atom("revoked"@), TermS::Bool(s.revocation)),
            (TermS::Atom("exportable"@), TermS::Bool(s.exportable)),
            (TermS::Atom("status"@), TermS::Text(s.status_text@)),
        ]);
        assert(t@ =~~= signature_term(*s));
    }
    t
}

/// The map for a certifying signature never repeats a key.
pub proof fn lemma_signature_term_keys_distinct(s: SignatureInfo)
    ensures
        signature_term(s) matches TermS::Dict(entries) && distinct_keys(entries),
{
    reveal_strlit("signer_key");
    reveal_strlit("signer");
    reveal_strlit("algorithm");
    reveal_strlit("creation_time");
    reveal_strlit("expiration_time");
    reveal_strlit("invalid");
    reveal_strlit("revoked");
    reveal_strlit("exportable");
    reveal_strlit("status");
    assert(("signer_key"@).len() == 10);
    assert(("signer"@).len() == 6);
    assert(("algorithm"@).len() == 9);
    assert(("creation_time"@).len() == 13);
    assert(("expiration_time"@).len() == 15);
    assert(("invalid"@).len() == 7);
    assert(("revoked"@).len() == 7);
    assert(("exportable"@).len() == 10);
    assert(("status"@).len() == 6);
    assert(("invalid"@)[0] == 'i' && ("revoked"@)[0] == 'r');
    assert(("signer"@)[1] == 'i' && ("status"@)[1] == 't');
    assert(("signer_key"@)[0] == 's' && ("exportable"@)[0] == 'e');
    let entries = signature_term(s)->Dict_0;
    assert(entries.len() == 9);
    assert(entries[0].0 == TermS::Atom("signer_key"@));
    assert(entries[1].0 == TermS::Atom("signer"@));
    assert(entries[2].0 == TermS::Atom("algorithm"@));
    assert(entries[3].0 == TermS::Atom("creation_time"@));
    assert(entries[4].0 == TermS::Atom("expiration_time"@));
    assert(entries[5].0 == TermS::Atom("invalid"@));
    assert(entries[6].0 == TermS::Atom("revoked"@));
    assert(entries[7].0 == TermS::Atom("exportable"@));
    assert(entries[8].0 == TermS::Atom("status"@));
    assert forall|i: int, j: int| 0 <= i < j < entries.len() implies entries[i].0
        != entries[j].0 by {
        assert(i == 0 || i == 1 || i == 2 || i == 3 || i == 4 || i == 5 || i == 6 || i == 7
            || i == 8);
        assert(j == 0 || j == 1 || j == 2 || j == 3 || j == 4 || j == 5 || j == 6 || j == 7
            || j == 8);
    }
}

/// A user id of a key, as read from the engine.
#[derive(Debug, PartialEq)]
pub struct UserId {
    pub name: Option<String>,
    pub email: Option<String>,
    pub comment: Option<String>,
    pub revoked: bool,
    pub invalid: bool,
    pub origin: KeyOrigin,
    pub validity: Validity,
    pub signatures: Vec<SignatureInfo>,
}

/// The map the host sees for one user id. TOFU statistics are never
/// gathered, so `tofu_info` is always the `none` symbol.
pub open spec fn user_id_term(u: UserId) -> TermS {
    TermS::Dict(
        seq![
            (TermS::Atom("name"@), opt_text_term(u.name)),
            (TermS::Atom("email"@), opt_text_term(u.email)),
            (TermS::Atom("comment"@), opt_text_term(u.comment)),
            (TermS::Atom("revoked"@), TermS::Bool(u.revoked)),
            (TermS::Atom("invalid"@), TermS::Bool(u.invalid)),
            (TermS::Atom("origin"@), origin_atom(u.origin)),
            (TermS::Atom("validity"@), validity_atom(u.validity)),
            (TermS::Atom("tofu_info"@), TermS::Atom("none"@)),
            (
                TermS::Atom("signatures"@),
                TermS::List(u.signatures@.map_values(|s: SignatureInfo| signature_term(s))),
            ),
        ],
    )
}

/// Encodes one user id as the map the host sees.
pub fn encode_user_id(u: &UserId) -> (t: Term)
    ensures
        t@ == user_id_term(*u),
{
    let ghost target = u.signatures@.map_values(|s: SignatureInfo| signature_term(s));
    let mut sigs: Vec<Term> = Vec::new();
    let mut i: usize = 0;
    proof {
        assert(shapes(sigs@) =~= target.take(0));
    }
    while i < u.signatures.len()
        invariant
            i <= u.signatures.len(),
            target == u.signatures@.map_values(|s: SignatureInfo| signature_term(s)),
            shapes(sigs@) == target.take(i as int),
        decreases u.signatures.len() - i,
    {
        let s = encode_signature(&u.signatures[i]);
        let ghost pre = sigs@;
        sigs.push(s);
        i = i + 1;
        proof {
            lemma_shapes_push(pre, s);
            assert(shapes(sigs@) =~= target.take(i as int));
        }
    }
    proof {
        assert(target.take(u.signatures@.len() as int) =~= target);
    }
    let mut entries: Vec<(Term, Term)> = Vec::new();
    entries.push((Term::atom("name"), opt_text(&u.name)));
    entries.push((Term::atom("email"), opt_text(&u.email)));
    entries.push((Term::atom("comment"), opt_text(&u.comment)));
    entries.push((Term::atom("revoked"), Term::Bool(u.revoked)));
    entries.push((Term::atom("invalid"), Term::Bool(u.invalid)));
    entries.push((Term::atom("origin"), u.origin.as_term()));
    entries.push((Term::atom("validity"), u.validity.as_term()));
    entries.push((Term::atom("tofu_info"), Term::atom("none")));
    entries.push((Term::atom("signatures"), Term::List(sigs)));
    let t = Term::Dict(entries);
    proof {
        lemma_pair_shapes(entries@);
        assert(pair_shapes(entries@) =~= seq![
            (TermS::Atom("name"@), opt_text_term(u.name)),
            (TermS::Atom("email"@), opt_text_term(u.email)),
            (TermS::Atom("comment"@), opt_text_term(u.comment)),
            (TermS::Atom("revoked"@), TermS::Bool(u.revoked)),
            (TermS::Atom("invalid"@), TermS::Bool(u.invalid)),
            (TermS::Atom("origin"@), origin_atom(u.origin)),
            (TermS::Atom("validity"@), validity_atom(u.validity)),
            (TermS::Atom("tofu_info"@), TermS::Atom("none"@)),
            (
                TermS::Atom("signatures"@),
                TermS::List(u.signatures@.map_values(|s: SignatureInfo| signature_term(s))),
            ),
        ]);
        assert(t@ =~~= user_id_term(*u));
    }
    t
}

/// The map for a user id never repeats a key.
pub proof fn lemma_user_id_term_keys_distinct(u: UserId)
    ensures
        user_id_term(u) matches TermS::Dict(entries) && distinct_keys(entries),
{
    reveal_strlit("name");
    reveal_strlit("email");
    reveal_strlit("comment");
    reveal_strlit("revoked");
    reveal_strlit("invalid");
    reveal_strlit("origin");
    reveal_strlit("validity");
    reveal_strlit("tofu_info");
    reveal_strlit("signatures");
    assert(("name"@).len() == 4);
    assert(("email"@).len() == 5);
    assert(("comment"@).len() == 7);
    assert(("revoked"@).len() == 7);
    assert(("invalid"@).len() == 7);
    assert(("origin"@).len() == 6);
    assert(("validity"@).len() == 8);
    assert(("tofu_info"@).len() == 9);
    assert(("signatures"@).len() == 10);
    assert(("comment"@)[0] == 'c' && ("revoked"@)[0] == 'r' && ("invalid"@)[0] == 'i');
    let entries = user_id_term(u)->Dict_0;
    assert(entries.len() == 9);
    assert(entries[0].0 == TermS::Atom("name"@));
    assert(entries[1].0 == TermS::Atom("email"@));
    assert(entries[2].0 == TermS::Atom("comment"@));
    assert(entries[3].0 == TermS::Atom("revoked"@));
    assert(entries[4].0 == TermS::Atom("invalid"@));
    assert(entries[5].0 == TermS::Atom("origin"@));
    assert(entries[6].0 == TermS::Atom("validity"@));
    assert(entries[7].0 == TermS::Atom("tofu_info"@));
    assert(entries[8].0 == TermS::Atom("signatures"@));
    assert forall|i: int, j: int| 0 <= i < j < entries.len() implies entries[i].0
        != entries[j].0 by {
        assert(i == 0 || i == 1 || i == 2 || i == 3 || i == 4 || i == 5 || i == 6 || i == 7
            || i == 8);
        assert(j == 0 || j == 1 || j == 2 || j == 3 || j == 4 || j == 5 || j == 6 || j == 7
            || j == 8);
    }
}

/// A key as the bindings read it from the engine: its identifiers, its
/// capability and status flags, and its user ids.
#[derive(Debug, PartialEq)]
pub struct KeyInfo {
    pub id: Option<String>,
    pub fingerprint: Option<String>,
    pub can_encrypt: bool,
    pub can_sign: bool,
    pub can_certify: bool,
    pub can_authenticate: bool,
    pub has_secret: bool,
    pub is_revoked: bool,
    pub is_expired: bool,
    pub is_disabled: bool,
    pub is_invalid: bool,
    pub is_qualified: bool,
    pub user_ids: Vec<UserId>,
}

/// The text the host sees for a key's identifier: the identifier itself, or
/// a question mark where the engine gave none.
pub open spec fn key_id_text(k: KeyInfo) -> Seq<char> {
    match k.id {
        Some(s) => s@,
        None => "?"@,
    }
}

/// Replies with the key's identifier, or a question mark where the engine
/// gave none.
pub fn key_id(k: &KeyInfo) -> (r: Term)
    ensures
        r@ == ok_reply_term(TermS::Text(key_id_text(*k))),
{
    let id = match &k.id {
        Some(s) => Term::Text(s.clone()),
        None => Term::Text("?".to_owned()),
    };
    ok_reply(id)
}

/// Replies with the key's fingerprint, or the `none` symbol.
pub fn key_fingerprint(k: &KeyInfo) -> (r: Term)
    ensures
        r@ == ok_reply_term(opt_text_term(k.fingerprint)),
{
    ok_reply(opt_text(&k.fingerprint))
}

/// Replies with whether the key can encrypt.
pub fn key_can_encrypt(k: &KeyInfo) -> (r: Term)
    ensures
        r@ == ok_reply_term(TermS::Bool(k.can_encrypt)),
{
    ok_reply(Term::Bool(k.can_encrypt))
}

/// Replies with whether the key can sign.
pub fn key_can_sign(k: &KeyInfo) -> (r: Term)
    ensures
        r@ == ok_reply_term(TermS::Bool(k.can_sign)),
{
    ok_reply(Term::Bool(k.can_sign))
}

/// Replies with whether the key can certify other keys.
pub fn key_can_certify(k: &KeyInfo) -> (r: Term)
    ensures
        r@ == ok_reply_term(TermS::Bool(k.can_certify)),
{
    ok_reply(Term::Bool(k.can_certify))
}

/// Replies with whether the key can authenticate.
pub fn key_can_authenticate(k: &KeyInfo) -> (r: Term)
    ensures
        r@ == ok_reply_term(TermS::Bool(k.can_authenticate)),
{
    ok_reply(Term::Bool(k.can_authenticate))
}

/// Replies with whether the secret part of the key is held.
pub fn key_has_secret(k: &KeyInfo) -> (r: Term)
    ensures
        r@ == ok_reply_term(TermS::Bool(k.has_secret)),
{
    ok_reply(Term::Bool(k.has_secret))
}

/// Replies with whether the key is revoked.
pub fn key_is_revoked(k: &KeyInfo) -> (r: Term)
    ensures
        r@ == ok_reply_term(TermS::Bool(k.is_revoked)),
{
    ok_reply(Term::Bool(k.is_revoked))
}

/// Replies with whether the key is expired.
pub fn key_is_expired(k: &KeyInfo) -> (r: Term)
    ensures
        r@ == ok_reply_term(TermS::Bool(k.is_expired)),
{
    ok_reply(Term::Bool(k.is_expired))
}

/// Replies with whether the key is disabled.
pub fn key_is_disabled(k: &KeyInfo) -> (r: Term)
    ensures
        r@ == ok_reply_term(TermS::Bool(k.is_disabled)),
{
    ok_reply(Term::Bool(k.is_disabled))
}

/// Replies with whether the key is invalid.
pub fn key_is_invalid(k: &KeyInfo) -> (r: Term)
    ensures
        r@ == ok_reply_term(TermS::Bool(k.is_invalid)),
{
    ok_reply(Term::Bool(k.is_invalid))
}

/// Replies with whether the key is qualified for qualified signatures.
pub fn key_is_qualified(k: &KeyInfo) -> (r: Term)
    ensures
        r@ == ok_reply_term(TermS::Bool(k.is_qualified)),
{
    ok_reply(Term::Bool(k.is_qualified))
}

/// The reply the host sees for a key's user ids: the list of their maps.
pub open spec fn key_user_ids_term(k: KeyInfo) -> TermS {
    ok_reply_term(TermS::List(k.user_ids@.map_values(|u: UserId| user_id_term(u))))
}

/// Replies with the key's user ids, each with its certifying signatures.
pub fn key_user_ids(k: &KeyInfo) -> (r: Term)
    ensures
        r@ == key_user_ids_term(*k),
{
    let ghost target = k.user_ids@.map_values(|u: UserId| user_id_term(u));
    let mut uids: Vec<Term> = Vec::new();
    let mut i: usize = 0;
    proof {
        assert(shapes(uids@) =~= target.take(0));
    }
    while i < k.user_ids.len()
        invariant
            i <= k.user_ids.len(),
            target == k.user_ids@.map_values(|u: UserId| user_id_term(u)),
            shapes(uids@) == target.take(i as int),
        decreases k.user_ids.len() - i,
    {
        let u = encode_user_id(&k.user_ids[i]);
        let ghost pre = uids@;
        uids.push(u);
        i = i + 1;
        proof {
            lemma_shapes_push(pre, u);
            assert(shapes(uids@) =~= target.take(i as int));
        }
    }
    proof {
        assert(target.take(k.user_ids@.len() as int) =~= target);
    }
    ok_reply(Term::List(uids))
}

} // verus!
