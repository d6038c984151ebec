//! Context operations as the bindings see them: the engine's description of
//! itself, import results, signature notations and the sender address — with
//! the encoders that turn each into the host's reply terms, the parser for
//! the notation flags the host passes in, and the mapping of engine failures
//! to error symbols.
use vstd::prelude::*;

use crate::error::NifError;
use crate::protocol::{protocol_atom, Protocol};
use crate::term::{
    distinct_keys, lemma_pair_shapes, lemma_shapes_push, ok_reply, ok_reply_term, opt_text, opt_text_term,
    pair_shapes, shapes, Term, TermS,
};

verus! {

/// What the engine reports about itself. A missing entry never reaches this
/// type: the glue fails first, so every field is plain text here.
#[derive(Debug, PartialEq)]
pub struct EngineInfo {
    pub home_dir: String,
    pub path: String,
    pub version: String,
    pub required_version: String,
    pub protocol: Protocol,
}

/// The reply the host sees for the engine's description of itself.
pub open spec fn engine_info_term(e: EngineInfo) -> TermS {
    ok_reply_term(
        TermS::Dict(
            seq![
                (TermS::Atom("home"@), TermS::Text(e.home_dir@)),
                (TermS::Atom("path"@), TermS::Text(e.path@)),
                (TermS::Atom("version"@), TermS::Text(e.version@)),
                (TermS::Atom("protocol"@), protocol_atom(e.protocol)),
                (TermS::Atom("required_version"@), TermS::Text(e.required_version@)),
            ],
        ),
    )
}

/// Replies with the engine's description of itself.
pub fn info(e: &EngineInfo) -> (r: Term)
    ensures
        r@ == engine_info_term(*e),
{
    let mut entries: Vec<(Term, Term)> = Vec::new();
    entries.push((Term::atom("home"), Term::text(e.home_dir.clone())));
    entries.push((Term::atom("path"), Term::text(e.path.clone())));
    entries.push((Term::atom("version"), Term::text(e.version.clone())));
    entries.push((Term::atom("protocol"), crate::protocol::as_term(e.protocol)));
    entries.push((Term::atom("required_version"), Term::text(e.required_version.clone())));
    let inner = Term::Dict(entries);
    proof {
        lemma_pair_shapes(entries@);
        assert(pair_shapes(entries@) =~= seq![
            (TermS::Atom("home"@), TermS::Text(e.home_dir@)),
            (TermS::Atom("path"@), TermS::Text(e.path@)),
            (TermS::Atom("version"@), TermS::Text(e.version@)),
            (TermS::Atom("protocol"@), protocol_atom(e.protocol)),
            (TermS::Atom("required_version"@), TermS::Text(e.required_version@)),
        ]);
        assert(inner@ =~~= TermS::Dict(
            seq![
                (TermS::Atom("home"@), TermS::Text(e.home_dir@)),
                (TermS::Atom("path"@), TermS::Text(e.path@)),
                (TermS::Atom("version"@), TermS::Text(e.version@)),
                (TermS::Atom("protocol"@), protocol_atom(e.protocol)),
                (TermS::Atom("required_version"@), TermS::Text(e.required_version@)),
            ],
        ));
    }
    ok_reply(inner)
}

/// The engine-description map never repeats a key.
pub proof fn lemma_engine_info_keys_distinct(e: EngineInfo)
    ensures
        engine_info_term(e) matches TermS::Tuple(parts) && parts[1] matches TermS::Dict(entries)
            && distinct_keys(entries),
{
    reveal_strlit("home");
    reveal_strlit("path");
    reveal_strlit("version");
    reveal_strlit("protocol");
    reveal_strlit("required_version");
    assert(("home"@).len() == 4);
    assert(("path"@).len() == 4);
    assert(("version"@).len() == 7);
    assert(("protocol"@).len() == 8);
    assert(("required_version"@).len() == 16);
    assert(("home"@)[0] == 'h' && ("path"@)[0] == 'p');
    let entries = (engine_info_term(e)->Tuple_0)[1]->Dict_0;
    assert(entries.len() == 5);
    assert(entries[0].0 == TermS::Atom("home"@));
    assert(entries[1].0 == TermS::Atom("path"@));
    assert(entries[2].0 == TermS::Atom("version"@));
    assert(entries[3].0 == TermS::Atom("protocol"@));
    assert(entries[4].0 == TermS::Atom("required_version"@));
    assert forall|i: int, j: int| 0 <= i < j < entries.len() implies entries[i].0
        != entries[j].0 by {
        assert(i == 0 || i == 1 || i == 2 || i == 3 || i == 4);
        assert(j == 0 || j == 1 || j == 2 || j == 3 || j == 4);
    }
}

/// One imported key, as the engine reports it: its fingerprint, whether its
/// import succeeded, and the engine's description of its status.
#[derive(Debug, PartialEq)]
pub struct ImportInfo {
    pub fingerprint: Option<String>,
    pub result_ok: bool,
    pub status_text: String,
}

/// The map the host sees for one imported key.
pub open spec fn import_term(i: ImportInfo) -> TermS {
    TermS::Dict(
        seq![
            (TermS::Atom("fingerprint"@), opt_text_term(i.fingerprint)),
            (
                TermS::Atom("result"@),
                if i.result_ok {
                    TermS::Atom("ok"@)
                } else {
                    TermS::Atom("error"@)
                },
            ),
            (TermS::Atom("status"@), TermS::Text(i.status_text@)),
        ],
    )
}

/// Encodes one imported key as the map the host sees.
pub fn as_map(i: &ImportInfo) -> (t: Term)
    ensures
        t@ == import_term(*i),
{
    let mut entries: Vec<(Term, Term)> = Vec::new();
    entries.push((Term::atom("fingerprint"), opt_text(&i.fingerprint)));
    let result = if i.result_ok {
        Term::atom("ok")
    } else {
        Term::atom("error")
    };
    entries.push((Term::atom("result"), result));
    entries.push((Term::atom("status"), Term::text(i.status_text.clone())));
    let t = Term::Dict(entries);
    proof {
        lemma_pair_shapes(entries@);
        assert(pair_shapes(entries@) =~= seq![
            (TermS::Atom("fingerprint"@), opt_text_term(i.fingerprint)),
            (
                TermS::Atom("result"@),
                if i.result_ok {
                    TermS::Atom("ok"@)
                } else {
                    TermS::Atom("error"@)
                },
            ),
            (TermS::Atom("status"@), TermS::Text(i.status_text@)),
        ]);
        assert(t@ =~~= import_term(*i));
    }
    t
}

/// The map for one imported key never repeats a key.
pub proof fn lemma_import_term_keys_distinct(i: ImportInfo)
    ensures
        import_term(i) matches TermS::Dict(entries) && distinct_keys(entries),
{
    reveal_strlit("fingerprint");
    reveal_strlit("result");
    reveal_strlit("status");
    assert(("fingerprint"@).len() == 11);
    assert(("result"@).len() == 6);
    assert(("status"@).len() == 6);
    assert(("result"@)[0] == 'r' && ("status"@)[0] == 's');
    let entries = import_term(i)->Dict_0;
    assert(entries.len() == 3);
    assert(entries[0].0 == TermS::Atom("fingerprint"@));
    assert(entries[1].0 == TermS::Atom("result"@));
    assert(entries[2].0 == TermS::Atom("status"@));
    assert forall|i: int, j: int| 0 <= i < j < entries.len() implies entries[i].0
        != entries[j].0 by {
        assert(i == 0 || i == 1 || i == 2);
        assert(j == 0 || j == 1 || j == 2);
    }
}

/// What the engine reports after an import: how many keys it considered,
/// imported or left unchanged, the same for secret keys, and one entry per
/// imported key.
#[derive(Debug, PartialEq)]
pub struct ImportOutcome {
    pub without_user_id: u32,
    pub new_user_ids: u32,
    pub new_subkeys: u32,
    pub new_revocations: u32,
    pub considered: u32,
    pub imported: u32,
    pub unchanged: u32,
    pub secret_considered: u32,
    pub secret_imported: u32,
    pub secret_unchanged: u32,
    pub not_imported: u32,
    pub imports: Vec<ImportInfo>,
}

/// The reply the host sees for an import.
pub open spec fn import_result_term(o: ImportOutcome) -> TermS {
    ok_reply_term(
        TermS::Dict(
            seq![
                (TermS::Atom("without_user_id"@), TermS::Int(o.without_user_id as u64)),
                (TermS::Atom("new_user_ids"@), TermS::Int(o.new_user_ids as u64)),
                (TermS::Atom("new_revocations"@), TermS::Int(o.new_revocations as u64)),
                (TermS::Atom("secret_considered"@), TermS::Int(o.secret_considered as u64)),
                (TermS::Atom("secret_imported"@), TermS::Int(o.secret_imported as u64)),
                (TermS::Atom("secret_unchanged"@), TermS::Int(o.secret_unchanged as u64)),
                (TermS::Atom("not_imported"@), TermS::Int(o.not_imported as u64)),
                (TermS::Atom("unchanged"@), TermS::Int(o.unchanged as u64)),
                (TermS::Atom("new_subkeys"@), TermS::Int(o.new_subkeys as u64)),
                (TermS::Atom("considered"@), TermS::Int(o.considered as u64)),
                (TermS::Atom("imported"@), TermS::Int(o.imported as u64)),
                (
                    TermS::Atom("imports"@),
                    TermS::List(o.imports@.map_values(|i: ImportInfo| import_term(i))),
                ),
            ],
        ),
    )
}

/// Encodes the engine's report of an import as the reply the host sees.
pub fn encode_import_result(o: &ImportOutcome) -> (r: Term)
    ensures
        r@ == import_result_term(*o),
{
    let ghost target = o.imports@.map_values(|i: ImportInfo| import_term(i));
    let mut maps: Vec<Term> = Vec::new();
    let mut i: usize = 0;
    proof {
        assert(shapes(maps@) =~= target.take(0));
    }
    while i < o.imports.len()
        invariant
            i <= o.imports.len(),
            target == o.imports@.map_values(|i: ImportInfo| import_term(i)),
            shapes(maps@) == target.take(i as int),
        decreases o.imports.len() - i,
    {
        let m = as_map(&o.imports[i]);
        let ghost pre = maps@;
        maps.push(m);
        i = i + 1;
        proof {
            lemma_shapes_push(pre, m);
            assert(shapes(maps@) =~= target.take(i as int));
        }
    }
    proof {
        assert(target.take(o.imports@.len() as int) =~= target);
    }
    let mut entries: Vec<(Term, Term)> = Vec::new();
    entries.push((Term::atom("without_user_id"), Term::Int(o.without_user_id as u64)));
    entries.push((Term::atom("new_user_ids"), Term::Int(o.new_user_ids as u64)));
    entries.push((Term::atom("new_revocations"), Term::Int(o.new_revocations as u64)));
    entries.push((Term::atom("secret_considered"), Term::Int(o.secret_considered as u64)));
    entries.push((Term::atom("secret_imported"), Term::Int(o.secret_imported as u64)));
    entries.push((Term::atom("secret_unchanged"), Term::Int(o.secret_unchanged as u64)));
    entries.push((Term::atom("not_imported"), Term::Int(o.not_imported as u64)));
    entries.push((Term::atom("unchanged"), Term::Int(o.unchanged as u64)));
    entries.push((Term::atom("new_subkeys"), Term::Int(o.new_subkeys as u64)));
    entries.push((Term::atom("considered"), Term::Int(o.considered as u64)));
    entries.push((Term::atom("imported"), Term::Int(o.imported as u64)));
    entries.push((Term::atom("imports"), Term::List(maps)));
    let inner = Term::Dict(entries);
    proof {
        lemma_pair_shapes(entries@);
        assert(pair_shapes(entries@) =~= seq![
            (TermS::Atom("without_user_id"@), TermS::Int(o.without_user_id as u64)),
            (TermS::Atom("new_user_ids"@), TermS::Int(o.new_user_ids as u64)),
            (TermS::Atom("new_revocations"@), TermS::Int(o.new_revocations as u64)),
            (TermS::Atom("secret_considered"@), TermS::Int(o.secret_considered as u64)),
            (TermS::Atom("secret_imported"@), TermS::Int(o.secret_imported as u64)),
            (TermS::Atom("secret_unchanged"@), TermS::Int(o.secret_unchanged as u64)),
            (TermS::Atom("not_imported"@), TermS::Int(o.not_imported as u64)),
            (TermS::Atom("unchanged"@), TermS::Int(o.unchanged as u64)),
            (TermS::Atom("new_subkeys"@), TermS::Int(o.new_subkeys as u64)),
            (TermS::Atom("considered"@), TermS::Int(o.considered as u64)),
            (TermS::Atom("imported"@), TermS::Int(o.imported as u64)),
            (TermS::Atom("imports"@), TermS::List(target)),
        ]);
        assert(inner@ =~~= TermS::Dict(
            seq![
                (TermS::Atom("without_user_id"@), TermS::Int(o.without_user_id as u64)),
                (TermS::Atom("new_user_ids"@), TermS::Int(o.new_user_ids as u64)),
                (TermS::Atom("new_revocations"@), TermS::Int(o.new_revocations as u64)),
                (TermS::Atom("secret_considered"@), TermS::Int(o.secret_considered as u64)),
                (TermS::Atom("secret_imported"@), TermS::Int(o.secret_imported as u64)),
                (TermS::Atom("secret_unchanged"@), TermS::Int(o.secret_unchanged as u64)),
                (TermS::Atom("not_imported"@), TermS::Int(o.not_imported as u64)),
                (TermS::Atom("unchanged"@), TermS::Int(o.unchanged as u64)),
                (TermS::Atom("new_subkeys"@), TermS::Int(o.new_subkeys as u64)),
                (TermS::Atom("considered"@), TermS::Int(o.considered as u64)),
                (TermS::Atom("imported"@), TermS::Int(o.imported as u64)),
                (
                    TermS::Atom("imports"@),
                    TermS::List(o.imports@.map_values(|i: ImportInfo| import_term(i))),
                ),
            ],
        ));
    }
    ok_reply(inner)
}

/// The import-report map never repeats a key.
pub proof fn lemma_import_result_keys_distinct(o: ImportOutcome)
    ensures
        import_result_term(o) matches TermS::Tuple(parts) && parts[1] matches TermS::Dict(entries)
            && distinct_keys(entries),
{
    reveal_strlit("without_user_id");
    reveal_strlit("new_user_ids");
    reveal_strlit("new_revocations");
    reveal_strlit("secret_considered");
    reveal_strlit("secret_imported");
    reveal_strlit("secret_unchanged");
    reveal_strlit("not_imported");
    reveal_strlit("unchanged");
    reveal_strlit("new_subkeys");
    reveal_strlit("considered");
    reveal_strlit("imported");
    reveal_strlit("imports");
    assert(("without_user_id"@).len() == 15);
    assert(("new_user_ids"@).len() == 12);
    assert(("new_revocations"@).len() == 15);
    assert(("secret_considered"@).len() == 17);
    assert(("secret_imported"@).len() == 15);
    assert(("secret_unchanged"@).len() == 16);
    assert(("not_imported"@).len() == 12);
    assert(("unchanged"@).len() == 9);
    assert(("new_subkeys"@).len() == 11);
    assert(("considered"@).len() == 10);
    assert(("imported"@).len() == 8);
    assert(("imports"@).len() == 7);
    assert(("without_user_id"@)[0] == 'w' && ("new_revocations"@)[0] == 'n'
        && ("secret_imported"@)[0] == 's');
    assert(("new_user_ids"@)[1] == 'e' && ("not_imported"@)[1] == 'o');
    let entries = (import_result_term(o)->Tuple_0)[1]->Dict_0;
    assert(entries.len() == 12);
    assert(entries[0].0 == TermS::Atom("without_user_id"@));
    assert(entries[1].0 == TermS::Atom("new_user_ids"@));
    assert(entries[2].0 == TermS::Atom("new_revocations"@));
    assert(entries[3].0 == TermS::Atom("secret_considered"@));
    assert(entries[4].0 == TermS::Atom("secret_imported"@));
    assert(entries[5].0 == TermS::Atom("secret_unchanged"@));
    assert(entries[6].0 == TermS::Atom("not_imported"@));
    assert(entries[7].0 == TermS::Atom("unchanged"@));
    assert(entries[8].0 == TermS::Atom("new_subkeys"@));
    assert(entries[9].0 == TermS::Atom("considered"@));
    assert(entries[10].0 == TermS::Atom("imported"@));
    assert(entries[11].0 == TermS::Atom("imports"@));
    assert forall|i: int, j: int| 0 <= i < j < entries.len() implies entries[i].0
        != entries[j].0 by {
        assert(i == 0 || i == 1 || i == 2 || i == 3 || i == 4 || i == 5 || i == 6 || i == 7
            || i == 8 || i == 9 || i == 10 || i == 11);
        assert(j == 0 || j == 1 || j == 2 || j == 3 || j == 4 || j == 5 || j == 6 || j == 7
            || j == 8 || j == 9 || j == 10 || j == 11);
    }
}

/// Replies to an import: the engine's report on success, the `error` symbol
/// on failure. The error parameter is the engine's raw error code.
pub fn import(outcome: Result<ImportOutcome, u32>) -> (r: Result<Term, NifError>)
    ensures
        outcome matches Ok(o) ==> (r matches Ok(t) && t@ == import_result_term(o)),
        outcome is Err ==> r == Err::<Term, NifError>(NifError::OperationFailed),
{
    match outcome {
        Ok(o) => Ok(encode_import_result(&o)),
        Err(_) => Err(NifError::OperationFailed),
    }
}

/// A signature notation read from the engine.
#[derive(Debug, PartialEq)]
pub struct SignatureNotation {
    pub name: Option<String>,
    pub value: Option<String>,
    pub critical: bool,
    pub human_readable: bool,
}

/// The map the host sees for one signature notation.
pub open spec fn notation_term(n: SignatureNotation) -> TermS {
    TermS::Dict(
        seq![
            (TermS::Atom("name"@), opt_text_term(n.name)),
            (TermS::Atom("value"@), opt_text_term(n.value)),
            (TermS::Atom("critical"@), TermS::Bool(n.critical)),
            (TermS::Atom("human_readable"@), TermS::Bool(n.human_readable)),
        ],
    )
}

/// Encodes one signature notation as the map the host sees.
pub fn encode_notation(n: &SignatureNotation) -> (t: Term)
    ensures
        t@ == notation_term(*n),
{
    let mut entries: Vec<(Term, Term)> = Vec::new();
    entries.push((Term::atom("name"), opt_text(&n.name)));
    entries.push((Term::atom("value"), opt_text(&n.value)));
    entries.push((Term::atom("critical"), Term::Bool(n.critical)));
    entries.push((Term::atom("human_readable"), Term::Bool(n.human_readable)));
    let t = Term::Dict(entries);
    proof {
        lemma_pair_shapes(entries@);
        assert(pair_shapes(entries@) =~= seq![
            (TermS::Atom("name"@), opt_text_term(n.name)),
            (TermS::Atom("value"@), opt_text_term(n.value)),
            (TermS::Atom("critical"@), TermS::Bool(n.critical)),
            (TermS::Atom("human_readable"@), TermS::Bool(n.human_readable)),
        ]);
        assert(t@ =~~= notation_term(*n));
    }
    t
}

/// The map for one notation never repeats a key.
pub proof fn lemma_notation_term_keys_distinct(n: SignatureNotation)
    ensures
        notation_term(n) matches TermS::Dict(entries) && distinct_keys(entries),
{
    reveal_strlit("name");
    reveal_strlit("value");
    reveal_strlit("critical");
    reveal_strlit("human_readable");
    assert(("name"@).len() == 4);
    assert(("value"@).len() == 5);
    assert(("critical"@).len() == 8);
    assert(("human_readable"@).len() == 14);
    let entries = notation_term(n)->Dict_0;
    assert(entries.len() == 4);
    assert(entries[0].0 == TermS::Atom("name"@));
    assert(entries[1].0 == TermS::Atom("value"@));
    assert(entries[2].0 == TermS::Atom("critical"@));
    assert(entries[3].0 == TermS::Atom("human_readable"@));
    assert forall|i: int, j: int| 0 <= i < j < entries.len() implies entries[i].0
        != entries[j].0 by {
        assert(i == 0 || i == 1 || i == 2 || i == 3);
        assert(j == 0 || j == 1 || j == 2 || j == 3);
    }
}

/// The reply the host sees for the notations on a context.
pub open spec fn notations_term(ns: Seq<SignatureNotation>) -> TermS {
    ok_reply_term(TermS::List(ns.map_values(|n: SignatureNotation| notation_term(n))))
}

/// Replies with the signature notations of a context.
pub fn signature_notations(ns: &Vec<SignatureNotation>) -> (r: Term)
    ensures
        r@ == notations_term(ns@),
{
    let ghost target = ns@.map_values(|n: SignatureNotation| notation_term(n));
    let mut maps: Vec<Term> = Vec::new();
    let mut i: usize = 0;
    proof {
        assert(shapes(maps@) =~= target.take(0));
    }
    while i < ns.len()
        invariant
            i <= ns.len(),
            target == ns@.map_values(|n: SignatureNotation| notation_term(n)),
            shapes(maps@) == target.take(i as int),
        decreases ns.len() - i,
    {
        let m = encode_notation(&ns[i]);
        let ghost pre = maps@;
        maps.push(m);
        i = i + 1;
        proof {
            lemma_shapes_push(pre, m);
            assert(shapes(maps@) =~= target.take(i as int));
        }
    }
    proof {
        assert(target.take(ns@.len() as int) =~= target);
    }
    ok_reply(Term::List(maps))
}

/// The engine's flag bit for a notation whose value is human-readable text.
pub const NOTATION_HUMAN_READABLE: u32 = 1;

/// The engine's flag bit for a notation that is critical.
pub const NOTATION_CRITICAL: u32 = 2;

/// The flag bit one host term selects: the `human_readable` and `critical`
/// symbols select their bits, and every other value selects nothing.
pub open spec fn notation_flag_of(t: TermS) -> u32 {
    if t == TermS::Atom("human_readable"@) {
        NOTATION_HUMAN_READABLE
    } else if t == TermS::Atom("critical"@) {
        NOTATION_CRITICAL
    } else {
        0
    }
}

/// The flags a list of host terms selects, folded left to right.
pub open spec fn notation_flags_of(s: Seq<TermS>) -> u32
    decreases s.len(),
{
    if s.len() == 0 {
        0u32
    } else {
        notation_flags_of(s.drop_last()) | notation_flag_of(s.last())
    }
}

/// Appending a term to the list folds its flag bit in.
pub proof fn lemma_notation_flags_push(s: Seq<TermS>, t: TermS)
    ensures
        notation_flags_of(s.push(t)) == notation_flags_of(s) | notation_flag_of(t),
{
    assert(s.push(t).drop_last() =~= s);
}

/// A list of host terms only ever selects the two notation flag bits.
pub proof fn lemma_notation_flags_known_bits(s: Seq<TermS>)
    ensures
        notation_flags_of(s) & 0xffff_fffcu32 == 0,
    decreases s.len(),
{
    if s.len() == 0 {
        assert(0u32 & 0xffff_fffcu32 == 0) by (bit_vector);
    } else {
        lemma_notation_flags_known_bits(s.drop_last());
        let a = notation_flags_of(s.drop_last());
        let b = notation_flag_of(s.last());
        assert(b == 0u32 || b == 1u32 || b == 2u32);
        assert((a | b) & 0xffff_fffcu32 == 0) by (bit_vector)
            requires
                a & 0xffff_fffcu32 == 0,
                b == 0u32 || b == 1u32 || b == 2u32,
        ;
    }
}

/// The human-readable bit is selected exactly where some element of the
/// list is the `human_readable` symbol.
pub proof fn lemma_notation_flags_human_readable(s: Seq<TermS>)
    ensures
        (notation_flags_of(s) & NOTATION_HUMAN_READABLE != 0) <==> (exists|i: int|
            0 <= i < s.len() && s[i] == TermS::Atom("human_readable"@)),
    decreases s.len(),
{
    if s.len() == 0 {
        assert(0u32 & 1u32 == 0) by (bit_vector);
    } else {
        let rest = s.drop_last();
        lemma_notation_flags_human_readable(rest);
        let a = notation_flags_of(rest);
        let b = notation_flag_of(s.last());
        assert(b == 0u32 || b == 1u32 || b == 2u32);
        assert(((a | b) & 1u32 != 0) <==> (a & 1u32 != 0 || b == 1u32)) by (bit_vector)
            requires
                b == 0u32 || b == 1u32 || b == 2u32,
        ;
        if (a | b) & 1u32 != 0 {
            if a & 1u32 != 0 {
                let i = choose|i: int|
                    0 <= i < rest.len() && rest[i] == TermS::Atom("human_readable"@);
                assert(s[i] == rest[i]);
            } else {
                assert(s[s.len() - 1] == TermS::Atom("human_readable"@));
            }
        }
        if exists|i: int| 0 <= i < s.len() && s[i] == TermS::Atom("human_readable"@) {
            let i = choose|i: int| 0 <= i < s.len() && s[i] == TermS::Atom("human_readable"@);
            if i < s.len() - 1 {
                assert(rest[i] == s[i]);
            } else {
                assert(s.last() == TermS::Atom("human_readable"@));
            }
        }
    }
}

/// The critical bit is selected exactly where some element of the list is
/// the `critical` symbol.
pub proof fn lemma_notation_flags_critical(s: Seq<TermS>)
    ensures
        (notation_flags_of(s) & NOTATION_CRITICAL != 0) <==> (exists|i: int|
            0 <= i < s.len() && s[i] == TermS::Atom("critical"@)),
    decreases s.len(),
{
    reveal_strlit("human_readable");
    reveal_strlit("critical");
    assert(("human_readable"@).len() == 14);
    assert(("critical"@).len() == 8);
    if s.len() == 0 {
        assert(0u32 & 2u32 == 0) by (bit_vector);
    } else {
        let rest = s.drop_last();
        lemma_notation_flags_critical(rest);
        let a = notation_flags_of(rest);
        let b = notation_flag_of(s.last());
        assert(b == 0u32 || b == 1u32 || b == 2u32);
        assert(((a | b) & 2u32 != 0) <==> (a & 2u32 != 0 || b == 2u32)) by (bit_vector)
            requires
                b == 0u32 || b == 1u32 || b == 2u32,
        ;
        if (a | b) & 2u32 != 0 {
            if a & 2u32 != 0 {
                let i = choose|i: int| 0 <= i < rest.len() && rest[i] == TermS::Atom("critical"@);
                assert(s[i] == rest[i]);
            } else {
                assert(s[s.len() - 1] == TermS::Atom("critical"@));
            }
        }
        if exists|i: int| 0 <= i < s.len() && s[i] == TermS::Atom("critical"@) {
            let i = choose|i: int| 0 <= i < s.len() && s[i] == TermS::Atom("critical"@);
            if i < s.len() - 1 {
                assert(rest[i] == s[i]);
            } else {
                assert(s.last() == TermS::Atom("critical"@));
            }
        }
    }
}

/// Reads the notation flags a list of host terms selects; values that name
/// no flag are passed over.
pub fn parse_notation_flags(flags: &Vec<Term>) -> (r: u32)
    ensures
        r == notation_flags_of(shapes(flags@)),
{
    let human_readable: String = "human_readable".to_owned();
    let critical: String = "critical".to_owned();
    let mut r: u32 = 0;
    let mut i: usize = 0;
    proof {
        assert(shapes(flags@.take(0)) =~= Seq::<TermS>::empty());
    }
    while i < flags.len()
        invariant
            i <= flags.len(),
            human_readable@ == "human_readable"@,
            critical@ == "critical"@,
            r == notation_flags_of(shapes(flags@.take(i as int))),
        decreases flags.len() - i,
    {
        let ghost pre = flags@.take(i as int);
        let next: u32 = match &flags[i] {
            Term::Atom(name) => {
                if *name == human_readable {
                    NOTATION_HUMAN_READABLE
                } else if *name == critical {
                    NOTATION_CRITICAL
                } else {
                    0
                }
            },
            _ => 0,
        };
        proof {
            assert(next == notation_flag_of(flags@[i as int]@));
        }
        if next != 0 {
            r = r | next;
        } else {
            proof {
                assert(r | next == r) by (bit_vector)
                    requires
                        next == 0u32,
                ;
            }
        }
        i = i + 1;
        proof {
            assert(flags@.take(i as int) =~= pre.push(flags@[i as int - 1]));
            lemma_shapes_push(pre, flags@[i as int - 1]);
            lemma_notation_flags_push(shapes(pre), flags@[i as int - 1]@);
        }
    }
    proof {
        assert(flags@.take(flags@.len() as int) =~= flags@);
    }
    r
}

/// Replies with the sender of a context: the address itself, the `none`
/// symbol where none is set, and the `error` symbol where the engine
/// failed. The error parameter is the engine's raw error code.
pub fn sender(outcome: Result<String, u32>) -> (r: Result<Term, NifError>)
    ensures
        outcome matches Ok(s) ==> (if s@.len() == 0 {
            r matches Ok(t) && t@ == TermS::Atom("none"@)
        } else {
            r matches Ok(t) && t@ == TermS::Text(s@)
        }),
        outcome is Err ==> r == Err::<Term, NifError>(NifError::OperationFailed),
{
    match outcome {
        Ok(s) => {
            if s.as_str().is_empty() {
                Ok(Term::atom("none"))
            } else {
                Ok(Term::Text(s))
            }
        },
        Err(_) => Err(NifError::OperationFailed),
    }
}

/// Replies to an operation that yields no value — setting or clearing the
/// sender, adding a notation: the `ok` symbol on success, the `error`
/// symbol on failure. The error parameter is the engine's raw error code.
pub fn ack_reply(outcome: Result<(), u32>) -> (r: Result<Term, NifError>)
    ensures
        outcome is Ok ==> (r matches Ok(t) && t@ == TermS::Atom("ok"@)),
        outcome is Err ==> r == Err::<Term, NifError>(NifError::OperationFailed),
{
    match outcome {
        Ok(_) => Ok(Term::atom("ok")),
        Err(_) => Err(NifError::OperationFailed),
    }
}

} // verus!
