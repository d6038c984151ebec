//! A model of the host runtime's values: the tagged atoms, integers,
//! binaries, lists, maps and tuples that every binding hands back to the
//! caller. Encoders in the other modules build `Term` values; the glue that
//! talks to the runtime only transcribes them.
use vstd::prelude::*;

verus! {

/// A host-runtime value as the bindings construct it.
#[derive(Debug, PartialEq)]
pub enum Term {
    /// An interned symbol, named by its text.
    Atom(String),
    /// A boolean value.
    Bool(bool),
    /// An unsigned integer.
    Int(u64),
    /// A textual binary.
    Text(String),
    /// A proper list.
    List(Vec<Term>),
    /// A map, held as its entries in insertion order; keys are distinct.
    Dict(Vec<(Term, Term)>),
    /// A tuple.
    Tuple(Vec<Term>),
}

/// The mathematical shape of a `Term`.
#[verifier::ext_equal]
pub enum TermS {
    Atom(Seq<char>),
    Bool(bool),
    Int(u64),
    Text(Seq<char>),
    List(Seq<TermS>),
    Dict(Seq<(TermS, TermS)>),
    Tuple(Seq<TermS>),
}

/// The shape of a term.
pub open spec fn term_shape(t: Term) -> TermS
    decreases t,
{
    match t {
        Term::Atom(s) => TermS::Atom(s@),
        Term::Bool(b) => TermS::Bool(b),
        Term::Int(n) => TermS::Int(n),
        Term::Text(s) => TermS::Text(s@),
        Term::List(v) => TermS::List(shapes(v@)),
        Term::Dict(v) => TermS::Dict(pair_shapes(v@)),
        Term::Tuple(v) => TermS::Tuple(shapes(v@)),
    }
}

/// The shapes of a sequence of terms, element by element.
pub open spec fn shapes(s: Seq<Term>) -> Seq<TermS>
    decreases s,
{
    if s.len() == 0 {
        Seq::empty()
    } else {
        shapes(s.drop_last()).push(term_shape(s.last()))
    }
}

/// The shapes of a sequence of key-value pairs, element by element.
pub open spec fn pair_shapes(s: Seq<(Term, Term)>) -> Seq<(TermS, TermS)>
    decreases s,
{
    if s.len() == 0 {
        Seq::empty()
    } else {
        pair_shapes(s.drop_last()).push((term_shape(s.last().0), term_shape(s.last().1)))
    }
}

/// `shapes` maps `term_shape` over its argument.
pub broadcast proof fn lemma_shapes(s: Seq<Term>)
    ensures
        (#[trigger] shapes(s)).len() == s.len(),
        forall|i: int| 0 <= i < s.len() ==> shapes(s)[i] == term_shape(s[i]),
    decreases s.len(),
{
    if s.len() > 0 {
        lemma_shapes(s.drop_last());
    }
}

/// `pair_shapes` maps `term_shape` over both components of its argument.
pub broadcast proof fn lemma_pair_shapes(s: Seq<(Term, Term)>)
    ensures
        (#[trigger] pair_shapes(s)).len() == s.len(),
        forall|i: int|
            0 <= i < s.len() ==> pair_shapes(s)[i] == (
                term_shape(s[i].0),
                term_shape(s[i].1),
            ),
    decreases s.len(),
{
    if s.len() > 0 {
        lemma_pair_shapes(s.drop_last());
    }
}

/// Appending a term to a sequence appends its shape.
pub broadcast proof fn lemma_shapes_push(s: Seq<Term>, t: Term)
    ensures
        #[trigger] shapes(s.push(t)) == shapes(s).push(term_shape(t)),
{
    assert(s.push(t).drop_last() =~= s);
}

impl View for Term {
    type V = TermS;

    open spec fn view(&self) -> TermS {
        term_shape(*self)
    }
}

impl DeepView for Term {
    type V = TermS;

    open spec fn deep_view(&self) -> TermS {
        term_shape(*self)
    }
}

impl Term {
    /// The atom with the given name.
    pub fn atom(name: &str) -> (t: Term)
        ensures
            t@ == TermS::Atom(name@),
    {
        Term::Atom(name.to_owned())
    }

    /// The textual binary with the given contents.
    pub fn text(contents: String) -> (t: Term)
        ensures
            t@ == TermS::Text(contents@),
    {
        Term::Text(contents)
    }
}

/// No two entries of a map share a key.
pub open spec fn distinct_keys(entries: Seq<(TermS, TermS)>) -> bool {
    forall|i: int, j: int| 0 <= i < j < entries.len() ==> entries[i].0 != entries[j].0
}

/// The term for an optional text: the text itself, or the `none` symbol.
pub open spec fn opt_text_term(o: Option<String>) -> TermS {
    match o {
        Some(s) => TermS::Text(s@),
        None => TermS::Atom("none"@),
    }
}

/// Encodes an optional text as the text itself, or the `none` symbol.
pub fn opt_text(o: &Option<String>) -> (t: Term)
    ensures
        t@ == opt_text_term(*o),
{
    match o {
        Some(s) => Term::Text(s.clone()),
        None => Term::atom("none"),
    }
}

/// The term for an optional timestamp: the seconds themselves, or the
/// `unknown` symbol where the engine gave no usable time.
pub open spec fn opt_time_term(o: Option<u64>) -> TermS {
    match o {
        Some(secs) => TermS::Int(secs),
        None => TermS::Atom("unknown"@),
    }
}

/// Encodes an optional timestamp as its seconds, or the `unknown` symbol.
pub fn opt_time(o: &Option<u64>) -> (t: Term)
    ensures
        t@ == opt_time_term(*o),
{
    match o {
        Some(secs) => Term::Int(*secs),
        None => Term::atom("unknown"),
    }
}

/// The reply shape shared by every successful binding: `{ok, value}`.
pub open spec fn ok_reply_term(value: TermS) -> TermS {
    TermS::Tuple(seq![TermS::Atom("ok"@), value])
}

/// Wraps a value as the runtime's success tuple `{ok, value}`.
pub fn ok_reply(value: Term) -> (t: Term)
    ensures
        t@ == ok_reply_term(value@),
{
    let ghost value_shape = value@;
    let mut parts: Vec<Term> = Vec::new();
    parts.push(Term::atom("ok"));
    parts.push(value);
    let t = Term::Tuple(parts);
    proof {
        lemma_shapes(parts@);
        assert(shapes(parts@) =~= seq![TermS::Atom("ok"@), value_shape]);
        assert(t@ =~~= ok_reply_term(value_shape));
    }
    t
}

} // verus!
