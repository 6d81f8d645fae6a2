use vstd::prelude::*;
use crate::error::EngineError;
use crate::text::{decimal, push_decimal, push_signed_decimal, same_text, signed_decimal};
use crate::vector::{ascending_entries, SparseVector};

verus! {

/// The index origin that a consumer of rendered vectors expects. Nothing
/// else differs between the dialects.
#[derive(Clone, Copy, Debug, PartialEq, Eq, Structural)]
pub enum OutputDialect {
    /// Dimension indexes are emitted as they are.
    ZeroBased,
    /// Every dimension index is emitted one higher.
    OneBased,
}

impl OutputDialect {
    /// What is added to every dimension index at rendering.
    pub open spec fn offset(self) -> nat {
        match self {
            OutputDialect::ZeroBased => 0,
            OutputDialect::OneBased => 1,
        }
    }

    /// The dialect that a dialect token names, if it names one.
    pub open spec fn named(style: Seq<char>) -> Option<OutputDialect> {
        if style == "pgvecto.rs"@ {
            Some(OutputDialect::ZeroBased)
        } else if style == "pgvector"@ {
            Some(OutputDialect::OneBased)
        } else {
            None
        }
    }

    /// Reads a dialect token: `"pgvecto.rs"` counts from zero, `"pgvector"`
    /// from one, and any other token is refused.
    pub fn parse(style: &str) -> (r: Result<OutputDialect, EngineError>)
        ensures
            match OutputDialect::named(style@) {
                Some(dialect) => r == Ok::<OutputDialect, EngineError>(dialect),
                None => r == Err::<OutputDialect, EngineError>(
                    EngineError::UnsupportedOutputDialect,
                ),
            },
    {
        if same_text(style, "pgvecto.rs") {
            Ok(OutputDialect::ZeroBased)
        } else if same_text(style, "pgvector") {
            Ok(OutputDialect::OneBased)
        } else {
            Err(EngineError::UnsupportedOutputDialect)
        }
    }
}

/// One rendered entry: the index, a colon, the text of the weight.
pub open spec fn entry_text(entry: (nat, Seq<char>)) -> Seq<char> {
    decimal(entry.0) + seq![':'] + entry.1
}

/// The rendered entries in order, with `", "` between neighbours and
/// nothing after the last.
pub open spec fn joined(entries: Seq<(nat, Seq<char>)>) -> Seq<char>
    decreases entries.len(),
{
    if entries.len() == 0 {
        Seq::empty()
    } else if entries.len() == 1 {
        entry_text(entries[0])
    } else {
        joined(entries.drop_last()) + seq![',', ' '] + entry_text(entries.last())
    }
}

/// The envelope around the entries: braces, a slash, and the declared
/// dimensionality.
pub open spec fn rendered(entries: Seq<(nat, Seq<char>)>, dims: int) -> Seq<char> {
    seq!['{'] + joined(entries) + seq!['}', '/'] + signed_decimal(dims)
}

/// The entries as they are emitted: every index raised by `offset`, every
/// weight by its text.
pub open spec fn emitted(entries: Seq<(u32, String)>, offset: nat) -> Seq<(nat, Seq<char>)> {
    entries.map_values(|e: (u32, String)| ((e.0 + offset) as nat, e.1@))
}

/// The same entries with every index one higher.
pub open spec fn incremented(entries: Seq<(nat, Seq<char>)>) -> Seq<(nat, Seq<char>)> {
    entries.map_values(|e: (nat, Seq<char>)| (e.0 + 1, e.1))
}

/// The text of a sparse vector in a dialect: the entries by ascending
/// index inside braces, then a slash and `dims`.
pub open spec fn formatted(weights: Map<u32, String>, dims: int, dialect: OutputDialect) -> Seq<
    char,
> {
    rendered(emitted(ascending_entries(weights), dialect.offset()), dims)
}

/// Renders `vector` in `dialect`, with `dims` as its declared
/// dimensionality. The weights are emitted as the texts that the vector
/// holds for them.
pub fn format(vector: &SparseVector<String>, dims: i32, dialect: OutputDialect) -> (r: String)
    ensures
        r@ == formatted(vector@, dims as int, dialect),
{
    let entries = vector.entries();
    let offset: u64 = match dialect {
        OutputDialect::ZeroBased => 0,
        OutputDialect::OneBased => 1,
    };
    let ghost all = emitted(ascending_entries(vector@), dialect.offset());
    assert(all.len() == entries@.len()) by {
        assert(entries@.map_values(|e: (u32, &String)| (e.0, *e.1)).len() == entries@.len());
    }
    let mut out = String::new();
    out.push('{');
    let mut i: usize = 0;
    while i < entries.len()
        invariant
            i <= entries.len(),
            offset == dialect.offset(),
            all == emitted(ascending_entries(vector@), dialect.offset()),
            all.len() == entries@.len(),
            entries@.map_values(|e: (u32, &String)| (e.0, *e.1)) == ascending_entries(vector@),
            out@ == seq!['{'] + joined(all.take(i as int)),
        decreases entries.len() - i,
    {
        let ghost before = out@;
        let ghost head = all.take(i as int);
        let ghost entry = all[i as int];
        proof {
            let plain = entries@.map_values(|e: (u32, &String)| (e.0, *e.1));
            assert(plain[i as int] == (entries@[i as int].0, *entries@[i as int].1));
            assert(entry == ((entries@[i as int].0 + offset) as nat, entries@[i as int].1@));
            assert(all.take(i + 1).drop_last() =~= head);
            assert(all.take(i + 1).last() == entry);
        }
        if i > 0 {
            out.push(',');
            out.push(' ');
        }
        push_decimal(&mut out, entries[i].0 as u64 + offset);
        out.push(':');
        out.append(entries[i].1.as_str());
        proof {
            if i > 0 {
                assert(out@ =~= seq!['{'] + (joined(head) + seq![',', ' '] + entry_text(entry)));
            } else {
                assert(head =~= Seq::<(nat, Seq<char>)>::empty());
                assert(out@ =~= seq!['{'] + entry_text(entry));
            }
        }
        i += 1;
    }
    proof {
        assert(all.take(i as int) =~= all);
    }
    out.push('}');
    out.push('/');
    push_signed_decimal(&mut out, dims as i64);
    proof {
        assert(out@ =~= rendered(all, dims as int));
    }
    out
}

/// Renders `vector` in the dialect that `style` names, or fails where
/// `style` names none.
pub fn format_styled(vector: &SparseVector<String>, dims: i32, style: &str) -> (r: Result<
    String,
    EngineError,
>)
    ensures
        match OutputDialect::named(style@) {
            Some(dialect) => r is Ok && r->Ok_0@ == formatted(vector@, dims as int, dialect),
            None => r == Err::<String, EngineError>(EngineError::UnsupportedOutputDialect),
        },
{
    match OutputDialect::parse(style) {
        Ok(dialect) => Ok(format(vector, dims, dialect)),
        Err(e) => Err(e),
    }
}

/// Counting from one renders what counting from zero renders, but for the
/// indexes, each of which stands exactly one higher; the weights and the
/// rest of the text are the same.
pub proof fn lemma_dialect_offset(weights: Map<u32, String>, dims: int)
    ensures
        formatted(weights, dims, OutputDialect::ZeroBased) == rendered(
            emitted(ascending_entries(weights), 0),
            dims,
        ),
        formatted(weights, dims, OutputDialect::OneBased) == rendered(
            incremented(emitted(ascending_entries(weights), 0)),
            dims,
        ),
{
    let entries = ascending_entries(weights);
    assert(emitted(entries, 1) =~= incremented(emitted(entries, 0)));
}

/// A vector that holds no weight renders as empty braces, a slash and the
/// dimensionality, whatever the dialect.
pub proof fn lemma_empty_vector_text(dims: int, dialect: OutputDialect)
    ensures
        formatted(Map::<u32, String>::empty(), dims, dialect) == seq!['{', '}', '/']
            + signed_decimal(dims),
{
    let m = Map::<u32, String>::empty();
    crate::vector::lemma_ascending_entries_enumerate(m);
    let entries = ascending_entries(m);
    if entries.len() > 0 {
        assert(m.contains_key(entries[0].0));
    }
    assert(emitted(entries, dialect.offset()) =~= Seq::<(nat, Seq<char>)>::empty());
    assert(formatted(m, dims, dialect) =~= seq!['{', '}', '/'] + signed_decimal(dims));
}

} // verus!
