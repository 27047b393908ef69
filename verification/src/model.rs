//! The mathematical model of a positional byte store.
//!
//! A store is modelled as a sequence of bytes addressed from a fixed origin.
//! Implementations of the capability traits describe themselves through
//! [`StoreModel`]; the traits' contracts are stated over that model.

use vstd::prelude::*;

verus! {

/// The spec-level view of a positional byte store.
///
/// `data()` is the store's content, addressed from offset zero. The three
/// boolean knobs let one contract cover honest in-memory stores as well as
/// wrappers (such as the lock-backed bridge) whose content cannot be tracked
/// through a shared handle:
/// - `transparent()`: `data()` faithfully describes what the operations read
///   and write. When it is false, the content-related contract clauses say
///   nothing.
/// - `infallible()`: operations within bounds are guaranteed to succeed and
///   to make maximal progress.
/// - `interruption_budget()`: an upper bound on the transient interruptions
///   the store may still report. Every `Interrupted` result of an
///   exclusive-handle call shrinks it, no call grows it, and that is what
///   lets the retry loops terminate.
pub trait StoreModel {
    /// The bytes the store holds, addressed from offset zero.
    spec fn data(&self) -> Seq<u8>;

    /// Whether `data()` faithfully models the store's observable content.
    spec fn transparent(&self) -> bool;

    /// Whether in-bounds operations always succeed with maximal progress.
    spec fn infallible(&self) -> bool;

    /// How many `Interrupted` results the store may still report.
    spec fn interruption_budget(&self) -> nat;
}

/// The content of a store of content `data` after `bytes` have been written
/// starting at `offset`. Writing past the end first pads the gap with zero
/// bytes, as a file or an in-memory cursor would; writing nothing changes
/// nothing, wherever the offset points.
pub open spec fn write_effect(data: Seq<u8>, offset: int, bytes: Seq<u8>) -> Seq<u8>
    recommends
        0 <= offset,
{
    if bytes.len() == 0 {
        data
    } else {
        let end = if offset + bytes.len() <= data.len() {
            data.len() as int
        } else {
            offset + bytes.len()
        };
        Seq::new(
            end as nat,
            |i: int|
                if offset <= i < offset + bytes.len() {
                    bytes[i - offset]
                } else if 0 <= i < data.len() {
                    data[i]
                } else {
                    0u8
                },
        )
    }
}

/// How many bytes a maximally-progressing read of a `buf_len`-byte buffer at
/// `offset` transfers out of a store of `data_len` bytes.
pub open spec fn full_read_len(data_len: int, offset: int, buf_len: int) -> int {
    if offset >= data_len {
        0
    } else if data_len - offset < buf_len {
        data_len - offset
    } else {
        buf_len
    }
}

/// Two consecutive writes of adjacent chunks have the same effect as one
/// write of their concatenation. This is what lets the exact-write loop
/// summarise its partial progress.
pub proof fn lemma_write_effect_append(data: Seq<u8>, offset: int, first: Seq<u8>, second: Seq<u8>)
    requires
        0 <= offset,
    ensures
        write_effect(write_effect(data, offset, first), offset + first.len(), second)
            == write_effect(data, offset, first + second),
{
    let one = write_effect(data, offset, first);
    let two = write_effect(one, offset + first.len(), second);
    let whole = write_effect(data, offset, first + second);
    if second.len() == 0 {
        assert(first + second =~= first);
    } else if first.len() == 0 {
        assert(first + second =~= second);
    } else {
        assert(two =~= whole);
    }
}

} // verus!
